use omini::tools::apply_patch_tool::parse_patch;
use omini::tools::apply_patch_tool::ApplyPatchInput;
use omini::tools::apply_patch_tool::Hunk;
use omini::tools::apply_patch_tool::PatchOp;
use omini::tools::patch_apply::apply_hunk;
use omini::tools::patch_apply::find_hunk_position;
use omini::tools::patch_apply::MatchError;
use omini::tools::patch_run::apply_hunks;
use omini::tools::patch_steps::op_step;
use omini::tools::patch_steps::ApplyPatchTool;
use omini::tools::patch_steps::OpAction;
use omini::tools::patch_steps::OpEvent;
use omini::tools::patch_steps::OpState;
use omini::tools::ToolResult;
use std::collections::BTreeMap;

#[test]
fn test_parse_add_file() {
    let input = "*** Begin Patch\n\
        *** Add File: /tmp/test.txt\n\
        +Hello, world!\n\
        +Second line\n\
        *** End Patch";
    let ops = parse_patch(input).unwrap();
    assert_eq!(ops.len(), 1);
    match &ops[0] {
        PatchOp::Add { path, content } => {
            assert_eq!(path, "/tmp/test.txt");
            assert_eq!(
                content,
                &vec!["Hello, world!".to_string(), "Second line".to_string()]
            );
        }
        _ => panic!("Expected Add op"),
    }
}

#[test]
fn test_parse_delete_file() {
    let input = "*** Begin Patch\n*** Delete File: /tmp/old.txt\n*** End Patch";
    let ops = parse_patch(input).unwrap();
    assert_eq!(ops.len(), 1);
    match &ops[0] {
        PatchOp::Delete { path } => assert_eq!(path, "/tmp/old.txt"),
        _ => panic!("Expected Delete op"),
    }
}

#[test]
fn test_parse_update_file() {
    let input = "*** Begin Patch\n*** Update File: /tmp/test.txt\n@@ L10\n line1\n-old_line\n+new_line\n line3\n*** End Patch";
    let ops = parse_patch(input).unwrap();
    assert_eq!(ops.len(), 1);
    match &ops[0] {
        PatchOp::Update {
            path,
            new_path,
            hunks,
        } => {
            assert_eq!(path, "/tmp/test.txt");
            assert!(new_path.is_none());
            assert_eq!(hunks.len(), 1);
            assert_eq!(hunks[0].line_anchor, 10);
            assert_eq!(hunks[0].before, vec!["line1", "old_line", "line3"]);
            assert_eq!(hunks[0].after, vec!["line1", "new_line", "line3"]);
        }
        _ => panic!("Expected Update op"),
    }
}

#[test]
fn test_parse_update_with_move() {
    let input = "*** Begin Patch\n*** Update File: /tmp/old.rs\n*** Move to: /tmp/new.rs\n@@ L1\n fn main() {}\n*** End Patch";
    let ops = parse_patch(input).unwrap();
    match &ops[0] {
        PatchOp::Update { path, new_path, .. } => {
            assert_eq!(path, "/tmp/old.rs");
            assert_eq!(new_path.as_deref(), Some("/tmp/new.rs"));
        }
        _ => panic!("Expected Update op"),
    }
}

#[test]
fn test_parse_multi_ops() {
    let input = "*** Begin Patch\n*** Add File: /tmp/a.txt\n+content a\n*** Update File: /tmp/b.txt\n@@ L5\n-old\n+new\n*** Delete File: /tmp/c.txt\n*** End Patch";
    let ops = parse_patch(input).unwrap();
    assert_eq!(ops.len(), 3);
    assert!(matches!(&ops[0], PatchOp::Add { .. }));
    assert!(matches!(&ops[1], PatchOp::Update { .. }));
    assert!(matches!(&ops[2], PatchOp::Delete { .. }));
}

#[test]
fn test_parse_empty_input() {
    assert!(parse_patch("").is_err());
}

#[test]
fn test_parse_missing_begin() {
    assert!(parse_patch("*** End Patch").is_err());
}

#[test]
fn test_parse_missing_end() {
    let input = "*** Begin Patch\n*** Add File: /tmp/a.txt\n+hello";
    assert!(parse_patch(input).is_err());
}

#[test]
fn test_parse_end_of_file_marker() {
    let input = "*** Begin Patch\n*** Update File: /tmp/test.txt\n@@ L2\n line1\n+new_line\n*** End of File\n*** End Patch";
    let ops = parse_patch(input).unwrap();
    match &ops[0] {
        PatchOp::Update { hunks, .. } => {
            assert!(hunks[0].is_end_of_file);
            assert_eq!(hunks[0].line_anchor, 2);
            assert_eq!(hunks[0].before, vec!["line1"]);
            assert_eq!(hunks[0].after, vec!["line1", "new_line"]);
        }
        _ => panic!("Expected Update op"),
    }
}

#[test]
fn test_parse_multi_header_lines() {
    let input = "*** Begin Patch\n*** Update File: /tmp/test.txt\n@@ L42\n-old_code\n+new_code\n*** End Patch";
    let ops = parse_patch(input).unwrap();
    match &ops[0] {
        PatchOp::Update { hunks, .. } => {
            assert_eq!(hunks[0].line_anchor, 42);
        }
        _ => panic!("Expected Update op"),
    }
}

fn make_lines(lines: &[&str]) -> Vec<String> {
    lines.iter().map(|s| s.to_string()).collect()
}

fn hunk(anchor: usize, before: &[&str], after: &[&str], end: bool) -> Hunk {
    Hunk {
        line_anchor: anchor,
        before: make_lines(before),
        after: make_lines(after),
        is_end_of_file: end,
    }
}

#[test]
fn test_match_simple() {
    let file = make_lines(&["a", "b", "c", "d", "e"]);
    let hunk = hunk(2, &["b", "c"], &["b", "x"], false);
    assert_eq!(find_hunk_position(&file, &hunk).unwrap(), 1);
}

#[test]
fn test_match_not_found() {
    let file = make_lines(&["a", "b", "c"]);
    let hunk = hunk(2, &["x", "y"], &["x", "z"], false);
    assert!(find_hunk_position(&file, &hunk).is_err());
}

#[test]
fn test_match_ambiguous() {
    let file = make_lines(&["a", "b", "c", "a", "b", "c", "d"]);
    let hunk = hunk(4, &["a", "b", "c"], &["a", "x", "c"], false);
    let result = find_hunk_position(&file, &hunk);
    assert!(result.is_err());
    if let Err(MatchError::Ambiguous { positions }) = result {
        assert_eq!(positions.len(), 2);
    } else {
        panic!("Expected Ambiguous error");
    }
}

#[test]
fn test_match_end_of_file() {
    let file = make_lines(&["a", "b", "c"]);
    let hunk = hunk(1, &[], &["d"], true);
    assert_eq!(find_hunk_position(&file, &hunk).unwrap(), 3);
}

#[test]
fn test_apply_hunk_replace() {
    let mut lines = make_lines(&["a", "b", "c", "d"]);
    apply_hunk(&mut lines, 1, &hunk(2, &["b", "c"], &["b", "x"], false));
    assert_eq!(lines, make_lines(&["a", "b", "x", "d"]));
}

#[test]
fn test_apply_hunk_append_at_end() {
    let mut lines = make_lines(&["a", "b"]);
    apply_hunk(&mut lines, 2, &hunk(1, &[], &["c"], true));
    assert_eq!(lines, make_lines(&["a", "b", "c"]));
}

#[test]
fn test_apply_hunk_insert() {
    let mut lines = make_lines(&["a", "d"]);
    apply_hunk(&mut lines, 0, &hunk(1, &["a"], &["a", "b", "c"], false));
    assert_eq!(lines, make_lines(&["a", "b", "c", "d"]));
}

#[test]
fn test_apply_hunk_delete() {
    let mut lines = make_lines(&["a", "b", "c"]);
    apply_hunk(&mut lines, 1, &hunk(2, &["b"], &[], false));
    assert_eq!(lines, make_lines(&["a", "c"]));
}

/// Files kept in memory.
struct Disk {
    files: BTreeMap<String, String>,
    /// An action that fails, by its name.
    broken: &'static str,
}

impl Disk {
    fn with(files: &[(&str, &str)]) -> Self {
        let mut all = BTreeMap::new();
        for (path, content) in files {
            all.insert(path.to_string(), content.to_string());
        }
        Disk { files: all, broken: "" }
    }

    fn outcome(&self, name: &str) -> OpEvent {
        if self.broken == name {
            OpEvent::Failed("broken".to_string())
        } else {
            OpEvent::Succeeded
        }
    }

    fn perform(&mut self, action: OpAction) -> Result<OpEvent, Result<String, String>> {
        match action {
            OpAction::Look(path) => Ok(OpEvent::Exists(self.files.contains_key(&path))),
            OpAction::MakeParent(_) => Ok(self.outcome("parent")),
            OpAction::Read(path) => {
                if self.broken == "read" {
                    Ok(OpEvent::Failed("broken".to_string()))
                } else {
                    Ok(OpEvent::Content(self.files[&path].clone()))
                }
            }
            OpAction::Write { path, content } => {
                let outcome = self.outcome("write");
                if outcome == OpEvent::Succeeded {
                    self.files.insert(path, content);
                }
                Ok(outcome)
            }
            OpAction::Rename { from, to } => {
                let outcome = self.outcome("rename");
                if outcome == OpEvent::Succeeded {
                    let content = self.files.remove(&from).unwrap();
                    self.files.insert(to, content);
                }
                Ok(outcome)
            }
            OpAction::Remove(path) => {
                let outcome = self.outcome("remove");
                if outcome == OpEvent::Succeeded {
                    self.files.remove(&path);
                }
                Ok(outcome)
            }
            OpAction::Done(note) => Err(Ok(note)),
            OpAction::GiveUp(reason) => Err(Err(reason)),
        }
    }

    fn run(&mut self, op: &PatchOp) -> Result<String, String> {
        let mut state = OpState::Fresh;
        let mut event = OpEvent::Begin;
        loop {
            let (next, action) = op_step(op, state, event);
            state = next;
            match self.perform(action) {
                Ok(came) => event = came,
                Err(end) => return end,
            }
        }
    }

    fn apply_patch(&mut self, input: &str) -> ToolResult {
        let tool = ApplyPatchTool;
        let input = ApplyPatchInput { input: input.to_string() };
        let ops = match tool.operations(&input) {
            Ok(ops) => ops,
            Err(result) => return result,
        };
        let mut notes: Vec<String> = Vec::new();
        for op in &ops {
            match self.run(op) {
                Ok(note) => notes.push(note),
                Err(reason) => return tool.finish(&notes, &Some(reason), ops.len()),
            }
        }
        tool.finish(&notes, &None, ops.len())
    }
}

#[test]
fn test_apply_patch_add_file() {
    let mut disk = Disk::with(&[]);
    let result = disk.apply_patch(
        "*** Begin Patch\n*** Add File: /t/new_file.txt\n+Hello, world!\n+Second line\n*** End Patch",
    );
    assert!(!result.is_error);
    assert!(result.output.contains("Created"));
    assert_eq!(disk.files["/t/new_file.txt"], "Hello, world!\nSecond line");
    assert_eq!(
        result.output,
        "apply_patch: All 1 operation(s) completed successfully\n\n  [1/1] OK -- Created /t/new_file.txt (2 lines)"
    );
}

#[test]
fn test_apply_patch_update_file() {
    let mut disk = Disk::with(&[("/t/test.txt", "line1\nold_line\nline3\n")]);
    let result = disk.apply_patch(
        "*** Begin Patch\n*** Update File: /t/test.txt\n@@ L1\n line1\n-old_line\n+new_line\n line3\n*** End Patch",
    );
    assert!(!result.is_error);
    assert!(result.output.contains("Updated"));
    assert_eq!(disk.files["/t/test.txt"], "line1\nnew_line\nline3");
    assert!(result.output.ends_with("[1/1] OK -- Updated /t/test.txt (1 hunks, -1/+1 lines)"));
}

#[test]
fn test_apply_patch_delete_file() {
    let mut disk = Disk::with(&[("/t/to_delete.txt", "content")]);
    let result =
        disk.apply_patch("*** Begin Patch\n*** Delete File: /t/to_delete.txt\n*** End Patch");
    assert!(!result.is_error);
    assert!(result.output.contains("Deleted"));
    assert!(!disk.files.contains_key("/t/to_delete.txt"));
}

#[test]
fn test_apply_patch_update_nonexistent_fails() {
    let mut disk = Disk::with(&[]);
    let result = disk.apply_patch(
        "*** Begin Patch\n*** Update File: /tmp/__nonexistent_file_xyz__/test.txt\n@@ L1\n old\n-bad\n+good\n*** End Patch",
    );
    assert!(result.is_error);
    assert!(result
        .output
        .contains("FAIL -- File not found: /tmp/__nonexistent_file_xyz__/test.txt"));
}

#[test]
fn test_apply_patch_add_existing_fails() {
    let mut disk = Disk::with(&[("/t/exists.txt", "existing")]);
    let result = disk
        .apply_patch("*** Begin Patch\n*** Add File: /t/exists.txt\n+new content\n*** End Patch");
    assert!(result.is_error);
    assert!(result.output.contains("File already exists: /t/exists.txt"));
    assert_eq!(disk.files["/t/exists.txt"], "existing");
}

#[test]
fn test_apply_patch_composite_fails_midway() {
    let mut disk = Disk::with(&[("/t/modify.txt", "old\ncontent\n")]);
    let result = disk.apply_patch(
        "*** Begin Patch\n*** Add File: /t/keep.txt\n+new file\n*** Update File: /t/modify.txt\n@@ L1\n-old\n+new\n content\n*** Delete File: /t/ghost.txt\n*** End Patch",
    );
    assert!(result.is_error);
    let err = result.output;
    assert!(err.contains("[3/3]") || err.contains("Failed"));
    assert!(err.contains("[1/3]") || err.contains("Completed"));
    assert!(disk.files.contains_key("/t/keep.txt"));
    assert_eq!(
        err,
        "apply_patch: Operation 3/3 failed\n\nCompleted operations:\n  [1/3] OK -- Created /t/keep.txt (1 lines)\n  [2/3] OK -- Updated /t/modify.txt (1 hunks, -1/+1 lines)\n\n  [3/3] FAIL -- File not found: /t/ghost.txt\n"
    );
}

#[test]
fn test_apply_patch_empty_file_append() {
    let mut disk = Disk::with(&[("/t/empty.txt", "")]);
    let result = disk.apply_patch(
        "*** Begin Patch\n*** Update File: /t/empty.txt\n@@ L1\n+first line\n*** End of File\n*** End Patch",
    );
    assert!(!result.is_error);
    assert!(result.output.contains("Updated"));
    assert_eq!(disk.files["/t/empty.txt"], "first line");
}

#[test]
fn patch_operations_after_a_failure_are_skipped() {
    let mut disk = Disk::with(&[]);
    let result = disk.apply_patch(
        "*** Begin Patch\n*** Delete File: /t/a\n*** Delete File: /t/b\n*** Delete File: /t/c\n*** End Patch",
    );
    assert!(result.output.contains("  [2/3] SKIP -- (depends on previous)\n"));
    assert!(result.output.contains("  [3/3] SKIP -- (depends on previous)\n"));
}

#[test]
fn patch_without_operations_is_an_error() {
    let mut disk = Disk::with(&[]);
    let result = disk.apply_patch("*** Begin Patch\n*** End Patch");
    assert!(result.is_error);
    assert_eq!(result.output, "No operations found in patch");
}

#[test]
fn moved_file_is_renamed() {
    let mut disk = Disk::with(&[("/t/old.rs", "a\nb\n")]);
    let result = disk.apply_patch(
        "*** Begin Patch\n*** Update File: /t/old.rs\n*** Move to: /t/new.rs\n@@ L1\n a\n-b\n+c\n+d\n*** End Patch",
    );
    assert!(!result.is_error);
    assert_eq!(disk.files["/t/new.rs"], "a\nc\nd");
    assert!(!disk.files.contains_key("/t/old.rs"));
    assert!(result
        .output
        .ends_with("Updated and renamed /t/old.rs -> /t/new.rs (1 hunks, -1/+2 lines)"));
}

#[test]
fn failed_actions_are_told() {
    let update = "*** Begin Patch\n*** Update File: /t/a\n*** Move to: /t/b\n@@ L1\n-x\n+y\n*** End Patch";
    let add = "*** Begin Patch\n*** Add File: /t/n\n+x\n*** End Patch";
    let delete = "*** Begin Patch\n*** Delete File: /t/a\n*** End Patch";
    let expected: [(&str, &'static str, &str); 6] = [
        (add, "parent", "Failed to create parent directories for /t/n: broken"),
        (add, "write", "Failed to write /t/n: broken"),
        (update, "read", "Failed to read /t/a: broken"),
        (update, "parent", "Failed to create parent directories for /t/b: broken"),
        (update, "rename", "Failed to rename /t/a to /t/b: broken"),
        (delete, "remove", "Failed to delete /t/a: broken"),
    ];
    for (patch, broken, reason) in expected {
        let mut disk = Disk::with(&[("/t/a", "x")]);
        disk.broken = broken;
        let result = disk.apply_patch(patch);
        assert!(result.is_error);
        assert!(result.output.contains(reason), "{}", result.output);
    }
}

#[test]
fn hunk_that_does_not_fit_leaves_the_file_alone() {
    let mut disk = Disk::with(&[("/t/a", "x\ny")]);
    let result = disk.apply_patch(
        "*** Begin Patch\n*** Update File: /t/a\n@@ L1\n-q\n+r\n*** End Patch",
    );
    assert!(result.is_error);
    assert!(result
        .output
        .contains("Hunk 1 (L1) for /t/a: Could not find matching context"));
    assert_eq!(disk.files["/t/a"], "x\ny");
}

#[test]
fn unexpected_event_ends_the_operation() {
    let op = PatchOp::Delete { path: "/t/a".to_string() };
    let (state, action) = op_step(&op, OpState::Removing, OpEvent::Exists(true));
    assert_eq!(state, OpState::Over);
    assert_eq!(action, OpAction::GiveUp(String::new()));
}

#[test]
fn later_hunks_follow_the_lines_that_came_before() {
    let hunks = vec![
        hunk(1, &["a"], &["a", "a2", "a3"], false),
        hunk(3, &["c"], &["d"], false),
    ];
    let outcome = apply_hunks("f", "a\nb\nc\n", &hunks).unwrap();
    assert_eq!(outcome.content, "a\na2\na3\nb\nd");
    assert_eq!(outcome.hunks, 2);
    assert_eq!(outcome.removed, 1);
    assert_eq!(outcome.added, 3);
}

#[test]
fn ambiguous_hunk_names_the_places() {
    let hunks = vec![hunk(4, &["a", "b", "c"], &["a", "x", "c"], false)];
    let reason = apply_hunks("f", "a\nb\nc\na\nb\nc\nd", &hunks).unwrap_err();
    assert_eq!(
        reason,
        "Hunk 1 (L4) for f: Context matches at multiple locations:\n  line 1, line 4\n Use a more specific line number or add more context lines."
    );
}

#[test]
fn apply_patch_tool_is_described() {
    assert_eq!(ApplyPatchTool.name(), "apply_patch");
    assert!(ApplyPatchTool
        .description()
        .starts_with("Edit files via a structured patch format."));
}
