//! Writing whole files.
use crate::json;
use crate::json::Json;
use crate::json::JsonView;
use crate::paths;
use crate::text;
use crate::tools;
use crate::tools::ResultView;
use crate::tools::ToolResult;
use crate::types::events::EditPermissionPreview;
use crate::types::events::PermissionPreview;
use vstd::prelude::*;

verus! {

pub const DESCRIPTION: &'static str = "Write a complete UTF-8 text file to the local filesystem.\n\nUse this to create a new file or fully overwrite an existing file.\n\nInput:\n  file_path  Absolute path to the file.\n  content    Complete file content to write.\n\nRules:\n  - file_path must be absolute; relative paths are rejected.\n  - The parent directory must already exist.\n  - The target path must not be a directory.\n  - The tool validates the path before permission approval and validates it again before writing.";

#[derive(Debug, PartialEq, Eq)]
pub struct WriteInput {
    pub file_path: String,
    pub content: String,
}

#[derive(Debug)]
pub struct WriteTool;

/// A checked write, ready to run.
#[derive(Debug)]
pub struct PreparedWrite {
    pub input: WriteInput,
    pub preview: EditPermissionPreview,
    pub existed: bool,
}

/// What is on disk where a file is to be written.
#[derive(Debug, Clone, Copy, PartialEq, Eq, Structural)]
pub struct TargetFacts {
    pub parent_exists: bool,
    pub parent_is_dir: bool,
    pub is_dir: bool,
    pub exists: bool,
}

/// How a write went.
#[derive(Debug)]
pub struct WriteReport {
    pub output: String,
    pub added_lines: usize,
    pub existed: bool,
}

/// How many lines `s` spans: one more than it has line breaks, none where it is empty.
pub open spec fn lines_spanned(s: Seq<char>) -> int {
    if s.len() == 0 {
        0
    } else {
        breaks_in(s) + 1
    }
}

pub open spec fn breaks_in(s: Seq<char>) -> int
    decreases s.len(),
{
    if s.len() == 0 {
        0
    } else {
        breaks_in(s.drop_last()) + (if s.last() == '\n' {
            1int
        } else {
            0int
        })
    }
}

/// A text whose spanned lines cannot be counted does not fit in memory.
pub fn line_span_count(s: &str) -> (r: usize)
    requires
        s@.len() < usize::MAX,
    ensures
        r == lines_spanned(s@),
{
    let chars = text::chars_of(s);
    let mut n: usize = 0;
    let mut i: usize = 0;
    while i < chars.len()
        invariant
            chars@ == s@,
            i <= s@.len(),
            n <= i,
            s@.len() < usize::MAX,
            n == breaks_in(s@.take(i as int)),
        decreases s@.len() - i,
    {
        assert(s@.take(i + 1).drop_last() =~= s@.take(i as int));
        if chars[i] == '\n' {
            n = n + 1;
        }
        i = i + 1;
    }
    assert(s@.take(s@.len() as int) =~= s@);
    if chars.len() == 0 {
        0
    } else {
        n + 1
    }
}

/// Whether the file at `path` can be written, and if so whether one is there already.
pub open spec fn target(path: Seq<char>, facts: TargetFacts) -> Result<bool, Seq<char>> {
    if text::trimmed(path).len() == 0 {
        Err("file_path must not be empty"@)
    } else if !paths::absolute(path) {
        Err("file_path must be absolute: "@ + path)
    } else {
        match paths::parent_of(path) {
            None => Err("Path has no parent directory: "@ + path),
            Some(parent) => if !facts.parent_exists {
                Err("Parent directory does not exist: "@ + parent)
            } else if !facts.parent_is_dir {
                Err("Parent path is not a directory: "@ + parent)
            } else if facts.is_dir {
                Err("Path is a directory: "@ + path)
            } else {
                Ok(facts.exists)
            },
        }
    }
}

pub fn validate_target(input: &WriteInput, facts: TargetFacts) -> (r: Result<bool, String>)
    ensures
        match r {
            Ok(b) => target(input.file_path@, facts) == Ok::<bool, Seq<char>>(b),
            Err(e) => target(input.file_path@, facts) == Err::<bool, Seq<char>>(e@),
        },
{
    let path = input.file_path.as_str();
    let bare = text::trim(path);
    if text::char_count(bare.as_str()) == 0 {
        return Err(text::copy("file_path must not be empty"));
    }
    if !paths::is_absolute(path) {
        return Err(text::concat("file_path must be absolute: ", path));
    }
    match paths::parent(path) {
        None => Err(text::concat("Path has no parent directory: ", path)),
        Some(parent) => if !facts.parent_exists {
            Err(text::concat("Parent directory does not exist: ", parent.as_str()))
        } else if !facts.parent_is_dir {
            Err(text::concat("Parent path is not a directory: ", parent.as_str()))
        } else if facts.is_dir {
            Err(text::concat("Path is a directory: ", path))
        } else {
            Ok(facts.exists)
        },
    }
}

/// What the user is shown before the write.
pub open spec fn previews(input: WriteInput, existed: bool, p: EditPermissionPreview) -> bool {
    &&& p.summary@ == (if existed {
        "Overwrite "@
    } else {
        "Create "@
    }) + input.file_path@
    &&& p.path@ == input.file_path@
    &&& p.replacement_count == 1
    &&& !p.replace_all
    &&& p.start_lines@ == seq![1usize]
    &&& p.added_lines == lines_spanned(input.content@)
    &&& p.removed_lines == 0
}

pub fn build_preview(input: &WriteInput, existed: bool) -> (r: EditPermissionPreview)
    requires
        input.content@.len() < usize::MAX,
    ensures
        previews(*input, existed, r),
{
    let action = if existed {
        "Overwrite "
    } else {
        "Create "
    };
    let mut start_lines: Vec<usize> = Vec::new();
    start_lines.push(1);
    assert(start_lines@ =~= seq![1usize]);
    EditPermissionPreview {
        summary: text::concat(action, input.file_path.as_str()),
        path: input.file_path.clone(),
        replacement_count: 1,
        replace_all: false,
        start_lines,
        added_lines: line_span_count(input.content.as_str()),
        removed_lines: 0,
    }
}

/// The numbers as JSON values.
pub open spec fn numbers_view(list: Seq<usize>) -> Seq<JsonView> {
    Seq::new(list.len(), |i: int| json::nat_view(list[i] as u64))
}

fn numbers(list: &Vec<usize>) -> (r: Vec<Json>)
    ensures
        json::list_view(r@) == numbers_view(list@),
{
    let mut out: Vec<Json> = Vec::new();
    let mut i: usize = 0;
    while i < list.len()
        invariant
            i <= list@.len(),
            out@.len() == i,
            forall|k: int| 0 <= k < i ==> (#[trigger] out@[k])@ == json::nat_view(list@[k] as u64),
        decreases list@.len() - i,
    {
        out.push(json::nat_value(list[i] as u64));
        i = i + 1;
    }
    assert(json::list_view(out@) =~= numbers_view(list@));
    out
}

pub open spec fn input_view(input: WriteInput) -> JsonView {
    JsonView::Object(
        seq![
            ("file_path"@, JsonView::Str(input.file_path@)),
            ("content"@, JsonView::Str(input.content@)),
        ],
    )
}

pub open spec fn preview_view(p: EditPermissionPreview) -> JsonView {
    JsonView::Object(
        seq![
            ("summary"@, JsonView::Str(p.summary@)),
            ("path"@, JsonView::Str(p.path@)),
            ("replacement_count"@, json::nat_view(p.replacement_count as u64)),
            ("replace_all"@, JsonView::Bool(p.replace_all)),
            ("start_lines"@, JsonView::Array(numbers_view(p.start_lines@))),
            ("added_lines"@, json::nat_view(p.added_lines as u64)),
            ("removed_lines"@, json::nat_view(p.removed_lines as u64)),
        ],
    )
}

fn input_json(input: &WriteInput) -> (r: Json)
    ensures
        r@ == input_view(*input),
{
    let mut e: Vec<(String, Json)> = Vec::new();
    proof {
        json::lemma_empty_views();
    }
    json::put(&mut e, "file_path", json::str_value(input.file_path.as_str()));
    json::put(&mut e, "content", json::str_value(input.content.as_str()));
    assert(json::entries_view(e@) =~= input_view(*input)->Object_0);
    json::object(e)
}

fn preview_json(p: &EditPermissionPreview) -> (r: Json)
    ensures
        r@ == preview_view(*p),
{
    let mut e: Vec<(String, Json)> = Vec::new();
    proof {
        json::lemma_empty_views();
    }
    json::put(&mut e, "summary", json::str_value(p.summary.as_str()));
    json::put(&mut e, "path", json::str_value(p.path.as_str()));
    json::put(&mut e, "replacement_count", json::nat_value(p.replacement_count as u64));
    json::put(&mut e, "replace_all", Json::Bool(p.replace_all));
    json::put(&mut e, "start_lines", json::array(numbers(&p.start_lines)));
    json::put(&mut e, "added_lines", json::nat_value(p.added_lines as u64));
    json::put(&mut e, "removed_lines", json::nat_value(p.removed_lines as u64));
    assert(json::entries_view(e@) =~= preview_view(*p)->Object_0);
    json::object(e)
}

/// What a write that was checked again and tried comes to.
pub open spec fn reported(
    prepared: PreparedWrite,
    checked: Result<bool, Seq<char>>,
    trouble: Option<Seq<char>>,
) -> Result<(Seq<char>, int, bool), Seq<char>> {
    match checked {
        Err(e) => Err(e),
        Ok(existed) => match trouble {
            Some(e) => Err("Failed to write file "@ + prepared.input.file_path@ + ": "@ + e),
            None => Ok(
                (
                    (if existed {
                        "Overwrote "@
                    } else {
                        "Created "@
                    }) + prepared.input.file_path@,
                    lines_spanned(prepared.input.content@),
                    existed,
                ),
            ),
        },
    }
}

/// The report on a write: `checked` is the second check of the target, `trouble` the error of
/// the write itself, which is tried only where the check went well.
pub fn execute_write(
    prepared: &PreparedWrite,
    checked: Result<bool, String>,
    trouble: Option<String>,
) -> (r: Result<WriteReport, String>)
    requires
        prepared.input.content@.len() < usize::MAX,
    ensures
        ({
            let c: Result<bool, Seq<char>> = match checked {
                Ok(b) => Ok(b),
                Err(e) => Err(e@),
            };
            match r {
                Ok(w) => reported(*prepared, c, json::opt_view(trouble)) == Ok::<
                    (Seq<char>, int, bool),
                    Seq<char>,
                >((w.output@, w.added_lines as int, w.existed)),
                Err(e) => reported(*prepared, c, json::opt_view(trouble)) == Err::<
                    (Seq<char>, int, bool),
                    Seq<char>,
                >(e@),
            }
        }),
{
    let existed = match checked {
        Ok(b) => b,
        Err(e) => {
            return Err(e);
        },
    };
    match trouble {
        Some(e) => {
            let mut m = text::concat("Failed to write file ", prepared.input.file_path.as_str());
            m.push_str(": ");
            m.push_str(e.as_str());
            Err(m)
        },
        None => {
            let action = if existed {
                "Overwrote "
            } else {
                "Created "
            };
            Ok(
                WriteReport {
                    output: text::concat(action, prepared.input.file_path.as_str()),
                    added_lines: line_span_count(prepared.input.content.as_str()),
                    existed,
                },
            )
        },
    }
}

/// The result of the call, with what was written behind it.
pub open spec fn write_result(
    prepared: PreparedWrite,
    report: Result<WriteReport, String>,
) -> ResultView {
    match report {
        Ok(w) => ResultView {
            output: w.output@,
            is_error: false,
            metadata: Some(
                seq![
                    ("input"@, input_view(prepared.input)),
                    ("permission_preview"@, preview_view(prepared.preview)),
                    ("file_path"@, JsonView::Str(prepared.input.file_path@)),
                    ("added_lines"@, json::nat_view(w.added_lines as u64)),
                    ("existed"@, JsonView::Bool(w.existed)),
                ],
            ),
        },
        Err(e) => ResultView {
            output: e@,
            is_error: true,
            metadata: Some(
                seq![
                    ("input"@, input_view(prepared.input)),
                    ("permission_preview"@, preview_view(prepared.preview)),
                    ("added_lines"@, json::nat_view(0)),
                    ("existed"@, JsonView::Bool(prepared.existed)),
                ],
            ),
        },
    }
}

impl WriteTool {
    pub fn name(&self) -> (r: &'static str)
        ensures
            r@ == "write"@,
    {
        "write"
    }

    pub fn description(&self) -> (r: &'static str)
        ensures
            r@ == DESCRIPTION@,
    {
        DESCRIPTION
    }

    pub fn prepare(&self, input: WriteInput, facts: TargetFacts) -> (r: Result<
        PreparedWrite,
        ToolResult,
    >)
        requires
            input.content@.len() < usize::MAX,
        ensures
            match r {
                Ok(p) => target(input.file_path@, facts) == Ok::<bool, Seq<char>>(p.existed)
                    && p.input == input && previews(input, p.existed, p.preview),
                Err(e) => target(input.file_path@, facts) matches Err(m) && e@ == tools::failed(m),
            },
    {
        match validate_target(&input, facts) {
            Err(e) => Err(ToolResult::error(e)),
            Ok(existed) => {
                let preview = build_preview(&input, existed);
                Ok(PreparedWrite { input, preview, existed })
            },
        }
    }

    pub fn permission_preview(&self, prepared: &PreparedWrite) -> (r: Option<PermissionPreview>)
        ensures
            r matches Some(PermissionPreview::Write(p)) && same_preview(p, prepared.preview),
    {
        Some(PermissionPreview::Write(copy_preview(&prepared.preview)))
    }

    pub fn execute_prepared(&self, prepared: &PreparedWrite, report: Result<WriteReport, String>)
        -> (r: ToolResult)
        ensures
            r@ == write_result(*prepared, report),
    {
        let mut e: Vec<(String, Json)> = Vec::new();
        proof {
            json::lemma_empty_views();
        }
        json::put(&mut e, "input", input_json(&prepared.input));
        json::put(&mut e, "permission_preview", preview_json(&prepared.preview));
        match report {
            Ok(w) => {
                json::put(&mut e, "file_path", json::str_value(prepared.input.file_path.as_str()));
                json::put(&mut e, "added_lines", json::nat_value(w.added_lines as u64));
                json::put(&mut e, "existed", Json::Bool(w.existed));
                assert(json::entries_view(e@) =~= write_result(*prepared, Ok(w)).metadata->0);
                ToolResult::ok(w.output).with_metadata(e)
            },
            Err(m) => {
                json::put(&mut e, "added_lines", json::nat_value(0));
                json::put(&mut e, "existed", Json::Bool(prepared.existed));
                assert(json::entries_view(e@) =~= write_result(*prepared, Err(m)).metadata->0);
                ToolResult::error(m).with_metadata(e)
            },
        }
    }
}

/// Whether two previews say the same.
pub open spec fn same_preview(a: EditPermissionPreview, b: EditPermissionPreview) -> bool {
    &&& a.summary == b.summary
    &&& a.path == b.path
    &&& a.replacement_count == b.replacement_count
    &&& a.replace_all == b.replace_all
    &&& a.start_lines@ == b.start_lines@
    &&& a.added_lines == b.added_lines
    &&& a.removed_lines == b.removed_lines
}

fn copy_preview(p: &EditPermissionPreview) -> (r: EditPermissionPreview)
    ensures
        same_preview(r, *p),
{
    let mut start_lines: Vec<usize> = Vec::new();
    let mut i: usize = 0;
    while i < p.start_lines.len()
        invariant
            i <= p.start_lines@.len(),
            start_lines@ == p.start_lines@.take(i as int),
        decreases p.start_lines@.len() - i,
    {
        start_lines.push(p.start_lines[i]);
        assert(start_lines@ =~= p.start_lines@.take(i + 1));
        i = i + 1;
    }
    assert(p.start_lines@.take(p.start_lines@.len() as int) =~= p.start_lines@);
    EditPermissionPreview {
        summary: p.summary.clone(),
        path: p.path.clone(),
        replacement_count: p.replacement_count,
        replace_all: p.replace_all,
        start_lines,
        added_lines: p.added_lines,
        removed_lines: p.removed_lines,
    }
}

} // verus!
