use omini::json::Json;
use omini::tools::bash_tool::output_text;
use omini::tools::bash_tool::BashInput;
use omini::tools::bash_tool::BashTool;
use omini::tools::bash_tool::ShellOutcome;
use omini::tools::bash_tool::MAX_TIMEOUT_MS;
use omini::tools::clean_json_error;
use omini::tools::create_default_registry;
use omini::tools::permission::after_answer;
use omini::tools::permission::after_prepare;
use omini::tools::permission::invalid_input;
use omini::tools::permission::DefaultPermissionPolicy;
use omini::tools::permission::PendingToolPauses;
use omini::tools::permission::PermissionPolicy;
use omini::tools::permission::PermissionPolicyDecision;
use omini::tools::permission::PermissionRequest;
use omini::tools::permission::ToolExecutionContext;
use omini::tools::permission::ToolStep;
use omini::tools::subagent_tool::SubagentInput;
use omini::tools::subagent_tool::SubagentTool;
use omini::tools::subagent_tool::MAX_TITLE_CHARS;
use omini::tools::tool_metadata;
use omini::tools::RegisteredTool;
use omini::tools::ToolRegistry;
use omini::tools::ToolResult;
use omini::types::events::BashPreview;
use omini::types::events::PermissionPreview;
use omini::types::events::ReadPreview;
use omini::types::events::ToolPauseResponse;

fn bash_input(timeout: Option<u64>) -> BashInput {
    BashInput {
        command: "ls".to_string(),
        description: None,
        timeout,
        workdir: None,
    }
}

fn ended(success: bool, code: Option<i32>, stdout: &[u8], stderr: &[u8]) -> ShellOutcome {
    ShellOutcome::Ended {
        success,
        code,
        stdout: stdout.to_vec(),
        stderr: stderr.to_vec(),
    }
}

#[test]
fn shell_output_is_trimmed() {
    let result = BashTool.execute(&bash_input(None), ended(true, Some(0), b"  a\n\n", b""));
    assert!(!result.is_error);
    assert_eq!(result.output, "a");
    let result = BashTool.execute(&bash_input(None), ended(true, Some(0), b"", b"noise"));
    assert_eq!(result.output, "(no output)");
}

#[test]
fn failed_command_shows_its_exit_code() {
    let result = BashTool.execute(&bash_input(None), ended(false, Some(-3), b"out", b"err"));
    assert!(!result.is_error);
    assert_eq!(result.output, "Exit code: -3\nout\nerr");
    assert_eq!(output_text(false, None, "", ""), "Exit code: ?\n\n");
}

#[test]
fn output_that_is_no_text_is_read_with_replacements() {
    let result = BashTool.execute(&bash_input(None), ended(true, Some(0), b"a\xffb", b""));
    assert_eq!(result.output, "a\u{fffd}b");
}

#[test]
fn commands_get_no_more_than_the_most_time() {
    assert_eq!(BashTool.timeout(&bash_input(None)), 120_000);
    assert_eq!(BashTool.timeout(&bash_input(Some(5))), 5);
    assert_eq!(BashTool.timeout(&bash_input(Some(u64::MAX))), MAX_TIMEOUT_MS);
    let result = BashTool.execute(&bash_input(Some(7)), ShellOutcome::TimedOut);
    assert!(result.is_error);
    assert_eq!(result.output, "Command timed out after 7ms");
    let result = BashTool.execute(
        &bash_input(None),
        ShellOutcome::NotStarted("no shell".to_string()),
    );
    assert_eq!(result.output, "Failed to spawn shell: no shell");
}

#[test]
fn results_become_blocks() {
    let metadata = tool_metadata(vec![("lines", Json::Bool(true))]);
    let block = ToolResult::ok("done".to_string())
        .with_metadata(metadata)
        .into_block("t1");
    assert_eq!(block.tool_use_id, "t1");
    assert!(!block.is_error);
    assert_eq!(block.content, "done");
    assert_eq!(
        block.metadata,
        Some(vec![("lines".to_string(), Json::Bool(true))])
    );
}

#[test]
fn json_errors_lose_their_position() {
    assert_eq!(
        clean_json_error("missing field `command` at line 1 column 2"),
        "missing field `command`"
    );
    assert_eq!(clean_json_error("plain"), "plain");
    assert_eq!(
        clean_json_error("unknown field `stop at line 3 here` at line 12 column 40"),
        "unknown field `stop at line 3 here`"
    );
    assert_eq!(clean_json_error("stop at line three"), "stop at line three");
    assert_eq!(
        invalid_input("missing field `command` at line 1 column 2").output,
        "Invalid tool input: missing field `command`"
    );
}

#[test]
fn tool_registered_again_takes_its_place() {
    let mut registry = ToolRegistry::new();
    registry.register(RegisteredTool::new("a", "first", Json::Null));
    registry.register(RegisteredTool::new("b", "other", Json::Null));
    registry.register(RegisteredTool::new("a", "second", Json::Null));
    assert_eq!(registry.get("a").unwrap().description, "second");
    let names: Vec<String> = registry.definitions().into_iter().map(|d| d.name).collect();
    assert_eq!(names, vec!["a".to_string(), "b".to_string()]);
    assert!(registry.get("c").is_none());
}

#[test]
fn default_registry_has_the_four_tools() {
    let registry = create_default_registry(
        Json::Null,
        RegisteredTool::new("read", "reads", Json::Null),
        RegisteredTool::new("edit", "edits", Json::Null),
        Json::Null,
    );
    let names: Vec<String> = registry.definitions().into_iter().map(|d| d.name).collect();
    assert_eq!(
        names,
        vec![
            "bash".to_string(),
            "read".to_string(),
            "edit".to_string(),
            "write".to_string()
        ]
    );
}

fn bash_preview() -> PermissionPreview {
    PermissionPreview::Bash(BashPreview {
        command: "rm".to_string(),
        description: None,
    })
}

fn read_preview() -> PermissionPreview {
    PermissionPreview::Read(ReadPreview {
        file_path: "/a".to_string(),
    })
}

#[test]
fn reading_needs_no_permission() {
    let policy = DefaultPermissionPolicy;
    assert_eq!(
        policy.decide("read", &read_preview()),
        PermissionPolicyDecision::AutoAllow
    );
    assert_eq!(
        policy.decide("bash", &bash_preview()),
        PermissionPolicyDecision::AskUser
    );
    assert!(matches!(
        after_prepare(&policy, "read", Some(&read_preview())),
        ToolStep::Run
    ));
    assert!(matches!(
        after_prepare(&policy, "bash", Some(&bash_preview())),
        ToolStep::Ask
    ));
    assert!(matches!(after_prepare(&policy, "bash", None), ToolStep::Run));
}

#[test]
fn tool_runs_only_when_allowed() {
    let yes = ToolPauseResponse::Permission { approved: true };
    let no = ToolPauseResponse::Permission { approved: false };
    assert!(matches!(after_answer("bash", &yes), ToolStep::Run));
    match after_answer("bash", &no) {
        ToolStep::Refuse(r) => assert_eq!(r.output, "Permission denied for tool: bash"),
        _ => panic!("it ran"),
    }
    match after_answer("bash", &ToolPauseResponse::Cancelled) {
        ToolStep::Refuse(r) => assert_eq!(r.output, "Tool execution cancelled"),
        _ => panic!("it ran"),
    }
    match after_answer("bash", &ToolPauseResponse::UserInput { value: Json::Null }) {
        ToolStep::Refuse(r) => assert_eq!(
            r.output,
            "Received user input response for permission request"
        ),
        _ => panic!("it ran"),
    }
}

#[test]
fn call_is_asked_about_once() {
    let context = ToolExecutionContext {
        tool_use_id: "t1".to_string(),
        tool_name: "bash".to_string(),
        agent_label: None,
    };
    let mut pending = PendingToolPauses::new();
    assert!(matches!(
        context.request_permission(true, &mut pending, bash_preview()),
        PermissionRequest::Answered(ToolPauseResponse::Cancelled)
    ));
    match context.request_permission(false, &mut pending, bash_preview()) {
        PermissionRequest::Ask(request) => assert_eq!(request.tool_use_id, "t1"),
        _ => panic!("nothing was asked"),
    }
    assert!(matches!(
        context.request_permission(false, &mut pending, bash_preview()),
        PermissionRequest::Answered(ToolPauseResponse::Permission { approved: false })
    ));
    context.remove_pending_pause(&mut pending);
    assert!(!pending.contains("t1"));
    assert!(!pending.remove("t1"));
}

#[test]
fn subagent_titles_are_short() {
    let input = SubagentInput {
        name: "explorer".to_string(),
        prompt: "look".to_string(),
        title: Some(format!("  {}  ", "t".repeat(200))),
    };
    let prepared = SubagentTool.prepare(input).unwrap();
    assert_eq!(prepared.title.unwrap().chars().count(), MAX_TITLE_CHARS);
    let blank = SubagentInput {
        name: "explorer".to_string(),
        prompt: "look".to_string(),
        title: Some("   ".to_string()),
    };
    assert_eq!(SubagentTool.prepare(blank).unwrap().title, None);
    let nameless = SubagentInput {
        name: " ".to_string(),
        prompt: "look".to_string(),
        title: None,
    };
    assert_eq!(
        SubagentTool.prepare(nameless).unwrap_err().output,
        "name must not be empty"
    );
}

#[test]
fn subagents_start_no_subagents() {
    assert!(SubagentTool.check_session(Some("main")).is_none());
    assert_eq!(
        SubagentTool.check_session(Some("subagent")).unwrap().output,
        "subagent tool is not available inside subagents"
    );
    assert_eq!(
        SubagentTool.check_session(None).unwrap().output,
        "subagent requires runtime context"
    );
}
