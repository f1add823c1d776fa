use omini::command::init::build_init_query;
use omini::command::init::INIT_PROMPT;
use omini::subagents::builtins::built_in_agents;
use omini::subagents::parser::normalize_allow_tools;
use omini::subagents::parser::normalize_tool_name;
use omini::subagents::parser::normalize_tools;
use omini::subagents::parser::parse_agent_file;
use omini::subagents::parser::parse_quoted;
use omini::subagents::parser::split_frontmatter;
use omini::subagents::registry::AgentRegistry;
use omini::subagents::runner::extract_final_text;
use omini::subagents::AgentModelSpec;
use omini::tools::subagent_tool::SubagentInput;
use omini::tools::subagent_tool::SubagentTool;
use omini::tools::write_tool::execute_write;
use omini::tools::write_tool::line_span_count;
use omini::tools::write_tool::validate_target;
use omini::tools::write_tool::TargetFacts;
use omini::tools::write_tool::WriteInput;
use omini::tools::write_tool::WriteTool;
use omini::types::display::MentionKind;
use omini::types::message::ContentBlock;
use omini::types::message::Message;
use omini::types::message::Role;

fn load(files: &[(&str, &str)]) -> AgentRegistry {
    let mut registry = AgentRegistry::with_built_ins();
    for (path, content) in files {
        registry.add_file(path, Ok(content.to_string()));
    }
    registry
}

fn strings(list: &[&str]) -> Vec<String> {
    list.iter().map(|s| s.to_string()).collect()
}

#[test]
fn parses_custom_agent_with_string_tools() {
    let registry = load(&[(
        "translator.md",
        r#"---
name: code-comment-translator
description: "Translate code comments"
tools: "Bash, Read, Subagent"
---
Translate comments without changing code.
"#,
    )]);
    let agent = registry.get("code-comment-translator").unwrap();

    assert!(registry.diagnostics.is_empty());
    assert_eq!(agent.description, "Translate code comments");
    assert_eq!(
        agent.tool_policy.allow.as_deref(),
        Some(["bash".to_string(), "read".to_string()].as_slice())
    );
    assert!(agent.tool_policy.deny.is_none());
    assert_eq!(
        agent.instructions,
        "Translate comments without changing code."
    );
}

#[test]
fn parses_custom_agent_with_array_tools() {
    let registry = load(&[(
        "reader.md",
        r#"---
name: reader
description: Read only
tools: ["Read", "bash"]
---
Inspect files and report findings.
"#,
    )]);
    let agent = registry.get("reader").unwrap();

    assert!(registry.diagnostics.is_empty());
    assert_eq!(
        agent.tool_policy.allow.as_deref(),
        Some(["read".to_string(), "bash".to_string()].as_slice())
    );
}

#[test]
fn leaves_allowlist_unset_when_tools_missing() {
    let registry = load(&[(
        "general.md",
        r#"---
name: general
description: General helper
---
Handle the assigned task.
"#,
    )]);
    let agent = registry.get("general").unwrap();

    assert!(agent.tool_policy.allow.is_none());
    assert!(agent.tool_policy.deny.is_none());
}

#[test]
fn parses_custom_agent_with_disallowed_tools() {
    let registry = load(&[(
        "safe-worker.md",
        r#"---
name: safe-worker
description: Worker without writes
disallow_tools: "Write, Edit, Subagent"
---
Inspect and report.
"#,
    )]);
    let agent = registry.get("safe-worker").unwrap();

    assert!(registry.diagnostics.is_empty());
    assert!(agent.tool_policy.allow.is_none());
    assert_eq!(
        agent.tool_policy.deny.as_deref(),
        Some(
            [
                "write".to_string(),
                "edit".to_string(),
                "subagent".to_string()
            ]
            .as_slice()
        )
    );
}

#[test]
fn parses_custom_agent_model() {
    let registry = load(&[(
        "modelled.md",
        r#"---
name: modelled
description: Uses a selected model
model: "openai/gpt-5.4"
---
Handle the task.
"#,
    )]);
    let agent = registry.get("modelled").unwrap();

    assert!(registry.diagnostics.is_empty());
    assert_eq!(
        agent.model,
        Some(AgentModelSpec {
            provider: "openai".to_string(),
            model: "gpt-5.4".to_string()
        })
    );
}

#[test]
fn duplicate_names_are_skipped_with_diagnostic() {
    let registry = load(&[(
        "default.md",
        r#"---
name: default
description: Conflicts with built-in
---
This should be skipped.
"#,
    )]);
    let agent = registry.get("default").unwrap();

    assert_eq!(agent.description, "General purpose isolated coding agent.");
    assert!(registry.diagnostics.iter().any(|diagnostic| {
        diagnostic
            .message()
            .contains("duplicate subagent name 'default'")
    }));
}

#[test]
fn invalid_model_is_skipped_with_diagnostic() {
    let registry = load(&[(
        "bad.md",
        r#"---
name: bad
description: Bad model
model: "missing-separator"
---
This should be skipped.
"#,
    )]);

    assert!(registry.get("bad").is_none());
    assert!(registry
        .diagnostics
        .iter()
        .any(|diagnostic| diagnostic.message().contains("model must use")));
}

#[test]
fn missing_required_fields_are_skipped_with_diagnostic() {
    let registry = load(&[(
        "missing.md",
        r#"---
name: missing-description
---
This should be skipped.
"#,
    )]);

    assert!(registry.get("missing-description").is_none());
    assert!(registry.diagnostics.iter().any(|diagnostic| {
        diagnostic
            .message()
            .contains("missing required frontmatter field 'description'")
    }));
}

#[test]
fn loads_global_and_project_agent_directories() {
    let registry = load(&[
        (
            "/home/u/.omini/agents/global.md",
            r#"---
name: global-helper
description: Global helper
---
Help across projects.
"#,
        ),
        (
            "/work/.omini/agents/project.md",
            r#"---
name: project-helper
description: Project helper
---
Help in this project.
"#,
        ),
    ]);

    assert!(registry.diagnostics.is_empty());
    assert!(registry.get("global-helper").is_some());
    assert!(registry.get("project-helper").is_some());
}

#[test]
fn runner_extract_final_text_uses_only_last_assistant_message() {
    let messages = vec![
        Message::new(
            Role::Assistant,
            vec![ContentBlock::from_text("older answer".to_string())],
        ),
        Message::from_user_text("tool result".to_string()),
        Message::new(
            Role::Assistant,
            vec![
                ContentBlock::from_thinking("hidden reasoning".to_string()),
                ContentBlock::from_text("final answer".to_string()),
            ],
        ),
    ];

    assert_eq!(extract_final_text(&messages), "final answer");
}

#[test]
fn runner_extract_final_text_does_not_fall_back_to_older_assistant_message() {
    let messages = vec![
        Message::new(
            Role::Assistant,
            vec![ContentBlock::from_text("older answer".to_string())],
        ),
        Message::from_user_text("latest non-assistant message".to_string()),
    ];

    assert_eq!(extract_final_text(&messages), "(no final text)");
}

#[test]
fn extract_final_text_uses_partial_interrupted_assistant_message() {
    let messages = vec![
        Message::from_user_text("explore the repository".to_string()),
        Message::new(
            Role::Assistant,
            vec![ContentBlock::from_text(
                "partial findings before stream interruption".to_string(),
            )],
        ),
    ];

    assert_eq!(
        extract_final_text(&messages),
        "partial findings before stream interruption"
    );
}

#[test]
fn subagent_tool_extract_final_text_uses_only_last_assistant_message() {
    let messages = vec![
        Message::new(
            Role::Assistant,
            vec![ContentBlock::from_text("older answer".to_string())],
        ),
        Message::from_user_text("tool result".to_string()),
        Message::new(
            Role::Assistant,
            vec![
                ContentBlock::from_thinking("hidden reasoning".to_string()),
                ContentBlock::from_text("final answer".to_string()),
            ],
        ),
    ];

    assert_eq!(extract_final_text(&messages), "final answer");
}

#[test]
fn subagent_tool_extract_final_text_does_not_fall_back_to_older_assistant_message() {
    let messages = vec![
        Message::new(
            Role::Assistant,
            vec![ContentBlock::from_text("older answer".to_string())],
        ),
        Message::from_user_text("latest non-assistant message".to_string()),
    ];

    assert_eq!(extract_final_text(&messages), "(no final text)");
}

#[test]
fn init_query_uses_display_message_for_command_echo() {
    let (llm_message, display_message) = build_init_query("focus on tests", "description");
    assert_eq!(display_message.text, "/init focus on tests");
    assert_eq!(display_message.mentions[0].kind, MentionKind::Command);
    assert_eq!(display_message.mentions[0].start_char, 0);
    assert_eq!(display_message.mentions[0].end_char, 5);

    let llm_text = llm_message
        .content
        .iter()
        .find_map(|block| match block {
            ContentBlock::Text(text) => Some(text.text.as_str()),
            _ => None,
        })
        .unwrap();
    assert!(llm_text.contains(INIT_PROMPT));
    assert!(llm_text.contains("Additional user notes"));
    assert!(llm_text.contains("focus on tests"));
}

fn facts(parent_exists: bool, parent_is_dir: bool, is_dir: bool, exists: bool) -> TargetFacts {
    TargetFacts {
        parent_exists,
        parent_is_dir,
        is_dir,
        exists,
    }
}

#[test]
fn test_write_creates_file() {
    let input = WriteInput {
        file_path: "/t/create.txt".to_string(),
        content: "one\ntwo\n".to_string(),
    };
    let fresh = facts(true, true, false, false);
    let prepared = WriteTool.prepare(input, fresh).unwrap();
    assert_eq!(prepared.preview.added_lines, 3);
    assert!(!prepared.existed);

    let checked = validate_target(&prepared.input, fresh);
    let report = execute_write(&prepared, checked, None);
    let result = WriteTool.execute_prepared(&prepared, report);
    assert!(!result.is_error, "{}", result.output);
    assert_eq!(prepared.input.content, "one\ntwo\n");
}

#[test]
fn test_write_rejects_relative_path() {
    let input = WriteInput {
        file_path: "relative.txt".to_string(),
        content: "content".to_string(),
    };
    let err = WriteTool
        .prepare(input, facts(true, true, false, false))
        .unwrap_err();
    assert!(err.output.contains("file_path must be absolute"));
}

#[test]
fn test_write_overwrites_file() {
    let input = WriteInput {
        file_path: "/t/overwrite.txt".to_string(),
        content: "new\n".to_string(),
    };
    let there = facts(true, true, false, true);
    let prepared = WriteTool.prepare(input, there).unwrap();
    assert!(prepared.existed);

    let checked = validate_target(&prepared.input, there);
    let report = execute_write(&prepared, checked, None);
    let result = WriteTool.execute_prepared(&prepared, report);
    assert!(!result.is_error, "{}", result.output);
    assert_eq!(prepared.input.content, "new\n");
}

#[test]
fn write_targets_that_cannot_be_written_are_refused() {
    let input = WriteInput {
        file_path: "/t/a/b.txt".to_string(),
        content: "x".to_string(),
    };
    assert!(validate_target(&input, facts(false, false, false, false)).is_err());
    assert!(validate_target(&input, facts(true, false, false, false)).is_err());
    assert!(validate_target(&input, facts(true, true, true, true)).is_err());
    assert_eq!(validate_target(&input, facts(true, true, false, true)), Ok(true));
    assert_eq!(validate_target(&input, facts(true, true, false, false)), Ok(false));
}

#[test]
fn write_that_fails_is_reported() {
    let input = WriteInput {
        file_path: "/t/b.txt".to_string(),
        content: "x".to_string(),
    };
    let fresh = facts(true, true, false, false);
    let prepared = WriteTool.prepare(input, fresh).unwrap();
    let report = execute_write(&prepared, Ok(false), Some("no room".to_string()));
    let result = WriteTool.execute_prepared(&prepared, report);
    assert!(result.is_error);
    assert!(result.output.contains("no room"));
}

#[test]
fn line_spans_are_counted() {
    assert_eq!(line_span_count("one\ntwo\n"), 3);
    assert_eq!(line_span_count("one"), 1);
}

#[test]
fn tool_names_are_normalized_and_distinct() {
    assert_eq!(normalize_tool_name(" Bash "), Ok("bash".to_string()));
    assert!(normalize_tool_name("  ").is_err());
    assert_eq!(
        normalize_tools(&strings(&["Read", "read", "Bash"])),
        Ok(strings(&["read", "bash"]))
    );
    assert_eq!(
        normalize_allow_tools(&strings(&["Read", "Subagent"])),
        Ok(strings(&["read"]))
    );
}

#[test]
fn quoted_values_are_read() {
    assert_eq!(parse_quoted("\"a b\""), Ok("a b".to_string()));
    assert!(parse_quoted("\"a b").is_err());
}

#[test]
fn agent_file_without_frontmatter_is_refused() {
    assert!(split_frontmatter("just text").is_err());
    assert!(parse_agent_file("just text", "a.md").is_err());
    let spec = parse_agent_file("---\nname: a\ndescription: b\n---\nDo it.\n", "a.md").unwrap();
    assert_eq!(spec.name, "a");
    assert_eq!(spec.instructions, "Do it.");
}

#[test]
fn first_agent_of_a_name_stays() {
    let first = "---\nname: twin\ndescription: first\n---\nOne.\n";
    let second = "---\nname: twin\ndescription: second\n---\nTwo.\n";
    let registry = load(&[("a.md", first), ("b.md", second)]);
    assert_eq!(registry.get("twin").unwrap().description, "first");
    assert_eq!(registry.diagnostics.len(), 1);
}

#[test]
fn unreadable_files_and_directories_are_noted() {
    let mut registry = AgentRegistry::new();
    registry.add_file("a.md", Err("denied".to_string()));
    registry.directory_failed("/agents", "denied");
    assert_eq!(registry.diagnostics.len(), 2);
    assert!(registry.diagnostics[0].message().contains("a.md"));
    assert!(registry.diagnostics[1].message().contains("/agents"));
}

#[test]
fn agent_files_are_the_markdown_files_in_order() {
    let mut registry = AgentRegistry::new();
    let entries = vec![
        Ok("/a/z.md".to_string()),
        Ok("/a/notes.txt".to_string()),
        Err("lost".to_string()),
        Ok("/a/b.md".to_string()),
    ];
    assert_eq!(
        registry.agent_files(&entries),
        strings(&["/a/b.md", "/a/z.md"])
    );
    assert_eq!(registry.diagnostics.len(), 1);
}

#[test]
fn built_in_agents_are_registered() {
    let registry = AgentRegistry::with_built_ins();
    for agent in built_in_agents() {
        assert!(registry.get(&agent.name).is_some());
    }
    let names = registry.sorted_names();
    let mut sorted = names.clone();
    sorted.sort();
    assert_eq!(names, sorted);
    assert_eq!(registry.summaries().len(), names.len());
}

#[test]
fn subagent_input_is_checked() {
    let tool = SubagentTool;
    let empty = SubagentInput {
        name: "explorer".to_string(),
        prompt: "   ".to_string(),
        title: None,
    };
    assert!(tool.prepare(empty).is_err());
    let fine = SubagentInput {
        name: "explorer".to_string(),
        prompt: "look".to_string(),
        title: None,
    };
    assert!(tool.prepare(fine).is_ok());
}
