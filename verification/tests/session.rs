use omini::api::FinishReason;
use omini::prompts;
use omini::prompts::EnvironmentContext;
use omini::prompts::InstructionFile;
use omini::runtime::service;
use omini::runtime::service::AgentRuntime;
use omini::runtime::service::EngineStep;
use omini::runtime::service::PendingInteraction;
use omini::runtime::service::RunStart;
use omini::runtime::service::RuntimeAction;
use omini::runtime::service::Submission;
use omini::runtime::service::SwitchStep;
use omini::runtime::startup::startup_events;
use omini::subagents::registry::AgentRegistry;
use omini::subagents::runner::final_status;
use omini::subagents::runner::finish_run;
use omini::types::config::Endpoint;
use omini::types::config::ProviderProfile;
use omini::types::config::Settings;
use omini::types::config::ThinkingEffort;
use omini::types::display::DisplayMessage;
use omini::types::display::HistoryItem;
use omini::types::display::UserDraft;
use omini::types::events::CommandEffect;
use omini::types::events::CommandResult;
use omini::types::events::EngineToRuntimeEvent;
use omini::types::events::InteractionRequest;
use omini::types::events::RuntimeToUiEvent;
use omini::types::events::SubagentStatus;
use omini::types::events::ToolPauseResponse;
use omini::types::events::UiToRuntimeEvent;
use omini::types::message::ContentBlock;
use omini::types::message::Message;
use omini::types::message::Role;

fn profile(name: &str) -> ProviderProfile {
    ProviderProfile {
        name: name.to_string(),
        api_key: format!("{name}-key"),
        base_url: format!("https://{name}"),
        endpoint: Endpoint::OpenAi,
        models: Vec::new(),
    }
}

fn settings() -> Settings {
    Settings {
        cwd: "/w".to_string(),
        active_provider: "one".to_string(),
        model: "m".to_string(),
        thinking_effort: None,
        api_key: "one-key".to_string(),
        base_url: "https://one".to_string(),
        endpoint: Endpoint::Anthropic,
        providers: vec![
            ("one".to_string(), profile("one")),
            ("two".to_string(), profile("two")),
        ],
        system_prompt: None,
        max_turns: None,
    }
}

fn draft(text: &str) -> UserDraft {
    UserDraft {
        text: text.to_string(),
        mentions: Vec::new(),
        images: Vec::new(),
    }
}

fn error(text: &str) -> RuntimeAction {
    RuntimeAction::Send(RuntimeToUiEvent::Error(text.to_string()))
}

#[test]
fn idle_runtime_takes_requests() {
    let mut runtime = AgentRuntime::new(settings());
    assert_eq!(
        runtime.on_request(UiToRuntimeEvent::SendMessage(draft("hi"))),
        RuntimeAction::Submit(draft("hi"))
    );
    match runtime.on_request(UiToRuntimeEvent::SendCommand("/help me".to_string())) {
        RuntimeAction::RunCommand(parsed) => {
            assert_eq!(parsed.name, "help");
            assert_eq!(parsed.args, "me");
        }
        other => panic!("{other:?}"),
    }
    assert_eq!(
        runtime.on_request(UiToRuntimeEvent::SendCommand("help".to_string())),
        RuntimeAction::Nothing
    );
    assert_eq!(
        runtime.on_request(UiToRuntimeEvent::InterveneMessage(draft("x"))),
        error("Cannot intervene because no run is active")
    );
    assert_eq!(
        runtime.on_request(UiToRuntimeEvent::ResolveToolPause {
            tool_use_id: "t".to_string(),
            response: ToolPauseResponse::Cancelled
        }),
        error("Cannot resolve tool pause because no run is active")
    );
    assert_eq!(
        runtime.on_request(UiToRuntimeEvent::CancelRun),
        RuntimeAction::Cancel
    );
}

#[test]
fn choice_is_taken_once() {
    let mut runtime = AgentRuntime::new(settings());
    let choose = || UiToRuntimeEvent::SessionSelected {
        session_id: "s".to_string(),
    };
    assert_eq!(runtime.on_request(choose()), RuntimeAction::Nothing);
    runtime.apply_command_effect(CommandEffect::ShowInteraction(
        InteractionRequest::SessionSelection {
            sessions: Vec::new(),
        },
    ));
    assert_eq!(
        runtime.pending_interaction,
        Some(PendingInteraction::SessionSelect)
    );
    assert_eq!(
        runtime.on_request(choose()),
        RuntimeAction::SwitchSession {
            session_id: "s".to_string()
        }
    );
    assert_eq!(runtime.on_request(choose()), RuntimeAction::Nothing);
}

#[test]
fn running_query_is_left_alone() {
    assert_eq!(
        service::on_request_while_running(UiToRuntimeEvent::SendMessage(draft("x"))),
        error("Cannot handle this request while a run is active")
    );
    assert_eq!(
        service::on_request_while_running(UiToRuntimeEvent::InterveneMessage(draft("x"))),
        RuntimeAction::Intervene(draft("x"))
    );
    assert_eq!(
        service::on_request_while_running(UiToRuntimeEvent::CancelRun),
        RuntimeAction::Cancel
    );
}

#[test]
fn submission_starts_a_run() {
    let mut runtime = AgentRuntime::new(settings());
    let message = Message::from_user_text("hi".to_string());
    let action = runtime.submit(Ok(Submission {
        llm_message: message.clone(),
        display_message: None,
    }));
    assert_eq!(action, RuntimeAction::Start(RunStart::UserMessage));
    assert_eq!(runtime.messages, vec![message]);
    assert_eq!(runtime.submit(Err("bad".to_string())), error("bad"));
    assert_eq!(runtime.messages.len(), 1);
}

fn shown(text: &str) -> DisplayMessage {
    DisplayMessage {
        role: Role::User,
        text: text.to_string(),
        mentions: Vec::new(),
        images: Vec::new(),
    }
}

#[test]
fn command_effects_are_applied() {
    let mut runtime = AgentRuntime::new(settings());
    assert_eq!(
        runtime.apply_command_effect(CommandEffect::Notice("n".to_string())),
        vec![RuntimeAction::Send(RuntimeToUiEvent::CommandNotice(
            "n".to_string()
        ))]
    );
    let actions = runtime.apply_command_effect(CommandEffect::InjectUserQuery {
        llm_message: Message::from_user_text("long".to_string()),
        display_message: shown("/init"),
    });
    assert_eq!(
        actions,
        vec![
            RuntimeAction::Send(RuntimeToUiEvent::UserMessageInjected(HistoryItem::Display(
                shown("/init")
            ))),
            RuntimeAction::Start(RunStart::SplitDisplayMessage {
                display_message: shown("/init")
            })
        ]
    );
    assert_eq!(runtime.messages.len(), 1);
    assert_eq!(
        runtime.apply_command_effect(CommandEffect::ContinueQuery),
        vec![RuntimeAction::Start(RunStart::Continue)]
    );
    let (effects, told) = runtime.command_outcome(CommandResult::Error("e".to_string()));
    assert!(effects.is_empty());
    assert_eq!(told, Some(RuntimeToUiEvent::Error("e".to_string())));
}

#[test]
fn unknown_command_is_told() {
    let runtime = AgentRuntime::new(settings());
    assert_eq!(
        runtime.unknown_command("dance"),
        RuntimeToUiEvent::CommandNotice(
            "未知命令: /dance. 输入 /help 查看可用命令。".to_string()
        )
    );
}

#[test]
fn model_is_switched() {
    let mut runtime = AgentRuntime::new(settings());
    let step = runtime.switch_model(
        &"two".to_string(),
        &"big".to_string(),
        Some(ThinkingEffort::High),
    );
    assert_eq!(runtime.settings.model, "big");
    assert_eq!(runtime.settings.api_key, "two-key");
    assert_eq!(runtime.settings.endpoint, Endpoint::OpenAi);
    assert!(matches!(step, SwitchStep::StoreInProject { .. }));
    runtime.session_id = Some("s".to_string());
    let step = runtime.switch_model(&"one".to_string(), &"m".to_string(), Some(ThinkingEffort::Low));
    match step {
        SwitchStep::StoreInSession {
            session_id,
            thinking_effort,
            ..
        } => {
            assert_eq!(session_id, "s");
            assert_eq!(thinking_effort, Some("low".to_string()));
        }
        other => panic!("{other:?}"),
    }
    let step = runtime.switch_model(&"three".to_string(), &"m".to_string(), None);
    assert_eq!(
        step,
        SwitchStep::Unknown(RuntimeToUiEvent::Error("提供商 'three' 不存在".to_string()))
    );
    assert_eq!(runtime.settings.active_provider, "one");
}

#[test]
fn new_session_is_named_after_the_first_message() {
    let mut runtime = AgentRuntime::new(settings());
    runtime
        .messages
        .push(Message::from_user_text("x".repeat(400)));
    let session = runtime.create_session(
        &"id".to_string(),
        &"/dir".to_string(),
        &RunStart::UserMessage,
        9,
    );
    assert_eq!(session.title, Some("x".repeat(300)));
    assert_eq!(session.project_path, "-w");
    assert_eq!(session.session_type, "main");
    assert_eq!(runtime.session_id, Some("id".to_string()));
    let (title, changed) = runtime.session_created(&session, &RunStart::UserMessage);
    assert_eq!(
        title,
        RuntimeToUiEvent::SessionTitleChanged {
            title: Some("x".repeat(300))
        }
    );
    match changed {
        RuntimeToUiEvent::SessionChanged { messages, .. } => assert_eq!(messages.len(), 1),
        other => panic!("{other:?}"),
    }
}

#[test]
fn missing_session_is_told() {
    let mut runtime = AgentRuntime::new(settings());
    let told = runtime.enter_session(&"gone".to_string(), &"/d".to_string(), &None);
    assert_eq!(
        told,
        Some(RuntimeToUiEvent::Error("会话不存在".to_string()))
    );
}

#[test]
fn messages_of_the_engine_are_kept() {
    let message = Message::from_user_text("x".to_string());
    assert!(matches!(
        service::on_engine_event(EngineToRuntimeEvent::MessageProduced(message.clone())),
        EngineStep::Persist(_)
    ));
    assert!(matches!(
        service::on_engine_event(EngineToRuntimeEvent::ToolResultsProduced(message)),
        EngineStep::Persist(_)
    ));
    assert_eq!(
        service::on_engine_event(EngineToRuntimeEvent::TextDelta("t".to_string())),
        EngineStep::Forward(RuntimeToUiEvent::TextDelta("t".to_string()))
    );
}

#[test]
fn roles_are_stored_by_name() {
    let message = Message::new(Role::Assistant, Vec::new());
    assert_eq!(service::msg_role(&message), "assistant");
    assert_eq!(service::stored_role("user"), Some(Role::User));
    assert_eq!(service::stored_role("tool"), None);
}

#[test]
fn saved_and_deleted_agents_are_told() {
    let (told, old) = service::agent_saved(
        "a",
        false,
        Some("/old.md".to_string()),
        Ok("/new.md".to_string()),
    );
    assert_eq!(
        told,
        RuntimeToUiEvent::CommandNotice("agent 'a' 已保存".to_string())
    );
    assert_eq!(old, Some("/old.md".to_string()));
    let (told, old) = service::agent_saved("a", true, None, Ok("/new.md".to_string()));
    assert_eq!(
        told,
        RuntimeToUiEvent::Error("agent 'a' 已存在".to_string())
    );
    assert_eq!(old, None);
    assert_eq!(
        service::agent_deleted(Ok(())),
        RuntimeToUiEvent::CommandNotice("agent 已删除".to_string())
    );
    assert_eq!(
        service::agent_deleted(Err("locked".to_string())),
        RuntimeToUiEvent::Error("locked".to_string())
    );
}

#[test]
fn startup_tells_what_there_is() {
    let mut agents = AgentRegistry::with_built_ins();
    agents.add_file("broken.md", Ok("nothing".to_string()));
    let events = startup_events(Vec::new(), &agents, &vec!["bad rule".to_string()]);
    assert_eq!(events.len(), 4);
    assert_eq!(events[0], RuntimeToUiEvent::CommandList(Vec::new()));
    assert!(matches!(&events[1], RuntimeToUiEvent::AgentList(list) if !list.is_empty()));
    assert!(
        matches!(&events[2], RuntimeToUiEvent::Warning(w) if w.starts_with("Subagent: "))
    );
    assert_eq!(
        events[3],
        RuntimeToUiEvent::Warning("Permission: bad rule".to_string())
    );
}

#[test]
fn thinking_efforts_have_names() {
    for effort in [
        ThinkingEffort::Off,
        ThinkingEffort::Low,
        ThinkingEffort::Medium,
        ThinkingEffort::High,
    ] {
        assert_eq!(ThinkingEffort::parse(effort.name()), Some(effort));
    }
    assert_eq!(ThinkingEffort::parse("huge"), None);
}

fn environment() -> EnvironmentContext {
    EnvironmentContext {
        cwd: "/w".to_string(),
        command_shell: prompts::COMMAND_SHELL.to_string(),
        login_shell: None,
        current_date: "2025-01-01".to_string(),
        timezone: "UTC".to_string(),
        platform: "linux".to_string(),
        os: None,
        kernel: None,
        architecture: "x86_64".to_string(),
        is_git_repo: true,
    }
}

#[test]
fn system_prompt_has_its_sections() {
    let project = prompts::load_instruction_file("/w/AGENTS.md", Some("  Use tabs.\n".to_string()));
    assert_eq!(
        project,
        Some(InstructionFile {
            path: "/w/AGENTS.md".to_string(),
            content: "Use tabs.".to_string()
        })
    );
    assert_eq!(prompts::load_instruction_file("/w/AGENTS.md", Some(" ".to_string())), None);
    let prompt = prompts::build_system_prompt(&environment(), &None, &project);
    assert!(prompt.starts_with("You are Omini, a coding agent running in the user's local terminal.\n\n"));
    assert!(prompt.contains(prompts::AGENT_IDENTITY));
    assert!(prompt.contains("Use tabs."));
    assert!(prompt.contains("/w/AGENTS.md"));
    assert!(prompt.contains("2025-01-01"));
}

#[test]
fn environment_is_detected() {
    assert_eq!(prompts::non_empty_env(Some("  ".to_string())), None);
    assert_eq!(
        prompts::detect_timezone(Some("Asia/Tokyo".to_string()), None),
        "Asia/Tokyo"
    );
    assert_eq!(
        prompts::detect_os_pretty_name("NAME=x\nPRETTY_NAME=\"Debian 12\"\n"),
        Some("Debian 12".to_string())
    );
    assert_eq!(prompts::unquote_os_release_value("\"a b\""), "a b");
    assert_eq!(
        prompts::detect_kernel("Linux\n", "6.1\n"),
        Some("Linux 6.1".to_string())
    );
    assert_eq!(prompts::detect_kernel("", "6.1"), None);
}

#[test]
fn agent_sessions_belong_to_their_parent() {
    let session = service::agent_session("c", "p", "t1", "explorer", &settings(), None, 4);
    assert_eq!(session.parent_session_id, Some("p".to_string()));
    assert_eq!(session.spawn_tool_use_id, Some("t1".to_string()));
    assert_eq!(session.session_type, "subagent");
    assert_eq!(session.agent_label, Some("explorer".to_string()));
    assert_eq!(session.message_count, 0);
}

#[test]
fn history_for_the_model_has_only_messages() {
    let items = vec![
        HistoryItem::Display(shown("/init")),
        HistoryItem::Message(Message::new(
            Role::Assistant,
            vec![ContentBlock::from_text("ok".to_string())],
        )),
    ];
    assert_eq!(service::messages_in(&items).len(), 1);
}

#[test]
fn runs_of_subagents_end_with_a_payload() {
    let messages = vec![Message::new(
        Role::Assistant,
        vec![ContentBlock::from_text("found it".to_string())],
    )];
    let result = finish_run(
        "s",
        "explorer",
        false,
        &messages,
        &FinishReason::Stop,
    );
    assert!(!result.is_error);
    assert!(result.output.contains("\"summary\":\"found it\""));
    assert!(result.output.contains("\"status\":\"completed\""));
    let result = finish_run(
        "s",
        "explorer",
        true,
        &messages,
        &FinishReason::Stop,
    );
    assert!(result.is_error);
    assert_eq!(
        final_status(
            false,
            &FinishReason::Error("x".to_string())
        ),
        SubagentStatus::Failed
    );
}
