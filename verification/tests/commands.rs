use omini::command::agents::AgentsCommand;
use omini::command::exit::ExitCommand;
use omini::command::help::build_help;
use omini::command::help::HelpCommand;
use omini::command::init::build_init_query;
use omini::command::init::InitCommand;
use omini::command::new::NewCommand;
use omini::command::parse;
use omini::command::register_default_commands;
use omini::command::rename::RenameCommand;
use omini::command::sessions::SessionsCommand;
use omini::command::Command;
use omini::command::CommandRegistry;
use omini::command::ParsedCommand;
use omini::db::Session;
use omini::types::events::CommandEffect;
use omini::types::events::CommandResult;
use omini::types::events::InteractionRequest;
use omini::types::events::RuntimeToUiEvent;
use omini::types::message::Message;

#[test]
fn commands_are_parsed() {
    assert_eq!(
        parse("  /rename  my title "),
        Some(ParsedCommand {
            name: "rename".to_string(),
            args: "my title".to_string()
        })
    );
    assert_eq!(
        parse("/help"),
        Some(ParsedCommand {
            name: "help".to_string(),
            args: String::new()
        })
    );
    assert_eq!(parse("help"), None);
    assert_eq!(
        parse(" / "),
        Some(ParsedCommand {
            name: String::new(),
            args: String::new()
        })
    );
    assert_eq!(parse(""), None);
}

#[test]
fn commands_go_by_their_aliases() {
    let mut registry = CommandRegistry::new();
    register_default_commands(&mut registry);
    assert_eq!(registry.get("?").unwrap().name, "help");
    assert_eq!(registry.get("clear").unwrap().name, "new");
    assert_eq!(registry.get("resume").unwrap().name, "sessions");
    assert!(registry.get("nonsense").is_none());
    let summaries = registry.summaries();
    let mut names: Vec<String> = summaries.iter().map(|s| s.name.clone()).collect();
    let count = names.len();
    names.sort();
    names.dedup();
    assert_eq!(names.len(), count);
}

#[test]
fn help_lists_the_commands() {
    let mut registry = CommandRegistry::new();
    registry.register(&HelpCommand);
    registry.register(&ExitCommand);
    let help = build_help(&registry.summaries());
    assert!(help.contains("/help (别名: ?)"));
    match HelpCommand.execute(&registry) {
        CommandResult::Done(effects) => {
            assert_eq!(effects, vec![CommandEffect::Notice(help)]);
        }
        CommandResult::Error(e) => panic!("{e}"),
    }
}

#[test]
fn session_gets_a_title() {
    assert_eq!(
        RenameCommand.title(false, "x"),
        Err("当前没有激活的会话，无法重命名".to_string())
    );
    assert_eq!(
        RenameCommand.title(true, "  "),
        Err("请提供新名称，用法: /rename <新名称>".to_string())
    );
    assert_eq!(
        RenameCommand.title(true, &"t".repeat(400)),
        Ok("t".repeat(300))
    );
    assert!(matches!(
        RenameCommand.execute("t".to_string(), Err("locked".to_string())),
        CommandResult::Error(_)
    ));
    match RenameCommand.execute("t".to_string(), Ok(())) {
        CommandResult::Done(effects) => assert!(effects.contains(&CommandEffect::Emit(
            RuntimeToUiEvent::SessionTitleChanged {
                title: Some("t".to_string())
            }
        ))),
        CommandResult::Error(e) => panic!("{e}"),
    }
}

#[test]
fn new_conversation_is_empty() {
    let mut session = Some("s".to_string());
    let mut dir = Some("/d".to_string());
    let mut messages = vec![Message::from_user_text("hi".to_string())];
    NewCommand.execute(&mut session, &mut dir, &mut messages);
    assert_eq!(session, None);
    assert_eq!(dir, None);
    assert!(messages.is_empty());
}

fn stored(id: &str, title: Option<&str>) -> Session {
    Session {
        id: id.to_string(),
        project_path: "-w".to_string(),
        parent_session_id: None,
        spawn_tool_use_id: None,
        session_type: "main".to_string(),
        agent_label: None,
        provider: "p".to_string(),
        model: "m".to_string(),
        thinking_effort: None,
        title: title.map(|t| t.to_string()),
        message_count: 2,
        created_at: 7,
        updated_at: 8,
    }
}

#[test]
fn sessions_are_offered() {
    let result = SessionsCommand.execute(Ok(vec![stored("a", Some("one")), stored("b", None)]));
    match result {
        CommandResult::Done(effects) => match &effects[0] {
            CommandEffect::ShowInteraction(InteractionRequest::SessionSelection { sessions }) => {
                assert_eq!(sessions.len(), 2);
                assert_eq!(sessions[0].title, "one");
                assert_eq!(sessions[1].title, "");
                assert_eq!(sessions[1].created_at, 7);
            }
            other => panic!("{other:?}"),
        },
        CommandResult::Error(e) => panic!("{e}"),
    }
    assert!(matches!(
        SessionsCommand.execute(Err("broken".to_string())),
        CommandResult::Error(_)
    ));
}

#[test]
fn exit_shuts_down() {
    assert_eq!(
        ExitCommand.execute(),
        CommandResult::Done(vec![CommandEffect::Emit(RuntimeToUiEvent::Shutdown)])
    );
}

#[test]
fn init_without_notes_is_just_the_command() {
    let (message, shown) = build_init_query("   ", "d");
    assert_eq!(shown.text, "/init");
    assert_eq!(message.content.len(), 1);
    match InitCommand.execute("notes") {
        CommandResult::Done(effects) => {
            assert!(matches!(&effects[0], CommandEffect::InjectUserQuery { .. }))
        }
        CommandResult::Error(e) => panic!("{e}"),
    }
}

#[test]
fn agents_are_managed() {
    match AgentsCommand.execute(Vec::new(), Vec::new(), "p".to_string(), "m".to_string()) {
        CommandResult::Done(effects) => {
            assert!(matches!(&effects[0], CommandEffect::ManageAgents(_)))
        }
        CommandResult::Error(e) => panic!("{e}"),
    }
}
