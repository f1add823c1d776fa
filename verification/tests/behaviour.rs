use omini::api::openai::OpenAiStream;
use omini::api::openai_request::convert_messages_to_openai;
use omini::api::retry::retry_after;
use omini::api::sse::cut_lines;
use omini::api::sse::text_lines;
use omini::api::ApiEvent;
use omini::api::FinishReason;
use omini::command::built_in;
use omini::command::model::ModelCommand;
use omini::command::register_default_commands;
use omini::command::BuiltIn;
use omini::command::CommandRegistry;
use omini::json::Json;
use omini::paths::media_type;
use omini::runtime::submission::submission_of;
use omini::subagents::files::agent_file;
use omini::subagents::files::agent_record;
use omini::subagents::files::agent_records;
use omini::subagents::files::agent_text;
use omini::subagents::files::name_taken;
use omini::subagents::parser::parse_agent_file;
use omini::subagents::parser::parse_quoted;
use omini::subagents::registry::AgentRegistry;
use omini::subagents::AgentToolPolicy;
use omini::tools::apply_patch_tool::parse_patch;
use omini::tools::apply_patch_tool::Hunk;
use omini::tools::apply_patch_tool::PatchOp;
use omini::tools::patch_apply::find_hunk_position;
use omini::tools::patch_apply::MatchError;
use omini::tools::patch_run::apply_hunks;
use omini::tools::patch_run::next_op;
use omini::tools::subagent_may_use;
use omini::tui::clipboard::clipboard_sequence;
use omini::tui::input::KeyCode;
use omini::tui::input::KeyModifiers;
use omini::tui::keys;
use omini::tui::line::line_to_plain_text;
use omini::tui::line::plain_line;
use omini::tui::ready;
use omini::tui::render::layout;
use omini::tui::render::screen_lines::register_panel;
use omini::tui::render::screen_lines::SelectableLine;
use omini::tui::state::agents::AgentManagerState;
use omini::tui::state::agents::AgentManagerView;
use omini::tui::state::agents::AgentModelEntry;
use omini::tui::state::interaction::InteractionStep;
use omini::tui::state::interaction::ModelSelectionEntry;
use omini::tui::state::Rect;
use omini::tui::state::SelectionPoint;
use omini::tui::state::TextSelection;
use omini::tui::state::UiState;
use omini::tui::widgets::wrap::word_wrap;
use omini::types::config::Endpoint;
use omini::types::config::ModelConfig;
use omini::types::config::ProviderProfile;
use omini::types::display::DisplayImageAttachment;
use omini::types::display::UserDraft;
use omini::types::events::AgentDraft;
use omini::types::events::AgentManagement;
use omini::types::events::AgentSourceKind;
use omini::types::events::CommandEffect;
use omini::types::events::CommandResult;
use omini::types::events::InteractionRequest;
use omini::types::events::RuntimeToUiEvent;
use omini::types::events::UiToRuntimeEvent;
use omini::types::message::ContentBlock;
use omini::types::message::ImageBlock;
use omini::types::message::Message;
use omini::types::message::Role;
use omini::types::message::ToolResultBlock;
use omini::width;

fn strings(list: &[&str]) -> Vec<String> {
    list.iter().map(|s| s.to_string()).collect()
}

fn at_end(before: &[&str], after: &[&str]) -> Hunk {
    Hunk {
        line_anchor: 1,
        before: strings(before),
        after: strings(after),
        is_end_of_file: true,
    }
}

#[test]
fn hunk_at_the_end_replaces_the_last_lines() {
    let file = strings(&["a", "b", "c"]);
    assert_eq!(find_hunk_position(&file, &at_end(&["b", "c"], &["x"])).unwrap(), 1);
    let hunks = vec![at_end(&["b", "c"], &["b", "d", "e"])];
    let outcome = apply_hunks("/f", "a\nb\nc\n", &hunks).unwrap();
    assert_eq!(outcome.content, "a\nb\nd\ne");
    let outcome = apply_hunks("/f", "a\n", &vec![at_end(&[], &["z"])]).unwrap();
    assert_eq!(outcome.content, "a\nz");
}

#[test]
fn hunk_at_the_end_must_match_the_last_lines() {
    let file = strings(&["b", "c", "d"]);
    let found = find_hunk_position(&file, &at_end(&["b", "c"], &["x"]));
    assert!(matches!(found, Err(MatchError::NotFound { .. })));
    assert!(apply_hunks("/f", "b\nc\nd\n", &vec![at_end(&["b", "c"], &["x"])]).is_err());
    let short = find_hunk_position(&strings(&["c"]), &at_end(&["b", "c"], &["x"]));
    assert!(short.is_err());
}

#[test]
fn hunk_names_a_line_counted_from_one() {
    let patch = |anchor: &str| {
        format!("*** Begin Patch\n*** Update File: /f\n@@ {anchor}\n-a\n+b\n*** End Patch")
    };
    assert_eq!(
        parse_patch(&patch("L0")).unwrap_err(),
        "Line 3: @@ must specify line number (e.g. @@ L42)"
    );
    match &parse_patch(&patch("L1")).unwrap()[0] {
        PatchOp::Update { hunks, .. } => assert_eq!(hunks[0].line_anchor, 1),
        _ => panic!("the patch updates a file"),
    }
}

#[test]
fn text_behind_the_end_of_a_patch_is_not_read() {
    let patch = "*** Begin Patch\n*** Delete File: /f\n*** End Patch";
    for rest in ["", "nonsense", "*** Delete File: /g\n*** End Patch"] {
        for end in ["\n", "\r\n"] {
            let ops = parse_patch(&format!("{patch}{end}{rest}")).unwrap();
            assert_eq!(ops.len(), 1);
            assert!(matches!(&ops[0], PatchOp::Delete { path } if path == "/f"));
        }
    }
}

#[test]
fn operations_stop_at_the_first_failure() {
    assert_eq!(next_op(0, false, 2), Some(0));
    assert_eq!(next_op(1, false, 2), Some(1));
    assert_eq!(next_op(2, false, 2), None);
    assert_eq!(next_op(1, true, 2), None);
    assert_eq!(next_op(0, false, 0), None);
}

#[test]
fn calls_that_come_one_by_one_are_all_handed_on() {
    let mut stream = OpenAiStream::new();
    let first = "{\"choices\":[{\"delta\":{\"tool_calls\":[{\"index\":0,\"id\":\"a\",\
        \"function\":{\"name\":\"x\",\"arguments\":\"{}\"}}]}}]}";
    let second = "{\"choices\":[{\"delta\":{\"tool_calls\":[{\"index\":1,\"id\":\"b\",\
        \"function\":{\"name\":\"y\",\"arguments\":\"{}\"}}]}}]}";
    let third = "{\"choices\":[{\"delta\":{},\"finish_reason\":\"tool_calls\"}]}";
    let mut all: Vec<ApiEvent> = Vec::new();
    for chunk in [first, second, third, "[DONE]"] {
        let (events, over) = stream.on_event(chunk);
        all.extend(events);
        assert_eq!(over, chunk == "[DONE]");
    }
    all.extend(stream.finish());
    assert_eq!(all.len(), 3);
    assert!(matches!(&all[0], ApiEvent::ToolUse(call) if call.id == "a" && call.name == "x"));
    assert!(matches!(&all[1], ApiEvent::ToolUse(call) if call.id == "b" && call.name == "y"));
    match &all[2] {
        ApiEvent::Done(done) => {
            let ids: Vec<&str> = done
                .message
                .content
                .iter()
                .map(|block| match block {
                    ContentBlock::ToolUse(call) => call.id.as_str(),
                    _ => "other",
                })
                .collect();
            assert_eq!(ids, vec!["a", "b"]);
            assert!(matches!(done.finish_reason, FinishReason::ToolUse));
        }
        _ => panic!("the answer comes last"),
    }
}

#[test]
fn calls_that_are_left_at_the_end_are_handed_on_once() {
    let mut stream = OpenAiStream::new();
    let calls = "{\"choices\":[{\"delta\":{\"tool_calls\":[\
        {\"index\":7,\"id\":\"c\",\"function\":{\"name\":\"x\",\"arguments\":\"{}\"}},\
        {\"index\":2,\"id\":\"a\",\"function\":{\"name\":\"x\",\"arguments\":\"{}\"}},\
        {\"index\":4,\"function\":{\"name\":\"x\",\"arguments\":\"{}\"}}]}}]}";
    let (events, _) = stream.on_event(calls);
    assert!(events.is_empty());
    let ids = |events: &Vec<ApiEvent>| -> Vec<String> {
        events
            .iter()
            .filter_map(|event| match event {
                ApiEvent::ToolUse(call) => Some(call.id.clone()),
                _ => None,
            })
            .collect()
    };
    assert_eq!(ids(&stream.finish()), strings(&["a", "c"]));
    assert_eq!(ids(&stream.finish()), Vec::<String>::new());
}

fn user(content: Vec<ContentBlock>) -> Message {
    Message::new(Role::User, content)
}

fn result(id: &str) -> ContentBlock {
    ContentBlock::ToolResult(ToolResultBlock {
        tool_use_id: id.to_string(),
        is_error: false,
        content: "done".to_string(),
        metadata: None,
    })
}

#[test]
fn messages_are_converted_one_by_one() {
    let said = || user(vec![ContentBlock::from_text("hi".to_string())]);
    let told = || user(vec![result("1"), ContentBlock::from_text("x".to_string()), result("2")]);
    let both = convert_messages_to_openai(&vec![said(), told()], &None);
    let mut parts = convert_messages_to_openai(&vec![said()], &None);
    parts.extend(convert_messages_to_openai(&vec![told()], &None));
    assert_eq!(both, parts);
    assert_eq!(both.len(), 3);
    assert_eq!(both[1].get("tool_call_id"), Some(&Json::Str("1".to_string())));
    assert_eq!(both[2].get("tool_call_id"), Some(&Json::Str("2".to_string())));
    let prompted = convert_messages_to_openai(&vec![said()], &Some("be brief".to_string()));
    assert_eq!(prompted.len(), 2);
    assert_eq!(prompted[0].get("role"), Some(&Json::Str("system".to_string())));
    assert_eq!(prompted[0].get("content"), Some(&Json::Str("be brief".to_string())));
    assert_eq!(prompted[1], both[0]);
}

fn provider(name: &str, models: &[&str]) -> ProviderProfile {
    ProviderProfile {
        name: name.to_string(),
        api_key: String::new(),
        base_url: String::new(),
        endpoint: Endpoint::OpenAi,
        models: models
            .iter()
            .map(|id| ModelConfig {
                id: id.to_string(),
                name: None,
                limit: 1000,
                thinking: false,
            })
            .collect(),
    }
}

#[test]
fn first_model_is_chosen_where_the_current_one_is_not_listed() {
    let mut state = UiState::new();
    state.open_interaction_request(&InteractionRequest::ModelSelection {
        providers: vec![
            ("b".to_string(), provider("B", &["m"])),
            ("a".to_string(), provider("A", &[])),
        ],
        current_provider: "b".to_string(),
        current_model: "gone".to_string(),
    });
    match &state.interaction_step {
        Some(InteractionStep::ModelSelection {
            entries, selected, ..
        }) => {
            assert_eq!(*selected, 2);
            assert!(matches!(&entries[2], ModelSelectionEntry::Model { model, .. } if model.id == "m"));
        }
        _ => panic!("the models are put before the user"),
    }
}

#[test]
fn cut_text_is_never_wider_than_its_room() {
    assert_eq!(width::truncate_str("abcdef", 0), "");
    assert_eq!(width::truncate_str("abcdef", 1), ".");
    assert_eq!(width::truncate_str("abcdef", 2), "..");
    assert_eq!(width::truncate_str("abcdef", 3), "...");
    assert_eq!(width::truncate_str("abcdef", 5), "ab...");
    assert_eq!(width::truncate_str("abcdef", 6), "abcdef");
    assert_eq!(width::truncate_str("ab", 2), "ab");
    assert_eq!(width::truncate_str("日本語", 5), "日...");
}

fn band(y: u16, height: u16) -> Rect {
    Rect {
        x: 1,
        y,
        width: 30,
        height,
    }
}

#[test]
fn parts_of_a_page_stand_one_below_the_other() {
    for height in [9u16, 10, 24, 61, 200] {
        for input_height in [3u16, 5] {
            let rows = layout::screen_rows(band(2, height), input_height);
            let end = 2 + height;
            assert_eq!(rows.header, band(2, 1));
            assert_eq!(rows.messages, band(3, height - input_height - 3));
            assert_eq!(rows.gap, band(end - input_height - 2, 1));
            assert_eq!(rows.input, band(end - input_height - 1, input_height));
            assert_eq!(rows.footer, band(end - 1, 1));
        }
        let rows = layout::session_rows(band(0, height));
        assert_eq!(rows.header, band(0, 2));
        assert_eq!(rows.content, band(2, height - 4));
        assert_eq!(rows.divider, band(height - 2, 1));
        assert_eq!(rows.footer, band(height - 1, 1));
        let rows = layout::queue_rows(band(4, height));
        assert_eq!(rows.title, band(4, 1));
        assert_eq!(rows.lines, band(5, height - 2));
        assert_eq!(rows.footer, band(3 + height, 1));
        let rows = layout::input_rows(band(4, height), 5);
        assert_eq!(rows.queue, Some(band(4, 5)));
        assert_eq!(rows.line, band(10, 1));
        assert_eq!(layout::input_rows(band(4, height), 0).line, band(5, 1));
    }
    let rows = layout::screen_rows(band(65000, 535), 3);
    assert_eq!(rows.footer, band(65534, 1));
    assert_eq!(rows.messages, band(65001, 529));
}

#[test]
fn parts_of_a_page_stay_inside_it() {
    for height in 0u16..8 {
        let rows = layout::screen_rows(band(7, height), 3);
        for part in [rows.header, rows.messages, rows.gap, rows.input, rows.footer] {
            assert_eq!((part.x, part.width), (1, 30));
            assert!(part.y >= 7 && part.y + part.height <= 7 + height);
        }
    }
}

#[test]
fn lines_are_cut_from_pieces_of_a_stream() {
    let mut rest: Vec<u8> = Vec::new();
    assert_eq!(cut_lines(&mut rest, &b"da".to_vec()), Vec::<Vec<u8>>::new());
    let lines = cut_lines(&mut rest, &b"ta: 1\r\r\n\nx".to_vec());
    assert_eq!(lines, vec![b"data: 1\r".to_vec(), Vec::new()]);
    assert_eq!(rest, b"x".to_vec());
    let mut whole: Vec<u8> = Vec::new();
    assert_eq!(cut_lines(&mut whole, &b"data: 1\r\r\n\nx".to_vec()), lines);
    assert_eq!(whole, rest);
}

#[test]
fn failed_requests_are_sent_again_a_few_times() {
    assert_eq!(retry_after(1, None), Some(500));
    assert_eq!(retry_after(2, Some(429)), Some(1000));
    assert_eq!(retry_after(3, Some(503)), Some(2000));
    assert_eq!(retry_after(4, Some(503)), None);
    assert_eq!(retry_after(1, Some(401)), None);
}

#[test]
fn subagents_use_the_tools_they_are_allowed() {
    let policy = |allow: Option<&[&str]>, deny: Option<&[&str]>| AgentToolPolicy {
        allow: allow.map(strings),
        deny: deny.map(strings),
    };
    assert!(subagent_may_use(&policy(None, None), "bash"));
    assert!(!subagent_may_use(&policy(None, None), "subagent"));
    assert!(!subagent_may_use(&policy(Some(&["read"]), None), "bash"));
    assert!(subagent_may_use(&policy(Some(&["apply_patch"]), None), "apply_patch"));
    assert!(!subagent_may_use(&policy(Some(&["bash"]), Some(&["bash"])), "bash"));
    assert!(!subagent_may_use(&policy(None, Some(&["bash"])), "bash"));
}

fn draft() -> AgentDraft {
    AgentDraft {
        name: "helper".to_string(),
        description: "Helps\n  with things".to_string(),
        instructions: "Do it.".to_string(),
        tools: strings(&["bash", "read"]),
        disallow_tools: strings(&["write"]),
        model: Some("p/m".to_string()),
    }
}

#[test]
fn agent_that_is_written_is_read_back() {
    let written = agent_text(&draft());
    assert_eq!(
        written,
        "---\nname: helper\ndescription: Helps with things\ntools: bash, read\n\
         disallow_tools: write\nmodel: p/m\n---\n\nDo it.\n"
    );
    let agent = parse_agent_file(&written, "/work/.omini/agents/helper.md").unwrap();
    assert_eq!(agent.name, "helper");
    assert_eq!(agent.description, "Helps with things");
    assert_eq!(agent.instructions, "Do it.");
    assert_eq!(agent.tool_policy.allow, Some(strings(&["bash", "read"])));
    assert_eq!(agent.tool_policy.deny, Some(strings(&["write"])));
    let model = agent.model.as_ref().unwrap();
    assert_eq!((model.provider.as_str(), model.model.as_str()), ("p", "m"));
    let record = agent_record(&agent, "/work");
    assert_eq!(record.source_kind, AgentSourceKind::Project);
    assert_eq!(record.path.as_deref(), Some("/work/.omini/agents/helper.md"));
    assert_eq!(record.model.as_deref(), Some("p/m"));
    assert_eq!(record.tools, strings(&["bash", "read"]));
    assert_eq!(record.disallow_tools, strings(&["write"]));
    assert!(record.editable);
    assert_eq!(agent_record(&agent, "/elsewhere").source_kind, AgentSourceKind::User);
}

#[test]
fn agent_files_stand_in_their_directories() {
    let home = Some("/home/u".to_string());
    assert_eq!(
        agent_file(AgentSourceKind::Project, "/work", &home, "x"),
        Ok((
            "/work/.omini/agents".to_string(),
            "/work/.omini/agents/x.md".to_string()
        ))
    );
    assert_eq!(
        agent_file(AgentSourceKind::User, "/work", &home, "x").unwrap().1,
        "/home/u/.omini/agents/x.md"
    );
    assert_eq!(
        agent_file(AgentSourceKind::User, "/work", &None, "x"),
        Err("no home directory".to_string())
    );
    assert_eq!(
        agent_file(AgentSourceKind::BuiltIn, "/work", &home, "x"),
        Err("a built-in agent cannot be saved".to_string())
    );
}

#[test]
fn agent_names_are_taken_once() {
    let mut registry = AgentRegistry::with_built_ins();
    let path = "/work/.omini/agents/helper.md";
    registry.add_file(path, Ok(agent_text(&draft())));
    assert!(name_taken(&registry, "helper", &None));
    assert!(!name_taken(&registry, "helper", &Some(path.to_string())));
    assert!(name_taken(&registry, "helper", &Some("/other.md".to_string())));
    assert!(!name_taken(&registry, "unknown", &None));
    let records = agent_records(&registry, "/work");
    let built_in = &records[0];
    assert_eq!(built_in.source_kind, AgentSourceKind::BuiltIn);
    assert!(!built_in.editable && built_in.path.is_none());
    assert!(name_taken(&registry, &built_in.name, &None));
    assert_eq!(records.last().unwrap().name, "helper");
}

#[test]
fn agents_page_is_moved_through() {
    let registry = AgentRegistry::with_built_ins();
    let records = agent_records(&registry, "/work");
    let count = records.len();
    let mut page = AgentManagerState::open(AgentManagement {
        records,
        providers: vec![("p".to_string(), provider("P", &["m", "n"]))],
        current_provider: "p".to_string(),
        current_model: "m".to_string(),
    });
    assert_eq!(page.model_entries.len(), 4);
    assert_eq!(page.model_entries[0], AgentModelEntry::Inherit);
    assert!(matches!(&page.model_entries[3], AgentModelEntry::Model { model, .. } if model.id == "n"));
    assert_eq!(page.on_key(KeyCode::Enter), (true, None));
    assert_eq!(page.view, AgentManagerView::List);
    assert_eq!(page.on_key(KeyCode::Up), (true, None));
    assert_eq!(page.selected, 0);
    for _ in 0..count + 3 {
        assert!(page.on_key(KeyCode::Down).0);
    }
    assert_eq!(page.selected, count);
    assert!(page.on_key(KeyCode::Enter).0);
    assert_eq!(page.view, AgentManagerView::Detail(count - 1));
    assert!(page.on_key(KeyCode::Down).0);
    assert_eq!(page.detail_action_selected, 0);
    assert!(page.on_key(KeyCode::Esc).0);
    assert_eq!(page.view, AgentManagerView::List);
    assert_eq!(page.on_key(KeyCode::Esc), (false, None));
}

#[test]
fn agents_are_deleted_once_that_is_confirmed() {
    let mut registry = AgentRegistry::with_built_ins();
    let path = "/work/.omini/agents/helper.md";
    registry.add_file(path, Ok(agent_text(&draft())));
    let mut page = AgentManagerState::open(AgentManagement {
        records: agent_records(&registry, "/work"),
        providers: Vec::new(),
        current_provider: "p".to_string(),
        current_model: "m".to_string(),
    });
    let count = page.records.len();
    for _ in 0..count {
        page.on_key(KeyCode::Down);
    }
    page.on_key(KeyCode::Enter);
    page.on_key(KeyCode::Enter);
    assert_eq!(page.view, AgentManagerView::EditMenu);
    assert_eq!(page.draft.name, "helper");
    assert_eq!(page.draft.original_path.as_deref(), Some(path));
    page.on_key(KeyCode::Esc);
    page.on_key(KeyCode::Enter);
    page.on_key(KeyCode::Down);
    page.on_key(KeyCode::Enter);
    assert_eq!(page.view, AgentManagerView::ConfirmDelete(count - 1));
    page.on_key(KeyCode::Esc);
    assert_eq!(page.view, AgentManagerView::Detail(count - 1));
    page.on_key(KeyCode::Enter);
    assert_eq!(
        page.on_key(KeyCode::Enter),
        (
            true,
            Some(UiToRuntimeEvent::AgentDeleteRequested {
                path: path.to_string()
            })
        )
    );
    let built_in = AgentRegistry::with_built_ins();
    page.update_records(agent_records(&built_in, "/work"));
    assert_eq!(page.selected, count - 1);
    assert_eq!(page.view, AgentManagerView::List);
}

#[test]
fn call_that_ends_after_all_were_sent_is_sent_again() {
    let mut stream = OpenAiStream::new();
    let first = "{\"choices\":[{\"delta\":{\"tool_calls\":[{\"index\":0,\"id\":\"a\",\
        \"function\":{\"name\":\"x\",\"arguments\":\"{}\"}}]},\"finish_reason\":\"tool_calls\"}]}";
    let second = "{\"choices\":[{\"delta\":{\"tool_calls\":[{\"index\":1,\"id\":\"b\",\
        \"function\":{\"name\":\"y\",\"arguments\":\"{}\"}}]}}]}";
    let (events, _) = stream.on_event(first);
    assert!(matches!(&events[..], [ApiEvent::ToolUse(call)] if call.id == "a"));
    let (events, _) = stream.on_event(second);
    assert!(matches!(&events[..], [ApiEvent::ToolUse(call)] if call.id == "a"));
    let events = stream.finish();
    assert!(matches!(&events[0], ApiEvent::ToolUse(call) if call.id == "b"));
    assert_eq!(events.len(), 2);
}

#[test]
fn quoted_scalar_must_not_be_empty() {
    assert_eq!(parse_quoted(""), Err("empty quoted scalar".to_string()));
    assert_eq!(
        parse_quoted("\""),
        Err("unterminated quoted scalar: \"".to_string())
    );
    assert_eq!(parse_quoted("'a b'"), Ok("a b".to_string()));
}

#[test]
fn models_are_put_before_the_user() {
    let mut registry = CommandRegistry::new();
    register_default_commands(&mut registry);
    assert_eq!(registry.get("model").unwrap().name, "model");
    assert_eq!(built_in("model"), Some(BuiltIn::Model));
    assert_eq!(built_in("nothing"), None);
    let result = ModelCommand.execute(
        vec![("p".to_string(), provider("P", &["m"]))],
        "p".to_string(),
        "m".to_string(),
    );
    match result {
        CommandResult::Done(effects) => assert!(matches!(
            &effects[..],
            [CommandEffect::ShowInteraction(InteractionRequest::ModelSelection {
                current_model,
                ..
            })] if current_model == "m"
        )),
        CommandResult::Error(e) => panic!("{e}"),
    }
}

#[test]
fn page_without_models_is_closed() {
    let mut state = UiState::new();
    keys::on_runtime_event(
        &mut state,
        RuntimeToUiEvent::InteractionRequest(InteractionRequest::ModelSelection {
            providers: Vec::new(),
            current_provider: "p".to_string(),
            current_model: "m".to_string(),
        }),
    );
    assert!(state.interaction_request.is_some());
    assert!(ready::takes_keys(&state));
    assert!(ready::page_takes(&state, KeyCode::Esc));
    assert!(ready::page_takes(&state, KeyCode::Char('x')));
    assert!(!ready::page_takes(&state, KeyCode::Up));
    let plain = KeyModifiers {
        shift: false,
        control: false,
        alt: false,
        other: false,
    };
    keys::on_key(&mut state, KeyCode::Char('x'), plain, false, 0);
    assert!(state.interaction_step.is_some());
    keys::on_key(&mut state, KeyCode::Esc, plain, false, 0);
    assert!(state.interaction_step.is_none());
    assert!(state.interaction_request.is_none());
}

#[test]
fn words_that_fit_are_not_split() {
    assert_eq!(word_wrap("one three  five", 5), strings(&["one", "three", "five"]));
    assert_eq!(word_wrap("abcdefg hi", 5), strings(&["abcde", "fg hi"]));
    assert_eq!(word_wrap("日本 語語 x", 4), strings(&["日本", "語語", "x"]));
}

fn image(path: &str) -> DisplayImageAttachment {
    DisplayImageAttachment {
        start_char: 0,
        end_char: 1,
        marker: "#".to_string(),
        source_path: path.to_string(),
        file_name: "f".to_string(),
    }
}

#[test]
fn images_go_to_the_model_behind_the_text() {
    let sent = |images: Vec<DisplayImageAttachment>| UserDraft {
        text: "look".to_string(),
        mentions: Vec::new(),
        images,
    };
    let made = submission_of(sent(Vec::new()), &Vec::new()).unwrap();
    assert_eq!(made.llm_message, Message::from_user_text("look".to_string()));
    assert!(made.display_message.is_none());
    let read = vec![Ok(b"foobar".to_vec()), Ok(vec![251, 255])];
    let images = vec![image("/a.PNG"), image("/b.jpeg")];
    let made = submission_of(sent(images), &read).unwrap();
    assert_eq!(
        made.llm_message.content[1..],
        [
            ContentBlock::Image(ImageBlock {
                media_type: "image/png".to_string(),
                data: "Zm9vYmFy".to_string()
            }),
            ContentBlock::Image(ImageBlock {
                media_type: "image/jpeg".to_string(),
                data: "+/8=".to_string()
            })
        ]
    );
    assert_eq!(made.display_message.unwrap().images.len(), 2);
    let read = vec![Err("gone".to_string())];
    let failed = submission_of(sent(vec![image("/a.png")]), &read);
    assert_eq!(failed.err(), Some("/a.png: gone".to_string()));
    assert_eq!(media_type("/x.webp"), "image/webp");
    assert_eq!(media_type("/x.gif"), "image/gif");
    assert_eq!(media_type("/x"), "application/octet-stream");
}

#[test]
fn lines_of_a_stream_are_read_as_text() {
    let mut rest: Vec<u8> = Vec::new();
    let lines = text_lines(&mut rest, &b"caf\xc3\xa9\r\nbad \xff\nrest".to_vec());
    assert_eq!(lines, strings(&["caf\u{e9}", "bad \u{fffd}"]));
    assert_eq!(rest, b"rest".to_vec());
}

#[test]
fn text_for_the_clipboard_is_in_base_64() {
    let sequence = |text: &str| clipboard_sequence(&text.as_bytes().to_vec());
    assert_eq!(sequence(""), "\x1b]52;c;\x07");
    assert_eq!(sequence("f"), "\x1b]52;c;Zg==\x07");
    assert_eq!(sequence("fo"), "\x1b]52;c;Zm8=\x07");
    assert_eq!(sequence("foobar"), "\x1b]52;c;Zm9vYmFy\x07");
    assert_eq!(clipboard_sequence(&vec![251, 255]), "\x1b]52;c;+/8=\x07");
}

#[test]
fn panel_shows_what_is_selected_of_it() {
    let mut state = UiState::new();
    state.messages_area = band(0, 10);
    state.message_scroll_y = 4;
    state.text_selection = Some(TextSelection {
        start: SelectionPoint { row: 5, col: 1 },
        end: SelectionPoint { row: 5, col: 2 },
    });
    let mut registry: Vec<SelectableLine> = Vec::new();
    let mut lines = vec![plain_line("abcd"), plain_line("efgh")];
    register_panel(&state, &mut registry, band(0, 2), &mut lines);
    assert_eq!(registry.len(), 2);
    assert_eq!((registry[1].row, registry[1].text.as_str()), (1, "efgh"));
    assert_eq!(lines[0].spans.len(), 1);
    assert_eq!(lines[1].spans.len(), 3);
    assert_eq!(line_to_plain_text(&lines[1]), "efgh");
}
