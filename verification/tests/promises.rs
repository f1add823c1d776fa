use omini::db::insert_message;
use omini::db::BlockForm;
use omini::db::BlockSource;
use omini::db::NewMessage;
use omini::db::StoredMessage;
use omini::db::BLOCK_SIZE_THRESHOLD;
use omini::api::openai::OpenAiStream;
use omini::api::ApiEvent;
use omini::json::nat_value;
use omini::json::Json;
use omini::json::JsonNumber;
use omini::runtime::history::load_messages_from_db;
use omini::tui::input::KeyCode;
use omini::tui::input::KeyModifiers;
use omini::tui::keys;
use omini::tui::keys::MouseAction;
use omini::tui::line::line_to_plain_text;
use omini::tui::line::plain_line;
use omini::tui::ready;
use omini::tui::render::layout;
use omini::tui::render::permission::render_permission_drawer;
use omini::tui::render::render;
use omini::tui::render::Screen;
use omini::tui::render::screen_lines::register_and_highlight_lines;
use omini::tui::render::screen_lines::SelectableLine;
use omini::tui::state::interaction::InteractionStep;
use omini::tui::state::InputPasteMarker;
use omini::tui::state::Rect;
use omini::tui::state::UiMessage;
use omini::tui::state::UiState;
use omini::types::display::UserDraft;
use omini::types::events::BashPreview;
use omini::types::events::EditPermissionPreview;
use omini::types::events::PermissionPreview;
use omini::types::events::RuntimeToUiEvent;
use omini::types::events::SubagentStartedEvent;
use omini::types::events::SubagentStatus;
use omini::types::events::ToolPauseKind;
use omini::types::events::ToolPauseRequest;
use omini::types::message::ContentBlock;
use omini::types::message::Message;
use omini::types::message::Role;
use omini::types::message::ToolUseBlock;

fn string(s: &str) -> Json {
    Json::Str(s.to_string())
}

fn minus_seven() -> Json {
    Json::Number(JsonNumber {
        unsigned: None,
        signed: Some(-7),
        text: "-7".to_string(),
    })
}

fn entry(key: &str, value: Json) -> (String, Json) {
    (key.to_string(), value)
}

#[test]
fn stored_message_is_loaded_again() {
    let input = Json::Object(vec![
        entry("count", nat_value(18446744073709551615)),
        entry("list", Json::Array(vec![minus_seven(), Json::Null, Json::Bool(true)])),
        entry("text", string("a \"quoted\"\n\u{4f60}\u{1}")),
    ]);
    let value = Json::Object(vec![
        entry("id", string("t1")),
        entry("input", input),
        entry("name", string("bash")),
        entry("type", string("tool_use")),
    ]);
    let msg = NewMessage {
        session_id: "s".to_string(),
        role: "assistant".to_string(),
        blocks: vec![
            BlockForm {
                value: value.copy(),
                text: "{}".to_string(),
            },
            BlockForm {
                value: value.copy(),
                text: "y".repeat(BLOCK_SIZE_THRESHOLD + 1),
            },
        ],
        kind: "normal".to_string(),
        created_at: 0,
        blocks_dir: "/b".to_string(),
    };
    let (content, files) = insert_message(&msg, &vec!["u1".to_string(), "u2".to_string()]);
    assert_eq!(files.len(), 1);
    let rows = vec![StoredMessage {
        id: 1,
        session_id: "s".to_string(),
        role: "assistant".to_string(),
        content,
        kind: "normal".to_string(),
        created_at: 0,
    }];
    let loaded = load_messages_from_db(&rows, "/b");
    assert_eq!(loaded.len(), 1);
    assert_eq!(loaded[0].role, Role::Assistant);
    assert_eq!(
        loaded[0].blocks,
        vec![
            BlockSource::Row(value),
            BlockSource::File(files[0].path.clone())
        ]
    );
    assert_eq!(files[0].content, msg.blocks[1].text);
}

fn press(state: &mut UiState, key: KeyCode) {
    let none = KeyModifiers {
        shift: false,
        control: false,
        alt: false,
        other: false,
    };
    keys::on_key(state, key, none, false, 0);
}

#[test]
fn state_takes_keys_after_whatever_was_done() {
    let mut state = UiState::new();
    assert!(ready::takes_keys(&state));
    for c in "hello @wor".chars() {
        press(&mut state, KeyCode::Char(c));
        assert!(ready::takes_keys(&state));
    }
    keys::on_paste(&mut state, "one\ntwo\nthree\nfour".to_string(), false);
    assert_eq!(state.input_paste_markers.len(), 1);
    assert!(ready::takes_keys(&state));
    for key in [
        KeyCode::Left,
        KeyCode::Backspace,
        KeyCode::Home,
        KeyCode::Delete,
        KeyCode::End,
        KeyCode::Up,
        KeyCode::Tab,
        KeyCode::Esc,
    ] {
        press(&mut state, key);
        assert!(ready::takes_keys(&state));
    }
    keys::on_mouse(&mut state, MouseAction::ScrollUp, 0, 0, 1);
    assert!(ready::takes_keys(&state));
    keys::on_runtime_event(&mut state, RuntimeToUiEvent::RunStarted);
    keys::on_tick(&mut state);
    assert!(ready::takes_keys(&state));
}

#[test]
fn state_out_of_order_takes_no_keys() {
    let mut state = UiState::new();
    state.cursor_char = 1;
    assert!(!ready::takes_keys(&state));

    let mut state = UiState::new();
    state.input = "[x]".to_string();
    state.input_paste_markers.push(InputPasteMarker {
        start_char: 0,
        end_char: 3,
        marker: "[x]".to_string(),
        full_text: "pasted".to_string(),
        full_char_count: 6,
    });
    assert!(ready::takes_keys(&state));
    state.input = "[y]".to_string();
    assert!(!ready::takes_keys(&state));

    let mut state = UiState::new();
    state.interaction_step = Some(InteractionStep::ModelSelection {
        entries: Vec::new(),
        selected: 0,
        thinking_idx: 0,
        active_provider: String::new(),
        active_model: String::new(),
    });
    assert!(ready::takes_keys(&state));
    assert!(ready::page_takes(&state, KeyCode::Esc));
    assert!(!ready::page_takes(&state, KeyCode::Enter));
    if let Some(InteractionStep::ModelSelection { thinking_idx, .. }) = &mut state.interaction_step {
        *thinking_idx = 4;
    }
    assert!(!ready::takes_keys(&state));
}

#[test]
fn room_ends_at_the_largest_position() {
    let mut state = UiState::new();
    assert!(ready::has_room(&state, 1000));
    state.cursor_char = usize::MAX - 64;
    assert!(ready::has_room(&state, 0));
    assert!(!ready::has_room(&state, 1));
}

#[test]
fn offers_name_commands_that_there_are() {
    let mut state = UiState::new();
    assert!(ready::can_offer(&state));
    state.autocomplete.filtered.push(0);
    assert!(!ready::can_offer(&state));
}

#[test]
fn drafts_join_unless_a_range_is_too_far() {
    let mut state = UiState::new();
    state.queued_user_inputs.push_back(UserDraft {
        text: "abc".to_string(),
        mentions: Vec::new(),
        images: Vec::new(),
    });
    assert!(ready::joins(&state.queued_user_inputs));
}

#[test]
fn pieces_of_text_join() {
    let mut a = UiState::new();
    let mut b = UiState::new();
    for piece in ["He", "llo"] {
        a.apply_event(RuntimeToUiEvent::TextDelta(piece.to_string()));
    }
    b.apply_event(RuntimeToUiEvent::TextDelta("Hello".to_string()));
    assert_eq!(a.pending_assistant, b.pending_assistant);
    for piece in ["hm", "mm"] {
        a.apply_event(RuntimeToUiEvent::ThinkingDelta(piece.to_string()));
    }
    b.apply_event(RuntimeToUiEvent::ThinkingDelta("hmmm".to_string()));
    assert_eq!(a.pending_assistant, b.pending_assistant);
}

#[test]
fn error_ends_the_subagents() {
    let mut state = UiState::new();
    state.apply_event(RuntimeToUiEvent::SubagentStarted(SubagentStartedEvent {
        session_id: "c".to_string(),
        parent_session_id: "p".to_string(),
        spawn_tool_use_id: "t".to_string(),
        agent_label: "worker".to_string(),
    }));
    assert_eq!(state.subagents[0].status, SubagentStatus::Running);
    state.apply_event(RuntimeToUiEvent::Error("no network".to_string()));
    assert_eq!(state.subagents[0].status, SubagentStatus::Failed);
}

#[test]
fn events_leave_the_typed_input_alone() {
    let mut state = UiState::new();
    press(&mut state, KeyCode::Char('x'));
    state.apply_event(RuntimeToUiEvent::TurnStarted);
    state.apply_event(RuntimeToUiEvent::TextDelta("answer".to_string()));
    state.apply_event(RuntimeToUiEvent::TurnEnded);
    state.apply_event(RuntimeToUiEvent::Warning("careful".to_string()));
    assert_eq!(state.input, "x");
    assert_eq!(state.cursor_char, 1);
}

#[test]
fn selected_columns_of_a_panel_are_marked() {
    let mut registry: Vec<SelectableLine> = Vec::new();
    let mut lines = vec![plain_line("first"), plain_line("second")];
    let area = Rect {
        x: 2,
        y: 5,
        width: 20,
        height: 2,
    };
    register_and_highlight_lines(&mut registry, area, &mut lines, &vec![None, Some((1, 3))]);
    assert_eq!(
        registry,
        vec![
            SelectableLine {
                row: 5,
                column: 2,
                width: 20,
                text: "first".to_string()
            },
            SelectableLine {
                row: 6,
                column: 2,
                width: 20,
                text: "second".to_string()
            }
        ]
    );
    assert_eq!(lines[0], plain_line("first"));
    assert_eq!(line_to_plain_text(&lines[1]), "second");
    assert!(lines[1].spans.iter().any(|s| s.text == "ec" && s.style.bold));
}

fn pause(kind: PermissionPreview, preview_of: Option<&str>) -> ToolPauseRequest {
    ToolPauseRequest {
        tool_use_id: "asked".to_string(),
        tool_name: "write".to_string(),
        kind: ToolPauseKind::Permission(kind),
        source_agent_label: None,
        permission_source: None,
        preview_tool_use_id: preview_of.map(|s| s.to_string()),
    }
}

fn write_preview() -> PermissionPreview {
    PermissionPreview::Write(EditPermissionPreview {
        summary: "write /a".to_string(),
        path: "/a".to_string(),
        replacement_count: 0,
        replace_all: false,
        start_lines: vec![1],
        added_lines: 1,
        removed_lines: 0,
    })
}

fn area(height: u16) -> Rect {
    Rect {
        x: 0,
        y: 0,
        width: 80,
        height,
    }
}

#[test]
fn drawer_needs_ten_rows() {
    let mut state = UiState::new();
    assert!(ready::drawer_fits(&state, area(1)));
    state.apply_event(RuntimeToUiEvent::ToolPauseRequested(pause(write_preview(), None)));
    assert!(!ready::drawer_fits(&state, area(12)));
    assert!(ready::drawer_fits(&state, area(13)));

    let mut state = UiState::new();
    let bash = PermissionPreview::Bash(BashPreview {
        command: "ls".to_string(),
        description: None,
    });
    state.apply_event(RuntimeToUiEvent::ToolPauseRequested(pause(bash, None)));
    assert!(!ready::drawer_fits(&state, area(13)));
    assert!(ready::drawer_fits(&state, area(14)));
}

#[test]
fn drawer_previews_another_call() {
    let call = |id: &str, content: &str| {
        ContentBlock::ToolUse(ToolUseBlock {
            id: id.to_string(),
            name: "write".to_string(),
            input: vec![
                entry("file_path", string("/a")),
                entry("content", string(content)),
            ],
        })
    };
    let mut state = UiState::new();
    state.messages.push(UiMessage::Message(Message::new(
        Role::Assistant,
        vec![call("asked", "its own words"), call("other", "those shown")],
    )));
    state.apply_event(RuntimeToUiEvent::ToolPauseRequested(pause(
        write_preview(),
        Some("other"),
    )));
    let drawn = render_permission_drawer(&mut state, area(40), true, 0).unwrap();
    let text: String = drawn.lines.iter().map(line_to_plain_text).collect();
    assert!(text.contains("those shown"));
    assert!(!text.contains("its own words"));
}

#[test]
fn screen_is_laid_out_from_top_to_bottom() {
    let mut state = UiState::new();
    let whole = Rect {
        x: 3,
        y: 2,
        width: 60,
        height: 20,
    };
    match render(&mut state, whole) {
        Screen::Messages(plan, rows) => {
            assert!(plan.input && !plan.interaction && !plan.sessions);
            assert_eq!(plan.input_height, 3);
            assert_eq!(rows.messages, state.messages_area);
            assert_eq!(
                rows.messages,
                Rect {
                    x: 3,
                    y: 3,
                    width: 60,
                    height: 14
                }
            );
            assert_eq!(rows.input.y, 18);
            assert_eq!(rows.input.height, 3);
            assert_eq!(rows.footer.y, 21);
        }
        Screen::Sessions(_) => panic!("no list of sessions is open"),
    }
    assert_eq!(state.input_wrap_width, 60);
}

#[test]
fn list_of_sessions_takes_the_whole_screen() {
    let mut state = UiState::new();
    state.interaction_step = Some(InteractionStep::Session {
        sessions: Vec::new(),
        all_sessions: Vec::new(),
        search: String::new(),
        selected: 0,
    });
    match render(&mut state, area(20)) {
        Screen::Sessions(rows) => {
            assert_eq!(rows.header.height, 2);
            assert_eq!(rows.content.y, 2);
            assert_eq!(rows.content.height, 16);
            assert_eq!(rows.divider.y, 18);
            assert_eq!(rows.footer.y, 19);
        }
        Screen::Messages(_, _) => panic!("the list of sessions is open"),
    }
}

#[test]
fn waiting_messages_stand_above_the_input() {
    let rows = layout::input_rows(area(6), 3);
    assert_eq!(rows.queue.unwrap().height, 3);
    assert_eq!(rows.line.y, 4);
    let rows = layout::input_rows(area(3), 0);
    assert!(rows.queue.is_none());
    assert_eq!(rows.line.y, 1);
    let rows = layout::queue_rows(area(5));
    assert_eq!(rows.lines.height, 3);
    assert_eq!(rows.footer.y, 4);
}

#[test]
fn waiting_calls_go_in_the_order_of_their_index() {
    let mut stream = OpenAiStream::new();
    let chunk = "{\"choices\":[{\"delta\":{\"tool_calls\":[\
        {\"index\":1,\"id\":\"b\",\"function\":{\"name\":\"x\",\"arguments\":\"{}\"}},\
        {\"index\":0,\"id\":\"a\",\"function\":{\"name\":\"x\",\"arguments\":\"{}\"}}]},\
        \"finish_reason\":\"tool_calls\"}]}";
    let (events, over) = stream.on_event(chunk);
    assert!(!over);
    let ids: Vec<&str> = events
        .iter()
        .map(|event| match event {
            ApiEvent::ToolUse(call) => call.id.as_str(),
            _ => "other",
        })
        .collect();
    assert_eq!(ids, vec!["a", "b"]);
}
