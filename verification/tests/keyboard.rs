use omini::tui::input;
use omini::tui::input::KeyCode;
use omini::tui::input::KeyModifiers;
use omini::tui::keys;
use omini::tui::keys::MouseAction;
use omini::tui::keys::UiEffect;
use omini::tui::selection;
use omini::tui::state::interaction::InteractionStep;
use omini::tui::state::interaction::ModelSelectionEntry;
use omini::tui::state::AgentStatus;
use omini::tui::state::Rect;
use omini::tui::state::SelectionPoint;
use omini::tui::state::TextSelection;
use omini::tui::state::UiState;
use omini::types::config::ModelConfig;
use omini::types::config::ThinkingEffort;
use omini::types::display::UserDraft;
use omini::types::events::BashPreview;
use omini::types::events::InteractionRequest;
use omini::types::events::PermissionPreview;
use omini::types::events::RuntimeToUiEvent;
use omini::types::events::SessionSummary;
use omini::types::events::ToolPauseKind;
use omini::types::events::ToolPauseRequest;
use omini::types::events::ToolPauseResponse;
use omini::types::events::UiToRuntimeEvent;

fn none() -> KeyModifiers {
    KeyModifiers {
        shift: false,
        control: false,
        alt: false,
        other: false,
    }
}

fn press(state: &mut UiState, key: KeyCode) -> UiEffect {
    keys::on_key(state, key, none(), false, 0)
}

fn control(state: &mut UiState, c: char) -> UiEffect {
    let modifiers = KeyModifiers {
        control: true,
        ..none()
    };
    keys::on_key(state, KeyCode::Char(c), modifiers, false, 0)
}

fn type_text(state: &mut UiState, text: &str) {
    for c in text.chars() {
        press(state, KeyCode::Char(c));
    }
}

fn draft(text: &str) -> UserDraft {
    UserDraft {
        text: text.to_string(),
        mentions: Vec::new(),
        images: Vec::new(),
    }
}

#[test]
fn typed_text_is_sent() {
    let mut state = UiState::new();
    type_text(&mut state, "hello");
    assert_eq!(state.input, "hello");
    assert_eq!(
        press(&mut state, KeyCode::Enter),
        UiEffect::Request(UiToRuntimeEvent::SendMessage(draft("hello")))
    );
    assert!(state.input.is_empty());
}

#[test]
fn typed_command_is_sent_as_a_command() {
    let mut state = UiState::new();
    type_text(&mut state, "/nothing");
    assert_eq!(
        press(&mut state, KeyCode::Enter),
        UiEffect::Request(UiToRuntimeEvent::SendCommand("/nothing".to_string()))
    );
}

#[test]
fn input_during_a_run_waits() {
    let mut state = UiState::new();
    state.apply_event(RuntimeToUiEvent::RunStarted);
    type_text(&mut state, "later");
    assert_eq!(press(&mut state, KeyCode::Enter), UiEffect::Nothing);
    assert_eq!(state.queued_user_inputs.len(), 1);
    assert_eq!(
        keys::on_runtime_event(&mut state, RuntimeToUiEvent::RunFinished),
        UiEffect::Request(UiToRuntimeEvent::SendMessage(draft("later")))
    );
    assert!(state.queued_user_inputs.is_empty());
}

#[test]
fn escape_cancels_a_run() {
    let mut state = UiState::new();
    state.agent_status = AgentStatus::Working;
    assert_eq!(
        press(&mut state, KeyCode::Esc),
        UiEffect::Request(UiToRuntimeEvent::CancelRun)
    );
}

#[test]
fn quitting_needs_an_empty_input() {
    let mut state = UiState::new();
    type_text(&mut state, "x");
    assert_eq!(control(&mut state, 'c'), UiEffect::Nothing);
    assert!(state.input.is_empty());
    assert_eq!(control(&mut state, 'c'), UiEffect::Quit);
}

#[test]
fn backspace_undoes_typing() {
    let mut state = UiState::new();
    type_text(&mut state, "ab");
    press(&mut state, KeyCode::Left);
    press(&mut state, KeyCode::Char('x'));
    assert_eq!(state.input, "axb");
    press(&mut state, KeyCode::Backspace);
    assert_eq!(state.input, "ab");
    assert_eq!(state.cursor_char, 1);
}

#[test]
fn permission_is_given_by_key() {
    let mut state = UiState::new();
    state.apply_event(RuntimeToUiEvent::ToolPauseRequested(ToolPauseRequest {
        tool_use_id: "t1".to_string(),
        tool_name: "bash".to_string(),
        kind: ToolPauseKind::Permission(PermissionPreview::Bash(BashPreview {
            command: "ls".to_string(),
            description: None,
        })),
        source_agent_label: None,
        permission_source: None,
        preview_tool_use_id: None,
    }));
    assert_eq!(state.agent_status, AgentStatus::AwaitingInput);
    assert_eq!(
        press(&mut state, KeyCode::Enter),
        UiEffect::Request(UiToRuntimeEvent::ResolveToolPause {
            tool_use_id: "t1".to_string(),
            response: ToolPauseResponse::Permission { approved: true }
        })
    );
}

fn model(id: &str, thinking: bool) -> ModelSelectionEntry {
    ModelSelectionEntry::Model {
        provider_key: "p".to_string(),
        model: ModelConfig {
            id: id.to_string(),
            name: None,
            limit: 1000,
            thinking,
        },
    }
}

fn header(name: &str) -> ModelSelectionEntry {
    ModelSelectionEntry::ProviderHeader {
        name: name.to_string(),
    }
}

fn models(selected: usize) -> InteractionStep {
    InteractionStep::ModelSelection {
        entries: vec![
            header("P"),
            model("small", false),
            header("Q"),
            model("big", true),
        ],
        selected,
        thinking_idx: 0,
        active_provider: "p".to_string(),
        active_model: "small".to_string(),
    }
}

#[test]
fn moving_passes_over_headings() {
    let (step, open, request) = input::handle_interaction_key(models(1), KeyCode::Down);
    assert!(open);
    assert_eq!(request, None);
    match &step {
        InteractionStep::ModelSelection { selected, .. } => assert_eq!(*selected, 3),
        _ => panic!("another step"),
    }
    let (step, _, request) = input::handle_interaction_key(step, KeyCode::Enter);
    match request {
        Some(UiToRuntimeEvent::ModelSelected { provider, model, .. }) => {
            assert_eq!(provider, "p");
            assert_eq!(model, "big");
        }
        other => panic!("{other:?}"),
    }
    let (_, open, request) = input::handle_interaction_key(step, KeyCode::Esc);
    assert!(!open);
    assert_eq!(request, None);
}

#[test]
fn model_without_thinking_is_chosen_without_effort() {
    let (_, _, request) = input::handle_interaction_key(models(1), KeyCode::Enter);
    match request {
        Some(UiToRuntimeEvent::ModelSelected {
            model,
            thinking_effort,
            ..
        }) => {
            assert_eq!(model, "small");
            assert!(thinking_effort.is_none() || thinking_effort == Some(ThinkingEffort::Off));
        }
        other => panic!("{other:?}"),
    }
}

fn session(id: &str, title: &str) -> SessionSummary {
    SessionSummary {
        id: id.to_string(),
        title: title.to_string(),
        model: "m".to_string(),
        provider: "p".to_string(),
        message_count: 0,
        created_at: 0,
    }
}

#[test]
fn sessions_are_searched() {
    let all = vec![session("a", "Fix the Parser"), session("b", "Draw lines")];
    let found = input::matching_sessions(&all, "PARSER");
    assert_eq!(found.len(), 1);
    assert_eq!(found[0].id, "a");
    assert_eq!(input::matching_sessions(&all, "").len(), 2);
}

#[test]
fn session_is_chosen() {
    let mut state = UiState::new();
    keys::on_runtime_event(
        &mut state,
        RuntimeToUiEvent::InteractionRequest(InteractionRequest::SessionSelection {
            sessions: vec![session("a", "one"), session("b", "two")],
        }),
    );
    press(&mut state, KeyCode::Down);
    assert_eq!(
        press(&mut state, KeyCode::Enter),
        UiEffect::Request(UiToRuntimeEvent::SessionSelected {
            session_id: "b".to_string()
        })
    );
}

#[test]
fn selection_has_no_direction() {
    let mut state = UiState::new();
    state.selectable_message_lines = vec!["hello".to_string(), "world".to_string()];
    let a = SelectionPoint { row: 0, col: 1 };
    let b = SelectionPoint { row: 1, col: 3 };
    state.text_selection = Some(TextSelection { start: a, end: b });
    let forth = selection::selected_text(&state);
    state.text_selection = Some(TextSelection { start: b, end: a });
    assert_eq!(selection::selected_text(&state), forth);
    assert_eq!(forth, Some("ello\nworl".to_string()));
    assert_eq!(selection::slice_display_cols("a你b", 1, 3), "你");
}

#[test]
fn mouse_scrolls_and_selects() {
    let mut state = UiState::new();
    state.messages_area = Rect {
        x: 0,
        y: 0,
        width: 20,
        height: 10,
    };
    state.total_lines = 100;
    keys::on_mouse(&mut state, MouseAction::ScrollUp, 1, 1, 1000);
    assert!(state.scroll_offset > 0);
    assert!(!state.auto_scroll);
    state.selectable_message_lines = vec!["hello".to_string()];
    keys::on_mouse(&mut state, MouseAction::Down, 0, 1, 2000);
    keys::on_mouse(&mut state, MouseAction::Drag, 0, 3, 2000);
    assert!(state.is_selecting_text);
    assert!(selection::mouse_in_area(3, 3, state.messages_area));
    assert!(!selection::mouse_in_area(30, 3, state.messages_area));
}

#[test]
fn newline_and_intervention_keys() {
    let alt = KeyModifiers { alt: true, ..none() };
    assert!(input::is_intervention_key(KeyCode::Enter, alt));
    assert!(!input::is_intervention_key(KeyCode::Enter, none()));
    let shift = KeyModifiers {
        shift: true,
        ..none()
    };
    assert!(input::is_newline_key(KeyCode::Enter, shift));
    assert!(!input::is_newline_key(KeyCode::Enter, none()));
}

#[test]
fn queued_input_is_joined_when_inserted() {
    let mut state = UiState::new();
    state.apply_event(RuntimeToUiEvent::RunStarted);
    for text in ["one", "two"] {
        type_text(&mut state, text);
        press(&mut state, KeyCode::Enter);
    }
    let alt = KeyModifiers { alt: true, ..none() };
    match keys::on_key(&mut state, KeyCode::Enter, alt, false, 0) {
        UiEffect::Request(UiToRuntimeEvent::InterveneMessage(d)) => {
            assert!(d.text.contains("one"));
            assert!(d.text.contains("two"));
        }
        other => panic!("{other:?}"),
    }
    assert!(state.queued_user_inputs.is_empty());
    assert_eq!(state.pending_intervention_inputs.len(), 2);
}

#[test]
fn scrolling_down_undoes_scrolling_up() {
    let mut state = UiState::new();
    state.total_lines = 100;
    state.scroll_up(7);
    state.scroll_down(7);
    assert_eq!(state.scroll_offset, 0);
}

#[test]
fn shutdown_quits() {
    let mut state = UiState::new();
    assert_eq!(
        keys::on_runtime_event(&mut state, RuntimeToUiEvent::Shutdown),
        UiEffect::Quit
    );
}
