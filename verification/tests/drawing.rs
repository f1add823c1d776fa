use omini::json::Json;
use omini::tui::line::line_width;
use omini::tui::line::line_to_plain_text;
use omini::tui::line::plain;
use omini::tui::line::Line;
use omini::tui::render::agents;
use omini::tui::render::editor;
use omini::tui::render::input;
use omini::tui::render::labels;
use omini::tui::render::messages;
use omini::tui::render::messages::Look;
use omini::tui::render::model_panel;
use omini::tui::render::permission;
use omini::tui::render::plan_screen;
use omini::tui::render::sessions;
use omini::tui::render::status;
use omini::tui::render::styled;
use omini::tui::render::styled::AlertKind;
use omini::tui::render::subagent;
use omini::tui::state::agents::AgentEditorDraft;
use omini::tui::state::agents::AgentEditorField;
use omini::tui::state::agents::AgentManagerState;
use omini::tui::state::agents::AgentManagerView;
use omini::tui::state::interaction::ModelSelectionEntry;
use omini::tui::state::Rect;
use omini::tui::state::SelectionPoint;
use omini::tui::state::TextSelection;
use omini::tui::state::UiMessage;
use omini::tui::state::UiState;
use omini::tui::widgets;
use omini::tui::widgets::file_mutation;
use omini::tui::widgets::wrap::word_wrap;
use omini::types::config::ModelConfig;
use omini::types::display::UserDraft;
use omini::types::events::AgentSourceKind;
use omini::types::events::BashPreview;
use omini::types::events::CommandSummary;
use omini::types::events::PermissionPreview;
use omini::types::events::RuntimeToUiEvent;
use omini::types::events::SessionSummary;
use omini::types::events::ToolPauseKind;
use omini::types::events::ToolPauseRequest;
use omini::types::message::ContentBlock;
use omini::types::message::Message;
use omini::types::message::Role;
use omini::types::message::ToolResultBlock;
use omini::types::message::ToolUseBlock;

fn texts(lines: &[Line]) -> Vec<String> {
    lines.iter().map(line_to_plain_text).collect()
}

fn string(s: &str) -> Json {
    Json::Str(s.to_string())
}

fn call(name: &str, input: &[(&str, &str)]) -> ToolUseBlock {
    ToolUseBlock {
        id: "t1".to_string(),
        name: name.to_string(),
        input: input
            .iter()
            .map(|(key, value)| (key.to_string(), string(value)))
            .collect(),
    }
}

fn answer(content: &str, is_error: bool) -> ToolResultBlock {
    ToolResultBlock {
        tool_use_id: "t1".to_string(),
        is_error,
        content: content.to_string(),
        metadata: None,
    }
}

fn area(width: u16, height: u16) -> Rect {
    Rect {
        x: 0,
        y: 0,
        width,
        height,
    }
}

#[test]
fn words_are_wrapped() {
    assert_eq!(
        word_wrap("the quick brown fox", 10),
        vec!["the quick".to_string(), "brown fox".to_string()]
    );
    assert_eq!(
        word_wrap("abcdefgh", 3),
        vec!["abc".to_string(), "def".to_string(), "gh".to_string()]
    );
    for piece in word_wrap("你好 hello 世界 wide and narrow", 6) {
        assert!(omini::width::str_width(&piece) <= 6);
    }
}

#[test]
fn wrapping_keeps_the_words() {
    let text = "one two  three four five";
    let joined: Vec<String> = word_wrap(text, 9)
        .iter()
        .flat_map(|l| l.split_whitespace().map(|w| w.to_string()).collect::<Vec<_>>())
        .collect();
    let words: Vec<String> = text.split_whitespace().map(|w| w.to_string()).collect();
    assert_eq!(joined, words);
}

#[test]
fn edits_are_counted_line_by_line() {
    assert_eq!(file_mutation::count_edit_line_changes("a\nb\nc", "a\nx\nc"), (1, 1));
    assert_eq!(file_mutation::count_edit_line_changes("a", "a\nb\nc"), (2, 0));
    assert_eq!(file_mutation::count_edit_line_changes("a\nb", "b"), (0, 1));
    assert_eq!(file_mutation::count_edit_line_changes("a", "a"), (0, 0));
}

#[test]
fn edit_is_drawn_with_both_sides() {
    let tool_use = call(
        "edit",
        &[
            ("file_path", "/w/a.rs"),
            ("old_string", "let a = 1;"),
            ("new_string", "let a = 2;"),
        ],
    );
    let lines = texts(&file_mutation::render_edit(
        &tool_use,
        Some(&answer("ok", false)),
        None,
        60,
        Some("/w"),
        0,
    ));
    assert!(lines.iter().any(|l| l.contains("a.rs")));
    assert!(lines.iter().any(|l| l.contains("let a = 1;")));
    assert!(lines.iter().any(|l| l.contains("let a = 2;")));
}

#[test]
fn command_is_drawn_with_its_output() {
    let tool_use = call("bash", &[("command", "ls"), ("description", "List files")]);
    let lines = texts(&widgets::render_bash(
        &tool_use,
        Some(&answer("one\ntwo", false)),
        60,
        true,
        0,
    ));
    assert!(lines.iter().any(|l| l.contains("ls")));
    assert!(lines.iter().any(|l| l.contains("one")));
    assert!(lines.iter().any(|l| l.contains("two")));
}

#[test]
fn long_output_is_cut() {
    let long: Vec<String> = (0..50).map(|i| format!("line {i}")).collect();
    let tool_use = call("bash", &[("command", "ls")]);
    let lines = texts(&widgets::render_bash(
        &tool_use,
        Some(&answer(&long.join("\n"), false)),
        60,
        true,
        0,
    ));
    assert!(lines.len() < 50);
    assert!(!lines.iter().any(|l| l.contains("line 25")));
}

#[test]
fn paths_below_the_project_are_shown_short() {
    assert_eq!(widgets::display_path("/w/src/a.rs", Some("/w")), "src/a.rs");
    assert_eq!(widgets::display_path("/other/a.rs", Some("/w")), "/other/a.rs");
    assert_eq!(widgets::display_path("/w/a", None), "/w/a");
}

#[test]
fn labels_are_made_of_words() {
    assert_eq!(labels::label_camel_boundaries("readFile"), "read-File");
    assert_eq!(labels::format_tool_label("apply_patch"), "ApplyPatch");
    assert_eq!(
        labels::label_words("code-review_agent"),
        vec!["code".to_string(), "review".to_string(), "agent".to_string()]
    );
}

#[test]
fn image_markers_are_found() {
    assert_eq!(
        styled::image_marker_ranges("a [Image#1] b [Image#] [Image#23]"),
        vec![(2, 11), (23, 33)]
    );
}

#[test]
fn styled_lines_keep_the_text_and_fit() {
    let lines = styled::styled_wrapped_ranges(
        "hello [Image#1] world",
        &Vec::new(),
        8,
        plain(),
    );
    let joined: String = texts(&lines).concat();
    assert_eq!(joined, "hello [Image#1] world");
    for l in &lines {
        assert!(line_width(l) <= 8);
    }
}

#[test]
fn alerts_are_drawn() {
    let lines = texts(&styled::build_alert_lines("it broke", 40, AlertKind::Error));
    assert!(lines.iter().any(|l| l.contains("it broke")));
}

#[test]
fn subagent_is_drawn() {
    let tool_use = call("subagent", &[("name", "explorer"), ("prompt", "look")]);
    let lines = texts(&subagent::render_subagent_tool(
        &tool_use,
        Some(&answer("gone wrong", true)),
        None,
        60,
        None,
    ));
    assert!(lines.iter().any(|l| l.contains("Explorer")));
}

fn look(width: usize) -> Look {
    Look {
        width,
        collapsed: true,
        ms: 0,
    }
}

fn talk(count: usize) -> UiState {
    let mut state = UiState::new();
    for i in 0..count {
        state.messages.push(UiMessage::Message(Message::new(
            Role::Assistant,
            vec![ContentBlock::from_text(format!("answer {i}"))],
        )));
    }
    state
}

#[test]
fn newest_messages_are_at_the_bottom() {
    let mut state = talk(30);
    let drawn = messages::render_messages(&mut state, look(40), 10).unwrap();
    let shown = texts(&drawn.lines);
    let window = &shown[drawn.top..];
    assert!(window.iter().any(|l| l.contains("answer 29")));
    assert!(!window.iter().any(|l| l.contains("answer 3 ")));
    assert_eq!(state.total_lines, drawn.lines.len());
}

#[test]
fn scrolled_messages_stay_in_place() {
    let mut state = talk(30);
    messages::render_messages(&mut state, look(40), 10);
    state.scroll_up(8);
    let before = messages::render_messages(&mut state, look(40), 10).unwrap();
    let seen = line_to_plain_text(&before.lines[before.top]);
    state.messages.push(UiMessage::Notice {
        text: "new".to_string(),
    });
    let after = messages::render_messages(&mut state, look(40), 10).unwrap();
    assert_eq!(line_to_plain_text(&after.lines[after.top]), seen);
}

#[test]
fn selection_is_highlighted() {
    let selection = Some(TextSelection {
        start: SelectionPoint { row: 2, col: 4 },
        end: SelectionPoint { row: 1, col: 1 },
    });
    assert_eq!(
        messages::selected_cols_for_line(selection, 1, "hello"),
        Some((1, 5))
    );
    assert_eq!(
        messages::selected_cols_for_line(selection, 2, "hello"),
        Some((0, 5))
    );
    assert_eq!(messages::selected_cols_for_line(selection, 3, "hello"), None);
    let l = messages::highlighted_line("hello", 1, 3, None);
    assert_eq!(line_to_plain_text(&l), "hello");
}

fn model(id: &str, thinking: bool) -> ModelSelectionEntry {
    ModelSelectionEntry::Model {
        provider_key: "p".to_string(),
        model: ModelConfig {
            id: id.to_string(),
            name: None,
            limit: 1000,
            thinking,
        },
    }
}

#[test]
fn models_are_listed() {
    let entries = vec![
        ModelSelectionEntry::ProviderHeader {
            name: "P".to_string(),
        },
        model("small", false),
        model("big", true),
    ];
    let drawn = model_panel::render_model_panel(area(60, 30), &entries, 2, 1, "p", "small");
    let lines = texts(&drawn.lines);
    assert!(lines.iter().any(|l| l.contains("small")));
    assert!(lines.iter().any(|l| l.contains("big")));
    assert!(drawn.effort.is_some());
    let drawn = model_panel::render_model_panel(area(60, 30), &entries, 1, 1, "p", "small");
    assert!(drawn.effort.is_none());
    assert!(line_to_plain_text(&drawn.title).contains("Select model"));
}

fn session(id: usize) -> SessionSummary {
    SessionSummary {
        id: format!("s{id}"),
        title: format!("title {id}"),
        model: "m".to_string(),
        provider: "p".to_string(),
        message_count: 1,
        created_at: 0,
    }
}

#[test]
fn selected_session_is_in_sight() {
    let list: Vec<SessionSummary> = (0..40).map(session).collect();
    let times: Vec<String> = (0..40).map(|_| "just now".to_string()).collect();
    let drawn = sessions::render_session_list(&list, 33, "", &times, 80, 20);
    assert!(texts(&drawn.lines).iter().any(|l| l.contains("title 33")));
    assert!(!texts(&drawn.lines).iter().any(|l| l.contains("title 2 ")));
}

#[test]
fn times_are_told_in_words() {
    assert_eq!(sessions::relative_time(100, 90, "d"), "just now");
    assert_eq!(sessions::relative_time(100, 200, "d"), "just now");
    assert_eq!(sessions::relative_time(600, 0, "d"), "10m ago");
    assert_eq!(sessions::relative_time(7200, 0, "d"), "2h ago");
    assert_eq!(sessions::relative_time(172_800, 0, "d"), "2d ago");
    assert_eq!(sessions::relative_time(1_209_600, 0, "d"), "2w ago");
    assert_eq!(sessions::relative_time(i64::MAX, i64::MIN, "d"), "d");
}

fn command(name: &str, has_args: bool) -> CommandSummary {
    CommandSummary {
        name: name.to_string(),
        aliases: vec![format!("{name}s")],
        description: "does it".to_string(),
        has_args,
        args_description: Some("<what>".to_string()),
    }
}

#[test]
fn input_line_shows_the_command() {
    let mut state = UiState::new();
    assert_eq!(
        line_to_plain_text(&input::build_input_line(&state)),
        "❯ Type a message..."
    );
    state.autocomplete.all_commands = vec![command("make", true)];
    state.input = "/makes ".to_string();
    state.cursor_char = 7;
    assert_eq!(input::matched_input_command(&state), Some(0));
    assert_eq!(
        line_to_plain_text(&input::build_input_line(&state)),
        "❯ /make <what>"
    );
    assert_eq!(input::input_cursor_column(&state), 2 + 5 + 1);
    state.input = "你好".to_string();
    state.cursor_char = 1;
    assert_eq!(input::input_cursor_column(&state), 4);
}

#[test]
fn waiting_messages_are_shown() {
    let mut state = UiState::new();
    assert_eq!(input::queued_height(&state), 0);
    for i in 0..6 {
        state.queued_user_inputs.push_back(UserDraft {
            text: format!("later {i}"),
            mentions: Vec::new(),
            images: Vec::new(),
        });
    }
    assert_eq!(input::queued_height(&state), 6);
    let drawn = input::render_queued_user_inputs(&state, 4, 40);
    assert_eq!(
        texts(&drawn.lines),
        vec!["  - later 2", "  - later 3", "  - later 4", "  - later 5"]
    );
    assert!(line_to_plain_text(&drawn.title).contains("Queued messages (6)"));
}

#[test]
fn commands_are_offered() {
    let mut state = UiState::new();
    state.autocomplete.all_commands = (0..10).map(|i| command(&format!("cmd{i}"), false)).collect();
    state.input = "/cmd".to_string();
    state.cursor_char = 4;
    state.update_input_autocomplete();
    assert!(state.autocomplete.visible);
    for _ in 0..8 {
        state.autocomplete.select_next();
    }
    let drawn = input::render_autocomplete(&state, Rect { x: 0, y: 30, width: 60, height: 3 }).unwrap();
    assert_eq!(drawn.lines.len(), input::MAX_OFFERED);
    let chosen = state.autocomplete.selected_command().unwrap().name.clone();
    assert!(texts(&drawn.lines).iter().any(|l| l.contains(&chosen)));
}

#[test]
fn home_is_shortened() {
    assert_eq!(status::shorten_home("/home/u/w", "/home/u"), "~/w");
    assert_eq!(status::shorten_home("/srv/w", "/home/u"), "/srv/w");
    let mut state = UiState::new();
    state.status_bar.model = "big".to_string();
    state.status_bar.cwd = "/home/u/w".to_string();
    let footer = line_to_plain_text(&status::render_footer(&state, "/home/u"));
    assert!(footer.contains("big"));
    assert!(footer.contains("~/w"));
}

#[test]
fn editor_cursor_is_in_sight() {
    let text = "one\ntwo\nthree\nfour\nfive";
    let window = editor::editable_text_window(text, text.chars().count(), 20, 2, "type");
    assert_eq!(window.lines, vec!["four".to_string(), "five".to_string()]);
    assert_eq!(window.cursor_line, 1);
    assert_eq!(window.cursor_col, 4);
    let lines = editor::editable_text_lines("abcdef", 4);
    assert_eq!(lines.len(), 2);
    assert_eq!(lines[1].text, "ef");
}

fn manager() -> AgentManagerState {
    AgentManagerState {
        records: Vec::new(),
        view: AgentManagerView::List,
        selected: 0,
        detail_action_selected: 0,
        edit_action_selected: 0,
        create_scope_selected: 0,
        create_method_selected: 0,
        tool_selected: 0,
        model_entries: Vec::new(),
        model_selected: 0,
        draft: AgentEditorDraft {
            source_kind: AgentSourceKind::Project,
            original_path: None,
            name: "helper".to_string(),
            description: "helps".to_string(),
            instructions: "Help.".to_string(),
            generated_description: String::new(),
            tools: Vec::new(),
            disallow_tools: Vec::new(),
            model: None,
            field: AgentEditorField::Name,
            cursor: 6,
        },
        message: None,
    }
}

#[test]
fn agents_panel_is_drawn() {
    let drawn = agents::render_agents_panel(&manager(), area(80, 30));
    assert_eq!(drawn.cursor, None);
    assert!(!drawn.lines.is_empty());
    let mut editing = manager();
    editing.view = AgentManagerView::EditMetadata;
    let drawn = agents::render_agents_panel(&editing, area(80, 30));
    assert!(texts(&drawn.lines).iter().any(|l| l.contains("helper")));
    assert!(drawn.cursor.is_some());
}

#[test]
fn tools_are_named() {
    let tools = vec!["read".to_string(), "bash".to_string()];
    assert_eq!(
        agents::agent_tool_summary_line_count(&tools, &Vec::new()),
        {
            let mut lines: Vec<Line> = Vec::new();
            agents::push_agent_tool_summary(&mut lines, &tools, &Vec::new());
            lines.len()
        }
    );
    assert!(agents::format_tool_names(&tools).contains("read"));
}

fn request() -> ToolPauseRequest {
    ToolPauseRequest {
        tool_use_id: "t1".to_string(),
        tool_name: "bash".to_string(),
        kind: ToolPauseKind::Permission(PermissionPreview::Bash(BashPreview {
            command: "rm -r x".to_string(),
            description: None,
        })),
        source_agent_label: None,
        permission_source: None,
        preview_tool_use_id: None,
    }
}

#[test]
fn permission_is_asked_in_a_drawer() {
    let mut state = UiState::new();
    assert_eq!(
        permission::render_permission_drawer(&mut state, area(80, 40), true, 0),
        None
    );
    state.apply_event(RuntimeToUiEvent::ToolUse(call("bash", &[("command", "rm -r x")])));
    state.apply_event(RuntimeToUiEvent::ToolPauseRequested(request()));
    let drawn = permission::render_permission_drawer(&mut state, area(80, 40), true, 0).unwrap();
    assert!(drawn.area.y + drawn.area.height <= 40);
    assert!(texts(&drawn.lines).iter().any(|l| l.contains("rm -r x")));
    assert_eq!(texts(&drawn.options).len(), 2);
    assert!(!plan_screen(&state).input);
}

#[test]
fn scrollbar_stays_on_the_track() {
    assert_eq!(permission::permission_scrollbar(4, 4, 0), Vec::<bool>::new());
    let bar = permission::permission_scrollbar(5, 50, 45);
    assert_eq!(bar.len(), 5);
    assert!(bar[4]);
    assert!(!bar[0]);
}

#[test]
fn screen_is_planned() {
    let state = UiState::new();
    let plan = plan_screen(&state);
    assert!(plan.input);
    assert!(!plan.sessions);
    assert_eq!(plan.input_height, 3);
}

#[test]
fn spinner_turns() {
    assert_ne!(widgets::spinner(0), widgets::spinner(100));
}
