//! State of the user interface.
pub mod agents;
pub mod atoms;
pub mod autocomplete;
pub mod draft;
pub mod edit;
pub mod event_laws;
pub mod events;
pub mod input_laws;
pub mod interaction;
pub mod laws;
pub mod lines;
pub mod mention;
pub mod paste;
pub mod permission;

use crate::tui::state::autocomplete::CommandAutocomplete;
use crate::tui::state::interaction::InteractionStep;
use crate::tui::state::mention::InputMention;
use crate::tui::state::mention::MentionAutocomplete;
use crate::types::config::ThinkingEffort;
use crate::types::display::DisplayImageAttachment;
use crate::types::display::DisplayMessage;
use crate::types::display::HistoryItem;
use crate::types::display::UserDraft;
use crate::types::events::InteractionRequest;
use crate::types::events::SubagentSnapshot;
use crate::types::events::SubagentStatus;
use crate::types::events::ToolPauseRequest;
use crate::types::message::Message;
use std::collections::VecDeque;
use vstd::prelude::*;

verus! {

pub const PASTE_MARKER_THRESHOLD_CHARS: usize = 512;

pub const PASTE_MARKER_THRESHOLD_NEWLINES: usize = 2;

pub const MAX_INPUT_VISIBLE_LINES: usize = 3;

pub const DEFAULT_INPUT_WRAP_WIDTH: usize = 80;

pub const INPUT_PROMPT_WIDTH: usize = 2;

/// A rectangle of screen cells.
#[derive(Debug, Clone, Copy, PartialEq, Eq, Structural)]
pub struct Rect {
    pub x: u16,
    pub y: u16,
    pub width: u16,
    pub height: u16,
}

/// A long pasted text, shown in the input as a marker.
#[derive(Debug, PartialEq, Eq)]
pub struct InputPasteMarker {
    pub start_char: usize,
    pub end_char: usize,
    pub marker: String,
    pub full_text: String,
    pub full_char_count: usize,
}

/// An image, shown in the input as a marker.
#[derive(Debug, PartialEq, Eq)]
pub struct InputImageAttachment {
    pub start_char: usize,
    pub end_char: usize,
    pub marker: String,
    pub source_path: String,
    pub file_name: String,
}

impl InputImageAttachment {
    pub open spec fn displayed(self) -> DisplayImageAttachment {
        DisplayImageAttachment {
            start_char: self.start_char,
            end_char: self.end_char,
            marker: self.marker,
            source_path: self.source_path,
            file_name: self.file_name,
        }
    }

    pub fn display_attachment(&self) -> (r: DisplayImageAttachment)
        ensures
            r == self.displayed(),
    {
        DisplayImageAttachment {
            start_char: self.start_char,
            end_char: self.end_char,
            marker: self.marker.clone(),
            source_path: self.source_path.clone(),
            file_name: self.file_name.clone(),
        }
    }
}

/// A place in the shown messages.
#[derive(Debug, Clone, Copy, PartialEq, Eq, PartialOrd, Ord, Structural)]
pub struct SelectionPoint {
    pub row: usize,
    pub col: usize,
}

#[derive(Debug, Clone, Copy, PartialEq, Eq, Structural)]
pub struct TextSelection {
    pub start: SelectionPoint,
    pub end: SelectionPoint,
}

#[derive(Debug, Clone, Copy, PartialEq, Eq, Structural)]
pub enum AgentStatus {
    Idle,
    /// The model thinks.
    Thinking,
    /// Tools run or text comes in.
    Working,
    /// A tool waits for the user.
    AwaitingInput,
}

impl AgentStatus {
    /// The status in words.
    pub fn label(&self) -> (r: &'static str)
        ensures
            r@ == (match *self {
                AgentStatus::Idle => "Ready"@,
                AgentStatus::Thinking => "Thinking"@,
                AgentStatus::Working => "Working"@,
                AgentStatus::AwaitingInput => "Waiting for you"@,
            }),
    {
        match self {
            AgentStatus::Idle => "Ready",
            AgentStatus::Thinking => "Thinking",
            AgentStatus::Working => "Working",
            AgentStatus::AwaitingInput => "Waiting for you",
        }
    }
}

/// One entry of the message area.
#[derive(Debug, PartialEq, Eq)]
pub enum UiMessage {
    Message(Message),
    Display(DisplayMessage),
    Notice { text: String },
    Warning { text: String },
    Error { text: String },
}

/// A subagent and its conversation.
#[derive(Debug, PartialEq, Eq)]
pub struct SubagentNode {
    pub session_id: String,
    pub parent_session_id: String,
    pub spawn_tool_use_id: String,
    pub agent_label: String,
    pub status: SubagentStatus,
    pub messages: Vec<Message>,
}

impl SubagentNode {
    pub open spec fn of_snapshot(s: SubagentSnapshot) -> SubagentNode {
        SubagentNode {
            session_id: s.session_id,
            parent_session_id: s.parent_session_id,
            spawn_tool_use_id: s.spawn_tool_use_id,
            agent_label: s.agent_label,
            status: s.status,
            messages: s.messages,
        }
    }

    pub fn from_snapshot(s: SubagentSnapshot) -> (r: SubagentNode)
        ensures
            r == SubagentNode::of_snapshot(s),
    {
        SubagentNode {
            session_id: s.session_id,
            parent_session_id: s.parent_session_id,
            spawn_tool_use_id: s.spawn_tool_use_id,
            agent_label: s.agent_label,
            status: s.status,
            messages: s.messages,
        }
    }
}

impl UiMessage {
    pub open spec fn of_item(item: HistoryItem) -> UiMessage {
        match item {
            HistoryItem::Message(message) => UiMessage::Message(message),
            HistoryItem::Display(display) => UiMessage::Display(display),
        }
    }

    pub fn from_history_item(item: HistoryItem) -> (r: UiMessage)
        ensures
            r == UiMessage::of_item(item),
    {
        match item {
            HistoryItem::Message(message) => UiMessage::Message(message),
            HistoryItem::Display(display) => UiMessage::Display(display),
        }
    }

    /// The entries for a history, in order.
    pub fn from_history_items(items: Vec<HistoryItem>) -> (r: Vec<UiMessage>)
        ensures
            r@ == Seq::new(items@.len(), |i: int| UiMessage::of_item(items@[i])),
    {
        let ghost all = items@;
        let mut rest = items;
        let mut back: Vec<HistoryItem> = Vec::new();
        while rest.len() > 0
            invariant
                rest@.len() + back@.len() == all.len(),
                rest@ == all.take(rest@.len() as int),
                forall|k: int| 0 <= k < back@.len() ==> back@[k] == all[all.len() - 1 - k],
            decreases rest@.len(),
        {
            if let Some(item) = rest.pop() {
                back.push(item);
            }
            assert(rest@ =~= all.take(rest@.len() as int));
        }
        let mut out: Vec<UiMessage> = Vec::new();
        while back.len() > 0
            invariant
                out@.len() + back@.len() == all.len(),
                forall|k: int| 0 <= k < out@.len() ==> out@[k] == UiMessage::of_item(all[k]),
                forall|k: int| 0 <= k < back@.len() ==> back@[k] == all[all.len() - 1 - k],
            decreases back@.len(),
        {
            if let Some(item) = back.pop() {
                out.push(UiMessage::from_history_item(item));
            }
        }
        out
    }

    pub fn as_message(&self) -> (r: Option<&Message>)
        ensures
            match *self {
                UiMessage::Message(m) => r == Some(&m),
                _ => r is None,
            },
    {
        match self {
            UiMessage::Message(message) => Some(message),
            _ => None,
        }
    }

    pub fn as_message_mut(&mut self) -> (r: Option<&mut Message>)
        ensures
            match *old(self) {
                UiMessage::Message(m) => match r {
                    Some(x) => *x == m && *final(self) == UiMessage::Message(*final(x)),
                    None => false,
                },
                _ => r is None && *final(self) == *old(self),
            },
    {
        match self {
            UiMessage::Message(message) => Some(message),
            _ => None,
        }
    }
}

/// What the status bar shows.
#[derive(Debug, PartialEq, Eq)]
pub struct StatusBar {
    pub model: String,
    pub thinking_effort: Option<ThinkingEffort>,
    pub active_provider: String,
    /// The working directory.
    pub cwd: String,
}

/// The whole state of the user interface. Where a collection stands for a map, its entries have
/// distinct keys.
#[derive(Debug)]
pub struct UiState {
    pub messages: Vec<UiMessage>,
    /// The assistant message that is being received.
    pub pending_assistant: Option<Message>,
    pub total_lines: usize,
    pub messages_area: Rect,
    /// The text of each rendered line of the messages.
    pub selectable_message_lines: Vec<String>,
    /// The rendered line at the top of the message area.
    pub message_scroll_y: usize,
    pub text_selection: Option<TextSelection>,
    pub is_selecting_text: bool,
    pub input: String,
    pub input_mentions: Vec<InputMention>,
    pub input_images: Vec<InputImageAttachment>,
    pub input_paste_markers: Vec<InputPasteMarker>,
    pub input_scroll_line: usize,
    pub input_wrap_width: usize,
    /// Inputs that wait for the current run to end.
    pub queued_user_inputs: VecDeque<UserDraft>,
    /// Inputs handed to the engine that enter the history at the end of the turn.
    pub pending_intervention_inputs: VecDeque<UserDraft>,
    /// The cursor, counted in characters.
    pub cursor_char: usize,
    pub agent_status: AgentStatus,
    /// How many lines the messages are scrolled up from the bottom.
    pub scroll_offset: usize,
    /// Whether the messages stay at the bottom when something new comes in.
    pub auto_scroll: bool,
    pub scroll_step: usize,
    /// When the messages were last scrolled, in milliseconds.
    pub last_scroll_time: Option<u64>,
    /// The ids of the tools that have been requested and not answered.
    pub running_tools: Vec<String>,
    /// The tools that wait for the user, by tool use id.
    pub pending_tool_previews: Vec<ToolPauseRequest>,
    /// The subagents, by session id.
    pub subagents: Vec<SubagentNode>,
    /// The session id of the subagent that a tool use spawned.
    pub subagents_by_tool_use: Vec<(String, String)>,
    /// 0 for yes, 1 for no.
    pub permission_selected: usize,
    pub user_input_question_index: usize,
    pub user_input_selected: Vec<usize>,
    pub user_input_answered: Vec<bool>,
    pub user_input_note_mode: bool,
    pub user_input_notes: Vec<String>,
    pub user_input_note_cursors: Vec<usize>,
    pub permission_scroll_offset: usize,
    pub permission_drawer_area: Rect,
    pub permission_drawer_body_area: Rect,
    pub permission_drawer_content_len: usize,
    pub status_bar: StatusBar,
    pub autocomplete: CommandAutocomplete,
    pub mention_autocomplete: MentionAutocomplete,
    pub current_session_title: Option<String>,
    pub current_session_id: Option<String>,
    pub interaction_request: Option<InteractionRequest>,
    pub interaction_step: Option<InteractionStep>,
}

pub open spec fn no_rect() -> Rect {
    Rect { x: 0, y: 0, width: 0, height: 0 }
}

fn empty_rect() -> (r: Rect)
    ensures
        r == no_rect(),
{
    Rect { x: 0, y: 0, width: 0, height: 0 }
}

impl UiState {
    /// An empty state: nothing shown, nothing typed, nothing running.
    pub fn new() -> (r: Self)
        ensures
            r.messages@.len() == 0,
            r.pending_assistant is None,
            r.total_lines == 0,
            r.messages_area == no_rect(),
            r.selectable_message_lines@.len() == 0,
            r.message_scroll_y == 0,
            r.text_selection is None,
            !r.is_selecting_text,
            r.input@.len() == 0,
            r.input_mentions@.len() == 0,
            r.input_images@.len() == 0,
            r.input_paste_markers@.len() == 0,
            r.input_scroll_line == 0,
            r.input_wrap_width == DEFAULT_INPUT_WRAP_WIDTH,
            r.queued_user_inputs@.len() == 0,
            r.pending_intervention_inputs@.len() == 0,
            r.cursor_char == 0,
            r.agent_status == AgentStatus::Idle,
            r.scroll_offset == 0,
            r.auto_scroll,
            r.scroll_step == 1,
            r.last_scroll_time is None,
            r.running_tools@.len() == 0,
            r.pending_tool_previews@.len() == 0,
            r.subagents@.len() == 0,
            r.subagents_by_tool_use@.len() == 0,
            r.permission_selected == 0,
            r.user_input_question_index == 0,
            r.user_input_selected@.len() == 0,
            r.user_input_answered@.len() == 0,
            !r.user_input_note_mode,
            r.user_input_notes@.len() == 0,
            r.user_input_note_cursors@.len() == 0,
            r.permission_scroll_offset == 0,
            r.permission_drawer_area == no_rect(),
            r.permission_drawer_body_area == no_rect(),
            r.permission_drawer_content_len == 0,
            r.status_bar.model@.len() == 0,
            r.status_bar.thinking_effort is None,
            r.status_bar.active_provider@.len() == 0,
            r.status_bar.cwd@.len() == 0,
            !r.autocomplete.visible,
            r.autocomplete.all_commands@.len() == 0,
            !r.mention_autocomplete.visible,
            r.mention_autocomplete.candidates@.len() == 0,
            r.current_session_title is None,
            r.current_session_id is None,
            r.interaction_request is None,
            r.interaction_step is None,
            r.input_ok(),
    {
        UiState {
            messages: Vec::new(),
            pending_assistant: None,
            total_lines: 0,
            messages_area: empty_rect(),
            selectable_message_lines: Vec::new(),
            message_scroll_y: 0,
            text_selection: None,
            is_selecting_text: false,
            input: String::new(),
            input_mentions: Vec::new(),
            input_images: Vec::new(),
            input_paste_markers: Vec::new(),
            input_scroll_line: 0,
            input_wrap_width: DEFAULT_INPUT_WRAP_WIDTH,
            queued_user_inputs: VecDeque::new(),
            pending_intervention_inputs: VecDeque::new(),
            cursor_char: 0,
            agent_status: AgentStatus::Idle,
            scroll_offset: 0,
            auto_scroll: true,
            scroll_step: 1,
            last_scroll_time: None,
            running_tools: Vec::new(),
            pending_tool_previews: Vec::new(),
            subagents: Vec::new(),
            subagents_by_tool_use: Vec::new(),
            permission_selected: 0,
            user_input_question_index: 0,
            user_input_selected: Vec::new(),
            user_input_answered: Vec::new(),
            user_input_note_mode: false,
            user_input_notes: Vec::new(),
            user_input_note_cursors: Vec::new(),
            permission_scroll_offset: 0,
            permission_drawer_area: empty_rect(),
            permission_drawer_body_area: empty_rect(),
            permission_drawer_content_len: 0,
            status_bar: StatusBar {
                model: String::new(),
                thinking_effort: None,
                active_provider: String::new(),
                cwd: String::new(),
            },
            autocomplete: CommandAutocomplete::new(),
            mention_autocomplete: MentionAutocomplete::new(),
            current_session_title: None,
            current_session_id: None,
            interaction_request: None,
            interaction_step: None,
        }
    }

    /// Whether a run is under way.
    pub fn is_run_active(&self) -> (r: bool)
        ensures
            r == (self.agent_status != AgentStatus::Idle),
    {
        self.agent_status != AgentStatus::Idle
    }

    /// Sets the scroll step by how quickly scrolling goes on; `now` is in milliseconds.
    pub fn update_scroll_step(&mut self, now: u64)
        requires
            old(self).scroll_step < usize::MAX,
        ensures
            *final(self) == (UiState {
                scroll_step: scroll_step_after(
                    old(self).scroll_step,
                    match old(self).last_scroll_time {
                        Some(last) => Some(crate::text::minus(now as int, last as int)),
                        None => None,
                    },
                ),
                last_scroll_time: Some(now),
                ..*old(self)
            }),
    {
        match self.last_scroll_time {
            Some(last) => {
                let ms: u64 = now.saturating_sub(last);
                if ms > 800 {
                    self.scroll_step = 1;
                } else if ms < 80 {
                    self.scroll_step = crate::text::min_usize(self.scroll_step + 1, 10);
                } else if ms > 250 {
                    self.scroll_step = crate::text::max_usize(self.scroll_step / 2, 1);
                }
            },
            None => {
                self.scroll_step = 1;
            },
        }
        self.last_scroll_time = Some(now);
    }

    pub fn scroll_up(&mut self, lines: usize)
        ensures
            *final(self) == (UiState {
                scroll_offset: crate::text::min_int(
                    old(self).scroll_offset + lines,
                    usize::MAX as int,
                ) as usize,
                auto_scroll: false,
                ..*old(self)
            }),
    {
        self.scroll_offset = self.scroll_offset.saturating_add(lines);
        self.auto_scroll = false;
    }

    pub fn scroll_down(&mut self, lines: usize)
        ensures
            *final(self) == (UiState {
                scroll_offset: crate::text::minus(old(self).scroll_offset as int, lines as int) as usize,
                auto_scroll: old(self).auto_scroll || old(self).scroll_offset <= lines,
                ..*old(self)
            }),
    {
        self.scroll_offset = self.scroll_offset.saturating_sub(lines);
        if self.scroll_offset == 0 {
            self.auto_scroll = true;
        }
    }

    pub fn scroll_to_top(&mut self)
        ensures
            *final(self) == (UiState {
                scroll_offset: usize::MAX,
                auto_scroll: false,
                ..*old(self)
            }),
    {
        self.scroll_offset = usize::MAX;
        self.auto_scroll = false;
    }

    pub fn scroll_to_bottom(&mut self)
        ensures
            *final(self) == (UiState { scroll_offset: 0, auto_scroll: true, ..*old(self) }),
    {
        self.scroll_offset = 0;
        self.auto_scroll = true;
    }
}

/// The scroll step when `elapsed` milliseconds have passed since the last scroll: back to one
/// after a pause or at first, one more (up to ten) in quick succession, half when slower.
pub open spec fn scroll_step_after(step: usize, elapsed: Option<int>) -> usize {
    match elapsed {
        None => 1,
        Some(ms) => if ms > 800 {
            1
        } else if ms < 80 {
            crate::text::min_int(step + 1, 10) as usize
        } else if ms > 250 {
            crate::text::max_int(step as int / 2, 1) as usize
        } else {
            step
        },
    }
}

} // verus!
