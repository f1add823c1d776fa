//! Keys on the pages for choices, and what the user's answers become.
use crate::json;
use crate::json::Json;
use crate::json::JsonView;
use crate::text;
use crate::tui::state::draft;
use crate::tui::state::events;
use crate::tui::state::interaction;
use crate::tui::state::interaction::InteractionStep;
use crate::tui::state::interaction::ModelSelectionEntry;
use crate::tui::state::permission;
use crate::tui::state::AgentStatus;
use crate::tui::state::UiMessage;
use crate::tui::state::UiState;
use crate::types::config::ThinkingEffort;
use crate::types::display::DisplayImageAttachment;
use crate::types::display::DisplayMention;
use crate::types::display::UserDraft;
use crate::types::events::SessionSummary;
use crate::types::events::ToolPauseKind;
use crate::types::events::ToolPauseRequest;
use crate::types::events::ToolPauseResponse;
use crate::types::events::UiToRuntimeEvent;
use crate::types::events::UserInputQuestion;
use crate::types::message::Message;
use crate::types::message::Role;
use vstd::prelude::*;

verus! {

/// A key of the keyboard.
#[derive(Debug, Clone, Copy, PartialEq, Eq, Structural)]
pub enum KeyCode {
    Char(char),
    Enter,
    Tab,
    Esc,
    Backspace,
    Delete,
    Up,
    Down,
    Left,
    Right,
    Home,
    End,
    PageUp,
    PageDown,
    Other,
}

/// The keys held down with another one.
#[derive(Debug, Clone, Copy, PartialEq, Eq, Structural)]
pub struct KeyModifiers {
    pub shift: bool,
    pub control: bool,
    pub alt: bool,
    /// Any other modifier.
    pub other: bool,
}

impl KeyModifiers {
    /// Control and nothing else.
    pub open spec fn only_control(self) -> bool {
        self.control && !self.shift && !self.alt && !self.other
    }

    pub fn is_control(&self) -> (r: bool)
        ensures
            r == self.only_control(),
    {
        self.control && !self.shift && !self.alt && !self.other
    }
}

/// Alt and Enter send what waits to the run that is under way.
pub open spec fn intervention_key(code: KeyCode, modifiers: KeyModifiers) -> bool {
    modifiers.alt && code == KeyCode::Enter
}

pub fn is_intervention_key(code: KeyCode, modifiers: KeyModifiers) -> (r: bool)
    ensures
        r == intervention_key(code, modifiers),
{
    modifiers.alt && code == KeyCode::Enter
}

/// Shift and Enter break the line.
pub open spec fn newline_key(code: KeyCode, modifiers: KeyModifiers) -> bool {
    modifiers.shift && code == KeyCode::Enter
}

pub fn is_newline_key(code: KeyCode, modifiers: KeyModifiers) -> (r: bool)
    ensures
        r == newline_key(code, modifiers),
{
    modifiers.shift && code == KeyCode::Enter
}

/// The first entry at or above `i` that is no heading, or the topmost entry.
pub open spec fn skip_up(entries: Seq<ModelSelectionEntry>, i: int) -> int
    decreases i,
{
    if i <= 0 || !(entries[i] is ProviderHeader) {
        i
    } else {
        skip_up(entries, i - 1)
    }
}

/// The first entry at or below `i` that is no heading, or the lowest entry.
pub open spec fn skip_down(entries: Seq<ModelSelectionEntry>, i: int) -> int
    decreases entries.len() - i,
{
    if i >= entries.len() - 1 || !(entries[i] is ProviderHeader) {
        i
    } else {
        skip_down(entries, i + 1)
    }
}

/// The selection after a step up: it passes over headings and stays where only headings follow.
pub open spec fn selected_up(entries: Seq<ModelSelectionEntry>, selected: int) -> int {
    let n = skip_up(entries, text::minus(selected, 1));
    if entries[n] is ProviderHeader {
        selected
    } else {
        n
    }
}

/// The selection after a step down.
pub open spec fn selected_down(entries: Seq<ModelSelectionEntry>, selected: int) -> int {
    let n = skip_down(entries, text::min_int(selected + 1, entries.len() - 1));
    if entries[n] is ProviderHeader {
        selected
    } else {
        n
    }
}

fn is_header(e: &ModelSelectionEntry) -> (r: bool)
    ensures
        r == (*e is ProviderHeader),
{
    match e {
        ModelSelectionEntry::ProviderHeader { .. } => true,
        _ => false,
    }
}

fn step_up(entries: &Vec<ModelSelectionEntry>, selected: usize) -> (r: usize)
    requires
        selected < entries@.len(),
    ensures
        r == selected_up(entries@, selected as int),
        r < entries@.len(),
{
    let mut new: usize = selected.saturating_sub(1);
    let ghost first = new as int;
    while new > 0 && is_header(&entries[new])
        invariant
            new < entries@.len(),
            skip_up(entries@, first) == skip_up(entries@, new as int),
        decreases new,
    {
        new = new - 1;
    }
    if is_header(&entries[new]) {
        selected
    } else {
        new
    }
}

fn step_down(entries: &Vec<ModelSelectionEntry>, selected: usize) -> (r: usize)
    requires
        selected < entries@.len(),
    ensures
        r == selected_down(entries@, selected as int),
        r < entries@.len(),
{
    let max: usize = entries.len() - 1;
    let mut new: usize = if selected < max {
        selected + 1
    } else {
        max
    };
    let ghost first = new as int;
    while new < max && is_header(&entries[new])
        invariant
            max == entries@.len() - 1,
            new <= max,
            skip_down(entries@, first) == skip_down(entries@, new as int),
        decreases max - new,
    {
        new = new + 1;
    }
    if is_header(&entries[new]) {
        selected
    } else {
        new
    }
}

/// Whether the selected entry is a model that thinks.
pub open spec fn thinks(entries: Seq<ModelSelectionEntry>, selected: int) -> bool {
    entries[selected] matches ModelSelectionEntry::Model { model, .. } && model.thinking
}

fn selected_thinks(entries: &Vec<ModelSelectionEntry>, selected: usize) -> (r: bool)
    requires
        selected < entries@.len(),
    ensures
        r == thinks(entries@, selected as int),
{
    match &entries[selected] {
        ModelSelectionEntry::Model { model, .. } => model.thinking,
        _ => false,
    }
}

/// The effort that a position of the slider stands for.
pub open spec fn effort_at(idx: usize) -> Option<ThinkingEffort> {
    if idx == 1 {
        Some(ThinkingEffort::Low)
    } else if idx == 2 {
        Some(ThinkingEffort::Medium)
    } else if idx == 3 {
        Some(ThinkingEffort::High)
    } else {
        None
    }
}

/// The sessions among the first `n` whose titles hold what is searched for, in lower case.
pub open spec fn matching(sessions: Seq<SessionSummary>, search: Seq<char>, n: int) -> Seq<
    SessionSummary,
>
    decreases n,
{
    if n <= 0 {
        Seq::empty()
    } else {
        let done = matching(sessions, search, n - 1);
        if text::occurs(text::lowercase(sessions[n - 1].title@), search) {
            done.push(sessions[n - 1])
        } else {
            done
        }
    }
}

/// The sessions whose titles hold `search`, whatever the case.
pub fn matching_sessions(all: &Vec<SessionSummary>, search: &str) -> (r: Vec<SessionSummary>)
    ensures
        r@ == matching(all@, text::lowercase(search@), all@.len() as int),
{
    let lower = text::to_lowercase(search);
    let mut out: Vec<SessionSummary> = Vec::new();
    let mut i: usize = 0;
    while i < all.len()
        invariant
            i <= all@.len(),
            lower@ == text::lowercase(search@),
            out@ == matching(all@, lower@, i as int),
        decreases all@.len() - i,
    {
        let title = text::to_lowercase(all[i].title.as_str());
        if text::contains(title.as_str(), lower.as_str()) {
            out.push(all[i].clone());
        }
        i = i + 1;
    }
    out
}

/// What stands on the page is what is selected on it.
pub open spec fn step_ok(step: InteractionStep) -> bool {
    match step {
        InteractionStep::ModelSelection { entries, selected, thinking_idx, .. } => (
        entries@.len() == 0 || selected < entries@.len()) && thinking_idx <= 3,
        InteractionStep::Session { sessions, selected, .. } => sessions@.len() == 0 || selected
            < sessions@.len(),
    }
}

/// Whether a key is about the selected model.
pub open spec fn needs_model(key: KeyCode) -> bool {
    match key {
        KeyCode::Up | KeyCode::Down | KeyCode::Left | KeyCode::Right | KeyCode::Enter => true,
        KeyCode::Char(c) => c == 'k' || c == 'j' || c == 'h' || c == 'l',
        _ => false,
    }
}

/// Whether a page has what a key is about: without models there is none to move to or to choose.
pub open spec fn key_ok(step: InteractionStep, key: KeyCode) -> bool {
    match step {
        InteractionStep::ModelSelection { entries, .. } => entries@.len() > 0 || !needs_model(key),
        InteractionStep::Session { .. } => true,
    }
}

/// What a key does on the page for models: `stays` says whether the page stays open.
pub open spec fn model_key(
    pre: InteractionStep,
    key: KeyCode,
    post: InteractionStep,
    stays: bool,
    request: Option<UiToRuntimeEvent>,
) -> bool {
    match pre {
        InteractionStep::ModelSelection {
            entries,
            selected,
            thinking_idx,
            active_provider,
            active_model,
        } => {
            let moved = |to: int|
                InteractionStep::ModelSelection {
                    entries,
                    selected: to as usize,
                    thinking_idx,
                    active_provider,
                    active_model,
                };
            let thinking = |to: int|
                InteractionStep::ModelSelection {
                    entries,
                    selected,
                    thinking_idx: to as usize,
                    active_provider,
                    active_model,
                };
            &&& stays == (key != KeyCode::Esc)
            &&& post == (match key {
                KeyCode::Up | KeyCode::Char('k') => moved(selected_up(entries@, selected as int)),
                KeyCode::Down | KeyCode::Char('j') => moved(
                    selected_down(entries@, selected as int),
                ),
                KeyCode::Left | KeyCode::Char('h') => if thinks(entries@, selected as int) {
                    thinking(text::minus(thinking_idx as int, 1))
                } else {
                    pre
                },
                KeyCode::Right | KeyCode::Char('l') => if thinks(entries@, selected as int) {
                    thinking(text::min_int(thinking_idx + 1, 3))
                } else {
                    pre
                },
                _ => pre,
            })
            &&& request == (match (key, entries@[selected as int]) {
                (KeyCode::Enter, ModelSelectionEntry::Model { provider_key, model }) => Some(
                    UiToRuntimeEvent::ModelSelected {
                        provider: provider_key,
                        model: model.id,
                        thinking_effort: effort_at(thinking_idx),
                    },
                ),
                _ => None,
            })
        },
        _ => true,
    }
}

/// What a key does on the page for sessions.
pub open spec fn session_key(
    pre: InteractionStep,
    key: KeyCode,
    post: InteractionStep,
    stays: bool,
    request: Option<UiToRuntimeEvent>,
) -> bool {
    match pre {
        InteractionStep::Session { sessions, all_sessions, search, selected } => {
            &&& stays == (key != KeyCode::Esc)
            &&& request == (if key == KeyCode::Enter && sessions@.len() > 0 {
                Some(
                    UiToRuntimeEvent::SessionSelected {
                        session_id: sessions@[selected as int].id,
                    },
                )
            } else {
                None
            })
            &&& match key {
                KeyCode::Up => post == (InteractionStep::Session {
                    sessions,
                    all_sessions,
                    search,
                    selected: text::minus(selected as int, 1) as usize,
                }),
                KeyCode::Down => post == (InteractionStep::Session {
                    sessions,
                    all_sessions,
                    search,
                    selected: text::min_int(
                        selected + 1,
                        text::minus(sessions@.len() as int, 1),
                    ) as usize,
                }),
                KeyCode::Char(c) => searched(pre, search@.push(c), post) && shows(
                    post,
                    matching(
                        all_sessions@,
                        text::lowercase(search@.push(c)),
                        all_sessions@.len() as int,
                    ),
                ),
                KeyCode::Backspace => {
                    let less = if search@.len() == 0 {
                        search@
                    } else {
                        search@.drop_last()
                    };
                    searched(pre, less, post) && shows(
                        post,
                        if text::lowercase(less).len() == 0 {
                            all_sessions@
                        } else {
                            matching(
                                all_sessions@,
                                text::lowercase(less),
                                all_sessions@.len() as int,
                            )
                        },
                    )
                },
                _ => post == pre,
            }
        },
        _ => true,
    }
}

/// The page with another text searched for and the first session selected.
pub open spec fn searched(pre: InteractionStep, search: Seq<char>, post: InteractionStep) -> bool {
    &&& post is Session
    &&& pre is Session
    &&& post->Session_search@ == search
    &&& post->Session_selected == 0
    &&& post->all_sessions == pre->all_sessions
}

pub open spec fn shows(step: InteractionStep, sessions: Seq<SessionSummary>) -> bool {
    step is Session && step->sessions@ == sessions
}

/// What a key does on a page for a choice.
pub open spec fn choice_key(
    pre: InteractionStep,
    key: KeyCode,
    post: InteractionStep,
    stays: bool,
    request: Option<UiToRuntimeEvent>,
) -> bool {
    match pre {
        InteractionStep::ModelSelection { .. } => model_key(pre, key, post, stays, request),
        InteractionStep::Session { .. } => session_key(pre, key, post, stays, request),
    }
}

/// Takes a key on a page for a choice. Says what the page becomes, whether it stays open, and
/// what is asked of the runtime.
pub fn handle_interaction_key(step: InteractionStep, key: KeyCode) -> (r: (
    InteractionStep,
    bool,
    Option<UiToRuntimeEvent>,
))
    requires
        step_ok(step),
        key_ok(step, key),
    ensures
        choice_key(step, key, r.0, r.1, r.2),
        step_ok(r.0),
{
    match step {
        InteractionStep::ModelSelection {
            entries,
            selected,
            thinking_idx,
            active_provider,
            active_model,
        } => on_model_key(entries, selected, thinking_idx, active_provider, active_model, key),
        InteractionStep::Session { sessions, all_sessions, search, selected } => on_session_key(
            sessions,
            all_sessions,
            search,
            selected,
            key,
        ),
    }
}

fn on_model_key(
    entries: Vec<ModelSelectionEntry>,
    selected: usize,
    thinking_idx: usize,
    active_provider: String,
    active_model: String,
    key: KeyCode,
) -> (r: (InteractionStep, bool, Option<UiToRuntimeEvent>))
    requires
        selected < entries@.len() || (entries@.len() == 0 && !needs_model(key)),
        thinking_idx <= 3,
    ensures
        ({
            let pre = InteractionStep::ModelSelection {
                entries,
                selected,
                thinking_idx,
                active_provider,
                active_model,
            };
            model_key(pre, key, r.0, r.1, r.2)
        }),
        r.0 is ModelSelection,
        step_ok(r.0),
{
    let mut selected: usize = selected;
    let mut thinking_idx: usize = thinking_idx;
    let mut stays = true;
    let mut request: Option<UiToRuntimeEvent> = None;
    match key {
        KeyCode::Up | KeyCode::Char('k') => {
            selected = step_up(&entries, selected);
        },
        KeyCode::Down | KeyCode::Char('j') => {
            selected = step_down(&entries, selected);
        },
        KeyCode::Left | KeyCode::Char('h') => {
            if selected_thinks(&entries, selected) {
                thinking_idx = thinking_idx.saturating_sub(1);
            }
        },
        KeyCode::Right | KeyCode::Char('l') => {
            if selected_thinks(&entries, selected) {
                thinking_idx = if thinking_idx < 3 {
                    thinking_idx + 1
                } else {
                    3
                };
            }
        },
        KeyCode::Enter => {
            match &entries[selected] {
                ModelSelectionEntry::Model { provider_key, model } => {
                    let thinking_effort = if thinking_idx == 1 {
                        Some(ThinkingEffort::Low)
                    } else if thinking_idx == 2 {
                        Some(ThinkingEffort::Medium)
                    } else if thinking_idx == 3 {
                        Some(ThinkingEffort::High)
                    } else {
                        None
                    };
                    request = Some(
                        UiToRuntimeEvent::ModelSelected {
                            provider: provider_key.clone(),
                            model: model.id.clone(),
                            thinking_effort,
                        },
                    );
                },
                _ => {},
            }
        },
        KeyCode::Esc => {
            stays = false;
        },
        _ => {},
    }
    (
        InteractionStep::ModelSelection {
            entries,
            selected,
            thinking_idx,
            active_provider,
            active_model,
        },
        stays,
        request,
    )
}

fn on_session_key(
    sessions: Vec<SessionSummary>,
    all_sessions: Vec<SessionSummary>,
    search: String,
    selected: usize,
    key: KeyCode,
) -> (r: (InteractionStep, bool, Option<UiToRuntimeEvent>))
    requires
        sessions@.len() == 0 || selected < sessions@.len(),
    ensures
        session_key(
            InteractionStep::Session { sessions, all_sessions, search, selected },
            key,
            r.0,
            r.1,
            r.2,
        ),
        r.0 is Session,
        step_ok(r.0),
{
    let mut stays = true;
    let mut request: Option<UiToRuntimeEvent> = None;
    let mut at: usize = selected;
    match key {
        KeyCode::Up => {
            at = at.saturating_sub(1);
        },
        KeyCode::Down => {
            let max: usize = sessions.len().saturating_sub(1);
            at = if at < max {
                at + 1
            } else {
                max
            };
        },
        KeyCode::Enter => {
            if sessions.len() > 0 {
                request = Some(
                    UiToRuntimeEvent::SessionSelected { session_id: sessions[at].id.clone() },
                );
            }
        },
        KeyCode::Char(c) => {
            let mut search = search;
            search.push(c);
            let shown = matching_sessions(&all_sessions, search.as_str());
            return (
                InteractionStep::Session { sessions: shown, all_sessions, search, selected: 0 },
                true,
                None,
            );
        },
        KeyCode::Backspace => {
            let chars = text::chars_of(search.as_str());
            let n: usize = chars.len();
            let less = if n == 0 {
                String::new()
            } else {
                text::string_of(&chars, 0, n - 1)
            };
            proof {
                if n > 0 {
                    assert(less@ =~= search@.drop_last());
                } else {
                    assert(less@ =~= search@);
                }
            }
            let lower = text::to_lowercase(less.as_str());
            let shown = if text::char_count(lower.as_str()) == 0 {
                interaction::copy_sessions(&all_sessions)
            } else {
                matching_sessions(&all_sessions, less.as_str())
            };
            return (
                InteractionStep::Session {
                    sessions: shown,
                    all_sessions,
                    search: less,
                    selected: 0,
                },
                true,
                None,
            );
        },
        KeyCode::Esc => {
            stays = false;
        },
        _ => {},
    }
    (InteractionStep::Session { sessions, all_sessions, search, selected: at }, stays, request)
}

/// The option chosen for a question: the one selected, or none of them where the selection is
/// behind the last.
pub open spec fn chosen_label(q: UserInputQuestion, selected: int) -> Seq<char> {
    if selected >= q.options@.len() {
        "None of the above"@
    } else {
        q.options@[selected].label@
    }
}

/// The answer to the question at `idx`.
pub open spec fn answer_view(s: UiState, q: UserInputQuestion, idx: int) -> JsonView {
    let selected = if idx < s.user_input_selected@.len() {
        s.user_input_selected@[idx] as int
    } else {
        0
    };
    let note = if idx < s.user_input_notes@.len() {
        text::trimmed(s.user_input_notes@[idx]@)
    } else {
        Seq::empty()
    };
    JsonView::Object(
        seq![
            ("label"@, JsonView::Str(chosen_label(q, selected))),
            (
                "note"@,
                if note.len() == 0 {
                    JsonView::Null
                } else {
                    JsonView::Str(note)
                },
            ),
        ],
    )
}

/// The answers to the questions, by their ids.
pub open spec fn answers_view(s: UiState, questions: Seq<UserInputQuestion>) -> JsonView {
    JsonView::Object(
        seq![
            (
                "answers"@,
                JsonView::Object(
                    Seq::new(
                        questions.len(),
                        |i: int| (questions[i].id@, answer_view(s, questions[i], i)),
                    ),
                ),
            ),
        ],
    )
}

/// The response to a tool that waits, by what the user chose.
pub open spec fn responds(s: UiState, req: ToolPauseRequest, r: ToolPauseResponse) -> bool {
    match req.kind {
        ToolPauseKind::Permission(_) => r == (ToolPauseResponse::Permission {
            approved: s.permission_selected == 0,
        }),
        ToolPauseKind::UserInput(preview) => r matches ToolPauseResponse::UserInput { value }
            && value@ == answers_view(s, preview.questions@),
    }
}

fn answer_json(s: &UiState, q: &UserInputQuestion, idx: usize) -> (r: Json)
    ensures
        r@ == answer_view(*s, *q, idx as int),
{
    let selected: usize = if idx < s.user_input_selected.len() {
        s.user_input_selected[idx]
    } else {
        0
    };
    let mut e: Vec<(String, Json)> = Vec::new();
    proof {
        json::lemma_empty_views();
    }
    if selected >= q.options.len() {
        json::put(&mut e, "label", json::str_value("None of the above"));
    } else {
        json::put(&mut e, "label", json::str_value(q.options[selected].label.as_str()));
    }
    let note = if idx < s.user_input_notes.len() {
        text::trim(s.user_input_notes[idx].as_str())
    } else {
        String::new()
    };
    if text::char_count(note.as_str()) == 0 {
        json::put(&mut e, "note", Json::Null);
    } else {
        json::put(&mut e, "note", json::str_value(note.as_str()));
    }
    assert(json::entries_view(e@) =~= answer_view(*s, *q, idx as int)->Object_0);
    json::object(e)
}

/// The user's response to the tool that waits.
pub fn pause_response(s: &UiState, req: &ToolPauseRequest) -> (r: ToolPauseResponse)
    ensures
        responds(*s, *req, r),
{
    match &req.kind {
        ToolPauseKind::Permission(_) => ToolPauseResponse::Permission {
            approved: s.permission_selected == 0,
        },
        ToolPauseKind::UserInput(preview) => {
            let mut answers: Vec<(String, Json)> = Vec::new();
            let mut i: usize = 0;
            while i < preview.questions.len()
                invariant
                    i <= preview.questions@.len(),
                    answers@.len() == i,
                    forall|k: int|
                        0 <= k < i ==> (#[trigger] answers@[k]).0@ == preview.questions@[k].id@
                            && answers@[k].1@ == answer_view(*s, preview.questions@[k], k),
                decreases preview.questions@.len() - i,
            {
                let value = answer_json(s, &preview.questions[i], i);
                answers.push((preview.questions[i].id.clone(), value));
                i = i + 1;
            }
            let ghost wanted = answers_view(*s, preview.questions@);
            assert(json::entries_view(answers@) =~= wanted->Object_0[0].1->Object_0);
            let mut e: Vec<(String, Json)> = Vec::new();
            proof {
                json::lemma_empty_views();
            }
            json::put(&mut e, "answers", json::object(answers));
            assert(json::entries_view(e@) =~= wanted->Object_0);
            ToolPauseResponse::UserInput { value: json::object(e) }
        },
    }
}

/// The tool that waits has its answer: it waits no longer, and the drawer is put back where no
/// other tool waits.
pub open spec fn pause_resolved(
    pre: UiState,
    request: Option<UiToRuntimeEvent>,
    post: UiState,
) -> bool {
    match pre.active_pause() {
        None => request is None && post == pre,
        Some(req) => {
            &&& request matches Some(UiToRuntimeEvent::ResolveToolPause { tool_use_id, response })
                && tool_use_id == req.tool_use_id && responds(pre, req, response)
            &&& exists|mid: UiState|
                {
                    &&& #[trigger] events::pause_dropped(pre, req.tool_use_id@, mid)
                    &&& if mid.pending_tool_previews@.len() == 0 {
                        permission::drawer_reset(mid, post)
                    } else {
                        post == mid
                    }
                }
        },
    }
}

/// Answers the tool that waits with what the user chose.
pub fn resolve_active_tool_pause(state: &mut UiState) -> (r: Option<UiToRuntimeEvent>)
    ensures
        pause_resolved(*old(state), r, *final(state)),
{
    let ghost pre = *state;
    let (id, response) = match state.active_tool_pause() {
        None => {
            return None;
        },
        Some(req) => (req.tool_use_id.clone(), pause_response(state, req)),
    };
    state.drop_pause(id.as_str());
    let ghost mid = *state;
    if state.pending_tool_previews.len() == 0 {
        state.reset_permission_drawer();
    }
    assert(events::pause_dropped(pre, id@, mid));
    Some(UiToRuntimeEvent::ResolveToolPause { tool_use_id: id, response })
}

/// Whether two drafts say the same.
pub open spec fn same_draft(a: UserDraft, b: UserDraft) -> bool {
    &&& a.text == b.text
    &&& a.mentions@ == b.mentions@
    &&& a.images@ == b.images@
}

fn copy_draft(d: &UserDraft) -> (r: UserDraft)
    ensures
        same_draft(r, *d),
{
    let mut mentions: Vec<DisplayMention> = Vec::new();
    let mut i: usize = 0;
    while i < d.mentions.len()
        invariant
            i <= d.mentions@.len(),
            mentions@ == d.mentions@.take(i as int),
        decreases d.mentions@.len() - i,
    {
        mentions.push(d.mentions[i].moved(0));
        assert(mentions@ =~= d.mentions@.take(i + 1));
        i = i + 1;
    }
    let mut images: Vec<DisplayImageAttachment> = Vec::new();
    let mut j: usize = 0;
    while j < d.images.len()
        invariant
            j <= d.images@.len(),
            images@ == d.images@.take(j as int),
        decreases d.images@.len() - j,
    {
        images.push(d.images[j].moved(0));
        assert(images@ =~= d.images@.take(j + 1));
        j = j + 1;
    }
    assert(d.mentions@.take(d.mentions@.len() as int) =~= d.mentions@);
    assert(d.images@.take(d.images@.len() as int) =~= d.images@);
    UserDraft { text: d.text.clone(), mentions, images }
}

/// What is shown of a draft that was sent.
pub open spec fn shown_draft(d: UserDraft, m: UiMessage) -> bool {
    if d.mentions@.len() == 0 && d.images@.len() == 0 {
        m matches UiMessage::Message(x) && x@ == Message::user_text(d.text@)
    } else {
        m matches UiMessage::Display(x) && x.role == Role::User && x.text == d.text && x.mentions@
            == d.mentions@ && x.images@ == d.images@
    }
}

/// A draft was sent: it is shown, the messages are at the bottom, and a run begins.
pub open spec fn draft_sent(pre: UiState, d: UserDraft, post: UiState) -> bool {
    &&& post == (UiState {
        messages: post.messages,
        scroll_offset: 0,
        auto_scroll: true,
        agent_status: AgentStatus::Working,
        ..pre
    })
    &&& post.messages@.len() == pre.messages@.len() + 1
    &&& post.messages@.take(pre.messages@.len() as int) == pre.messages@
    &&& shown_draft(d, post.messages@.last())
}

/// Shows a draft and has it sent.
pub fn send_draft(state: &mut UiState, draft: UserDraft) -> (r: UiToRuntimeEvent)
    ensures
        draft_sent(*old(state), draft, *final(state)),
        r == UiToRuntimeEvent::SendMessage(draft),
{
    let ghost before = state.messages@;
    let copy = copy_draft(&draft);
    let shown = UiMessage::from_history_item(copy.history_item());
    state.messages.push(shown);
    assert(state.messages@.take(before.len() as int) =~= before);
    state.scroll_offset = 0;
    state.auto_scroll = true;
    state.agent_status = AgentStatus::Working;
    UiToRuntimeEvent::SendMessage(draft)
}

/// The inputs that waited for the run to end were sent as one.
pub open spec fn queue_flushed(
    pre: UiState,
    request: Option<UiToRuntimeEvent>,
    post: UiState,
) -> bool {
    if pre.queued_user_inputs@.len() == 0 {
        request is None && post == pre
    } else {
        &&& request matches Some(UiToRuntimeEvent::SendMessage(d)) && draft::combined(
            pre.queued_user_inputs@,
            d,
        ) && exists|mid: UiState|
            #[trigger] draft::queue_taken(pre, Some(d), mid) && draft_sent(mid, d, post)
    }
}

/// Sends the inputs that waited for the run to end.
pub fn flush_queued_user_inputs(state: &mut UiState) -> (r: Option<UiToRuntimeEvent>)
    requires
        draft::drafts_fit(old(state).queued_user_inputs@),
    ensures
        queue_flushed(*old(state), r, *final(state)),
{
    let ghost pre = *state;
    match state.take_queued_user_draft() {
        None => None,
        Some(d) => {
            let ghost mid = *state;
            let r = send_draft(state, d);
            assert(draft::queue_taken(pre, Some(d), mid));
            Some(r)
        },
    }
}

/// The inputs that wait were handed to the run under way, where there is one and none were
/// handed to it before.
pub open spec fn intervened(
    pre: UiState,
    request: Option<UiToRuntimeEvent>,
    post: UiState,
) -> bool {
    if pre.agent_status == AgentStatus::Idle || pre.pending_intervention_inputs@.len() > 0 {
        request is None && post == pre
    } else {
        match request {
            None => draft::intervention_taken(pre, None, post),
            Some(UiToRuntimeEvent::InterveneMessage(d)) => draft::intervention_taken(
                pre,
                Some(d),
                post,
            ),
            Some(_) => false,
        }
    }
}

/// Hands the inputs that wait to the run under way.
pub fn submit_queued_intervention(state: &mut UiState) -> (r: Option<UiToRuntimeEvent>)
    requires
        draft::drafts_fit(old(state).queued_user_inputs@),
    ensures
        intervened(*old(state), r, *final(state)),
{
    if !state.is_run_active() || state.pending_intervention_inputs.len() > 0 {
        return None;
    }
    match state.take_queued_user_draft_for_intervention() {
        None => None,
        Some(d) => Some(UiToRuntimeEvent::InterveneMessage(d)),
    }
}

/// A model is asked for only with one of its own efforts, and only where one is selected.
pub proof fn law_only_models_are_chosen(
    pre: InteractionStep,
    key: KeyCode,
    post: InteractionStep,
    stays: bool,
    request: Option<UiToRuntimeEvent>,
)
    requires
        pre is ModelSelection,
        step_ok(pre),
        choice_key(pre, key, post, stays, request),
        request is Some,
    ensures
        key == KeyCode::Enter,
        stays,
        post == pre,
        pre->entries@[pre->ModelSelection_selected as int] is Model,
{
}

pub proof fn lemma_skips(entries: Seq<ModelSelectionEntry>, i: int)
    requires
        0 <= i < entries.len(),
    ensures
        0 <= skip_up(entries, i) <= i,
        i <= skip_down(entries, i) < entries.len(),
{
    lemma_skip_up(entries, i);
    lemma_skip_down(entries, i);
}

proof fn lemma_skip_up(entries: Seq<ModelSelectionEntry>, i: int)
    requires
        0 <= i < entries.len(),
    ensures
        0 <= skip_up(entries, i) <= i,
    decreases i,
{
    if i > 0 && entries[i] is ProviderHeader {
        lemma_skip_up(entries, i - 1);
    }
}

proof fn lemma_skip_down(entries: Seq<ModelSelectionEntry>, i: int)
    requires
        0 <= i < entries.len(),
    ensures
        i <= skip_down(entries, i) < entries.len(),
    decreases entries.len() - i,
{
    if i < entries.len() - 1 && entries[i] is ProviderHeader {
        lemma_skip_down(entries, i + 1);
    }
}

/// A selected model stays a model: moving never lands on a heading.
pub proof fn law_moving_never_selects_a_heading(entries: Seq<ModelSelectionEntry>, selected: int)
    requires
        0 <= selected < entries.len(),
        entries[selected] is Model,
    ensures
        entries[selected_up(entries, selected)] is Model,
        entries[selected_down(entries, selected)] is Model,
        0 <= selected_up(entries, selected) <= selected,
        selected <= selected_down(entries, selected) < entries.len(),
{
    lemma_skips(entries, text::minus(selected, 1));
    lemma_skips(entries, text::min_int(selected + 1, entries.len() - 1));
}

} // verus!
