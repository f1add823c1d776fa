//! What keys, the mouse, pasted text and events of the runtime do to the user interface.
use crate::json;
use crate::text;
use crate::tui::input;
use crate::tui::input::KeyCode;
use crate::tui::input::KeyModifiers;
use crate::tui::selection;
use crate::tui::state;
use crate::tui::state::autocomplete::CommandAutocomplete;
use crate::tui::state::draft;
use crate::tui::state::edit;
use crate::tui::state::events;
use crate::tui::state::interaction::InteractionStep;
use crate::tui::state::mention::MentionAutocomplete;
use crate::tui::state::paste;
use crate::tui::state::permission;
use crate::tui::state::AgentStatus;
use crate::tui::state::TextSelection;
use crate::tui::state::UiState;
use crate::types::display::UserDraft;
use crate::types::events::CommandSummary;
use crate::types::events::InteractionRequest;
use crate::types::events::RuntimeToUiEvent;
use crate::types::events::ToolPauseKind;
use crate::types::events::ToolPauseRequest;
use crate::types::events::ToolPauseResponse;
use crate::types::events::UiToRuntimeEvent;
use vstd::prelude::*;

verus! {

/// What has to be done outside after an input.
#[derive(Debug, PartialEq, Eq)]
pub enum UiEffect {
    Nothing,
    /// Leave the program.
    Quit,
    /// Ask something of the runtime.
    Request(UiToRuntimeEvent),
    /// Put a text on the clipboard.
    Copy(String),
}

/// The effect that asks for what there is to ask for.
pub open spec fn asking(request: Option<UiToRuntimeEvent>) -> UiEffect {
    match request {
        Some(r) => UiEffect::Request(r),
        None => UiEffect::Nothing,
    }
}

fn ask(request: Option<UiToRuntimeEvent>) -> (r: UiEffect)
    ensures
        r == asking(request),
{
    match request {
        Some(r) => UiEffect::Request(r),
        None => UiEffect::Nothing,
    }
}

/// Everything that a key can touch is where the state keeps it, and there is room to type.
pub open spec fn keys_ready(s: UiState) -> bool {
    &&& s.cursor_char <= s.input@.len()
    &&& paste::room(s, 1)
    &&& paste::mention_room(s)
    &&& draft::markers_ok(s.input_paste_markers@, s.input@)
    &&& draft::pasted_len(
        crate::tui::state::atoms::by_start(s.input_paste_markers@),
        s.input_paste_markers@.len() as int,
    ) <= usize::MAX
    &&& draft::drafts_fit(s.queued_user_inputs@)
    &&& s.note_cursor() < usize::MAX
    &&& s.user_input_question_index < usize::MAX
    &&& s.scroll_step < usize::MAX
    &&& s.interaction_step matches Some(step) ==> input::step_ok(step)
}

/// Whether the open page, where there is one, has what a key is about.
pub open spec fn page_takes(s: UiState, key: KeyCode) -> bool {
    s.interaction_step matches Some(step) ==> input::key_ok(step, key)
}

/// A fresh user interface takes keys.
pub proof fn law_fresh_state_takes_keys(s: UiState)
    requires
        s.input@.len() == 0,
        s.cursor_char == 0,
        s.input_images@.len() == 0,
        s.input_paste_markers@.len() == 0,
        s.queued_user_inputs@.len() == 0,
        s.user_input_note_cursors@.len() == 0,
        s.user_input_question_index == 0,
        s.scroll_step == 1,
        s.interaction_step is None,
        s.mention_autocomplete.active_start == 0,
        s.mention_autocomplete.active_end == 0,
        s.mention_autocomplete.filtered@.len() == 0,
    ensures
        keys_ready(s),
{
}

// What typing does; after it the offers are made anew.

pub open spec fn line_broken(pre: UiState, post: UiState) -> bool {
    exists|mid: UiState|
        edit::text_inserted(pre, "\n"@, mid) && #[trigger] paste::offers_updated(mid, post)
}

pub open spec fn erased_back(pre: UiState, post: UiState) -> bool {
    exists|mid: UiState|
        edit::deleted_before(pre, mid) && #[trigger] paste::offers_updated(mid, post)
}

pub open spec fn erased_ahead(pre: UiState, post: UiState) -> bool {
    exists|mid: UiState|
        edit::deleted_after(pre, mid) && #[trigger] paste::offers_updated(mid, post)
}

pub open spec fn typed(pre: UiState, c: char, is_file: bool, post: UiState) -> bool {
    exists|mid: UiState|
        paste::char_typed(pre, c, is_file, mid) && #[trigger] paste::offers_updated(mid, post)
}

pub open spec fn gone_to(pre: UiState, to: int, post: UiState) -> bool {
    exists|mid: UiState|
        edit::just_moved(pre, to, mid) && #[trigger] paste::offers_updated(mid, post)
}

fn break_line(s: &mut UiState)
    requires
        paste::room(*old(s), 1),
    ensures
        line_broken(*old(s), *final(s)),
{
    proof {
        reveal_strlit("\n");
    }
    s.insert_text("\n");
    let ghost mid = *s;
    s.update_input_autocomplete();
    assert(paste::offers_updated(mid, *s));
}

fn erase_back(s: &mut UiState)
    requires
        old(s).cursor_char <= old(s).input@.len(),
    ensures
        erased_back(*old(s), *final(s)),
{
    s.delete_before();
    let ghost mid = *s;
    s.update_input_autocomplete();
    assert(paste::offers_updated(mid, *s));
}

fn erase_ahead(s: &mut UiState)
    ensures
        erased_ahead(*old(s), *final(s)),
{
    s.delete_after();
    let ghost mid = *s;
    s.update_input_autocomplete();
    assert(paste::offers_updated(mid, *s));
}

fn type_char(s: &mut UiState, c: char, is_file: bool)
    requires
        paste::room(*old(s), 1),
    ensures
        typed(*old(s), c, is_file, *final(s)),
{
    s.insert_char(c, is_file);
    let ghost mid = *s;
    s.update_input_autocomplete();
    assert(paste::offers_updated(mid, *s));
}

fn go_left(s: &mut UiState)
    ensures
        gone_to(*old(s), edit::left_of(*old(s)), *final(s)),
{
    s.cursor_left();
    let ghost mid = *s;
    s.update_input_autocomplete();
    assert(paste::offers_updated(mid, *s));
}

fn go_right(s: &mut UiState)
    ensures
        gone_to(*old(s), edit::right_of(*old(s)), *final(s)),
{
    s.cursor_right();
    let ghost mid = *s;
    s.update_input_autocomplete();
    assert(paste::offers_updated(mid, *s));
}

fn go_home(s: &mut UiState)
    ensures
        gone_to(*old(s), 0, *final(s)),
{
    s.cursor_home();
    let ghost mid = *s;
    s.update_input_autocomplete();
    assert(paste::offers_updated(mid, *s));
}

fn go_end(s: &mut UiState)
    ensures
        gone_to(*old(s), old(s).input@.len() as int, *final(s)),
{
    s.cursor_end();
    let ghost mid = *s;
    s.update_input_autocomplete();
    assert(paste::offers_updated(mid, *s));
}

// A page for a choice.

pub open spec fn page_key(pre: UiState, key: KeyCode, effect: UiEffect, post: UiState) -> bool {
    exists|next: InteractionStep, stays: bool, request: Option<UiToRuntimeEvent>|
        {
            &&& #[trigger] input::choice_key(
                pre.interaction_step->0,
                key,
                next,
                stays,
                request,
            )
            &&& effect == asking(request)
            &&& post == (UiState {
                interaction_step: if stays {
                    Some(next)
                } else {
                    None
                },
                interaction_request: if stays {
                    pre.interaction_request
                } else {
                    None
                },
                ..pre
            })
        }
}

fn on_page_key(s: &mut UiState, key: KeyCode) -> (r: UiEffect)
    requires
        old(s).interaction_step matches Some(step) && input::step_ok(step) && input::key_ok(
            step,
            key,
        ),
    ensures
        page_key(*old(s), key, r, *final(s)),
{
    match s.interaction_step.take() {
        None => UiEffect::Nothing,
        Some(step) => {
            let (next, stays, request) = input::handle_interaction_key(step, key);
            assert(input::choice_key(step, key, next, stays, request));
            if stays {
                s.interaction_step = Some(next);
            } else {
                s.interaction_step = None;
                s.interaction_request = None;
            }
            ask(request)
        },
    }
}

// The drawer of a tool that waits.

/// How far down the selection can go: behind the options of the current question, or to the
/// second of two answers.
pub open spec fn last_choice(s: UiState, req: ToolPauseRequest) -> usize {
    match req.kind {
        ToolPauseKind::UserInput(preview) => if s.user_input_question_index
            < preview.questions@.len() {
            preview.questions@[s.user_input_question_index as int].options@.len() as usize
        } else {
            0
        },
        ToolPauseKind::Permission(_) => 1,
    }
}

fn last_choice_of(s: &UiState, req: &ToolPauseRequest) -> (r: usize)
    ensures
        r == last_choice(*s, *req),
{
    match &req.kind {
        ToolPauseKind::UserInput(preview) => if s.user_input_question_index
            < preview.questions.len() {
            preview.questions[s.user_input_question_index].options.len()
        } else {
            0
        },
        ToolPauseKind::Permission(_) => 1,
    }
}

pub open spec fn chosen_above(pre: UiState, post: UiState) -> bool {
    permission::selection_set(pre, text::minus(pre.selection() as int, 1), post)
}

pub open spec fn chosen_below(pre: UiState, max: usize, post: UiState) -> bool {
    permission::selection_set(
        pre,
        if pre.selection() < max {
            pre.selection() + 1
        } else {
            max as int
        },
        post,
    )
}

/// The current question counts as answered; when all are, the tool gets its answer, else the
/// next one that is not is shown.
pub open spec fn question_answered(pre: UiState, effect: UiEffect, post: UiState) -> bool {
    exists|mid: UiState|
        {
            &&& #[trigger] marked_answered(pre, mid)
            &&& if permission::unanswered(mid.user_input_answered@) == 0 {
                exists|request: Option<UiToRuntimeEvent>|
                    #[trigger] input::pause_resolved(mid, request, post) && effect == asking(
                        request,
                    )
            } else {
                &&& effect == UiEffect::Nothing
                &&& post == (UiState {
                    user_input_question_index: permission::next_question(
                        mid.user_input_answered@,
                        mid.user_input_question_index,
                    ),
                    user_input_note_mode: false,
                    ..mid
                })
            }
        }
}

pub open spec fn marked_answered(pre: UiState, post: UiState) -> bool {
    &&& post == (UiState { user_input_answered: post.user_input_answered, ..pre })
    &&& post.user_input_answered@ == (if pre.user_input_question_index
        < pre.user_input_answered@.len() {
        pre.user_input_answered@.update(pre.user_input_question_index as int, true)
    } else {
        pre.user_input_answered@
    })
}

fn answer_question(s: &mut UiState) -> (r: UiEffect)
    requires
        old(s).user_input_question_index < usize::MAX,
    ensures
        question_answered(*old(s), r, *final(s)),
{
    let ghost pre = *s;
    s.mark_current_user_input_answered();
    let ghost mid = *s;
    assert(marked_answered(pre, mid));
    if s.user_input_unanswered_count() == 0 {
        let request = input::resolve_active_tool_pause(s);
        assert(input::pause_resolved(mid, request, *s));
        ask(request)
    } else {
        s.move_to_next_unanswered_user_input();
        UiEffect::Nothing
    }
}

/// What a key does while a note is written.
pub open spec fn note_key(
    pre: UiState,
    req: ToolPauseRequest,
    key: KeyCode,
    effect: UiEffect,
    post: UiState,
) -> bool {
    match key {
        KeyCode::Enter => question_answered(pre, effect, post),
        _ => effect == UiEffect::Nothing && match key {
            KeyCode::Tab | KeyCode::Esc => post == (UiState {
                user_input_note_mode: false,
                ..pre
            }),
            KeyCode::Backspace => if pre.has_note() && 0 < pre.note_cursor()
                <= pre.note().len() {
                permission::note_set(
                    pre,
                    pre.note().remove(pre.note_cursor() - 1),
                    pre.note_cursor() - 1,
                    post,
                )
            } else {
                post == pre
            },
            KeyCode::Delete => if pre.has_note() && pre.note_cursor() < pre.note().len() {
                permission::note_set(
                    pre,
                    pre.note().remove(pre.note_cursor()),
                    pre.note_cursor(),
                    post,
                )
            } else {
                post == pre
            },
            KeyCode::Up | KeyCode::Char('k') => chosen_above(pre, post),
            KeyCode::Down | KeyCode::Char('j') => chosen_below(pre, last_choice(pre, req), post),
            KeyCode::Char(c) => if pre.has_note() {
                permission::note_set(
                    pre,
                    permission::with_char(pre.note(), pre.note_cursor(), c),
                    text::min_int(pre.note_cursor(), pre.note().len() as int) + 1,
                    post,
                )
            } else {
                post == pre
            },
            KeyCode::Left => permission::note_cursor_set(
                pre,
                text::minus(pre.note_cursor(), 1),
                post,
            ),
            KeyCode::Right => permission::note_cursor_set(
                pre,
                if pre.note_cursor() < pre.note().len() {
                    pre.note_cursor() + 1
                } else {
                    pre.note().len() as int
                },
                post,
            ),
            KeyCode::Home => permission::note_cursor_set(pre, 0, post),
            KeyCode::End => permission::note_cursor_set(pre, pre.note().len() as int, post),
            _ => post == pre,
        },
    }
}

fn on_note_key(s: &mut UiState, max: usize, key: KeyCode) -> (r: UiEffect)
    requires
        old(s).user_input_question_index < usize::MAX,
        old(s).note_cursor() < usize::MAX,
    ensures
        forall|req: ToolPauseRequest|
            max == #[trigger] last_choice(*old(s), req) ==> note_key(
                *old(s),
                req,
                key,
                r,
                *final(s),
            ),
{
    match key {
        KeyCode::Enter => {
            return answer_question(s);
        },
        KeyCode::Tab | KeyCode::Esc => {
            s.user_input_note_mode = false;
        },
        KeyCode::Backspace => s.delete_note_before(),
        KeyCode::Delete => s.delete_note_after(),
        KeyCode::Up | KeyCode::Char('k') => s.permission_select_prev(),
        KeyCode::Down | KeyCode::Char('j') => s.permission_select_next_with_max(max),
        KeyCode::Char(c) => s.insert_note_char(c),
        KeyCode::Left => s.note_cursor_left(),
        KeyCode::Right => s.note_cursor_right(),
        KeyCode::Home => s.note_cursor_home(),
        KeyCode::End => s.note_cursor_end(),
        _ => {},
    }
    UiEffect::Nothing
}

/// Half of what the drawer shows, at least one line.
pub open spec fn drawer_page(s: UiState) -> int {
    text::max_int(1, s.permission_drawer_body_area.height as int / 2)
}

/// The tool gets the answer that is selected.
pub open spec fn answered_with(pre: UiState, choice: usize, effect: UiEffect, post: UiState) -> bool {
    exists|request: Option<UiToRuntimeEvent>|
        #[trigger] input::pause_resolved(
            UiState { permission_selected: choice, ..pre },
            request,
            post,
        ) && effect == asking(request)
}

/// The questions are turned away.
pub open spec fn questions_cancelled(
    pre: UiState,
    req: ToolPauseRequest,
    effect: UiEffect,
    post: UiState,
) -> bool {
    &&& effect == UiEffect::Request(
        UiToRuntimeEvent::ResolveToolPause {
            tool_use_id: req.tool_use_id,
            response: ToolPauseResponse::Cancelled,
        },
    )
    &&& exists|mid: UiState|
        {
            &&& #[trigger] events::pause_dropped(
                UiState { permission_selected: 1, ..pre },
                req.tool_use_id@,
                mid,
            )
            &&& permission::drawer_reset(mid, post)
        }
}

/// What a key does while a tool asks for permission.
pub open spec fn permission_key(
    pre: UiState,
    key: KeyCode,
    effect: UiEffect,
    post: UiState,
) -> bool {
    match key {
        KeyCode::Char('y') | KeyCode::Char('Y') => answered_with(pre, 0, effect, post),
        KeyCode::Esc | KeyCode::Char('n') | KeyCode::Char('N') => answered_with(
            pre,
            1,
            effect,
            post,
        ),
        KeyCode::Enter => answered_with(pre, pre.permission_selected, effect, post),
        _ => effect == UiEffect::Nothing && match key {
            KeyCode::Up | KeyCode::Char('k') => chosen_above(pre, post),
            KeyCode::Down | KeyCode::Char('j') => chosen_below(pre, 1, post),
            KeyCode::PageUp => post == drawer_scrolled_up(pre, drawer_page(pre)),
            KeyCode::PageDown => post == drawer_scrolled_down(pre, drawer_page(pre)),
            _ => post == pre,
        },
    }
}

pub open spec fn drawer_scrolled_up(s: UiState, lines: int) -> UiState {
    UiState {
        permission_scroll_offset: text::min_int(
            s.permission_scroll_offset + lines,
            usize::MAX as int,
        ) as usize,
        ..s
    }
}

pub open spec fn drawer_scrolled_down(s: UiState, lines: int) -> UiState {
    UiState {
        permission_scroll_offset: text::minus(s.permission_scroll_offset as int, lines) as usize,
        ..s
    }
}

/// The note of the current question is opened, with the cursor at its end.
pub open spec fn note_opened(pre: UiState, post: UiState) -> bool {
    let mid = UiState { user_input_note_mode: true, ..pre };
    permission::note_cursor_set(mid, mid.note().len() as int, post)
}

/// What a key does while a tool asks questions.
pub open spec fn question_key(
    pre: UiState,
    req: ToolPauseRequest,
    key: KeyCode,
    effect: UiEffect,
    post: UiState,
) -> bool {
    match key {
        KeyCode::Esc => questions_cancelled(pre, req, effect, post),
        KeyCode::Enter => question_answered(pre, effect, post),
        _ => effect == UiEffect::Nothing && match key {
            KeyCode::Up | KeyCode::Char('k') => chosen_above(pre, post),
            KeyCode::Down | KeyCode::Char('j') => chosen_below(pre, last_choice(pre, req), post),
            KeyCode::Left | KeyCode::Char('h') => post == (UiState {
                user_input_question_index: text::minus(
                    pre.user_input_question_index as int,
                    1,
                ) as usize,
                ..pre
            }),
            KeyCode::Right | KeyCode::Char('l') => post == (UiState {
                user_input_question_index: if pre.user_input_question_index + 1
                    < pre.user_input_answered@.len() {
                    (pre.user_input_question_index + 1) as usize
                } else {
                    pre.user_input_question_index
                },
                ..pre
            }),
            KeyCode::PageUp => post == drawer_scrolled_up(pre, drawer_page(pre)),
            KeyCode::PageDown => post == drawer_scrolled_down(pre, drawer_page(pre)),
            KeyCode::Tab => note_opened(pre, post),
            _ => post == pre,
        },
    }
}

/// What a key does while a tool waits.
pub open spec fn pause_key(
    pre: UiState,
    req: ToolPauseRequest,
    key: KeyCode,
    effect: UiEffect,
    post: UiState,
) -> bool {
    if pre.user_input_note_mode {
        note_key(pre, req, key, effect, post)
    } else {
        match req.kind {
            ToolPauseKind::Permission(_) => permission_key(pre, key, effect, post),
            ToolPauseKind::UserInput(_) => question_key(pre, req, key, effect, post),
        }
    }
}

fn answer_with(s: &mut UiState, choice: usize) -> (r: UiEffect)
    ensures
        answered_with(*old(s), choice, r, *final(s)),
{
    s.permission_selected = choice;
    let ghost mid = *s;
    let request = input::resolve_active_tool_pause(s);
    assert(input::pause_resolved(mid, request, *s));
    ask(request)
}

fn half_drawer(s: &UiState) -> (r: usize)
    ensures
        r == drawer_page(*s),
{
    text::max_usize(1, s.permission_drawer_body_area.height as usize / 2)
}

fn on_permission_key(s: &mut UiState, key: KeyCode) -> (r: UiEffect)
    ensures
        permission_key(*old(s), key, r, *final(s)),
{
    match key {
        KeyCode::Char('y') | KeyCode::Char('Y') => {
            return answer_with(s, 0);
        },
        KeyCode::Esc | KeyCode::Char('n') | KeyCode::Char('N') => {
            return answer_with(s, 1);
        },
        KeyCode::Enter => {
            let choice: usize = s.permission_selected;
            return answer_with(s, choice);
        },
        KeyCode::Up | KeyCode::Char('k') => s.permission_select_prev(),
        KeyCode::Down | KeyCode::Char('j') => s.permission_select_next_with_max(1),
        KeyCode::PageUp => {
            let page: usize = half_drawer(s);
            s.permission_scroll_up(page);
        },
        KeyCode::PageDown => {
            let page: usize = half_drawer(s);
            s.permission_scroll_down(page);
        },
        _ => {},
    }
    UiEffect::Nothing
}

fn cancel_questions(s: &mut UiState, id: String) -> (r: UiEffect)
    ensures
        forall|req: ToolPauseRequest|
            #![trigger req.tool_use_id]
            req.tool_use_id == id ==> questions_cancelled(*old(s), req, r, *final(s)),
{
    let ghost pre = *s;
    s.permission_selected = 1;
    let ghost chosen = *s;
    s.drop_pause(id.as_str());
    let ghost mid = *s;
    s.reset_permission_drawer();
    assert(events::pause_dropped(UiState { permission_selected: 1, ..pre }, id@, mid));
    UiEffect::Request(
        UiToRuntimeEvent::ResolveToolPause {
            tool_use_id: id,
            response: ToolPauseResponse::Cancelled,
        },
    )
}

fn on_question_key(s: &mut UiState, max: usize, id: String, key: KeyCode) -> (r: UiEffect)
    requires
        old(s).user_input_question_index < usize::MAX,
    ensures
        forall|req: ToolPauseRequest|
            req.tool_use_id == id && max == #[trigger] last_choice(*old(s), req) ==> question_key(
                *old(s),
                req,
                key,
                r,
                *final(s),
            ),
{
    match key {
        KeyCode::Esc => {
            return cancel_questions(s, id);
        },
        KeyCode::Enter => {
            return answer_question(s);
        },
        KeyCode::Up | KeyCode::Char('k') => s.permission_select_prev(),
        KeyCode::Down | KeyCode::Char('j') => s.permission_select_next_with_max(max),
        KeyCode::Left | KeyCode::Char('h') => s.user_input_question_prev(),
        KeyCode::Right | KeyCode::Char('l') => s.user_input_question_next(),
        KeyCode::PageUp => {
            let page: usize = half_drawer(s);
            s.permission_scroll_up(page);
        },
        KeyCode::PageDown => {
            let page: usize = half_drawer(s);
            s.permission_scroll_down(page);
        },
        KeyCode::Tab => {
            s.user_input_note_mode = true;
            s.note_cursor_end();
        },
        _ => {},
    }
    UiEffect::Nothing
}

fn on_pause_key(s: &mut UiState, key: KeyCode) -> (r: UiEffect)
    requires
        old(s).user_input_question_index < usize::MAX,
        old(s).note_cursor() < usize::MAX,
        old(s).active_pause() is Some,
    ensures
        pause_key(*old(s), old(s).active_pause()->0, key, r, *final(s)),
{
    let ghost pre = *s;
    let ghost req = s.active_pause()->0;
    let (max, id, asks) = match s.active_tool_pause() {
        None => {
            assert(false);
            return UiEffect::Nothing;
        },
        Some(p) => {
            let max: usize = last_choice_of(s, p);
            let asks = match &p.kind {
                ToolPauseKind::UserInput(_) => true,
                ToolPauseKind::Permission(_) => false,
            };
            (max, p.tool_use_id.clone(), asks)
        },
    };
    assert(max == last_choice(pre, req));
    assert(req.tool_use_id == id);
    if s.user_input_note_mode {
        on_note_key(s, max, key)
    } else if asks {
        on_question_key(s, max, id, key)
    } else {
        on_permission_key(s, key)
    }
}

// The list of commands.

/// The command that is selected in the list.
pub open spec fn picked(list: CommandAutocomplete) -> Option<CommandSummary> {
    if list.selected < list.filtered@.len() && list.filtered@[list.selected as int]
        < list.all_commands@.len() {
        Some(list.all_commands@[list.filtered@[list.selected as int] as int])
    } else {
        None
    }
}

pub open spec fn list_hidden(s: UiState) -> UiState {
    UiState { autocomplete: CommandAutocomplete { visible: false, ..s.autocomplete }, ..s }
}

/// The input is the name of the command with a space, for its arguments to be typed.
pub open spec fn command_completed(pre: UiState, name: Seq<char>, post: UiState) -> bool {
    &&& post == (UiState {
        input: post.input,
        input_mentions: post.input_mentions,
        input_paste_markers: post.input_paste_markers,
        input_scroll_line: 0,
        cursor_char: (name.len() + 2) as usize,
        ..list_hidden(pre)
    })
    &&& post.input@ == "/"@ + name + " "@
    &&& post.input_mentions@.len() == 0
    &&& post.input_paste_markers@.len() == 0
}

/// The input is empty: its command was sent.
pub open spec fn command_sent(pre: UiState, name: Seq<char>, effect: UiEffect, post: UiState) -> bool {
    &&& post == (UiState {
        input: post.input,
        input_mentions: post.input_mentions,
        input_paste_markers: post.input_paste_markers,
        input_scroll_line: 0,
        cursor_char: 0,
        ..list_hidden(pre)
    })
    &&& post.input@.len() == 0
    &&& post.input_mentions@.len() == 0
    &&& post.input_paste_markers@.len() == 0
    &&& effect matches UiEffect::Request(UiToRuntimeEvent::SendCommand(t)) && t@ == "/"@ + name
}

/// The selected command is taken: one with arguments is completed, another sent.
pub open spec fn command_taken(
    pre: UiState,
    c: CommandSummary,
    effect: UiEffect,
    post: UiState,
) -> bool {
    if c.has_args {
        effect == UiEffect::Nothing && command_completed(pre, c.name@, post)
    } else {
        command_sent(pre, c.name@, effect, post)
    }
}

fn take_command(s: &mut UiState) -> (r: (bool, UiEffect))
    ensures
        match picked(old(s).autocomplete) {
            Some(c) => r.0 && command_taken(*old(s), c, r.1, *final(s)),
            None => !r.0 && r.1 == UiEffect::Nothing && *final(s) == *old(s),
        },
{
    let (name, has_args) = match s.autocomplete.selected_command() {
        Some(c) => (c.name.clone(), c.has_args),
        None => {
            return (false, UiEffect::Nothing);
        },
    };
    s.input_mentions = Vec::new();
    s.input_paste_markers = Vec::new();
    s.input_scroll_line = 0;
    s.autocomplete.visible = false;
    let typed = text::concat("/", name.as_str());
    proof {
        reveal_strlit("/");
        reveal_strlit(" ");
    }
    if has_args {
        let full = text::concat(typed.as_str(), " ");
        s.cursor_char = text::char_count(full.as_str());
        s.input = full;
        (true, UiEffect::Nothing)
    } else {
        s.input = String::new();
        s.cursor_char = 0;
        (true, UiEffect::Request(UiToRuntimeEvent::SendCommand(typed)))
    }
}

/// What a key does while the list of commands is shown.
pub open spec fn command_key(
    pre: UiState,
    key: KeyCode,
    modifiers: KeyModifiers,
    is_file: bool,
    effect: UiEffect,
    post: UiState,
) -> bool {
    if input::newline_key(key, modifiers) {
        effect == UiEffect::Nothing && line_broken(pre, post)
    } else {
        match key {
            KeyCode::Enter => match picked(pre.autocomplete) {
                Some(c) => command_taken(pre, c, effect, post),
                None => effect == UiEffect::Nothing && post == list_hidden(pre),
            },
            KeyCode::Tab => match picked(pre.autocomplete) {
                Some(c) => command_taken(pre, c, effect, post),
                None => effect == UiEffect::Nothing && post == pre,
            },
            _ => effect == UiEffect::Nothing && match key {
                KeyCode::Down => post == (UiState {
                    autocomplete: CommandAutocomplete {
                        selected: state::autocomplete::next_selected(
                            pre.autocomplete.selected,
                            pre.autocomplete.filtered@.len() as int,
                        ),
                        ..pre.autocomplete
                    },
                    ..pre
                }),
                KeyCode::Up => post == (UiState {
                    autocomplete: CommandAutocomplete {
                        selected: text::minus(pre.autocomplete.selected as int, 1) as usize,
                        ..pre.autocomplete
                    },
                    ..pre
                }),
                KeyCode::Esc => post == list_hidden(pre),
                KeyCode::Backspace => erased_back(pre, post),
                KeyCode::Delete => erased_ahead(pre, post),
                KeyCode::Char(c) => typed(pre, c, is_file, post),
                KeyCode::Left => gone_to(pre, edit::left_of(pre), post),
                KeyCode::Right => gone_to(pre, edit::right_of(pre), post),
                KeyCode::Home => gone_to(pre, 0, post),
                KeyCode::End => gone_to(pre, pre.input@.len() as int, post),
                _ => post == pre,
            },
        }
    }
}

fn on_command_key(s: &mut UiState, key: KeyCode, modifiers: KeyModifiers, is_file: bool) -> (r:
    UiEffect)
    requires
        keys_ready(*old(s)),
    ensures
        command_key(*old(s), key, modifiers, is_file, r, *final(s)),
{
    if input::is_newline_key(key, modifiers) {
        break_line(s);
        return UiEffect::Nothing;
    }
    match key {
        KeyCode::Enter => {
            let (took, effect) = take_command(s);
            if !took {
                s.autocomplete.visible = false;
            }
            return effect;
        },
        KeyCode::Tab => {
            let (_took, effect) = take_command(s);
            return effect;
        },
        KeyCode::Down => s.autocomplete.select_next(),
        KeyCode::Up => s.autocomplete.select_prev(),
        KeyCode::Esc => {
            s.autocomplete.visible = false;
        },
        KeyCode::Backspace => erase_back(s),
        KeyCode::Delete => erase_ahead(s),
        KeyCode::Char(c) => type_char(s, c, is_file),
        KeyCode::Left => go_left(s),
        KeyCode::Right => go_right(s),
        KeyCode::Home => go_home(s),
        KeyCode::End => go_end(s),
        _ => {},
    }
    UiEffect::Nothing
}

// The list of mentions.

pub open spec fn mention_taken(pre: UiState, is_file: bool, post: UiState) -> bool {
    exists|mid: UiState, done: bool|
        #[trigger] paste::mention_inserted(pre, is_file, done, mid) && #[trigger] paste::offers_updated(
            mid,
            post,
        )
}

pub open spec fn mention_expanded(pre: UiState, is_file: bool, post: UiState) -> bool {
    exists|mid: UiState, done: bool|
        #[trigger] paste::directory_expanded(pre, is_file, done, mid) && #[trigger] paste::offers_updated(
            mid,
            post,
        )
}

/// What a key does while the list of mentions is shown.
pub open spec fn mention_key(
    pre: UiState,
    key: KeyCode,
    modifiers: KeyModifiers,
    is_file: bool,
    post: UiState,
) -> bool {
    if input::newline_key(key, modifiers) {
        line_broken(pre, post)
    } else {
        match key {
            KeyCode::Enter => mention_taken(pre, is_file, post),
            KeyCode::Tab | KeyCode::Right => mention_expanded(pre, is_file, post),
            KeyCode::Down => post == (UiState {
                mention_autocomplete: MentionAutocomplete {
                    selected: state::autocomplete::next_selected(
                        pre.mention_autocomplete.selected,
                        pre.mention_autocomplete.filtered@.len() as int,
                    ),
                    ..pre.mention_autocomplete
                },
                ..pre
            }),
            KeyCode::Up => post == (UiState {
                mention_autocomplete: MentionAutocomplete {
                    selected: text::minus(pre.mention_autocomplete.selected as int, 1) as usize,
                    ..pre.mention_autocomplete
                },
                ..pre
            }),
            KeyCode::Esc => {
                &&& post == (UiState { mention_autocomplete: post.mention_autocomplete, ..pre })
                &&& state::mention::mentions_closed(
                    pre.mention_autocomplete,
                    post.mention_autocomplete,
                )
            },
            KeyCode::Backspace => erased_back(pre, post),
            KeyCode::Delete => erased_ahead(pre, post),
            KeyCode::Char(c) => typed(pre, c, is_file, post),
            KeyCode::Left => gone_to(pre, edit::left_of(pre), post),
            KeyCode::Home => gone_to(pre, 0, post),
            KeyCode::End => gone_to(pre, pre.input@.len() as int, post),
            _ => post == pre,
        }
    }
}

fn on_mention_key(s: &mut UiState, key: KeyCode, modifiers: KeyModifiers, is_file: bool)
    requires
        keys_ready(*old(s)),
    ensures
        mention_key(*old(s), key, modifiers, is_file, *final(s)),
{
    let ghost pre = *s;
    if input::is_newline_key(key, modifiers) {
        break_line(s);
        return;
    }
    match key {
        KeyCode::Enter => {
            let done = s.insert_selected_mention(is_file);
            let ghost mid = *s;
            s.update_input_autocomplete();
            assert(paste::mention_inserted(pre, is_file, done, mid) && paste::offers_updated(
                mid,
                *s,
            ));
        },
        KeyCode::Tab | KeyCode::Right => {
            let done = s.expand_selected_mention_directory(is_file);
            let ghost mid = *s;
            s.update_input_autocomplete();
            assert(paste::directory_expanded(pre, is_file, done, mid) && paste::offers_updated(
                mid,
                *s,
            ));
        },
        KeyCode::Down => s.mention_autocomplete.select_next(),
        KeyCode::Up => s.mention_autocomplete.select_prev(),
        KeyCode::Esc => s.cancel_mention_autocomplete(),
        KeyCode::Backspace => erase_back(s),
        KeyCode::Delete => erase_ahead(s),
        KeyCode::Char(c) => type_char(s, c, is_file),
        KeyCode::Left => go_left(s),
        KeyCode::Home => go_home(s),
        KeyCode::End => go_end(s),
        _ => {},
    }
}

// The input itself.

pub open spec fn step_updated(s: UiState, now: u64) -> UiState {
    UiState {
        scroll_step: state::scroll_step_after(
            s.scroll_step,
            match s.last_scroll_time {
                Some(last) => Some(text::minus(now as int, last as int)),
                None => None,
            },
        ),
        last_scroll_time: Some(now),
        ..s
    }
}

pub open spec fn scrolled_up(s: UiState, lines: int) -> UiState {
    UiState {
        scroll_offset: text::min_int(s.scroll_offset + lines, usize::MAX as int) as usize,
        auto_scroll: false,
        ..s
    }
}

pub open spec fn scrolled_down(s: UiState, lines: int) -> UiState {
    UiState {
        scroll_offset: text::minus(s.scroll_offset as int, lines) as usize,
        auto_scroll: s.auto_scroll || s.scroll_offset <= lines,
        ..s
    }
}

/// Half of what the messages show, at least one line.
pub open spec fn messages_page(s: UiState) -> int {
    text::max_int(1, s.messages_area.height as int / 2)
}

/// Control and C empty the input, and leave the program where it is empty.
pub open spec fn interrupted(pre: UiState, effect: UiEffect, post: UiState) -> bool {
    if pre.input@.len() == 0 {
        effect == UiEffect::Quit && post == pre
    } else {
        effect == UiEffect::Nothing && draft::input_cleared(pre, post)
    }
}

/// What becomes of a draft: a command goes to the runtime, another waits while a run is under
/// way and is sent otherwise.
pub open spec fn draft_entered(
    pre: UiState,
    d: UserDraft,
    effect: UiEffect,
    post: UiState,
) -> bool {
    if d.text@.len() > 0 && d.text@[0] == '/' {
        effect == UiEffect::Request(UiToRuntimeEvent::SendCommand(d.text)) && post == pre
    } else if pre.agent_status != AgentStatus::Idle {
        &&& effect == UiEffect::Nothing
        &&& post == (UiState { queued_user_inputs: post.queued_user_inputs, ..pre })
        &&& post.queued_user_inputs@ == pre.queued_user_inputs@.push(d)
    } else {
        effect == UiEffect::Request(UiToRuntimeEvent::SendMessage(d)) && input::draft_sent(
            pre,
            d,
            post,
        )
    }
}

/// What Enter does: nothing while inputs are on their way to the run or where nothing is typed,
/// else the input becomes a draft.
pub open spec fn entered(pre: UiState, effect: UiEffect, post: UiState) -> bool {
    if pre.pending_intervention_inputs@.len() > 0 || pre.input@.len() == 0 {
        effect == UiEffect::Nothing && post == pre
    } else {
        exists|d: UserDraft, mid: UiState|
            #[trigger] draft::draft_taken(pre, Some(d), mid) && draft_entered(mid, d, effect, post)
    }
}

fn enter(s: &mut UiState) -> (r: UiEffect)
    requires
        keys_ready(*old(s)),
    ensures
        entered(*old(s), r, *final(s)),
{
    let ghost pre = *s;
    if s.pending_intervention_inputs.len() > 0 {
        return UiEffect::Nothing;
    }
    match s.take_input_draft() {
        None => UiEffect::Nothing,
        Some(d) => {
            let ghost mid = *s;
            assert(draft::draft_taken(pre, Some(d), mid));
            let chars = text::chars_of(d.text.as_str());
            if chars.len() > 0 && chars[0] == '/' {
                UiEffect::Request(UiToRuntimeEvent::SendCommand(d.text))
            } else if s.is_run_active() {
                s.queued_user_inputs.push_back(d);
                UiEffect::Nothing
            } else {
                UiEffect::Request(input::send_draft(s, d))
            }
        },
    }
}

/// What a key does to the input itself; `now` is the time in milliseconds.
pub open spec fn plain_key(
    pre: UiState,
    key: KeyCode,
    modifiers: KeyModifiers,
    is_file: bool,
    now: u64,
    effect: UiEffect,
    post: UiState,
) -> bool {
    if (key == KeyCode::Char('c') && modifiers.only_control()) || key == KeyCode::Char('\x03') {
        interrupted(pre, effect, post)
    } else if input::intervention_key(key, modifiers) {
        exists|request: Option<UiToRuntimeEvent>|
            #[trigger] input::intervened(pre, request, post) && effect == asking(request)
    } else if input::newline_key(key, modifiers) {
        effect == UiEffect::Nothing && line_broken(pre, post)
    } else if key == KeyCode::Enter {
        entered(pre, effect, post)
    } else {
        &&& effect == UiEffect::Nothing
        &&& match key {
            KeyCode::Up => line_up(pre, post),
            KeyCode::Down => line_down(pre, post),
            KeyCode::PageUp => {
                let mid = step_updated(pre, now);
                post == scrolled_up(
                    mid,
                    text::max_int(mid.scroll_step as int, messages_page(pre)),
                )
            },
            KeyCode::PageDown => {
                let mid = step_updated(pre, now);
                post == scrolled_down(
                    mid,
                    text::max_int(mid.scroll_step as int, messages_page(pre)),
                )
            },
            KeyCode::Backspace => erased_back(pre, post),
            KeyCode::Delete => erased_ahead(pre, post),
            KeyCode::Char(c) => typed(pre, c, is_file, post),
            KeyCode::Left => gone_to(pre, edit::left_of(pre), post),
            KeyCode::Right => gone_to(pre, edit::right_of(pre), post),
            KeyCode::Home => if modifiers.only_control() {
                post == (UiState { scroll_offset: usize::MAX, auto_scroll: false, ..pre })
            } else {
                gone_to(pre, 0, post)
            },
            KeyCode::End => if modifiers.only_control() {
                post == (UiState { scroll_offset: 0, auto_scroll: true, ..pre })
            } else {
                gone_to(pre, pre.input@.len() as int, post)
            },
            _ => post == pre,
        }
    }
}

pub open spec fn line_up(pre: UiState, post: UiState) -> bool {
    if pre.cursor_place().0 > 0 {
        edit::just_moved(
            pre,
            pre.position_in_line(pre.cursor_place().0 - 1, pre.cursor_place().1),
            post,
        )
    } else {
        post == pre
    }
}

pub open spec fn line_down(pre: UiState, post: UiState) -> bool {
    if pre.cursor_place().0 + 1 < pre.shown_input().len() {
        edit::just_moved(
            pre,
            pre.position_in_line(pre.cursor_place().0 + 1, pre.cursor_place().1),
            post,
        )
    } else {
        post == pre
    }
}

fn half_messages(s: &UiState) -> (r: usize)
    ensures
        r == messages_page(*s),
{
    text::max_usize(1, s.messages_area.height as usize / 2)
}

fn interrupt(s: &mut UiState) -> (r: UiEffect)
    ensures
        interrupted(*old(s), r, *final(s)),
{
    if s.clear_input() {
        UiEffect::Nothing
    } else {
        UiEffect::Quit
    }
}

fn on_plain_key(
    s: &mut UiState,
    key: KeyCode,
    modifiers: KeyModifiers,
    is_file: bool,
    now: u64,
) -> (r: UiEffect)
    requires
        keys_ready(*old(s)),
    ensures
        plain_key(*old(s), key, modifiers, is_file, now, r, *final(s)),
{
    let ghost pre = *s;
    if (key == KeyCode::Char('c') && modifiers.is_control()) || key == KeyCode::Char('\x03') {
        return interrupt(s);
    }
    if input::is_intervention_key(key, modifiers) {
        let request = input::submit_queued_intervention(s);
        assert(input::intervened(pre, request, *s));
        return ask(request);
    }
    if input::is_newline_key(key, modifiers) {
        break_line(s);
        return UiEffect::Nothing;
    }
    match key {
        KeyCode::Enter => {
            return enter(s);
        },
        KeyCode::Up => {
            let _moved = s.cursor_up_in_input();
        },
        KeyCode::Down => {
            let _moved = s.cursor_down_in_input();
        },
        KeyCode::PageUp => {
            let page: usize = half_messages(s);
            s.update_scroll_step(now);
            let lines: usize = text::max_usize(s.scroll_step, page);
            s.scroll_up(lines);
        },
        KeyCode::PageDown => {
            let page: usize = half_messages(s);
            s.update_scroll_step(now);
            let lines: usize = text::max_usize(s.scroll_step, page);
            s.scroll_down(lines);
        },
        KeyCode::Backspace => erase_back(s),
        KeyCode::Delete => erase_ahead(s),
        KeyCode::Char(c) => type_char(s, c, is_file),
        KeyCode::Left => go_left(s),
        KeyCode::Right => go_right(s),
        KeyCode::Home => {
            if modifiers.is_control() {
                s.scroll_to_top();
            } else {
                go_home(s);
            }
        },
        KeyCode::End => {
            if modifiers.is_control() {
                s.scroll_to_bottom();
            } else {
                go_end(s);
            }
        },
        _ => {},
    }
    UiEffect::Nothing
}

// All keys.

/// What a key does: on a page for a choice, to a run that is to be stopped, to a tool that
/// waits, to a list that is shown, or to the input.
pub open spec fn key_handled(
    pre: UiState,
    key: KeyCode,
    modifiers: KeyModifiers,
    is_file: bool,
    now: u64,
    effect: UiEffect,
    post: UiState,
) -> bool {
    if pre.interaction_step is Some {
        page_key(pre, key, effect, post)
    } else if key == KeyCode::Esc && (pre.agent_status == AgentStatus::Working || pre.agent_status
        == AgentStatus::Thinking) {
        effect == UiEffect::Request(UiToRuntimeEvent::CancelRun) && post == pre
    } else if pre.active_pause() is Some {
        pause_key(pre, pre.active_pause()->0, key, effect, post)
    } else if pre.autocomplete.visible {
        command_key(pre, key, modifiers, is_file, effect, post)
    } else if pre.mention_autocomplete.visible {
        effect == UiEffect::Nothing && mention_key(pre, key, modifiers, is_file, post)
    } else {
        plain_key(pre, key, modifiers, is_file, now, effect, post)
    }
}

/// Takes a key. `is_file` says whether there is a file at the path that `path_to_probe` gives
/// for the key, and `now` is the time in milliseconds.
pub fn on_key(
    s: &mut UiState,
    key: KeyCode,
    modifiers: KeyModifiers,
    is_file: bool,
    now: u64,
) -> (r: UiEffect)
    requires
        keys_ready(*old(s)),
        page_takes(*old(s), key),
    ensures
        key_handled(*old(s), key, modifiers, is_file, now, r, *final(s)),
{
    if s.interaction_step.is_some() {
        return on_page_key(s, key);
    }
    if key == KeyCode::Esc && (s.agent_status == AgentStatus::Working || s.agent_status
        == AgentStatus::Thinking) {
        return UiEffect::Request(UiToRuntimeEvent::CancelRun);
    }
    if s.active_tool_pause().is_some() {
        return on_pause_key(s, key);
    }
    if s.autocomplete.visible {
        return on_command_key(s, key, modifiers, is_file);
    }
    if s.mention_autocomplete.visible {
        on_mention_key(s, key, modifiers, is_file);
        return UiEffect::Nothing;
    }
    on_plain_key(s, key, modifiers, is_file, now)
}

/// The path at which it has to be seen whether there is a file, before a key is taken: that of
/// the image a typed quote completes, or that of the mention to be inserted.
pub fn path_to_probe(s: &UiState, key: KeyCode) -> (r: Option<String>)
    requires
        keys_ready(*s),
    ensures
        match key {
            KeyCode::Char(c) => json::opt_view(r) == (match paste::quoted_image(
                edit::replaced(s.input@, s.cursor_char as int, s.cursor_char as int, seq![c]),
                s.cursor_char + 1,
                c,
            ) {
                Some((_, path)) if c == '\'' || c == '"' => Some(path),
                _ => None,
            }),
            KeyCode::Enter | KeyCode::Tab | KeyCode::Right => json::opt_view(r) == (
            if s.mention_autocomplete.visible {
                match paste::chosen(*s) {
                    Some(c) => paste::candidate_image(*s, c),
                    None => None,
                }
            } else {
                None
            }),
            _ => r is None,
        },
{
    match key {
        KeyCode::Char(c) => s.typed_image_path(c),
        KeyCode::Enter | KeyCode::Tab | KeyCode::Right => {
            if s.mention_autocomplete.visible {
                s.selected_image_path()
            } else {
                None
            }
        },
        _ => None,
    }
}

/// What pasting does: nothing on a page for a choice or while a tool waits.
pub open spec fn paste_handled(pre: UiState, pasted: Seq<char>, is_file: bool, post: UiState) -> bool {
    if pre.interaction_step is Some || pre.active_pause() is Some {
        post == pre
    } else {
        exists|mid: UiState|
            paste::text_pasted(pre, pasted, is_file, mid) && #[trigger] paste::offers_updated(
                mid,
                post,
            )
    }
}

/// Takes pasted text. `is_file` says whether there is a file at the path that the text is.
pub fn on_paste(s: &mut UiState, pasted: String, is_file: bool)
    requires
        paste::room(*old(s), pasted@.len() as int),
    ensures
        paste_handled(*old(s), pasted@, is_file, *final(s)),
{
    if s.interaction_step.is_some() || s.active_tool_pause().is_some() {
        return;
    }
    s.insert_paste(pasted, is_file);
    let ghost mid = *s;
    s.update_input_autocomplete();
    assert(paste::offers_updated(mid, *s));
}

// The mouse.

/// What the mouse does at a cell of the screen.
#[derive(Debug, Clone, Copy, PartialEq, Eq, Structural)]
pub enum MouseAction {
    Down,
    Drag,
    Up,
    ScrollUp,
    ScrollDown,
    Other,
}

/// The selection ends at a cell: its text goes to the clipboard.
pub open spec fn selection_ended(
    pre: UiState,
    row: int,
    column: int,
    effect: UiEffect,
    post: UiState,
) -> bool {
    let drawn = selection::selection_drawn(pre, row, column);
    let chosen = match drawn.text_selection {
        Some(t) => selection::selection_text(
            text::views(drawn.selectable_message_lines@),
            t,
        ),
        None => None,
    };
    &&& post == (UiState { is_selecting_text: false, text_selection: None, ..drawn })
    &&& match chosen {
        Some(t) => effect matches UiEffect::Copy(c) && c@ == t,
        None => effect == UiEffect::Nothing,
    }
}

fn end_selection(s: &mut UiState, row: u16, column: u16) -> (r: UiEffect)
    ensures
        selection_ended(*old(s), row as int, column as int, r, *final(s)),
{
    selection::update_text_selection_from_mouse(s, row, column);
    s.is_selecting_text = false;
    let chosen = selection::selected_text(s);
    s.text_selection = None;
    match chosen {
        Some(t) => UiEffect::Copy(t),
        None => UiEffect::Nothing,
    }
}

/// What the mouse does while a tool waits: the two lowest rows of the drawer are its answers.
pub open spec fn drawer_clicked(
    pre: UiState,
    action: MouseAction,
    row: int,
    column: int,
    now: u64,
) -> UiState {
    let drawer = pre.permission_drawer_area;
    let bottom = selection::bottom_of(drawer);
    match action {
        MouseAction::Down => if !selection::inside(row, column, drawer) {
            pre
        } else if row == text::minus(bottom, 2) {
            UiState { permission_selected: 0, ..pre }
        } else if row == text::minus(bottom, 1) {
            UiState { permission_selected: 1, ..pre }
        } else {
            pre
        },
        MouseAction::ScrollUp => if selection::inside(
            row,
            column,
            pre.permission_drawer_body_area,
        ) {
            let mid = step_updated(pre, now);
            drawer_scrolled_up(mid, mid.scroll_step as int)
        } else {
            pre
        },
        MouseAction::ScrollDown => if selection::inside(
            row,
            column,
            pre.permission_drawer_body_area,
        ) {
            let mid = step_updated(pre, now);
            drawer_scrolled_down(mid, mid.scroll_step as int)
        } else {
            pre
        },
        _ => pre,
    }
}

fn click_drawer(s: &mut UiState, action: MouseAction, row: u16, column: u16, now: u64)
    requires
        old(s).scroll_step < usize::MAX,
    ensures
        *final(s) == drawer_clicked(*old(s), action, row as int, column as int, now),
{
    let drawer = s.permission_drawer_area;
    let body = s.permission_drawer_body_area;
    let bottom: u16 = drawer.y.saturating_add(drawer.height);
    match action {
        MouseAction::Down => {
            if selection::mouse_in_area(row, column, drawer) {
                if row == bottom.saturating_sub(2) {
                    s.permission_selected = 0;
                } else if row == bottom.saturating_sub(1) {
                    s.permission_selected = 1;
                }
            }
        },
        MouseAction::ScrollUp => {
            if selection::mouse_in_area(row, column, body) {
                s.update_scroll_step(now);
                let step: usize = s.scroll_step;
                s.permission_scroll_up(step);
            }
        },
        MouseAction::ScrollDown => {
            if selection::mouse_in_area(row, column, body) {
                s.update_scroll_step(now);
                let step: usize = s.scroll_step;
                s.permission_scroll_down(step);
            }
        },
        _ => {},
    }
}

/// What the mouse does.
pub open spec fn mouse_handled(
    pre: UiState,
    action: MouseAction,
    row: int,
    column: int,
    now: u64,
    effect: UiEffect,
    post: UiState,
) -> bool {
    if pre.is_selecting_text {
        match action {
            MouseAction::Up => selection_ended(pre, row, column, effect, post),
            MouseAction::Drag => effect == UiEffect::Nothing && post == selection::selection_drawn(
                pre,
                row,
                column,
            ),
            _ => effect == UiEffect::Nothing && post == pre,
        }
    } else if pre.active_pause() is Some {
        effect == UiEffect::Nothing && post == drawer_clicked(pre, action, row, column, now)
    } else {
        match action {
            MouseAction::Up => selection_ended(pre, row, column, effect, post),
            MouseAction::Down => effect == UiEffect::Nothing && post == (match selection::point_at(
                pre,
                row,
                column,
            ) {
                Some(p) => UiState {
                    text_selection: Some(TextSelection { start: p, end: p }),
                    is_selecting_text: true,
                    ..pre
                },
                None => pre,
            }),
            MouseAction::Drag => effect == UiEffect::Nothing && post == selection::selection_drawn(
                pre,
                row,
                column,
            ),
            MouseAction::ScrollUp => {
                let mid = step_updated(pre, now);
                effect == UiEffect::Nothing && post == scrolled_up(mid, mid.scroll_step as int)
            },
            MouseAction::ScrollDown => {
                let mid = step_updated(pre, now);
                effect == UiEffect::Nothing && post == scrolled_down(mid, mid.scroll_step as int)
            },
            MouseAction::Other => effect == UiEffect::Nothing && post == pre,
        }
    }
}

/// Takes what the mouse did; `now` is the time in milliseconds.
pub fn on_mouse(s: &mut UiState, action: MouseAction, row: u16, column: u16, now: u64) -> (r:
    UiEffect)
    requires
        old(s).scroll_step < usize::MAX,
    ensures
        mouse_handled(*old(s), action, row as int, column as int, now, r, *final(s)),
{
    if s.is_selecting_text {
        match action {
            MouseAction::Up => {
                return end_selection(s, row, column);
            },
            MouseAction::Drag => {
                selection::update_text_selection_from_mouse(s, row, column);
            },
            _ => {},
        }
        return UiEffect::Nothing;
    }
    if s.active_tool_pause().is_some() {
        click_drawer(s, action, row, column, now);
        return UiEffect::Nothing;
    }
    match action {
        MouseAction::Up => {
            return end_selection(s, row, column);
        },
        MouseAction::Down => {
            match selection::selection_point_from_mouse(s, row, column) {
                Some(p) => {
                    s.text_selection = Some(TextSelection { start: p, end: p });
                    s.is_selecting_text = true;
                },
                None => {},
            }
        },
        MouseAction::Drag => {
            selection::update_text_selection_from_mouse(s, row, column);
        },
        MouseAction::ScrollUp => {
            s.update_scroll_step(now);
            let step: usize = s.scroll_step;
            s.scroll_up(step);
        },
        MouseAction::ScrollDown => {
            s.update_scroll_step(now);
            let step: usize = s.scroll_step;
            s.scroll_down(step);
        },
        MouseAction::Other => {},
    }
    UiEffect::Nothing
}

// Events of the runtime.

/// The state with the page that a request of the runtime opens.
pub open spec fn page_opened(pre: UiState, event: RuntimeToUiEvent, post: UiState) -> bool {
    match event {
        RuntimeToUiEvent::InteractionRequest(req) => {
            &&& post == (UiState { interaction_step: post.interaction_step, ..pre })
            &&& post.interaction_step matches Some(step)
                && state::interaction::step_opened(req, pre.status_bar.thinking_effort, step)
        },
        _ => post == pre,
    }
}

/// What an event of the runtime does: the program ends, another session is shown, or the state
/// takes the event; when a run ends the inputs that waited are sent.
pub open spec fn runtime_event_handled(
    pre: UiState,
    event: RuntimeToUiEvent,
    effect: UiEffect,
    post: UiState,
) -> bool {
    exists|opened: UiState|
        {
            &&& #[trigger] page_opened(pre, event, opened)
            &&& match event {
                RuntimeToUiEvent::Shutdown => effect == UiEffect::Quit && post == opened,
                RuntimeToUiEvent::SessionChanged { session_id, messages, subagents } => effect
                    == UiEffect::Nothing && events::session_shown(
                    opened,
                    session_id,
                    messages@,
                    subagents@,
                    post,
                ),
                RuntimeToUiEvent::RunFinished => exists|
                    done: UiState,
                    request: Option<UiToRuntimeEvent>,
                |
                    {
                        &&& events::event_applied(opened, event, done)
                        &&& #[trigger] input::queue_flushed(done, request, post)
                        &&& effect == asking(request)
                    },
                _ => effect == UiEffect::Nothing && events::event_applied(opened, event, post),
            }
        }
}

/// Takes an event of the runtime, whether it came by itself or was waiting when the clock ticked.
pub fn on_runtime_event(s: &mut UiState, event: RuntimeToUiEvent) -> (r: UiEffect)
    requires
        draft::drafts_fit(old(s).queued_user_inputs@),
    ensures
        runtime_event_handled(*old(s), event, r, *final(s)),
{
    let ghost pre = *s;
    match &event {
        RuntimeToUiEvent::InteractionRequest(req) => s.open_interaction_request(req),
        _ => {},
    }
    let ghost opened = *s;
    assert(page_opened(pre, event, opened));
    match event {
        RuntimeToUiEvent::Shutdown => UiEffect::Quit,
        RuntimeToUiEvent::SessionChanged { session_id, messages, subagents } => {
            s.apply_session_changed(session_id, messages, subagents);
            UiEffect::Nothing
        },
        RuntimeToUiEvent::RunFinished => {
            s.apply_event(RuntimeToUiEvent::RunFinished);
            let ghost done = *s;
            let request = input::flush_queued_user_inputs(s);
            assert(input::queue_flushed(done, request, *s));
            ask(request)
        },
        other => {
            s.apply_event(other);
            UiEffect::Nothing
        },
    }
}

/// Whenever a request of the runtime comes, the page for it is there with it.
pub proof fn law_request_has_its_page(
    pre: UiState,
    req: InteractionRequest,
    effect: UiEffect,
    post: UiState,
)
    requires
        runtime_event_handled(pre, RuntimeToUiEvent::InteractionRequest(req), effect, post),
    ensures
        post.interaction_request == Some(req),
        post.interaction_step matches Some(step) && state::interaction::step_opened(
            req,
            pre.status_bar.thinking_effort,
            step,
        ),
{
}

/// What the tick of the clock does: the messages stay at the bottom where they follow the news.
pub fn on_tick(s: &mut UiState)
    ensures
        *final(s) == (if old(s).auto_scroll {
            UiState { scroll_offset: 0, ..*old(s) }
        } else {
            *old(s)
        }),
{
    if s.auto_scroll {
        s.scroll_offset = 0;
    }
}

/// On a page for a choice no key changes what is typed, what is shown, or whether a run is under
/// way.
pub proof fn law_choices_leave_the_input_alone(
    pre: UiState,
    key: KeyCode,
    modifiers: KeyModifiers,
    is_file: bool,
    now: u64,
    effect: UiEffect,
    post: UiState,
)
    requires
        key_handled(pre, key, modifiers, is_file, now, effect, post),
        pre.interaction_step is Some,
    ensures
        post.input == pre.input,
        post.cursor_char == pre.cursor_char,
        post.messages == pre.messages,
        post.agent_status == pre.agent_status,
{
}

/// Only Control and C leave the program, and only with an empty input.
pub proof fn law_quit_only_when_nothing_is_typed(
    pre: UiState,
    key: KeyCode,
    modifiers: KeyModifiers,
    is_file: bool,
    now: u64,
    post: UiState,
)
    requires
        key_handled(pre, key, modifiers, is_file, now, UiEffect::Quit, post),
    ensures
        pre.input@.len() == 0,
        post == pre,
        (key == KeyCode::Char('c') && modifiers.only_control()) || key == KeyCode::Char('\x03'),
{
}

/// While a run is under way Enter never starts another: what is typed waits, or is a command.
pub proof fn law_running_run_is_not_joined(
    pre: UiState,
    modifiers: KeyModifiers,
    is_file: bool,
    now: u64,
    effect: UiEffect,
    post: UiState,
)
    requires
        plain_key(pre, KeyCode::Enter, modifiers, is_file, now, effect, post),
        pre.agent_status != AgentStatus::Idle,
    ensures
        !(effect matches UiEffect::Request(UiToRuntimeEvent::SendMessage(_))),
        post.messages == pre.messages,
        post.agent_status == pre.agent_status,
{
    if input::intervention_key(KeyCode::Enter, modifiers) {
        let request = choose|request: Option<UiToRuntimeEvent>|
            #[trigger] input::intervened(pre, request, post) && effect == asking(request);
        assert(input::intervened(pre, request, post));
    } else if input::newline_key(KeyCode::Enter, modifiers) {
        let mid = choose|mid: UiState|
            edit::text_inserted(pre, "\n"@, mid) && #[trigger] paste::offers_updated(mid, post);
        assert(paste::offers_updated(mid, post));
    }
}

} // verus!
