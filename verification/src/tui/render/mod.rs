//! Drawing the user interface: what stands on which line, and where.
pub mod agents;
pub mod editor;
pub mod input;
pub mod labels;
pub mod layout;
pub mod messages;
pub mod model_panel;
pub mod permission;
pub mod screen_lines;
pub mod sessions;
pub mod status;
pub mod styled;
pub mod subagent;

use crate::tui::render::layout::ScreenRows;
use crate::tui::render::layout::SessionRows;
use crate::tui::state::edit;
use crate::tui::state::interaction::InteractionStep;
use crate::tui::state::Rect;
use crate::tui::state::UiState;
use vstd::prelude::*;

verus! {

/// Which parts of the screen are drawn.
#[derive(Debug, Clone, Copy, PartialEq, Eq, Structural)]
pub struct ScreenPlan {
    /// The list of sessions takes the whole screen.
    pub sessions: bool,
    /// The rows of the input and of what waits above it.
    pub input_height: u16,
    /// The input is drawn: nothing else waits for the user.
    pub input: bool,
    /// A choice lies over the messages.
    pub interaction: bool,
}

pub open spec fn screen_plan(s: UiState) -> ScreenPlan {
    ScreenPlan {
        sessions: s.interaction_step matches Some(InteractionStep::Session {
            sessions,
            all_sessions,
            search,
            selected,
        }),
        input_height: (2 + edit::shown_lines(s.shown_input().len() as int) + input::queue_rows(
            input::waiting(s).len() as int,
        )) as u16,
        input: s.interaction_step is None && s.active_pause() is None,
        interaction: s.interaction_request is Some,
    }
}

/// The input is never drawn behind a choice or a tool that waits for the user.
pub proof fn law_input_is_drawn_alone(s: UiState)
    ensures
        screen_plan(s).input ==> !screen_plan(s).sessions && s.active_pause() is None,
{
}

/// The rows that are planned for the input suffice for the messages that wait and for the line
/// that is typed on.
pub proof fn law_input_has_its_rows(s: UiState)
    ensures
        screen_plan(s).input_height >= input::queue_rows(input::waiting(s).len() as int) + 3,
{
}

pub fn plan_screen(state: &UiState) -> (r: ScreenPlan)
    ensures
        r == screen_plan(*state),
{
    let rows: u16 = state.input_visible_line_count() as u16;
    let sessions = match &state.interaction_step {
        Some(InteractionStep::Session { .. }) => true,
        _ => false,
    };
    ScreenPlan {
        sessions,
        input_height: 2 + rows + input::queued_height(state),
        input: state.interaction_step.is_none() && state.active_tool_pause().is_none(),
        interaction: state.interaction_request.is_some(),
    }
}

/// The parts of the screen, and which of them are drawn.
#[derive(Debug, Clone, Copy, PartialEq, Eq, Structural)]
pub enum Screen {
    Sessions(SessionRows),
    Messages(ScreenPlan, ScreenRows),
}

/// The state once the screen of the messages has been laid out in `area`: the input is broken
/// for its width, and the messages know where they stand.
pub open spec fn laid_out(pre: UiState, area: Rect, rows: ScreenRows, post: UiState) -> bool {
    exists|mid: UiState| #[trigger]
        edit::wrap_width_set(pre, area.width as int, mid) && post == (UiState {
            messages_area: rows.messages,
            ..mid
        })
}

/// Lays the screen out in `area`. The list of sessions leaves the state as it is.
pub fn render(state: &mut UiState, area: Rect) -> (r: Screen)
    ensures
        match r {
            Screen::Sessions(rows) => {
                &&& screen_plan(*old(state)).sessions
                &&& *final(state) == *old(state)
                &&& layout::inside(rows.content, area)
                &&& area.height >= 5 && area.y + area.height <= u16::MAX ==> rows
                    == layout::session_bands(area)
            },
            Screen::Messages(plan, rows) => {
                &&& !screen_plan(*old(state)).sessions
                &&& laid_out(*old(state), area, rows, *final(state))
                &&& plan == screen_plan(*final(state))
                &&& layout::inside(rows.messages, area)
                &&& layout::inside(rows.input, area)
                &&& plan.input_height + 4 <= area.height && area.y + area.height <= u16::MAX ==> rows
                    == layout::screen_bands(area, plan.input_height as int)
            },
        },
{
    if let Some(InteractionStep::Session { .. }) = &state.interaction_step {
        return Screen::Sessions(layout::session_rows(area));
    }
    state.set_input_wrap_width(area.width as usize);
    let ghost mid = *state;
    let plan = plan_screen(state);
    let rows = layout::screen_rows(area, plan.input_height);
    state.messages_area = rows.messages;
    assert(edit::wrap_width_set(*old(state), area.width as int, mid));
    assert(plan == screen_plan(*state));
    Screen::Messages(plan, rows)
}

} // verus!
