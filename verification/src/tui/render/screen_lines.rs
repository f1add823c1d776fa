//! The lines of the panels, as text that can be selected.
use crate::tui::line;
use crate::tui::line::Line;
use crate::tui::line::LineView;
use crate::tui::render::messages;
use crate::tui::state::Rect;
use crate::tui::state::UiState;
use vstd::prelude::*;

verus! {

/// A line on the screen that can be selected: where it stands, and its text.
#[derive(Debug, PartialEq, Eq)]
pub struct SelectableLine {
    pub row: u16,
    pub column: u16,
    pub width: u16,
    pub text: String,
}

#[verifier::ext_equal]
pub struct SelectableView {
    pub row: int,
    pub column: int,
    pub width: int,
    pub text: Seq<char>,
}

impl View for SelectableLine {
    type V = SelectableView;

    open spec fn view(&self) -> SelectableView {
        SelectableView {
            row: self.row as int,
            column: self.column as int,
            width: self.width as int,
            text: self.text@,
        }
    }
}

pub open spec fn selectable_view(lines: Seq<SelectableLine>) -> Seq<SelectableView> {
    Seq::new(lines.len(), |i: int| lines[i]@)
}

/// The selectable lines of a panel in `area`: one below the other, as wide as the area.
pub open spec fn registered(lines: Seq<LineView>, area: Rect) -> Seq<SelectableView> {
    Seq::new(
        lines.len(),
        |i: int|
            SelectableView {
                row: area.y + i,
                column: area.x as int,
                width: area.width as int,
                text: line::text_of(lines[i].spans),
            },
    )
}

/// The lines with the selected columns of each made visible.
pub open spec fn with_marks(lines: Seq<LineView>, selected: Seq<Option<(usize, usize)>>) -> Seq<
    LineView,
> {
    Seq::new(
        lines.len(),
        |i: int|
            match selected[i] {
                Some(p) => LineView {
                    spans: messages::marked(
                        line::text_of(lines[i].spans),
                        p.0 as int,
                        p.1 as int,
                    ),
                    bg: None,
                },
                None => lines[i],
            },
    )
}

fn register_lines(registry: &mut Vec<SelectableLine>, area: Rect, lines: &Vec<Line>)
    requires
        area.y + lines@.len() <= u16::MAX + 1,
    ensures
        selectable_view(final(registry)@) == selectable_view(old(registry)@) + registered(
            line::lines_view(lines@),
            area,
        ),
{
    let ghost before = selectable_view(registry@);
    let ghost goal = registered(line::lines_view(lines@), area);
    let mut i: usize = 0;
    assert(selectable_view(registry@) =~= before + goal.take(0));
    while i < lines.len()
        invariant
            i <= lines@.len(),
            area.y + lines@.len() <= u16::MAX + 1,
            goal == registered(line::lines_view(lines@), area),
            selectable_view(registry@) == before + goal.take(i as int),
        decreases lines@.len() - i,
    {
        let entry = SelectableLine {
            row: area.y + i as u16,
            column: area.x,
            width: area.width,
            text: line::line_to_plain_text(&lines[i]),
        };
        let ghost so_far = selectable_view(registry@);
        assert(line::lines_view(lines@)[i as int] == lines@[i as int]@);
        assert(entry@ == goal[i as int]);
        registry.push(entry);
        assert(selectable_view(registry@) =~= so_far.push(goal[i as int]));
        i = i + 1;
        assert(goal.take(i as int) =~= goal.take(i - 1).push(goal[i - 1]));
        assert(selectable_view(registry@) =~= before + goal.take(i as int));
    }
    assert(goal.take(goal.len() as int) =~= goal);
}

/// Notes the lines of a panel as text that can be selected, and makes visible what is selected
/// of them: `selected` has the selected columns of each line.
pub fn register_and_highlight_lines(
    registry: &mut Vec<SelectableLine>,
    area: Rect,
    lines: &mut Vec<Line>,
    selected: &Vec<Option<(usize, usize)>>,
)
    requires
        selected@.len() == old(lines)@.len(),
        area.y + old(lines)@.len() <= u16::MAX + 1,
    ensures
        selectable_view(final(registry)@) == selectable_view(old(registry)@) + registered(
            line::lines_view(old(lines)@),
            area,
        ),
        line::lines_view(final(lines)@) == with_marks(line::lines_view(old(lines)@), selected@),
{
    register_lines(registry, area, lines);
    let ghost all = line::lines_view(lines@);
    let ghost goal = with_marks(all, selected@);
    let n: usize = lines.len();
    let mut i: usize = 0;
    while i < n
        invariant
            i <= n == lines@.len(),
            n == all.len() == selected@.len(),
            goal == with_marks(all, selected@),
            forall|k: int|
                0 <= k < n ==> #[trigger] lines@[k]@ == (if k < i {
                    goal[k]
                } else {
                    all[k]
                }),
        decreases n - i,
    {
        let ghost before = lines@;
        assert(lines@[i as int]@ == all[i as int]);
        if let Some(p) = selected[i] {
            let s = line::line_to_plain_text(&lines[i]);
            let marked = messages::highlighted_line(s.as_str(), p.0, p.1, None);
            lines.set(i, marked);
        }
        assert(lines@[i as int]@ == goal[i as int]);
        i = i + 1;
        assert forall|k: int| 0 <= k < n implies #[trigger] lines@[k]@ == (if k < i {
            goal[k]
        } else {
            all[k]
        }) by {
            assert(k != i - 1 ==> lines@[k] == before[k]);
        }
    }
    assert(line::lines_view(lines@) =~= goal);
}

/// The columns that are selected of a line in row `row` of the screen: those of the line of the
/// messages that stands in that row.
pub open spec fn screen_columns(s: UiState, row: int, line: Seq<char>) -> Option<(int, int)> {
    if s.messages_area.y <= row < s.messages_area.y + s.messages_area.height {
        messages::selected_columns(
            s.text_selection,
            s.message_scroll_y + row - s.messages_area.y,
            line,
        )
    } else {
        None
    }
}

pub fn selected_cols_for_screen_line(state: &UiState, row: u16, line: &str) -> (r: Option<
    (usize, usize),
>)
    ensures
        match r {
            Some(p) => screen_columns(*state, row as int, line@) == Some((p.0 as int, p.1 as int)),
            None => screen_columns(*state, row as int, line@) is None,
        },
{
    let area = state.messages_area;
    if row < area.y || row - area.y >= area.height {
        return None;
    }
    match state.message_scroll_y.checked_add((row - area.y) as usize) {
        Some(at) => messages::selected_cols_for_line(state.text_selection, at, line),
        None => None,
    }
}

/// Whether `selected` has the selected columns of each line of a panel in `area`.
pub open spec fn selected_of(
    s: UiState,
    area: Rect,
    lines: Seq<LineView>,
    selected: Seq<Option<(usize, usize)>>,
) -> bool {
    &&& selected.len() == lines.len()
    &&& forall|i: int|
        0 <= i < lines.len() ==> match #[trigger] selected[i] {
            Some(p) => screen_columns(s, area.y + i, line::text_of(lines[i].spans)) == Some(
                (p.0 as int, p.1 as int),
            ),
            None => screen_columns(s, area.y + i, line::text_of(lines[i].spans)) is None,
        }
}

/// Notes the lines of a panel as text that can be selected, and makes visible what the selection
/// in `state` covers of them.
pub fn register_panel(
    state: &UiState,
    registry: &mut Vec<SelectableLine>,
    area: Rect,
    lines: &mut Vec<Line>,
)
    requires
        area.y + old(lines)@.len() <= u16::MAX + 1,
    ensures
        selectable_view(final(registry)@) == selectable_view(old(registry)@) + registered(
            line::lines_view(old(lines)@),
            area,
        ),
        exists|selected: Seq<Option<(usize, usize)>>|
            selected_of(*state, area, line::lines_view(old(lines)@), selected) && line::lines_view(
                final(lines)@,
            ) == #[trigger] with_marks(line::lines_view(old(lines)@), selected),
{
    let ghost all = line::lines_view(lines@);
    let mut selected: Vec<Option<(usize, usize)>> = Vec::new();
    let mut i: usize = 0;
    while i < lines.len()
        invariant
            i <= lines@.len(),
            all == line::lines_view(lines@),
            area.y + lines@.len() <= u16::MAX + 1,
            selected@.len() == i,
            forall|k: int|
                0 <= k < i ==> match #[trigger] selected@[k] {
                    Some(p) => screen_columns(*state, area.y + k, line::text_of(all[k].spans))
                        == Some((p.0 as int, p.1 as int)),
                    None => screen_columns(*state, area.y + k, line::text_of(all[k].spans)) is None,
                },
        decreases lines@.len() - i,
    {
        let s = line::line_to_plain_text(&lines[i]);
        assert(all[i as int] == lines@[i as int]@);
        selected.push(selected_cols_for_screen_line(state, area.y + i as u16, s.as_str()));
        i = i + 1;
    }
    assert(selected_of(*state, area, all, selected@));
    register_and_highlight_lines(registry, area, lines, &selected);
}

} // verus!
