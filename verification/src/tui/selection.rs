//! Selecting text of the messages with the mouse.
use crate::text;
use crate::tui::state::Rect;
use crate::tui::state::SelectionPoint;
use crate::tui::state::TextSelection;
use crate::tui::state::UiState;
use crate::width;
use vstd::prelude::*;

verus! {

/// The column behind the last one of `area`, and the row below it, are capped.
pub open spec fn right_of(area: Rect) -> int {
    text::min_int(area.x + area.width, u16::MAX as int)
}

pub open spec fn bottom_of(area: Rect) -> int {
    text::min_int(area.y + area.height, u16::MAX as int)
}

/// Whether a cell is in `area`.
pub open spec fn inside(row: int, column: int, area: Rect) -> bool {
    area.y <= row < bottom_of(area) && area.x <= column < right_of(area)
}

pub fn mouse_in_area(row: u16, column: u16, area: Rect) -> (r: bool)
    ensures
        r == inside(row as int, column as int, area),
{
    let bottom: u16 = area.y.saturating_add(area.height);
    let right: u16 = area.x.saturating_add(area.width);
    row >= area.y && row < bottom && column >= area.x && column < right
}

/// The place in the messages that a cell of the screen shows.
pub open spec fn point_at(s: UiState, row: int, column: int) -> Option<SelectionPoint> {
    let line = text::min_int(
        s.message_scroll_y + text::minus(row, s.messages_area.y as int),
        usize::MAX as int,
    );
    if s.selectable_message_lines@.len() == 0 || !inside(row, column, s.messages_area) || line
        >= s.selectable_message_lines@.len() {
        None
    } else {
        Some(
            SelectionPoint {
                row: line as usize,
                col: text::minus(column, s.messages_area.x as int) as usize,
            },
        )
    }
}

pub fn selection_point_from_mouse(state: &UiState, row: u16, column: u16) -> (r: Option<
    SelectionPoint,
>)
    ensures
        r == point_at(*state, row as int, column as int),
{
    if state.selectable_message_lines.len() == 0 || !mouse_in_area(
        row,
        column,
        state.messages_area,
    ) {
        return None;
    }
    let down: usize = row.saturating_sub(state.messages_area.y) as usize;
    let line: usize = state.message_scroll_y.saturating_add(down);
    if line >= state.selectable_message_lines.len() {
        return None;
    }
    let col: usize = column.saturating_sub(state.messages_area.x) as usize;
    Some(SelectionPoint { row: line, col })
}

/// The selection drawn to a cell: its end moves there, where the cell shows a place.
pub open spec fn selection_drawn(pre: UiState, row: int, column: int) -> UiState {
    match (point_at(pre, row, column), pre.text_selection) {
        (Some(point), Some(selection)) => UiState {
            text_selection: Some(TextSelection { start: selection.start, end: point }),
            ..pre
        },
        _ => pre,
    }
}

pub fn update_text_selection_from_mouse(state: &mut UiState, row: u16, column: u16)
    ensures
        *final(state) == selection_drawn(*old(state), row as int, column as int),
{
    match selection_point_from_mouse(state, row, column) {
        None => {},
        Some(point) => match state.text_selection {
            Some(selection) => {
                state.text_selection = Some(TextSelection { start: selection.start, end: point });
            },
            None => {},
        },
    }
}

/// Whether `a` comes before `b` or is the same place.
pub open spec fn not_after(a: SelectionPoint, b: SelectionPoint) -> bool {
    a.row < b.row || (a.row == b.row && a.col <= b.col)
}

/// The characters of `s` that take up any of the columns from `from` up to `to`.
pub open spec fn sliced(s: Seq<char>, from: int, to: int) -> Seq<char>
    decreases s.len(),
{
    if s.len() == 0 {
        Seq::empty()
    } else {
        let done = sliced(s.drop_last(), from, to);
        let start = width::columns(s.drop_last());
        let end = start + width::char_columns(s.last());
        if end > from && start < to {
            done.push(s.last())
        } else {
            done
        }
    }
}

/// The characters of `text` in the columns from `start_col` up to `end_col`.
pub fn slice_display_cols(text: &str, start_col: usize, end_col: usize) -> (r: String)
    ensures
        r@ == sliced(text@, start_col as int, end_col as int),
{
    let chars = text::chars_of(text);
    let mut out = String::new();
    let mut col: u128 = 0;
    let mut i: usize = 0;
    assert(text@.take(0) =~= Seq::empty());
    proof {
        width::lemma_columns_nonneg(text@);
    }
    let n: usize = chars.len();
    while i < n
        invariant
            chars@ == text@,
            n == text@.len(),
            i <= n,
            col == width::columns(text@.take(i as int)),
            col <= i * 3,
            out@ == sliced(text@.take(i as int), start_col as int, end_col as int),
        decreases text@.len() - i,
    {
        assert(text@.take(i + 1).drop_last() =~= text@.take(i as int));
        let w: usize = width::char_width(chars[i]);
        let next: u128 = col + w as u128;
        if next > start_col as u128 && col < end_col as u128 {
            out.push(chars[i]);
        }
        col = next;
        i = i + 1;
    }
    assert(text@.take(text@.len() as int) =~= text@);
    out
}

/// What is selected of the line `row`, when the selection goes from `start` to `end`.
pub open spec fn selected_part(
    lines: Seq<Seq<char>>,
    start: SelectionPoint,
    end: SelectionPoint,
    row: int,
) -> Seq<char> {
    let from = if row == start.row {
        start.col as int
    } else {
        0
    };
    let to = if row == end.row {
        text::min_int(end.col + 1, usize::MAX as int)
    } else {
        width::unicode_str_width(lines[row]) as int
    };
    text::trimmed_end(sliced(lines[row], from, to))
}

/// What is selected of the lines from `start.row` on, up to but without the line `row`.
pub open spec fn selected_parts(
    lines: Seq<Seq<char>>,
    start: SelectionPoint,
    end: SelectionPoint,
    row: int,
) -> Seq<Seq<char>>
    decreases row - start.row,
{
    if row <= start.row {
        Seq::empty()
    } else {
        selected_parts(lines, start, end, row - 1).push(selected_part(lines, start, end, row - 1))
    }
}

/// The selected text, with the lines joined; nothing where nothing but white space is selected
/// or a selected line is gone.
pub open spec fn selection_text(lines: Seq<Seq<char>>, selection: TextSelection) -> Option<
    Seq<char>,
> {
    if selection.start == selection.end {
        None
    } else {
        let (start, end) = if not_after(selection.start, selection.end) {
            (selection.start, selection.end)
        } else {
            (selection.end, selection.start)
        };
        if end.row >= lines.len() {
            None
        } else {
            let t = text::joined(selected_parts(lines, start, end, end.row + 1), "\n"@);
            if text::trimmed(t).len() == 0 {
                None
            } else {
                Some(t)
            }
        }
    }
}

pub fn selected_text(state: &UiState) -> (r: Option<String>)
    ensures
        crate::json::opt_view(r) == (match state.text_selection {
            Some(selection) => selection_text(
                text::views(state.selectable_message_lines@),
                selection,
            ),
            None => None,
        }),
{
    broadcast use text::lemma_views_push;

    let selection = match state.text_selection {
        Some(selection) => selection,
        None => {
            return None;
        },
    };
    let a = selection.start;
    let b = selection.end;
    if a.row == b.row && a.col == b.col {
        return None;
    }
    let forward = a.row < b.row || (a.row == b.row && a.col <= b.col);
    let (start, end) = if forward {
        (a, b)
    } else {
        (b, a)
    };
    let ghost lines = text::views(state.selectable_message_lines@);
    if end.row >= state.selectable_message_lines.len() {
        return None;
    }
    let mut parts: Vec<String> = Vec::new();
    let mut row: usize = start.row;
    assert(text::views(parts@) =~= Seq::empty());
    while row <= end.row
        invariant
            start.row <= row <= end.row + 1,
            end.row < state.selectable_message_lines@.len(),
            state.selectable_message_lines@.len() <= usize::MAX,
            lines == text::views(state.selectable_message_lines@),
            text::views(parts@) == selected_parts(lines, start, end, row as int),
        decreases end.row + 1 - row,
    {
        broadcast use text::lemma_views_push;

        let line = &state.selectable_message_lines[row];
        assert(lines[row as int] == line@);
        let from: usize = if row == start.row {
            start.col
        } else {
            0
        };
        let to: usize = if row == end.row {
            end.col.saturating_add(1)
        } else {
            width::str_width(line.as_str())
        };
        let cut = slice_display_cols(line.as_str(), from, to);
        parts.push(text::trim_end(cut.as_str()));
        row = row + 1;
    }
    let t = text::join(&parts, "\n");
    let bare = text::trim(t.as_str());
    if text::char_count(bare.as_str()) == 0 {
        None
    } else {
        Some(t)
    }
}

/// Selecting backwards selects the same as selecting forwards.
pub proof fn law_selection_has_no_direction(
    lines: Seq<Seq<char>>,
    a: SelectionPoint,
    b: SelectionPoint,
)
    ensures
        selection_text(lines, TextSelection { start: a, end: b }) == selection_text(
            lines,
            TextSelection { start: b, end: a },
        ),
{
}

} // verus!
