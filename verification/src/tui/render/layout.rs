//! The areas that the parts of a page stand in, one below the other.
use crate::tui::state::Rect;
use vstd::prelude::*;

verus! {

/// How many rows a part of the page takes: so many, or at least so many.
#[derive(Debug, Clone, Copy, PartialEq, Eq, Structural)]
pub enum RowSize {
    Length(u16),
    Min(u16),
}

/// Whether `part` reaches from side to side of `area`.
pub open spec fn spans(part: Rect, area: Rect) -> bool {
    part.x == area.x && part.width == area.width
}

/// Whether `part` lies inside `area` and reaches from side to side of it.
pub open spec fn inside(part: Rect, area: Rect) -> bool {
    &&& spans(part, area)
    &&& area.y <= part.y
    &&& part.y + part.height <= area.y + area.height
}

/// The rows from `y` on, `height` of them, from side to side of `area`.
pub open spec fn band(area: Rect, y: int, height: int) -> Rect {
    Rect { x: area.x, y: y as u16, width: area.width, height: height as u16 }
}

/// The rows that a size asks for.
pub open spec fn asked(size: RowSize) -> int {
    match size {
        RowSize::Length(n) => n as int,
        RowSize::Min(n) => n as int,
    }
}

/// The rows that the first `n` sizes ask for.
pub open spec fn asked_by(sizes: Seq<RowSize>, n: int) -> int
    decreases n,
{
    if n <= 0 {
        0
    } else {
        asked_by(sizes, n - 1) + asked(sizes[n - 1])
    }
}

/// Whether `area` has the rows for all sizes, and at most one size takes more than it asks for.
pub open spec fn suffices(area: Rect, sizes: Seq<RowSize>) -> bool {
    &&& asked_by(sizes, sizes.len() as int) <= area.height
    &&& area.y + area.height <= u16::MAX
    &&& forall|i: int, j: int|
        0 <= i < j < sizes.len() && #[trigger] sizes[i] is Min ==> #[trigger] sizes[j] is Length
}

/// The rows that a part gets where there are enough: those that a length asks for, and all that
/// are left for the one size with a lower bound.
pub open spec fn height_of(area: Rect, sizes: Seq<RowSize>, i: int) -> int {
    match sizes[i] {
        RowSize::Length(n) => n as int,
        RowSize::Min(n) => area.height - asked_by(sizes, sizes.len() as int) + n,
    }
}

/// The rows above part `n`.
pub open spec fn rows_above(area: Rect, sizes: Seq<RowSize>, n: int) -> int
    decreases n,
{
    if n <= 0 {
        0
    } else {
        rows_above(area, sizes, n - 1) + height_of(area, sizes, n - 1)
    }
}

/// The parts of `area`, one right below the other from its first row on.
pub open spec fn stacked(area: Rect, sizes: Seq<RowSize>) -> Seq<Rect> {
    Seq::new(
        sizes.len(),
        |i: int|
            band(area, area.y + rows_above(area, sizes, i), height_of(area, sizes, i)),
    )
}

/// Calls `ratatui::layout::Layout::vertical` and its `split`: an area for each size, in order,
/// each as wide as the whole and inside it. Where the rows suffice each length gets the rows that
/// it asks for, the one lower bound all that the lengths leave, and the areas stand one right
/// below the other from the first row on. Which of the sizes gives way where the rows do not
/// suffice is left to the solver of that crate; nothing more is claimed of it there.
#[verifier::external_body]
fn split_rows(area: Rect, sizes: &Vec<RowSize>) -> (r: Vec<Rect>)
    ensures
        r@.len() == sizes@.len(),
        forall|i: int| 0 <= i < r@.len() ==> inside(#[trigger] r@[i], area),
        suffices(area, sizes@) ==> r@ == stacked(area, sizes@),
{
    let constraints = sizes.iter().map(|size| match size {
        RowSize::Length(n) => ratatui::layout::Constraint::Length(*n),
        RowSize::Min(n) => ratatui::layout::Constraint::Min(*n),
    });
    let whole = ratatui::layout::Rect { x: area.x, y: area.y, width: area.width, height: area.height };
    let parts = ratatui::layout::Layout::vertical(constraints).split(whole);
    parts.iter().map(|p| Rect { x: p.x, y: p.y, width: p.width, height: p.height }).collect()
}

/// The parts of the page with the messages.
#[derive(Debug, Clone, Copy, PartialEq, Eq, Structural)]
pub struct ScreenRows {
    pub header: Rect,
    pub messages: Rect,
    pub gap: Rect,
    pub input: Rect,
    pub footer: Rect,
}

/// The page with the messages where there are rows for all its parts.
pub open spec fn screen_bands(area: Rect, input_height: int) -> ScreenRows {
    let end = area.y + area.height;
    ScreenRows {
        header: band(area, area.y as int, 1),
        messages: band(area, area.y + 1, area.height - input_height - 3),
        gap: band(area, end - input_height - 2, 1),
        input: band(area, end - input_height - 1, input_height),
        footer: band(area, end - 1, 1),
    }
}

/// The page with the messages: all rows that the other parts leave are for the messages.
pub fn screen_rows(area: Rect, input_height: u16) -> (r: ScreenRows)
    ensures
        inside(r.header, area) && inside(r.messages, area) && inside(r.gap, area) && inside(
            r.input,
            area,
        ) && inside(r.footer, area),
        input_height + 4 <= area.height && area.y + area.height <= u16::MAX ==> r == screen_bands(
            area,
            input_height as int,
        ),
{
    let mut sizes: Vec<RowSize> = Vec::new();
    sizes.push(RowSize::Length(1));
    sizes.push(RowSize::Min(1));
    sizes.push(RowSize::Length(1));
    sizes.push(RowSize::Length(input_height));
    sizes.push(RowSize::Length(1));
    proof {
        reveal_with_fuel(asked_by, 6);
        reveal_with_fuel(rows_above, 6);
    }
    let parts = split_rows(area, &sizes);
    ScreenRows {
        header: parts[0],
        messages: parts[1],
        gap: parts[2],
        input: parts[3],
        footer: parts[4],
    }
}

/// The parts of the page that lists the sessions.
#[derive(Debug, Clone, Copy, PartialEq, Eq, Structural)]
pub struct SessionRows {
    pub header: Rect,
    pub content: Rect,
    pub divider: Rect,
    pub footer: Rect,
}

/// The page that lists the sessions where there are rows for all its parts.
pub open spec fn session_bands(area: Rect) -> SessionRows {
    let end = area.y + area.height;
    SessionRows {
        header: band(area, area.y as int, 2),
        content: band(area, area.y + 2, area.height - 4),
        divider: band(area, end - 2, 1),
        footer: band(area, end - 1, 1),
    }
}

/// The page that lists the sessions: all rows that the other parts leave are for the list.
pub fn session_rows(area: Rect) -> (r: SessionRows)
    ensures
        inside(r.header, area) && inside(r.content, area) && inside(r.divider, area) && inside(
            r.footer,
            area,
        ),
        5 <= area.height && area.y + area.height <= u16::MAX ==> r == session_bands(area),
{
    let mut sizes: Vec<RowSize> = Vec::new();
    sizes.push(RowSize::Length(2));
    sizes.push(RowSize::Min(1));
    sizes.push(RowSize::Length(1));
    sizes.push(RowSize::Length(1));
    proof {
        reveal_with_fuel(asked_by, 6);
        reveal_with_fuel(rows_above, 6);
    }
    let parts = split_rows(area, &sizes);
    SessionRows { header: parts[0], content: parts[1], divider: parts[2], footer: parts[3] }
}

/// The parts of the list of waiting messages.
#[derive(Debug, Clone, Copy, PartialEq, Eq, Structural)]
pub struct QueueRows {
    pub title: Rect,
    pub lines: Rect,
    pub footer: Rect,
}

/// The list of waiting messages in `area`.
pub fn queue_rows(area: Rect) -> (r: QueueRows)
    ensures
        inside(r.title, area) && inside(r.lines, area) && inside(r.footer, area),
        3 <= area.height && area.y + area.height <= u16::MAX ==> r == (QueueRows {
            title: band(area, area.y as int, 1),
            lines: band(area, area.y + 1, area.height - 2),
            footer: band(area, area.y + area.height - 1, 1),
        }),
{
    let mut sizes: Vec<RowSize> = Vec::new();
    sizes.push(RowSize::Length(1));
    sizes.push(RowSize::Min(1));
    sizes.push(RowSize::Length(1));
    proof {
        reveal_with_fuel(asked_by, 6);
        reveal_with_fuel(rows_above, 6);
    }
    let parts = split_rows(area, &sizes);
    QueueRows { title: parts[0], lines: parts[1], footer: parts[2] }
}

/// The parts of the input.
#[derive(Debug, Clone, Copy, PartialEq, Eq, Structural)]
pub struct InputRows {
    /// Where the waiting messages stand, where there are any.
    pub queue: Option<Rect>,
    /// The line that is typed on, with a row above and a row below.
    pub line: Rect,
}

/// The input in `area`, below `queued_height` rows of waiting messages.
pub fn input_rows(area: Rect, queued_height: u16) -> (r: InputRows)
    ensures
        inside(r.line, area),
        r.queue is Some <==> queued_height > 0,
        r.queue matches Some(q) ==> inside(q, area),
        queued_height + 3 <= area.height && area.y + area.height <= u16::MAX ==> r == (InputRows {
            queue: if queued_height > 0 {
                Some(band(area, area.y as int, queued_height as int))
            } else {
                None
            },
            line: band(area, area.y + queued_height + 1, 1),
        }),
{
    proof {
        reveal_with_fuel(asked_by, 4);
        reveal_with_fuel(rows_above, 4);
    }
    let mut queue: Option<Rect> = None;
    let mut rest = area;
    if queued_height > 0 {
        let mut sizes: Vec<RowSize> = Vec::new();
        sizes.push(RowSize::Length(queued_height));
        sizes.push(RowSize::Length(3));
        let parts = split_rows(area, &sizes);
        queue = Some(parts[0]);
        rest = parts[1];
    }
    let mut sizes: Vec<RowSize> = Vec::new();
    sizes.push(RowSize::Length(1));
    sizes.push(RowSize::Length(1));
    sizes.push(RowSize::Length(1));
    let parts = split_rows(rest, &sizes);
    InputRows { queue, line: parts[1] }
}

} // verus!
