//! What a changed or written file looks like on the screen.
use crate::json;
use crate::json::Json;
use crate::json::JsonView;
use crate::text;
use crate::tui::line;
use crate::tui::line::Color;
use crate::tui::line::Line;
use crate::tui::line::LineView;
use crate::tui::line::Span;
use crate::tui::line::SpanView;
use crate::tui::widgets;
use crate::tui::widgets::wrap;
use crate::tui::widgets::wrap::word_wrap;
use crate::types::events::PermissionPreview;
use crate::types::events::ToolPauseKind;
use crate::types::events::ToolPauseRequest;
use crate::types::message::ToolResultBlock;
use crate::types::message::ToolResultView;
use crate::types::message::ToolUseBlock;
use crate::types::message::ToolUseView;
use crate::width;
use vstd::prelude::*;

verus! {

/// From how many unchanged lines in a row on they are left out.
pub const MIN_CONTEXT_LINES_TO_COLLAPSE: usize = 4;

/// What the request to allow a change says of it.
#[verifier::ext_equal]
pub enum PreviewView {
    /// The lines at which the replaced text starts.
    Edit(Seq<u64>),
    /// A summary, and how many lines are written.
    Write(Seq<char>, u64),
    Other,
}

pub open spec fn as_u64s(v: Seq<usize>) -> Seq<u64> {
    Seq::new(v.len(), |i: int| v[i] as u64)
}

pub open spec fn preview_of(request: Option<&ToolPauseRequest>) -> Option<PreviewView> {
    match request {
        Some(req) => Some(
            match req.kind {
                ToolPauseKind::Permission(PermissionPreview::Edit(p)) => PreviewView::Edit(
                    as_u64s(p.start_lines@),
                ),
                ToolPauseKind::Permission(PermissionPreview::Write(p)) => PreviewView::Write(
                    p.summary@,
                    p.added_lines as u64,
                ),
                _ => PreviewView::Other,
            },
        ),
        None => None,
    }
}

#[verifier::allow_in_spec]
pub fn accent() -> (r: Color)
    returns
        Color::Rgb(0x42, 0xb3, 0xc2),
{
    Color::Rgb(0x42, 0xb3, 0xc2)
}

#[verifier::allow_in_spec]
pub fn green() -> (r: Color)
    returns
        Color::Rgb(0x50, 0xc8, 0x78),
{
    Color::Rgb(0x50, 0xc8, 0x78)
}

#[verifier::allow_in_spec]
pub fn red() -> (r: Color)
    returns
        Color::Rgb(255, 100, 100),
{
    Color::Rgb(255, 100, 100)
}

#[verifier::allow_in_spec]
pub fn add_bg() -> (r: Color)
    returns
        Color::Rgb(35, 55, 40),
{
    Color::Rgb(35, 55, 40)
}

#[verifier::allow_in_spec]
pub fn del_bg() -> (r: Color)
    returns
        Color::Rgb(55, 35, 38),
{
    Color::Rgb(55, 35, 38)
}

#[verifier::allow_in_spec]
pub fn ctx_bg() -> (r: Color)
    returns
        Color::Rgb(40, 44, 52),
{
    Color::Rgb(40, 44, 52)
}

#[verifier::allow_in_spec]
pub fn header_bg() -> (r: Color)
    returns
        Color::Rgb(38, 42, 50),
{
    Color::Rgb(38, 42, 50)
}

/// A text on a background that reaches up to the width.
pub open spec fn padded(s: Seq<char>, fg: Color, bg: Color, content_width: int) -> LineView {
    let pad = text::minus(content_width, width::unicode_str_width(s) as int);
    line::of_spans(
        if pad > 0 {
            seq![
                line::sp(s, line::colors(fg, bg)),
                line::sp(text::repeated(' ', pad), line::on(bg)),
            ]
        } else {
            seq![line::sp(s, line::colors(fg, bg))]
        },
    )
}

pub fn padded_line_bg(s: &str, fg: Color, bg: Color, content_width: usize) -> (r: Line)
    ensures
        r@ == padded(s@, fg, bg, content_width as int),
{
    let pad: usize = content_width.saturating_sub(width::str_width(s));
    if pad > 0 {
        let spaces = text::repeat(' ', pad);
        line::line2(
            line::span(s, line::colors(fg, bg)),
            line::span_of(spaces, line::on(bg)),
        )
    } else {
        line::line1(line::span(s, line::colors(fg, bg)))
    }
}

/// The pieces of a heading on their background, filled up to the width.
pub open spec fn header_line(spans: Seq<SpanView>, content_width: int) -> LineView {
    let pad = text::minus(content_width, line::spans_width(spans));
    line::of_spans(
        if pad > 0 {
            spans.push(line::sp(text::repeated(' ', pad), line::on(header_bg())))
        } else {
            spans
        },
    )
}

fn filled_header(mut spans: Vec<Span>, content_width: usize) -> (r: Line)
    ensures
        r@ == header_line(line::spans_view(spans@), content_width as int),
{
    proof {
        line::lemma_spans_width_nonneg(line::spans_view(spans@));
    }
    let used: usize = line::width_of_spans(&spans);
    if content_width > used {
        let spaces = text::repeat(' ', content_width - used);
        line::push_span(&mut spans, line::span_of(spaces, line::on(header_bg())));
    }
    line::line_of(spans)
}

/// What one step of comparing two lists of lines finds.
#[derive(Debug, Clone, Copy, PartialEq, Eq, Structural)]
pub enum DiffStep {
    /// The two lines are the same.
    Same,
    /// A line was replaced by another.
    Change,
    /// A line is gone.
    Remove,
    /// A line is new.
    Insert,
}

/// What stands at line `o` of the old and line `n` of the new text: a line that does not come
/// later in the other text was removed or is new.
pub open spec fn diff_step(
    old_lines: Seq<Seq<char>>,
    new_lines: Seq<Seq<char>>,
    o: int,
    n: int,
) -> DiffStep {
    if o < old_lines.len() && n < new_lines.len() && old_lines[o] == new_lines[n] {
        DiffStep::Same
    } else if o < old_lines.len() && (n >= new_lines.len() || !new_lines.skip(n).contains(
        old_lines[o],
    )) {
        if n < new_lines.len() && !old_lines.skip(o).contains(new_lines[n]) {
            DiffStep::Change
        } else {
            DiffStep::Remove
        }
    } else {
        DiffStep::Insert
    }
}

/// How many lines are added and removed from line `o` and `n` on.
pub open spec fn changes(
    old_lines: Seq<Seq<char>>,
    new_lines: Seq<Seq<char>>,
    o: int,
    n: int,
) -> (int, int)
    decreases old_lines.len() - o + new_lines.len() - n,
    when 0 <= o <= old_lines.len() && 0 <= n <= new_lines.len()
{
    if o >= old_lines.len() && n >= new_lines.len() {
        (0, 0)
    } else {
        match diff_step(old_lines, new_lines, o, n) {
            DiffStep::Same => changes(old_lines, new_lines, o + 1, n + 1),
            DiffStep::Change => {
                let rest = changes(old_lines, new_lines, o + 1, n + 1);
                (rest.0 + 1, rest.1 + 1)
            },
            DiffStep::Remove => {
                let rest = changes(old_lines, new_lines, o + 1, n);
                (rest.0, rest.1 + 1)
            },
            DiffStep::Insert => {
                let rest = changes(old_lines, new_lines, o, n + 1);
                (rest.0 + 1, rest.1)
            },
        }
    }
}

fn contains_from(list: &Vec<String>, from: usize, s: &str) -> (r: bool)
    requires
        from <= list@.len(),
    ensures
        r == text::views(list@).skip(from as int).contains(s@),
{
    let ghost v = text::views(list@).skip(from as int);
    let mut i: usize = from;
    while i < list.len()
        invariant
            from <= i <= list@.len(),
            v == text::views(list@).skip(from as int),
            forall|k: int| 0 <= k < i - from ==> v[k] != s@,
        decreases list@.len() - i,
    {
        if text::same(list[i].as_str(), s) {
            assert(v[i - from] == s@);
            return true;
        }
        i = i + 1;
    }
    false
}

fn step_at(old_lines: &Vec<String>, new_lines: &Vec<String>, o: usize, n: usize) -> (r: DiffStep)
    requires
        o <= old_lines@.len(),
        n <= new_lines@.len(),
        o < old_lines@.len() || n < new_lines@.len(),
    ensures
        r == diff_step(text::views(old_lines@), text::views(new_lines@), o as int, n as int),
        r is Same || r is Change ==> o < old_lines@.len() && n < new_lines@.len(),
        r is Remove ==> o < old_lines@.len(),
        r is Insert ==> n < new_lines@.len(),
{
    if o < old_lines.len() && n < new_lines.len() && text::same(
        old_lines[o].as_str(),
        new_lines[n].as_str(),
    ) {
        DiffStep::Same
    } else if o < old_lines.len() && (n >= new_lines.len() || !contains_from(
        new_lines,
        n,
        old_lines[o].as_str(),
    )) {
        if n < new_lines.len() && !contains_from(old_lines, o, new_lines[n].as_str()) {
            DiffStep::Change
        } else {
            DiffStep::Remove
        }
    } else {
        DiffStep::Insert
    }
}

proof fn lemma_changes_bounded(
    old_lines: Seq<Seq<char>>,
    new_lines: Seq<Seq<char>>,
    o: int,
    n: int,
)
    requires
        0 <= o <= old_lines.len(),
        0 <= n <= new_lines.len(),
    ensures
        0 <= changes(old_lines, new_lines, o, n).0 <= new_lines.len() - n,
        0 <= changes(old_lines, new_lines, o, n).1 <= old_lines.len() - o,
        changes(old_lines, new_lines, o, n).0 - changes(old_lines, new_lines, o, n).1
            == new_lines.len() - n - (old_lines.len() - o),
    decreases old_lines.len() - o + new_lines.len() - n,
{
    if !(o >= old_lines.len() && n >= new_lines.len()) {
        let step = diff_step(old_lines, new_lines, o, n);
        if step is Same || step is Change {
            lemma_changes_bounded(old_lines, new_lines, o + 1, n + 1);
        } else if step is Remove {
            lemma_changes_bounded(old_lines, new_lines, o + 1, n);
        } else {
            lemma_changes_bounded(old_lines, new_lines, o, n + 1);
        }
    }
}

/// The lines added and the lines removed account for the difference in length.
pub proof fn law_changes_balance(old_lines: Seq<Seq<char>>, new_lines: Seq<Seq<char>>)
    ensures
        changes(old_lines, new_lines, 0, 0).0 - changes(old_lines, new_lines, 0, 0).1
            == new_lines.len() - old_lines.len(),
        0 <= changes(old_lines, new_lines, 0, 0).0 <= new_lines.len(),
        0 <= changes(old_lines, new_lines, 0, 0).1 <= old_lines.len(),
{
    lemma_changes_bounded(old_lines, new_lines, 0, 0);
}

pub fn count_edit_line_changes(old_string: &str, new_string: &str) -> (r: (usize, usize))
    ensures
        (r.0 as int, r.1 as int) == changes(
            text::lines_of(old_string@),
            text::lines_of(new_string@),
            0,
            0,
        ),
{
    let old_lines = text::lines(old_string);
    let new_lines = text::lines(new_string);
    let ghost a = text::views(old_lines@);
    let ghost b = text::views(new_lines@);
    let on: usize = old_lines.len();
    let nn: usize = new_lines.len();
    let mut o: usize = 0;
    let mut n: usize = 0;
    let mut added: usize = 0;
    let mut removed: usize = 0;
    while o < on || n < nn
        invariant
            o <= on == old_lines@.len(),
            n <= nn == new_lines@.len(),
            a == text::views(old_lines@),
            b == text::views(new_lines@),
            added <= n,
            removed <= o,
            added + changes(a, b, o as int, n as int).0 == changes(a, b, 0, 0).0,
            removed + changes(a, b, o as int, n as int).1 == changes(a, b, 0, 0).1,
        decreases on - o + nn - n,
    {
        match step_at(&old_lines, &new_lines, o, n) {
            DiffStep::Same => {
                o = o + 1;
                n = n + 1;
            },
            DiffStep::Change => {
                added = added + 1;
                removed = removed + 1;
                o = o + 1;
                n = n + 1;
            },
            DiffStep::Remove => {
                removed = removed + 1;
                o = o + 1;
            },
            DiffStep::Insert => {
                added = added + 1;
                n = n + 1;
            },
        }
    }
    (added, removed)
}

/// A row of a shown change.
#[derive(Debug, PartialEq, Eq)]
pub enum EditDiffRow {
    Context(String),
    Add(String),
    Delete(String),
}

#[verifier::ext_equal]
pub enum RowView {
    Context(Seq<char>),
    Add(Seq<char>),
    Delete(Seq<char>),
}

impl View for EditDiffRow {
    type V = RowView;

    open spec fn view(&self) -> RowView {
        match *self {
            EditDiffRow::Context(s) => RowView::Context(s@),
            EditDiffRow::Add(s) => RowView::Add(s@),
            EditDiffRow::Delete(s) => RowView::Delete(s@),
        }
    }
}

pub open spec fn rows_view(rows: Seq<EditDiffRow>) -> Seq<RowView> {
    Seq::new(rows.len(), |i: int| rows[i]@)
}

/// A row with its line number, or room for one, and its mark.
pub open spec fn diff_line(
    line_no: Option<int>,
    marker: Seq<char>,
    s: Seq<char>,
    line_width: int,
) -> Seq<char> {
    (match line_no {
        Some(n) => text::filled(text::decimal(n), line_width),
        None => text::repeated(' ', line_width),
    }) + " "@ + marker + "   "@ + s
}

fn format_diff_line(line_no: Option<u128>, marker: &str, s: &str, line_width: usize) -> (r: String)
    ensures
        r@ == diff_line(
            (match line_no {
                Some(n) => Some(n as int),
                None => None,
            }),
            marker@,
            s@,
            line_width as int,
        ),
{
    let mut out = match line_no {
        Some(n) => {
            let digits = text::decimal_of_wide(n);
            text::fill(digits.as_str(), line_width)
        },
        None => text::repeat(' ', line_width),
    };
    out.push_str(" ");
    out.push_str(marker);
    out.push_str("   ");
    out.push_str(s);
    out
}

pub open spec fn number_of(numbered: bool, line_no: int) -> Option<int> {
    if numbered {
        Some(line_no)
    } else {
        None
    }
}

/// The rows from line `o` and `n` on. A line that follows an insertion has the number of the
/// inserted one: it is shown without, and left out where it is empty.
pub open spec fn diff_rows(
    old_lines: Seq<Seq<char>>,
    new_lines: Seq<Seq<char>>,
    o: int,
    n: int,
    line_no: int,
    numbered: bool,
    after_insert: bool,
    line_width: int,
) -> Seq<RowView>
    decreases old_lines.len() - o + new_lines.len() - n,
    when 0 <= o <= old_lines.len() && 0 <= n <= new_lines.len()
{
    if o >= old_lines.len() && n >= new_lines.len() {
        Seq::empty()
    } else {
        let number = number_of(numbered, line_no);
        match diff_step(old_lines, new_lines, o, n) {
            DiffStep::Same => {
                let rest = diff_rows(
                    old_lines,
                    new_lines,
                    o + 1,
                    n + 1,
                    line_no + 1,
                    numbered,
                    false,
                    line_width,
                );
                if after_insert && old_lines[o].len() == 0 {
                    rest
                } else {
                    let shown = if after_insert {
                        None
                    } else {
                        number
                    };
                    seq![RowView::Context(diff_line(shown, " "@, old_lines[o], line_width))] + rest
                }
            },
            DiffStep::Change => seq![
                RowView::Delete(diff_line(number, "-"@, old_lines[o], line_width)),
                RowView::Add(diff_line(number, "+"@, new_lines[n], line_width)),
            ] + diff_rows(
                old_lines,
                new_lines,
                o + 1,
                n + 1,
                line_no + 1,
                numbered,
                false,
                line_width,
            ),
            DiffStep::Remove => seq![
                RowView::Delete(diff_line(number, "-"@, old_lines[o], line_width)),
            ] + diff_rows(
                old_lines,
                new_lines,
                o + 1,
                n,
                line_no + 1,
                numbered,
                false,
                line_width,
            ),
            DiffStep::Insert => seq![
                RowView::Add(diff_line(number, "+"@, new_lines[n], line_width)),
            ] + diff_rows(
                old_lines,
                new_lines,
                o,
                n + 1,
                line_no,
                numbered,
                true,
                line_width,
            ),
        }
    }
}

fn push_row(rows: &mut Vec<EditDiffRow>, row: EditDiffRow)
    ensures
        rows_view(final(rows)@) == rows_view(old(rows)@).push(row@),
{
    let ghost before = rows_view(rows@);
    let ghost x = row@;
    rows.push(row);
    assert(rows_view(rows@) =~= before.push(x));
}

/// The rows of one change that starts at `start_line`, where that is known.
pub fn rows_of_change(
    old_lines: &Vec<String>,
    new_lines: &Vec<String>,
    start_line: Option<u64>,
    line_width: usize,
) -> (r: Vec<EditDiffRow>)
    ensures
        rows_view(r@) == diff_rows(
            text::views(old_lines@),
            text::views(new_lines@),
            0,
            0,
            (match start_line {
                Some(n) => n as int,
                None => 1,
            }),
            start_line is Some,
            false,
            line_width as int,
        ),
{
    let ghost a = text::views(old_lines@);
    let ghost b = text::views(new_lines@);
    let on: usize = old_lines.len();
    let nn: usize = new_lines.len();
    let mut rows: Vec<EditDiffRow> = Vec::new();
    let mut o: usize = 0;
    let mut n: usize = 0;
    let numbered = start_line.is_some();
    let first: u128 = match start_line {
        Some(n) => n as u128,
        None => 1,
    };
    let mut line_no: u128 = first;
    let mut after_insert = false;
    let ghost all = diff_rows(a, b, 0, 0, first as int, numbered, false, line_width as int);
    assert(rows_view(rows@) + all =~= all);
    while o < on || n < nn
        invariant
            o <= on == old_lines@.len(),
            n <= nn == new_lines@.len(),
            a == text::views(old_lines@),
            b == text::views(new_lines@),
            first <= u64::MAX,
            line_no <= first + o,
            rows_view(rows@) + diff_rows(
                a,
                b,
                o as int,
                n as int,
                line_no as int,
                numbered,
                after_insert,
                line_width as int,
            ) == all,
        decreases on - o + nn - n,
    {
        let ghost before = rows_view(rows@);
        let ghost here = diff_rows(
            a,
            b,
            o as int,
            n as int,
            line_no as int,
            numbered,
            after_insert,
            line_width as int,
        );
        let number: Option<u128> = if numbered {
            Some(line_no)
        } else {
            None
        };
        match step_at(old_lines, new_lines, o, n) {
            DiffStep::Same => {
                let left_out = after_insert && text::char_count(old_lines[o].as_str()) == 0;
                if !left_out {
                    let shown = if after_insert {
                        None
                    } else {
                        number
                    };
                    let t = format_diff_line(shown, " ", old_lines[o].as_str(), line_width);
                    push_row(&mut rows, EditDiffRow::Context(t));
                }
                o = o + 1;
                n = n + 1;
                line_no = line_no + 1;
                after_insert = false;
            },
            DiffStep::Change => {
                let del = format_diff_line(number, "-", old_lines[o].as_str(), line_width);
                push_row(&mut rows, EditDiffRow::Delete(del));
                let put = format_diff_line(number, "+", new_lines[n].as_str(), line_width);
                push_row(&mut rows, EditDiffRow::Add(put));
                o = o + 1;
                n = n + 1;
                line_no = line_no + 1;
                after_insert = false;
            },
            DiffStep::Remove => {
                let del = format_diff_line(number, "-", old_lines[o].as_str(), line_width);
                push_row(&mut rows, EditDiffRow::Delete(del));
                o = o + 1;
                line_no = line_no + 1;
                after_insert = false;
            },
            DiffStep::Insert => {
                let put = format_diff_line(number, "+", new_lines[n].as_str(), line_width);
                push_row(&mut rows, EditDiffRow::Add(put));
                n = n + 1;
                after_insert = true;
            },
        }
        assert(rows_view(rows@) + diff_rows(
            a,
            b,
            o as int,
            n as int,
            line_no as int,
            numbered,
            after_insert,
            line_width as int,
        ) =~= before + here);
    }
    assert(rows_view(rows@) =~= all);
    rows
}

/// How many rows of `rows` are additions.
pub open spec fn additions(rows: Seq<RowView>) -> int
    decreases rows.len(),
{
    if rows.len() == 0 {
        0
    } else {
        additions(rows.drop_last()) + if rows.last() is Add {
            1int
        } else {
            0
        }
    }
}

/// How many rows of `rows` are deletions.
pub open spec fn deletions(rows: Seq<RowView>) -> int
    decreases rows.len(),
{
    if rows.len() == 0 {
        0
    } else {
        deletions(rows.drop_last()) + if rows.last() is Delete {
            1int
        } else {
            0
        }
    }
}

proof fn lemma_row_counts(a: Seq<RowView>, b: Seq<RowView>)
    ensures
        additions(a + b) == additions(a) + additions(b),
        deletions(a + b) == deletions(a) + deletions(b),
    decreases b.len(),
{
    if b.len() == 0 {
        assert(a + b =~= a);
    } else {
        assert((a + b).drop_last() =~= a + b.drop_last());
        lemma_row_counts(a, b.drop_last());
    }
}

/// The rows of a change hold as many additions and deletions as are counted in its heading.
pub proof fn law_rows_match_the_counts(
    old_lines: Seq<Seq<char>>,
    new_lines: Seq<Seq<char>>,
    o: int,
    n: int,
    line_no: int,
    numbered: bool,
    after_insert: bool,
    line_width: int,
)
    requires
        0 <= o <= old_lines.len(),
        0 <= n <= new_lines.len(),
    ensures
        ({
            let rows = diff_rows(
                old_lines,
                new_lines,
                o,
                n,
                line_no,
                numbered,
                after_insert,
                line_width,
            );
            (additions(rows), deletions(rows)) == changes(old_lines, new_lines, o, n)
        }),
    decreases old_lines.len() - o + new_lines.len() - n,
{
    reveal_with_fuel(additions, 3);
    reveal_with_fuel(deletions, 3);
    if !(o >= old_lines.len() && n >= new_lines.len()) {
        let number = number_of(numbered, line_no);
        match diff_step(old_lines, new_lines, o, n) {
            DiffStep::Same => {
                law_rows_match_the_counts(
                    old_lines,
                    new_lines,
                    o + 1,
                    n + 1,
                    line_no + 1,
                    numbered,
                    false,
                    line_width,
                );
                let rest = diff_rows(
                    old_lines,
                    new_lines,
                    o + 1,
                    n + 1,
                    line_no + 1,
                    numbered,
                    false,
                    line_width,
                );
                let shown = if after_insert {
                    None
                } else {
                    number
                };
                let one = seq![
                    RowView::Context(diff_line(shown, " "@, old_lines[o], line_width)),
                ];
                assert(one.drop_last() =~= Seq::<RowView>::empty());
                lemma_row_counts(one, rest);
            },
            DiffStep::Change => {
                law_rows_match_the_counts(
                    old_lines,
                    new_lines,
                    o + 1,
                    n + 1,
                    line_no + 1,
                    numbered,
                    false,
                    line_width,
                );
                let rest = diff_rows(
                    old_lines,
                    new_lines,
                    o + 1,
                    n + 1,
                    line_no + 1,
                    numbered,
                    false,
                    line_width,
                );
                let del = RowView::Delete(diff_line(number, "-"@, old_lines[o], line_width));
                let put = RowView::Add(diff_line(number, "+"@, new_lines[n], line_width));
                let two = seq![del, put];
                assert(two.drop_last() =~= seq![del]);
                assert(seq![del].drop_last() =~= Seq::<RowView>::empty());
                lemma_row_counts(two, rest);
            },
            DiffStep::Remove => {
                law_rows_match_the_counts(
                    old_lines,
                    new_lines,
                    o + 1,
                    n,
                    line_no + 1,
                    numbered,
                    false,
                    line_width,
                );
                let rest = diff_rows(
                    old_lines,
                    new_lines,
                    o + 1,
                    n,
                    line_no + 1,
                    numbered,
                    false,
                    line_width,
                );
                let one = seq![
                    RowView::Delete(diff_line(number, "-"@, old_lines[o], line_width)),
                ];
                assert(one.drop_last() =~= Seq::<RowView>::empty());
                lemma_row_counts(one, rest);
            },
            DiffStep::Insert => {
                law_rows_match_the_counts(
                    old_lines,
                    new_lines,
                    o,
                    n + 1,
                    line_no,
                    numbered,
                    true,
                    line_width,
                );
                let rest = diff_rows(
                    old_lines,
                    new_lines,
                    o,
                    n + 1,
                    line_no,
                    numbered,
                    true,
                    line_width,
                );
                let one = seq![RowView::Add(diff_line(number, "+"@, new_lines[n], line_width))];
                assert(one.drop_last() =~= Seq::<RowView>::empty());
                lemma_row_counts(one, rest);
            },
        }
    }
}

/// How many unchanged rows `rows` starts with.
pub open spec fn context_run(rows: Seq<RowView>) -> int
    decreases rows.len(),
{
    if rows.len() > 0 && rows[0] is Context {
        1 + context_run(rows.skip(1))
    } else {
        0
    }
}

pub proof fn lemma_context_run(rows: Seq<RowView>)
    ensures
        0 <= context_run(rows) <= rows.len(),
        rows.len() > 0 && rows[0] is Context ==> context_run(rows) >= 1,
        forall|i: int| 0 <= i < context_run(rows) ==> #[trigger] rows[i] is Context,
    decreases rows.len(),
{
    if rows.len() > 0 && rows[0] is Context {
        lemma_context_run(rows.skip(1));
        assert forall|i: int| 0 <= i < context_run(rows) implies #[trigger] rows[i] is Context by {
            if i > 0 {
                assert(rows[i] == rows.skip(1)[i - 1]);
            }
        }
    }
}

/// The line that stands for lines left out.
pub open spec fn gap_line(line_width: int, content_width: int) -> LineView {
    padded(
        "  "@ + text::repeated(' ', line_width) + " ⋮"@,
        Color::Reset,
        ctx_bg(),
        content_width,
    )
}

/// The rows as lines; a long run of unchanged rows is left out.
pub open spec fn collapsed_rows(
    rows: Seq<RowView>,
    line_width: int,
    content_width: int,
) -> Seq<LineView>
    decreases rows.len(),
{
    if rows.len() == 0 {
        Seq::empty()
    } else {
        proof {
            lemma_context_run(rows);
        }
        match rows[0] {
            RowView::Context(_) => {
                let n = context_run(rows);
                let shown = if n >= MIN_CONTEXT_LINES_TO_COLLAPSE {
                    seq![gap_line(line_width, content_width)]
                } else {
                    Seq::new(
                        n as nat,
                        |i: int|
                            padded(
                                "  "@ + rows[i]->Context_0,
                                Color::Reset,
                                ctx_bg(),
                                content_width,
                            ),
                    )
                };
                shown + collapsed_rows(rows.skip(n), line_width, content_width)
            },
            RowView::Add(t) => seq![padded("  "@ + t, green(), add_bg(), content_width)]
                + collapsed_rows(rows.skip(1), line_width, content_width),
            RowView::Delete(t) => seq![padded("  "@ + t, red(), del_bg(), content_width)]
                + collapsed_rows(rows.skip(1), line_width, content_width),
        }
    }
}

fn indented(s: &str) -> (r: String)
    ensures
        r@ == "  "@ + s@,
{
    text::concat("  ", s)
}

fn gap(line_width: usize, content_width: usize) -> (r: Line)
    ensures
        r@ == gap_line(line_width as int, content_width as int),
{
    let spaces = text::repeat(' ', line_width);
    let mut t = indented(spaces.as_str());
    t.push_str(" ⋮");
    padded_line_bg(t.as_str(), Color::Reset, ctx_bg(), content_width)
}

fn run_end(rows: &Vec<EditDiffRow>, from: usize) -> (r: usize)
    requires
        from <= rows@.len(),
    ensures
        r == from + context_run(rows_view(rows@).skip(from as int)),
        from <= r <= rows@.len(),
{
    let ghost all = rows_view(rows@);
    proof {
        lemma_context_run(all.skip(from as int));
    }
    let mut i: usize = from;
    while i < rows.len()
        invariant
            from <= i <= rows@.len(),
            all == rows_view(rows@),
            context_run(all.skip(from as int)) == i - from + context_run(all.skip(i as int)),
        decreases rows@.len() - i,
    {
        assert(all.skip(i as int)[0] == rows@[i as int]@);
        match &rows[i] {
            EditDiffRow::Context(_) => {
                assert(all.skip(i as int).skip(1) =~= all.skip(i + 1));
                i = i + 1;
            },
            _ => {
                return i;
            },
        }
    }
    i
}

pub fn append_collapsed_edit_rows(
    lines: &mut Vec<Line>,
    rows: &Vec<EditDiffRow>,
    line_width: usize,
    content_width: usize,
)
    ensures
        line::lines_view(final(lines)@) == line::lines_view(old(lines)@) + collapsed_rows(
            rows_view(rows@),
            line_width as int,
            content_width as int,
        ),
{
    let ghost all = rows_view(rows@);
    let ghost lw = line_width as int;
    let ghost cw = content_width as int;
    let ghost goal = line::lines_view(lines@) + collapsed_rows(all, lw, cw);
    let mut idx: usize = 0;
    assert(all.skip(0) =~= all);
    while idx < rows.len()
        invariant
            idx <= rows@.len(),
            all == rows_view(rows@),
            lw == line_width,
            cw == content_width,
            line::lines_view(lines@) + collapsed_rows(all.skip(idx as int), lw, cw) == goal,
        decreases rows@.len() - idx,
    {
        let ghost s = all.skip(idx as int);
        let ghost before = line::lines_view(lines@);
        assert(s[0] == rows@[idx as int]@);
        match &rows[idx] {
            EditDiffRow::Context(_) => {
                let end: usize = run_end(rows, idx);
                proof {
                    lemma_context_run(s);
                }
                let ghost n = context_run(s);
                let ghost row = |i: int|
                    padded("  "@ + s[i]->Context_0, Color::Reset, ctx_bg(), cw);
                if end - idx >= MIN_CONTEXT_LINES_TO_COLLAPSE {
                    line::push_line(lines, gap(line_width, content_width));
                    assert(line::lines_view(lines@) =~= before + seq![gap_line(lw, cw)]);
                } else {
                    let mut i: usize = idx;
                    assert(line::lines_view(lines@) =~= before + Seq::new(0, row));
                    while i < end
                        invariant
                            idx <= i <= end <= rows@.len(),
                            end == idx + n,
                            all == rows_view(rows@),
                            s == all.skip(idx as int),
                            cw == content_width,
                            forall|k: int| 0 <= k < n ==> #[trigger] s[k] is Context,
                            row == (|i: int|
                                padded("  "@ + s[i]->Context_0, Color::Reset, ctx_bg(), cw)),
                            line::lines_view(lines@) == before + Seq::new((i - idx) as nat, row),
                        decreases end - i,
                    {
                        assert(s[i - idx] == rows@[i as int]@);
                        if let EditDiffRow::Context(t) = &rows[i] {
                            let shown = indented(t.as_str());
                            line::push_line(
                                lines,
                                padded_line_bg(
                                    shown.as_str(),
                                    Color::Reset,
                                    ctx_bg(),
                                    content_width,
                                ),
                            );
                            assert(before + Seq::new((i - idx + 1) as nat, row) =~= (before
                                + Seq::new((i - idx) as nat, row)).push(row(i - idx)));
                        }
                        i = i + 1;
                    }
                }
                assert(s.skip(n) =~= all.skip(end as int));
                assert(line::lines_view(lines@) + collapsed_rows(all.skip(end as int), lw, cw)
                    =~= before + collapsed_rows(s, lw, cw));
                idx = end;
            },
            EditDiffRow::Add(t) => {
                let shown = indented(t.as_str());
                line::push_line(
                    lines,
                    padded_line_bg(shown.as_str(), green(), add_bg(), content_width),
                );
                assert(s.skip(1) =~= all.skip(idx + 1));
                assert(line::lines_view(lines@) + collapsed_rows(all.skip(idx + 1), lw, cw)
                    =~= before + collapsed_rows(s, lw, cw));
                idx = idx + 1;
            },
            EditDiffRow::Delete(t) => {
                let shown = indented(t.as_str());
                line::push_line(
                    lines,
                    padded_line_bg(shown.as_str(), red(), del_bg(), content_width),
                );
                assert(s.skip(1) =~= all.skip(idx + 1));
                assert(line::lines_view(lines@) + collapsed_rows(all.skip(idx + 1), lw, cw)
                    =~= before + collapsed_rows(s, lw, cw));
                idx = idx + 1;
            },
        }
    }
    assert(all.skip(idx as int) =~= Seq::<RowView>::empty());
    assert(line::lines_view(lines@) =~= goal);
}

/// A number that the result of a tool carries under `key`.
pub open spec fn result_number(result: Option<ToolResultView>, key: Seq<char>) -> Option<u64> {
    match result_entry(result, key) {
        Some(v) => v.u64_value(),
        None => None,
    }
}

/// What the result of a tool carries under `key`.
pub open spec fn result_entry(result: Option<ToolResultView>, key: Seq<char>) -> Option<JsonView> {
    match result {
        Some(r) => match r.metadata {
            Some(m) => json::lookup(m, key),
            None => None,
        },
        None => None,
    }
}

fn entry_of_result<'a>(result: Option<&'a ToolResultBlock>, key: &str) -> (r: Option<&'a Json>)
    ensures
        match r {
            Some(v) => result_entry(widgets::opt_result_view(result), key@) == Some(v@),
            None => result_entry(widgets::opt_result_view(result), key@) is None,
        },
{
    match result {
        Some(tr) => match &tr.metadata {
            Some(m) => json::find_entry(m, key),
            None => None,
        },
        None => None,
    }
}

fn number_of_result(result: Option<&ToolResultBlock>, key: &str) -> (r: Option<u64>)
    ensures
        r == result_number(widgets::opt_result_view(result), key@),
{
    match entry_of_result(result, key) {
        Some(v) => v.as_u64(),
        None => None,
    }
}

/// The first lines of the matches listed in a result; a match without one is passed over.
pub open spec fn listed_starts(items: Seq<JsonView>) -> Seq<u64>
    decreases items.len(),
{
    if items.len() == 0 {
        Seq::empty()
    } else {
        match items.last().at("start_line"@).u64_value() {
            Some(n) => listed_starts(items.drop_last()).push(n),
            None => listed_starts(items.drop_last()),
        }
    }
}

pub open spec fn result_starts(result: Option<ToolResultView>) -> Seq<u64> {
    match result_entry(result, "matches"@) {
        Some(v) => match v.items() {
            Some(items) => listed_starts(items),
            None => Seq::empty(),
        },
        None => Seq::empty(),
    }
}

fn starts_of_result(result: Option<&ToolResultBlock>) -> (r: Vec<u64>)
    ensures
        r@ == result_starts(widgets::opt_result_view(result)),
{
    let mut out: Vec<u64> = Vec::new();
    match entry_of_result(result, "matches") {
        Some(v) => {
            proof {
                if *v is Array {
                    json::lemma_array_view(*v);
                }
            }
            match v {
                Json::Array(items) => {
                    let ghost all = json::list_view(items@);
                    let mut i: usize = 0;
                    assert(all.take(0) =~= Seq::<JsonView>::empty());
                    while i < items.len()
                        invariant
                            i <= items@.len(),
                            all == json::list_view(items@),
                            out@ == listed_starts(all.take(i as int)),
                        decreases items@.len() - i,
                    {
                        assert(all.take(i + 1).drop_last() =~= all.take(i as int));
                        if let Some(n) = items[i].u64_at("start_line") {
                            out.push(n);
                        }
                        i = i + 1;
                    }
                    assert(all.take(i as int) =~= all);
                    out
                },
                _ => out,
            }
        },
        None => out,
    }
}

pub open spec fn preview_starts(preview: Option<PreviewView>) -> Seq<u64> {
    match preview {
        Some(PreviewView::Edit(starts)) => starts,
        _ => Seq::empty(),
    }
}

fn starts_of_preview(preview: Option<&ToolPauseRequest>) -> (r: Vec<u64>)
    ensures
        r@ == preview_starts(preview_of(preview)),
{
    let mut out: Vec<u64> = Vec::new();
    if let Some(req) = preview {
        if let ToolPauseKind::Permission(PermissionPreview::Edit(p)) = &req.kind {
            let ghost all = as_u64s(p.start_lines@);
            let mut i: usize = 0;
            while i < p.start_lines.len()
                invariant
                    i <= p.start_lines@.len(),
                    all == as_u64s(p.start_lines@),
                    out@ == all.take(i as int),
                decreases p.start_lines@.len() - i,
            {
                out.push(p.start_lines[i] as u64);
                assert(out@ =~= all.take(i + 1));
                i = i + 1;
            }
            assert(all.take(i as int) =~= all);
        }
    }
    out
}

/// How often the text was replaced, as far as is known.
pub open spec fn replacements(
    result: Option<ToolResultView>,
    starts: Seq<u64>,
    replace_all: bool,
) -> int {
    match result_number(result, "replacement_count"@) {
        Some(n) => n as int,
        None => if starts.len() > 0 {
            starts.len() as int
        } else if replace_all {
            0
        } else {
            1
        },
    }
}

/// The largest of `starts`, or 1 where there is none.
pub open spec fn largest(starts: Seq<u64>) -> int
    decreases starts.len(),
{
    if starts.len() == 0 {
        1
    } else if starts.len() == 1 {
        starts[0] as int
    } else {
        text::max_int(largest(starts.drop_last()), starts.last() as int)
    }
}

fn largest_of(starts: &Vec<u64>) -> (r: u64)
    ensures
        r == largest(starts@),
{
    if starts.len() == 0 {
        return 1;
    }
    let mut best: u64 = starts[0];
    let mut i: usize = 1;
    assert(starts@.take(1)[0] == starts@[0]);
    while i < starts.len()
        invariant
            1 <= i <= starts@.len(),
            best == largest(starts@.take(i as int)),
        decreases starts@.len() - i,
    {
        assert(starts@.take(i + 1).drop_last() =~= starts@.take(i as int));
        if starts[i] >= best {
            best = starts[i];
        }
        i = i + 1;
    }
    assert(starts@.take(i as int) =~= starts@);
    best
}

/// The columns for line numbers: enough for the largest, and at least three.
pub open spec fn number_width(n: int) -> int {
    text::max_int(text::decimal(n).len() as int, 3)
}

fn width_for(n: u64) -> (r: usize)
    ensures
        r == number_width(n as int),
{
    let digits = text::decimal_of(n);
    text::max_usize(text::char_count(digits.as_str()), 3)
}

pub open spec fn edit_number_width(
    starts: Seq<u64>,
    old_lines: Seq<Seq<char>>,
    new_lines: Seq<Seq<char>>,
) -> int {
    number_width(
        text::min_int(
            largest(starts) + text::max_int(old_lines.len() as int, new_lines.len() as int),
            u64::MAX as int,
        ),
    )
}

/// One place at which the text was replaced.
pub open spec fn hunk_lines(
    start: Option<u64>,
    old_lines: Seq<Seq<char>>,
    new_lines: Seq<Seq<char>>,
    line_width: int,
    content_width: int,
) -> Seq<LineView> {
    let first = match start {
        Some(n) => n as int,
        None => 1,
    };
    collapsed_rows(
        diff_rows(old_lines, new_lines, 0, 0, first, start is Some, false, line_width),
        line_width,
        content_width,
    )
}

/// What stands between two of the places.
pub open spec fn separator(line_width: int, content_width: int) -> Seq<LineView> {
    let empty = padded(Seq::empty(), Color::Reset, ctx_bg(), content_width);
    seq![empty, gap_line(line_width, content_width), empty]
}

/// The first `n` of the places at which the text was replaced.
pub open spec fn hunks(
    n: int,
    starts: Seq<u64>,
    old_lines: Seq<Seq<char>>,
    new_lines: Seq<Seq<char>>,
    line_width: int,
    content_width: int,
) -> Seq<LineView>
    decreases n,
{
    if n <= 0 {
        Seq::empty()
    } else {
        let start = if n - 1 < starts.len() {
            Some(starts[n - 1])
        } else {
            None
        };
        let before = hunks(n - 1, starts, old_lines, new_lines, line_width, content_width);
        let apart = if n > 1 {
            separator(line_width, content_width)
        } else {
            Seq::empty()
        };
        before + apart + hunk_lines(start, old_lines, new_lines, line_width, content_width)
    }
}

fn push_hunks(
    lines: &mut Vec<Line>,
    starts: &Vec<u64>,
    old_lines: &Vec<String>,
    new_lines: &Vec<String>,
    line_width: usize,
    content_width: usize,
)
    ensures
        line::lines_view(final(lines)@) == line::lines_view(old(lines)@) + hunks(
            (if starts@.len() == 0 {
                1
            } else {
                starts@.len() as int
            }),
            starts@,
            text::views(old_lines@),
            text::views(new_lines@),
            line_width as int,
            content_width as int,
        ),
{
    let ghost before = line::lines_view(lines@);
    let ghost a = text::views(old_lines@);
    let ghost b = text::views(new_lines@);
    let ghost lw = line_width as int;
    let ghost cw = content_width as int;
    let count: usize = if starts.len() == 0 {
        1
    } else {
        starts.len()
    };
    let mut i: usize = 0;
    assert(before + hunks(0, starts@, a, b, lw, cw) =~= before);
    proof {
        reveal_strlit("");
        assert(""@ =~= Seq::<char>::empty());
    }
    while i < count
        invariant
            i <= count,
            a == text::views(old_lines@),
            b == text::views(new_lines@),
            lw == line_width,
            cw == content_width,
            ""@ == Seq::<char>::empty(),
            line::lines_view(lines@) == before + hunks(i as int, starts@, a, b, lw, cw),
        decreases count - i,
    {
        let ghost mid = line::lines_view(lines@);
        if i > 0 {
            line::push_line(lines, padded_line_bg("", Color::Reset, ctx_bg(), content_width));
            line::push_line(lines, gap(line_width, content_width));
            line::push_line(lines, padded_line_bg("", Color::Reset, ctx_bg(), content_width));
            assert(line::lines_view(lines@) =~= mid + separator(lw, cw));
        } else {
            assert(line::lines_view(lines@) =~= mid + Seq::<LineView>::empty());
        }
        let start: Option<u64> = if i < starts.len() {
            Some(starts[i])
        } else {
            None
        };
        let rows = rows_of_change(old_lines, new_lines, start, line_width);
        append_collapsed_edit_rows(lines, &rows, line_width, content_width);
        assert(line::lines_view(lines@) =~= before + hunks(i + 1, starts@, a, b, lw, cw));
        i = i + 1;
    }
}

/// The lines of an error below a heading.
pub open spec fn failed_lines(
    head: Seq<SpanView>,
    content: Seq<char>,
    content_width: int,
) -> Seq<LineView> {
    seq![line::of_spans(head)] + widgets::prefixed(
        wrap::wrapped(content, text::minus(content_width, 2)),
        seq![line::raw("  "@)],
        line::colored(red()),
    )
}

fn render_failure(head: Line, content: &str, content_width: usize) -> (r: Vec<Line>)
    requires
        head@.bg is None,
    ensures
        line::lines_view(r@) == failed_lines(head@.spans, content@, content_width as int),
{
    let ghost h = head@;
    let mut lines: Vec<Line> = Vec::new();
    assert(line::lines_view(lines@) =~= Seq::<LineView>::empty());
    line::push_line(&mut lines, head);
    let texts = word_wrap(content, content_width.saturating_sub(2));
    let indent = line::line1(line::raw_span("  "));
    widgets::push_prefixed(&mut lines, &texts, &indent.spans, line::colored(red()));
    assert(line::lines_view(lines@) =~= failed_lines(h.spans, content@, content_width as int));
    lines
}

/// A tool that runs and of which nothing more is known.
pub open spec fn running_line(name: Seq<char>, ms: int) -> Seq<LineView> {
    seq![
        line::of_spans(
            seq![
                line::sp(widgets::spinner_frame(ms) + " "@, widgets::spinner_style()),
                line::sp(name, line::colored(accent())),
            ],
        ),
    ]
}

fn render_running(name: &str, ms: u64) -> (r: Vec<Line>)
    ensures
        line::lines_view(r@) == running_line(name@, ms as int),
{
    let mut lines: Vec<Line> = Vec::new();
    assert(line::lines_view(lines@) =~= Seq::<LineView>::empty());
    let spin = text::concat(widgets::spinner(ms), " ");
    line::push_line(
        &mut lines,
        line::line2(
            line::span_of(spin, widgets::spinner_style()),
            line::span(name, line::colored(accent())),
        ),
    );
    assert(line::lines_view(lines@) =~= running_line(name@, ms as int));
    lines
}

/// The heading of a change: what is changed, and how many lines come and go.
pub open spec fn edit_header(
    asking: bool,
    count: int,
    path: Seq<char>,
    added: int,
    removed: int,
    content_width: int,
) -> LineView {
    let plain = line::on(header_bg());
    let strong = line::colors(accent(), header_bg());
    let what = if asking {
        seq![
            line::sp("· "@, plain),
            line::sp("Matches: "@ + text::decimal(count), strong),
            line::sp(" in "@ + path + " ("@, plain),
        ]
    } else {
        seq![
            line::sp("· "@, plain),
            line::sp("Edit"@, strong),
            line::sp(" "@ + path + " ("@, plain),
        ]
    };
    header_line(
        what + seq![
            line::sp("+"@ + text::decimal(added), line::colors(green(), header_bg())),
            line::sp(" "@, plain),
            line::sp("-"@ + text::decimal(removed), line::colors(red(), header_bg())),
            line::sp(")"@, plain),
        ],
        content_width,
    )
}

fn edit_heading(
    asking: bool,
    count: u64,
    path: &str,
    added: u128,
    removed: u128,
    content_width: usize,
) -> (r: Line)
    ensures
        r@ == edit_header(
            asking,
            count as int,
            path@,
            added as int,
            removed as int,
            content_width as int,
        ),
{
    let plain = line::on(header_bg());
    let strong = line::colors(accent(), header_bg());
    let mut spans: Vec<Span> = Vec::new();
    assert(line::spans_view(spans@) =~= Seq::<SpanView>::empty());
    line::push_span(&mut spans, line::span("· ", plain));
    if asking {
        let digits = text::decimal_of(count);
        let matches_text = text::concat("Matches: ", digits.as_str());
        line::push_span(&mut spans, line::span_of(matches_text, strong));
        let mut t = text::concat(" in ", path);
        t.push_str(" (");
        line::push_span(&mut spans, line::span_of(t, plain));
    } else {
        line::push_span(&mut spans, line::span("Edit", strong));
        let mut t = text::concat(" ", path);
        t.push_str(" (");
        line::push_span(&mut spans, line::span_of(t, plain));
    }
    let ghost what = line::spans_view(spans@);
    let plus = text::decimal_of_wide(added);
    let plus_text = text::concat("+", plus.as_str());
    line::push_span(&mut spans, line::span_of(plus_text, line::colors(green(), header_bg())));
    line::push_span(&mut spans, line::span(" ", plain));
    let minus = text::decimal_of_wide(removed);
    let minus_text = text::concat("-", minus.as_str());
    line::push_span(&mut spans, line::span_of(minus_text, line::colors(red(), header_bg())));
    line::push_span(&mut spans, line::span(")", plain));
    assert(line::spans_view(spans@) =~= what + seq![
        line::sp("+"@ + text::decimal(added as int), line::colors(green(), header_bg())),
        line::sp(" "@, plain),
        line::sp("-"@ + text::decimal(removed as int), line::colors(red(), header_bg())),
        line::sp(")"@, plain),
    ]);
    proof {
        if asking {
            assert(what =~= seq![
                line::sp("· "@, plain),
                line::sp("Matches: "@ + text::decimal(count as int), strong),
                line::sp(" in "@ + path@ + " ("@, plain),
            ]);
        } else {
            assert(what =~= seq![
                line::sp("· "@, plain),
                line::sp("Edit"@, strong),
                line::sp(" "@ + path@ + " ("@, plain),
            ]);
        }
    }
    filled_header(spans, content_width)
}

/// Whether a tool use asks for every occurrence to be replaced.
pub open spec fn replaces_all(input: Seq<(Seq<char>, JsonView)>) -> bool {
    match json::lookup(input, "replace_all"@) {
        Some(v) => v.bool_value() == Some(true),
        None => false,
    }
}

/// A change of a file: an error, a spinner while nothing is known, or the changed lines of every
/// place below a heading that counts them.
pub open spec fn edit_lines(
    tool: ToolUseView,
    result: Option<ToolResultView>,
    preview: Option<PreviewView>,
    content_width: int,
    project_dir: Option<Seq<char>>,
    ms: int,
) -> Seq<LineView> {
    let path = widgets::shown_path(
        widgets::input_text_or(tool.input, "file_path"@, "<unknown>"@),
        project_dir,
    );
    let failed = result matches Some(r) && r.is_error;
    if failed {
        failed_lines(
            seq![
                line::raw("· "@),
                line::sp("Edit"@, line::colored(accent())),
                line::raw(" "@ + path),
            ],
            (result->0).content,
            content_width,
        )
    } else if result is None && preview is None {
        running_line("Edit"@, ms)
    } else {
        let old_lines = text::lines_of(
            widgets::input_text_or(tool.input, "old_string"@, Seq::empty()),
        );
        let new_lines = text::lines_of(
            widgets::input_text_or(tool.input, "new_string"@, Seq::empty()),
        );
        let asked = preview_starts(preview);
        let count = replacements(result, asked, replaces_all(tool.input));
        let per_match = changes(old_lines, new_lines, 0, 0);
        let times = text::max_int(count, 1);
        let starts = if result_starts(result).len() > 0 {
            result_starts(result)
        } else {
            asked
        };
        let asking = result is None && (preview matches Some(PreviewView::Edit(_)));
        seq![
            edit_header(
                asking,
                count,
                path,
                per_match.0 * times,
                per_match.1 * times,
                content_width,
            ),
        ] + hunks(
            if starts.len() == 0 {
                1
            } else {
                starts.len() as int
            },
            starts,
            old_lines,
            new_lines,
            edit_number_width(starts, old_lines, new_lines),
            content_width,
        )
    }
}

fn edit_replaces_all(input: &Vec<(String, Json)>) -> (r: bool)
    ensures
        r == replaces_all(json::entries_view(input@)),
{
    match json::find_entry(input, "replace_all") {
        Some(v) => match v.as_bool() {
            Some(b) => b,
            None => false,
        },
        None => false,
    }
}

fn replacement_count(
    result: Option<&ToolResultBlock>,
    starts: &Vec<u64>,
    replace_all: bool,
) -> (r: u64)
    ensures
        r == replacements(widgets::opt_result_view(result), starts@, replace_all),
{
    match number_of_result(result, "replacement_count") {
        Some(n) => n,
        None => if starts.len() > 0 {
            starts.len() as u64
        } else if replace_all {
            0
        } else {
            1
        },
    }
}

fn times(n: usize, count: u64) -> (r: u128)
    ensures
        r == n * count,
{
    let a: u128 = n as u128;
    let b: u128 = count as u128;
    assert(0 <= a * b <= 0xffff_ffff_ffff_ffff * 0xffff_ffff_ffff_ffff) by (nonlinear_arith)
        requires
            0 <= a <= 0xffff_ffff_ffff_ffff,
            0 <= b <= 0xffff_ffff_ffff_ffff,
    ;
    a * b
}

fn edit_asks(result: Option<&ToolResultBlock>, preview: Option<&ToolPauseRequest>) -> (r: bool)
    ensures
        r == (result is None && (preview_of(preview) matches Some(PreviewView::Edit(_)))),
{
    if result.is_some() {
        return false;
    }
    match preview {
        Some(req) => match &req.kind {
            ToolPauseKind::Permission(PermissionPreview::Edit(_)) => true,
            _ => false,
        },
        None => false,
    }
}

pub fn render_edit(
    tool_use: &ToolUseBlock,
    result: Option<&ToolResultBlock>,
    preview: Option<&ToolPauseRequest>,
    content_width: usize,
    project_dir: Option<&str>,
    ms: u64,
) -> (r: Vec<Line>)
    ensures
        line::lines_view(r@) == edit_lines(
            tool_use@,
            widgets::opt_result_view(result),
            preview_of(preview),
            content_width as int,
            widgets::opt_str_view(project_dir),
            ms as int,
        ),
{
    let file_path = widgets::text_input_or(&tool_use.input, "file_path", "<unknown>");
    let path = widgets::display_path(file_path.as_str(), project_dir);
    if let Some(tr) = result {
        if tr.is_error {
            let tail = text::concat(" ", path.as_str());
            let head = line::line3(
                line::raw_span("· "),
                line::span("Edit", line::colored(accent())),
                line::raw_span(tail.as_str()),
            );
            return render_failure(head, tr.content.as_str(), content_width);
        }
    }
    if result.is_none() && preview.is_none() {
        return render_running("Edit", ms);
    }
    proof {
        reveal_strlit("");
        assert(""@ =~= Seq::<char>::empty());
    }
    let old_string = widgets::text_input_or(&tool_use.input, "old_string", "");
    let new_string = widgets::text_input_or(&tool_use.input, "new_string", "");
    let asked = starts_of_preview(preview);
    let count: u64 = replacement_count(result, &asked, edit_replaces_all(&tool_use.input));
    let (added, removed) = count_edit_line_changes(old_string.as_str(), new_string.as_str());
    let often: u64 = if count >= 1 {
        count
    } else {
        1
    };
    let mut lines: Vec<Line> = Vec::new();
    assert(line::lines_view(lines@) =~= Seq::<LineView>::empty());
    line::push_line(
        &mut lines,
        edit_heading(
            edit_asks(result, preview),
            count,
            path.as_str(),
            times(added, often),
            times(removed, often),
            content_width,
        ),
    );
    let found = starts_of_result(result);
    let starts = if found.len() > 0 {
        found
    } else {
        asked
    };
    let old_lines = text::lines(old_string.as_str());
    let new_lines = text::lines(new_string.as_str());
    let longest: usize = text::max_usize(old_lines.len(), new_lines.len());
    let max_line: u64 = largest_of(&starts).saturating_add(longest as u64);
    let line_width: usize = width_for(max_line);
    assert(line_width == edit_number_width(
        starts@,
        text::views(old_lines@),
        text::views(new_lines@),
    ));
    push_hunks(&mut lines, &starts, &old_lines, &new_lines, line_width, content_width);
    assert(line::lines_view(lines@) =~= edit_lines(
        tool_use@,
        widgets::opt_result_view(result),
        preview_of(preview),
        content_width as int,
        widgets::opt_str_view(project_dir),
        ms as int,
    ));
    lines
}

/// How many lines a written text has: one more than it has line breaks.
pub open spec fn written_lines(s: Seq<char>) -> int {
    if s.len() == 0 {
        0
    } else {
        text::split_on(s, '\n').len() as int
    }
}

pub fn count_write_lines(content: &str) -> (r: usize)
    ensures
        r == written_lines(content@),
{
    if text::char_count(content) == 0 {
        0
    } else {
        let parts = text::split_char(content, '\n');
        parts.len()
    }
}

/// A written line with its number.
pub open spec fn written_line(
    n: int,
    s: Seq<char>,
    line_width: int,
    content_width: int,
) -> LineView {
    padded(
        "  "@ + text::filled(text::decimal(n), line_width) + " +   "@ + s,
        green(),
        add_bg(),
        content_width,
    )
}

fn write_row(n: u64, s: &str, line_width: usize, content_width: usize) -> (r: Line)
    ensures
        r@ == written_line(n as int, s@, line_width as int, content_width as int),
{
    let digits = text::decimal_of(n);
    let number = text::fill(digits.as_str(), line_width);
    let mut t = indented(number.as_str());
    t.push_str(" +   ");
    t.push_str(s);
    padded_line_bg(t.as_str(), green(), add_bg(), content_width)
}

/// The lines of a written text. An empty text is shown as one empty line, and so is what stands
/// behind a line break at its end.
pub open spec fn write_body(s: Seq<char>, content_width: int) -> Seq<LineView> {
    let count = text::max_int(written_lines(s), 1);
    let lw = number_width(count);
    let all = text::lines_of(s);
    let body = Seq::new(
        all.len(),
        |i: int| written_line(i + 1, all[i], lw, content_width),
    );
    if s.len() == 0 {
        body.push(written_line(1, Seq::empty(), lw, content_width))
    } else if s.last() == '\n' {
        body.push(written_line(count, Seq::empty(), lw, content_width))
    } else {
        body
    }
}

fn push_write_body(lines: &mut Vec<Line>, content: &str, content_width: usize)
    ensures
        line::lines_view(final(lines)@) == line::lines_view(old(lines)@) + write_body(
            content@,
            content_width as int,
        ),
{
    let ghost before = line::lines_view(lines@);
    let ghost cw = content_width as int;
    let count: usize = text::max_usize(count_write_lines(content), 1);
    let line_width: usize = width_for(count as u64);
    let ghost lw = line_width as int;
    let texts = text::lines(content);
    let ghost all = text::views(texts@);
    let ghost row = |i: int| written_line(i + 1, all[i], lw, cw);
    let n: usize = texts.len();
    let mut i: usize = 0;
    assert(line::lines_view(lines@) =~= before + Seq::new(0, row));
    while i < n
        invariant
            i <= n == texts@.len(),
            all == text::views(texts@),
            lw == line_width,
            cw == content_width,
            row == (|i: int| written_line(i + 1, all[i], lw, cw)),
            line::lines_view(lines@) == before + Seq::new(i as nat, row),
        decreases n - i,
    {
        line::push_line(
            lines,
            write_row(i as u64 + 1, texts[i].as_str(), line_width, content_width),
        );
        assert(before + Seq::new((i + 1) as nat, row) =~= (before + Seq::new(
            i as nat,
            row,
        )).push(row(i as int)));
        i = i + 1;
    }
    assert(Seq::new(n as nat, row) =~= Seq::new(
        all.len(),
        |i: int| written_line(i + 1, all[i], lw, cw),
    ));
    proof {
        reveal_strlit("");
        assert(""@ =~= Seq::<char>::empty());
    }
    let chars = text::chars_of(content);
    let len: usize = chars.len();
    if len == 0 {
        line::push_line(lines, write_row(1, "", line_width, content_width));
    } else if chars[len - 1] == '\n' {
        line::push_line(lines, write_row(count as u64, "", line_width, content_width));
    }
    assert(line::lines_view(lines@) =~= before + write_body(content@, cw));
}

/// What a request to write a file calls what it does: the first word of its summary.
pub open spec fn write_action(summary: Seq<char>) -> Seq<char> {
    match text::cut_at(summary, ' ') {
        Some(p) => p.0,
        None => "Update"@,
    }
}

/// How many lines a written file has, as far as is known.
pub open spec fn write_count(
    result: Option<ToolResultView>,
    preview: Option<PreviewView>,
    content: Seq<char>,
) -> int {
    match result_number(result, "added_lines"@) {
        Some(n) => n as int,
        None => match preview {
            Some(PreviewView::Write(_, n)) => n as int,
            _ => written_lines(content),
        },
    }
}

pub open spec fn write_header(
    action: Seq<char>,
    path: Seq<char>,
    added: int,
    content_width: int,
) -> LineView {
    let plain = line::on(header_bg());
    header_line(
        seq![
            line::sp("· "@, plain),
            line::sp(action, line::colors(accent(), header_bg())),
            line::sp(" "@ + path + " ("@, plain),
            line::sp("+"@ + text::decimal(added), line::colors(green(), header_bg())),
            line::sp(" -0)"@, plain),
        ],
        content_width,
    )
}

/// A written file: an error, a spinner while nothing is known, or its lines below a heading that
/// counts them.
pub open spec fn write_lines(
    tool: ToolUseView,
    result: Option<ToolResultView>,
    preview: Option<PreviewView>,
    content_width: int,
    project_dir: Option<Seq<char>>,
    ms: int,
) -> Seq<LineView> {
    let failed = result matches Some(r) && r.is_error;
    if failed {
        failed_lines(
            seq![line::raw("· "@), line::sp("Write"@, line::colored(accent()))],
            (result->0).content,
            content_width,
        )
    } else if result is None && preview is None {
        running_line("Write"@, ms)
    } else {
        let path = widgets::shown_path(
            widgets::input_text_or(tool.input, "file_path"@, "<unknown>"@),
            project_dir,
        );
        let content = widgets::input_text_or(tool.input, "content"@, Seq::empty());
        let action = if result is None {
            match preview {
                Some(PreviewView::Write(summary, _)) => write_action(summary),
                _ => "Write"@,
            }
        } else {
            "Write"@
        };
        seq![
            write_header(action, path, write_count(result, preview, content), content_width),
        ] + write_body(content, content_width)
    }
}

fn count_of_write(
    result: Option<&ToolResultBlock>,
    preview: Option<&ToolPauseRequest>,
    content: &str,
) -> (r: u64)
    ensures
        r == write_count(widgets::opt_result_view(result), preview_of(preview), content@),
{
    if let Some(n) = number_of_result(result, "added_lines") {
        return n;
    }
    if let Some(req) = preview {
        if let ToolPauseKind::Permission(PermissionPreview::Write(p)) = &req.kind {
            return p.added_lines as u64;
        }
    }
    count_write_lines(content) as u64
}

fn action_of_write(
    result: Option<&ToolResultBlock>,
    preview: Option<&ToolPauseRequest>,
) -> (r: String)
    ensures
        r@ == (if result is None {
            match preview_of(preview) {
                Some(PreviewView::Write(summary, _)) => write_action(summary),
                _ => "Write"@,
            }
        } else {
            "Write"@
        }),
{
    if result.is_none() {
        if let Some(req) = preview {
            if let ToolPauseKind::Permission(PermissionPreview::Write(p)) = &req.kind {
                return match text::split_once(p.summary.as_str(), ' ') {
                    Some(parts) => parts.0,
                    None => text::copy("Update"),
                };
            }
        }
    }
    text::copy("Write")
}

fn write_heading(action: &str, path: &str, added: u64, content_width: usize) -> (r: Line)
    ensures
        r@ == write_header(action@, path@, added as int, content_width as int),
{
    let plain = line::on(header_bg());
    let mut spans: Vec<Span> = Vec::new();
    assert(line::spans_view(spans@) =~= Seq::<SpanView>::empty());
    line::push_span(&mut spans, line::span("· ", plain));
    line::push_span(&mut spans, line::span(action, line::colors(accent(), header_bg())));
    let mut t = text::concat(" ", path);
    t.push_str(" (");
    line::push_span(&mut spans, line::span_of(t, plain));
    let digits = text::decimal_of(added);
    let plus = text::concat("+", digits.as_str());
    line::push_span(&mut spans, line::span_of(plus, line::colors(green(), header_bg())));
    line::push_span(&mut spans, line::span(" -0)", plain));
    assert(line::spans_view(spans@) =~= seq![
        line::sp("· "@, plain),
        line::sp(action@, line::colors(accent(), header_bg())),
        line::sp(" "@ + path@ + " ("@, plain),
        line::sp("+"@ + text::decimal(added as int), line::colors(green(), header_bg())),
        line::sp(" -0)"@, plain),
    ]);
    filled_header(spans, content_width)
}

pub fn render_write(
    tool_use: &ToolUseBlock,
    result: Option<&ToolResultBlock>,
    preview: Option<&ToolPauseRequest>,
    content_width: usize,
    project_dir: Option<&str>,
    ms: u64,
) -> (r: Vec<Line>)
    ensures
        line::lines_view(r@) == write_lines(
            tool_use@,
            widgets::opt_result_view(result),
            preview_of(preview),
            content_width as int,
            widgets::opt_str_view(project_dir),
            ms as int,
        ),
{
    if let Some(tr) = result {
        if tr.is_error {
            let head = line::line2(
                line::raw_span("· "),
                line::span("Write", line::colored(accent())),
            );
            return render_failure(head, tr.content.as_str(), content_width);
        }
    }
    if result.is_none() && preview.is_none() {
        return render_running("Write", ms);
    }
    proof {
        reveal_strlit("");
        assert(""@ =~= Seq::<char>::empty());
    }
    let file_path = widgets::text_input_or(&tool_use.input, "file_path", "<unknown>");
    let path = widgets::display_path(file_path.as_str(), project_dir);
    let content = widgets::text_input_or(&tool_use.input, "content", "");
    let action = action_of_write(result, preview);
    let added: u64 = count_of_write(result, preview, content.as_str());
    let mut lines: Vec<Line> = Vec::new();
    assert(line::lines_view(lines@) =~= Seq::<LineView>::empty());
    line::push_line(
        &mut lines,
        write_heading(action.as_str(), path.as_str(), added, content_width),
    );
    push_write_body(&mut lines, content.as_str(), content_width);
    assert(line::lines_view(lines@) =~= write_lines(
        tool_use@,
        widgets::opt_result_view(result),
        preview_of(preview),
        content_width as int,
        widgets::opt_str_view(project_dir),
        ms as int,
    ));
    lines
}

} // verus!
