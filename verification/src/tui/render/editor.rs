//! Text that is being edited, in a box.
use crate::text;
use crate::tui::line;
use crate::tui::line::Line;
use crate::tui::line::LineView;
use crate::tui::line::Style;
use crate::tui::render::permission;
use crate::tui::widgets::wrap;
use crate::tui::widgets::wrap::word_wrap;
use crate::width;
use vstd::prelude::*;

verus! {

pub const AGENT_EDITOR_MAX_WIDTH: usize = 140;

/// The columns of a character in an edited text: at least one.
pub open spec fn cells(c: char) -> int {
    text::max_int(width::char_columns(c), 1)
}

pub fn char_display_width(c: char) -> (r: usize)
    ensures
        r == cells(c),
        1 <= r <= 3,
{
    text::max_usize(width::char_width(c), 1)
}

/// The columns of a text, a character at a time.
pub open spec fn cells_of(s: Seq<char>) -> int
    decreases s.len(),
{
    if s.len() == 0 {
        0
    } else {
        cells_of(s.drop_last()) + cells(s.last())
    }
}

/// A line of an edited text.
#[derive(Debug, PartialEq, Eq)]
pub struct EditableTextLine {
    pub start_char: usize,
    pub end_char: usize,
    pub text: String,
}

#[verifier::ext_equal]
pub struct EditLineView {
    pub start: int,
    pub end: int,
}

/// A text on its way into lines: the finished lines, where the line in the making starts, and
/// its columns.
#[verifier::ext_equal]
pub struct EditedLines {
    pub lines: Seq<EditLineView>,
    pub start: int,
    pub columns: int,
}

/// The first `n` characters of `s` in lines of at most `max` columns.
pub open spec fn edited(s: Seq<char>, max: int, n: int) -> EditedLines
    decreases n,
{
    if n <= 0 {
        EditedLines { lines: Seq::empty(), start: 0, columns: 0 }
    } else {
        let e = edited(s, max, n - 1);
        let c = s[n - 1];
        if c == '\n' {
            EditedLines {
                lines: e.lines.push(EditLineView { start: e.start, end: n - 1 }),
                start: n,
                columns: 0,
            }
        } else if e.columns > 0 && e.columns + cells(c) > max {
            EditedLines {
                lines: e.lines.push(EditLineView { start: e.start, end: n - 1 }),
                start: n - 1,
                columns: cells(c),
            }
        } else {
            EditedLines { columns: e.columns + cells(c), ..e }
        }
    }
}

/// The lines of a text that is being edited.
pub open spec fn edit_lines(s: Seq<char>, max: int) -> Seq<EditLineView> {
    let e = edited(s, text::max_int(max, 1), s.len() as int);
    e.lines.push(EditLineView { start: e.start, end: s.len() as int })
}

pub open spec fn lines_of_edit(v: Seq<EditableTextLine>) -> Seq<EditLineView> {
    Seq::new(
        v.len(),
        |i: int| EditLineView { start: v[i].start_char as int, end: v[i].end_char as int },
    )
}

/// Whether every line holds its part of `s`.
pub open spec fn texts_match(v: Seq<EditableTextLine>, s: Seq<char>) -> bool {
    forall|i: int|
        0 <= i < v.len() ==> (#[trigger] v[i]).start_char <= v[i].end_char <= s.len() && v[i].text@
            == s.subrange(v[i].start_char as int, v[i].end_char as int)
}

fn push_edit_line(lines: &mut Vec<EditableTextLine>, chars: &Vec<char>, start: usize, end: usize)
    requires
        start <= end <= chars@.len(),
        texts_match(old(lines)@, chars@),
    ensures
        lines_of_edit(final(lines)@) == lines_of_edit(old(lines)@).push(
            EditLineView { start: start as int, end: end as int },
        ),
        texts_match(final(lines)@, chars@),
{
    let ghost before = lines_of_edit(lines@);
    lines.push(
        EditableTextLine {
            start_char: start,
            end_char: end,
            text: text::string_of(chars, start, end),
        },
    );
    assert(lines_of_edit(lines@) =~= before.push(
        EditLineView { start: start as int, end: end as int },
    ));
}

pub fn editable_text_lines(s: &str, max: usize) -> (r: Vec<EditableTextLine>)
    ensures
        lines_of_edit(r@) == edit_lines(s@, max as int),
        texts_match(r@, s@),
        r@.len() >= 1,
{
    let chars = text::chars_of(s);
    let limit: usize = text::max_usize(max, 1);
    let n: usize = chars.len();
    let mut lines: Vec<EditableTextLine> = Vec::new();
    let mut start: usize = 0;
    let mut used: u128 = 0;
    let mut i: usize = 0;
    assert(lines_of_edit(lines@) =~= Seq::<EditLineView>::empty());
    while i < n
        invariant
            chars@ == s@,
            n == chars@.len(),
            start <= i <= n,
            used <= 3 * i,
            texts_match(lines@, chars@),
            (EditedLines {
                lines: lines_of_edit(lines@),
                start: start as int,
                columns: used as int,
            }) == edited(s@, limit as int, i as int),
        decreases n - i,
    {
        let c = chars[i];
        if c == '\n' {
            push_edit_line(&mut lines, &chars, start, i);
            start = i + 1;
            used = 0;
        } else {
            let w: u128 = char_display_width(c) as u128;
            if used > 0 && used + w > limit as u128 {
                push_edit_line(&mut lines, &chars, start, i);
                start = i;
                used = 0;
            }
            used = used + w;
        }
        i = i + 1;
    }
    push_edit_line(&mut lines, &chars, start, n);
    assert(lines_of_edit(lines@).len() == lines@.len());
    lines
}

/// The first of the first `n` lines that the cursor is on.
pub open spec fn line_at(lines: Seq<EditLineView>, cursor: int, n: int) -> Option<int>
    decreases n,
{
    if n <= 0 {
        None
    } else {
        match line_at(lines, cursor, n - 1) {
            Some(i) => Some(i),
            None => if lines[n - 1].start <= cursor <= lines[n - 1].end {
                Some(n - 1)
            } else {
                None
            },
        }
    }
}

/// The line and the column of the cursor; a cursor behind the text is at its end.
pub open spec fn edit_cursor(s: Seq<char>, cursor: int, lines: Seq<EditLineView>) -> (int, int) {
    match line_at(lines, cursor, lines.len() as int) {
        Some(i) => (
            i,
            text::min_int(cells_of(s.subrange(lines[i].start, cursor)), usize::MAX as int),
        ),
        None => (
            lines.len() - 1,
            text::min_int(
                cells_of(s.subrange(lines.last().start, lines.last().end)),
                usize::MAX as int,
            ),
        ),
    }
}

proof fn lemma_cells_nonneg(s: Seq<char>)
    ensures
        0 <= cells_of(s),
    decreases s.len(),
{
    if s.len() > 0 {
        lemma_cells_nonneg(s.drop_last());
    }
}

fn count_cells(chars: &Vec<char>, from: usize, to: usize) -> (r: usize)
    requires
        from <= to <= chars@.len(),
    ensures
        r == text::min_int(
            cells_of(chars@.subrange(from as int, to as int)),
            usize::MAX as int,
        ),
{
    let mut sum: usize = 0;
    let mut i: usize = from;
    while i < to
        invariant
            from <= i <= to <= chars@.len(),
            sum == text::min_int(
                cells_of(chars@.subrange(from as int, i as int)),
                usize::MAX as int,
            ),
        decreases to - i,
    {
        let ghost next = chars@.subrange(from as int, i + 1);
        assert(next.drop_last() =~= chars@.subrange(from as int, i as int));
        proof {
            lemma_cells_nonneg(next.drop_last());
        }
        sum = sum.saturating_add(char_display_width(chars[i]));
        i = i + 1;
    }
    sum
}

pub fn editable_text_cursor(s: &str, cursor: usize, lines: &Vec<EditableTextLine>) -> (r: (
    usize,
    usize,
))
    requires
        lines@.len() >= 1,
        texts_match(lines@, s@),
    ensures
        (r.0 as int, r.1 as int) == edit_cursor(s@, cursor as int, lines_of_edit(lines@)),
        r.0 < lines@.len(),
{
    let chars = text::chars_of(s);
    let ghost v = lines_of_edit(lines@);
    let n: usize = lines.len();
    let mut i: usize = 0;
    while i < n
        invariant
            i <= n == lines@.len(),
            chars@ == s@,
            v == lines_of_edit(lines@),
            texts_match(lines@, s@),
            line_at(v, cursor as int, i as int) is None,
        decreases n - i,
    {
        assert(v[i as int].start == lines@[i as int].start_char);
        assert(v[i as int].end == lines@[i as int].end_char);
        if cursor >= lines[i].start_char && cursor <= lines[i].end_char {
            proof {
                lemma_line_at_stays(v, cursor as int, i + 1, n as int);
            }
            let col: usize = count_cells(&chars, lines[i].start_char, cursor);
            return (i, col);
        }
        i = i + 1;
    }
    let last = &lines[n - 1];
    let col: usize = count_cells(&chars, last.start_char, last.end_char);
    (n - 1, col)
}

proof fn lemma_line_at_stays(lines: Seq<EditLineView>, cursor: int, k: int, n: int)
    requires
        0 <= k <= n,
        line_at(lines, cursor, k) is Some,
    ensures
        line_at(lines, cursor, n) == line_at(lines, cursor, k),
    decreases n,
{
    if k < n {
        lemma_line_at_stays(lines, cursor, k, n - 1);
    }
}

/// The part of an edited text that is in sight, and the cursor in it.
#[derive(Debug, PartialEq, Eq)]
pub struct EditableTextWindow {
    pub lines: Vec<String>,
    pub cursor_line: usize,
    pub cursor_col: usize,
}

#[verifier::ext_equal]
pub struct WindowView {
    pub lines: Seq<Seq<char>>,
    pub cursor_line: int,
    pub cursor_col: int,
}

impl View for EditableTextWindow {
    type V = WindowView;

    open spec fn view(&self) -> WindowView {
        WindowView {
            lines: text::views(self.lines@),
            cursor_line: self.cursor_line as int,
            cursor_col: self.cursor_col as int,
        }
    }
}

/// At most `max_lines` lines of a text, scrolled so that the cursor is in sight; a placeholder
/// where there is no text.
pub open spec fn text_window(
    s: Seq<char>,
    cursor: int,
    max: int,
    max_lines: int,
    placeholder: Seq<char>,
) -> WindowView {
    let rows = text::max_int(max_lines, 1);
    if s.len() == 0 {
        let all = wrap::wrapped(placeholder, max);
        WindowView {
            lines: all.take(text::min_int(all.len() as int, rows)),
            cursor_line: 0,
            cursor_col: 0,
        }
    } else {
        let lines = edit_lines(s, max);
        let at = edit_cursor(s, cursor, lines);
        let start = text::minus(at.0, rows - 1);
        let count = text::min_int(rows, lines.len() - start);
        WindowView {
            lines: Seq::new(
                count as nat,
                |i: int| s.subrange(lines[start + i].start, lines[start + i].end),
            ),
            cursor_line: at.0 - start,
            cursor_col: at.1,
        }
    }
}

pub fn editable_text_window(
    s: &str,
    cursor: usize,
    max: usize,
    max_lines: usize,
    placeholder: &str,
) -> (r: EditableTextWindow)
    ensures
        r@ == text_window(s@, cursor as int, max as int, max_lines as int, placeholder@),
{
    let rows: usize = text::max_usize(max_lines, 1);
    if text::char_count(s) == 0 {
        let mut all = word_wrap(placeholder, max);
        let ghost w = text::views(all@);
        assert(w.len() == all@.len());
        if all.len() > rows {
            let gone = all.split_off(rows);
        }
        assert(text::views(all@) =~= w.take(text::min_int(w.len() as int, rows as int)));
        return EditableTextWindow { lines: all, cursor_line: 0, cursor_col: 0 };
    }
    let lines = editable_text_lines(s, max);
    let ghost v = lines_of_edit(lines@);
    assert(v.len() == lines@.len());
    let (row, col) = editable_text_cursor(s, cursor, &lines);
    let start: usize = row.saturating_sub(rows - 1);
    let n: usize = lines.len();
    let count: usize = text::min_usize(rows, n - start);
    let mut shown: Vec<String> = Vec::new();
    let mut i: usize = 0;
    while i < count
        invariant
            i <= count,
            start + count <= n == lines@.len(),
            v == lines_of_edit(lines@),
            texts_match(lines@, s@),
            shown@.len() == i,
            forall|k: int|
                0 <= k < i ==> #[trigger] shown@[k]@ == s@.subrange(
                    v[start + k].start,
                    v[start + k].end,
                ),
        decreases count - i,
    {
        assert(v[start + i].start == lines@[start + i].start_char);
        assert(v[start + i].end == lines@[start + i].end_char);
        shown.push(lines[start + i].text.clone());
        i = i + 1;
    }
    let r = EditableTextWindow { lines: shown, cursor_line: row - start, cursor_col: col };
    assert(r@.lines =~= text_window(
        s@,
        cursor as int,
        max as int,
        max_lines as int,
        placeholder@,
    ).lines);
    r
}

/// Whether the lines follow each other through the first `n` characters, with nothing but line
/// breaks between them.
pub open spec fn lines_follow(s: Seq<char>, e: EditedLines, n: int) -> bool {
    &&& 0 <= e.start <= n
    &&& e.lines.len() == 0 ==> e.start == 0
    &&& e.lines.len() > 0 ==> {
        &&& e.lines[0].start == 0
        &&& e.start == e.lines.last().end || (e.start == e.lines.last().end + 1
            && s[e.lines.last().end] == '\n')
    }
    &&& forall|i: int|
        0 <= i < e.lines.len() ==> 0 <= (#[trigger] e.lines[i]).start <= e.lines[i].end <= n
    &&& forall|i: int|
        0 < i < e.lines.len() ==> (#[trigger] e.lines[i]).start == e.lines[i - 1].end
            || e.lines[i].start == e.lines[i - 1].end + 1
}

proof fn lemma_lines_follow(s: Seq<char>, max: int, n: int)
    requires
        0 <= n <= s.len(),
    ensures
        lines_follow(s, edited(s, max, n), n),
    decreases n,
{
    if n > 0 {
        lemma_lines_follow(s, max, n - 1);
        let e = edited(s, max, n - 1);
        let f = edited(s, max, n);
        if f.lines.len() > e.lines.len() {
            assert forall|i: int| 0 < i < f.lines.len() implies (#[trigger] f.lines[i]).start
                == f.lines[i - 1].end || f.lines[i].start == f.lines[i - 1].end + 1 by {
                if i == e.lines.len() {
                    assert(f.lines[i - 1] == e.lines.last());
                } else {
                    assert(f.lines[i] == e.lines[i]);
                    assert(f.lines[i - 1] == e.lines[i - 1]);
                }
            }
        }
    }
}

proof fn lemma_line_at_found(lines: Seq<EditLineView>, cursor: int, n: int)
    requires
        0 < n <= lines.len(),
        lines[0].start == 0,
        0 <= cursor <= lines[n - 1].end,
        forall|i: int| 0 <= i < n ==> (#[trigger] lines[i]).start <= lines[i].end,
        forall|i: int|
            0 < i < n ==> (#[trigger] lines[i]).start == lines[i - 1].end || lines[i].start
                == lines[i - 1].end + 1,
    ensures
        line_at(lines, cursor, n) is Some,
    decreases n,
{
    if n > 1 && cursor <= lines[n - 2].end {
        lemma_line_at_found(lines, cursor, n - 1);
    } else if n > 1 {
        assert(lines[n - 1].start <= lines[n - 2].end + 1);
    }
}

/// Every place in a text, and the place behind it, is on one of its lines.
pub proof fn law_every_place_is_on_a_line(s: Seq<char>, max: int, cursor: int)
    requires
        0 <= cursor <= s.len(),
    ensures
        line_at(edit_lines(s, max), cursor, edit_lines(s, max).len() as int) is Some,
{
    let limit = text::max_int(max, 1);
    lemma_lines_follow(s, limit, s.len() as int);
    let e = edited(s, limit, s.len() as int);
    let all = edit_lines(s, max);
    assert forall|i: int| 0 < i < all.len() implies (#[trigger] all[i]).start == all[i - 1].end
        || all[i].start == all[i - 1].end + 1 by {
        if i < e.lines.len() {
            assert(all[i] == e.lines[i]);
            assert(all[i - 1] == e.lines[i - 1]);
        } else {
            assert(all[i - 1] == e.lines.last());
        }
    }
    lemma_line_at_found(all, cursor, all.len() as int);
}

proof fn lemma_line_at_range(lines: Seq<EditLineView>, cursor: int, n: int)
    requires
        0 <= n <= lines.len(),
    ensures
        line_at(lines, cursor, n) matches Some(i) ==> 0 <= i < n,
    decreases n,
{
    if n > 0 {
        lemma_line_at_range(lines, cursor, n - 1);
    }
}

/// The cursor is always on a line in sight, and no more lines are in sight than there is room
/// for.
pub proof fn law_cursor_is_in_sight(
    s: Seq<char>,
    cursor: int,
    max: int,
    max_lines: int,
    placeholder: Seq<char>,
)
    requires
        s.len() > 0,
    ensures
        ({
            let w = text_window(s, cursor, max, max_lines, placeholder);
            0 <= w.cursor_line < w.lines.len() <= text::max_int(max_lines, 1)
        }),
{
    let lines = edit_lines(s, max);
    lemma_line_at_range(lines, cursor, lines.len() as int);
}

/// The width of a box in a panel of the given width.
pub open spec fn box_width(w: int) -> int {
    text::min_int(text::max_int(w, 4), AGENT_EDITOR_MAX_WIDTH as int)
}

pub fn input_box_width(w: usize) -> (r: usize)
    ensures
        r == box_width(w as int),
{
    text::min_usize(text::max_usize(w, 4), AGENT_EDITOR_MAX_WIDTH)
}

/// The columns for text in a box.
pub open spec fn inner_width(w: int) -> int {
    text::max_int(text::minus(box_width(w), 4), 1)
}

pub fn input_box_inner_width(w: usize) -> (r: usize)
    ensures
        r == inner_width(w as int),
{
    text::max_usize(input_box_width(w).saturating_sub(4), 1)
}

/// The column of the cursor in a box of one line.
pub open spec fn box_column(value: Seq<char>, cursor: int) -> int {
    text::min_int(
        2 + width::unicode_str_width(text::first_chars(value, cursor)),
        usize::MAX as int,
    )
}

pub fn input_box_cursor_col(value: &str, cursor: usize) -> (r: usize)
    ensures
        r == box_column(value@, cursor as int),
{
    let prefix = text::take_chars(value, cursor);
    width::str_width(prefix.as_str()).saturating_add(2)
}

#[verifier::allow_in_spec]
pub fn border_style() -> (r: Style)
    returns
        (Style {
            fg: Some(crate::tui::line::Color::Rgb(80, 86, 96)),
            bg: None,
            bold: false,
            italic: false,
        }),
{
    line::rgb(80, 86, 96)
}

#[verifier::allow_in_spec]
pub fn placeholder_style() -> (r: Style)
    returns
        (Style {
            fg: Some(crate::tui::line::Color::Rgb(100, 106, 116)),
            bg: None,
            bold: false,
            italic: false,
        }),
{
    line::rgb(100, 106, 116)
}

/// The upper or the lower edge of a box.
pub open spec fn box_border(w: int, top: bool) -> LineView {
    let dashes = text::repeated('─', text::minus(w, 2));
    line::of_spans(
        seq![
            line::sp(
                if top {
                    "┌"@ + dashes + "┐"@
                } else {
                    "└"@ + dashes + "┘"@
                },
                border_style(),
            ),
        ],
    )
}

pub fn box_border_line(w: usize, top: bool) -> (r: Line)
    ensures
        r@ == box_border(w as int, top),
{
    let dashes = text::repeat('─', w.saturating_sub(2));
    let mut t = text::copy(
        if top {
            "┌"
        } else {
            "└"
        },
    );
    t.push_str(dashes.as_str());
    t.push_str(
        if top {
            "┐"
        } else {
            "┘"
        },
    );
    line::line1(line::span_of(t, border_style()))
}

/// A line of text in a box.
pub open spec fn box_content(s: Seq<char>, style: Style, w: int) -> LineView {
    let inner = text::minus(w, 4);
    let shown = width::cut_with_dots(s, inner);
    let pad = text::minus(inner, width::unicode_str_width(shown) as int);
    line::of_spans(
        seq![
            line::sp("│ "@, border_style()),
            line::sp(shown, style),
            line::raw(text::repeated(' ', pad)),
            line::sp(" │"@, border_style()),
        ],
    )
}

pub fn box_content_line(s: &str, style: Style, w: usize) -> (r: Line)
    ensures
        r@ == box_content(s@, style, w as int),
{
    let inner: usize = w.saturating_sub(4);
    let shown = width::truncate_str(s, inner);
    let pad: usize = inner.saturating_sub(width::str_width(shown.as_str()));
    let spaces = text::repeat(' ', pad);
    line::line4(
        line::span("│ ", border_style()),
        line::span_of(shown, style),
        line::raw_span(spaces.as_str()),
        line::span(" │", border_style()),
    )
}

/// The label above a box.
pub open spec fn label_line(label: Seq<char>, selected: bool) -> LineView {
    line::of_spans(
        seq![
            line::sp(
                label,
                if selected {
                    permission::chosen()
                } else {
                    permission::gray()
                },
            ),
        ],
    )
}

pub fn push_input_label(lines: &mut Vec<Line>, label: &str, selected: bool)
    ensures
        line::lines_view(final(lines)@) == line::lines_view(old(lines)@).push(
            label_line(label@, selected),
        ),
{
    line::push_line(
        lines,
        line::line1(
            line::span(
                label,
                if selected {
                    permission::chosen()
                } else {
                    permission::gray()
                },
            ),
        ),
    );
}

/// A box of one line.
pub open spec fn field_box(
    label: Seq<char>,
    value: Seq<char>,
    selected: bool,
    w: int,
    placeholder: Seq<char>,
) -> Seq<LineView> {
    let bw = box_width(w);
    seq![
        label_line(label, selected),
        box_border(bw, true),
        if value.len() == 0 {
            box_content(placeholder, placeholder_style(), bw)
        } else {
            box_content(value, line::plain(), bw)
        },
        box_border(bw, false),
    ]
}

pub fn editor_field_box(
    lines: &mut Vec<Line>,
    label: &str,
    value: &str,
    selected: bool,
    w: usize,
    placeholder: &str,
)
    ensures
        line::lines_view(final(lines)@) == line::lines_view(old(lines)@) + field_box(
            label@,
            value@,
            selected,
            w as int,
            placeholder@,
        ),
{
    let ghost before = line::lines_view(lines@);
    push_input_label(lines, label, selected);
    let bw: usize = input_box_width(w);
    line::push_line(lines, box_border_line(bw, true));
    if text::char_count(value) == 0 {
        line::push_line(lines, box_content_line(placeholder, placeholder_style(), bw));
    } else {
        line::push_line(lines, box_content_line(value, line::plain(), bw));
    }
    line::push_line(lines, box_border_line(bw, false));
    assert(line::lines_view(lines@) =~= before + field_box(
        label@,
        value@,
        selected,
        w as int,
        placeholder@,
    ));
}

/// A box of several lines.
pub open spec fn text_box(
    label: Seq<char>,
    value: Seq<char>,
    cursor: int,
    selected: bool,
    w: int,
    max_lines: int,
    placeholder: Seq<char>,
) -> Seq<LineView> {
    let bw = box_width(w);
    let window = text_window(value, cursor, inner_width(w), max_lines, placeholder);
    let style = if value.len() == 0 {
        placeholder_style()
    } else {
        line::plain()
    };
    seq![label_line(label, selected), box_border(bw, true)] + Seq::new(
        window.lines.len(),
        |i: int| box_content(window.lines[i], style, bw),
    ) + seq![box_border(bw, false)]
}

pub fn editor_text_box(
    lines: &mut Vec<Line>,
    label: &str,
    value: &str,
    cursor: usize,
    selected: bool,
    w: usize,
    max_lines: usize,
    placeholder: &str,
)
    ensures
        line::lines_view(final(lines)@) == line::lines_view(old(lines)@) + text_box(
            label@,
            value@,
            cursor as int,
            selected,
            w as int,
            max_lines as int,
            placeholder@,
        ),
{
    let ghost before = line::lines_view(lines@);
    push_input_label(lines, label, selected);
    let bw: usize = input_box_width(w);
    line::push_line(lines, box_border_line(bw, true));
    let window = editable_text_window(
        value,
        cursor,
        input_box_inner_width(w),
        max_lines,
        placeholder,
    );
    let style = if text::char_count(value) == 0 {
        placeholder_style()
    } else {
        line::plain()
    };
    let ghost texts = text::views(window.lines@);
    let ghost row = |i: int| box_content(texts[i], style, bw as int);
    let ghost head = line::lines_view(lines@);
    assert(head =~= before + seq![label_line(label@, selected), box_border(bw as int, true)]);
    let n: usize = window.lines.len();
    let mut i: usize = 0;
    assert(head =~= head + Seq::new(0, row));
    while i < n
        invariant
            i <= n == window.lines@.len(),
            texts == text::views(window.lines@),
            row == (|i: int| box_content(texts[i], style, bw as int)),
            line::lines_view(lines@) == head + Seq::new(i as nat, row),
        decreases n - i,
    {
        line::push_line(lines, box_content_line(window.lines[i].as_str(), style, bw));
        assert(head + Seq::new((i + 1) as nat, row) =~= (head + Seq::new(i as nat, row)).push(
            row(i as int),
        ));
        i = i + 1;
    }
    line::push_line(lines, box_border_line(bw, false));
    assert(line::lines_view(lines@) =~= before + text_box(
        label@,
        value@,
        cursor as int,
        selected,
        w as int,
        max_lines as int,
        placeholder@,
    ));
}

} // verus!
