//! How the input is broken into lines on the screen.
use crate::text;
use crate::width;
use vstd::prelude::*;

verus! {

/// One line of the input on the screen, by its range of characters.
#[derive(Debug, Clone, Copy, PartialEq, Eq, Structural)]
pub struct InputVisualLine {
    pub start_char: usize,
    pub end_char: usize,
}

/// How far the breaking of a text has come: the finished lines, and where the open line starts
/// and how wide it is.
pub struct Wrap {
    pub lines: Seq<InputVisualLine>,
    pub start: int,
    pub width: int,
}

/// The lines after the first `n` characters, when a line holds `capacity` columns. A line feed
/// ends a line; a character that no longer fits starts the next one.
pub open spec fn wrap(chars: Seq<char>, capacity: int, n: int) -> Wrap
    decreases n,
{
    if n <= 0 {
        Wrap { lines: Seq::empty(), start: 0, width: 0 }
    } else {
        let before = wrap(chars, capacity, n - 1);
        let ended = before.lines.push(
            InputVisualLine { start_char: before.start as usize, end_char: (n - 1) as usize },
        );
        let w = width::char_columns(chars[n - 1]);
        if chars[n - 1] == '\n' {
            Wrap { lines: ended, start: n, width: 0 }
        } else if before.width > 0 && before.width + w > capacity {
            Wrap { lines: ended, start: n - 1, width: w }
        } else {
            Wrap { lines: before.lines, start: before.start, width: before.width + w }
        }
    }
}

/// The lines of a text on a screen where a line holds `capacity` columns.
pub open spec fn visual_lines(chars: Seq<char>, capacity: int) -> Seq<InputVisualLine> {
    let w = wrap(chars, capacity, chars.len() as int);
    w.lines.push(InputVisualLine { start_char: w.start as usize, end_char: chars.len() as usize })
}

/// What `visual_lines` keeps true after `n` characters.
pub open spec fn wrap_ok(chars: Seq<char>, capacity: int, n: int) -> bool {
    let w = wrap(chars, capacity, n);
    &&& 0 <= w.start <= n
    &&& w.width == width::columns(chars.subrange(w.start, n))
    &&& w.lines.len() <= n
    &&& w.lines.len() == 0 ==> w.start == 0
    &&& w.lines.len() > 0 ==> w.lines[0].start_char == 0
    &&& forall|i: int|
        0 <= i < w.lines.len() ==> (#[trigger] w.lines[i]).start_char <= w.lines[i].end_char <= n
    &&& forall|i: int| 0 <= i < w.lines.len() ==> #[trigger] linked(chars, w.lines, w.start, i)
    &&& forall|k: int| w.start <= k < n ==> chars[k] != '\n'
    &&& forall|i: int, k: int|
        0 <= i < w.lines.len() && w.lines[i].start_char <= k < w.lines[i].end_char ==> (
        #[trigger] w.lines[i]).end_char == w.lines[i].end_char && #[trigger] chars[k] != '\n'
}

/// Whether a line that starts at `next` is the one after `line`: directly behind it, or behind
/// the line feed that ends it.
pub open spec fn follows(chars: Seq<char>, line: InputVisualLine, next: int) -> bool {
    ||| next == line.end_char && line.start_char < line.end_char
    ||| next == line.end_char + 1 && line.end_char < chars.len() && chars[line.end_char as int] == '\n'
}

/// Whether the line after line `i` follows it; the line after the last starts at `next`.
pub open spec fn linked(chars: Seq<char>, lines: Seq<InputVisualLine>, next: int, i: int) -> bool {
    follows(
        chars,
        lines[i],
        if i + 1 < lines.len() {
            lines[i + 1].start_char as int
        } else {
            next
        },
    )
}

proof fn lemma_wrap_ok(chars: Seq<char>, capacity: int, n: int)
    requires
        0 <= n <= chars.len() <= usize::MAX,
    ensures
        wrap_ok(chars, capacity, n),
    decreases n,
{
    if n == 0 {
        assert(chars.subrange(0, 0) =~= Seq::empty());
    } else {
        lemma_wrap_ok(chars, capacity, n - 1);
        let before = wrap(chars, capacity, n - 1);
        let w = wrap(chars, capacity, n);
        let c = chars[n - 1];
        if c == '\n' {
            assert(chars.subrange(n, n) =~= Seq::empty());
        } else if before.width > 0 && before.width + width::char_columns(c) > capacity {
            let one = chars.subrange(n - 1, n);
            assert(one.drop_last() =~= Seq::empty());
            assert(width::columns(one.drop_last()) == 0);
            assert(one.last() == c);
            assert(before.start < n - 1) by {
                if before.start == n - 1 {
                    assert(chars.subrange(before.start, n - 1) =~= Seq::empty());
                }
            }
        } else {
            let line = chars.subrange(before.start, n);
            assert(line.drop_last() =~= chars.subrange(before.start, n - 1));
            assert(line.last() == c);
        }
        assert forall|i: int| 0 <= i < w.lines.len() implies #[trigger] linked(
            chars,
            w.lines,
            w.start,
            i,
        ) by {
            if i < before.lines.len() {
                assert(linked(chars, before.lines, before.start, i));
                assert(w.lines[i] == before.lines[i]);
                if i + 1 < before.lines.len() {
                    assert(w.lines[i + 1] == before.lines[i + 1]);
                }
            }
        }
    }
}

/// The lines cover the text: the first starts at its start, the last ends at its end, each
/// starts where the one before ends or behind the line feed there, and none holds a line feed.
pub proof fn lemma_lines_partition(chars: Seq<char>, capacity: int)
    requires
        chars.len() <= usize::MAX,
    ensures
        ({
            let lines = visual_lines(chars, capacity);
            &&& 1 <= lines.len() <= chars.len() + 1
            &&& lines[0].start_char == 0
            &&& lines.last().end_char == chars.len()
            &&& forall|i: int|
                0 <= i < lines.len() ==> (#[trigger] lines[i]).start_char <= lines[i].end_char
                    <= chars.len()
            &&& forall|i: int|
                0 <= i < lines.len() - 1 ==> #[trigger] linked(
                    chars,
                    lines,
                    chars.len() as int,
                    i,
                )
            &&& forall|i: int, k: int|
                0 <= i < lines.len() && lines[i].start_char <= k < lines[i].end_char ==> (
                #[trigger] lines[i]).end_char == lines[i].end_char && #[trigger] chars[k] != '\n'
        }),
{
    lemma_wrap_ok(chars, capacity, chars.len() as int);
    let w = wrap(chars, capacity, chars.len() as int);
    let lines = visual_lines(chars, capacity);
    assert(lines.last().start_char == w.start);
    assert forall|i: int| 0 <= i < lines.len() - 1 implies #[trigger] linked(
        chars,
        lines,
        chars.len() as int,
        i,
    ) by {
        assert(linked(chars, w.lines, w.start, i));
        assert(lines[i] == w.lines[i]);
        if i + 1 < w.lines.len() {
            assert(lines[i + 1] == w.lines[i + 1]);
        }
    }
}

/// The open line is no wider than `capacity`, unless a single character already is.
pub open spec fn fits(s: Seq<char>, capacity: int) -> bool {
    width::columns(s) <= capacity || exists|k: int|
        0 <= k < s.len() && width::columns(s) == width::char_columns(#[trigger] s[k])
}

proof fn lemma_wrap_fits(chars: Seq<char>, capacity: int, n: int)
    requires
        0 <= n <= chars.len() <= usize::MAX,
        capacity >= 0,
    ensures
        forall|i: int|
            0 <= i < wrap(chars, capacity, n).lines.len() ==> fits(
                chars.subrange(
                    (#[trigger] wrap(chars, capacity, n).lines[i]).start_char as int,
                    wrap(chars, capacity, n).lines[i].end_char as int,
                ),
                capacity,
            ),
        fits(chars.subrange(wrap(chars, capacity, n).start, n), capacity),
    decreases n,
{
    lemma_wrap_ok(chars, capacity, n);
    if n == 0 {
        assert(chars.subrange(0, 0) =~= Seq::empty());
    } else {
        lemma_wrap_ok(chars, capacity, n - 1);
        lemma_wrap_fits(chars, capacity, n - 1);
        let before = wrap(chars, capacity, n - 1);
        let w = wrap(chars, capacity, n);
        let c = chars[n - 1];
        let line = chars.subrange(w.start, n);
        if c == '\n' {
            assert(line =~= Seq::empty());
        } else {
            assert(line.last() == c);
            if before.width > 0 && before.width + width::char_columns(c) > capacity {
                assert(line.drop_last() =~= Seq::empty());
                assert(width::columns(line.drop_last()) == 0);
                assert(width::columns(line) == width::char_columns(line[0]));
            } else {
                assert(line.drop_last() =~= chars.subrange(before.start, n - 1));
                width::lemma_columns_nonneg(line.drop_last());
                if before.width == 0 {
                    assert(width::columns(line) == width::char_columns(line[line.len() - 1]));
                }
            }
        }
        assert forall|i: int| 0 <= i < w.lines.len() implies fits(
            chars.subrange((#[trigger] w.lines[i]).start_char as int, w.lines[i].end_char as int),
            capacity,
        ) by {
            if i < before.lines.len() {
                assert(w.lines[i] == before.lines[i]);
            } else {
                assert(w.lines[i].start_char == before.start);
                assert(w.lines[i].end_char == n - 1);
            }
        }
    }
}

/// No line is wider than `capacity`, except where one character alone is: the line is then as
/// wide as that character.
pub proof fn lemma_lines_fit(chars: Seq<char>, capacity: int)
    requires
        chars.len() <= usize::MAX,
        capacity >= 0,
    ensures
        forall|i: int|
            0 <= i < visual_lines(chars, capacity).len() ==> fits(
                chars.subrange(
                    (#[trigger] visual_lines(chars, capacity)[i]).start_char as int,
                    visual_lines(chars, capacity)[i].end_char as int,
                ),
                capacity,
            ),
{
    lemma_wrap_ok(chars, capacity, chars.len() as int);
    lemma_wrap_fits(chars, capacity, chars.len() as int);
    let w = wrap(chars, capacity, chars.len() as int);
    let lines = visual_lines(chars, capacity);
    assert forall|i: int| 0 <= i < lines.len() implies fits(
        chars.subrange((#[trigger] lines[i]).start_char as int, lines[i].end_char as int),
        capacity,
    ) by {
        if i < w.lines.len() {
            assert(lines[i] == w.lines[i]);
        } else {
            assert(lines[i].start_char == w.start);
        }
    }
}

pub fn break_lines(chars: &Vec<char>, capacity: usize) -> (r: Vec<InputVisualLine>)
    requires
        capacity < usize::MAX,
    ensures
        r@ == visual_lines(chars@, capacity as int),
        r@.len() >= 1,
{
    let mut lines: Vec<InputVisualLine> = Vec::new();
    let mut start: usize = 0;
    let mut width: usize = 0;
    let mut idx: usize = 0;
    let n: usize = chars.len();
    while idx < n
        invariant
            idx <= n,
            n == chars@.len(),
            capacity < usize::MAX,
            ({
                let w = wrap(chars@, capacity as int, idx as int);
                lines@ == w.lines && start == w.start && width == w.width
            }),
            start <= idx,
        decreases chars@.len() - idx,
    {
        let ch = chars[idx];
        if ch == '\n' {
            lines.push(InputVisualLine { start_char: start, end_char: idx });
            start = idx + 1;
            width = 0;
        } else {
            let w = width::char_width(ch);
            if width > 0 && width.saturating_add(w) > capacity {
                lines.push(InputVisualLine { start_char: start, end_char: idx });
                start = idx;
                width = 0;
            }
            width = width + w;
        }
        idx = idx + 1;
    }
    lines.push(InputVisualLine { start_char: start, end_char: chars.len() });
    lines
}

/// The line that shows the position `cursor`: the first whose range holds it, else the last.
pub open spec fn line_of(lines: Seq<InputVisualLine>, cursor: int, from: int) -> int
    decreases lines.len() - from,
{
    if from >= lines.len() {
        lines.len() - 1
    } else if lines[from].start_char <= cursor <= lines[from].end_char {
        from
    } else {
        line_of(lines, cursor, from + 1)
    }
}

pub proof fn lemma_line_of(lines: Seq<InputVisualLine>, cursor: int, from: int)
    requires
        0 <= from,
        lines.len() > 0,
    ensures
        0 <= line_of(lines, cursor, from) < lines.len(),
    decreases lines.len() - from,
{
    if from < lines.len() {
        lemma_line_of(lines, cursor, from + 1);
    }
}

pub fn find_line(lines: &Vec<InputVisualLine>, cursor: usize) -> (r: usize)
    requires
        lines@.len() > 0,
    ensures
        r == line_of(lines@, cursor as int, 0),
        r < lines@.len(),
{
    proof {
        lemma_line_of(lines@, cursor as int, 0);
    }
    let mut i: usize = 0;
    while i < lines.len()
        invariant
            i <= lines@.len(),
            line_of(lines@, cursor as int, 0) == line_of(lines@, cursor as int, i as int),
        decreases lines@.len() - i,
    {
        if cursor >= lines[i].start_char && cursor <= lines[i].end_char {
            return i;
        }
        i = i + 1;
    }
    lines.len() - 1
}

/// The first position in `chars[from..to]` that at least `col` columns precede, or `to`.
pub open spec fn position_at(chars: Seq<char>, from: int, to: int, col: int) -> int
    decreases to - from,
{
    if from >= to || col <= 0 {
        from
    } else {
        position_at(chars, from + 1, to, col - width::char_columns(chars[from]))
    }
}

pub fn find_position(chars: &Vec<char>, from: usize, to: usize, col: usize) -> (r: usize)
    requires
        from <= to <= chars@.len(),
    ensures
        r == position_at(chars@, from as int, to as int, col as int),
        from <= r <= to,
{
    let mut i: usize = from;
    let mut seen: usize = 0;
    while i < to && seen < col
        invariant
            from <= i <= to <= chars@.len(),
            position_at(chars@, from as int, to as int, col as int) == position_at(
                chars@,
                i as int,
                to as int,
                col - seen,
            ) || (seen >= col && position_at(chars@, from as int, to as int, col as int) == i),
        decreases to - i,
    {
        let ghost w = width::char_columns(chars@[i as int]);
        assert(position_at(chars@, i as int, to as int, col - seen) == position_at(
            chars@,
            i + 1,
            to as int,
            col - seen - w,
        ));
        seen = seen.saturating_add(width::char_width(chars[i]));
        i = i + 1;
    }
    i
}

} // verus!
