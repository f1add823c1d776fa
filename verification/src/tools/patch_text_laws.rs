//! A patch that is written is read back, and does to the files what it says.
use crate::text;
use crate::text::decimal;
use crate::text::joined;
use crate::text::lines_of;
use crate::text::trimmed;
use crate::text_laws;
use crate::tools::apply_patch_tool::add_block;
use crate::tools::apply_patch_tool::anchor_of;
use crate::tools::apply_patch_tool::blank;
use crate::tools::apply_patch_tool::digits_from;
use crate::tools::apply_patch_tool::header_value;
use crate::tools::apply_patch_tool::hunk_at;
use crate::tools::apply_patch_tool::hunk_body;
use crate::tools::apply_patch_tool::ops_from;
use crate::tools::apply_patch_tool::past_blank;
use crate::tools::apply_patch_tool::patch_of;
use crate::tools::apply_patch_tool::update_block;
use crate::tools::apply_patch_tool::Body;
use crate::tools::apply_patch_tool::HunkView;
use crate::tools::apply_patch_tool::OpView;
use crate::tools::apply_patch_tool::Parsed;
use crate::tools::apply_patch_tool::Update;
use crate::tools::patch_run;
use crate::tools::patch_steps::op_next;
use crate::tools::patch_steps::ActionView;
use crate::tools::patch_steps::EventView;
use crate::tools::patch_steps::StateView;
use vstd::prelude::*;

verus! {

/// A line of a hunk as it is written: kept, taken out or put in.
pub enum HunkLine {
    Kept(Seq<char>),
    Gone(Seq<char>),
    New(Seq<char>),
}

/// A hunk as it is written.
pub struct WrittenHunk {
    pub anchor: int,
    pub lines: Seq<HunkLine>,
    pub at_end: bool,
}

/// An operation as it is written.
pub enum WrittenOp {
    Add { path: Seq<char>, content: Seq<Seq<char>> },
    Delete { path: Seq<char> },
    Update { path: Seq<char>, target: Option<Seq<char>>, hunks: Seq<WrittenHunk> },
}

/// The lines that have to be there for a hunk: those that are kept and those that go.
pub open spec fn old_lines(lines: Seq<HunkLine>) -> Seq<Seq<char>>
    decreases lines.len(),
{
    if lines.len() == 0 {
        Seq::empty()
    } else {
        let before = old_lines(lines.drop_last());
        match lines.last() {
            HunkLine::Kept(t) => before.push(t),
            HunkLine::Gone(t) => before.push(t),
            HunkLine::New(_) => before,
        }
    }
}

/// The lines that a hunk leaves: those that are kept and those that are new.
pub open spec fn new_lines(lines: Seq<HunkLine>) -> Seq<Seq<char>>
    decreases lines.len(),
{
    if lines.len() == 0 {
        Seq::empty()
    } else {
        let before = new_lines(lines.drop_last());
        match lines.last() {
            HunkLine::Kept(t) => before.push(t),
            HunkLine::New(t) => before.push(t),
            HunkLine::Gone(_) => before,
        }
    }
}

/// What a hunk means.
pub open spec fn hunk_meant(h: WrittenHunk) -> HunkView {
    HunkView {
        line_anchor: h.anchor,
        before: old_lines(h.lines),
        after: new_lines(h.lines),
        is_end_of_file: h.at_end,
    }
}

/// What an operation means.
pub open spec fn op_meant(op: WrittenOp) -> OpView {
    match op {
        WrittenOp::Add { path, content } => OpView::Add { path, content },
        WrittenOp::Delete { path } => OpView::Delete { path },
        WrittenOp::Update { path, target, hunks } => OpView::Update {
            path,
            new_path: target,
            hunks: hunks.map_values(|h: WrittenHunk| hunk_meant(h)),
        },
    }
}

/// A line of a hunk with its mark.
pub open spec fn hunk_line_text(l: HunkLine) -> Seq<char> {
    match l {
        HunkLine::Kept(t) => seq![' '] + t,
        HunkLine::Gone(t) => seq!['-'] + t,
        HunkLine::New(t) => seq!['+'] + t,
    }
}

/// The lines of a patch that a hunk is written on.
pub open spec fn hunk_text(h: WrittenHunk) -> Seq<Seq<char>> {
    seq!["@@ L"@ + decimal(h.anchor)] + h.lines.map_values(|l: HunkLine| hunk_line_text(l)) + (
    if h.at_end {
        seq!["*** End of File"@]
    } else {
        Seq::empty()
    })
}

pub open spec fn hunks_text(hunks: Seq<WrittenHunk>, n: int) -> Seq<Seq<char>>
    decreases n,
{
    if n <= 0 {
        Seq::empty()
    } else {
        hunks_text(hunks, n - 1) + hunk_text(hunks[n - 1])
    }
}

/// The lines of a patch that an operation is written on.
pub open spec fn op_text(op: WrittenOp) -> Seq<Seq<char>> {
    match op {
        WrittenOp::Add { path, content } => seq!["*** Add File: "@ + path] + content.map_values(
            |l: Seq<char>| seq!['+'] + l,
        ),
        WrittenOp::Delete { path } => seq!["*** Delete File: "@ + path],
        WrittenOp::Update { path, target, hunks } => seq!["*** Update File: "@ + path] + (
        match target {
            Some(t) => seq!["*** Move to: "@ + t],
            None => Seq::empty(),
        }) + hunks_text(hunks, hunks.len() as int),
    }
}

pub open spec fn ops_text(ops: Seq<WrittenOp>, n: int) -> Seq<Seq<char>>
    decreases n,
{
    if n <= 0 {
        Seq::empty()
    } else {
        ops_text(ops, n - 1) + op_text(ops[n - 1])
    }
}

/// The lines of a patch.
pub open spec fn patch_lines(ops: Seq<WrittenOp>) -> Seq<Seq<char>> {
    seq!["*** Begin Patch"@] + ops_text(ops, ops.len() as int) + seq!["*** End Patch"@]
}

/// Whether a path is read back as it is.
pub open spec fn plain_path(path: Seq<char>) -> bool {
    path.len() > 0 && trimmed(path) == path && text_laws::one_line(path)
}

/// Whether a hunk is read back as it is: it has lines, none of them could be taken for the mark of
/// the end of the file, and the first not for another anchor.
pub open spec fn plain_hunk(h: WrittenHunk) -> bool {
    &&& 1 <= h.anchor <= usize::MAX
    &&& h.lines.len() > 0
    &&& !text::has_prefix(trimmed(hunk_line_text(h.lines[0])), "@@"@)
    &&& forall|i: int|
        0 <= i < h.lines.len() ==> trimmed(hunk_line_text(#[trigger] h.lines[i]))
            != "*** End of File"@ && text_laws::one_line(hunk_line_text(h.lines[i]))
}

pub open spec fn plain_op(op: WrittenOp) -> bool {
    match op {
        WrittenOp::Add { path, content } => plain_path(path) && forall|i: int|
            0 <= i < content.len() ==> text_laws::one_line(#[trigger] content[i]),
        WrittenOp::Delete { path } => plain_path(path),
        WrittenOp::Update { path, target, hunks } => {
            &&& plain_path(path)
            &&& target matches Some(t) ==> plain_path(t)
            &&& forall|i: int| 0 <= i < hunks.len() ==> plain_hunk(#[trigger] hunks[i])
        },
    }
}

proof fn lemma_digit(d: int)
    requires
        0 <= d < 10,
    ensures
        text::digit_value(text::digit(d)) == Some(d),
{
}

/// A number that is written in decimal is read back.
pub proof fn law_decimal_is_read_back(n: int)
    requires
        0 <= n,
    ensures
        text::decimal_value(decimal(n)) == Some(n),
        decimal(n).len() > 0,
        forall|i: int|
            0 <= i < decimal(n).len() ==> text::digit_value(#[trigger] decimal(n)[i]) is Some,
    decreases n,
{
    if n < 10 {
        lemma_digit(n);
        reveal_with_fuel(text::decimal_value, 2);
        assert(seq![text::digit(n)].drop_last() =~= Seq::empty());
    } else {
        law_decimal_is_read_back(n / 10);
        lemma_digit(n % 10);
        let s = decimal(n / 10);
        let all = decimal(n);
        assert(all.drop_last() =~= s);
        assert forall|i: int| 0 <= i < all.len() implies text::digit_value(
            #[trigger] all[i],
        ) is Some by {
            if i < s.len() {
                assert(all[i] == s[i]);
            }
        }
    }
}

proof fn lemma_all_digits(s: Seq<char>, from: int)
    requires
        0 <= from <= s.len(),
        forall|i: int| from <= i < s.len() ==> text::digit_value(#[trigger] s[i]) is Some,
    ensures
        digits_from(s, from) == s.skip(from),
    decreases s.len() - from,
{
    if from < s.len() {
        lemma_all_digits(s, from + 1);
        assert(seq![s[from]] + s.skip(from + 1) =~= s.skip(from));
    } else {
        assert(s.skip(from) =~= Seq::empty());
    }
}

/// An anchor is read as the line that it names.
pub proof fn law_anchor_is_read_back(n: int)
    requires
        1 <= n <= usize::MAX,
    ensures
        anchor_of("@@ L"@ + decimal(n)) == Some(n),
        trimmed("@@ L"@ + decimal(n)) == "@@ L"@ + decimal(n),
{
    reveal_strlit("@@ L");
    reveal_strlit("@@");
    law_decimal_is_read_back(n);
    let d = decimal(n);
    let line = "@@ L"@ + d;
    let last = d[d.len() - 1];
    assert(text::digit_value(last) is Some);
    assert(line.last() == last);
    text_laws::lemma_trimmed_is_same(line);
    assert(line.take(2) =~= "@@"@);
    let content = seq!['L'] + d;
    text_laws::law_trimmed(seq![' '], content, Seq::empty());
    assert(content.last() == last);
    assert(line.skip(2) =~= seq![' '] + content + Seq::<char>::empty());
    text_laws::lemma_char_from(content, 'L', 0, 0);
    assert forall|i: int| 1 <= i < content.len() implies text::digit_value(
        #[trigger] content[i],
    ) is Some by {
        assert(content[i] == d[i - 1]);
    }
    lemma_all_digits(content, 1);
    assert(content.skip(1) =~= d);
}

/// A header is read as what stands behind it.
proof fn lemma_header(head: Seq<char>, path: Seq<char>)
    requires
        head.len() > 0,
        !text::white(head[0]),
        plain_path(path),
    ensures
        trimmed(head + path) == head + path,
        header_value(head + path, head) == Some(path),
        text_laws::one_line(head + path) <== !head.contains('\n'),
{
    let line = head + path;
    text::lemma_trimmed_ends(path);
    assert(line[0] == head[0]);
    assert(line.last() == path.last());
    text_laws::lemma_trimmed_is_same(line);
    assert(line.take(head.len() as int) =~= head);
    assert(line.skip(head.len() as int) =~= path);
    if !head.contains('\n') {
        assert forall|i: int| 0 <= i < line.len() implies line[i] != '\n' by {
            if i < head.len() {
                assert(head.contains(head[i]));
            } else {
                assert(path.contains(path[i - head.len()]));
            }
        }
    }
}

proof fn lemma_other_head(line: Seq<char>, head: Seq<char>, k: int)
    requires
        trimmed(line) == line,
        0 <= k < head.len(),
        k < line.len(),
        line[k] != head[k],
    ensures
        header_value(line, head) is None,
        !text::has_prefix(line, head),
{
    if text::has_prefix(line, head) {
        assert(line.take(head.len() as int)[k] == head[k]);
    }
}

proof fn lemma_not_blank(line: Seq<char>)
    requires
        line.len() > 0,
        trimmed(line) == line,
    ensures
        !blank(line),
{
}

proof fn lemma_marked_line(mark: char, t: Seq<char>)
    requires
        !text::white(mark),
    ensures
        !blank(seq![mark] + t),
{
    let s = seq![mark] + t;
    assert(s[0] == mark);
    assert(text::trimmed_start(s) == s);
    lemma_end_keeps_first(s);
}

proof fn lemma_end_keeps_first(s: Seq<char>)
    requires
        s.len() > 0,
        !text::white(s[0]),
    ensures
        text::trimmed_end(s).len() > 0,
        text::trimmed_end(s)[0] == s[0],
    decreases s.len(),
{
    if text::white(s.last()) {
        lemma_end_keeps_first(s.drop_last());
    }
}

/// Whether the line at `at` begins something new behind a block: an operation, or the end.
spec fn new_part(lines: Seq<Seq<char>>, at: int) -> bool {
    &&& 0 <= at < lines.len()
    &&& lines[at].len() > 4
    &&& lines[at].take(4) == "*** "@
    &&& trimmed(lines[at]) == lines[at]
    &&& lines[at] != "*** End of File"@
    &&& !text::has_prefix(lines[at], "*** Move to: "@)
}

proof fn lemma_new_part(lines: Seq<Seq<char>>, at: int)
    requires
        new_part(lines, at),
    ensures
        past_blank(lines, at) == at,
        lines[at][0] == '*',
        text::has_prefix(lines[at], "*** "@),
        !text::has_prefix(lines[at], "@@"@),
        !text::has_prefix(lines[at], seq!['+']),
        !text::has_prefix(lines[at], seq!['-']),
        !text::has_prefix(lines[at], seq![' ']),
        header_value(lines[at], "*** Move to: "@) is None,
{
    reveal_strlit("*** ");
    reveal_strlit("@@");
    lemma_not_blank(lines[at]);
    assert(lines[at].take(4)[0] == lines[at][0]);
    lemma_other_head(lines[at], "@@"@, 0);
    lemma_other_head(lines[at], seq!['+'], 0);
    lemma_other_head(lines[at], seq!['-'], 0);
    lemma_other_head(lines[at], seq![' '], 0);
}

proof fn lemma_add_read(
    lines: Seq<Seq<char>>,
    from: int,
    content: Seq<Seq<char>>,
    j: int,
)
    requires
        0 <= from,
        0 <= j <= content.len(),
        from + content.len() < lines.len(),
        forall|i: int|
            0 <= i < content.len() ==> #[trigger] lines[from + i] == seq!['+'] + content[i],
        new_part(lines, from + content.len()),
    ensures
        add_block(lines, from + j, content.take(j)) == Parsed::Good(
            content,
            from + content.len(),
        ),
    decreases content.len() - j,
{
    let at = from + j;
    if j < content.len() {
        assert(lines[from + j] == seq!['+'] + content[j]);
        lemma_marked_line('+', content[j]);
        assert(past_blank(lines, at) == at);
        assert(lines[at].take(1) =~= seq!['+']);
        assert(lines[at].skip(1) =~= content[j]);
        assert(content.take(j).push(content[j]) =~= content.take(j + 1));
        lemma_add_read(lines, from, content, j + 1);
    } else {
        lemma_new_part(lines, at);
        assert(content.take(j) =~= content);
    }
}

proof fn lemma_take_line(lines: Seq<HunkLine>, j: int)
    requires
        0 <= j < lines.len(),
    ensures
        old_lines(lines.take(j + 1)) == (match lines[j] {
            HunkLine::Kept(t) => old_lines(lines.take(j)).push(t),
            HunkLine::Gone(t) => old_lines(lines.take(j)).push(t),
            HunkLine::New(_) => old_lines(lines.take(j)),
        }),
        new_lines(lines.take(j + 1)) == (match lines[j] {
            HunkLine::Kept(t) => new_lines(lines.take(j)).push(t),
            HunkLine::New(t) => new_lines(lines.take(j)).push(t),
            HunkLine::Gone(_) => new_lines(lines.take(j)),
        }),
{
    assert(lines.take(j + 1).drop_last() =~= lines.take(j));
}

/// Whether the line at `at` is none of a hunk: an anchor, an operation, or the end.
spec fn behind_hunk(lines: Seq<Seq<char>>, at: int) -> bool {
    &&& 0 <= at < lines.len()
    &&& lines[at].len() > 0
    &&& trimmed(lines[at]) == lines[at]
    &&& lines[at] != "*** End of File"@
    &&& lines[at][0] == '@' || lines[at][0] == '*'
}

proof fn lemma_body_read(lines: Seq<Seq<char>>, from: int, h: WrittenHunk, j: int)
    requires
        plain_hunk(h),
        0 <= from,
        0 <= j <= h.lines.len(),
        forall|i: int|
            0 <= i < h.lines.len() ==> #[trigger] lines[from + i] == hunk_line_text(h.lines[i]),
        h.at_end ==> lines[from + h.lines.len()] == "*** End of File"@,
        behind_hunk(
            lines,
            from + h.lines.len() + (if h.at_end {
                1int
            } else {
                0
            }),
        ),
    ensures
        hunk_body(
            lines,
            from + j,
            Body {
                before: old_lines(h.lines.take(j)),
                after: new_lines(h.lines.take(j)),
                is_end_of_file: false,
            },
        ) == (
            Body {
                before: old_lines(h.lines),
                after: new_lines(h.lines),
                is_end_of_file: h.at_end,
            },
            from + h.lines.len() + (if h.at_end {
                1int
            } else {
                0
            }),
        ),
    decreases h.lines.len() - j,
{
    let at = from + j;
    let n = h.lines.len() as int;
    if j < n {
        assert(lines[from + j] == hunk_line_text(h.lines[j]));
        assert(trimmed(hunk_line_text(h.lines[j])) != "*** End of File"@);
        lemma_take_line(h.lines, j);
        let l = lines[at];
        let t = match h.lines[j] {
            HunkLine::Kept(t) => t,
            HunkLine::Gone(t) => t,
            HunkLine::New(t) => t,
        };
        lemma_mark(l, ' ');
        lemma_mark(l, '-');
        lemma_mark(l, '+');
        assert(l.skip(1) =~= t);
        lemma_body_read(lines, from, h, j + 1);
    } else {
        assert(h.lines.take(j) =~= h.lines);
        let end = at + (if h.at_end {
            1int
        } else {
            0
        });
        let e = lines[end];
        lemma_mark(e, ' ');
        lemma_mark(e, '-');
        lemma_mark(e, '+');
        reveal_with_fuel(hunk_body, 3);
        if h.at_end {
            lemma_end_mark();
        }
    }
}

proof fn lemma_mark(l: Seq<char>, c: char)
    requires
        l.len() > 0,
    ensures
        text::has_prefix(l, seq![c]) == (l[0] == c),
{
    assert(l.take(1) =~= seq![l[0]]);
    assert(seq![c][0] == c);
    assert(seq![l[0]][0] == l[0]);
}

proof fn lemma_end_mark()
    ensures
        trimmed("*** End of File"@) == "*** End of File"@,
{
    reveal_strlit("*** End of File");
    text_laws::lemma_trimmed_is_same("*** End of File"@);
}

/// Whether the lines of `part` stand in `lines` from `at` on.
spec fn stands(lines: Seq<Seq<char>>, part: Seq<Seq<char>>, at: int) -> bool {
    &&& 0 <= at
    &&& at + part.len() <= lines.len()
    &&& forall|i: int| 0 <= i < part.len() ==> #[trigger] lines[at + i] == part[i]
}

proof fn lemma_stands_parts(lines: Seq<Seq<char>>, a: Seq<Seq<char>>, b: Seq<Seq<char>>, at: int)
    requires
        stands(lines, a + b, at),
    ensures
        stands(lines, a, at),
        stands(lines, b, at + a.len()),
{
    assert forall|i: int| 0 <= i < a.len() implies #[trigger] lines[at + i] == a[i] by {
        assert(lines[at + i] == (a + b)[i]);
    }
    assert forall|i: int| 0 <= i < b.len() implies #[trigger] lines[at + a.len() + i] == b[i] by {
        assert(lines[at + (a.len() + i)] == (a + b)[a.len() + i]);
    }
}

proof fn lemma_hunk_read(lines: Seq<Seq<char>>, at: int, h: WrittenHunk)
    requires
        plain_hunk(h),
        stands(lines, hunk_text(h), at),
        behind_hunk(lines, at + hunk_text(h).len()),
    ensures
        hunk_at(lines, at) == Parsed::Good(hunk_meant(h), at + hunk_text(h).len()),
        past_blank(lines, at) == at,
        behind_hunk(lines, at),
        text::has_prefix(trimmed(lines[at]), "@@"@),
        header_value(lines[at], "*** Move to: "@) is None,
{
    let anchor = "@@ L"@ + decimal(h.anchor);
    let body = h.lines.map_values(|l: HunkLine| hunk_line_text(l));
    let end = if h.at_end {
        seq!["*** End of File"@]
    } else {
        Seq::empty()
    };
    lemma_stands_parts(lines, seq![anchor] + body, end, at);
    lemma_stands_parts(lines, seq![anchor], body, at);
    assert(lines[at + 0] == seq![anchor][0]);
    law_anchor_is_read_back(h.anchor);
    reveal_strlit("@@ L");
    reveal_strlit("@@");
    reveal_strlit("*** Move to: ");
    reveal_strlit("*** End of File");
    assert(anchor.take(2) =~= "@@"@);
    lemma_not_blank(anchor);
    lemma_other_head(anchor, "*** Move to: "@, 0);
    assert forall|i: int| 0 <= i < h.lines.len() implies #[trigger] lines[at + 1 + i]
        == hunk_line_text(h.lines[i]) by {
        assert(lines[at + 1 + i] == body[i]);
    }
    assert(lines[at + 1 + 0] == hunk_line_text(h.lines[0]));
    if h.at_end {
        assert(lines[at + (seq![anchor] + body).len() + 0] == end[0]);
    }
    assert(h.lines.take(0) =~= Seq::empty());
    lemma_body_read(lines, at + 1, h, 0);
    lemma_some_line(h.lines);
    assert(hunk_text(h).len() == 1 + h.lines.len() + end.len());
}

proof fn lemma_some_line(lines: Seq<HunkLine>)
    requires
        lines.len() > 0,
    ensures
        old_lines(lines).len() > 0 || new_lines(lines).len() > 0,
{
}

proof fn lemma_hunks_read(
    lines: Seq<Seq<char>>,
    at: int,
    hunks: Seq<WrittenHunk>,
    k: int,
    target: Option<Seq<char>>,
)
    requires
        0 <= k <= hunks.len(),
        forall|i: int| 0 <= i < hunks.len() ==> plain_hunk(#[trigger] hunks[i]),
        stands(lines, hunks_text(hunks, hunks.len() as int), at),
        new_part(lines, at + hunks_text(hunks, hunks.len() as int).len()),
    ensures
        update_block(
            lines,
            at + hunks_text(hunks, k).len(),
            Update {
                hunks: hunks.take(k).map_values(|h: WrittenHunk| hunk_meant(h)),
                new_path: target,
            },
        ) == Parsed::Good(
            Update {
                hunks: hunks.map_values(|h: WrittenHunk| hunk_meant(h)),
                new_path: target,
            },
            at + hunks_text(hunks, hunks.len() as int).len(),
        ),
    decreases hunks.len() - k,
{
    let n = hunks.len() as int;
    let here = at + hunks_text(hunks, k).len();
    let end = at + hunks_text(hunks, n).len();
    if k < n {
        lemma_hunks_parts(lines, at, hunks, k + 1);
        lemma_stands_parts(lines, hunks_text(hunks, k), hunk_text(hunks[k]), at);
        lemma_next_is_behind(lines, at, hunks, k + 1);
        lemma_hunk_read(lines, here, hunks[k]);
        let done = hunks.take(k).map_values(|h: WrittenHunk| hunk_meant(h));
        assert(hunks.take(k + 1).map_values(|h: WrittenHunk| hunk_meant(h)) =~= done.push(
            hunk_meant(hunks[k]),
        ));
        lemma_hunks_read(lines, at, hunks, k + 1, target);
    } else {
        lemma_new_part(lines, end);
        assert(hunks.take(k) =~= hunks);
    }
}

proof fn lemma_hunks_parts(lines: Seq<Seq<char>>, at: int, hunks: Seq<WrittenHunk>, k: int)
    requires
        0 <= k <= hunks.len(),
        stands(lines, hunks_text(hunks, hunks.len() as int), at),
    ensures
        stands(lines, hunks_text(hunks, k), at),
    decreases hunks.len() - k,
{
    if k < hunks.len() {
        lemma_hunks_parts(lines, at, hunks, k + 1);
        lemma_stands_parts(lines, hunks_text(hunks, k), hunk_text(hunks[k]), at);
    }
}

proof fn lemma_next_is_behind(lines: Seq<Seq<char>>, at: int, hunks: Seq<WrittenHunk>, k: int)
    requires
        0 <= k <= hunks.len(),
        forall|i: int| 0 <= i < hunks.len() ==> plain_hunk(#[trigger] hunks[i]),
        stands(lines, hunks_text(hunks, hunks.len() as int), at),
        new_part(lines, at + hunks_text(hunks, hunks.len() as int).len()),
    ensures
        behind_hunk(lines, at + hunks_text(hunks, k).len()),
{
    let here = at + hunks_text(hunks, k).len();
    if k < hunks.len() {
        lemma_hunks_parts(lines, at, hunks, k + 1);
        lemma_stands_parts(lines, hunks_text(hunks, k), hunk_text(hunks[k]), at);
        let anchor = "@@ L"@ + decimal(hunks[k].anchor);
        assert(plain_hunk(hunks[k]));
        assert(hunk_text(hunks[k])[0] == anchor);
        assert(lines[here + 0] == anchor);
        law_anchor_is_read_back(hunks[k].anchor);
        reveal_strlit("@@ L");
        reveal_strlit("*** End of File");
    } else {
        lemma_new_part(lines, here);
    }
}

/// Whether two texts differ in one of their first characters.
spec fn differ(a: Seq<char>, b: Seq<char>) -> bool {
    exists|k: int| 0 <= k < 13 && a[k] != #[trigger] b[k]
}

/// The first line of an operation, and the line that ends the patch.
proof fn lemma_heads()
    ensures
        ({
            let heads = seq![
                "*** Add File: "@,
                "*** Update File: "@,
                "*** Delete File: "@,
                "*** Move to: "@,
                "*** End Patch"@,
                "*** End of File"@,
                "*** Begin Patch"@,
            ];
            &&& forall|i: int, j: int|
                0 <= i < 7 && 0 <= j < 7 && i != j ==> differ(
                    #[trigger] heads[i],
                    #[trigger] heads[j],
                )
            &&& forall|i: int|
                0 <= i < 7 ==> (#[trigger] heads[i]).len() >= 13 && heads[i].take(4) == "*** "@
                    && !text::white(heads[i][0]) && !heads[i].contains('\n')
        }),
        trimmed("*** End Patch"@) == "*** End Patch"@,
        trimmed("*** Begin Patch"@) == "*** Begin Patch"@,
{
    reveal_strlit("*** Add File: ");
    reveal_strlit("*** Update File: ");
    reveal_strlit("*** Delete File: ");
    reveal_strlit("*** Move to: ");
    reveal_strlit("*** End Patch");
    reveal_strlit("*** End of File");
    reveal_strlit("*** Begin Patch");
    reveal_strlit("*** ");
    let heads = seq![
        "*** Add File: "@,
        "*** Update File: "@,
        "*** Delete File: "@,
        "*** Move to: "@,
        "*** End Patch"@,
        "*** End of File"@,
        "*** Begin Patch"@,
    ];
    assert forall|i: int, j: int| 0 <= i < 7 && 0 <= j < 7 && i != j implies differ(
        #[trigger] heads[i],
        #[trigger] heads[j],
    ) by {
        if heads[i][4] == heads[j][4] {
            assert(heads[i][8] != heads[j][8]);
        }
    }
    assert forall|i: int| 0 <= i < 7 implies (#[trigger] heads[i]).len() >= 13 && heads[i].take(4)
        == "*** "@ && !text::white(heads[i][0]) && !heads[i].contains('\n') by {
        assert(heads[i].take(4) =~= "*** "@);
        assert forall|k: int| 0 <= k < heads[i].len() implies heads[i][k] != '\n' by {}
    }
    text_laws::lemma_trimmed_is_same("*** End Patch"@);
    text_laws::lemma_trimmed_is_same("*** Begin Patch"@);
}

/// A line that starts with one of the heads is no line of the others.
proof fn lemma_line_of(head: Seq<char>, path: Seq<char>, i: int, j: int)
    requires
        0 <= i < 7,
        0 <= j < 7,
        i != j,
        head == heads_of()[i],
        trimmed(head + path) == head + path,
    ensures
        header_value(head + path, heads_of()[j]) is None,
        !text::has_prefix(head + path, heads_of()[j]),
        head + path != heads_of()[j],
{
    lemma_heads();
    let heads = heads_of();
    let other = heads[j];
    assert(heads[i].len() >= 13 && heads[j].len() >= 13);
    assert(differ(heads[i], heads[j]));
    let k = choose|k: int| 0 <= k < 13 && heads[i][k] != #[trigger] heads[j][k];
    assert((head + path)[k] == head[k]);
    lemma_other_head(head + path, other, k);
}

spec fn heads_of() -> Seq<Seq<char>> {
    seq![
        "*** Add File: "@,
        "*** Update File: "@,
        "*** Delete File: "@,
        "*** Move to: "@,
        "*** End Patch"@,
        "*** End of File"@,
        "*** Begin Patch"@,
    ]
}

/// Which head an operation begins with, and what stands behind it.
spec fn head_of(op: WrittenOp) -> (int, Seq<char>) {
    match op {
        WrittenOp::Add { path, content } => (0, path),
        WrittenOp::Update { path, target, hunks } => (1, path),
        WrittenOp::Delete { path } => (2, path),
    }
}

proof fn lemma_op_line(op: WrittenOp)
    requires
        plain_op(op),
    ensures
        ({
            let (i, path) = head_of(op);
            let line = heads_of()[i] + path;
            &&& op_text(op).len() > 0
            &&& op_text(op)[0] == line
            &&& trimmed(line) == line
            &&& header_value(line, heads_of()[i]) == Some(path)
            &&& forall|j: int| 0 <= j < 7 && j != i ==> header_value(line, #[trigger] heads_of()[j])
                is None && line != heads_of()[j] && !text::has_prefix(line, heads_of()[j])
            &&& line.len() > 4
            &&& line.take(4) == "*** "@
        }),
{
    let (i, path) = head_of(op);
    let line = heads_of()[i] + path;
    lemma_heads();
    assert(heads_of()[i].len() >= 13);
    lemma_header(heads_of()[i], path);
    assert forall|j: int| 0 <= j < 7 && j != i implies header_value(line, #[trigger] heads_of()[j])
        is None && line != heads_of()[j] && !text::has_prefix(line, heads_of()[j]) by {
        lemma_line_of(heads_of()[i], path, i, j);
    }
    assert(line.take(4) =~= heads_of()[i].take(4));
}

proof fn lemma_op_begins(lines: Seq<Seq<char>>, at: int, op: WrittenOp)
    requires
        plain_op(op),
        stands(lines, op_text(op), at),
    ensures
        new_part(lines, at),
{
    lemma_op_line(op);
    assert(lines[at + 0] == op_text(op)[0]);
    let (i, path) = head_of(op);
    assert(heads_of()[5] == "*** End of File"@ && heads_of()[3] == "*** Move to: "@);
}

/// One operation is read, and reading goes on behind it.
proof fn lemma_op_read(lines: Seq<Seq<char>>, at: int, op: WrittenOp, found: Seq<OpView>)
    requires
        plain_op(op),
        stands(lines, op_text(op), at),
        new_part(lines, at + op_text(op).len()),
    ensures
        ops_from(lines, at, found) == ops_from(
            lines,
            at + op_text(op).len(),
            found.push(op_meant(op)),
        ),
{
    lemma_op_line(op);
    lemma_op_begins(lines, at, op);
    lemma_new_part(lines, at);
    assert(lines[at + 0] == op_text(op)[0]);
    let heads = heads_of();
    assert(heads[0] == "*** Add File: "@ && heads[1] == "*** Update File: "@ && heads[2]
        == "*** Delete File: "@ && heads[4] == "*** End Patch"@);
    match op {
        WrittenOp::Add { path, content } => {
            let body = content.map_values(|l: Seq<char>| seq!['+'] + l);
            lemma_stands_parts(lines, seq!["*** Add File: "@ + path], body, at);
            assert forall|i: int| 0 <= i < content.len() implies #[trigger] lines[at + 1 + i]
                == seq!['+'] + content[i] by {
                assert(lines[at + 1 + i] == body[i]);
            }
            assert(content.take(0) =~= Seq::empty());
            lemma_add_read(lines, at + 1, content, 0);
        },
        WrittenOp::Delete { path } => {},
        WrittenOp::Update { path, target, hunks } => {
            let first = seq!["*** Update File: "@ + path];
            let move_line = match target {
                Some(t) => seq!["*** Move to: "@ + t],
                None => Seq::empty(),
            };
            let n = hunks.len() as int;
            lemma_stands_parts(lines, first + move_line, hunks_text(hunks, n), at);
            lemma_stands_parts(lines, first, move_line, at);
            assert(hunks.take(0) =~= Seq::empty());
            let none = hunks.take(0).map_values(|h: WrittenHunk| hunk_meant(h));
            assert(none =~= Seq::empty());
            let from = at + 1 + move_line.len();
            lemma_hunks_read(lines, from, hunks, 0, target);
            if target is Some {
                lemma_heads();
                let line = "*** Move to: "@ + target->0;
                assert(heads[3] == "*** Move to: "@);
                assert(heads[3].len() >= 13);
                lemma_header("*** Move to: "@, target->0);
                assert(lines[at + 1 + 0] == move_line[0]);
                lemma_not_blank(line);
                assert(past_blank(lines, at + 1) == at + 1);
            }
        },
    }
}

proof fn lemma_ops_parts(lines: Seq<Seq<char>>, at: int, ops: Seq<WrittenOp>, k: int)
    requires
        0 <= k <= ops.len(),
        stands(lines, ops_text(ops, ops.len() as int), at),
    ensures
        stands(lines, ops_text(ops, k), at),
    decreases ops.len() - k,
{
    if k < ops.len() {
        lemma_ops_parts(lines, at, ops, k + 1);
        lemma_stands_parts(lines, ops_text(ops, k), op_text(ops[k]), at);
    }
}

proof fn lemma_ops_read(lines: Seq<Seq<char>>, ops: Seq<WrittenOp>, k: int)
    requires
        0 <= k <= ops.len(),
        forall|i: int| 0 <= i < ops.len() ==> plain_op(#[trigger] ops[i]),
        stands(lines, ops_text(ops, ops.len() as int), 1),
        1 + ops_text(ops, ops.len() as int).len() < lines.len(),
        lines[1int + ops_text(ops, ops.len() as int).len()] == "*** End Patch"@,
    ensures
        ops_from(
            lines,
            1int + ops_text(ops, k).len(),
            ops.take(k).map_values(|o: WrittenOp| op_meant(o)),
        ) == Parsed::Good(
            ops.map_values(|o: WrittenOp| op_meant(o)),
            2int + ops_text(ops, ops.len() as int).len(),
        ),
    decreases ops.len() - k,
{
    let n = ops.len() as int;
    let end = 1int + ops_text(ops, n).len();
    lemma_heads();
    reveal_strlit("*** End Patch");
    reveal_strlit("*** End of File");
    reveal_strlit("*** Move to: ");
    reveal_strlit("*** ");
    assert("*** End Patch"@.take(4) =~= "*** "@);
    lemma_other_head("*** End Patch"@, "*** Move to: "@, 4);
    assert("*** End of File"@.len() == 15 && "*** End Patch"@.len() == 13);
    assert(new_part(lines, end));
    if k < n {
        lemma_ops_parts(lines, 1, ops, k + 1);
        lemma_stands_parts(lines, ops_text(ops, k), op_text(ops[k]), 1);
        let next = 1int + ops_text(ops, k + 1).len();
        if k + 1 < n {
            lemma_ops_parts(lines, 1, ops, k + 2);
            lemma_stands_parts(lines, ops_text(ops, k + 1), op_text(ops[k + 1]), 1);
            lemma_op_begins(lines, next as int, ops[k + 1]);
        }
        let done = ops.take(k).map_values(|o: WrittenOp| op_meant(o));
        lemma_op_read(lines, 1int + ops_text(ops, k).len(), ops[k], done);
        assert(ops.take(k + 1).map_values(|o: WrittenOp| op_meant(o)) =~= done.push(
            op_meant(ops[k]),
        ));
        lemma_ops_read(lines, ops, k + 1);
    } else {
        lemma_new_part(lines, end as int);
        assert(ops.take(k) =~= ops);
    }
}

/// A patch is read as what it says: its operations in their order, with their paths, the lines
/// that are added, where a file moves to, and for each hunk the line that it names, the lines
/// that have to be there and the lines that take their place.
pub proof fn law_patch_is_read_back(ops: Seq<WrittenOp>, text: Seq<char>)
    requires
        forall|i: int| 0 <= i < ops.len() ==> plain_op(#[trigger] ops[i]),
        lines_of(text) == patch_lines(ops),
    ensures
        patch_of(text) == Ok::<Seq<OpView>, Seq<char>>(
            ops.map_values(|o: WrittenOp| op_meant(o)),
        ),
{
    let lines = patch_lines(ops);
    let n = ops.len() as int;
    let body = ops_text(ops, n);
    lemma_heads();
    reveal_strlit("*** Begin Patch");
    lemma_not_blank("*** Begin Patch"@);
    assert(lines[0] == "*** Begin Patch"@);
    assert(past_blank(lines, 0) == 0);
    assert forall|i: int| 0 <= i < body.len() implies #[trigger] lines[1 + i] == body[i] by {}
    assert(lines[1 + body.len() as int] == "*** End Patch"@);
    assert(ops.take(0).map_values(|o: WrittenOp| op_meant(o)) =~= Seq::empty());
    lemma_ops_read(lines, ops, 0);
}

/// The files by their paths, and what comes of an action on them where the outside does what it
/// is asked.
pub open spec fn performed(files: Map<Seq<char>, Seq<char>>, action: ActionView) -> (
    Map<Seq<char>, Seq<char>>,
    EventView,
) {
    match action {
        ActionView::Look(path) => (files, EventView::Exists(files.contains_key(path))),
        ActionView::MakeParent(_) => (files, EventView::Succeeded),
        ActionView::Read(path) => (files, EventView::Content(files[path])),
        ActionView::Write { path, content } => (files.insert(path, content), EventView::Succeeded),
        ActionView::Rename { from, to } => (
            files.remove(from).insert(to, files[from]),
            EventView::Succeeded,
        ),
        ActionView::Remove(path) => (files.remove(path), EventView::Succeeded),
        _ => (files, EventView::Succeeded),
    }
}

/// The files and the last action once an operation has ended, after at most `n` actions.
pub open spec fn carried_out(
    op: OpView,
    state: StateView,
    event: EventView,
    files: Map<Seq<char>, Seq<char>>,
    n: nat,
) -> (Map<Seq<char>, Seq<char>>, ActionView)
    decreases n,
{
    let (next, action) = op_next(op, state, event);
    if n == 0 || action is Done || action is GiveUp {
        (files, action)
    } else {
        let (after, came) = performed(files, action);
        carried_out(op, next, came, after, (n - 1) as nat)
    }
}

/// An added file is there with the lines that the patch gives, and no other file is touched. One
/// that was there already stays as it was, and the operation fails.
pub proof fn law_added_file_is_there(
    path: Seq<char>,
    content: Seq<Seq<char>>,
    files: Map<Seq<char>, Seq<char>>,
)
    ensures
        ({
            let (after, last) = carried_out(
                OpView::Add { path, content },
                StateView::Fresh,
                EventView::Begin,
                files,
                8,
            );
            if files.contains_key(path) {
                after == files && last is GiveUp
            } else {
                after == files.insert(path, joined(content, "\n"@)) && last is Done
            }
        }),
{
    reveal_with_fuel(carried_out, 9);
}

/// A deleted file is gone, and no other file is touched. Where there is none the operation fails.
pub proof fn law_deleted_file_is_gone(path: Seq<char>, files: Map<Seq<char>, Seq<char>>)
    ensures
        ({
            let (after, last) = carried_out(
                OpView::Delete { path },
                StateView::Fresh,
                EventView::Begin,
                files,
                8,
            );
            if files.contains_key(path) {
                after == files.remove(path) && last is Done
            } else {
                after == files && last is GiveUp
            }
        }),
{
    reveal_with_fuel(carried_out, 9);
}

/// An updated file has the lines that the hunks make of it, under its new path where it moves, and
/// no other file is touched. Where a hunk does not fit nothing is changed, and the operation
/// fails.
pub proof fn law_updated_file_is_changed(
    path: Seq<char>,
    target: Option<Seq<char>>,
    hunks: Seq<HunkView>,
    files: Map<Seq<char>, Seq<char>>,
)
    ensures
        ({
            let (after, last) = carried_out(
                OpView::Update { path, new_path: target, hunks },
                StateView::Fresh,
                EventView::Begin,
                files,
                8,
            );
            let made = patch_run::updated(
                path,
                lines_of(files[path]),
                hunks,
                hunks.len() as int,
            );
            match made {
                Ok(p) => if files.contains_key(path) {
                    let content = joined(p.lines, "\n"@);
                    &&& last is Done
                    &&& after == (match target {
                        Some(t) => files.remove(path).insert(t, content),
                        None => files.insert(path, content),
                    })
                } else {
                    after == files && last is GiveUp
                },
                Err(_) => after == files && last is GiveUp,
            }
        }),
{
    reveal_with_fuel(carried_out, 9);
    let made = patch_run::updated(path, lines_of(files[path]), hunks, hunks.len() as int);
    if made is Ok && files.contains_key(path) && target is Some {
        let content = joined(made->Ok_0.lines, "\n"@);
        assert(files.insert(path, content).remove(path) =~= files.remove(path));
    }
}

} // verus!
