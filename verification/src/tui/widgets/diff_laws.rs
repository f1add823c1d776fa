//! What is shown of an edit tells both the text before it and the text after it.
use crate::text;
use crate::tui::widgets::file_mutation;
use crate::tui::widgets::file_mutation::DiffStep;
use crate::tui::widgets::file_mutation::RowView;
use vstd::prelude::*;

verus! {

/// Whether a row shows `line` with `mark` in front of it.
pub open spec fn shows(t: Seq<char>, mark: char, line: Seq<char>) -> bool {
    &&& t.len() >= line.len() + 5
    &&& t.skip(t.len() - line.len()) == line
    &&& t[t.len() - line.len() - 4] == mark
}

/// Whether a row starts with the number of a line.
pub open spec fn starts_with_number(t: Seq<char>, number: int, width: int) -> bool {
    let digits = text::filled(text::decimal(number), width);
    t.len() > digits.len() && t.take(digits.len() as int) == digits && t[digits.len() as int] == ' '
}

/// Whether the rows tell how `before` became `after`: lines that stay are shown as such, lines that
/// go only as gone, and lines that come only as new, each in its place and, where lines are
/// `numbered`, at its number. An empty line that stays may be left out.
pub open spec fn tell(
    rows: Seq<RowView>,
    before: Seq<Seq<char>>,
    after: Seq<Seq<char>>,
    number: int,
    numbered: bool,
    width: int,
) -> bool
    decreases before.len() + after.len(),
{
    if rows.len() > 0 && match rows[0] {
        RowView::Context(t) => before.len() > 0 && after.len() > 0 && before[0] == after[0]
            && shows(t, ' ', before[0]) && tell(
            rows.skip(1),
            before.skip(1),
            after.skip(1),
            number + 1,
            numbered,
            width,
        ),
        RowView::Delete(t) => before.len() > 0 && shows(t, '-', before[0]) && (numbered
            ==> starts_with_number(t, number, width)) && tell(
            rows.skip(1),
            before.skip(1),
            after,
            number + 1,
            numbered,
            width,
        ),
        RowView::Add(t) => after.len() > 0 && shows(t, '+', after[0]) && tell(
            rows.skip(1),
            before,
            after.skip(1),
            number,
            numbered,
            width,
        ),
    } {
        true
    } else if before.len() > 0 && after.len() > 0 && before[0].len() == 0 && after[0].len() == 0
        && tell(rows, before.skip(1), after.skip(1), number + 1, numbered, width) {
        true
    } else {
        rows.len() == 0 && before.len() == 0 && after.len() == 0
    }
}

proof fn lemma_line(number: Option<int>, marker: Seq<char>, mark: char, line: Seq<char>, width: int)
    requires
        marker == seq![mark],
    ensures
        shows(file_mutation::diff_line(number, marker, line, width), mark, line),
        number matches Some(n) ==> starts_with_number(
            file_mutation::diff_line(number, marker, line, width),
            n,
            width,
        ),
{
    reveal_strlit(" ");
    reveal_strlit("   ");
    let front = match number {
        Some(n) => text::filled(text::decimal(n), width),
        None => text::repeated(' ', width),
    };
    let t = file_mutation::diff_line(number, marker, line, width);
    assert(t == front + " "@ + marker + "   "@ + line);
    assert(" "@.len() == 1 && "   "@.len() == 3);
    assert(t.len() == front.len() + 5 + line.len());
    assert(t.skip(t.len() - line.len()) =~= line);
    assert(t[front.len() as int + 1] == mark);
    assert(t.take(front.len() as int) =~= front);
    assert(t[front.len() as int] == " "@[0]);
}

proof fn lemma_told_from(
    before: Seq<Seq<char>>,
    after: Seq<Seq<char>>,
    o: int,
    n: int,
    number: int,
    numbered: bool,
    after_insert: bool,
    width: int,
)
    requires
        0 <= o <= before.len(),
        0 <= n <= after.len(),
    ensures
        tell(
            file_mutation::diff_rows(before, after, o, n, number, numbered, after_insert, width),
            before.skip(o),
            after.skip(n),
            number,
            numbered,
            width,
        ),
    decreases before.len() - o + after.len() - n,
{
    let rows = file_mutation::diff_rows(
        before,
        after,
        o,
        n,
        number,
        numbered,
        after_insert,
        width,
    );
    let b = before.skip(o);
    let a = after.skip(n);
    if !(o >= before.len() && n >= after.len()) {
        reveal_strlit(" ");
        reveal_strlit("-");
        reveal_strlit("+");
        assert(" "@ =~= seq![' '] && "-"@ =~= seq!['-'] && "+"@ =~= seq!['+']);
        let shown = file_mutation::number_of(numbered, number);
        let step = file_mutation::diff_step(before, after, o, n);
        if o < before.len() {
            assert(b.skip(1) =~= before.skip(o + 1));
            lemma_line(shown, " "@, ' ', before[o], width);
            lemma_line(None, " "@, ' ', before[o], width);
            lemma_line(shown, "-"@, '-', before[o], width);
        }
        if n < after.len() {
            assert(a.skip(1) =~= after.skip(n + 1));
            lemma_line(shown, "+"@, '+', after[n], width);
        }
        if step is Same {
            lemma_told_from(before, after, o + 1, n + 1, number + 1, numbered, false, width);
            let rest = file_mutation::diff_rows(
                before,
                after,
                o + 1,
                n + 1,
                number + 1,
                numbered,
                false,
                width,
            );
            if after_insert && before[o].len() == 0 {
            } else {
                assert(rows.skip(1) =~= rest);
            }
        } else if step is Change {
            lemma_told_from(before, after, o + 1, n + 1, number + 1, numbered, false, width);
            let rest = file_mutation::diff_rows(
                before,
                after,
                o + 1,
                n + 1,
                number + 1,
                numbered,
                false,
                width,
            );
            let tail = rows.skip(1);
            assert(tail.len() > 0);
            assert(tail.skip(1) =~= rest);
            assert(tell(tail.skip(1), b.skip(1), a.skip(1), number + 1, numbered, width));
            assert(tail[0] == RowView::Add(
                file_mutation::diff_line(shown, "+"@, after[n], width),
            ));
            assert(tell(tail, b.skip(1), a, number + 1, numbered, width));
        } else if step is Remove {
            lemma_told_from(before, after, o + 1, n, number + 1, numbered, false, width);
            assert(rows.skip(1) =~= file_mutation::diff_rows(
                before,
                after,
                o + 1,
                n,
                number + 1,
                numbered,
                false,
                width,
            ));
        } else {
            if n >= after.len() {
                assert(o < before.len());
            }
            lemma_told_from(before, after, o, n + 1, number, numbered, true, width);
            assert(rows.skip(1) =~= file_mutation::diff_rows(
                before,
                after,
                o,
                n + 1,
                number,
                numbered,
                true,
                width,
            ));
        }
    }
}

/// The rows of an edit tell how the old lines became the new ones.
pub proof fn law_edit_is_told(
    before: Seq<Seq<char>>,
    after: Seq<Seq<char>>,
    number: int,
    numbered: bool,
    width: int,
)
    ensures
        tell(
            file_mutation::diff_rows(before, after, 0, 0, number, numbered, false, width),
            before,
            after,
            number,
            numbered,
            width,
        ),
{
    lemma_told_from(before, after, 0, 0, number, numbered, false, width);
    assert(before.skip(0) =~= before);
    assert(after.skip(0) =~= after);
}

} // verus!
