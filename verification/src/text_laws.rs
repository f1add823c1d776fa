//! What holds of the pieces of a text: its lines, its words, and what it is joined from.
use crate::text;
use crate::text::cut_at;
use crate::text::joined;
use crate::text::lines_of;
use crate::text::split_on;
use crate::text::trimmed;
use crate::text::trimmed_end;
use crate::text::trimmed_start;
use crate::text::white;
use crate::text::words_of;
use vstd::prelude::*;

verus! {

/// Splitting undoes joining: the pieces of two texts with the character between them are the
/// pieces of the one and then those of the other.
pub proof fn law_split_both(s: Seq<char>, t: Seq<char>, c: char)
    ensures
        split_on(s + seq![c] + t, c) == split_on(s, c) + split_on(t, c),
    decreases t.len(),
{
    let whole = s + seq![c] + t;
    text::lemma_split_nonempty(t, c);
    if t.len() == 0 {
        assert(whole.drop_last() =~= s);
        assert(split_on(whole, c) =~= split_on(s, c) + split_on(t, c));
    } else {
        law_split_both(s, t.drop_last(), c);
        text::lemma_split_nonempty(t.drop_last(), c);
        assert(whole.drop_last() =~= s + seq![c] + t.drop_last());
        let p = split_on(s, c);
        let q = split_on(t.drop_last(), c);
        assert(split_on(whole.drop_last(), c) == p + q);
        assert((p + q).last() == q.last());
        assert(split_on(whole, c) =~= p + split_on(t, c));
    }
}

/// A text without the character is one piece.
pub proof fn law_split_none(s: Seq<char>, c: char)
    requires
        !s.contains(c),
    ensures
        split_on(s, c) == seq![s],
    decreases s.len(),
{
    if s.len() > 0 {
        assert(s[s.len() - 1] != c);
        assert forall|i: int| 0 <= i < s.drop_last().len() implies s.drop_last()[i] != c by {
            assert(s[i] != c);
        }
        law_split_none(s.drop_last(), c);
        assert(split_on(s, c) =~= seq![s]) by {
            assert(s.drop_last().push(s.last()) =~= s);
        }
    } else {
        assert(s =~= Seq::empty());
    }
}

/// Splitting a text at the character that its parts were joined with gives back the parts.
pub proof fn law_split_undoes_join(parts: Seq<Seq<char>>, c: char)
    requires
        parts.len() > 0,
        forall|i: int| 0 <= i < parts.len() ==> !(#[trigger] parts[i]).contains(c),
    ensures
        split_on(joined(parts, seq![c]), c) == parts,
    decreases parts.len(),
{
    if parts.len() == 1 {
        law_split_none(parts[0], c);
        assert(parts =~= seq![parts[0]]);
    } else {
        let less = parts.drop_last();
        assert forall|i: int| 0 <= i < less.len() implies !(#[trigger] less[i]).contains(c) by {
            assert(parts[i] == less[i]);
        }
        law_split_undoes_join(less, c);
        law_split_both(joined(less, seq![c]), parts.last(), c);
        law_split_none(parts.last(), c);
        assert(less + seq![parts.last()] =~= parts);
    }
}

/// Whether a text is one line: it holds no line feed, and no carriage return ends it.
pub open spec fn one_line(s: Seq<char>) -> bool {
    !s.contains('\n') && (s.len() > 0 ==> s.last() != '\r')
}

/// The lines of a text are read back as they were written, where each is one line and the last
/// is not empty.
pub proof fn law_lines_are_read_back(lines: Seq<Seq<char>>)
    requires
        lines.len() > 0,
        lines.last().len() > 0,
        forall|i: int| 0 <= i < lines.len() ==> one_line(#[trigger] lines[i]),
    ensures
        lines_of(joined(lines, "\n"@)) == lines,
{
    reveal_strlit("\n");
    assert("\n"@ =~= seq!['\n']);
    law_split_undoes_join(lines, '\n');
    let read = lines_of(joined(lines, "\n"@));
    assert(read =~= lines);
}

/// A line that ends in a carriage return and a line feed is read as one that ends in a line feed.
pub proof fn law_both_line_ends_are_read_alike(s: Seq<char>, t: Seq<char>)
    requires
        one_line(s),
        one_line(t),
        t.len() > 0,
    ensures
        lines_of(s + seq!['\n'] + t) == seq![s, t],
        lines_of(s.push('\r') + seq!['\n'] + t) == seq![s, t],
{
    law_split_both(s, t, '\n');
    law_split_none(s, '\n');
    law_split_none(t, '\n');
    assert forall|i: int| 0 <= i < s.push('\r').len() implies s.push('\r')[i] != '\n' by {
        if i < s.len() {
            assert(s[i] != '\n');
        }
    }
    law_split_both(s.push('\r'), t, '\n');
    law_split_none(s.push('\r'), '\n');
    assert(seq![s] + seq![t] =~= seq![s, t]);
    assert(s.push('\r').drop_last() =~= s);
    assert(lines_of(s + seq!['\n'] + t) =~= seq![s, t]);
    assert(lines_of(s.push('\r') + seq!['\n'] + t) =~= seq![s, t]);
}

/// Trimming takes all white space off both ends and nothing else.
pub proof fn law_trimmed(a: Seq<char>, s: Seq<char>, b: Seq<char>)
    requires
        forall|i: int| 0 <= i < a.len() ==> white(#[trigger] a[i]),
        forall|i: int| 0 <= i < b.len() ==> white(#[trigger] b[i]),
        s.len() > 0 ==> !white(s[0]) && !white(s.last()),
    ensures
        trimmed(a + s + b) == s,
{
    lemma_start_off(a, s + b);
    assert(a + s + b =~= a + (s + b));
    if s.len() == 0 {
        assert(s + b =~= b);
        lemma_start_all_white(b);
        lemma_end_off(Seq::empty(), Seq::empty());
        assert(s =~= Seq::empty());
    } else {
        assert((s + b)[0] == s[0]);
        lemma_end_off(s, b);
    }
}

proof fn lemma_start_off(a: Seq<char>, s: Seq<char>)
    requires
        forall|i: int| 0 <= i < a.len() ==> white(#[trigger] a[i]),
    ensures
        trimmed_start(a + s) == trimmed_start(s),
    decreases a.len(),
{
    if a.len() > 0 {
        assert((a + s)[0] == a[0]);
        assert((a + s).skip(1) =~= a.skip(1) + s);
        assert forall|i: int| 0 <= i < a.skip(1).len() implies white(#[trigger] a.skip(1)[i]) by {
            assert(a[i + 1] == a.skip(1)[i]);
        }
        lemma_start_off(a.skip(1), s);
    } else {
        assert(a + s =~= s);
    }
}

proof fn lemma_start_all_white(a: Seq<char>)
    requires
        forall|i: int| 0 <= i < a.len() ==> white(#[trigger] a[i]),
    ensures
        trimmed_start(a) == Seq::<char>::empty(),
    decreases a.len(),
{
    if a.len() > 0 {
        assert(white(a[0]));
        assert forall|i: int| 0 <= i < a.skip(1).len() implies white(#[trigger] a.skip(1)[i]) by {
            assert(a[i + 1] == a.skip(1)[i]);
        }
        lemma_start_all_white(a.skip(1));
    } else {
        assert(a =~= Seq::empty());
    }
}

proof fn lemma_end_off(s: Seq<char>, b: Seq<char>)
    requires
        forall|i: int| 0 <= i < b.len() ==> white(#[trigger] b[i]),
        s.len() > 0 ==> !white(s.last()),
    ensures
        trimmed_end(s + b) == s,
    decreases b.len(),
{
    if b.len() > 0 {
        assert((s + b).last() == b[b.len() - 1]);
        assert((s + b).drop_last() =~= s + b.drop_last());
        lemma_end_off(s, b.drop_last());
    } else {
        assert(s + b =~= s);
    }
}

/// A text with no white space at its ends is its own trimmed form.
pub proof fn lemma_trimmed_is_same(s: Seq<char>)
    requires
        s.len() > 0 ==> !white(s[0]) && !white(s.last()),
    ensures
        trimmed(s) == s,
{
    law_trimmed(Seq::empty(), s, Seq::empty());
    assert(Seq::<char>::empty() + s + Seq::<char>::empty() =~= s);
}

pub proof fn lemma_char_from(s: Seq<char>, c: char, from: int, at: int)
    requires
        0 <= from <= at < s.len(),
        s[at] == c,
        forall|i: int| from <= i < at ==> s[i] != c,
    ensures
        text::char_from(s, c, from) == Some(at),
    decreases at - from,
{
    if from < at {
        assert(s[from] != c);
        lemma_char_from(s, c, from + 1, at);
    }
}

pub proof fn lemma_no_char_from(s: Seq<char>, c: char, from: int)
    requires
        0 <= from,
        forall|i: int| from <= i < s.len() ==> s[i] != c,
    ensures
        text::char_from(s, c, from) is None,
    decreases s.len() - from,
{
    if from < s.len() {
        lemma_no_char_from(s, c, from + 1);
    }
}

/// A text is cut at the first place of a character: what stands before it does not hold it.
pub proof fn law_cut_at_the_first(a: Seq<char>, c: char, b: Seq<char>)
    requires
        !a.contains(c),
    ensures
        cut_at(a + seq![c] + b, c) == Some((a, b)),
        cut_at(a, c) is None,
{
    let s = a + seq![c] + b;
    assert forall|i: int| 0 <= i < a.len() implies s[i] != c && a[i] != c by {
        assert(a.contains(a[i]));
    }
    lemma_char_from(s, c, 0, a.len() as int);
    lemma_no_char_from(a, c, 0);
    assert(s.take(a.len() as int) =~= a);
    assert(s.skip(a.len() as int + 1) =~= b);
}

/// Whether a text is a word: not empty, and without white space.
pub open spec fn is_word(w: Seq<char>) -> bool {
    w.len() > 0 && forall|i: int| 0 <= i < w.len() ==> !white(#[trigger] w[i])
}

/// The words of a text hold no white space, and none is empty.
pub proof fn law_words_are_words(s: Seq<char>)
    ensures
        forall|i: int| 0 <= i < words_of(s).len() ==> is_word(#[trigger] words_of(s)[i]),
    decreases s.len(),
{
    if s.len() > 0 {
        law_words_are_words(s.drop_last());
        let before = words_of(s.drop_last());
        let all = words_of(s);
        assert forall|i: int| 0 <= i < all.len() implies is_word(#[trigger] all[i]) by {
            if i < before.len() {
                assert(is_word(before[i]));
                if all[i] != before[i] {
                    let w = before.last();
                    assert(all[i] == w.push(s.last()));
                    assert forall|k: int| 0 <= k < all[i].len() implies !white(
                        #[trigger] all[i][k],
                    ) by {
                        if k < w.len() {
                            assert(all[i][k] == w[k]);
                        }
                    }
                }
            }
        }
    }
}

} // verus!
