//! Breaking text into lines of a given width.
use crate::text;
use crate::width;
use vstd::prelude::*;

verus! {

/// The place behind the last white space among the first `n` characters, or 0.
pub open spec fn last_break(s: Seq<char>, n: int) -> int
    decreases n,
{
    if n <= 0 {
        0
    } else if text::white(s[n - 1]) {
        n
    } else {
        last_break(s, n - 1)
    }
}

/// How many characters of `s` stand on its first line: as many as fit, back to the last white
/// space where a word would be broken, and always at least one.
pub open spec fn piece_end(s: Seq<char>, max: int) -> int {
    let fit = width::fitting(s, max);
    if fit <= 0 {
        1
    } else if fit < s.len() && !text::white(s[fit]) && last_break(s, fit) > 0 {
        last_break(s, fit)
    } else {
        fit
    }
}

proof fn lemma_last_break(s: Seq<char>, n: int)
    requires
        0 <= n <= s.len(),
    ensures
        0 <= last_break(s, n) <= n,
    decreases n,
{
    if n > 0 && !text::white(s[n - 1]) {
        lemma_last_break(s, n - 1);
    }
}

pub proof fn lemma_piece_end(s: Seq<char>, max: int)
    requires
        s.len() > 0,
    ensures
        1 <= piece_end(s, max) <= s.len(),
        piece_end(s, max) == 1 || piece_end(s, max) <= width::fitting(s, max),
{
    width::lemma_fitting_range(s, max);
    lemma_last_break(s, width::fitting(s, max));
}

pub proof fn lemma_trimmed_start_len(s: Seq<char>)
    ensures
        text::trimmed_start(s).len() <= s.len(),
    decreases s.len(),
{
    if s.len() > 0 && text::white(s[0]) {
        lemma_trimmed_start_len(s.skip(1));
    }
}

/// The lines that `s` is broken into. White space at a break is dropped.
pub open spec fn pieces(s: Seq<char>, max: int) -> Seq<Seq<char>>
    decreases s.len(),
{
    if s.len() == 0 {
        Seq::empty()
    } else {
        proof {
            lemma_piece_end(s, max);
            lemma_trimmed_start_len(s.skip(piece_end(s, max)));
        }
        let end = piece_end(s, max);
        seq![text::trimmed_end(s.take(end))] + pieces(text::trimmed_start(s.skip(end)), max)
    }
}

/// One line of a text: left alone where it is narrow enough.
pub open spec fn wrapped_line(s: Seq<char>, max: int) -> Seq<Seq<char>> {
    if width::unicode_str_width(s) <= max {
        seq![s]
    } else {
        pieces(s, max)
    }
}

/// The lines of a text, each broken by itself.
pub open spec fn wrapped_lines(lines: Seq<Seq<char>>, max: int) -> Seq<Seq<char>>
    decreases lines.len(),
{
    if lines.len() == 0 {
        Seq::empty()
    } else {
        wrapped_lines(lines.drop_last(), max) + wrapped_line(lines.last(), max)
    }
}

/// A text broken into lines of at most `max` columns. A width of nothing breaks nothing.
pub open spec fn wrapped(s: Seq<char>, max: int) -> Seq<Seq<char>> {
    if max == 0 {
        text::lines_of(s)
    } else {
        wrapped_lines(text::split_on(s, '\n'), max)
    }
}

fn last_break_of(chars: &Vec<char>, from: usize, n: usize) -> (r: usize)
    requires
        from <= n <= chars@.len(),
    ensures
        from <= r <= n,
        r == from + last_break(chars@.skip(from as int), n - from),
{
    let ghost s = chars@.skip(from as int);
    let mut at: usize = n;
    proof {
        lemma_last_break(s, n - from);
    }
    while at > from
        invariant
            from <= at <= n <= chars@.len(),
            s == chars@.skip(from as int),
            last_break(s, at - from) == last_break(s, n - from),
        decreases at,
    {
        if text::is_white(chars[at - 1]) {
            return at;
        }
        at = at - 1;
    }
    at
}

fn skip_white(chars: &Vec<char>, from: usize) -> (r: usize)
    requires
        from <= chars@.len(),
    ensures
        from <= r <= chars@.len(),
        chars@.skip(r as int) == text::trimmed_start(chars@.skip(from as int)),
{
    let mut at: usize = from;
    while at < chars.len() && text::is_white(chars[at])
        invariant
            from <= at <= chars@.len(),
            text::trimmed_start(chars@.skip(at as int)) == text::trimmed_start(
                chars@.skip(from as int),
            ),
        decreases chars@.len() - at,
    {
        assert(chars@.skip(at as int).skip(1) =~= chars@.skip(at + 1));
        at = at + 1;
    }
    at
}

fn push_pieces(out: &mut Vec<String>, line: &str, max_width: usize)
    ensures
        text::views(final(out)@) == text::views(old(out)@) + pieces(line@, max_width as int),
{
    broadcast use text::lemma_views_push;

    let chars = text::chars_of(line);
    let ghost all = pieces(line@, max_width as int);
    let ghost before = text::views(out@);
    let n: usize = chars.len();
    let mut start: usize = 0;
    assert(chars@.skip(0) =~= line@);
    assert(before + all =~= text::views(out@) + pieces(chars@.skip(0), max_width as int));
    while start < n
        invariant
            start <= n,
            n == chars@.len(),
            before + all == text::views(out@) + pieces(chars@.skip(start as int), max_width as int),
        decreases n - start,
    {
        broadcast use text::lemma_views_push;

        let ghost s = chars@.skip(start as int);
        proof {
            lemma_piece_end(s, max_width as int);
            width::lemma_fitting_range(s, max_width as int);
        }
        let mut end: usize = width::fitting_chars(&chars, start, max_width);
        let ghost fit = end - start;
        if end == start {
            end = start + 1;
        } else if end < n && !text::is_white(chars[end]) {
            assert(s[fit] == chars@[end as int]);
            let at: usize = last_break_of(&chars, start, end);
            if at > start {
                end = at;
            }
        } else {
            assert(end < n ==> s[fit] == chars@[end as int]);
        }
        assert(end - start == piece_end(s, max_width as int));
        let segment = text::string_of(&chars, start, end);
        assert(segment@ =~= s.take(end - start));
        let piece = text::trim_end(segment.as_str());
        let ghost mid = text::views(out@);
        out.push(piece);
        let next: usize = skip_white(&chars, end);
        assert(s.skip(end - start) =~= chars@.skip(end as int));
        assert(mid + pieces(s, max_width as int) =~= text::views(out@) + pieces(
            chars@.skip(next as int),
            max_width as int,
        ));
        start = next;
    }
    assert(chars@.skip(start as int) =~= Seq::<char>::empty());
    assert(text::views(out@) + Seq::<Seq<char>>::empty() =~= text::views(out@));
}

/// Breaks `text` into lines of at most `max_width` columns, between words where it can.
pub fn word_wrap(text: &str, max_width: usize) -> (r: Vec<String>)
    ensures
        text::views(r@) == wrapped(text@, max_width as int),
{
    broadcast use text::lemma_views_push;

    if max_width == 0 {
        return text::lines(text);
    }
    let parts = text::split_char(text, '\n');
    let ghost all = text::views(parts@);
    let mut out: Vec<String> = Vec::new();
    let mut i: usize = 0;
    assert(all.take(0) =~= Seq::<Seq<char>>::empty());
    assert(text::views(out@) =~= Seq::<Seq<char>>::empty());
    while i < parts.len()
        invariant
            i <= parts@.len(),
            all == text::views(parts@),
            text::views(out@) == wrapped_lines(all.take(i as int), max_width as int),
        decreases parts@.len() - i,
    {
        broadcast use text::lemma_views_push;

        assert(all.take(i + 1).drop_last() =~= all.take(i as int));
        let ghost before = text::views(out@);
        if width::str_width(parts[i].as_str()) <= max_width {
            out.push(parts[i].clone());
            assert(text::views(out@) =~= before + seq![all[i as int]]);
        } else {
            push_pieces(&mut out, parts[i].as_str(), max_width);
        }
        i = i + 1;
    }
    assert(all.take(i as int) =~= all);
    out
}

proof fn lemma_columns_trimmed_end(s: Seq<char>)
    ensures
        width::columns(text::trimmed_end(s)) <= width::columns(s),
        text::trimmed_end(s).len() <= s.len(),
    decreases s.len(),
{
    if s.len() > 0 && text::white(s.last()) {
        lemma_columns_trimmed_end(s.drop_last());
        width::lemma_columns_prefix(s, s.len() - 1);
        assert(s.take(s.len() - 1) =~= s.drop_last());
    }
}

/// Every line that a text is broken into fits in the width, but for a single character that is
/// wider than that.
pub proof fn law_pieces_fit(s: Seq<char>, max: int)
    requires
        max >= 0,
    ensures
        forall|i: int|
            0 <= i < pieces(s, max).len() ==> width::columns(#[trigger] pieces(s, max)[i]) <= max
                || pieces(s, max)[i].len() <= 1,
    decreases s.len(),
{
    if s.len() > 0 {
        lemma_piece_end(s, max);
        let end = piece_end(s, max);
        lemma_trimmed_start_len(s.skip(end));
        law_pieces_fit(text::trimmed_start(s.skip(end)), max);
        lemma_columns_trimmed_end(s.take(end));
        width::lemma_fitting_range(s, max);
        let fit = width::fitting(s, max);
        if end <= fit {
            width::lemma_columns_prefix(s.take(fit), end);
            assert(s.take(fit).take(end) =~= s.take(end));
        }
        assert forall|i: int| 0 <= i < pieces(s, max).len() implies width::columns(
            #[trigger] pieces(s, max)[i],
        ) <= max || pieces(s, max)[i].len() <= 1 by {
            if i > 0 {
                assert(pieces(s, max)[i] == pieces(text::trimmed_start(s.skip(end)), max)[i - 1]);
            }
        }
    }
}

/// Every line of a wrapped text fits in the width, measured as a whole or by its characters, but
/// for a single character that is wider than that.
pub proof fn law_wrapped_lines_fit(s: Seq<char>, max: int)
    requires
        max > 0,
    ensures
        forall|i: int|
            0 <= i < wrapped(s, max).len() ==> fits(#[trigger] wrapped(s, max)[i], max),
{
    lemma_lines_fit(text::split_on(s, '\n'), max);
}

pub open spec fn fits(line: Seq<char>, max: int) -> bool {
    width::unicode_str_width(line) <= max || width::columns(line) <= max || line.len() <= 1
}

proof fn lemma_lines_fit(lines: Seq<Seq<char>>, max: int)
    requires
        max > 0,
    ensures
        forall|i: int|
            0 <= i < wrapped_lines(lines, max).len() ==> fits(
                #[trigger] wrapped_lines(lines, max)[i],
                max,
            ),
    decreases lines.len(),
{
    if lines.len() > 0 {
        lemma_lines_fit(lines.drop_last(), max);
        law_pieces_fit(lines.last(), max);
        let head = wrapped_lines(lines.drop_last(), max);
        assert forall|i: int| 0 <= i < wrapped_lines(lines, max).len() implies fits(
            #[trigger] wrapped_lines(lines, max)[i],
            max,
        ) by {
            if i < head.len() {
                assert(wrapped_lines(lines, max)[i] == head[i]);
            } else {
                assert(wrapped_lines(lines, max)[i] == wrapped_line(lines.last(), max)[i
                    - head.len()]);
            }
        }
    }
}

/// The characters of `s` that are no white space.
pub open spec fn ink(s: Seq<char>) -> Seq<char>
    decreases s.len(),
{
    if s.len() == 0 {
        Seq::empty()
    } else if text::white(s.last()) {
        ink(s.drop_last())
    } else {
        ink(s.drop_last()).push(s.last())
    }
}

/// The characters of all of `lines` that are no white space.
pub open spec fn ink_of_all(lines: Seq<Seq<char>>) -> Seq<char>
    decreases lines.len(),
{
    if lines.len() == 0 {
        Seq::empty()
    } else {
        ink_of_all(lines.drop_last()) + ink(lines.last())
    }
}

proof fn lemma_ink_concat(a: Seq<char>, b: Seq<char>)
    ensures
        ink(a + b) == ink(a) + ink(b),
    decreases b.len(),
{
    if b.len() == 0 {
        assert(a + b =~= a);
        assert(ink(a) + ink(b) =~= ink(a));
    } else {
        assert((a + b).drop_last() =~= a + b.drop_last());
        lemma_ink_concat(a, b.drop_last());
        assert(ink(a + b) =~= ink(a) + ink(b));
    }
}

proof fn lemma_ink_of_all_concat(a: Seq<Seq<char>>, b: Seq<Seq<char>>)
    ensures
        ink_of_all(a + b) == ink_of_all(a) + ink_of_all(b),
    decreases b.len(),
{
    if b.len() == 0 {
        assert(a + b =~= a);
        assert(ink_of_all(a) + ink_of_all(b) =~= ink_of_all(a));
    } else {
        assert((a + b).drop_last() =~= a + b.drop_last());
        lemma_ink_of_all_concat(a, b.drop_last());
        assert(ink_of_all(a + b) =~= ink_of_all(a) + ink_of_all(b));
    }
}

proof fn lemma_ink_trimmed_end(s: Seq<char>)
    ensures
        ink(text::trimmed_end(s)) == ink(s),
    decreases s.len(),
{
    if s.len() > 0 && text::white(s.last()) {
        lemma_ink_trimmed_end(s.drop_last());
    }
}

proof fn lemma_ink_trimmed_start(s: Seq<char>)
    ensures
        ink(text::trimmed_start(s)) == ink(s),
    decreases s.len(),
{
    if s.len() > 0 && text::white(s[0]) {
        lemma_ink_trimmed_start(s.skip(1));
        assert(s =~= seq![s[0]] + s.skip(1));
        lemma_ink_concat(seq![s[0]], s.skip(1));
        assert(seq![s[0]].drop_last() =~= Seq::<char>::empty());
        reveal_with_fuel(ink, 2);
        assert(ink(seq![s[0]]) =~= Seq::<char>::empty());
        assert(ink(s) =~= ink(s.skip(1)));
    }
}

/// Breaking a line loses nothing but white space, and keeps the order.
pub proof fn law_pieces_keep_the_words(s: Seq<char>, max: int)
    ensures
        ink_of_all(pieces(s, max)) == ink(s),
    decreases s.len(),
{
    if s.len() > 0 {
        lemma_piece_end(s, max);
        let end = piece_end(s, max);
        let rest = text::trimmed_start(s.skip(end));
        lemma_trimmed_start_len(s.skip(end));
        law_pieces_keep_the_words(rest, max);
        let first = text::trimmed_end(s.take(end));
        lemma_ink_trimmed_end(s.take(end));
        lemma_ink_trimmed_start(s.skip(end));
        assert(s =~= s.take(end) + s.skip(end));
        lemma_ink_concat(s.take(end), s.skip(end));
        lemma_ink_of_all_concat(seq![first], pieces(rest, max));
        assert(seq![first].drop_last() =~= Seq::<Seq<char>>::empty());
        reveal_with_fuel(ink_of_all, 2);
        assert(ink_of_all(seq![first]) =~= ink(first));
    }
}

/// Wrapping a text loses nothing but white space, and keeps the order.
pub proof fn law_wrapping_keeps_the_words(s: Seq<char>, max: int)
    requires
        max > 0,
    ensures
        ink_of_all(wrapped(s, max)) == ink(s),
{
    lemma_lines_keep_the_words(text::split_on(s, '\n'), max);
    lemma_split_keeps_the_words(s);
}

proof fn lemma_lines_keep_the_words(lines: Seq<Seq<char>>, max: int)
    ensures
        ink_of_all(wrapped_lines(lines, max)) == ink_of_all(lines),
    decreases lines.len(),
{
    if lines.len() > 0 {
        let last = lines.last();
        lemma_lines_keep_the_words(lines.drop_last(), max);
        law_pieces_keep_the_words(last, max);
        lemma_ink_of_all_concat(wrapped_lines(lines.drop_last(), max), wrapped_line(last, max));
        assert(seq![last].drop_last() =~= Seq::<Seq<char>>::empty());
        reveal_with_fuel(ink_of_all, 2);
        assert(ink_of_all(seq![last]) =~= ink(last));
    }
}

proof fn lemma_split_keeps_the_words(s: Seq<char>)
    ensures
        ink_of_all(text::split_on(s, '\n')) == ink(s),
    decreases s.len(),
{
    if s.len() == 0 {
        let e = seq![Seq::<char>::empty()];
        assert(e.drop_last() =~= Seq::<Seq<char>>::empty());
        reveal_with_fuel(ink_of_all, 2);
        assert(ink_of_all(e) =~= Seq::<char>::empty());
    } else {
        lemma_split_keeps_the_words(s.drop_last());
        text::lemma_split_nonempty(s.drop_last(), '\n');
        let p = text::split_on(s.drop_last(), '\n');
        let q = text::split_on(s, '\n');
        if s.last() == '\n' {
            assert(q.drop_last() =~= p);
            assert(ink(q.last()) =~= Seq::<char>::empty());
            assert(ink_of_all(q) =~= ink_of_all(p));
        } else {
            assert(q.drop_last() =~= p.drop_last());
            assert(q.last() =~= p.last().push(s.last()));
            assert(q.last().drop_last() =~= p.last());
            assert(ink_of_all(q) =~= ink(s));
        }
    }
}

/// Whether `s[i..j]` is a word of `s`: characters that are no white space, with white space or
/// an end of `s` on either side.
pub open spec fn is_word(s: Seq<char>, i: int, j: int) -> bool {
    &&& 0 <= i < j <= s.len()
    &&& forall|k: int| i <= k < j ==> !text::white(#[trigger] s[k])
    &&& i == 0 || text::white(s[i - 1])
    &&& j == s.len() || text::white(s[j])
}

/// Whether `word` stands whole on one of `lines`.
pub open spec fn stands_whole(lines: Seq<Seq<char>>, word: Seq<char>) -> bool {
    exists|n: int| 0 <= n < lines.len() && text::occurs(#[trigger] lines[n], word)
}

proof fn lemma_last_break_is_behind_white(s: Seq<char>, n: int)
    requires
        0 <= n <= s.len(),
    ensures
        0 <= last_break(s, n) <= n,
        last_break(s, n) > 0 ==> text::white(s[last_break(s, n) - 1]),
        forall|k: int| last_break(s, n) <= k < n ==> !text::white(#[trigger] s[k]),
    decreases n,
{
    if n > 0 && !text::white(s[n - 1]) {
        lemma_last_break_is_behind_white(s, n - 1);
    }
}

/// A word that fits in the width is not broken at the end of a line.
proof fn lemma_word_is_not_cut(s: Seq<char>, max: int, i: int, j: int)
    requires
        max >= 0,
        is_word(s, i, j),
        width::columns(s.subrange(i, j)) <= max,
    ensures
        1 <= piece_end(s, max) <= s.len(),
        j <= piece_end(s, max) || piece_end(s, max) <= i,
{
    let end = piece_end(s, max);
    let fit = width::fitting(s, max);
    lemma_piece_end(s, max);
    width::lemma_fitting_range(s, max);
    lemma_last_break_is_behind_white(s, fit);
    if i < end < j {
        if i == 0 {
            assert(s.subrange(0, j) =~= s.take(j));
            width::lemma_fitting_most(s, max, j);
        }
        assert(!text::white(s[end - 1]));
        assert(!text::white(s[end]));
        assert(end == fit);
        assert(last_break(s, fit) == 0);
        if i > 0 {
            assert(text::white(s[i - 1]));
        }
        assert(i == 0);
    }
}

proof fn lemma_trimmed_end_keeps(s: Seq<char>, n: int)
    requires
        0 < n <= s.len(),
        !text::white(s[n - 1]),
    ensures
        n <= text::trimmed_end(s).len() <= s.len(),
        text::trimmed_end(s) == s.take(text::trimmed_end(s).len() as int),
    decreases s.len(),
{
    if text::white(s.last()) {
        lemma_trimmed_end_keeps(s.drop_last(), n);
        let m = text::trimmed_end(s).len() as int;
        assert(s.drop_last().take(m) =~= s.take(m));
    } else {
        assert(s.take(s.len() as int) =~= s);
    }
}

proof fn lemma_trimmed_start_skips(s: Seq<char>, n: int)
    requires
        0 <= n < s.len(),
        !text::white(s[n]),
    ensures
        ({
            let m = s.len() - text::trimmed_start(s).len();
            0 <= m <= n && text::trimmed_start(s) == s.skip(m)
        }),
    decreases s.len(),
{
    if text::white(s[0]) {
        lemma_trimmed_start_skips(s.skip(1), n - 1);
        let m = s.skip(1).len() - text::trimmed_start(s.skip(1)).len();
        assert(s.skip(1).skip(m) =~= s.skip(m + 1));
    } else {
        assert(s.skip(0) =~= s);
    }
}

/// A word that fits in the width is never split when a line is broken.
pub proof fn law_pieces_split_no_word_that_fits(s: Seq<char>, max: int, i: int, j: int)
    requires
        max >= 0,
        is_word(s, i, j),
        width::columns(s.subrange(i, j)) <= max,
    ensures
        stands_whole(pieces(s, max), s.subrange(i, j)),
    decreases s.len(),
{
    let word = s.subrange(i, j);
    let end = piece_end(s, max);
    lemma_word_is_not_cut(s, max, i, j);
    let first = text::trimmed_end(s.take(end));
    let tail = s.skip(end);
    let rest = text::trimmed_start(tail);
    let all = pieces(s, max);
    lemma_trimmed_start_len(tail);
    assert(all == seq![first] + pieces(rest, max));
    if j <= end {
        assert(s.take(end)[j - 1] == s[j - 1]);
        lemma_trimmed_end_keeps(s.take(end), j);
        assert(first.subrange(i, j) =~= word);
        assert(text::occurs_at(first, word, i));
        assert(all[0] == first);
        assert(text::occurs(all[0], word));
    } else {
        assert(tail[i - end] == s[i]);
        lemma_trimmed_start_skips(tail, i - end);
        let m = tail.len() - rest.len();
        let a = i - end - m;
        let b = j - end - m;
        assert forall|k: int| a <= k < b implies !text::white(#[trigger] rest[k]) by {
            assert(rest[k] == s[k + end + m]);
        }
        if a > 0 {
            assert(rest[a - 1] == s[i - 1]);
        }
        if b < rest.len() {
            assert(rest[b] == s[j]);
        }
        assert(rest.subrange(a, b) =~= word);
        law_pieces_split_no_word_that_fits(rest, max, a, b);
        let n = choose|n: int|
            0 <= n < pieces(rest, max).len() && text::occurs(#[trigger] pieces(rest, max)[n], word);
        assert(all[n + 1] == pieces(rest, max)[n]);
        assert(text::occurs(all[n + 1], word));
    }
}

proof fn lemma_lines_split_no_word(lines: Seq<Seq<char>>, max: int, l: int, i: int, j: int)
    requires
        max >= 0,
        0 <= l < lines.len(),
        is_word(lines[l], i, j),
        width::columns(lines[l].subrange(i, j)) <= max,
    ensures
        stands_whole(wrapped_lines(lines, max), lines[l].subrange(i, j)),
    decreases lines.len(),
{
    let word = lines[l].subrange(i, j);
    let head = wrapped_lines(lines.drop_last(), max);
    let last = wrapped_line(lines.last(), max);
    let all = wrapped_lines(lines, max);
    assert(all == head + last);
    if l < lines.len() - 1 {
        assert(lines.drop_last()[l] == lines[l]);
        lemma_lines_split_no_word(lines.drop_last(), max, l, i, j);
        let n = choose|n: int| 0 <= n < head.len() && text::occurs(#[trigger] head[n], word);
        assert(all[n] == head[n]);
        assert(text::occurs(all[n], word));
    } else {
        if width::unicode_str_width(lines[l]) <= max {
            assert(text::occurs_at(last[0], word, i));
            assert(text::occurs(last[0], word));
        } else {
            law_pieces_split_no_word_that_fits(lines[l], max, i, j);
        }
        let n = choose|n: int| 0 <= n < last.len() && text::occurs(#[trigger] last[n], word);
        assert(all[head.len() + n] == last[n]);
        assert(text::occurs(all[head.len() + n], word));
    }
}

/// A word that fits in the width is never split when a text is wrapped: it stands whole on one of
/// the lines.
pub proof fn law_wrapping_splits_no_word_that_fits(s: Seq<char>, max: int, l: int, i: int, j: int)
    requires
        max > 0,
        0 <= l < text::split_on(s, '\n').len(),
        is_word(text::split_on(s, '\n')[l], i, j),
        width::columns(text::split_on(s, '\n')[l].subrange(i, j)) <= max,
    ensures
        stands_whole(wrapped(s, max), text::split_on(s, '\n')[l].subrange(i, j)),
{
    lemma_lines_split_no_word(text::split_on(s, '\n'), max, l, i, j);
}

} // verus!
