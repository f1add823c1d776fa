//! How many terminal columns text occupies.
use crate::text;
use unicode_width::UnicodeWidthChar;
use unicode_width::UnicodeWidthStr;
use vstd::prelude::*;

verus! {

/// What `unicode_width::UnicodeWidthChar::width` returns for a character.
pub uninterp spec fn unicode_char_width(c: char) -> Option<usize>;

/// What `unicode_width::UnicodeWidthStr::width` returns for a text.
pub uninterp spec fn unicode_str_width(s: Seq<char>) -> usize;

/// Calls `unicode_width::UnicodeWidthChar::width`: the displayed width of one character, or
/// nothing for a control character. Printable ASCII is one column wide, and no character is
/// wider than three.
#[verifier::external_body]
fn outside_char_width(c: char) -> (r: Option<usize>)
    ensures
        r == unicode_char_width(c),
        0x20 <= c as u32 && (c as u32) < 0x7f ==> r == Some(1usize),
        (c as u32) < 0x20 ==> r is None,
        r matches Some(w) ==> w <= 3,
{
    UnicodeWidthChar::width(c)
}

/// Whether `s` is made of printable ASCII characters alone.
pub open spec fn printable_ascii(s: Seq<char>) -> bool {
    forall|i: int| 0 <= i < s.len() ==> 0x20 <= #[trigger] s[i] as u32 && (s[i] as u32) < 0x7f
}

/// Calls `unicode_width::UnicodeWidthStr::width`: the displayed width of a text. It is not the
/// sum of the widths of the characters: some sequences are narrower together. A text of printable
/// ASCII characters is as wide as it is long.
#[verifier::external_body]
fn outside_str_width(s: &str) -> (r: usize)
    ensures
        r == unicode_str_width(s@),
        printable_ascii(s@) ==> r == s@.len(),
{
    UnicodeWidthStr::width(s)
}

/// The columns of one character; a control character has none.
pub open spec fn char_columns(c: char) -> int {
    match unicode_char_width(c) {
        Some(w) => w as int,
        None => 0,
    }
}

pub fn char_width(c: char) -> (r: usize)
    ensures
        r == char_columns(c),
        r <= 3,
        0x20 <= c as u32 && (c as u32) < 0x7f ==> r == 1,
{
    match outside_char_width(c) {
        Some(w) => w,
        None => 0,
    }
}

pub fn str_width(s: &str) -> (r: usize)
    ensures
        r == unicode_str_width(s@),
        printable_ascii(s@) ==> r == s@.len(),
{
    outside_str_width(s)
}

/// The sum of the columns of the characters of `s`.
pub open spec fn columns(s: Seq<char>) -> int
    decreases s.len(),
{
    if s.len() == 0 {
        0
    } else {
        columns(s.drop_last()) + char_columns(s.last())
    }
}

pub proof fn lemma_columns_nonneg(s: Seq<char>)
    ensures
        0 <= columns(s),
    decreases s.len(),
{
    if s.len() > 0 {
        lemma_columns_nonneg(s.drop_last());
    }
}

pub proof fn lemma_columns_concat(a: Seq<char>, b: Seq<char>)
    ensures
        columns(a + b) == columns(a) + columns(b),
    decreases b.len(),
{
    if b.len() == 0 {
        assert(a + b =~= a);
    } else {
        assert((a + b).drop_last() =~= a + b.drop_last());
        lemma_columns_concat(a, b.drop_last());
    }
}

pub proof fn lemma_columns_prefix(s: Seq<char>, n: int)
    requires
        0 <= n <= s.len(),
    ensures
        columns(s.take(n)) <= columns(s),
{
    assert(s =~= s.take(n) + s.skip(n));
    lemma_columns_concat(s.take(n), s.skip(n));
    lemma_columns_nonneg(s.skip(n));
}

/// The columns of `s`, or the largest `usize` where there are more.
pub open spec fn capped_columns(s: Seq<char>) -> int {
    text::min_int(columns(s), usize::MAX as int)
}

/// The columns of `chars[from..to]`, counted one character at a time.
pub fn columns_of(chars: &Vec<char>, from: usize, to: usize) -> (r: usize)
    requires
        from <= to <= chars@.len(),
    ensures
        r == capped_columns(chars@.subrange(from as int, to as int)),
{
    let mut i: usize = from;
    let mut sum: usize = 0;
    while i < to
        invariant
            from <= i <= to <= chars@.len(),
            sum == capped_columns(chars@.subrange(from as int, i as int)),
        decreases to - i,
    {
        let ghost next = chars@.subrange(from as int, i + 1);
        assert(next.drop_last() =~= chars@.subrange(from as int, i as int));
        proof {
            lemma_columns_nonneg(next.drop_last());
        }
        sum = sum.saturating_add(char_width(chars[i]));
        i = i + 1;
    }
    sum
}

/// The length of the longest prefix of `s` that takes at most `budget` columns.
pub open spec fn fitting(s: Seq<char>, budget: int) -> int
    decreases s.len(),
{
    if s.len() == 0 || columns(s) <= budget {
        s.len() as int
    } else {
        fitting(s.drop_last(), budget)
    }
}

pub proof fn lemma_fitting_range(s: Seq<char>, budget: int)
    ensures
        0 <= fitting(s, budget) <= s.len(),
        budget >= 0 ==> columns(s.take(fitting(s, budget))) <= budget,
    decreases s.len(),
{
    if s.len() == 0 || columns(s) <= budget {
        assert(s.take(s.len() as int) =~= s);
    } else {
        lemma_fitting_range(s.drop_last(), budget);
        let n = fitting(s.drop_last(), budget);
        assert(s.drop_last().take(n) =~= s.take(n));
    }
}

/// No more characters fit than `fitting` says.
pub proof fn lemma_fitting_most(s: Seq<char>, budget: int, n: int)
    requires
        0 <= n <= s.len(),
        columns(s.take(n)) <= budget,
    ensures
        n <= fitting(s, budget),
    decreases s.len(),
{
    if s.len() > 0 && columns(s) > budget {
        if n == s.len() {
            assert(s.take(n) =~= s);
        }
        assert(s.drop_last().take(n) =~= s.take(n));
        lemma_fitting_most(s.drop_last(), budget, n);
    }
}

proof fn lemma_fitting_is(s: Seq<char>, budget: int, n: int)
    requires
        0 <= n <= s.len(),
        columns(s.take(n)) <= budget,
        n < s.len() ==> columns(s.take(n + 1)) > budget,
    ensures
        fitting(s, budget) == n,
    decreases s.len(),
{
    if n == s.len() {
        assert(s.take(n) =~= s);
    } else {
        lemma_columns_prefix(s, n + 1);
        let t = s.drop_last();
        assert(t.take(n) =~= s.take(n));
        if n < t.len() {
            assert(t.take(n + 1) =~= s.take(n + 1));
        }
        lemma_fitting_is(t, budget, n);
    }
}

/// The longest run of characters from `from` on that takes at most `budget` columns.
pub fn fitting_chars(chars: &Vec<char>, from: usize, budget: usize) -> (r: usize)
    requires
        from <= chars@.len(),
    ensures
        from <= r <= chars@.len(),
        r == from + fitting(chars@.skip(from as int), budget as int),
        printable_ascii(chars@) ==> r == from + text::min_int(budget as int, chars@.len() - from),
{
    let ghost s = chars@.skip(from as int);
    let mut end: usize = from;
    let mut used: usize = 0;
    assert(s.take(0) =~= Seq::<char>::empty());
    while end < chars.len()
        invariant
            from <= end <= chars@.len(),
            s == chars@.skip(from as int),
            used == columns(s.take(end - from)),
            used <= budget,
            printable_ascii(chars@) ==> used == end - from,
        decreases chars@.len() - end,
    {
        let w: usize = char_width(chars[end]);
        assert(s.take(end - from + 1).drop_last() =~= s.take(end - from));
        assert(s.take(end - from + 1).last() == chars@[end as int]);
        if w > budget - used {
            proof {
                lemma_fitting_is(s, budget as int, end - from);
            }
            return end;
        }
        used = used + w;
        end = end + 1;
    }
    proof {
        lemma_fitting_is(s, budget as int, end - from);
    }
    end
}

/// `s` cut to `max` columns; where something is cut off, three dots stand for it, or as many as
/// there is room for.
pub open spec fn cut_with_dots(s: Seq<char>, max: int) -> Seq<char> {
    if max == 0 || s.len() == 0 {
        Seq::empty()
    } else if unicode_str_width(s) <= max {
        s
    } else if max < 3 {
        text::repeated('.', max)
    } else {
        s.take(fitting(s, max - 3)) + "..."@
    }
}

/// Cuts `s` to `max_width` columns. What is left of printable ASCII is never longer than that.
pub fn truncate_str(s: &str, max_width: usize) -> (r: String)
    ensures
        r@ == cut_with_dots(s@, max_width as int),
        printable_ascii(s@) ==> r@.len() <= max_width,
        printable_ascii(s@) && s@.len() <= max_width ==> r@ == s@,
        printable_ascii(s@) && s@.len() > max_width >= 3 ==> r@ == s@.take(max_width - 3) + "..."@,
{
    let chars = text::chars_of(s);
    if max_width == 0 || chars.len() == 0 {
        return String::new();
    }
    if str_width(s) <= max_width {
        return text::copy(s);
    }
    if max_width < 3 {
        return text::repeat('.', max_width);
    }
    proof {
        reveal_strlit("...");
    }
    let end: usize = fitting_chars(&chars, 0, max_width - 3);
    assert(chars@.skip(0) =~= s@);
    assert(chars@.subrange(0, end as int) =~= s@.take(end as int));
    let mut out = text::string_of(&chars, 0, end);
    out.push_str("...");
    out
}

/// `s` cut to `max` columns; where something is cut off, three dots end it, or as many dots as
/// there is room for.
pub open spec fn ellipsized(s: Seq<char>, max: int) -> Seq<char> {
    if unicode_str_width(s) <= max {
        s
    } else if max <= 3 {
        text::repeated('.', max)
    } else {
        s.take(fitting(s, max - 3)) + "..."@
    }
}

pub fn ellipsize_width(s: &str, max_width: usize) -> (r: String)
    ensures
        r@ == ellipsized(s@, max_width as int),
{
    if str_width(s) <= max_width {
        return text::copy(s);
    }
    if max_width <= 3 {
        return text::repeat('.', max_width);
    }
    let chars = text::chars_of(s);
    let end: usize = fitting_chars(&chars, 0, max_width - 3);
    assert(chars@.skip(0) =~= s@);
    assert(chars@.subrange(0, end as int) =~= s@.take(end as int));
    let mut out = text::string_of(&chars, 0, end);
    out.push_str("...");
    out
}

/// `s` cut short of `max` columns; where something is cut off, an ellipsis ends it.
pub open spec fn cut_with_ellipsis(s: Seq<char>, max: int) -> Seq<char> {
    if max == 0 {
        Seq::empty()
    } else if unicode_str_width(s) <= max {
        s
    } else {
        s.take(fitting(s, max - 2)).push('…')
    }
}

pub fn truncate_to_width(s: &str, max_width: usize) -> (r: String)
    ensures
        r@ == cut_with_ellipsis(s@, max_width as int),
{
    if max_width == 0 {
        return String::new();
    }
    if str_width(s) <= max_width {
        return text::copy(s);
    }
    let chars = text::chars_of(s);
    if max_width == 1 {
        proof {
            lemma_nothing_fits(s@);
        }
        let mut out = String::new();
        out.push('…');
        assert(s@.take(0) =~= Seq::<char>::empty());
        return out;
    }
    let end: usize = fitting_chars(&chars, 0, max_width - 2);
    assert(chars@.skip(0) =~= s@);
    assert(chars@.subrange(0, end as int) =~= s@.take(end as int));
    let mut out = text::string_of(&chars, 0, end);
    out.push('…');
    out
}

proof fn lemma_nothing_fits(s: Seq<char>)
    ensures
        fitting(s, -1) == 0,
    decreases s.len(),
{
    if s.len() > 0 {
        lemma_columns_nonneg(s);
        lemma_nothing_fits(s.drop_last());
    }
}

/// `s` filled up with spaces to `width` columns.
pub open spec fn padded(s: Seq<char>, width: int) -> Seq<char> {
    s + text::repeated(' ', text::minus(width, unicode_str_width(s) as int))
}

pub fn pad_display_width(s: &str, width: usize) -> (r: String)
    ensures
        r@ == padded(s@, width as int),
{
    let current: usize = str_width(s);
    if current >= width {
        assert(padded(s@, width as int) =~= s@);
        text::copy(s)
    } else {
        let spaces = text::repeat(' ', width - current);
        text::concat(s, spaces.as_str())
    }
}

/// What is kept of a text that is cut leaves room for what marks the cut.
pub proof fn law_cut_text_fits(s: Seq<char>, max: int)
    requires
        max >= 3,
        unicode_str_width(s) > max,
        s.len() > 0,
    ensures
        exists|n: int|
            0 <= n <= s.len() && #[trigger] columns(s.take(n)) + 3 <= max && cut_with_dots(s, max)
                == s.take(n) + "..."@,
        max > 3 ==> ellipsized(s, max) == cut_with_dots(s, max),
        exists|n: int|
            0 <= n <= s.len() && #[trigger] columns(s.take(n)) + 2 <= max && cut_with_ellipsis(
                s,
                max,
            ) == s.take(n).push('…'),
{
    lemma_fitting_range(s, max - 3);
    lemma_fitting_range(s, max - 2);
    assert(columns(s.take(fitting(s, max - 3))) + 3 <= max);
    assert(columns(s.take(fitting(s, max - 2))) + 2 <= max);
}

} // verus!
