//! Where the hunks of a patch apply in a file, and what they make of it.
use crate::text;
use crate::tools::apply_patch_tool;
use crate::tools::apply_patch_tool::Hunk;
use crate::tools::apply_patch_tool::HunkView;
use vstd::prelude::*;

verus! {

/// Why a hunk has no place in a file.
#[derive(Debug)]
pub enum MatchError {
    /// Its lines are not near its anchor; perhaps something similar is.
    NotFound { hint: Option<(usize, String)> },
    /// Its lines are near its anchor more than once, at these line numbers.
    Ambiguous { positions: Vec<usize> },
}

#[verifier::ext_equal]
pub enum MatchFault {
    NotFound(Option<(int, Seq<char>)>),
    Ambiguous(Seq<int>),
}

impl View for MatchError {
    type V = MatchFault;

    open spec fn view(&self) -> MatchFault {
        match *self {
            MatchError::NotFound { hint } => MatchFault::NotFound(
                match hint {
                    Some((line, what)) => Some((line as int, what@)),
                    None => None,
                },
            ),
            MatchError::Ambiguous { positions } => MatchFault::Ambiguous(
                Seq::new(positions@.len(), |i: int| positions@[i] as int),
            ),
        }
    }
}

/// Whether the lines `pattern` stand in `file` at `at`.
pub open spec fn stands_at(file: Seq<Seq<char>>, pattern: Seq<Seq<char>>, at: int) -> bool {
    0 <= at && at + pattern.len() <= file.len() && file.subrange(at, at + pattern.len())
        == pattern
}

/// The positions below `to`, from `from` on, at which `pattern` stands in `file`.
pub open spec fn places(
    file: Seq<Seq<char>>,
    pattern: Seq<Seq<char>>,
    from: int,
    to: int,
) -> Seq<int>
    decreases to - from,
{
    if to <= from {
        Seq::empty()
    } else {
        let before = places(file, pattern, from, to - 1);
        if stands_at(file, pattern, to - 1) {
            before.push(to - 1)
        } else {
            before
        }
    }
}

/// The first position at or after `at` at which `pattern` stands in `file`.
pub open spec fn first_place(file: Seq<Seq<char>>, pattern: Seq<Seq<char>>, at: int) -> Option<int>
    decreases file.len() + 1 - at,
{
    if at > file.len() {
        None
    } else if stands_at(file, pattern, at) {
        Some(at)
    } else {
        first_place(file, pattern, at + 1)
    }
}

/// How a match of the first `len` of `all` lines is described.
pub open spec fn partial_text(len: int, all: int) -> Seq<char> {
    if len == all {
        "exact match but at unexpected position"@
    } else {
        "partial match: matched first "@ + text::decimal(len) + " line(s), rest differs"@
    }
}

/// The longest beginning of `pattern`, of at most `len` lines, that stands in `file`, with its
/// line number.
pub open spec fn closest_prefix(file: Seq<Seq<char>>, pattern: Seq<Seq<char>>, len: int) -> Option<
    (int, Seq<char>),
>
    decreases len,
{
    if len <= 0 {
        None
    } else {
        match first_place(file, pattern.take(len), 0) {
            Some(i) => Some((i + 1, partial_text(len, pattern.len() as int))),
            None => closest_prefix(file, pattern, len - 1),
        }
    }
}

/// `s` without white space.
pub open spec fn squeezed(s: Seq<char>) -> Seq<char>
    decreases s.len(),
{
    if s.len() == 0 {
        Seq::empty()
    } else if text::white(s.last()) {
        squeezed(s.drop_last())
    } else {
        squeezed(s.drop_last()).push(s.last())
    }
}

/// The first line at or after `at` that equals `line` but for white space.
pub open spec fn first_squeezed(file: Seq<Seq<char>>, line: Seq<char>, at: int) -> Option<int>
    decreases file.len() - at,
{
    if at < 0 || at >= file.len() {
        None
    } else if squeezed(file[at]) == squeezed(line) {
        Some(at)
    } else {
        first_squeezed(file, line, at + 1)
    }
}

/// What comes closest to `pattern` in `file`.
pub open spec fn closest(file: Seq<Seq<char>>, pattern: Seq<Seq<char>>) -> Option<
    (int, Seq<char>),
> {
    match closest_prefix(file, pattern, pattern.len() as int) {
        Some(hint) => Some(hint),
        None => if pattern.len() == 0 {
            None
        } else {
            match first_squeezed(file, pattern[0], 0) {
                Some(i) => Some(
                    (
                        i + 1,
                        "first line matches when ignoring whitespace (indentation differs)"@,
                    ),
                ),
                None => None,
            }
        },
    }
}

/// The first line of the window around an anchor, counted from zero.
pub open spec fn window_start(anchor: int) -> int {
    text::minus(anchor, 4)
}

/// The line behind the window around an anchor.
pub open spec fn window_end(file_len: int, anchor: int) -> int {
    text::min_int(file_len, anchor + 3)
}

/// Where a hunk applies: where it says that it is at the end of the file, its lines have to be the
/// last ones; else it is the one place within three lines of its anchor where its lines stand.
pub open spec fn hunk_place(file: Seq<Seq<char>>, hunk: HunkView) -> Result<int, MatchFault> {
    let pattern = hunk.before;
    let start = window_start(hunk.line_anchor);
    let end = window_end(file.len() as int, hunk.line_anchor);
    if hunk.is_end_of_file {
        if stands_at(file, pattern, file.len() - pattern.len()) {
            Ok(file.len() - pattern.len())
        } else {
            Err(MatchFault::NotFound(closest(file, pattern)))
        }
    } else if pattern.len() == 0 {
        Ok(text::minus(hunk.line_anchor, 1))
    } else if pattern.len() > file.len() || start >= end || pattern.len() > end - start {
        Err(MatchFault::NotFound(None))
    } else {
        let all = places(file, pattern, start, end - pattern.len() + 1);
        if all.len() == 0 {
            match closest(file.subrange(start, end), pattern) {
                Some((line, what)) => Err(MatchFault::NotFound(Some((start + line, what)))),
                None => Err(MatchFault::NotFound(None)),
            }
        } else if all.len() == 1 {
            Ok(all[0])
        } else {
            Err(MatchFault::Ambiguous(Seq::new(all.len(), |i: int| all[i] + 1)))
        }
    }
}

proof fn lemma_places(file: Seq<Seq<char>>, pattern: Seq<Seq<char>>, from: int, to: int)
    ensures
        forall|i: int|
            0 <= i < places(file, pattern, from, to).len() ==> from <= (#[trigger] places(
                file,
                pattern,
                from,
                to,
            )[i]) < to && stands_at(file, pattern, places(file, pattern, from, to)[i]),
        forall|at: int|
            from <= at < to && #[trigger] stands_at(file, pattern, at) ==> places(
                file,
                pattern,
                from,
                to,
            ).contains(at),
    decreases to - from,
{
    if from < to {
        lemma_places(file, pattern, from, to - 1);
        let before = places(file, pattern, from, to - 1);
        let all = places(file, pattern, from, to);
        assert forall|i: int| 0 <= i < all.len() implies from <= (#[trigger] all[i]) < to
            && stands_at(file, pattern, all[i]) by {
            if i < before.len() {
                assert(all[i] == before[i]);
            }
        }
        assert forall|at: int| from <= at < to && #[trigger] stands_at(file, pattern, at) implies all.contains(
        at) by {
            if at < to - 1 {
                assert(before.contains(at));
                let k = choose|k: int| 0 <= k < before.len() && before[k] == at;
                assert(all[k] == at);
            } else {
                assert(all[all.len() - 1] == at);
            }
        }
    }
}

/// A hunk whose lines stand at one place near its anchor, and at no other there, has that place.
pub proof fn lemma_only_place(file: Seq<Seq<char>>, hunk: HunkView, at: int)
    requires
        !hunk.is_end_of_file,
        0 < hunk.before.len(),
        stands_at(file, hunk.before, at),
        window_start(hunk.line_anchor) <= at,
        at + hunk.before.len() <= window_end(file.len() as int, hunk.line_anchor),
        forall|p: int|
            window_start(hunk.line_anchor) <= p && p + hunk.before.len() <= window_end(
                file.len() as int,
                hunk.line_anchor,
            ) && #[trigger] stands_at(file, hunk.before, p) ==> p == at,
    ensures
        hunk_place(file, hunk) == Ok::<int, MatchFault>(at),
{
    let start = window_start(hunk.line_anchor);
    let end = window_end(file.len() as int, hunk.line_anchor);
    let to = end - hunk.before.len() + 1;
    lemma_places(file, hunk.before, start, to);
    lemma_places_ascend(file, hunk.before, start, to);
    let all = places(file, hunk.before, start, to);
    assert(all.contains(at));
    if all.len() > 1 {
        assert(all[0] < all[1]);
        assert(stands_at(file, hunk.before, all[0]) && stands_at(file, hunk.before, all[1]));
    }
    assert(stands_at(file, hunk.before, all[0]));
}

proof fn lemma_places_ascend(file: Seq<Seq<char>>, pattern: Seq<Seq<char>>, from: int, to: int)
    ensures
        forall|i: int, j: int|
            0 <= i < j < places(file, pattern, from, to).len() ==> #[trigger] places(
                file,
                pattern,
                from,
                to,
            )[i] < #[trigger] places(file, pattern, from, to)[j],
    decreases to - from,
{
    if from < to {
        lemma_places_ascend(file, pattern, from, to - 1);
        lemma_places(file, pattern, from, to - 1);
        let before = places(file, pattern, from, to - 1);
        let all = places(file, pattern, from, to);
        assert forall|i: int, j: int| 0 <= i < j < all.len() implies #[trigger] all[i]
            < #[trigger] all[j] by {
            assert(all[i] == before[i]);
            if j < before.len() {
                assert(all[j] == before[j]);
            }
        }
    }
}

/// A place that is found is right: the hunk's lines stand there, within three lines of the
/// anchor, and nowhere else in that window.
pub proof fn law_place_is_right(file: Seq<Seq<char>>, hunk: HunkView)
    requires
        !hunk.is_end_of_file,
        hunk.before.len() > 0,
        hunk_place(file, hunk) is Ok,
    ensures
        ({
            let at = hunk_place(file, hunk)->Ok_0;
            &&& stands_at(file, hunk.before, at)
            &&& window_start(hunk.line_anchor) <= at
            &&& at + hunk.before.len() <= window_end(file.len() as int, hunk.line_anchor)
            &&& forall|other: int|
                window_start(hunk.line_anchor) <= other && other + hunk.before.len() <= window_end(
                    file.len() as int,
                    hunk.line_anchor,
                ) && #[trigger] stands_at(file, hunk.before, other) ==> other == at
        }),
{
    let start = window_start(hunk.line_anchor);
    let end = window_end(file.len() as int, hunk.line_anchor);
    let to = end - hunk.before.len() + 1;
    lemma_places(file, hunk.before, start, to);
    let all = places(file, hunk.before, start, to);
    assert(stands_at(file, hunk.before, all[0]));
    assert forall|other: int|
        start <= other && other + hunk.before.len() <= end && #[trigger] stands_at(
            file,
            hunk.before,
            other,
        ) implies other == all[0] by {
        assert(all.contains(other));
    }
}

/// A hunk at the end of the file has a place exactly where its lines are the last ones of the
/// file, and that is where they begin; a hunk without old lines is put behind all lines.
pub proof fn law_end_of_file_is_matched(file: Seq<Seq<char>>, hunk: HunkView)
    requires
        hunk.is_end_of_file,
    ensures
        hunk_place(file, hunk) is Ok <==> hunk.before.len() <= file.len() && file.skip(
            file.len() - hunk.before.len(),
        ) == hunk.before,
        hunk_place(file, hunk) matches Ok(at) ==> at == file.len() - hunk.before.len(),
        hunk_place(file, hunk) matches Err(e) ==> e is NotFound,
        hunk.before.len() == 0 ==> hunk_place(file, hunk) == Ok::<int, MatchFault>(
            file.len() as int,
        ),
{
    let at = file.len() - hunk.before.len();
    if at >= 0 {
        assert(file.skip(at) =~= file.subrange(at, at + hunk.before.len()));
    }
    if hunk.before.len() == 0 {
        assert(file.subrange(at, at) =~= hunk.before);
    }
}

/// The file after a hunk has been applied at `pos`. One at the end of the file takes the place
/// of the last lines, whatever `pos` is.
pub open spec fn hunk_applied<T>(file: Seq<T>, pos: int, before: int, after: Seq<T>, eof: bool) -> Seq<T> {
    if eof {
        file.take(file.len() - before) + after
    } else {
        file.take(pos) + after + file.skip(pos + before)
    }
}

/// Applying a hunk puts its new lines in place of its old ones and leaves all others as they
/// are.
pub proof fn law_hunk_replaces_its_lines<T>(file: Seq<T>, pos: int, before: int, after: Seq<T>)
    requires
        0 <= pos,
        0 <= before,
        pos + before <= file.len(),
    ensures
        ({
            let new = hunk_applied(file, pos, before, after, false);
            &&& new.len() == file.len() - before + after.len()
            &&& new.take(pos) == file.take(pos)
            &&& new.subrange(pos, pos + after.len()) == after
            &&& new.skip(pos + after.len()) == file.skip(pos + before)
        }),
{
    let new = hunk_applied(file, pos, before, after, false);
    assert(new.take(pos) =~= file.take(pos));
    assert(new.subrange(pos, pos + after.len()) =~= after);
    assert(new.skip(pos + after.len()) =~= file.skip(pos + before));
}

/// A hunk and its reverse, applied at the same place, leave the file as it was.
pub proof fn law_reverse_hunk_restores<T>(file: Seq<T>, pos: int, before: Seq<T>, after: Seq<T>)
    requires
        0 <= pos,
        pos + before.len() <= file.len(),
        file.subrange(pos, pos + before.len()) == before,
    ensures
        hunk_applied(
            hunk_applied(file, pos, before.len() as int, after, false),
            pos,
            after.len() as int,
            before,
            false,
        ) == file,
{
    let new = hunk_applied(file, pos, before.len() as int, after, false);
    law_hunk_replaces_its_lines(file, pos, before.len() as int, after);
    assert(hunk_applied(new, pos, after.len() as int, before, false) =~= file) by {
        assert(file =~= file.take(pos) + file.subrange(pos, pos + before.len()) + file.skip(
            pos + before.len(),
        ));
    }
}

fn lines_stand_at(file: &Vec<String>, pattern: &Vec<String>, len: usize, at: usize) -> (r: bool)
    requires
        len <= pattern@.len(),
        at <= file@.len(),
    ensures
        r == stands_at(text::views(file@), text::views(pattern@).take(len as int), at as int),
{
    let ghost f = text::views(file@);
    let ghost p = text::views(pattern@).take(len as int);
    if len > file.len() - at {
        return false;
    }
    let total: usize = file.len();
    let mut i: usize = 0;
    while i < len
        invariant
            i <= len <= pattern@.len(),
            total == file@.len(),
            at + len <= total,
            f == text::views(file@),
            p == text::views(pattern@).take(len as int),
            forall|k: int| 0 <= k < i ==> f[at + k] == p[k],
        decreases len - i,
    {
        if !text::same(file[at + i].as_str(), pattern[i].as_str()) {
            assert(f.subrange(at as int, at + len)[i as int] != p[i as int]);
            return false;
        }
        i = i + 1;
    }
    assert(f.subrange(at as int, at + len) =~= p);
    true
}

fn find_first_place(file: &Vec<String>, pattern: &Vec<String>, len: usize) -> (r: Option<usize>)
    requires
        len <= pattern@.len(),
    ensures
        match r {
            Some(i) => first_place(text::views(file@), text::views(pattern@).take(len as int), 0)
                == Some(i as int) && i <= file@.len(),
            None => first_place(text::views(file@), text::views(pattern@).take(len as int), 0)
                is None,
        },
{
    let ghost f = text::views(file@);
    let ghost p = text::views(pattern@).take(len as int);
    let mut i: usize = 0;
    loop
        invariant
            i <= file@.len(),
            len <= pattern@.len(),
            f == text::views(file@),
            p == text::views(pattern@).take(len as int),
            first_place(f, p, 0) == first_place(f, p, i as int),
        decreases file@.len() - i,
    {
        if lines_stand_at(file, pattern, len, i) {
            return Some(i);
        }
        if i == file.len() {
            assert(first_place(f, p, i + 1) is None);
            return None;
        }
        i = i + 1;
    }
}

fn squeeze(s: &str) -> (r: String)
    ensures
        r@ == squeezed(s@),
{
    let chars = text::chars_of(s);
    let mut out = String::new();
    let mut i: usize = 0;
    assert(s@.take(0) =~= Seq::empty());
    while i < chars.len()
        invariant
            chars@ == s@,
            i <= chars@.len(),
            out@ == squeezed(s@.take(i as int)),
        decreases chars@.len() - i,
    {
        assert(s@.take(i + 1).drop_last() =~= s@.take(i as int));
        if !text::is_white(chars[i]) {
            out.push(chars[i]);
        }
        i = i + 1;
    }
    assert(s@.take(s@.len() as int) =~= s@);
    out
}

/// Looks for what comes closest to the pattern, to say it in an error.
fn find_closest_match(file: &Vec<String>, pattern: &Vec<String>) -> (r: Option<(usize, String)>)
    requires
        file@.len() < usize::MAX,
    ensures
        match r {
            Some((line, what)) => closest(text::views(file@), text::views(pattern@)) == Some(
                (line as int, what@),
            ) && line <= file@.len() + 1,
            None => closest(text::views(file@), text::views(pattern@)) is None,
        },
{
    let ghost f = text::views(file@);
    let ghost p = text::views(pattern@);
    let mut len: usize = pattern.len();
    while len > 0
        invariant
            len <= pattern@.len(),
            file@.len() < usize::MAX,
            f == text::views(file@),
            p == text::views(pattern@),
            closest_prefix(f, p, p.len() as int) == closest_prefix(f, p, len as int),
        decreases len,
    {
        match find_first_place(file, pattern, len) {
            Some(i) => {
                let what = if len == pattern.len() {
                    text::copy("exact match but at unexpected position")
                } else {
                    let mut t = text::copy("partial match: matched first ");
                    let n = text::decimal_of(len as u64);
                    t.push_str(n.as_str());
                    t.push_str(" line(s), rest differs");
                    t
                };
                return Some((i + 1, what));
            },
            None => {},
        }
        len = len - 1;
    }
    if pattern.len() == 0 {
        return None;
    }
    let first = squeeze(pattern[0].as_str());
    let mut i: usize = 0;
    while i < file.len()
        invariant
            i <= file@.len() < usize::MAX,
            pattern@.len() > 0,
            f == text::views(file@),
            p == text::views(pattern@),
            first@ == squeezed(p[0]),
            closest_prefix(f, p, p.len() as int) is None,
            first_squeezed(f, p[0], 0) == first_squeezed(f, p[0], i as int),
        decreases file@.len() - i,
    {
        let line = squeeze(file[i].as_str());
        assert(f[i as int] == file@[i as int]@);
        if text::same(line.as_str(), first.as_str()) {
            return Some(
                (
                    i + 1,
                    text::copy(
                        "first line matches when ignoring whitespace (indentation differs)",
                    ),
                ),
            );
        }
        i = i + 1;
    }
    None
}

/// Finds where a hunk applies, counted from zero.
pub fn find_hunk_position(file_lines: &Vec<String>, hunk: &Hunk) -> (r: Result<usize, MatchError>)
    requires
        file_lines@.len() < usize::MAX - 8,
    ensures
        match r {
            Ok(at) => hunk_place(text::views(file_lines@), hunk@) == Ok::<int, MatchFault>(
                at as int,
            ),
            Err(e) => hunk_place(text::views(file_lines@), hunk@) == Err::<int, MatchFault>(e@),
        },
{
    let ghost f = text::views(file_lines@);
    let ghost p = text::views(hunk.before@);
    let total: usize = file_lines.len();
    let n: usize = hunk.before.len();
    if hunk.is_end_of_file {
        assert(p.take(n as int) =~= p);
        if n <= total && lines_stand_at(file_lines, &hunk.before, n, total - n) {
            return Ok(total - n);
        }
        let hint = find_closest_match(file_lines, &hunk.before);
        return Err(MatchError::NotFound { hint });
    }
    if n == 0 {
        return Ok(hunk.line_anchor.saturating_sub(1));
    }
    if n > total {
        return Err(MatchError::NotFound { hint: None });
    }
    let start: usize = hunk.line_anchor.saturating_sub(4);
    let end: usize = text::min_usize(total, hunk.line_anchor.saturating_add(3));
    if start >= end || n > end - start {
        return Err(MatchError::NotFound { hint: None });
    }
    let last: usize = end - n + 1;
    let mut found: Vec<usize> = Vec::new();
    let mut at: usize = start;
    while at < last
        invariant
            total == file_lines@.len(),
            start <= at <= last,
            last == end - n + 1,
            end <= total,
            n == hunk.before@.len(),
            n > 0,
            f == text::views(file_lines@),
            p == text::views(hunk.before@),
            found@.len() == places(f, p, start as int, at as int).len(),
            forall|i: int|
                0 <= i < found@.len() ==> found@[i] == places(f, p, start as int, at as int)[i],
        decreases last - at,
    {
        assert(p.take(n as int) =~= p);
        if lines_stand_at(file_lines, &hunk.before, n, at) {
            found.push(at);
        }
        at = at + 1;
    }
    let ghost all = places(f, p, start as int, last as int);
    if found.len() == 0 {
        let mut window: Vec<String> = Vec::new();
        let mut i: usize = start;
        while i < end
            invariant
                start <= i <= end <= total,
                total == file_lines@.len(),
                f == text::views(file_lines@),
                window@.len() == i - start,
                forall|k: int| 0 <= k < window@.len() ==> window@[k]@ == f[start + k],
            decreases end - i,
        {
            window.push(file_lines[i].clone());
            i = i + 1;
        }
        assert(text::views(window@) =~= f.subrange(start as int, end as int));
        let hint = match find_closest_match(&window, &hunk.before) {
            Some((line, what)) => Some((start + line, what)),
            None => None,
        };
        return Err(MatchError::NotFound { hint });
    }
    if found.len() == 1 {
        return Ok(found[0]);
    }
    let mut positions: Vec<usize> = Vec::new();
    let mut k: usize = 0;
    proof {
        lemma_places(f, p, start as int, last as int);
    }
    while k < found.len()
        invariant
            k <= found@.len(),
            all == places(f, p, start as int, last as int),
            last <= usize::MAX - 8,
            found@.len() == all.len(),
            forall|i: int| 0 <= i < found@.len() ==> found@[i] == all[i],
            forall|i: int| 0 <= i < all.len() ==> start <= (#[trigger] all[i]) < last,
            positions@.len() == k,
            forall|i: int| 0 <= i < k ==> positions@[i] == all[i] + 1,
        decreases found@.len() - k,
    {
        assert(all[k as int] < last);
        positions.push(found[k] + 1);
        k = k + 1;
    }
    let e = MatchError::Ambiguous { positions };
    assert(e@ =~= MatchFault::Ambiguous(Seq::new(all.len(), |i: int| all[i] + 1)));
    Err(e)
}

/// A hunk does to the texts of the lines what it does to the lines.
pub proof fn lemma_applied_views(
    file: Seq<String>,
    pos: int,
    before: int,
    after: Seq<String>,
    eof: bool,
)
    requires
        0 <= before <= file.len(),
        eof || 0 <= pos <= file.len() - before,
    ensures
        text::views(hunk_applied(file, pos, before, after, eof)) == hunk_applied(
            text::views(file),
            pos,
            before,
            text::views(after),
            eof,
        ),
{
    assert(text::views(hunk_applied(file, pos, before, after, eof)) =~= hunk_applied(
        text::views(file),
        pos,
        before,
        text::views(after),
        eof,
    ));
}

/// Applies a hunk to the lines of a file.
pub fn apply_hunk(file_lines: &mut Vec<String>, pos: usize, hunk: &Hunk)
    requires
        hunk.before@.len() <= old(file_lines)@.len(),
        hunk.is_end_of_file || pos + hunk.before@.len() <= old(file_lines)@.len(),
    ensures
        final(file_lines)@ == hunk_applied(
            old(file_lines)@,
            pos as int,
            hunk.before@.len() as int,
            hunk.after@,
            hunk.is_end_of_file,
        ),
{
    let ghost file = file_lines@;
    let mut added = text::copy_list(&hunk.after);
    if hunk.is_end_of_file {
        let kept: usize = file_lines.len() - hunk.before.len();
        file_lines.truncate(kept);
        assert(file_lines@ =~= file.take(kept as int));
        file_lines.append(&mut added);
        return;
    }
    let total: usize = file_lines.len();
    assert(pos + hunk.before@.len() <= total);
    let mut tail = file_lines.split_off(pos + hunk.before.len());
    file_lines.truncate(pos);
    assert(file_lines@ =~= file.take(pos as int));
    file_lines.append(&mut added);
    file_lines.append(&mut tail);
    assert(file_lines@ =~= hunk_applied(
        file,
        pos as int,
        hunk.before@.len() as int,
        hunk.after@,
        false,
    ));
}

} // verus!
