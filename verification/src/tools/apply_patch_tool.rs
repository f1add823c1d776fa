//! Editing files by a patch: its grammar, where its hunks apply, and what they do.
use crate::text;
use vstd::prelude::*;

verus! {

#[derive(Debug)]
pub struct ApplyPatchInput {
    /// The whole patch.
    pub input: String,
}

/// One operation of a patch.
#[derive(Debug)]
pub enum PatchOp {
    Add { path: String, content: Vec<String> },
    Update { path: String, new_path: Option<String>, hunks: Vec<Hunk> },
    Delete { path: String },
}

/// One change of a file.
#[derive(Debug)]
pub struct Hunk {
    /// The line that the change is near, counted from one.
    pub line_anchor: usize,
    /// The lines that must be there: context and removed lines.
    pub before: Vec<String>,
    /// The lines that take their place: context and added lines.
    pub after: Vec<String>,
    /// Whether the new lines go to the end of the file.
    pub is_end_of_file: bool,
}

#[verifier::ext_equal]
pub struct HunkView {
    pub line_anchor: int,
    pub before: Seq<Seq<char>>,
    pub after: Seq<Seq<char>>,
    pub is_end_of_file: bool,
}

#[verifier::ext_equal]
pub enum OpView {
    Add { path: Seq<char>, content: Seq<Seq<char>> },
    Update { path: Seq<char>, new_path: Option<Seq<char>>, hunks: Seq<HunkView> },
    Delete { path: Seq<char> },
}

impl View for Hunk {
    type V = HunkView;

    open spec fn view(&self) -> HunkView {
        HunkView {
            line_anchor: self.line_anchor as int,
            before: text::views(self.before@),
            after: text::views(self.after@),
            is_end_of_file: self.is_end_of_file,
        }
    }
}

pub open spec fn hunks_view(hunks: Seq<Hunk>) -> Seq<HunkView> {
    Seq::new(hunks.len(), |i: int| hunks[i]@)
}

impl View for PatchOp {
    type V = OpView;

    open spec fn view(&self) -> OpView {
        match *self {
            PatchOp::Add { path, content } => OpView::Add {
                path: path@,
                content: text::views(content@),
            },
            PatchOp::Update { path, new_path, hunks } => OpView::Update {
                path: path@,
                new_path: crate::json::opt_view(new_path),
                hunks: hunks_view(hunks@),
            },
            PatchOp::Delete { path } => OpView::Delete { path: path@ },
        }
    }
}

pub open spec fn ops_view(ops: Seq<PatchOp>) -> Seq<OpView> {
    Seq::new(ops.len(), |i: int| ops[i]@)
}

/// What parsing part of a patch comes to: a value and the line to go on at, or an error.
pub enum Parsed<T> {
    Good(T, int),
    Bad(Seq<char>),
}

pub open spec fn blank(line: Seq<char>) -> bool {
    text::trimmed(line).len() == 0
}

/// The first line at or after `pos` that is not blank.
pub open spec fn past_blank(lines: Seq<Seq<char>>, pos: int) -> int
    decreases lines.len() - pos,
{
    if 0 <= pos < lines.len() && blank(lines[pos]) {
        past_blank(lines, pos + 1)
    } else {
        pos
    }
}

/// An error message with the number of its line.
pub open spec fn at_line(pos: int, msg: Seq<char>) -> Seq<char> {
    "Line "@ + text::decimal(pos + 1) + ": "@ + msg
}

/// What stands behind `head` on a line that starts with it, white space at the ends aside.
pub open spec fn header_value(line: Seq<char>, head: Seq<char>) -> Option<Seq<char>> {
    let t = text::trimmed(line);
    if text::has_prefix(t, head) {
        Some(text::trimmed(t.skip(head.len() as int)))
    } else {
        None
    }
}

/// The lines to add, from `pos` on, behind those already found.
pub open spec fn add_block(lines: Seq<Seq<char>>, pos: int, found: Seq<Seq<char>>) -> Parsed<
    Seq<Seq<char>>,
>
    decreases lines.len() - pos,
    when 0 <= pos
    via add_block_decreases
{
    let p = past_blank(lines, pos);
    if p >= lines.len() {
        Parsed::Good(found, p)
    } else if text::has_prefix(lines[p], seq!['+']) {
        add_block(lines, p + 1, found.push(lines[p].skip(1)))
    } else if text::has_prefix(lines[p], "*** "@) {
        Parsed::Good(found, p)
    } else {
        Parsed::Bad(
            at_line(
                p,
                "In Add File block: expected '+' line or next operation, got: "@ + lines[p],
            ),
        )
    }
}

#[via_fn]
proof fn add_block_decreases(lines: Seq<Seq<char>>, pos: int, found: Seq<Seq<char>>) {
    lemma_past_blank(lines, pos);
}

pub proof fn lemma_past_blank(lines: Seq<Seq<char>>, pos: int)
    requires
        0 <= pos,
    ensures
        pos <= past_blank(lines, pos),
        pos <= lines.len() ==> past_blank(lines, pos) <= lines.len(),
    decreases lines.len() - pos,
{
    if pos < lines.len() && blank(lines[pos]) {
        lemma_past_blank(lines, pos + 1);
    }
}

/// The run of decimal digits in `s` from `from` on.
pub open spec fn digits_from(s: Seq<char>, from: int) -> Seq<char>
    decreases s.len() - from,
{
    if 0 <= from < s.len() && text::digit_value(s[from]) is Some {
        seq![s[from]] + digits_from(s, from + 1)
    } else {
        Seq::empty()
    }
}

/// The line number that a hunk header gives: the digits behind its first `L`. Lines are counted
/// from one, so zero is none.
pub open spec fn anchor_of(header: Seq<char>) -> Option<int> {
    let t = text::trimmed(header);
    if !text::has_prefix(t, "@@"@) {
        None
    } else {
        let content = text::trimmed(t.skip(2));
        match text::char_from(content, 'L', 0) {
            Some(i) => {
                let digits = digits_from(content, i + 1);
                match text::decimal_value(digits) {
                    Some(n) => if digits.len() > 0 && 1 <= n <= usize::MAX {
                        Some(n)
                    } else {
                        None
                    },
                    None => None,
                }
            },
            None => None,
        }
    }
}

/// The lines of a hunk found so far.
pub struct Body {
    pub before: Seq<Seq<char>>,
    pub after: Seq<Seq<char>>,
    pub is_end_of_file: bool,
}

/// The body of a hunk, from `pos` on: the longest run of lines that belong to one.
pub open spec fn hunk_body(lines: Seq<Seq<char>>, pos: int, found: Body) -> (Body, int)
    decreases lines.len() - pos,
{
    if pos < 0 || pos >= lines.len() {
        (found, pos)
    } else {
        let l = lines[pos];
        if text::trimmed(l) == "*** End of File"@ {
            hunk_body(lines, pos + 1, Body { is_end_of_file: true, ..found })
        } else if text::has_prefix(l, seq![' ']) {
            hunk_body(
                lines,
                pos + 1,
                Body {
                    before: found.before.push(l.skip(1)),
                    after: found.after.push(l.skip(1)),
                    ..found
                },
            )
        } else if text::has_prefix(l, seq!['-']) {
            hunk_body(lines, pos + 1, Body { before: found.before.push(l.skip(1)), ..found })
        } else if text::has_prefix(l, seq!['+']) {
            hunk_body(lines, pos + 1, Body { after: found.after.push(l.skip(1)), ..found })
        } else {
            (found, pos)
        }
    }
}

pub open spec fn no_anchor() -> Seq<char> {
    "@@ must specify line number (e.g. @@ L42)"@
}

/// A hunk whose header is at `pos`.
pub open spec fn hunk_at(lines: Seq<Seq<char>>, pos: int) -> Parsed<HunkView> {
    match anchor_of(lines[pos]) {
        None => Parsed::Bad(at_line(pos, no_anchor())),
        Some(anchor) => {
            let next = pos + 1;
            if next < lines.len() && text::has_prefix(text::trimmed(lines[next]), "@@"@) {
                if anchor_of(lines[next]) is None {
                    Parsed::Bad(at_line(next, no_anchor()))
                } else {
                    Parsed::Bad(
                        at_line(
                            next,
                            "Multiple @@ lines not allowed (only one @@ L<N> per hunk)"@,
                        ),
                    )
                }
            } else {
                let (body, end) = hunk_body(
                    lines,
                    next,
                    Body { before: Seq::empty(), after: Seq::empty(), is_end_of_file: false },
                );
                if body.before.len() == 0 && body.after.len() == 0 {
                    Parsed::Bad(at_line(end, "Empty hunk (no content lines)"@))
                } else {
                    Parsed::Good(
                        HunkView {
                            line_anchor: anchor,
                            before: body.before,
                            after: body.after,
                            is_end_of_file: body.is_end_of_file,
                        },
                        end,
                    )
                }
            }
        },
    }
}

pub proof fn lemma_hunk_body(lines: Seq<Seq<char>>, pos: int, found: Body)
    requires
        0 <= pos <= lines.len(),
    ensures
        pos <= hunk_body(lines, pos, found).1 <= lines.len(),
    decreases lines.len() - pos,
{
    if pos < lines.len() {
        let l = lines[pos];
        if text::trimmed(l) == "*** End of File"@ {
            lemma_hunk_body(lines, pos + 1, Body { is_end_of_file: true, ..found });
        } else if text::has_prefix(l, seq![' ']) {
            lemma_hunk_body(
                lines,
                pos + 1,
                Body {
                    before: found.before.push(l.skip(1)),
                    after: found.after.push(l.skip(1)),
                    ..found
                },
            );
        } else if text::has_prefix(l, seq!['-']) {
            lemma_hunk_body(
                lines,
                pos + 1,
                Body { before: found.before.push(l.skip(1)), ..found },
            );
        } else if text::has_prefix(l, seq!['+']) {
            lemma_hunk_body(lines, pos + 1, Body { after: found.after.push(l.skip(1)), ..found });
        }
    }
}

pub proof fn lemma_hunk_at(lines: Seq<Seq<char>>, pos: int)
    requires
        0 <= pos < lines.len(),
    ensures
        hunk_at(lines, pos) matches Parsed::Good(_, end) ==> pos < end <= lines.len(),
{
    lemma_hunk_body(
        lines,
        pos + 1,
        Body { before: Seq::empty(), after: Seq::empty(), is_end_of_file: false },
    );
}

/// The hunks of an update and the path that the file moves to.
pub struct Update {
    pub hunks: Seq<HunkView>,
    pub new_path: Option<Seq<char>>,
}

/// The hunks and directives of an update, from `pos` on, behind those already found.
pub open spec fn update_block(lines: Seq<Seq<char>>, pos: int, found: Update) -> Parsed<Update>
    decreases lines.len() - pos,
    when 0 <= pos <= lines.len()
    via update_block_decreases
{
    let p = past_blank(lines, pos);
    if p >= lines.len() {
        Parsed::Good(found, p)
    } else {
        match header_value(lines[p], "*** Move to: "@) {
            Some(target) => if found.new_path is Some {
                Parsed::Bad(at_line(p, "Duplicate '*** Move to:' directive"@))
            } else {
                update_block(lines, p + 1, Update { new_path: Some(target), ..found })
            },
            None => if text::has_prefix(text::trimmed(lines[p]), "@@"@) {
                match hunk_at(lines, p) {
                    Parsed::Good(h, end) => update_block(
                        lines,
                        end,
                        Update { hunks: found.hunks.push(h), ..found },
                    ),
                    Parsed::Bad(e) => Parsed::Bad(e),
                }
            } else if text::has_prefix(text::trimmed(lines[p]), "*** "@) {
                Parsed::Good(found, p)
            } else {
                Parsed::Bad(
                    at_line(
                        p,
                        "In Update File block: expected hunk ('@@'), directive, or next operation, got: "@
                            + lines[p],
                    ),
                )
            },
        }
    }
}

#[via_fn]
proof fn update_block_decreases(lines: Seq<Seq<char>>, pos: int, found: Update) {
    lemma_past_blank(lines, pos);
    let p = past_blank(lines, pos);
    if p < lines.len() {
        lemma_hunk_at(lines, p);
    }
}

pub proof fn lemma_add_block(lines: Seq<Seq<char>>, pos: int, found: Seq<Seq<char>>)
    requires
        0 <= pos <= lines.len(),
    ensures
        add_block(lines, pos, found) matches Parsed::Good(_, end) ==> pos <= end <= lines.len(),
    decreases lines.len() - pos,
{
    lemma_past_blank(lines, pos);
    let p = past_blank(lines, pos);
    if p < lines.len() && text::has_prefix(lines[p], seq!['+']) {
        lemma_add_block(lines, p + 1, found.push(lines[p].skip(1)));
    }
}

pub proof fn lemma_update_block(lines: Seq<Seq<char>>, pos: int, found: Update)
    requires
        0 <= pos <= lines.len(),
    ensures
        update_block(lines, pos, found) matches Parsed::Good(_, end) ==> pos <= end <= lines.len(),
    decreases lines.len() - pos,
{
    lemma_past_blank(lines, pos);
    let p = past_blank(lines, pos);
    if p < lines.len() {
        lemma_hunk_at(lines, p);
        match header_value(lines[p], "*** Move to: "@) {
            Some(target) => {
                if found.new_path is None {
                    lemma_update_block(
                        lines,
                        p + 1,
                        Update { new_path: Some(target), ..found },
                    );
                }
            },
            None => {
                if text::has_prefix(text::trimmed(lines[p]), "@@"@) {
                    match hunk_at(lines, p) {
                        Parsed::Good(h, end) => {
                            lemma_update_block(
                                lines,
                                end,
                                Update { hunks: found.hunks.push(h), ..found },
                            );
                        },
                        Parsed::Bad(_) => {},
                    }
                }
            },
        }
    }
}

/// The operations of a patch, from `pos` on, behind those already found.
pub open spec fn ops_from(lines: Seq<Seq<char>>, pos: int, found: Seq<OpView>) -> Parsed<
    Seq<OpView>,
>
    decreases lines.len() - pos,
    when 0 <= pos <= lines.len()
    via ops_from_decreases
{
    let p = past_blank(lines, pos);
    if p >= lines.len() {
        Parsed::Bad("Missing '*** End Patch' terminator"@)
    } else if text::trimmed(lines[p]) == "*** End Patch"@ {
        Parsed::Good(found, p + 1)
    } else {
        match header_value(lines[p], "*** Add File: "@) {
            Some(path) => match add_block(lines, p + 1, Seq::empty()) {
                Parsed::Good(content, end) => ops_from(
                    lines,
                    end,
                    found.push(OpView::Add { path, content }),
                ),
                Parsed::Bad(e) => Parsed::Bad(e),
            },
            None => match header_value(lines[p], "*** Update File: "@) {
                Some(path) => match update_block(
                    lines,
                    p + 1,
                    Update { hunks: Seq::empty(), new_path: None },
                ) {
                    Parsed::Good(u, end) => ops_from(
                        lines,
                        end,
                        found.push(
                            OpView::Update { path, new_path: u.new_path, hunks: u.hunks },
                        ),
                    ),
                    Parsed::Bad(e) => Parsed::Bad(e),
                },
                None => match header_value(lines[p], "*** Delete File: "@) {
                    Some(path) => ops_from(lines, p + 1, found.push(OpView::Delete { path })),
                    None => Parsed::Bad(
                        at_line(
                            p,
                            "Expected operation header (*** Add/Update/Delete File: ...), got: "@
                                + lines[p],
                        ),
                    ),
                },
            },
        }
    }
}

#[via_fn]
proof fn ops_from_decreases(lines: Seq<Seq<char>>, pos: int, found: Seq<OpView>) {
    lemma_past_blank(lines, pos);
    let p = past_blank(lines, pos);
    if p < lines.len() {
        lemma_add_block(lines, p + 1, Seq::empty());
        lemma_update_block(lines, p + 1, Update { hunks: Seq::empty(), new_path: None });
    }
}

/// The operations that a patch describes, or why it describes none.
pub open spec fn patch_of(input: Seq<char>) -> Result<Seq<OpView>, Seq<char>> {
    let lines = text::lines_of(input);
    let p = past_blank(lines, 0);
    if p >= lines.len() {
        Err("Empty input, expected '*** Begin Patch'"@)
    } else if text::trimmed(lines[p]) != "*** Begin Patch"@ {
        Err(at_line(p, "Expected '*** Begin Patch', got: "@ + lines[p]))
    } else {
        match ops_from(lines, p + 1, Seq::empty()) {
            Parsed::Good(ops, _) => Ok(ops),
            Parsed::Bad(e) => Err(e),
        }
    }
}

fn error_at(pos: usize, msg: &str) -> (r: String)
    requires
        pos < usize::MAX,
    ensures
        r@ == at_line(pos as int, msg@),
{
    let mut out = text::copy("Line ");
    let n = text::decimal_of((pos + 1) as u64);
    out.push_str(n.as_str());
    out.push_str(": ");
    out.push_str(msg);
    out
}

fn skip_empty_lines(lines: &Vec<String>, pos: usize) -> (r: usize)
    requires
        pos <= lines@.len(),
    ensures
        r == past_blank(text::views(lines@), pos as int),
        pos <= r <= lines@.len(),
{
    let ghost all = text::views(lines@);
    let mut i: usize = pos;
    while i < lines.len()
        invariant
            pos <= i <= lines@.len(),
            all == text::views(lines@),
            past_blank(all, pos as int) == past_blank(all, i as int),
        decreases lines@.len() - i,
    {
        let t = text::trim(lines[i].as_str());
        assert(all[i as int] == lines@[i as int]@);
        if text::char_count(t.as_str()) > 0 {
            return i;
        }
        i = i + 1;
    }
    i
}

/// What stands behind `head` on the line.
fn value_behind(line: &str, head: &str) -> (r: Option<String>)
    ensures
        crate::json::opt_view(r) == header_value(line@, head@),
{
    let t = text::trim(line);
    match text::strip_prefix(t.as_str(), head) {
        Some(rest) => Some(text::trim(rest.as_str())),
        None => None,
    }
}

/// The line without its first character, where that is `c`.
fn behind_mark(line: &str, c: char) -> (r: Option<String>)
    ensures
        match r {
            Some(rest) => text::has_prefix(line@, seq![c]) && rest@ == line@.skip(1),
            None => !text::has_prefix(line@, seq![c]),
        },
{
    let chars = text::chars_of(line);
    if chars.len() > 0 && chars[0] == c {
        assert(line@.take(1) =~= seq![c]);
        let rest = text::string_of(&chars, 1, chars.len());
        assert(rest@ =~= line@.skip(1));
        Some(rest)
    } else {
        proof {
            if text::has_prefix(line@, seq![c]) {
                assert(line@.take(1)[0] == c);
            }
        }
        None
    }
}

fn parse_add_content(lines: &Vec<String>, pos: usize) -> (r: Result<(Vec<String>, usize), String>)
    requires
        pos <= lines@.len() < usize::MAX,
    ensures
        match r {
            Ok((content, end)) => add_block(text::views(lines@), pos as int, Seq::empty())
                == Parsed::Good(text::views(content@), end as int) && pos <= end <= lines@.len(),
            Err(e) => add_block(text::views(lines@), pos as int, Seq::empty()) == Parsed::<
                Seq<Seq<char>>,
            >::Bad(e@),
        },
{
    let ghost all = text::views(lines@);
    let mut content: Vec<String> = Vec::new();
    let mut i: usize = pos;
    assert(text::views(content@) =~= Seq::empty());
    loop
        invariant
            pos <= i <= lines@.len() < usize::MAX,
            all == text::views(lines@),
            add_block(all, pos as int, Seq::empty()) == add_block(
                all,
                i as int,
                text::views(content@),
            ),
        decreases lines@.len() - i,
    {
        i = skip_empty_lines(lines, i);
        if i >= lines.len() {
            return Ok((content, i));
        }
        assert(all[i as int] == lines@[i as int]@);
        match behind_mark(lines[i].as_str(), '+') {
            Some(rest) => {
                broadcast use text::lemma_views_push;

                content.push(rest);
                i = i + 1;
            },
            None => {
                if text::starts_with(lines[i].as_str(), "*** ") {
                    return Ok((content, i));
                }
                let msg = text::concat(
                    "In Add File block: expected '+' line or next operation, got: ",
                    lines[i].as_str(),
                );
                return Err(error_at(i, msg.as_str()));
            },
        }
    }
}

proof fn lemma_digits_from(s: Seq<char>, from: int)
    requires
        0 <= from <= s.len(),
    ensures
        ({
            let n = digits_from(s, from).len();
            &&& from + n <= s.len()
            &&& digits_from(s, from) == s.subrange(from, from + n)
            &&& forall|i: int| from <= i < from + n ==> text::digit_value(s[i]) is Some
            &&& from + n < s.len() ==> text::digit_value(s[from + n]) is None
        }),
    decreases s.len() - from,
{
    if from < s.len() && text::digit_value(s[from]) is Some {
        lemma_digits_from(s, from + 1);
        let n = digits_from(s, from).len();
        assert(digits_from(s, from) =~= s.subrange(from, from + n));
    } else {
        assert(digits_from(s, from) =~= s.subrange(from, from));
    }
}

/// The line number in a hunk header, such as 42 in `@@ L42`.
fn extract_line_number(header: &str) -> (r: Option<usize>)
    ensures
        match r {
            Some(n) => anchor_of(header@) == Some(n as int),
            None => anchor_of(header@) is None,
        },
{
    let t = text::trim(header);
    proof {
        reveal_strlit("@@");
    }
    let content = match text::strip_prefix(t.as_str(), "@@") {
        Some(rest) => text::trim(rest.as_str()),
        None => {
            return None;
        },
    };
    let chars = text::chars_of(content.as_str());
    match text::find_char(&chars, 'L', 0) {
        Some(at) => {
            let mut end: usize = at + 1;
            proof {
                lemma_digits_from(chars@, at + 1);
            }
            let ghost digits = digits_from(chars@, at + 1);
            while end < chars.len() && '0' <= chars[end] && chars[end] <= '9'
                invariant
                    at + 1 <= end <= chars@.len(),
                    digits == digits_from(chars@, at + 1),
                    end <= at + 1 + digits.len() <= chars@.len(),
                    digits == chars@.subrange(at + 1, at + 1 + digits.len()),
                    forall|i: int|
                        at + 1 <= i < at + 1 + digits.len() ==> text::digit_value(chars@[i])
                            is Some,
                    at + 1 + digits.len() < chars@.len() ==> text::digit_value(
                        chars@[at + 1 + digits.len()],
                    ) is None,
                decreases chars@.len() - end,
            {
                end = end + 1;
            }
            assert(end == at + 1 + digits.len());
            let run = text::string_of(&chars, at + 1, end);
            assert(run@ == digits);
            proof {
                if digits.len() > 0 {
                    assert(digits[0] == chars@[at + 1]);
                    assert(digits[0] != '+');
                }
            }
            match text::parse_usize(run.as_str()) {
                Some(n) => if n >= 1 {
                    Some(n)
                } else {
                    None
                },
                None => None,
            }
        },
        None => None,
    }
}

fn parse_body(lines: &Vec<String>, pos: usize) -> (r: (Vec<String>, Vec<String>, bool, usize))
    requires
        pos <= lines@.len(),
    ensures
        hunk_body(
            text::views(lines@),
            pos as int,
            Body { before: Seq::empty(), after: Seq::empty(), is_end_of_file: false },
        ) == (
            Body {
                before: text::views(r.0@),
                after: text::views(r.1@),
                is_end_of_file: r.2,
            },
            r.3 as int,
        ),
        pos <= r.3 <= lines@.len(),
{
    broadcast use text::lemma_views_push;

    let ghost all = text::views(lines@);
    let ghost start = Body { before: Seq::empty(), after: Seq::empty(), is_end_of_file: false };
    let mut before: Vec<String> = Vec::new();
    let mut after: Vec<String> = Vec::new();
    let mut is_end_of_file = false;
    let mut i: usize = pos;
    assert(text::views(before@) =~= Seq::empty());
    assert(text::views(after@) =~= Seq::empty());
    while i < lines.len()
        invariant
            pos <= i <= lines@.len(),
            all == text::views(lines@),
            start == (Body {
                before: Seq::empty(),
                after: Seq::empty(),
                is_end_of_file: false,
            }),
            hunk_body(all, pos as int, start) == hunk_body(
                all,
                i as int,
                Body {
                    before: text::views(before@),
                    after: text::views(after@),
                    is_end_of_file,
                },
            ),
        decreases lines@.len() - i,
    {
        broadcast use text::lemma_views_push;

        assert(all[i as int] == lines@[i as int]@);
        let line = lines[i].as_str();
        let t = text::trim(line);
        if text::same(t.as_str(), "*** End of File") {
            is_end_of_file = true;
        } else {
            match behind_mark(line, ' ') {
                Some(rest) => {
                    before.push(rest.clone());
                    after.push(rest);
                },
                None => match behind_mark(line, '-') {
                    Some(rest) => {
                        before.push(rest);
                    },
                    None => match behind_mark(line, '+') {
                        Some(rest) => {
                            after.push(rest);
                        },
                        None => {
                            return (before, after, is_end_of_file, i);
                        },
                    },
                },
            }
        }
        i = i + 1;
    }
    (before, after, is_end_of_file, i)
}

fn parse_hunk(lines: &Vec<String>, pos: usize) -> (r: Result<(Hunk, usize), String>)
    requires
        pos < lines@.len() < usize::MAX,
    ensures
        match r {
            Ok((h, end)) => hunk_at(text::views(lines@), pos as int) == Parsed::Good(
                h@,
                end as int,
            ) && pos < end <= lines@.len(),
            Err(e) => hunk_at(text::views(lines@), pos as int) == Parsed::<HunkView>::Bad(e@),
        },
{
    let ghost all = text::views(lines@);
    assert(all[pos as int] == lines@[pos as int]@);
    let line_anchor: usize = match extract_line_number(lines[pos].as_str()) {
        Some(n) => n,
        None => {
            return Err(error_at(pos, "@@ must specify line number (e.g. @@ L42)"));
        },
    };
    let next: usize = pos + 1;
    if next < lines.len() {
        assert(all[next as int] == lines@[next as int]@);
        let t = text::trim(lines[next].as_str());
        if text::starts_with(t.as_str(), "@@") {
            if extract_line_number(lines[next].as_str()).is_none() {
                return Err(error_at(next, "@@ must specify line number (e.g. @@ L42)"));
            }
            return Err(
                error_at(next, "Multiple @@ lines not allowed (only one @@ L<N> per hunk)"),
            );
        }
    }
    let (before, after, is_end_of_file, end) = parse_body(lines, next);
    if before.len() == 0 && after.len() == 0 {
        return Err(error_at(end, "Empty hunk (no content lines)"));
    }
    Ok((Hunk { line_anchor, before, after, is_end_of_file }, end))
}

fn parse_update_hunks(lines: &Vec<String>, pos: usize) -> (r: Result<
    (Vec<Hunk>, Option<String>, usize),
    String,
>)
    requires
        pos <= lines@.len() < usize::MAX,
    ensures
        match r {
            Ok((hunks, new_path, end)) => update_block(
                text::views(lines@),
                pos as int,
                Update { hunks: Seq::empty(), new_path: None },
            ) == Parsed::Good(
                Update {
                    hunks: hunks_view(hunks@),
                    new_path: crate::json::opt_view(new_path),
                },
                end as int,
            ) && pos <= end <= lines@.len(),
            Err(e) => update_block(
                text::views(lines@),
                pos as int,
                Update { hunks: Seq::empty(), new_path: None },
            ) == Parsed::<Update>::Bad(e@),
        },
{
    let ghost all = text::views(lines@);
    let ghost start = Update { hunks: Seq::empty(), new_path: None };
    let mut hunks: Vec<Hunk> = Vec::new();
    let mut new_path: Option<String> = None;
    let mut i: usize = pos;
    assert(hunks_view(hunks@) =~= Seq::empty());
    loop
        invariant
            pos <= i <= lines@.len() < usize::MAX,
            all == text::views(lines@),
            start == (Update { hunks: Seq::empty(), new_path: None }),
            update_block(all, pos as int, start) == update_block(
                all,
                i as int,
                Update {
                    hunks: hunks_view(hunks@),
                    new_path: crate::json::opt_view(new_path),
                },
            ),
        decreases lines@.len() - i,
    {
        i = skip_empty_lines(lines, i);
        if i >= lines.len() {
            return Ok((hunks, new_path, i));
        }
        assert(all[i as int] == lines@[i as int]@);
        let line = lines[i].as_str();
        match value_behind(line, "*** Move to: ") {
            Some(target) => {
                if new_path.is_some() {
                    return Err(error_at(i, "Duplicate '*** Move to:' directive"));
                }
                new_path = Some(target);
                i = i + 1;
            },
            None => {
                let t = text::trim(line);
                if text::starts_with(t.as_str(), "@@") {
                    match parse_hunk(lines, i) {
                        Ok((h, end)) => {
                            let ghost before = hunks_view(hunks@);
                            let ghost hv = h@;
                            hunks.push(h);
                            assert(hunks_view(hunks@) =~= before.push(hv));
                            i = end;
                        },
                        Err(e) => {
                            return Err(e);
                        },
                    }
                } else if text::starts_with(t.as_str(), "*** ") {
                    return Ok((hunks, new_path, i));
                } else {
                    let msg = text::concat(
                        "In Update File block: expected hunk ('@@'), directive, or next operation, got: ",
                        line,
                    );
                    return Err(error_at(i, msg.as_str()));
                }
            },
        }
    }
}

/// Parses a patch.
pub fn parse_patch(input: &str) -> (r: Result<Vec<PatchOp>, String>)
    requires
        input@.len() < usize::MAX,
    ensures
        match r {
            Ok(ops) => patch_of(input@) == Ok::<Seq<OpView>, Seq<char>>(ops_view(ops@)),
            Err(e) => patch_of(input@) == Err::<Seq<OpView>, Seq<char>>(e@),
        },
{
    let lines = text::lines(input);
    let ghost all = text::views(lines@);
    proof {
        text::lemma_lines_count(input@);
    }
    let mut i: usize = skip_empty_lines(&lines, 0);
    if i >= lines.len() {
        return Err(text::copy("Empty input, expected '*** Begin Patch'"));
    }
    assert(all[i as int] == lines@[i as int]@);
    let t = text::trim(lines[i].as_str());
    if !text::same(t.as_str(), "*** Begin Patch") {
        let msg = text::concat("Expected '*** Begin Patch', got: ", lines[i].as_str());
        return Err(error_at(i, msg.as_str()));
    }
    i = i + 1;
    let ghost start = i as int;
    let mut ops: Vec<PatchOp> = Vec::new();
    assert(ops_view(ops@) =~= Seq::empty());
    loop
        invariant
            i <= lines@.len() < usize::MAX,
            all == text::views(lines@),
            ops_from(all, start, Seq::empty()) == ops_from(all, i as int, ops_view(ops@)),
            all == text::lines_of(input@),
            past_blank(all, 0) + 1 == start,
            start <= all.len(),
            text::trimmed(all[start - 1]) == "*** Begin Patch"@,
        decreases lines@.len() - i,
    {
        i = skip_empty_lines(&lines, i);
        if i >= lines.len() {
            return Err(text::copy("Missing '*** End Patch' terminator"));
        }
        assert(all[i as int] == lines@[i as int]@);
        let line = lines[i].as_str();
        let t = text::trim(line);
        if text::same(t.as_str(), "*** End Patch") {
            return Ok(ops);
        }
        let ghost before = ops_view(ops@);
        match value_behind(line, "*** Add File: ") {
            Some(path) => match parse_add_content(&lines, i + 1) {
                Ok((content, end)) => {
                    let op = PatchOp::Add { path, content };
                    let ghost ov = op@;
                    ops.push(op);
                    assert(ops_view(ops@) =~= before.push(ov));
                    i = end;
                },
                Err(e) => {
                    return Err(e);
                },
            },
            None => match value_behind(line, "*** Update File: ") {
                Some(path) => match parse_update_hunks(&lines, i + 1) {
                    Ok((hunks, new_path, end)) => {
                        let op = PatchOp::Update { path, new_path, hunks };
                        let ghost ov = op@;
                        ops.push(op);
                        assert(ops_view(ops@) =~= before.push(ov));
                        i = end;
                    },
                    Err(e) => {
                        return Err(e);
                    },
                },
                None => match value_behind(line, "*** Delete File: ") {
                    Some(path) => {
                        let op = PatchOp::Delete { path };
                        let ghost ov = op@;
                        ops.push(op);
                        assert(ops_view(ops@) =~= before.push(ov));
                        i = i + 1;
                    },
                    None => {
                        let msg = text::concat(
                            "Expected operation header (*** Add/Update/Delete File: ...), got: ",
                            line,
                        );
                        return Err(error_at(i, msg.as_str()));
                    },
                },
            },
        }
    }
}

} // verus!
