//! What holds of every patch that is read.
use crate::text;
use crate::tools::apply_patch_tool::add_block;
use crate::tools::apply_patch_tool::blank;
use crate::tools::apply_patch_tool::header_value;
use crate::tools::apply_patch_tool::hunk_at;
use crate::tools::apply_patch_tool::hunk_body;
use crate::tools::apply_patch_tool::lemma_add_block;
use crate::tools::apply_patch_tool::lemma_hunk_at;
use crate::tools::apply_patch_tool::lemma_hunk_body;
use crate::tools::apply_patch_tool::lemma_past_blank;
use crate::tools::apply_patch_tool::lemma_update_block;
use crate::tools::apply_patch_tool::ops_from;
use crate::tools::apply_patch_tool::past_blank;
use crate::tools::apply_patch_tool::patch_of;
use crate::tools::apply_patch_tool::update_block;
use crate::tools::apply_patch_tool::Body;
use crate::tools::apply_patch_tool::HunkView;
use crate::tools::apply_patch_tool::OpView;
use crate::tools::apply_patch_tool::Parsed;
use crate::tools::apply_patch_tool::Update;
use crate::tools::patch_apply;
use crate::tools::patch_run;
use vstd::prelude::*;

verus! {

/// Whether every hunk is near a line that is counted from one.
pub open spec fn anchored(hunks: Seq<HunkView>) -> bool {
    forall|i: int|
        0 <= i < hunks.len() ==> 1 <= (#[trigger] hunks[i]).line_anchor <= usize::MAX
}

pub open spec fn op_anchored(op: OpView) -> bool {
    op matches OpView::Update { path, new_path, hunks } ==> anchored(hunks)
}

proof fn lemma_update_anchored(lines: Seq<Seq<char>>, pos: int, found: Update)
    requires
        0 <= pos <= lines.len(),
        anchored(found.hunks),
    ensures
        update_block(lines, pos, found) matches Parsed::Good(u, _) ==> anchored(u.hunks),
    decreases lines.len() - pos,
{
    lemma_past_blank(lines, pos);
    let p = past_blank(lines, pos);
    if p < lines.len() {
        lemma_hunk_at(lines, p);
        match header_value(lines[p], "*** Move to: "@) {
            Some(target) => {
                if found.new_path is None {
                    lemma_update_anchored(
                        lines,
                        p + 1,
                        Update { new_path: Some(target), ..found },
                    );
                }
            },
            None => {
                if text::has_prefix(text::trimmed(lines[p]), "@@"@) {
                    match hunk_at(lines, p) {
                        Parsed::Good(h, end) => {
                            lemma_update_anchored(
                                lines,
                                end,
                                Update { hunks: found.hunks.push(h), ..found },
                            );
                        },
                        Parsed::Bad(_) => {},
                    }
                }
            },
        }
    }
}

proof fn lemma_ops_anchored(lines: Seq<Seq<char>>, pos: int, found: Seq<OpView>)
    requires
        0 <= pos <= lines.len(),
        forall|i: int| 0 <= i < found.len() ==> op_anchored(#[trigger] found[i]),
    ensures
        ops_from(lines, pos, found) matches Parsed::Good(ops, _) ==> forall|i: int|
            0 <= i < ops.len() ==> op_anchored(#[trigger] ops[i]),
    decreases lines.len() - pos,
{
    lemma_past_blank(lines, pos);
    let p = past_blank(lines, pos);
    if p < lines.len() && text::trimmed(lines[p]) != "*** End Patch"@ {
        let none = Update { hunks: Seq::empty(), new_path: None };
        lemma_add_block(lines, p + 1, Seq::empty());
        lemma_update_block(lines, p + 1, none);
        match header_value(lines[p], "*** Add File: "@) {
            Some(path) => match add_block(lines, p + 1, Seq::empty()) {
                Parsed::Good(content, end) => {
                    lemma_ops_anchored(lines, end, found.push(OpView::Add { path, content }));
                },
                Parsed::Bad(_) => {},
            },
            None => match header_value(lines[p], "*** Update File: "@) {
                Some(path) => {
                    lemma_update_anchored(lines, p + 1, none);
                    match update_block(lines, p + 1, none) {
                        Parsed::Good(u, end) => {
                            let op = OpView::Update { path, new_path: u.new_path, hunks: u.hunks };
                            lemma_ops_anchored(lines, end, found.push(op));
                        },
                        Parsed::Bad(_) => {},
                    }
                },
                None => match header_value(lines[p], "*** Delete File: "@) {
                    Some(path) => {
                        lemma_ops_anchored(lines, p + 1, found.push(OpView::Delete { path }));
                    },
                    None => {},
                },
            },
        }
    }
}

/// Every hunk of a patch that is read names a line, and lines are counted from one.
pub proof fn law_hunks_name_a_line(input: Seq<char>, ops: Seq<OpView>)
    requires
        patch_of(input) == Ok::<Seq<OpView>, Seq<char>>(ops),
    ensures
        forall|i: int| 0 <= i < ops.len() ==> op_anchored(#[trigger] ops[i]),
{
    let lines = text::lines_of(input);
    lemma_past_blank(lines, 0);
    lemma_ops_anchored(lines, past_blank(lines, 0) + 1, Seq::empty());
}

/// Whether `a` and `b` are the same up to line `k`, which ends the patch in both. Only a carriage
/// return may be missing there.
spec fn same_up_to(a: Seq<Seq<char>>, b: Seq<Seq<char>>, k: int) -> bool {
    &&& 0 <= k < a.len()
    &&& k < b.len()
    &&& forall|i: int| 0 <= i < k ==> #[trigger] a[i] == b[i]
    &&& b[k] == a[k] || b[k] == text::without_cr(a[k])
    &&& text::trimmed(a[k]) == "*** End Patch"@
    &&& text::trimmed(b[k]) == "*** End Patch"@
}

proof fn lemma_same_blank(a: Seq<Seq<char>>, b: Seq<Seq<char>>, k: int, pos: int)
    requires
        same_up_to(a, b, k),
        0 <= pos <= k,
    ensures
        past_blank(a, pos) == past_blank(b, pos),
        pos <= past_blank(a, pos) <= k,
    decreases k - pos,
{
    reveal_strlit("*** End Patch");
    if pos < k {
        assert(a[pos] == b[pos]);
        if blank(a[pos]) {
            lemma_same_blank(a, b, k, pos + 1);
        }
    }
}

proof fn lemma_trimmed_len(s: Seq<char>)
    ensures
        text::trimmed(s).len() <= s.len(),
{
    lemma_trimmed_start_len(s);
    lemma_trimmed_end_len(text::trimmed_start(s));
}

proof fn lemma_trimmed_start_len(s: Seq<char>)
    ensures
        text::trimmed_start(s).len() <= s.len(),
    decreases s.len(),
{
    if s.len() > 0 && text::white(s[0]) {
        lemma_trimmed_start_len(s.skip(1));
    }
}

proof fn lemma_trimmed_end_len(s: Seq<char>)
    ensures
        text::trimmed_end(s).len() <= s.len(),
    decreases s.len(),
{
    if s.len() > 0 && text::white(s.last()) {
        lemma_trimmed_end_len(s.drop_last());
    }
}

/// The start of the line that ends the patch is the same in both.
proof fn lemma_same_start(a: Seq<Seq<char>>, b: Seq<Seq<char>>, k: int, n: int)
    requires
        same_up_to(a, b, k),
        0 <= n <= 12,
    ensures
        n <= a[k].len(),
        n <= b[k].len(),
        a[k].take(n) == b[k].take(n),
{
    reveal_strlit("*** End Patch");
    lemma_trimmed_len(a[k]);
    lemma_trimmed_len(b[k]);
    assert(a[k].take(n) =~= b[k].take(n));
}

proof fn lemma_same_body(a: Seq<Seq<char>>, b: Seq<Seq<char>>, k: int, pos: int, found: Body)
    requires
        same_up_to(a, b, k),
        0 <= pos <= k,
        hunk_body(a, pos, found).1 <= k,
    ensures
        hunk_body(a, pos, found) == hunk_body(b, pos, found),
    decreases k - pos,
{
    if pos < k {
        let l = a[pos];
        assert(l == b[pos]);
        if text::trimmed(l) == "*** End of File"@ {
            lemma_same_body(a, b, k, pos + 1, Body { is_end_of_file: true, ..found });
        } else if text::has_prefix(l, seq![' ']) {
            lemma_same_body(
                a,
                b,
                k,
                pos + 1,
                Body {
                    before: found.before.push(l.skip(1)),
                    after: found.after.push(l.skip(1)),
                    ..found
                },
            );
        } else if text::has_prefix(l, seq!['-']) {
            lemma_same_body(
                a,
                b,
                k,
                pos + 1,
                Body { before: found.before.push(l.skip(1)), ..found },
            );
        } else if text::has_prefix(l, seq!['+']) {
            lemma_same_body(
                a,
                b,
                k,
                pos + 1,
                Body { after: found.after.push(l.skip(1)), ..found },
            );
        }
    } else {
        lemma_body_stops(a, k, found);
        lemma_same_start(a, b, k, 1);
    }
}

/// A body that ends where it begins has no line there.
proof fn lemma_body_stops(lines: Seq<Seq<char>>, pos: int, found: Body)
    requires
        0 <= pos < lines.len(),
        hunk_body(lines, pos, found).1 <= pos,
    ensures
        hunk_body(lines, pos, found) == (found, pos),
        text::trimmed(lines[pos]) != "*** End of File"@,
        !text::has_prefix(lines[pos], seq![' ']),
        !text::has_prefix(lines[pos], seq!['-']),
        !text::has_prefix(lines[pos], seq!['+']),
{
    let l = lines[pos];
    lemma_hunk_body(lines, pos + 1, Body { is_end_of_file: true, ..found });
    lemma_hunk_body(
        lines,
        pos + 1,
        Body {
            before: found.before.push(l.skip(1)),
            after: found.after.push(l.skip(1)),
            ..found
        },
    );
    lemma_hunk_body(lines, pos + 1, Body { before: found.before.push(l.skip(1)), ..found });
    lemma_hunk_body(lines, pos + 1, Body { after: found.after.push(l.skip(1)), ..found });
}

proof fn lemma_same_hunk(a: Seq<Seq<char>>, b: Seq<Seq<char>>, k: int, pos: int)
    requires
        same_up_to(a, b, k),
        0 <= pos < k,
        hunk_at(a, pos) matches Parsed::Good(_, end) && end <= k,
    ensures
        hunk_at(a, pos) == hunk_at(b, pos),
{
    let none = Body { before: Seq::empty(), after: Seq::empty(), is_end_of_file: false };
    assert(a[pos] == b[pos]);
    if pos + 1 < k {
        assert(a[pos + 1] == b[pos + 1]);
    }
    assert(text::trimmed(a[pos + 1]) == text::trimmed(b[pos + 1]));
    lemma_same_body(a, b, k, pos + 1, none);
}

proof fn lemma_same_add(
    a: Seq<Seq<char>>,
    b: Seq<Seq<char>>,
    k: int,
    pos: int,
    found: Seq<Seq<char>>,
)
    requires
        same_up_to(a, b, k),
        0 <= pos <= k,
        add_block(a, pos, found) matches Parsed::Good(_, end) && end <= k,
    ensures
        add_block(a, pos, found) == add_block(b, pos, found),
    decreases k - pos,
{
    lemma_same_blank(a, b, k, pos);
    let p = past_blank(a, pos);
    if p < k {
        assert(a[p] == b[p]);
        if text::has_prefix(a[p], seq!['+']) {
            lemma_same_add(a, b, k, p + 1, found.push(a[p].skip(1)));
        }
    } else {
        reveal_strlit("*** ");
        lemma_same_start(a, b, k, 1);
        lemma_same_start(a, b, k, 4);
        if text::has_prefix(a[k], seq!['+']) {
            lemma_add_block(a, k + 1, found.push(a[k].skip(1)));
        }
    }
}

proof fn lemma_same_update(
    a: Seq<Seq<char>>,
    b: Seq<Seq<char>>,
    k: int,
    pos: int,
    found: Update,
)
    requires
        same_up_to(a, b, k),
        0 <= pos <= k,
        update_block(a, pos, found) matches Parsed::Good(_, end) && end <= k,
    ensures
        update_block(a, pos, found) == update_block(b, pos, found),
    decreases k - pos,
{
    lemma_same_blank(a, b, k, pos);
    let p = past_blank(a, pos);
    if p < k {
        assert(a[p] == b[p]);
        lemma_hunk_at(a, p);
        match header_value(a[p], "*** Move to: "@) {
            Some(target) => {
                if found.new_path is None {
                    lemma_same_update(
                        a,
                        b,
                        k,
                        p + 1,
                        Update { new_path: Some(target), ..found },
                    );
                }
            },
            None => {
                if text::has_prefix(text::trimmed(a[p]), "@@"@) {
                    match hunk_at(a, p) {
                        Parsed::Good(h, end) => {
                            let more = Update { hunks: found.hunks.push(h), ..found };
                            lemma_update_block(a, end, more);
                            lemma_same_hunk(a, b, k, p);
                            lemma_same_update(a, b, k, end, more);
                        },
                        Parsed::Bad(_) => {},
                    }
                }
            },
        }
    } else {
        lemma_end_line();
    }
}

/// The line that ends a patch is no header of anything in it.
proof fn lemma_end_line()
    ensures
        text::has_prefix("*** End Patch"@, "*** "@),
        !text::has_prefix("*** End Patch"@, "*** Move to: "@),
        !text::has_prefix("*** End Patch"@, "@@"@),
{
    reveal_strlit("*** End Patch");
    reveal_strlit("*** ");
    reveal_strlit("*** Move to: ");
    reveal_strlit("@@");
    let end = "*** End Patch"@;
    assert(end.take(4) =~= "*** "@);
    if text::has_prefix(end, "*** Move to: "@) {
        assert(end.take(13)[4] == "*** Move to: "@[4]);
    }
    if text::has_prefix(end, "@@"@) {
        assert(end.take(2)[0] == "@@"@[0]);
    }
}

/// The operations end right behind a line that ends the patch.
proof fn lemma_ops_end(lines: Seq<Seq<char>>, pos: int, found: Seq<OpView>)
    requires
        0 <= pos <= lines.len(),
    ensures
        ops_from(lines, pos, found) matches Parsed::Good(_, end) ==> pos < end <= lines.len()
            && text::trimmed(lines[end - 1]) == "*** End Patch"@,
    decreases lines.len() - pos,
{
    lemma_past_blank(lines, pos);
    let p = past_blank(lines, pos);
    if p < lines.len() && text::trimmed(lines[p]) != "*** End Patch"@ {
        let none = Update { hunks: Seq::empty(), new_path: None };
        lemma_add_block(lines, p + 1, Seq::empty());
        lemma_update_block(lines, p + 1, none);
        match header_value(lines[p], "*** Add File: "@) {
            Some(path) => match add_block(lines, p + 1, Seq::empty()) {
                Parsed::Good(content, end) => {
                    lemma_ops_end(lines, end, found.push(OpView::Add { path, content }));
                },
                Parsed::Bad(_) => {},
            },
            None => match header_value(lines[p], "*** Update File: "@) {
                Some(path) => match update_block(lines, p + 1, none) {
                    Parsed::Good(u, end) => {
                        let op = OpView::Update { path, new_path: u.new_path, hunks: u.hunks };
                        lemma_ops_end(lines, end, found.push(op));
                    },
                    Parsed::Bad(_) => {},
                },
                None => match header_value(lines[p], "*** Delete File: "@) {
                    Some(path) => {
                        lemma_ops_end(lines, p + 1, found.push(OpView::Delete { path }));
                    },
                    None => {},
                },
            },
        }
    }
}

proof fn lemma_same_ops(
    a: Seq<Seq<char>>,
    b: Seq<Seq<char>>,
    k: int,
    pos: int,
    found: Seq<OpView>,
)
    requires
        same_up_to(a, b, k),
        0 <= pos <= k,
        ops_from(a, pos, found) matches Parsed::Good(_, end) && end == k + 1,
    ensures
        ops_from(a, pos, found) == ops_from(b, pos, found),
    decreases k - pos,
{
    lemma_same_blank(a, b, k, pos);
    let p = past_blank(a, pos);
    if p < k {
        assert(a[p] == b[p]);
        let none = Update { hunks: Seq::empty(), new_path: None };
        lemma_add_block(a, p + 1, Seq::empty());
        lemma_update_block(a, p + 1, none);
        match header_value(a[p], "*** Add File: "@) {
            Some(path) => match add_block(a, p + 1, Seq::empty()) {
                Parsed::Good(content, end) => {
                    let more = found.push(OpView::Add { path, content });
                    lemma_ops_end(a, end, more);
                    lemma_same_add(a, b, k, p + 1, Seq::empty());
                    lemma_same_ops(a, b, k, end, more);
                },
                Parsed::Bad(_) => {},
            },
            None => match header_value(a[p], "*** Update File: "@) {
                Some(path) => match update_block(a, p + 1, none) {
                    Parsed::Good(u, end) => {
                        let op = OpView::Update { path, new_path: u.new_path, hunks: u.hunks };
                        lemma_ops_end(a, end, found.push(op));
                        lemma_same_update(a, b, k, p + 1, none);
                        lemma_same_ops(a, b, k, end, found.push(op));
                    },
                    Parsed::Bad(_) => {},
                },
                None => match header_value(a[p], "*** Delete File: "@) {
                    Some(path) => {
                        lemma_same_ops(a, b, k, p + 1, found.push(OpView::Delete { path }));
                    },
                    None => {},
                },
            },
        }
    }
}

proof fn lemma_split_both(s: Seq<char>, t: Seq<char>, c: char)
    ensures
        text::split_on(s + seq![c] + t, c) == text::split_on(s, c) + text::split_on(t, c),
    decreases t.len(),
{
    let whole = s + seq![c] + t;
    text::lemma_split_nonempty(t, c);
    if t.len() == 0 {
        assert(whole.drop_last() =~= s);
        assert(text::split_on(whole, c) =~= text::split_on(s, c) + text::split_on(t, c));
    } else {
        lemma_split_both(s, t.drop_last(), c);
        text::lemma_split_nonempty(t.drop_last(), c);
        assert(whole.drop_last() =~= s + seq![c] + t.drop_last());
        let p = text::split_on(s, c);
        let q = text::split_on(t.drop_last(), c);
        assert(text::split_on(whole.drop_last(), c) == p + q);
        assert((p + q).last() == q.last());
        assert(text::split_on(whole, c) =~= p + text::split_on(t, c));
    }
}

proof fn lemma_trimmed_without_cr(s: Seq<char>)
    requires
        text::trimmed(s).len() > 0,
    ensures
        text::trimmed(text::without_cr(s)) == text::trimmed(s),
{
    if s.len() > 0 && s.last() == '\r' {
        lemma_trimmed_end_len(text::trimmed_start(s));
        lemma_trimmed_start_without_last(s);
        lemma_trimmed_start_last(s);
    }
}

proof fn lemma_trimmed_start_last(s: Seq<char>)
    requires
        text::trimmed_start(s).len() > 0,
    ensures
        s.len() > 0,
        text::trimmed_start(s).last() == s.last(),
    decreases s.len(),
{
    if s.len() > 0 && text::white(s[0]) {
        lemma_trimmed_start_last(s.skip(1));
    }
}

proof fn lemma_trimmed_start_without_last(s: Seq<char>)
    requires
        s.len() > 0,
        text::white(s.last()),
        text::trimmed_start(s).len() > 0,
    ensures
        text::trimmed_start(s.drop_last()) == text::trimmed_start(s).drop_last(),
    decreases s.len(),
{
    if text::white(s[0]) {
        let rest = s.skip(1);
        lemma_trimmed_start_last(rest);
        lemma_trimmed_start_without_last(rest);
        assert(s.drop_last().skip(1) =~= rest.drop_last());
    } else {
        assert(s.len() > 1);
    }
}

/// Nothing behind the line that ends a patch is read: with any text on the lines behind it, the
/// patch says the same.
pub proof fn law_nothing_behind_the_end_is_read(s: Seq<char>, t: Seq<char>, ops: Seq<OpView>)
    requires
        patch_of(s) == Ok::<Seq<OpView>, Seq<char>>(ops),
    ensures
        patch_of(s + seq!['\n'] + t) == Ok::<Seq<OpView>, Seq<char>>(ops),
{
    let a = text::lines_of(s);
    let b = text::lines_of(s + seq!['\n'] + t);
    let p = past_blank(a, 0);
    lemma_past_blank(a, 0);
    lemma_ops_end(a, p + 1, Seq::empty());
    let k = (ops_from(a, p + 1, Seq::empty())->Good_1) - 1;
    assert(text::trimmed(a[k]) == "*** End Patch"@);
    reveal_strlit("*** End Patch");
    lemma_split_both(s, t, '\n');
    text::lemma_split_nonempty(s, '\n');
    text::lemma_split_nonempty(t, '\n');
    let pieces = text::split_on(s, '\n');
    let all = text::split_on(s + seq!['\n'] + t, '\n');
    assert(all == pieces + text::split_on(t, '\n'));
    assert forall|i: int| 0 <= i < a.len() implies i < b.len() && (b[i] == #[trigger] a[i] || (i
        == pieces.len() - 1 && b[i] == text::without_cr(a[i]))) by {
        assert(all[i] == pieces[i]);
        assert(b[i] == text::without_cr(all[i]));
    }
    lemma_trimmed_without_cr(a[k]);
    assert(same_up_to(a, b, k)) by {
        assert forall|i: int| 0 <= i < k implies #[trigger] a[i] == b[i] by {
            assert(i < pieces.len() - 1);
        }
    }
    lemma_same_blank(a, b, k, 0);
    assert(a[p] == b[p]);
    lemma_same_ops(a, b, k, p + 1, Seq::empty());
}

/// Where the old lines of a hunk begin in the file before an update, counted from zero: at its
/// anchor, or so that they are the last lines.
pub open spec fn old_place(file: Seq<Seq<char>>, h: HunkView) -> int {
    if h.is_end_of_file {
        file.len() - h.before.len()
    } else {
        h.line_anchor - 1
    }
}

/// How much of the file before an update lies behind the first `n` hunks' old lines.
pub open spec fn old_end(file: Seq<Seq<char>>, hunks: Seq<HunkView>, n: int) -> int {
    if n <= 0 {
        0
    } else {
        old_place(file, hunks[n - 1]) + hunks[n - 1].before.len()
    }
}

/// The lines of the file before an update up to the end of the `n`th hunk, with the new lines of
/// the first `n` hunks in place of their old ones.
pub open spec fn rewritten(file: Seq<Seq<char>>, hunks: Seq<HunkView>, n: int) -> Seq<Seq<char>>
    decreases n,
{
    if n <= 0 {
        Seq::empty()
    } else {
        rewritten(file, hunks, n - 1) + file.subrange(
            old_end(file, hunks, n - 1),
            old_place(file, hunks[n - 1]),
        ) + hunks[n - 1].after
    }
}

/// The file before an update with the new lines of the first `n` hunks in place of their old
/// ones.
pub open spec fn with_new_lines(file: Seq<Seq<char>>, hunks: Seq<HunkView>, n: int) -> Seq<
    Seq<char>,
> {
    rewritten(file, hunks, n) + file.skip(old_end(file, hunks, n))
}

/// Whether the old lines of each hunk stand at its anchor in the file before the update, one hunk
/// behind the other.
pub open spec fn hunks_stand(file: Seq<Seq<char>>, hunks: Seq<HunkView>) -> bool {
    forall|i: int|
        0 <= i < hunks.len() ==> {
            &&& old_end(file, hunks, i) <= old_place(file, #[trigger] hunks[i])
            &&& patch_apply::stands_at(file, hunks[i].before, old_place(file, hunks[i]))
        }
}

/// Whether the old lines of hunk `i` can be told apart near its anchor once the hunks before it
/// have been applied: they do not reach beyond three lines behind the anchor, and stand at no
/// other place within three lines of it.
pub open spec fn told_apart(file: Seq<Seq<char>>, hunks: Seq<HunkView>, i: int) -> bool {
    let h = hunks[i];
    let now = with_new_lines(file, hunks, i);
    let at = now.len() - (file.len() - old_place(file, h));
    h.is_end_of_file || h.before.len() == 0 || {
        &&& h.before.len() <= 4
        &&& forall|p: int|
            at - 3 <= p && p + h.before.len() <= at + 4 && #[trigger] patch_apply::stands_at(
                now,
                h.before,
                p,
            ) ==> p == at
    }
}

proof fn lemma_rewritten_len(file: Seq<Seq<char>>, hunks: Seq<HunkView>, n: int)
    requires
        0 <= n <= hunks.len(),
        hunks_stand(file, hunks),
    ensures
        0 <= old_end(file, hunks, n) <= file.len(),
        rewritten(file, hunks, n).len() <= file.len() + patch_run::hunk_lines(hunks, n),
        n < hunks.len() ==> old_end(file, hunks, n) <= old_place(file, hunks[n]),
        rewritten(file, hunks, n).len() <= old_end(file, hunks, n) + patch_run::hunk_lines(
            hunks,
            n,
        ),
    decreases n,
{
    if n > 0 {
        lemma_rewritten_len(file, hunks, n - 1);
        assert(patch_apply::stands_at(
            file,
            hunks[n - 1].before,
            old_place(file, hunks[n - 1]),
        ));
    }
    if n < hunks.len() {
        assert(old_end(file, hunks, n) <= old_place(file, hunks[n]));
    }
}

proof fn lemma_stands_behind(
    file: Seq<Seq<char>>,
    now: Seq<Seq<char>>,
    pattern: Seq<Seq<char>>,
    at: int,
    end: int,
)
    requires
        0 <= end <= at,
        patch_apply::stands_at(file, pattern, at),
        now.len() >= file.len() - end,
        now.skip(now.len() - (file.len() - end)) == file.skip(end),
    ensures
        patch_apply::stands_at(now, pattern, now.len() - (file.len() - at)),
{
    let tail = file.skip(end);
    let to = now.len() - (file.len() - at);
    let from = now.len() - (file.len() - end);
    assert(now.subrange(to, to + pattern.len()) =~= pattern) by {
        assert forall|k: int| 0 <= k < pattern.len() implies now[to + k] == pattern[k] by {
            assert(now.skip(from)[to + k - from] == now[to + k]);
            assert(tail[to + k - from] == file[at + k]);
            assert(file.subrange(at, at + pattern.len())[k] == file[at + k]);
        }
    }
}

/// The place of hunk `n` once the hunks before it were applied.
proof fn lemma_next_place(file: Seq<Seq<char>>, hunks: Seq<HunkView>, n: int, offset: int)
    requires
        0 <= n < hunks.len(),
        hunks_stand(file, hunks),
        told_apart(file, hunks, n),
        file.len() + patch_run::hunk_lines(hunks, n) < usize::MAX,
        offset == with_new_lines(file, hunks, n).len() - file.len(),
    ensures
        patch_run::moved_place(with_new_lines(file, hunks, n), hunks[n], offset) == Ok::<
            int,
            patch_apply::MatchFault,
        >(rewritten(file, hunks, n).len() + old_place(file, hunks[n]) - old_end(file, hunks, n)),
{
    let h = hunks[n];
    let now = with_new_lines(file, hunks, n);
    let end = old_end(file, hunks, n);
    let at = old_place(file, h) + offset;
    lemma_rewritten_len(file, hunks, n);
    assert(patch_apply::stands_at(file, h.before, old_place(file, h)));
    assert(now.skip(now.len() - (file.len() - end)) =~= file.skip(end));
    lemma_stands_behind(file, now, h.before, old_place(file, h), end);
    assert(patch_apply::stands_at(now, h.before, at));
    assert(at == rewritten(file, hunks, n).len() + old_place(file, h) - end);
    if h.is_end_of_file {
        patch_apply::law_end_of_file_is_matched(now, h);
        assert(now.skip(at) =~= now.subrange(at, at + h.before.len()));
    } else if h.before.len() > 0 {
        let moved = HunkView { line_anchor: h.line_anchor + offset, ..h };
        patch_apply::lemma_only_place(now, moved, at);
    }
}

/// Anchors count the lines of the file before an update: where the old lines of every hunk stand
/// at its anchor there, one hunk behind the other, and can be told apart, the update succeeds and
/// gives that file with the new lines of each hunk in place of its old ones, whether the hunks
/// before it made the file longer or shorter.
pub proof fn law_anchors_count_the_old_lines(
    path: Seq<char>,
    file: Seq<Seq<char>>,
    hunks: Seq<HunkView>,
    n: int,
)
    requires
        0 <= n <= hunks.len(),
        hunks_stand(file, hunks),
        forall|i: int| 0 <= i < n ==> #[trigger] told_apart(file, hunks, i),
        file.len() + patch_run::hunk_lines(hunks, n) < usize::MAX,
    ensures
        patch_run::updated(path, file, hunks, n) matches Ok(p) && p.lines == with_new_lines(
            file,
            hunks,
            n,
        ) && p.offset == p.lines.len() - file.len(),
    decreases n,
{
    if n > 0 {
        let h = hunks[n - 1];
        patch_run::lemma_hunk_lines(hunks, n - 1, n);
        law_anchors_count_the_old_lines(path, file, hunks, n - 1);
        let before = patch_run::updated(path, file, hunks, n - 1)->Ok_0;
        assert(told_apart(file, hunks, n - 1));
        lemma_rewritten_len(file, hunks, n - 1);
        lemma_rewritten_len(file, hunks, n);
        lemma_next_place(file, hunks, n - 1, before.offset);
        let now = with_new_lines(file, hunks, n - 1);
        let at = rewritten(file, hunks, n - 1).len() + old_place(file, h) - old_end(
            file,
            hunks,
            n - 1,
        );
        assert(patch_apply::stands_at(file, h.before, old_place(file, h)));
        let after = patch_apply::hunk_applied(
            now,
            at,
            h.before.len() as int,
            h.after,
            h.is_end_of_file,
        );
        assert(after =~= with_new_lines(file, hunks, n));
    } else {
        assert(with_new_lines(file, hunks, 0) =~= file);
    }
}

} // verus!
