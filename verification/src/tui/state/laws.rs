//! What the editor keeps true from one key to the next.
use crate::text;
use crate::tui::state::atoms;
use crate::tui::state::atoms::Atom;
use crate::tui::state::draft;
use crate::tui::state::edit;
use crate::tui::state::paste;
use crate::tui::state::InputPasteMarker;
use crate::tui::state::UiState;
use crate::types::display::UserDraft;
use vstd::prelude::*;

verus! {

/// `e` is where an edit puts the atom `a`.
pub open spec fn comes_from<T: Atom>(e: T, a: T, start: int, old_len: int, new_len: int) -> bool {
    &&& atoms::edited_range(a.lo(), a.hi(), start, old_len, new_len) == Some((e.lo(), e.hi()))
    &&& e == a.placed(e.lo(), e.hi())
}

/// Every atom that outlives an edit is one that was there before.
pub proof fn lemma_edited_origin<T: Atom>(
    all: Seq<T>,
    start: int,
    old_len: int,
    new_len: int,
    i: int,
)
    requires
        0 <= i < atoms::edited_atoms(all, start, old_len, new_len).len(),
    ensures
        exists|k: int|
            0 <= k < all.len() && #[trigger] comes_from(
                atoms::edited_atoms(all, start, old_len, new_len)[i],
                all[k],
                start,
                old_len,
                new_len,
            ),
    decreases all.len(),
{
    let d = all.drop_last();
    let before = atoms::edited_atoms(d, start, old_len, new_len);
    let edited = atoms::edited_atoms(all, start, old_len, new_len);
    if i < before.len() {
        lemma_edited_origin(d, start, old_len, new_len, i);
        let k = choose|k: int|
            0 <= k < d.len() && #[trigger] comes_from(before[i], d[k], start, old_len, new_len);
        assert(edited[i] == before[i]);
        assert(comes_from(edited[i], all[k], start, old_len, new_len));
    } else {
        let last = all.last();
        let r = atoms::edited_range(last.lo(), last.hi(), start, old_len, new_len)->0;
        last.placed_range(r.0, r.1);
        assert(comes_from(edited[i], all[all.len() - 1], start, old_len, new_len));
    }
}

/// An atom that outlives an edit still covers the same text.
pub proof fn lemma_covered_text_kept<T: Atom>(
    e: T,
    a: T,
    s: Seq<char>,
    start: int,
    end: int,
    new: Seq<char>,
)
    requires
        a.lo() < a.hi() <= s.len(),
        0 <= start <= end <= s.len(),
        s.len() - (end - start) + new.len() <= usize::MAX,
        comes_from(e, a, start, end - start, new.len() as int),
    ensures
        e.lo() < e.hi() <= edit::replaced(s, start, end, new).len(),
        edit::replaced(s, start, end, new).subrange(e.lo() as int, e.hi() as int) == s.subrange(
            a.lo() as int,
            a.hi() as int,
        ),
        e.hi() <= start || e.lo() >= start + new.len(),
{
    let t = edit::replaced(s, start, end, new);
    assert(t.subrange(e.lo() as int, e.hi() as int) =~= s.subrange(a.lo() as int, a.hi() as int));
}

/// Every pasted text that outlives an edit still stands under its marker.
pub proof fn lemma_markers_kept(
    markers: Seq<InputPasteMarker>,
    s: Seq<char>,
    start: int,
    end: int,
    new: Seq<char>,
)
    requires
        draft::markers_ok(markers, s),
        0 <= start <= end <= s.len(),
        s.len() - (end - start) + new.len() <= usize::MAX,
    ensures
        draft::markers_ok(
            atoms::edited_atoms(markers, start, end - start, new.len() as int),
            edit::replaced(s, start, end, new),
        ),
        forall|i: int|
            0 <= i < atoms::edited_atoms(markers, start, end - start, new.len() as int).len() ==> {
                let e = #[trigger] atoms::edited_atoms(
                    markers,
                    start,
                    end - start,
                    new.len() as int,
                )[i];
                e.end_char <= start || e.start_char >= start + new.len()
            },
    decreases markers.len(),
{
    let old_len = end - start;
    let n = new.len() as int;
    let edited = atoms::edited_atoms(markers, start, old_len, n);
    let t = edit::replaced(s, start, end, new);
    assert forall|i: int| 0 <= i < edited.len() implies draft::marker_ok(#[trigger] edited[i], t) && (
    edited[i].end_char <= start || edited[i].start_char >= start + n) by {
        lemma_edited_origin(markers, start, old_len, n, i);
        let k = choose|k: int|
            0 <= k < markers.len() && #[trigger] comes_from(
                edited[i],
                markers[k],
                start,
                old_len,
                n,
            );
        assert(draft::marker_ok(markers[k], s));
        lemma_covered_text_kept(edited[i], markers[k], s, start, end, new);
    }
    if markers.len() > 0 {
        let d = markers.drop_last();
        assert(draft::markers_ok(d, s)) by {
            assert forall|i: int| 0 <= i < d.len() implies draft::marker_ok(#[trigger] d[i], s) by {
                assert(d[i] == markers[i]);
            }
            assert forall|i: int, j: int| 0 <= i < j < d.len() implies (#[trigger] d[i]).hi() <= (
            #[trigger] d[j]).lo() || d[j].hi() <= d[i].lo() by {
                assert(d[i] == markers[i] && d[j] == markers[j]);
            }
        }
        lemma_markers_kept(d, s, start, end, new);
        let before = atoms::edited_atoms(d, start, old_len, n);
        assert forall|i: int, j: int| 0 <= i < j < edited.len() implies (#[trigger] edited[i]).hi()
            <= (#[trigger] edited[j]).lo() || edited[j].hi() <= edited[i].lo() by {
            assert(edited[i] == before[i]);
            if j < before.len() {
                assert(edited[j] == before[j]);
            } else {
                lemma_edited_origin(d, start, old_len, n, i);
                let k = choose|k: int|
                    0 <= k < d.len() && #[trigger] comes_from(before[i], d[k], start, old_len, n);
                assert(d[k] == markers[k]);
                let last = markers[markers.len() - 1];
                assert(markers[k].hi() <= last.lo() || last.hi() <= markers[k].lo());
                assert(draft::marker_ok(markers[k], s));
                assert(draft::marker_ok(last, s));
            }
        }
    }
}

/// Typing keeps the cursor and every atom within the input.
pub proof fn law_insert_keeps_input_ok(pre: UiState, new: Seq<char>, post: UiState)
    requires
        pre.input_ok(),
        edit::text_inserted(pre, new, post),
        pre.input@.len() + new.len() <= usize::MAX,
    ensures
        post.input_ok(),
{
    if new.len() > 0 {
        let at = pre.cursor_char as int;
        let n = pre.input@.len() as int;
        atoms::lemma_edited_within(pre.input_mentions@, n, at, 0, new.len() as int);
        atoms::lemma_edited_within(pre.input_images@, n, at, 0, new.len() as int);
        atoms::lemma_edited_within(pre.input_paste_markers@, n, at, 0, new.len() as int);
    }
}

/// Typing leaves every pasted text under its marker.
pub proof fn law_insert_keeps_markers(pre: UiState, new: Seq<char>, post: UiState)
    requires
        pre.input_ok(),
        draft::markers_ok(pre.input_paste_markers@, pre.input@),
        edit::text_inserted(pre, new, post),
        pre.input@.len() + new.len() <= usize::MAX,
    ensures
        draft::markers_ok(post.input_paste_markers@, post.input@),
{
    if new.len() > 0 {
        lemma_markers_kept(
            pre.input_paste_markers@,
            pre.input@,
            pre.cursor_char as int,
            pre.cursor_char as int,
            new,
        );
    }
}

proof fn lemma_removal_ok(pre: UiState, start: int, end: int, post: UiState)
    requires
        pre.input_ok(),
        0 <= start <= end <= pre.input@.len(),
        edit::text_edited(pre, start, end, Seq::empty(), post),
        post.cursor_char == start,
    ensures
        post.input_ok(),
        draft::markers_ok(pre.input_paste_markers@, pre.input@) ==> draft::markers_ok(
            post.input_paste_markers@,
            post.input@,
        ),
{
    let n = pre.input@.len() as int;
    atoms::lemma_edited_within(pre.input_mentions@, n, start, end - start, 0);
    atoms::lemma_edited_within(pre.input_images@, n, start, end - start, 0);
    atoms::lemma_edited_within(pre.input_paste_markers@, n, start, end - start, 0);
    if draft::markers_ok(pre.input_paste_markers@, pre.input@) {
        lemma_markers_kept(pre.input_paste_markers@, pre.input@, start, end, Seq::empty());
    }
}

proof fn lemma_range_within(pre: UiState, r: (usize, usize))
    requires
        pre.input_ok(),
        pre.atom_ranges().contains(r),
    ensures
        r.0 < r.1 <= pre.input@.len(),
{
    let all = pre.atom_ranges();
    let k = choose|k: int| 0 <= k < all.len() && all[k] == r;
    let a = pre.input_mentions@.len() as int;
    let b = pre.input_images@.len() as int;
    if k < a {
        assert(all[k] == edit::ranges(pre.input_mentions@)[k]);
        assert(pre.input_mentions@[k].lo() < pre.input_mentions@[k].hi());
    } else if k < a + b {
        assert(all[k] == edit::ranges(pre.input_images@)[k - a]);
        assert(pre.input_images@[k - a].lo() < pre.input_images@[k - a].hi());
    } else {
        assert(all[k] == edit::ranges(pre.input_paste_markers@)[k - a - b]);
        assert(pre.input_paste_markers@[k - a - b].lo() < pre.input_paste_markers@[k - a
            - b].hi());
    }
}

/// The backspace key keeps the cursor and every atom within the input, and every pasted text
/// that remains under its marker.
pub proof fn law_delete_before_keeps_input_ok(pre: UiState, post: UiState)
    requires
        pre.input_ok(),
        edit::deleted_before(pre, post),
    ensures
        post.input_ok(),
        draft::markers_ok(pre.input_paste_markers@, pre.input@) ==> draft::markers_ok(
            post.input_paste_markers@,
            post.input@,
        ),
{
    if pre.cursor_char > 0 {
        edit::lemma_atom_before(pre.atom_ranges(), pre.cursor_char as int);
        match edit::atom_before(pre.atom_ranges(), pre.cursor_char as int) {
            Some(r) => {
                lemma_range_within(pre, r);
                lemma_removal_ok(pre, r.0 as int, r.1 as int, post);
            },
            None => {
                lemma_removal_ok(pre, pre.cursor_char - 1, pre.cursor_char as int, post);
            },
        }
    }
}

/// The delete key keeps the cursor and every atom within the input, and every pasted text that
/// remains under its marker.
pub proof fn law_delete_after_keeps_input_ok(pre: UiState, post: UiState)
    requires
        pre.input_ok(),
        edit::deleted_after(pre, post),
    ensures
        post.input_ok(),
        draft::markers_ok(pre.input_paste_markers@, pre.input@) ==> draft::markers_ok(
            post.input_paste_markers@,
            post.input@,
        ),
{
    edit::lemma_atom_after(pre.atom_ranges(), pre.cursor_char as int);
    match edit::atom_after(pre.atom_ranges(), pre.cursor_char as int) {
        Some(r) => {
            lemma_range_within(pre, r);
            lemma_removal_ok(pre, r.0 as int, r.1 as int, post);
        },
        None => {
            if pre.cursor_char < pre.input@.len() {
                lemma_removal_ok(pre, pre.cursor_char as int, pre.cursor_char + 1, post);
            }
        },
    }
}

/// Moving left or right keeps the cursor within the input.
pub proof fn law_moves_keep_input_ok(pre: UiState)
    requires
        pre.input_ok(),
    ensures
        0 <= edit::left_of(pre) <= pre.cursor_char,
        pre.cursor_char <= edit::right_of(pre) <= pre.input@.len(),
{
    edit::lemma_atom_before(pre.atom_ranges(), pre.cursor_char as int);
    edit::lemma_atom_after(pre.atom_ranges(), pre.cursor_char as int);
    match edit::atom_after(pre.atom_ranges(), pre.cursor_char as int) {
        Some(r) => {
            lemma_range_within(pre, r);
        },
        None => {},
    }
}

proof fn lemma_no_atom_behind_insert<T: Atom>(all: Seq<T>, at: int, n: int, i: int)
    requires
        atoms::atoms_within(all, n),
        0 <= at <= n < usize::MAX,
        0 <= i < atoms::edited_atoms(all, at, 0, 1).len(),
    ensures
        ({
            let e = atoms::edited_atoms(all, at, 0, 1)[i];
            e.hi() <= at || e.lo() >= at + 1
        }),
{
    lemma_edited_origin(all, at, 0, 1, i);
    let e = atoms::edited_atoms(all, at, 0, 1)[i];
    let k = choose|k: int| 0 <= k < all.len() && #[trigger] comes_from(e, all[k], at, 0, 1);
    assert(all[k].lo() < all[k].hi());
}

/// The backspace key undoes the typing of one character: the text and the cursor are what they
/// were.
pub proof fn law_backspace_undoes_typing(pre: UiState, c: char, mid: UiState, post: UiState)
    requires
        pre.input_ok(),
        pre.input@.len() < usize::MAX,
        edit::text_inserted(pre, seq![c], mid),
        edit::deleted_before(mid, post),
    ensures
        post.input@ == pre.input@,
        post.cursor_char == pre.cursor_char,
{
    let at = pre.cursor_char as int;
    let n = pre.input@.len() as int;
    edit::lemma_atom_before(mid.atom_ranges(), mid.cursor_char as int);
    let all = mid.atom_ranges();
    let a = mid.input_mentions@.len() as int;
    let b = mid.input_images@.len() as int;
    match edit::atom_before(all, mid.cursor_char as int) {
        Some(r) => {
            let k = choose|k: int| 0 <= k < all.len() && all[k] == r;
            if k < a {
                assert(all[k] == edit::ranges(mid.input_mentions@)[k]);
                lemma_no_atom_behind_insert(pre.input_mentions@, at, n, k);
            } else if k < a + b {
                assert(all[k] == edit::ranges(mid.input_images@)[k - a]);
                lemma_no_atom_behind_insert(pre.input_images@, at, n, k - a);
            } else {
                assert(all[k] == edit::ranges(mid.input_paste_markers@)[k - a - b]);
                lemma_no_atom_behind_insert(pre.input_paste_markers@, at, n, k - a - b);
            }
            assert(false);
        },
        None => {
            assert(post.input@ =~= pre.input@);
        },
    }
}

/// Pasting a text into an empty input and taking the draft gives the text back, whether it was
/// shown as a marker or typed out.
pub proof fn law_paste_then_take(
    pre: UiState,
    pasted: Seq<char>,
    mid: UiState,
    r: Option<UserDraft>,
    post: UiState,
)
    requires
        pre.input_ok(),
        pre.input@.len() == 0,
        pasted.len() > 0,
        paste::text_pasted(pre, pasted, false, mid),
        draft::draft_taken(mid, r, post),
    ensures
        r matches Some(d) && d.text@ == pasted,
{
    assert(pre.input_paste_markers@.len() == 0) by {
        if pre.input_paste_markers@.len() > 0 {
            assert(pre.input_paste_markers@[0].lo() < pre.input_paste_markers@[0].hi());
        }
    }
    if paste::needs_marker(pasted) {
        let marker = paste::paste_marker(pasted.len() as int);
        let (a, m) = choose|a: UiState, m: InputPasteMarker|
            {
                &&& #[trigger] edit::text_inserted(pre, marker, a)
                &&& #[trigger] paste::marks_paste(m, pre.cursor_char as int, pasted)
                &&& mid == (UiState { input_paste_markers: mid.input_paste_markers, ..a })
                &&& mid.input_paste_markers@ == atoms::by_start(a.input_paste_markers@.push(m))
            };
        reveal_strlit("[Pasted Content ");
        assert(marker.len() > 0);
        assert(a.input@ =~= marker);
        assert(a.input_paste_markers@.len() == 0);
        let one = a.input_paste_markers@.push(m);
        assert(one.drop_last() =~= Seq::empty());
        assert(atoms::by_start(one.drop_last()) =~= Seq::<InputPasteMarker>::empty());
        assert(atoms::by_start(one) =~= seq![m]);
        let s = mid.input_paste_markers@;
        assert(s.drop_last() =~= Seq::empty());
        assert(atoms::by_start(s.drop_last()) =~= Seq::<InputPasteMarker>::empty());
        assert(atoms::by_start(s) =~= seq![m]);
        let sorted = atoms::by_start(s);
        assert(draft::expanded_head(mid.input@, sorted, 0) =~= Seq::<char>::empty());
        assert(draft::expanded_head(mid.input@, sorted, 1) =~= pasted);
        assert(draft::expanded(mid.input@, sorted) =~= pasted);
    } else {
        let a = choose|a: UiState|
            {
                &&& #[trigger] edit::text_inserted(pre, pasted, a)
                &&& edit::just_moved(a, a.cursor_char as int, mid)
            };
        assert(a.input@ =~= pasted);
        assert(a.input_paste_markers@.len() == 0);
        let none = atoms::by_start(mid.input_paste_markers@);
        assert(none.len() == 0);
        assert(draft::expanded(mid.input@, none) =~= pasted);
    }
}

/// The markers with the one of a pasted text among them.
pub proof fn lemma_marker_pasted(
    pre: UiState,
    pasted: Seq<char>,
    a: UiState,
    m: InputPasteMarker,
)
    requires
        pre.input_ok(),
        draft::markers_ok(pre.input_paste_markers@, pre.input@),
        pre.input@.len() + paste::paste_marker(pasted.len() as int).len() <= usize::MAX,
        edit::text_inserted(pre, paste::paste_marker(pasted.len() as int), a),
        paste::marks_paste(m, pre.cursor_char as int, pasted),
    ensures
        draft::markers_ok(atoms::by_start(a.input_paste_markers@.push(m)), a.input@),
{
    let at = pre.cursor_char as int;
    let marker = paste::paste_marker(pasted.len() as int);
    reveal_strlit("[Pasted Content ");
    assert(marker.len() > 0);
    lemma_markers_kept(pre.input_paste_markers@, pre.input@, at, at, marker);
    let all = a.input_paste_markers@.push(m);
    assert(a.input@.subrange(at, at + marker.len()) =~= marker);
    assert(draft::markers_ok(all, a.input@)) by {
        assert forall|i: int| 0 <= i < all.len() implies draft::marker_ok(
            #[trigger] all[i],
            a.input@,
        ) by {
            if i < all.len() - 1 {
                assert(all[i] == a.input_paste_markers@[i]);
            }
        }
        assert forall|i: int, j: int| 0 <= i < j < all.len() implies (#[trigger] all[i]).hi() <= (
        #[trigger] all[j]).lo() || all[j].hi() <= all[i].lo() by {
            assert(all[i] == a.input_paste_markers@[i]);
            if j < all.len() - 1 {
                assert(all[j] == a.input_paste_markers@[j]);
            }
        }
    }
    draft::lemma_sorted_markers(all, a.input@);
}

/// Pasting keeps every pasted text under its marker, the new one among them.
pub proof fn law_paste_keeps_markers(pre: UiState, pasted: Seq<char>, post: UiState)
    requires
        pre.input_ok(),
        draft::markers_ok(pre.input_paste_markers@, pre.input@),
        pre.input@.len() + pasted.len() + paste::paste_marker(pasted.len() as int).len()
            <= usize::MAX,
        paste::text_pasted(pre, pasted, false, post),
    ensures
        draft::markers_ok(post.input_paste_markers@, post.input@),
{
    let at = pre.cursor_char as int;
    if paste::needs_marker(pasted) {
        let marker = paste::paste_marker(pasted.len() as int);
        let (a, m) = choose|a: UiState, m: InputPasteMarker|
            {
                &&& #[trigger] edit::text_inserted(pre, marker, a)
                &&& #[trigger] paste::marks_paste(m, pre.cursor_char as int, pasted)
                &&& post == (UiState { input_paste_markers: post.input_paste_markers, ..a })
                &&& post.input_paste_markers@ == atoms::by_start(a.input_paste_markers@.push(m))
            };
        lemma_marker_pasted(pre, pasted, a, m);
    } else {
        let a = choose|a: UiState|
            {
                &&& #[trigger] edit::text_inserted(pre, pasted, a)
                &&& edit::just_moved(a, a.cursor_char as int, post)
            };
        law_insert_keeps_markers(pre, pasted, a);
    }
}

/// Scrolling down by as many lines as up returns to where the messages were, unless scrolling
/// up went past the largest offset.
pub proof fn law_scroll_down_undoes_up(pre: UiState, lines: usize, mid: UiState, post: UiState)
    requires
        pre.scroll_offset + lines <= usize::MAX,
        mid == (UiState {
            scroll_offset: (pre.scroll_offset + lines) as usize,
            auto_scroll: false,
            ..pre
        }),
        post == (UiState {
            scroll_offset: text::minus(mid.scroll_offset as int, lines as int) as usize,
            auto_scroll: mid.auto_scroll || mid.scroll_offset <= lines,
            ..mid
        }),
    ensures
        post.scroll_offset == pre.scroll_offset,
        post.auto_scroll == (pre.scroll_offset == 0),
{
}

} // verus!
