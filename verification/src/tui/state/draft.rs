//! Turning the input into a draft to send.
use crate::text;
use crate::tui::state::atoms;
use crate::tui::state::atoms::Atom;
use crate::tui::state::mention;
use crate::tui::state::mention::InputMention;
use crate::tui::state::InputImageAttachment;
use crate::tui::state::InputPasteMarker;
use crate::tui::state::UiState;
use crate::types::display;
use crate::types::display::DisplayImageAttachment;
use crate::types::display::DisplayMention;
use crate::types::display::UserDraft;
use std::collections::VecDeque;
use vstd::prelude::*;

verus! {

/// A pasted text stands in the input under its marker.
pub open spec fn marker_ok(m: InputPasteMarker, input: Seq<char>) -> bool {
    &&& m.start_char < m.end_char <= input.len()
    &&& input.subrange(m.start_char as int, m.end_char as int) == m.marker@
    &&& m.full_char_count == m.full_text@.len()
}

/// No two ranges overlap.
pub open spec fn apart<T: Atom>(all: Seq<T>) -> bool {
    forall|i: int, j: int|
        0 <= i < j < all.len() ==> (#[trigger] all[i]).hi() <= (#[trigger] all[j]).lo()
            || all[j].hi() <= all[i].lo()
}

/// Every pasted text stands under its marker, and the markers do not overlap.
pub open spec fn markers_ok(markers: Seq<InputPasteMarker>, input: Seq<char>) -> bool {
    &&& forall|i: int| 0 <= i < markers.len() ==> marker_ok(#[trigger] markers[i], input)
    &&& apart(markers)
}

/// The pasted characters of the first `n` markers.
pub open spec fn pasted_len(markers: Seq<InputPasteMarker>, n: int) -> int
    decreases n,
{
    if n <= 0 {
        0
    } else {
        pasted_len(markers, n - 1) + markers[n - 1].full_char_count
    }
}

/// The characters that the first `n` markers take up.
pub open spec fn marked_len(markers: Seq<InputPasteMarker>, n: int) -> int
    decreases n,
{
    if n <= 0 {
        0
    } else {
        marked_len(markers, n - 1) + markers[n - 1].marker@.len()
    }
}

/// Where the text behind the first `n` markers goes on.
pub open spec fn resume_at(markers: Seq<InputPasteMarker>, n: int) -> int {
    if n <= 0 {
        0
    } else {
        markers[n - 1].end_char as int
    }
}

/// The text up to the end of the first `n` markers, each with what was pasted in its place.
pub open spec fn expanded_head(
    chars: Seq<char>,
    markers: Seq<InputPasteMarker>,
    n: int,
) -> Seq<char>
    decreases n,
{
    if n <= 0 {
        Seq::empty()
    } else {
        expanded_head(chars, markers, n - 1) + chars.subrange(
            resume_at(markers, n - 1),
            markers[n - 1].start_char as int,
        ) + markers[n - 1].full_text@
    }
}

/// The whole text with every marker replaced by what was pasted.
pub open spec fn expanded(chars: Seq<char>, markers: Seq<InputPasteMarker>) -> Seq<char> {
    expanded_head(chars, markers, markers.len() as int) + chars.skip(
        resume_at(markers, markers.len() as int),
    )
}

/// How many markers, from the `k`th on, end at or before `at`.
pub open spec fn passed(markers: Seq<InputPasteMarker>, k: int, at: int) -> int
    decreases markers.len() - k,
{
    if 0 <= k < markers.len() && markers[k].end_char <= at {
        passed(markers, k + 1, at)
    } else {
        k
    }
}

/// The number of markers in front of the first `n` mentions.
pub open spec fn passed_by(
    markers: Seq<InputPasteMarker>,
    mentions: Seq<InputMention>,
    n: int,
) -> int
    decreases n,
{
    if n <= 0 {
        0
    } else {
        passed(markers, passed_by(markers, mentions, n - 1), mentions[n - 1].start_char as int)
    }
}

/// The mention moved by what the markers in front of it grow.
pub open spec fn mention_expanded(
    markers: Seq<InputPasteMarker>,
    mentions: Seq<InputMention>,
    i: int,
) -> InputMention {
    let k = passed_by(markers, mentions, i + 1);
    let delta = pasted_len(markers, k) - marked_len(markers, k);
    InputMention {
        start_char: atoms::shifted(mentions[i].start_char as int, delta) as usize,
        end_char: atoms::shifted(mentions[i].end_char as int, delta) as usize,
        ..mentions[i]
    }
}

/// The mentions of a draft.
pub open spec fn drafted_mentions(
    mentions: Seq<InputMention>,
    markers: Seq<InputPasteMarker>,
) -> Seq<DisplayMention> {
    if markers.len() == 0 {
        Seq::new(mentions.len(), |i: int| mentions[i].displayed())
    } else {
        let sorted = atoms::by_start(mentions);
        Seq::new(
            sorted.len(),
            |i: int| mention_expanded(atoms::by_start(markers), sorted, i).displayed(),
        )
    }
}

/// Sorting leaves every marker under its text and the markers apart, now one behind the other.
pub proof fn lemma_sorted_markers(markers: Seq<InputPasteMarker>, input: Seq<char>)
    requires
        markers_ok(markers, input),
    ensures
        ({
            let s = atoms::by_start(markers);
            &&& s.len() == markers.len()
            &&& markers_ok(s, input)
            &&& forall|i: int, j: int|
                0 <= i < j < s.len() ==> (#[trigger] s[i]).end_char <= (#[trigger] s[j]).start_char
        }),
{
    let s = atoms::by_start(markers);
    atoms::lemma_by_start(markers);
    lemma_permuted_apart(markers, s, input);
    assert forall|i: int, j: int| 0 <= i < j < s.len() implies (#[trigger] s[i]).end_char <= (
    #[trigger] s[j]).start_char by {
        assert(s[i].lo() <= s[j].lo());
        assert(marker_ok(s[i], input));
        assert(marker_ok(s[j], input));
        assert(s[i].hi() <= s[j].lo() || s[j].hi() <= s[i].lo());
    }
}

proof fn lemma_permuted_apart(
    a: Seq<InputPasteMarker>,
    b: Seq<InputPasteMarker>,
    input: Seq<char>,
)
    requires
        markers_ok(a, input),
        a.to_multiset() == b.to_multiset(),
    ensures
        markers_ok(b, input),
    decreases a.len(),
{
    broadcast use vstd::seq_lib::group_to_multiset_ensures;

    assert(a.len() == a.to_multiset().len());
    assert(b.len() == b.to_multiset().len());
    if b.len() > 0 {
        let x = b.last();
        assert(b.contains(x));
        assert(b.to_multiset().count(x) > 0);
        assert(a.contains(x));
        let k = choose|k: int| 0 <= k < a.len() && a[k] == x;
        let a2 = a.remove(k);
        let b2 = b.drop_last();
        assert(b =~= b2.push(x));
        assert(a.to_multiset() =~= a2.to_multiset().insert(x)) by {
            assert(a.to_multiset().remove(x) =~= a2.to_multiset());
        }
        assert(b2.to_multiset() =~= b.to_multiset().remove(x)) by {
            assert(b.to_multiset() =~= b2.to_multiset().insert(x));
        }
        assert(a2.to_multiset() =~= b2.to_multiset());
        assert forall|i: int| 0 <= i < a2.len() implies marker_ok(#[trigger] a2[i], input) by {
            let o = if i < k {
                i
            } else {
                i + 1
            };
            assert(a2[i] == a[o]);
        }
        assert forall|i: int, j: int| 0 <= i < j < a2.len() implies (#[trigger] a2[i]).hi() <= (
        #[trigger] a2[j]).lo() || a2[j].hi() <= a2[i].lo() by {
            let p = if i < k {
                i
            } else {
                i + 1
            };
            let q = if j < k {
                j
            } else {
                j + 1
            };
            assert(a2[i] == a[p] && a2[j] == a[q] && p < q);
        }
        lemma_permuted_apart(a2, b2, input);
        assert(marker_ok(a[k], input));
        assert forall|i: int| 0 <= i < b.len() implies marker_ok(#[trigger] b[i], input) by {
            if i < b2.len() {
                assert(b[i] == b2[i]);
            }
        }
        assert forall|i: int, j: int| 0 <= i < j < b.len() implies (#[trigger] b[i]).hi() <= (
        #[trigger] b[j]).lo() || b[j].hi() <= b[i].lo() by {
            if j < b2.len() {
                assert(b[i] == b2[i] && b[j] == b2[j]);
            } else {
                assert(b[i] == b2[i]);
                assert(b2.contains(b2[i]));
                assert(b2.to_multiset().count(b2[i]) > 0);
                assert(a2.contains(b2[i]));
                let m = choose|m: int| 0 <= m < a2.len() && a2[m] == b2[i];
                let o = if m < k {
                    m
                } else {
                    m + 1
                };
                assert(a[o] == b[i]);
                assert(a[k] == b[j]);
                if o < k {
                    assert(a[o].hi() <= a[k].lo() || a[k].hi() <= a[o].lo());
                } else {
                    assert(a[k].hi() <= a[o].lo() || a[o].hi() <= a[k].lo());
                }
            }
        }
    }
}

proof fn lemma_passed(markers: Seq<InputPasteMarker>, k: int, at: int)
    requires
        0 <= k <= markers.len(),
    ensures
        k <= passed(markers, k, at) <= markers.len(),
    decreases markers.len() - k,
{
    if k < markers.len() && markers[k].end_char <= at {
        lemma_passed(markers, k + 1, at);
    }
}

proof fn lemma_pasted_monotone(markers: Seq<InputPasteMarker>, k: int, n: int)
    requires
        0 <= k <= n,
    ensures
        0 <= pasted_len(markers, k) <= pasted_len(markers, n),
    decreases n,
{
    if k < n {
        lemma_pasted_monotone(markers, k, n - 1);
    } else if n > 0 {
        lemma_pasted_monotone(markers, k - 1, n - 1);
    }
}

proof fn lemma_marked_len(markers: Seq<InputPasteMarker>, input: Seq<char>, n: int)
    requires
        0 <= n <= markers.len(),
        markers_ok(markers, input),
        forall|i: int, j: int|
            0 <= i < j < markers.len() ==> (#[trigger] markers[i]).end_char <= (
            #[trigger] markers[j]).start_char,
    ensures
        0 <= marked_len(markers, n) <= resume_at(markers, n) <= input.len(),
    decreases n,
{
    if n > 0 {
        lemma_marked_len(markers, input, n - 1);
        assert(marker_ok(markers[n - 1], input));
        if n > 1 {
            assert(markers[n - 2].end_char <= markers[n - 1].start_char);
        }
    }
}

/// Replaces every marker by the pasted text behind it and moves the mentions along.
pub fn expand_paste_markers(
    text: String,
    mentions: Vec<InputMention>,
    markers: Vec<InputPasteMarker>,
) -> (r: (String, Vec<InputMention>))
    requires
        markers_ok(markers@, text@),
        pasted_len(atoms::by_start(markers@), markers@.len() as int) <= usize::MAX,
    ensures
        markers@.len() == 0 ==> r == (text, mentions),
        markers@.len() > 0 ==> {
            let sorted = atoms::by_start(markers@);
            let ms = atoms::by_start(mentions@);
            &&& r.0@ == expanded(text@, sorted)
            &&& r.1@ == Seq::new(ms.len(), |i: int| mention_expanded(sorted, ms, i))
        },
{
    if markers.len() == 0 {
        return (text, mentions);
    }
    let mut markers = markers;
    let mut mentions = mentions;
    proof {
        lemma_sorted_markers(markers@, text@);
    }
    atoms::sort_by_start(&mut markers);
    atoms::sort_by_start(&mut mentions);
    let chars = crate::text::chars_of(text.as_str());
    let ghost sorted = markers@;

    let mut moved: Vec<InputMention> = Vec::new();
    let mut k: usize = 0;
    let mut grown: usize = 0;
    let mut shrunk: usize = 0;
    let mut i: usize = 0;
    while i < mentions.len()
        invariant
            i <= mentions@.len(),
            chars@ == text@,
            markers@ == sorted,
            markers_ok(sorted, text@),
            pasted_len(sorted, sorted.len() as int) <= usize::MAX,
            forall|a: int, b: int|
                0 <= a < b < sorted.len() ==> (#[trigger] sorted[a]).end_char <= (
                #[trigger] sorted[b]).start_char,
            k <= sorted.len(),
            k == passed_by(sorted, mentions@, i as int),
            grown == pasted_len(sorted, k as int),
            shrunk == marked_len(sorted, k as int),
            moved@.len() == i,
            forall|j: int|
                0 <= j < i ==> #[trigger] moved@[j] == mention_expanded(sorted, mentions@, j),
        decreases mentions@.len() - i,
    {
        let at = mentions[i].start_char;
        while k < markers.len() && markers[k].end_char <= at
            invariant
                i < mentions@.len(),
                chars@ == text@,
                markers@ == sorted,
                markers_ok(sorted, text@),
                pasted_len(sorted, sorted.len() as int) <= usize::MAX,
                forall|a: int, b: int|
                    0 <= a < b < sorted.len() ==> (#[trigger] sorted[a]).end_char <= (
                    #[trigger] sorted[b]).start_char,
                k <= sorted.len(),
                passed_by(sorted, mentions@, i + 1) == passed(sorted, k as int, at as int),
                grown == pasted_len(sorted, k as int),
                shrunk == marked_len(sorted, k as int),
            decreases sorted.len() - k,
        {
            let n: usize = crate::text::char_count(markers[k].marker.as_str());
            let _all: usize = chars.len();
            proof {
                lemma_pasted_monotone(sorted, k + 1, sorted.len() as int);
                lemma_marked_len(sorted, text@, k + 1);
            }
            grown = grown + markers[k].full_char_count;
            shrunk = shrunk + n;
            k = k + 1;
        }
        let m = &mentions[i];
        let next = InputMention {
            start_char: atoms::shift_char(m.start_char, shrunk, grown),
            end_char: atoms::shift_char(m.end_char, shrunk, grown),
            kind: m.kind,
            label: m.label.clone(),
            target: m.target.clone(),
            description: m.description.clone(),
        };
        moved.push(next);
        i = i + 1;
    }

    let mut out = String::new();
    let mut cursor: usize = 0;
    let mut j: usize = 0;
    while j < markers.len()
        invariant
            j <= markers@.len(),
            chars@ == text@,
            markers@ == sorted,
            markers_ok(sorted, text@),
            forall|a: int, b: int|
                0 <= a < b < sorted.len() ==> (#[trigger] sorted[a]).end_char <= (
                #[trigger] sorted[b]).start_char,
            cursor == resume_at(sorted, j as int),
            out@ == expanded_head(text@, sorted, j as int),
        decreases markers@.len() - j,
    {
        assert(marker_ok(sorted[j as int], text@));
        proof {
            if j > 0 {
                assert(sorted[j - 1].end_char <= sorted[j as int].start_char);
            }
        }
        let piece = crate::text::string_of(&chars, cursor, markers[j].start_char);
        out.push_str(piece.as_str());
        out.push_str(markers[j].full_text.as_str());
        cursor = markers[j].end_char;
        j = j + 1;
    }
    proof {
        lemma_marked_len(sorted, text@, sorted.len() as int);
    }
    let tail = crate::text::string_of(&chars, cursor, chars.len());
    assert(tail@ =~= text@.skip(cursor as int));
    out.push_str(tail.as_str());
    assert(moved@ =~= Seq::new(
        mentions@.len(),
        |x: int| mention_expanded(sorted, mentions@, x),
    ));
    (out, moved)
}

/// What taking the input as a draft does.
pub open spec fn draft_taken(pre: UiState, r: Option<UserDraft>, post: UiState) -> bool {
    if pre.input@.len() == 0 {
        r is None && post == pre
    } else {
        &&& r matches Some(d) && {
            &&& d.text@ == expanded(pre.input@, atoms::by_start(pre.input_paste_markers@))
            &&& d.mentions@ == drafted_mentions(pre.input_mentions@, pre.input_paste_markers@)
            &&& d.images@ == Seq::new(
                pre.input_images@.len(),
                |i: int| pre.input_images@[i].displayed(),
            )
        }
        &&& input_cleared(pre, post)
    }
}

/// The input is empty and nothing is offered for it.
pub open spec fn input_cleared(pre: UiState, post: UiState) -> bool {
    &&& post == (UiState {
        input: post.input,
        input_mentions: post.input_mentions,
        input_images: post.input_images,
        input_paste_markers: post.input_paste_markers,
        cursor_char: 0,
        input_scroll_line: 0,
        autocomplete: post.autocomplete,
        mention_autocomplete: post.mention_autocomplete,
        ..pre
    })
    &&& post.input@.len() == 0
    &&& post.input_mentions@.len() == 0
    &&& post.input_images@.len() == 0
    &&& post.input_paste_markers@.len() == 0
    &&& post.autocomplete == (crate::tui::state::autocomplete::CommandAutocomplete {
        visible: false,
        ..pre.autocomplete
    })
    &&& mention::mentions_closed(pre.mention_autocomplete, post.mention_autocomplete)
}

/// The displayed form of the mentions.
fn display_mentions(mentions: &Vec<InputMention>) -> (r: Vec<DisplayMention>)
    ensures
        r@ == Seq::new(mentions@.len(), |i: int| mentions@[i].displayed()),
{
    let mut out: Vec<DisplayMention> = Vec::new();
    let mut i: usize = 0;
    while i < mentions.len()
        invariant
            i <= mentions@.len(),
            out@.len() == i,
            forall|k: int| 0 <= k < i ==> #[trigger] out@[k] == mentions@[k].displayed(),
        decreases mentions@.len() - i,
    {
        out.push(mentions[i].display_mention());
        i = i + 1;
    }
    out
}

/// The displayed form of the images.
fn display_images(images: &Vec<InputImageAttachment>) -> (r: Vec<DisplayImageAttachment>)
    ensures
        r@ == Seq::new(images@.len(), |i: int| images@[i].displayed()),
{
    let mut out: Vec<DisplayImageAttachment> = Vec::new();
    let mut i: usize = 0;
    while i < images.len()
        invariant
            i <= images@.len(),
            out@.len() == i,
            forall|k: int| 0 <= k < i ==> #[trigger] out@[k] == images@[k].displayed(),
        decreases images@.len() - i,
    {
        out.push(images[i].display_attachment());
        i = i + 1;
    }
    out
}

/// Where the text of draft `n` starts in the texts joined by line feeds.
pub open spec fn draft_offset(drafts: Seq<UserDraft>, n: int) -> int
    decreases n,
{
    if n <= 0 {
        0
    } else {
        draft_offset(drafts, n - 1) + drafts[n - 1].text@.len() + 1
    }
}

pub open spec fn draft_texts(drafts: Seq<UserDraft>) -> Seq<Seq<char>> {
    Seq::new(drafts.len(), |i: int| drafts[i].text@)
}

/// The mentions of the first `n` drafts, each where its text stands in the joined text.
pub open spec fn joined_mentions(drafts: Seq<UserDraft>, n: int) -> Seq<DisplayMention>
    decreases n,
{
    if n <= 0 {
        Seq::empty()
    } else {
        joined_mentions(drafts, n - 1) + Seq::new(
            drafts[n - 1].mentions@.len(),
            |i: int|
                display::mention_moved(
                    drafts[n - 1].mentions@[i],
                    draft_offset(drafts, n - 1),
                ),
        )
    }
}

/// The images of the first `n` drafts, each where its text stands in the joined text.
pub open spec fn joined_images(drafts: Seq<UserDraft>, n: int) -> Seq<DisplayImageAttachment>
    decreases n,
{
    if n <= 0 {
        Seq::empty()
    } else {
        joined_images(drafts, n - 1) + Seq::new(
            drafts[n - 1].images@.len(),
            |i: int|
                display::image_moved(drafts[n - 1].images@[i], draft_offset(drafts, n - 1)),
        )
    }
}

/// `d` is the drafts made into one, line by line.
pub open spec fn combined(drafts: Seq<UserDraft>, d: UserDraft) -> bool {
    &&& d.text@ == text::joined(draft_texts(drafts), seq!['\n'])
    &&& d.mentions@ == joined_mentions(drafts, drafts.len() as int)
    &&& d.images@ == joined_images(drafts, drafts.len() as int)
}

/// The joined text and every position in it fit in `usize`.
pub open spec fn drafts_fit(drafts: Seq<UserDraft>) -> bool {
    &&& draft_offset(drafts, drafts.len() as int) <= usize::MAX
    &&& forall|i: int, k: int|
        0 <= i < drafts.len() && 0 <= k < drafts[i].mentions@.len() ==> (
        #[trigger] drafts[i].mentions@[k]).start_char + draft_offset(drafts, i) <= usize::MAX
            && drafts[i].mentions@[k].end_char + draft_offset(drafts, i) <= usize::MAX
    &&& forall|i: int, k: int|
        0 <= i < drafts.len() && 0 <= k < drafts[i].images@.len() ==> (
        #[trigger] drafts[i].images@[k]).start_char + draft_offset(drafts, i) <= usize::MAX
            && drafts[i].images@[k].end_char + draft_offset(drafts, i) <= usize::MAX
}

proof fn lemma_offset_monotone(drafts: Seq<UserDraft>, k: int, n: int)
    requires
        0 <= k <= n,
    ensures
        0 <= draft_offset(drafts, k) <= draft_offset(drafts, n),
    decreases n,
{
    if k < n {
        lemma_offset_monotone(drafts, k, n - 1);
    } else if n > 0 {
        lemma_offset_monotone(drafts, k - 1, n - 1);
    }
}

/// Joins drafts into one, with a line feed between their texts.
pub fn combined_user_draft(drafts: &VecDeque<UserDraft>) -> (r: UserDraft)
    requires
        drafts_fit(drafts@),
    ensures
        combined(drafts@, r),
{
    let mut text = String::new();
    let mut mentions: Vec<DisplayMention> = Vec::new();
    let mut images: Vec<DisplayImageAttachment> = Vec::new();
    let mut offset: usize = 0;
    let mut idx: usize = 0;
    let ghost all = drafts@;
    let ghost texts = draft_texts(all);
    while idx < drafts.len()
        invariant
            idx <= drafts@.len(),
            all == drafts@,
            texts == draft_texts(all),
            drafts_fit(all),
            idx == 0 ==> offset == 0,
            idx > 0 ==> offset + 1 == draft_offset(all, idx as int),
            text@ == text::joined(texts.take(idx as int), seq!['\n']),
            mentions@ == joined_mentions(all, idx as int),
            images@ == joined_images(all, idx as int),
        decreases drafts@.len() - idx,
    {
        let draft = &drafts[idx];
        assert(texts.take(idx + 1).drop_last() =~= texts.take(idx as int));
        assert(texts.take(idx + 1).last() == draft.text@);
        proof {
            lemma_offset_monotone(all, idx as int, all.len() as int);
            lemma_offset_monotone(all, idx + 1, all.len() as int);
        }
        let ghost text0 = text@;
        if idx > 0 {
            text.push('\n');
            offset = offset + 1;
        }
        let ghost before_m = mentions@;
        let mut i: usize = 0;
        while i < draft.mentions.len()
            invariant
                i <= draft.mentions@.len(),
                idx < all.len(),
                *draft == all[idx as int],
                drafts_fit(all),
                offset == draft_offset(all, idx as int),
                mentions@ =~= before_m + Seq::new(
                    i as nat,
                    |k: int| display::mention_moved(draft.mentions@[k], offset as int),
                ),
            decreases draft.mentions@.len() - i,
        {
            assert(all[idx as int].mentions@[i as int].start_char + draft_offset(all, idx as int)
                <= usize::MAX);
            mentions.push(draft.mentions[i].moved(offset));
            i = i + 1;
        }
        let ghost before_i = images@;
        let mut j: usize = 0;
        while j < draft.images.len()
            invariant
                j <= draft.images@.len(),
                idx < all.len(),
                *draft == all[idx as int],
                drafts_fit(all),
                offset == draft_offset(all, idx as int),
                images@ =~= before_i + Seq::new(
                    j as nat,
                    |k: int| display::image_moved(draft.images@[k], offset as int),
                ),
            decreases draft.images@.len() - j,
        {
            assert(all[idx as int].images@[j as int].start_char + draft_offset(all, idx as int)
                <= usize::MAX);
            images.push(draft.images[j].moved(offset));
            j = j + 1;
        }
        assert(joined_mentions(all, idx + 1) =~= mentions@);
        assert(joined_images(all, idx + 1) =~= images@);
        let n: usize = text::char_count(draft.text.as_str());
        offset = offset + n;
        text.push_str(draft.text.as_str());
        proof {
            if idx == 0 {
                assert(text@ =~= texts.take(1)[0]);
            } else {
                assert(text0.push('\n') =~= text0 + seq!['\n']);
            }
        }
        idx = idx + 1;
    }
    assert(texts.take(texts.len() as int) =~= texts);
    UserDraft { text, mentions, images }
}

impl UiState {
    /// Takes the input as a draft and leaves it empty.
    pub fn take_input_draft(&mut self) -> (r: Option<UserDraft>)
        requires
            markers_ok(old(self).input_paste_markers@, old(self).input@),
            pasted_len(
                atoms::by_start(old(self).input_paste_markers@),
                old(self).input_paste_markers@.len() as int,
            ) <= usize::MAX,
        ensures
            draft_taken(*old(self), r, *final(self)),
    {
        if crate::text::char_count(self.input.as_str()) == 0 {
            return None;
        }
        let mut input = String::new();
        let mut mentions: Vec<InputMention> = Vec::new();
        let mut images: Vec<InputImageAttachment> = Vec::new();
        let mut markers: Vec<InputPasteMarker> = Vec::new();
        std::mem::swap(&mut input, &mut self.input);
        std::mem::swap(&mut mentions, &mut self.input_mentions);
        std::mem::swap(&mut images, &mut self.input_images);
        std::mem::swap(&mut markers, &mut self.input_paste_markers);
        self.cursor_char = 0;
        self.input_scroll_line = 0;
        self.autocomplete.visible = false;
        self.mention_autocomplete.close();

        let (text, mentions) = expand_paste_markers(input, mentions, markers);
        let shown = display_mentions(&mentions);
        proof {
            let pre = *old(self);
            if pre.input_paste_markers@.len() == 0 {
                let none = atoms::by_start(pre.input_paste_markers@);
                assert(none.len() == 0);
                assert(expanded(pre.input@, none) =~= pre.input@);
            }
            assert(shown@ =~= drafted_mentions(pre.input_mentions@, pre.input_paste_markers@));
        }
        Some(UserDraft { text, mentions: shown, images: display_images(&images) })
    }

    /// Empties the input; says whether there was anything in it.
    pub fn clear_input(&mut self) -> (r: bool)
        ensures
            r == (old(self).input@.len() > 0),
            !r ==> *final(self) == *old(self),
            r ==> input_cleared(*old(self), *final(self)),
    {
        if text::char_count(self.input.as_str()) == 0 {
            return false;
        }
        self.input = String::new();
        self.input_mentions = Vec::new();
        self.input_images = Vec::new();
        self.input_paste_markers = Vec::new();
        self.cursor_char = 0;
        self.input_scroll_line = 0;
        self.autocomplete.visible = false;
        self.mention_autocomplete.close();
        true
    }

    /// Takes all waiting inputs as one draft.
    pub fn take_queued_user_draft(&mut self) -> (r: Option<UserDraft>)
        requires
            drafts_fit(old(self).queued_user_inputs@),
        ensures
            queue_taken(*old(self), r, *final(self)),
    {
        if self.queued_user_inputs.len() == 0 {
            return None;
        }
        let mut drafts: VecDeque<UserDraft> = VecDeque::new();
        std::mem::swap(&mut drafts, &mut self.queued_user_inputs);
        Some(combined_user_draft(&drafts))
    }

    /// Takes all waiting inputs as one draft for the turn under way, unless some are already
    /// on their way; they stay remembered until the turn ends.
    pub fn take_queued_user_draft_for_intervention(&mut self) -> (r: Option<UserDraft>)
        requires
            drafts_fit(old(self).queued_user_inputs@),
        ensures
            intervention_taken(*old(self), r, *final(self)),
    {
        if self.pending_intervention_inputs.len() > 0 || self.queued_user_inputs.len() == 0 {
            return None;
        }
        let mut drafts: VecDeque<UserDraft> = VecDeque::new();
        std::mem::swap(&mut drafts, &mut self.queued_user_inputs);
        let draft = combined_user_draft(&drafts);
        self.pending_intervention_inputs = drafts;
        Some(draft)
    }
}

/// What taking the waiting inputs does.
pub open spec fn queue_taken(pre: UiState, r: Option<UserDraft>, post: UiState) -> bool {
    if pre.queued_user_inputs@.len() == 0 {
        r is None && post == pre
    } else {
        &&& r matches Some(d) && combined(pre.queued_user_inputs@, d)
        &&& post == (UiState { queued_user_inputs: post.queued_user_inputs, ..pre })
        &&& post.queued_user_inputs@.len() == 0
    }
}

/// What taking the waiting inputs for the turn under way does.
pub open spec fn intervention_taken(pre: UiState, r: Option<UserDraft>, post: UiState) -> bool {
    if pre.pending_intervention_inputs@.len() > 0 || pre.queued_user_inputs@.len() == 0 {
        r is None && post == pre
    } else {
        &&& r matches Some(d) && combined(pre.queued_user_inputs@, d)
        &&& post == (UiState {
            queued_user_inputs: post.queued_user_inputs,
            pending_intervention_inputs: pre.queued_user_inputs,
            ..pre
        })
        &&& post.queued_user_inputs@.len() == 0
    }
}

} // verus!
