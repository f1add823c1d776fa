//! Tests of what the user interface needs before it takes a key, a paste or an event, or draws.
use crate::text;
use crate::tui::input;
use crate::tui::input::KeyCode;
use crate::tui::keys;
use crate::tui::render;
use crate::tui::state::atoms;
use crate::tui::state::atoms::Atom;
use crate::tui::state::draft;
use crate::tui::state::interaction::InteractionStep;
use crate::tui::state::paste;
use crate::tui::state::InputPasteMarker;
use crate::tui::state::Rect;
use crate::tui::state::UiState;
use crate::types::display::UserDraft;
use crate::types::events::PermissionPreview;
use crate::types::events::ToolPauseKind;
use std::collections::VecDeque;
use vstd::prelude::*;

verus! {

proof fn lemma_pasted_prefix(a: Seq<InputPasteMarker>, b: Seq<InputPasteMarker>, n: int)
    requires
        0 <= n <= a.len(),
        n <= b.len(),
        forall|i: int| 0 <= i < n ==> a[i] == b[i],
    ensures
        draft::pasted_len(a, n) == draft::pasted_len(b, n),
    decreases n,
{
    if n > 0 {
        lemma_pasted_prefix(a, b, n - 1);
    }
}

proof fn lemma_pasted_inserted(a: Seq<InputPasteMarker>, x: InputPasteMarker)
    ensures
        atoms::insert_by_start(a, x).len() == a.len() + 1,
        draft::pasted_len(atoms::insert_by_start(a, x), a.len() as int + 1) == draft::pasted_len(
            a,
            a.len() as int,
        ) + x.full_char_count,
    decreases a.len(),
{
    let r = atoms::insert_by_start(a, x);
    if a.len() == 0 || a.last().lo() <= x.lo() {
        lemma_pasted_prefix(r, a, a.len() as int);
    } else {
        let d = a.drop_last();
        lemma_pasted_inserted(d, x);
        lemma_pasted_prefix(r, atoms::insert_by_start(d, x), a.len() as int);
        lemma_pasted_prefix(a, d, d.len() as int);
    }
}

/// What is pasted does not depend on the order of the markers.
proof fn lemma_pasted_sorted(markers: Seq<InputPasteMarker>)
    ensures
        atoms::by_start(markers).len() == markers.len(),
        draft::pasted_len(atoms::by_start(markers), markers.len() as int) == draft::pasted_len(
            markers,
            markers.len() as int,
        ),
    decreases markers.len(),
{
    if markers.len() > 0 {
        let d = markers.drop_last();
        lemma_pasted_sorted(d);
        lemma_pasted_inserted(atoms::by_start(d), markers.last());
        lemma_pasted_prefix(markers, d, d.len() as int);
    }
}

proof fn lemma_pasted_grows(markers: Seq<InputPasteMarker>, k: int, n: int)
    requires
        0 <= k <= n,
    ensures
        draft::pasted_len(markers, k) <= draft::pasted_len(markers, n),
    decreases n - k,
{
    if k < n {
        lemma_pasted_grows(markers, k, n - 1);
    }
}

/// Whether a position can hold what is pasted.
fn pasted_fits(markers: &Vec<InputPasteMarker>) -> (r: bool)
    ensures
        r == (draft::pasted_len(atoms::by_start(markers@), markers@.len() as int) <= usize::MAX),
{
    let mut total: usize = 0;
    let mut i: usize = 0;
    proof {
        lemma_pasted_sorted(markers@);
    }
    while i < markers.len()
        invariant
            i <= markers@.len(),
            total == draft::pasted_len(markers@, i as int),
            draft::pasted_len(atoms::by_start(markers@), markers@.len() as int)
                == draft::pasted_len(markers@, markers@.len() as int),
        decreases markers@.len() - i,
    {
        let more: usize = markers[i].full_char_count;
        proof {
            lemma_pasted_grows(markers@, i + 1, markers@.len() as int);
        }
        if more > usize::MAX - total {
            return false;
        }
        total = total + more;
        i = i + 1;
    }
    true
}

fn marker_stands(m: &InputPasteMarker, chars: &Vec<char>) -> (r: bool)
    ensures
        r == draft::marker_ok(*m, chars@),
{
    if m.start_char >= m.end_char || m.end_char > chars.len() {
        return false;
    }
    if m.full_char_count != text::char_count(m.full_text.as_str()) {
        return false;
    }
    let marker = text::chars_of(m.marker.as_str());
    let ghost part = chars@.subrange(m.start_char as int, m.end_char as int);
    if marker.len() != m.end_char - m.start_char {
        assert(part.len() != marker@.len());
        return false;
    }
    let mut i: usize = 0;
    while i < marker.len()
        invariant
            m.start_char < m.end_char <= chars@.len(),
            marker@ == m.marker@,
            marker@.len() == m.end_char - m.start_char,
            part == chars@.subrange(m.start_char as int, m.end_char as int),
            i <= marker@.len(),
            forall|k: int| 0 <= k < i ==> part[k] == marker@[k],
        decreases marker@.len() - i,
    {
        if chars[m.start_char + i] != marker[i] {
            assert(part[i as int] != marker@[i as int]);
            return false;
        }
        assert(part[i as int] == marker@[i as int]);
        i = i + 1;
    }
    assert(part =~= marker@);
    true
}

/// Whether the markers stand apart and each over its text.
fn markers_stand(markers: &Vec<InputPasteMarker>, input: &str) -> (r: bool)
    ensures
        r == draft::markers_ok(markers@, input@),
{
    let chars = text::chars_of(input);
    let mut i: usize = 0;
    while i < markers.len()
        invariant
            chars@ == input@,
            i <= markers@.len(),
            forall|k: int| 0 <= k < i ==> draft::marker_ok(#[trigger] markers@[k], input@),
            forall|a: int, b: int|
                0 <= a < b < i ==> (#[trigger] markers@[a]).hi() <= (#[trigger] markers@[b]).lo()
                    || markers@[b].hi() <= markers@[a].lo(),
        decreases markers@.len() - i,
    {
        if !marker_stands(&markers[i], &chars) {
            return false;
        }
        let mut j: usize = 0;
        while j < i
            invariant
                j <= i < markers@.len(),
                forall|a: int|
                    0 <= a < j ==> (#[trigger] markers@[a]).hi() <= markers@[i as int].lo()
                        || markers@[i as int].hi() <= markers@[a].lo(),
            decreases i - j,
        {
            if markers[j].end_char > markers[i].start_char && markers[i].end_char
                > markers[j].start_char {
                assert(markers@[j as int].hi() > markers@[i as int].lo());
                return false;
            }
            j = j + 1;
        }
        i = i + 1;
    }
    true
}

proof fn lemma_offset_grows(drafts: Seq<UserDraft>, k: int, n: int)
    requires
        0 <= k <= n,
    ensures
        draft::draft_offset(drafts, k) <= draft::draft_offset(drafts, n),
    decreases n - k,
{
    if k < n {
        lemma_offset_grows(drafts, k, n - 1);
    }
}

/// Whether the ranges of a draft can be moved by `offset`.
fn ranges_fit(d: &UserDraft, offset: usize) -> (r: bool)
    ensures
        r == ((forall|k: int|
            0 <= k < d.mentions@.len() ==> (#[trigger] d.mentions@[k]).start_char + offset
                <= usize::MAX && d.mentions@[k].end_char + offset <= usize::MAX) && (forall|k: int|
            0 <= k < d.images@.len() ==> (#[trigger] d.images@[k]).start_char + offset
                <= usize::MAX && d.images@[k].end_char + offset <= usize::MAX)),
{
    let most: usize = usize::MAX - offset;
    let mut i: usize = 0;
    while i < d.mentions.len()
        invariant
            most == usize::MAX - offset,
            i <= d.mentions@.len(),
            forall|k: int|
                0 <= k < i ==> (#[trigger] d.mentions@[k]).start_char + offset <= usize::MAX
                    && d.mentions@[k].end_char + offset <= usize::MAX,
        decreases d.mentions@.len() - i,
    {
        if d.mentions[i].start_char > most || d.mentions[i].end_char > most {
            return false;
        }
        i = i + 1;
    }
    let mut j: usize = 0;
    while j < d.images.len()
        invariant
            most == usize::MAX - offset,
            j <= d.images@.len(),
            forall|k: int|
                0 <= k < j ==> (#[trigger] d.images@[k]).start_char + offset <= usize::MAX
                    && d.images@[k].end_char + offset <= usize::MAX,
        decreases d.images@.len() - j,
    {
        if d.images[j].start_char > most || d.images[j].end_char > most {
            return false;
        }
        j = j + 1;
    }
    true
}

/// Whether drafts can be joined into one.
pub fn joins(drafts: &VecDeque<UserDraft>) -> (r: bool)
    ensures
        r == draft::drafts_fit(drafts@),
{
    let ghost all = drafts@;
    let mut offset: usize = 0;
    let mut i: usize = 0;
    while i < drafts.len()
        invariant
            all == drafts@,
            i <= all.len(),
            offset == draft::draft_offset(all, i as int),
            forall|a: int, k: int|
                0 <= a < i && 0 <= k < all[a].mentions@.len() ==> (
                #[trigger] all[a].mentions@[k]).start_char + draft::draft_offset(all, a)
                    <= usize::MAX && all[a].mentions@[k].end_char + draft::draft_offset(all, a)
                    <= usize::MAX,
            forall|a: int, k: int|
                0 <= a < i && 0 <= k < all[a].images@.len() ==> (
                #[trigger] all[a].images@[k]).start_char + draft::draft_offset(all, a)
                    <= usize::MAX && all[a].images@[k].end_char + draft::draft_offset(all, a)
                    <= usize::MAX,
        decreases all.len() - i,
    {
        let d = &drafts[i];
        if !ranges_fit(d, offset) {
            return false;
        }
        let n: usize = text::char_count(d.text.as_str());
        proof {
            lemma_offset_grows(all, i + 1, all.len() as int);
        }
        if n >= usize::MAX - offset {
            return false;
        }
        offset = offset + n + 1;
        i = i + 1;
    }
    true
}

/// Whether `n` characters can be put into the input.
pub fn has_room(s: &UiState, n: usize) -> (r: bool)
    ensures
        r == paste::room(*s, n as int),
{
    let most: usize = usize::MAX - paste::MARKER_ROOM;
    s.cursor_char <= most && n <= most - s.cursor_char && s.input_images.len() < usize::MAX
}

/// Whether the chosen mention can be put into the input.
fn has_mention_room(s: &UiState) -> (r: bool)
    ensures
        r == paste::mention_room(*s),
{
    let offer = &s.mention_autocomplete;
    let most: usize = usize::MAX - paste::MARKER_ROOM;
    if offer.active_start > offer.active_end || offer.active_start > most || s.input_images.len()
        >= usize::MAX {
        return false;
    }
    match offer.selected_candidate() {
        Some(c) => text::char_count(c.label.as_str()) <= most - offer.active_start
            && text::char_count(c.target.as_str()) <= most - offer.active_start,
        None => true,
    }
}

/// Whether a page is in order: what is selected is on it, where there is anything.
fn step_in_order(step: &InteractionStep) -> (r: bool)
    ensures
        r == input::step_ok(*step),
{
    match step {
        InteractionStep::ModelSelection { entries, selected, thinking_idx, .. } => (entries.len()
            == 0 || *selected < entries.len()) && *thinking_idx <= 3,
        InteractionStep::Session { sessions, selected, .. } => sessions.len() == 0 || *selected
            < sessions.len(),
    }
}

/// Whether the user interface can take a key.
pub fn takes_keys(s: &UiState) -> (r: bool)
    ensures
        r == keys::keys_ready(*s),
{
    let page = match &s.interaction_step {
        Some(step) => step_in_order(step),
        None => true,
    };
    s.cursor_char <= text::char_count(s.input.as_str()) && has_room(s, 1) && has_mention_room(s)
        && markers_stand(&s.input_paste_markers, s.input.as_str()) && pasted_fits(
        &s.input_paste_markers,
    ) && joins(&s.queued_user_inputs) && s.current_user_input_note_cursor() < usize::MAX
        && s.user_input_question_index < usize::MAX && s.scroll_step < usize::MAX && page
}

/// Whether the open page, where there is one, has what a key is about.
pub fn page_takes(s: &UiState, key: KeyCode) -> (r: bool)
    ensures
        r == keys::page_takes(*s, key),
{
    match &s.interaction_step {
        Some(InteractionStep::ModelSelection { entries, .. }) => {
            let about_model = match key {
                KeyCode::Up | KeyCode::Down | KeyCode::Left | KeyCode::Right | KeyCode::Enter => {
                    true
                },
                KeyCode::Char(c) => c == 'k' || c == 'j' || c == 'h' || c == 'l',
                _ => false,
            };
            entries.len() > 0 || !about_model
        },
        _ => true,
    }
}

/// Whether what is offered for the input can be drawn: only commands that there are.
pub fn can_offer(s: &UiState) -> (r: bool)
    ensures
        r == render::input::offer_ok(*s),
{
    let offer = &s.autocomplete;
    let mut i: usize = 0;
    while i < offer.filtered.len()
        invariant
            *offer == s.autocomplete,
            i <= offer.filtered@.len(),
            forall|k: int|
                0 <= k < i ==> (#[trigger] offer.filtered@[k]) < offer.all_commands@.len(),
        decreases offer.filtered@.len() - i,
    {
        if offer.filtered[i] >= offer.all_commands.len() {
            return false;
        }
        i = i + 1;
    }
    true
}

/// Whether the drawer, where there is one, has room in `area`.
pub fn drawer_fits(s: &UiState, area: Rect) -> (r: bool)
    ensures
        r == (s.active_pause() matches Some(req) ==> render::permission::has_room(
            area,
            render::permission::shows_change(req.kind),
        )),
{
    let change = match s.active_tool_pause() {
        Some(req) => match &req.kind {
            ToolPauseKind::Permission(PermissionPreview::Edit(_)) => true,
            ToolPauseKind::Permission(PermissionPreview::Write(_)) => true,
            _ => false,
        },
        None => {
            return true;
        },
    };
    let height: u32 = area.height as u32;
    let enough: bool = if change {
        height * 4 / 5 >= 10 && height >= 11
    } else {
        height >= 14
    };
    enough && area.y as u32 + height + 4 <= u16::MAX as u32 && area.x as u32 + area.width as u32 + 4
        <= u16::MAX as u32
}

} // verus!
