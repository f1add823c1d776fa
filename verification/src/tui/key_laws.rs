//! What every key leaves true.
use crate::text;
use crate::tui::input;
use crate::tui::input::KeyCode;
use crate::tui::input::KeyModifiers;
use crate::tui::keys;
use crate::tui::keys::MouseAction;
use crate::tui::keys::UiEffect;
use crate::tui::state::atoms;
use crate::tui::state::atoms::Atom;
use crate::tui::state::draft;
use crate::tui::state::edit;
use crate::tui::state::events;
use crate::tui::state::interaction;
use crate::tui::state::interaction::InteractionStep;
use crate::tui::state::interaction::ModelSelectionEntry;
use crate::tui::state::laws;
use crate::tui::state::lines;
use crate::tui::state::mention;
use crate::tui::state::mention::InputMention;
use crate::tui::state::mention::MentionCandidate;
use crate::tui::state::paste;
use crate::tui::state::AgentStatus;
use crate::tui::state::InputImageAttachment;
use crate::tui::state::InputPasteMarker;
use crate::tui::state::UiState;
use crate::types::display::UserDraft;
use crate::types::events::InteractionRequest;
use crate::types::events::RuntimeToUiEvent;
use crate::types::events::ToolPauseRequest;
use crate::types::events::UiToRuntimeEvent;
use vstd::prelude::*;

verus! {

/// The cursor and all that is marked in the input is within it, every pasted text stands under
/// its marker, what is selected on an open page is there, and the mention being typed is part of
/// the input. At most one list is on offer.
pub open spec fn in_order(s: UiState) -> bool {
    &&& s.input_ok()
    &&& draft::markers_ok(s.input_paste_markers@, s.input@)
    &&& s.interaction_step matches Some(step) ==> input::step_ok(step)
    &&& s.mention_autocomplete.visible ==> s.mention_autocomplete.active_start
        <= s.mention_autocomplete.active_end <= s.input@.len()
    &&& !(s.autocomplete.visible && s.mention_autocomplete.visible)
}

/// Whether there is room in the input for what one key can put there.
pub open spec fn roomy(s: UiState) -> bool {
    &&& s.input@.len() + 3 * paste::MARKER_ROOM <= usize::MAX
    &&& s.input_images@.len() < usize::MAX
    &&& paste::chosen(s) matches Some(c) ==> s.input@.len() + c.label@.len() + c.target@.len() + 3
        * paste::MARKER_ROOM <= usize::MAX
    &&& keys::picked(s.autocomplete) matches Some(c) ==> c.name@.len() + 2 <= usize::MAX
}

/// Whether the parts that order is about are the same.
spec fn same_parts(pre: UiState, post: UiState) -> bool {
    &&& post.input == pre.input
    &&& post.input_mentions == pre.input_mentions
    &&& post.input_images == pre.input_images
    &&& post.input_paste_markers == pre.input_paste_markers
    &&& post.cursor_char == pre.cursor_char
    &&& post.interaction_step == pre.interaction_step
    &&& post.autocomplete.visible == pre.autocomplete.visible
    &&& post.mention_autocomplete == pre.mention_autocomplete
}

/// The parts of order that an edit is about.
spec fn editor_in_order(s: UiState) -> bool {
    &&& s.input_ok()
    &&& draft::markers_ok(s.input_paste_markers@, s.input@)
    &&& s.interaction_step matches Some(step) ==> input::step_ok(step)
}

proof fn lemma_mention_start(s: Seq<char>, at: int)
    ensures
        mention::mention_start(s, at) matches Some(start) ==> 0 <= start < at <= s.len(),
    decreases at,
{
    if at > 0 && at <= s.len() && !text::white(s[at - 1]) && s[at - 1] != '@' {
        lemma_mention_start(s, at - 1);
    }
}

proof fn lemma_offers(mid: UiState, post: UiState)
    requires
        editor_in_order(mid),
        paste::offers_updated(mid, post),
    ensures
        in_order(post),
{
    lemma_mention_start(mid.input@, mid.cursor_char as int);
}

proof fn lemma_replacement(pre: UiState, start: int, end: int, new: Seq<char>, post: UiState)
    requires
        pre.input_ok(),
        draft::markers_ok(pre.input_paste_markers@, pre.input@),
        0 <= start <= end <= pre.input@.len(),
        pre.input@.len() - (end - start) + new.len() <= usize::MAX,
        edit::text_edited(pre, start, end, new, post),
        post.cursor_char <= post.input@.len(),
    ensures
        post.input_ok(),
        draft::markers_ok(post.input_paste_markers@, post.input@),
{
    let n = pre.input@.len() as int;
    atoms::lemma_edited_within(pre.input_mentions@, n, start, end - start, new.len() as int);
    atoms::lemma_edited_within(pre.input_images@, n, start, end - start, new.len() as int);
    atoms::lemma_edited_within(
        pre.input_paste_markers@,
        n,
        start,
        end - start,
        new.len() as int,
    );
    laws::lemma_markers_kept(pre.input_paste_markers@, pre.input@, start, end, new);
}

proof fn lemma_sorted_within<T: Atom>(all: Seq<T>, n: int)
    requires
        atoms::atoms_within(all, n),
    ensures
        atoms::atoms_within(atoms::by_start(all), n),
{
    broadcast use vstd::seq_lib::group_to_multiset_ensures;

    atoms::lemma_by_start(all);
    let sorted = atoms::by_start(all);
    assert forall|i: int| 0 <= i < sorted.len() implies (#[trigger] sorted[i]).lo()
        < sorted[i].hi() <= n by {
        assert(sorted.to_multiset().contains(sorted[i]));
        assert(all.to_multiset().contains(sorted[i]));
        assert(all.contains(sorted[i]));
        let k = choose|k: int| 0 <= k < all.len() && all[k] == sorted[i];
        assert(all[k].lo() < all[k].hi() <= n);
    }
}

proof fn lemma_image_placed(
    pre: UiState,
    start: int,
    end: int,
    path: Seq<char>,
    scroll: int,
    post: UiState,
)
    requires
        editor_in_order(pre),
        0 <= start <= end <= pre.input@.len(),
        pre.input@.len() + paste::MARKER_ROOM <= usize::MAX,
        pre.input_images@.len() < usize::MAX,
        paste::image_placed(pre, start, end, path, scroll, post),
    ensures
        editor_in_order(post),
{
    let count = pre.input_images@.len() + 1;
    let new = paste::image_marker(count as int).push(' ');
    paste::lemma_marker_len(count as int);
    let n = pre.input@.len() as int;
    let len = new.len() as int;
    atoms::lemma_edited_within(pre.input_mentions@, n, start, end - start, len);
    atoms::lemma_edited_within(pre.input_images@, n, start, end - start, len);
    atoms::lemma_edited_within(pre.input_paste_markers@, n, start, end - start, len);
    laws::lemma_markers_kept(pre.input_paste_markers@, pre.input@, start, end, new);
    let img = choose|img: InputImageAttachment|
        {
            &&& #[trigger] paste::image_at_start(img, count as int, start, path)
            &&& post.input_images@ == atoms::by_start(
                atoms::edited_atoms(pre.input_images@, start, end - start, len).push(img),
            )
        };
    let all = atoms::edited_atoms(pre.input_images@, start, end - start, len).push(img);
    assert(atoms::atoms_within(all, post.input@.len() as int)) by {
        assert forall|i: int| 0 <= i < all.len() implies (#[trigger] all[i]).lo() < all[i].hi()
            <= post.input@.len() by {
            if i < all.len() - 1 {
                assert(all[i] == atoms::edited_atoms(pre.input_images@, start, end - start, len)[i]);
            }
        }
    }
    lemma_sorted_within(all, post.input@.len() as int);
}

proof fn lemma_mention_placed(pre: UiState, c: MentionCandidate, post: UiState)
    requires
        in_order(pre),
        pre.mention_autocomplete.visible,
        pre.input@.len() + c.label@.len() + paste::MARKER_ROOM <= usize::MAX,
        paste::mention_placed(pre, c, post),
    ensures
        editor_in_order(post),
{
    let start = pre.mention_autocomplete.active_start as int;
    let end = pre.mention_autocomplete.active_end as int;
    let new = (seq!['@'] + c.label@).push(' ');
    let n = pre.input@.len() as int;
    let len = new.len() as int;
    atoms::lemma_edited_within(pre.input_mentions@, n, start, end - start, len);
    atoms::lemma_edited_within(pre.input_images@, n, start, end - start, len);
    atoms::lemma_edited_within(pre.input_paste_markers@, n, start, end - start, len);
    laws::lemma_markers_kept(pre.input_paste_markers@, pre.input@, start, end, new);
    let m = choose|m: InputMention|
        {
            &&& #[trigger] paste::mentions_candidate(m, c, start)
            &&& post.input_mentions@ == atoms::by_start(
                atoms::edited_atoms(pre.input_mentions@, start, end - start, len).push(m),
            )
        };
    let all = atoms::edited_atoms(pre.input_mentions@, start, end - start, len).push(m);
    assert(atoms::atoms_within(all, post.input@.len() as int)) by {
        assert forall|i: int| 0 <= i < all.len() implies (#[trigger] all[i]).lo() < all[i].hi()
            <= post.input@.len() by {
            if i < all.len() - 1 {
                assert(all[i] == atoms::edited_atoms(
                    pre.input_mentions@,
                    start,
                    end - start,
                    len,
                )[i]);
            }
        }
    }
    lemma_sorted_within(all, post.input@.len() as int);
}

proof fn lemma_inserted(pre: UiState, new: Seq<char>, post: UiState)
    requires
        editor_in_order(pre),
        pre.input@.len() + new.len() <= usize::MAX,
        edit::text_inserted(pre, new, post),
    ensures
        editor_in_order(post),
{
    laws::law_insert_keeps_input_ok(pre, new, post);
    laws::law_insert_keeps_markers(pre, new, post);
}

proof fn lemma_typed(pre: UiState, c: char, is_file: bool, post: UiState)
    requires
        in_order(pre),
        roomy(pre),
        keys::typed(pre, c, is_file, post),
    ensures
        in_order(post),
{
    let mid = choose|mid: UiState|
        paste::char_typed(pre, c, is_file, mid) && #[trigger] paste::offers_updated(mid, post);
    let typed = edit::replaced(
        pre.input@,
        pre.cursor_char as int,
        pre.cursor_char as int,
        seq![c],
    );
    match paste::quoted_image(typed, pre.cursor_char + 1, c) {
        Some((open, path)) if (c == '\'' || c == '"') && is_file => {
            let a = choose|a: UiState|
                {
                    &&& #[trigger] edit::text_inserted(pre, seq![c], a)
                    &&& paste::image_placed(
                        a,
                        open,
                        pre.cursor_char + 1,
                        path,
                        a.input_scroll_line as int,
                        mid,
                    )
                };
            lemma_inserted(pre, seq![c], a);
            paste::lemma_quote_before(typed, pre.cursor_char as int, c);
            let before = atoms::edited_atoms(
                pre.input_images@,
                pre.cursor_char as int,
                0,
                1,
            );
            atoms::lemma_edited_within(
                pre.input_images@,
                pre.input@.len() as int,
                pre.cursor_char as int,
                0,
                1,
            );
            lemma_image_placed(
                a,
                open,
                pre.cursor_char + 1,
                path,
                a.input_scroll_line as int,
                mid,
            );
        },
        _ => {
            lemma_inserted(pre, seq![c], mid);
        },
    }
    lemma_offers(mid, post);
}

proof fn lemma_line_broken(pre: UiState, post: UiState)
    requires
        in_order(pre),
        roomy(pre),
        keys::line_broken(pre, post),
    ensures
        in_order(post),
{
    reveal_strlit("\n");
    let mid = choose|mid: UiState|
        edit::text_inserted(pre, "\n"@, mid) && #[trigger] paste::offers_updated(mid, post);
    lemma_inserted(pre, "\n"@, mid);
    lemma_offers(mid, post);
}

proof fn lemma_erased_back(pre: UiState, post: UiState)
    requires
        in_order(pre),
        keys::erased_back(pre, post),
    ensures
        in_order(post),
{
    let mid = choose|mid: UiState|
        edit::deleted_before(pre, mid) && #[trigger] paste::offers_updated(mid, post);
    laws::law_delete_before_keeps_input_ok(pre, mid);
    lemma_offers(mid, post);
}

proof fn lemma_erased_ahead(pre: UiState, post: UiState)
    requires
        in_order(pre),
        keys::erased_ahead(pre, post),
    ensures
        in_order(post),
{
    let mid = choose|mid: UiState|
        edit::deleted_after(pre, mid) && #[trigger] paste::offers_updated(mid, post);
    laws::law_delete_after_keeps_input_ok(pre, mid);
    lemma_offers(mid, post);
}

proof fn lemma_gone_to(pre: UiState, to: int, post: UiState)
    requires
        in_order(pre),
        0 <= to <= pre.input@.len(),
        keys::gone_to(pre, to, post),
    ensures
        in_order(post),
{
    let mid = choose|mid: UiState|
        edit::just_moved(pre, to, mid) && #[trigger] paste::offers_updated(mid, post);
    lemma_offers(mid, post);
}

proof fn lemma_position_at(chars: Seq<char>, from: int, to: int, col: int)
    requires
        from <= to,
    ensures
        from <= lines::position_at(chars, from, to, col) <= to,
    decreases to - from,
{
    if from < to && col > 0 {
        lemma_position_at(chars, from + 1, to, col - crate::width::char_columns(chars[from]));
    }
}

proof fn lemma_line_moves(pre: UiState, target: int, col: int)
    requires
        pre.input_ok(),
    ensures
        0 <= pre.position_in_line(target, col) <= pre.input@.len(),
{
    lines::lemma_lines_partition(pre.input@, pre.capacity());
    let all = pre.shown_input();
    if 0 <= target < all.len() {
        lemma_position_at(
            pre.input@,
            all[target].start_char as int,
            all[target].end_char as int,
            col,
        );
    }
}

proof fn lemma_inserted_mention(pre: UiState, is_file: bool, done: bool, post: UiState)
    requires
        in_order(pre),
        roomy(pre),
        pre.mention_autocomplete.visible,
        paste::mention_inserted(pre, is_file, done, post),
    ensures
        editor_in_order(post),
{
    match paste::chosen(pre) {
        None => {},
        Some(c) => {
            let mid = choose|mid: UiState|
                {
                    &&& match paste::candidate_image(pre, c) {
                        Some(path) if is_file => paste::image_placed(
                            pre,
                            pre.mention_autocomplete.active_start as int,
                            pre.mention_autocomplete.active_end as int,
                            path,
                            edit::settled(
                                mid.input@,
                                pre.capacity(),
                                mid.cursor_char as int,
                                pre.input_scroll_line as int,
                            ),
                            mid,
                        ),
                        _ => paste::mention_placed(pre, c, mid),
                    }
                    &&& #[trigger] paste::offers_closed(mid, post)
                };
            match paste::candidate_image(pre, c) {
                Some(path) if is_file => {
                    lemma_image_placed(
                        pre,
                        pre.mention_autocomplete.active_start as int,
                        pre.mention_autocomplete.active_end as int,
                        path,
                        edit::settled(
                            mid.input@,
                            pre.capacity(),
                            mid.cursor_char as int,
                            pre.input_scroll_line as int,
                        ),
                        mid,
                    );
                },
                _ => {
                    lemma_mention_placed(pre, c, mid);
                },
            }
        },
    }
}

proof fn lemma_without_slashes(s: Seq<char>)
    ensures
        paste::without_slashes(s).len() <= s.len(),
    decreases s.len(),
{
    if s.len() > 0 && s.last() == '/' {
        lemma_without_slashes(s.drop_last());
    }
}

proof fn lemma_expanded_mention(pre: UiState, is_file: bool, done: bool, post: UiState)
    requires
        in_order(pre),
        roomy(pre),
        pre.mention_autocomplete.visible,
        paste::directory_expanded(pre, is_file, done, post),
    ensures
        editor_in_order(post),
{
    match paste::chosen(pre) {
        Some(c) if c.kind == crate::types::display::MentionKind::Directory => {
            let start = pre.mention_autocomplete.active_start as int;
            let end = pre.mention_autocomplete.active_end as int;
            let new = (seq!['@'] + paste::without_slashes(c.target@)).push('/');
            lemma_without_slashes(c.target@);
            let mid = choose|mid: UiState|
                {
                    &&& #[trigger] edit::only_editor(pre, mid)
                    &&& edit::text_edited(pre, start, end, new, mid)
                    &&& edit::cursor_moved(pre, start + new.len(), mid)
                    &&& paste::only_offers(mid, post)
                    &&& post.autocomplete
                        == (crate::tui::state::autocomplete::CommandAutocomplete {
                        visible: false,
                        ..mid.autocomplete
                    })
                    &&& mention::mentions_for(
                        mid.mention_autocomplete,
                        mid.input@,
                        mid.cursor_char as int,
                        post.mention_autocomplete,
                    )
                };
            lemma_replacement(pre, start, end, new, mid);
        },
        _ => {
            lemma_inserted_mention(pre, is_file, done, post);
        },
    }
}

proof fn lemma_mention_key(
    pre: UiState,
    key: KeyCode,
    modifiers: KeyModifiers,
    is_file: bool,
    post: UiState,
)
    requires
        in_order(pre),
        roomy(pre),
        pre.mention_autocomplete.visible,
        keys::mention_key(pre, key, modifiers, is_file, post),
    ensures
        in_order(post),
{
    laws::law_moves_keep_input_ok(pre);
    if input::newline_key(key, modifiers) {
        lemma_line_broken(pre, post);
    } else {
        match key {
            KeyCode::Enter => {
                let (mid, done) = choose|mid: UiState, done: bool|
                    #[trigger] paste::mention_inserted(pre, is_file, done, mid)
                        && #[trigger] paste::offers_updated(mid, post);
                lemma_inserted_mention(pre, is_file, done, mid);
                lemma_offers(mid, post);
            },
            KeyCode::Tab | KeyCode::Right => {
                let (mid, done) = choose|mid: UiState, done: bool|
                    #[trigger] paste::directory_expanded(pre, is_file, done, mid)
                        && #[trigger] paste::offers_updated(mid, post);
                lemma_expanded_mention(pre, is_file, done, mid);
                lemma_offers(mid, post);
            },
            KeyCode::Backspace => lemma_erased_back(pre, post),
            KeyCode::Delete => lemma_erased_ahead(pre, post),
            KeyCode::Char(c) => lemma_typed(pre, c, is_file, post),
            KeyCode::Left => lemma_gone_to(pre, edit::left_of(pre), post),
            KeyCode::Home => lemma_gone_to(pre, 0, post),
            KeyCode::End => lemma_gone_to(pre, pre.input@.len() as int, post),
            _ => {},
        }
    }
}

proof fn lemma_empty_input(post: UiState)
    requires
        post.cursor_char <= post.input@.len() <= usize::MAX,
        post.input_mentions@.len() == 0,
        post.input_images@.len() == 0,
        post.input_paste_markers@.len() == 0,
    ensures
        post.input_ok(),
        draft::markers_ok(post.input_paste_markers@, post.input@),
{
}

proof fn lemma_command_key(
    pre: UiState,
    key: KeyCode,
    modifiers: KeyModifiers,
    is_file: bool,
    effect: UiEffect,
    post: UiState,
)
    requires
        in_order(pre),
        roomy(pre),
        pre.input_images@.len() == 0,
        !pre.mention_autocomplete.visible,
        keys::command_key(pre, key, modifiers, is_file, effect, post),
    ensures
        in_order(post),
{
    laws::law_moves_keep_input_ok(pre);
    reveal_strlit("/");
    reveal_strlit(" ");
    if input::newline_key(key, modifiers) {
        lemma_line_broken(pre, post);
    } else {
        match key {
            KeyCode::Enter | KeyCode::Tab => {
                if keys::picked(pre.autocomplete) is Some {
                    lemma_empty_input(post);
                }
            },
            KeyCode::Backspace => lemma_erased_back(pre, post),
            KeyCode::Delete => lemma_erased_ahead(pre, post),
            KeyCode::Char(c) => lemma_typed(pre, c, is_file, post),
            KeyCode::Left => lemma_gone_to(pre, edit::left_of(pre), post),
            KeyCode::Right => lemma_gone_to(pre, edit::right_of(pre), post),
            KeyCode::Home => lemma_gone_to(pre, 0, post),
            KeyCode::End => lemma_gone_to(pre, pre.input@.len() as int, post),
            _ => {},
        }
    }
}

proof fn lemma_plain_key(
    pre: UiState,
    key: KeyCode,
    modifiers: KeyModifiers,
    is_file: bool,
    now: u64,
    effect: UiEffect,
    post: UiState,
)
    requires
        in_order(pre),
        roomy(pre),
        keys::plain_key(pre, key, modifiers, is_file, now, effect, post),
    ensures
        in_order(post),
{
    laws::law_moves_keep_input_ok(pre);
    if (key == KeyCode::Char('c') && modifiers.only_control()) || key == KeyCode::Char('\x03') {
    } else if input::intervention_key(key, modifiers) {
        let request = choose|request: Option<UiToRuntimeEvent>|
            #[trigger] input::intervened(pre, request, post) && effect == keys::asking(request);
        assert(same_parts(pre, post));
    } else if input::newline_key(key, modifiers) {
        lemma_line_broken(pre, post);
    } else if key == KeyCode::Enter {
        if pre.pending_intervention_inputs@.len() > 0 || pre.input@.len() == 0 {
        } else {
            let (d, mid) = choose|d: UserDraft, mid: UiState|
                #[trigger] draft::draft_taken(pre, Some(d), mid) && keys::draft_entered(
                    mid,
                    d,
                    effect,
                    post,
                );
            lemma_empty_input(mid);
            assert(same_parts(mid, post));
        }
    } else {
        let (line, col) = pre.cursor_place();
        match key {
            KeyCode::Up => lemma_line_moves(pre, line - 1, col),
            KeyCode::Down => lemma_line_moves(pre, line + 1, col),
            KeyCode::Backspace => lemma_erased_back(pre, post),
            KeyCode::Delete => lemma_erased_ahead(pre, post),
            KeyCode::Char(c) => lemma_typed(pre, c, is_file, post),
            KeyCode::Left => lemma_gone_to(pre, edit::left_of(pre), post),
            KeyCode::Right => lemma_gone_to(pre, edit::right_of(pre), post),
            KeyCode::Home => {
                if !modifiers.only_control() {
                    lemma_gone_to(pre, 0, post);
                }
            },
            KeyCode::End => {
                if !modifiers.only_control() {
                    lemma_gone_to(pre, pre.input@.len() as int, post);
                }
            },
            _ => {},
        }
    }
}

proof fn lemma_pause_key(
    pre: UiState,
    req: ToolPauseRequest,
    key: KeyCode,
    effect: UiEffect,
    post: UiState,
)
    requires
        keys::pause_key(pre, req, key, effect, post),
    ensures
        same_parts(pre, post),
{
}

proof fn lemma_page_key(pre: UiState, key: KeyCode, effect: UiEffect, post: UiState)
    requires
        in_order(pre),
        pre.interaction_step is Some,
        keys::page_key(pre, key, effect, post),
    ensures
        in_order(post),
{
    match pre.interaction_step->0 {
        InteractionStep::ModelSelection { entries, selected, thinking_idx, .. } => {
            if entries@.len() > 0 {
                input::lemma_skips(entries@, text::minus(selected as int, 1));
                input::lemma_skips(entries@, text::min_int(selected + 1, entries@.len() - 1));
            }
        },
        _ => {},
    }
}

/// Every key leaves the state in order. A command that is completed from the list drops what was
/// marked in the input but for its images, so there must be none where the list is shown.
pub proof fn law_keys_keep_the_state_in_order(
    pre: UiState,
    key: KeyCode,
    modifiers: KeyModifiers,
    is_file: bool,
    now: u64,
    effect: UiEffect,
    post: UiState,
)
    requires
        in_order(pre),
        roomy(pre),
        pre.autocomplete.visible ==> pre.input_images@.len() == 0,
        keys::key_handled(pre, key, modifiers, is_file, now, effect, post),
    ensures
        in_order(post),
{
    if pre.interaction_step is Some {
        lemma_page_key(pre, key, effect, post);
    } else if key == KeyCode::Esc && (pre.agent_status
        == AgentStatus::Working || pre.agent_status
        == AgentStatus::Thinking) {
    } else if pre.active_pause() is Some {
        lemma_pause_key(pre, pre.active_pause()->0, key, effect, post);
    } else if pre.autocomplete.visible {
        lemma_command_key(pre, key, modifiers, is_file, effect, post);
    } else if pre.mention_autocomplete.visible {
        lemma_mention_key(pre, key, modifiers, is_file, post);
    } else {
        lemma_plain_key(pre, key, modifiers, is_file, now, effect, post);
    }
}

/// Pasting leaves the state in order.
pub proof fn law_pasting_keeps_the_state_in_order(
    pre: UiState,
    pasted: Seq<char>,
    is_file: bool,
    post: UiState,
)
    requires
        in_order(pre),
        pre.input_images@.len() < usize::MAX,
        pasted.len() <= usize::MAX,
        pre.input@.len() + pasted.len() + paste::MARKER_ROOM <= usize::MAX,
        keys::paste_handled(pre, pasted, is_file, post),
    ensures
        in_order(post),
{
    if pre.interaction_step is Some || pre.active_pause() is Some {
    } else {
        let mid = choose|mid: UiState|
            paste::text_pasted(pre, pasted, is_file, mid) && #[trigger] paste::offers_updated(
                mid,
                post,
            );
        lemma_pasted(pre, pasted, is_file, mid);
        lemma_offers(mid, post);
    }
}

proof fn lemma_pasted(pre: UiState, pasted: Seq<char>, is_file: bool, post: UiState)
    requires
        in_order(pre),
        pre.input_images@.len() < usize::MAX,
        pasted.len() <= usize::MAX,
        pre.input@.len() + pasted.len() + paste::MARKER_ROOM <= usize::MAX,
        paste::text_pasted(pre, pasted, is_file, post),
    ensures
        editor_in_order(post),
{
    let at = pre.cursor_char as int;
    match paste::pasted_image(pre.status_bar.cwd@, pasted) {
        Some(path) if is_file => {
            let scroll = edit::settled(
                post.input@,
                pre.capacity(),
                post.cursor_char as int,
                pre.input_scroll_line as int,
            );
            lemma_image_placed(pre, at, at, path, scroll, post);
        },
        _ => {
            paste::lemma_marker_len(pasted.len() as int);
            if paste::needs_marker(pasted) {
                let marker = paste::paste_marker(pasted.len() as int);
                let (mid, m) = choose|mid: UiState, m: InputPasteMarker|
                    {
                        &&& #[trigger] edit::text_inserted(pre, marker, mid)
                        &&& #[trigger] paste::marks_paste(m, pre.cursor_char as int, pasted)
                        &&& post == (UiState {
                            input_paste_markers: post.input_paste_markers,
                            ..mid
                        })
                        &&& post.input_paste_markers@ == atoms::by_start(
                            mid.input_paste_markers@.push(m),
                        )
                    };
                lemma_inserted(pre, marker, mid);
                let all = mid.input_paste_markers@.push(m);
                assert(atoms::atoms_within(all, mid.input@.len() as int)) by {
                    assert forall|i: int| 0 <= i < all.len() implies (#[trigger] all[i]).lo()
                        < all[i].hi() <= mid.input@.len() by {
                        if i < all.len() - 1 {
                            assert(all[i] == mid.input_paste_markers@[i]);
                        }
                    }
                }
                lemma_sorted_within(all, mid.input@.len() as int);
                laws::lemma_marker_pasted(pre, pasted, mid, m);
            } else {
                let mid = choose|mid: UiState|
                    {
                        &&& #[trigger] edit::text_inserted(pre, pasted, mid)
                        &&& edit::just_moved(mid, mid.cursor_char as int, post)
                    };
                lemma_inserted(pre, pasted, mid);
            }
        },
    }
}

/// The mouse leaves the state in order.
pub proof fn law_mouse_keeps_the_state_in_order(
    pre: UiState,
    action: MouseAction,
    row: int,
    column: int,
    now: u64,
    effect: UiEffect,
    post: UiState,
)
    requires
        in_order(pre),
        keys::mouse_handled(pre, action, row, column, now, effect, post),
    ensures
        in_order(post),
{
    assert(same_parts(pre, post));
}

proof fn lemma_entry_of(
    entries: Seq<ModelSelectionEntry>,
    provider: Seq<char>,
    model: Seq<char>,
    n: int,
)
    requires
        0 <= n <= entries.len(),
        entries.len() > 0,
    ensures
        0 <= interaction::entry_of(entries, provider, model, n) < entries.len(),
    decreases n,
{
    if n > 0 {
        lemma_entry_of(entries, provider, model, n - 1);
    } else {
        interaction::lemma_first_model_listed(entries, 0);
    }
}

proof fn lemma_page_opened(
    pre: UiState,
    event: RuntimeToUiEvent,
    opened: UiState,
)
    requires
        in_order(pre),
        keys::page_opened(pre, event, opened),
    ensures
        in_order(opened),
{
    match event {
        RuntimeToUiEvent::InteractionRequest(req) => {
            match req {
                InteractionRequest::ModelSelection {
                    providers,
                    current_provider,
                    current_model,
                } => {
                    let all = interaction::model_entries(
                        providers@,
                        interaction::order_by_key(
                            interaction::provider_keys(providers@),
                            providers@.len() as int,
                        ),
                        providers@.len() as int,
                    );
                    if all.len() > 0 {
                        lemma_entry_of(all, current_provider@, current_model@, all.len() as int);
                    }
                },
                _ => {},
            }
        },
        _ => {},
    }
}

/// Whatever the runtime reports leaves the state in order. Another session empties the input but
/// leaves the list of mentions as it is, so that must not be shown then.
pub proof fn law_events_keep_the_state_in_order(
    pre: UiState,
    event: RuntimeToUiEvent,
    effect: UiEffect,
    post: UiState,
)
    requires
        in_order(pre),
        event is SessionChanged ==> !pre.mention_autocomplete.visible,
        keys::runtime_event_handled(pre, event, effect, post),
    ensures
        in_order(post),
{
    let opened = choose|opened: UiState|
        {
            &&& #[trigger] keys::page_opened(pre, event, opened)
            &&& match event {
                RuntimeToUiEvent::Shutdown => effect == UiEffect::Quit && post == opened,
                RuntimeToUiEvent::SessionChanged { session_id, messages, subagents } => effect
                    == UiEffect::Nothing && events::session_shown(
                    opened,
                    session_id,
                    messages@,
                    subagents@,
                    post,
                ),
                RuntimeToUiEvent::RunFinished => exists|
                    done: UiState,
                    request: Option<UiToRuntimeEvent>,
                |
                    {
                        &&& events::event_applied(opened, event, done)
                        &&& #[trigger] input::queue_flushed(done, request, post)
                        &&& effect == keys::asking(request)
                    },
                _ => effect == UiEffect::Nothing && events::event_applied(opened, event, post),
            }
        };
    lemma_page_opened(pre, event, opened);
    match event {
        RuntimeToUiEvent::Shutdown => {},
        RuntimeToUiEvent::SessionChanged { .. } => {
            lemma_empty_input(post);
        },
        RuntimeToUiEvent::RunFinished => {
            lemma_run_finished(opened, effect, post);
        },
        _ => {
            lemma_event_applied(opened, event, post);
        },
    }
}

proof fn lemma_run_finished(opened: UiState, effect: UiEffect, post: UiState)
    requires
        in_order(opened),
        exists|done: UiState, request: Option<UiToRuntimeEvent>|
            {
                &&& events::event_applied(opened, RuntimeToUiEvent::RunFinished, done)
                &&& #[trigger] input::queue_flushed(done, request, post)
                &&& effect == keys::asking(request)
            },
    ensures
        in_order(post),
{
    assert(same_parts(opened, post));
}

proof fn lemma_event_applied(pre: UiState, event: RuntimeToUiEvent, post: UiState)
    requires
        in_order(pre),
        events::event_applied(pre, event, post),
    ensures
        in_order(post),
{
    match event {
        RuntimeToUiEvent::AgentList(_) => {
            let mid = choose|mid: UiState|
                same_editor(pre, mid) && #[trigger] paste::offers_updated(mid, post);
            lemma_offers(mid, post);
        },
        RuntimeToUiEvent::ModelChanged { .. } => {},
        _ => {
            assert(same_parts(pre, post));
        },
    }
}

/// Whether the editor and the open page are the same.
spec fn same_editor(pre: UiState, post: UiState) -> bool {
    &&& post.input == pre.input
    &&& post.input_mentions == pre.input_mentions
    &&& post.input_images == pre.input_images
    &&& post.input_paste_markers == pre.input_paste_markers
    &&& post.cursor_char == pre.cursor_char
    &&& post.interaction_step == pre.interaction_step
}

/// A fresh user interface is in order.
pub proof fn law_fresh_state_is_in_order(s: UiState)
    requires
        s.input@.len() == 0,
        s.cursor_char == 0,
        s.input_mentions@.len() == 0,
        s.input_images@.len() == 0,
        s.input_paste_markers@.len() == 0,
        s.interaction_step is None,
        !s.autocomplete.visible,
        !s.mention_autocomplete.visible,
    ensures
        in_order(s),
{
}

} // verus!
