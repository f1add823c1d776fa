//! What is typed, offered and selected is what the user sees and gets.
use crate::text;
use crate::text::joined;
use crate::tui::input;
use crate::tui::selection;
use crate::tui::state::autocomplete;
use crate::tui::state::draft;
use crate::tui::state::edit;
use crate::tui::state::interaction;
use crate::tui::state::mention;
use crate::tui::state::mention::MentionCandidate;
use crate::tui::state::paste;
use crate::tui::state::UiState;
use crate::types::config::ThinkingEffort;
use crate::types::display;
use crate::types::display::UserDraft;
use crate::types::events::CommandSummary;
use crate::types::events::SessionSummary;
use crate::width;
use vstd::prelude::*;

verus! {

/// What is typed stands where the cursor was, with the text round it as it was, and the cursor
/// stands behind it.
pub proof fn law_typed_text_stands_at_the_cursor(pre: UiState, new: Seq<char>, post: UiState)
    requires
        edit::text_inserted(pre, new, post),
        pre.cursor_char <= pre.input@.len(),
    ensures
        ({
            let c = pre.cursor_char as int;
            &&& post.input@.len() == pre.input@.len() + new.len()
            &&& post.input@.take(c) == pre.input@.take(c)
            &&& post.input@.subrange(c, c + new.len()) == new
            &&& post.input@.skip(c + new.len()) == pre.input@.skip(c)
            &&& post.cursor_char == c + new.len()
        }),
{
    let c = pre.cursor_char as int;
    if new.len() == 0 {
        assert(new =~= Seq::<char>::empty());
        assert(post.input@.subrange(c, c) =~= new);
    } else {
        assert(post.input@.take(c) =~= pre.input@.take(c));
        assert(post.input@.subrange(c, c + new.len()) =~= new);
        assert(post.input@.skip(c + new.len()) =~= pre.input@.skip(c));
    }
}

/// Where no mark stands in front of the cursor, the backspace key takes away the one character
/// there, and the delete key, where none stands behind it, the one behind it.
pub proof fn law_keys_take_one_character_away(pre: UiState, back: UiState, ahead: UiState)
    requires
        edit::deleted_before(pre, back),
        edit::deleted_after(pre, ahead),
        0 < pre.cursor_char < pre.input@.len(),
        edit::atom_before(pre.atom_ranges(), pre.cursor_char as int) is None,
        edit::atom_after(pre.atom_ranges(), pre.cursor_char as int) is None,
    ensures
        back.input@ == pre.input@.remove(pre.cursor_char - 1),
        back.cursor_char == pre.cursor_char - 1,
        ahead.input@ == pre.input@.remove(pre.cursor_char as int),
        ahead.cursor_char == pre.cursor_char,
{
    assert(back.input@ =~= pre.input@.remove(pre.cursor_char - 1));
    assert(ahead.input@ =~= pre.input@.remove(pre.cursor_char as int));
}

/// A mention stands in the input as an at sign with the label of what was chosen.
pub proof fn law_mention_is_of_what_was_chosen(pre: UiState, c: MentionCandidate, post: UiState)
    requires
        paste::mention_placed(pre, c, post),
        pre.mention_autocomplete.active_start <= pre.mention_autocomplete.active_end
            <= pre.input@.len(),
    ensures
        ({
            let start = pre.mention_autocomplete.active_start as int;
            let n = c.label@.len() as int;
            &&& post.input@.take(start) == pre.input@.take(start)
            &&& post.input@[start] == '@'
            &&& post.input@.subrange(start + 1, start + 1 + n) == c.label@
            &&& post.input@[start + 1 + n] == ' '
            &&& post.input@.skip(start + n + 2) == pre.input@.skip(
                pre.mention_autocomplete.active_end as int,
            )
            &&& post.cursor_char == start + n + 2
        }),
{
    let start = pre.mention_autocomplete.active_start as int;
    let end = pre.mention_autocomplete.active_end as int;
    let n = c.label@.len() as int;
    let new = (seq!['@'] + c.label@).push(' ');
    assert(post.input@ == pre.input@.take(start) + new + pre.input@.skip(end));
    assert(post.input@.take(start) =~= pre.input@.take(start));
    assert(post.input@.subrange(start + 1, start + 1 + n) =~= c.label@);
    assert(post.input@.skip(start + n + 2) =~= pre.input@.skip(end));
}

/// A command is offered exactly where its name starts with what has been typed.
pub proof fn law_commands_offered(
    commands: Seq<CommandSummary>,
    typed: Seq<char>,
    n: int,
    i: usize,
)
    requires
        0 <= n <= commands.len(),
        commands.len() <= usize::MAX,
    ensures
        autocomplete::offered(commands, typed, n).contains(i) <==> i < n && typed.len()
            <= commands[i as int].name@.len() && commands[i as int].name@.take(typed.len() as int)
            == typed,
    decreases n,
{
    if n > 0 {
        law_commands_offered(commands, typed, n - 1, i);
        let before = autocomplete::offered(commands, typed, n - 1);
        let all = autocomplete::offered(commands, typed, n);
        let last = (n - 1) as usize;
        if before.contains(i) {
            let k = before.index_of(i);
            assert(all[k] == i);
        }
        if all.contains(i) && !before.contains(i) {
            let k = all.index_of(i);
            if k < before.len() {
                assert(before[k] == i);
            }
        }
        if all != before {
            assert(all[before.len() as int] == last);
        }
    }
}

/// What can be mentioned is offered exactly where its label holds what has been typed, whatever
/// the case.
pub proof fn law_mentions_offered(
    candidates: Seq<MentionCandidate>,
    typed: Seq<char>,
    n: int,
    c: MentionCandidate,
)
    requires
        0 <= n <= candidates.len(),
    ensures
        mention::mention_matches(candidates, typed, n).contains(c) <==> candidates.take(n).contains(
            c,
        ) && text::occurs(text::ascii_lowered(c.label@), text::ascii_lowered(typed)),
    decreases n,
{
    if n > 0 {
        law_mentions_offered(candidates, typed, n - 1, c);
        let before = mention::mention_matches(candidates, typed, n - 1);
        let all = mention::mention_matches(candidates, typed, n);
        lemma_one_more(candidates, n, c);
        lemma_push_contains(before, candidates[n - 1], c);
    }
}

/// A session is found exactly where its title holds what is searched for.
pub proof fn law_sessions_found(
    sessions: Seq<SessionSummary>,
    search: Seq<char>,
    n: int,
    s: SessionSummary,
)
    requires
        0 <= n <= sessions.len(),
    ensures
        input::matching(sessions, search, n).contains(s) <==> sessions.take(n).contains(s)
            && text::occurs(text::lowercase(s.title@), search),
    decreases n,
{
    if n > 0 {
        law_sessions_found(sessions, search, n - 1, s);
        let before = input::matching(sessions, search, n - 1);
        lemma_one_more(sessions, n, s);
        lemma_push_contains(before, sessions[n - 1], s);
    }
}

proof fn lemma_push_contains<T>(s: Seq<T>, x: T, y: T)
    ensures
        s.push(x).contains(y) <==> s.contains(y) || x == y,
{
    if s.contains(y) {
        let k = s.index_of(y);
        assert(s.push(x)[k] == y);
    }
    if x == y {
        assert(s.push(x)[s.len() as int] == y);
    }
    if s.push(x).contains(y) && x != y {
        let k = s.push(x).index_of(y);
        assert(s[k] == y);
    }
}

proof fn lemma_one_more<T>(s: Seq<T>, n: int, y: T)
    requires
        0 < n <= s.len(),
    ensures
        s.take(n).contains(y) <==> s.take(n - 1).contains(y) || s[n - 1] == y,
{
    assert(s.take(n) =~= s.take(n - 1).push(s[n - 1]));
    lemma_push_contains(s.take(n - 1), s[n - 1], y);
}

/// Whether no session stands behind an older one.
pub open spec fn newest_stand_first(sessions: Seq<SessionSummary>) -> bool {
    forall|i: int, j: int|
        0 <= i < j < sessions.len() ==> (#[trigger] sessions[i]).created_at >= (
        #[trigger] sessions[j]).created_at
}

proof fn lemma_inserted(sorted: Seq<SessionSummary>, x: SessionSummary, y: SessionSummary)
    requires
        newest_stand_first(sorted),
    ensures
        newest_stand_first(interaction::insert_session(sorted, x)),
        interaction::insert_session(sorted, x).contains(y) <==> sorted.contains(y) || x == y,
        interaction::insert_session(sorted, x).len() == sorted.len() + 1,
        sorted.len() > 0 ==> interaction::insert_session(sorted, x).last().created_at
            <= sorted.last().created_at,
    decreases sorted.len(),
{
    if sorted.len() == 0 || sorted.last().created_at >= x.created_at {
        lemma_push_contains(sorted, x, y);
        let all = sorted.push(x);
        assert forall|i: int, j: int| 0 <= i < j < all.len() implies (
        #[trigger] all[i]).created_at >= (#[trigger] all[j]).created_at by {
            if j == sorted.len() && i < sorted.len() - 1 {
                assert(sorted[i].created_at >= sorted[sorted.len() - 1].created_at);
            }
        }
    } else {
        let less = sorted.drop_last();
        let last = sorted.last();
        assert(newest_stand_first(less)) by {
            assert forall|i: int, j: int| 0 <= i < j < less.len() implies (
            #[trigger] less[i]).created_at >= (#[trigger] less[j]).created_at by {
                assert(sorted[i].created_at >= sorted[j].created_at);
            }
        }
        lemma_inserted(less, x, y);
        let part = interaction::insert_session(less, x);
        let all = part.push(last);
        assert(all == interaction::insert_session(sorted, x));
        lemma_push_contains(part, last, y);
        assert(sorted =~= less.push(last));
        lemma_push_contains(less, last, y);
        assert forall|i: int| 0 <= i < part.len() implies (#[trigger] part[i]).created_at
            >= last.created_at by {
            lemma_inserted(less, x, part[i]);
            assert(part.contains(part[i]));
            if part[i] != x {
                let k = less.index_of(part[i]);
                assert(sorted[k].created_at >= sorted[sorted.len() - 1].created_at);
            }
        }
        assert forall|i: int, j: int| 0 <= i < j < all.len() implies (
        #[trigger] all[i]).created_at >= (#[trigger] all[j]).created_at by {
            if j < part.len() {
                assert(part[i].created_at >= part[j].created_at);
            } else {
                assert(part[i].created_at >= last.created_at);
            }
        }
    }
}

/// The list of sessions holds each of them and nothing else, the newest first.
pub proof fn law_sessions_are_listed(sessions: Seq<SessionSummary>, n: int, s: SessionSummary)
    requires
        0 <= n <= sessions.len(),
    ensures
        newest_stand_first(interaction::newest_first(sessions, n)),
        interaction::newest_first(sessions, n).len() == n,
        interaction::newest_first(sessions, n).contains(s) <==> sessions.take(n).contains(s),
    decreases n,
{
    if n > 0 {
        law_sessions_are_listed(sessions, n - 1, s);
        lemma_inserted(interaction::newest_first(sessions, n - 1), sessions[n - 1], s);
        lemma_one_more(sessions, n, s);
    }
}

/// The effort that is shown for a choice is the one that is taken.
pub proof fn law_effort_is_read_back(effort: ThinkingEffort)
    ensures
        input::effort_at(interaction::effort_index(None)) is None,
        effort is Low || effort is Medium || effort is High ==> input::effort_at(
            interaction::effort_index(Some(effort)),
        ) == Some(effort),
{
}

proof fn lemma_joined_len(drafts: Seq<UserDraft>, n: int)
    requires
        0 < n <= drafts.len(),
    ensures
        joined(draft::draft_texts(drafts).take(n), seq!['\n']).len() == draft::draft_offset(
            drafts,
            n,
        ) - 1,
    decreases n,
{
    let texts = draft::draft_texts(drafts);
    if n > 1 {
        lemma_joined_len(drafts, n - 1);
        assert(texts.take(n).drop_last() =~= texts.take(n - 1));
    } else {
        reveal_with_fuel(draft::draft_offset, 2);
    }
}

/// In drafts made into one each stands as it was, at the place that its mentions and images are
/// moved by.
pub proof fn law_each_draft_stands_in_the_whole(drafts: Seq<UserDraft>, k: int, n: int)
    requires
        0 <= k < n <= drafts.len(),
    ensures
        ({
            let whole = joined(draft::draft_texts(drafts).take(n), seq!['\n']);
            let at = draft::draft_offset(drafts, k);
            let own = drafts[k].text@;
            &&& 0 <= at
            &&& at + own.len() <= whole.len()
            &&& whole.subrange(at, at + own.len()) == own
        }),
    decreases n,
{
    let texts = draft::draft_texts(drafts);
    let whole = joined(texts.take(n), seq!['\n']);
    let at = draft::draft_offset(drafts, k);
    let own = drafts[k].text@;
    if n > 1 {
        assert(texts.take(n).drop_last() =~= texts.take(n - 1));
        let before = joined(texts.take(n - 1), seq!['\n']);
        assert(whole == before + seq!['\n'] + texts[n - 1]);
        if k < n - 1 {
            law_each_draft_stands_in_the_whole(drafts, k, n - 1);
            assert(whole.subrange(at, at + own.len()) =~= before.subrange(at, at + own.len()));
        } else {
            lemma_joined_len(drafts, n - 1);
            assert(whole.subrange(at, at + own.len()) =~= own);
        }
    } else {
        assert(whole == texts[0]);
        assert(whole.subrange(0, own.len() as int) =~= own);
    }
}

/// A mention that is moved keeps what it is of and the text under it.
pub proof fn law_moved_mention_keeps_its_text(m: display::DisplayMention, by: int)
    requires
        0 <= by,
        m.start_char + by <= usize::MAX,
        m.end_char + by <= usize::MAX,
    ensures
        display::mention_moved(m, by).start_char == m.start_char + by,
        display::mention_moved(m, by).end_char == m.end_char + by,
        display::mention_moved(m, by).label == m.label,
        display::mention_moved(m, by).target == m.target,
        display::mention_moved(m, by).kind == m.kind,
{
}

/// Where each character takes one column, the characters in a range of columns are those in that
/// range of places.
pub proof fn law_columns_are_places(s: Seq<char>, from: int, to: int)
    requires
        forall|i: int| 0 <= i < s.len() ==> width::char_columns(#[trigger] s[i]) == 1,
        0 <= from <= to,
    ensures
        width::columns(s) == s.len(),
        selection::sliced(s, from, to) == s.subrange(
            text::min_int(from, s.len() as int),
            text::min_int(to, s.len() as int),
        ),
    decreases s.len(),
{
    let n = s.len() as int;
    if n > 0 {
        let less = s.drop_last();
        assert forall|i: int| 0 <= i < less.len() implies width::char_columns(#[trigger] less[i])
            == 1 by {
            assert(less[i] == s[i]);
        }
        law_columns_are_places(less, from, to);
        assert(width::char_columns(s[n - 1]) == 1);
        let a = text::min_int(from, n);
        let b = text::min_int(to, n);
        assert(selection::sliced(s, from, to) =~= s.subrange(a, b));
    } else {
        assert(selection::sliced(s, from, to) =~= s.subrange(0, 0));
    }
}

} // verus!
