//! The drawer in which the user allows a tool or answers its questions.
use crate::text;
use crate::tui::state::UiState;
use crate::types::events::ToolPauseRequest;
use crate::types::events::UserInputPreview;
use vstd::prelude::*;

verus! {

/// What the drawer owns.
pub open spec fn only_drawer(pre: UiState, post: UiState) -> bool {
    post == (UiState {
        permission_selected: post.permission_selected,
        user_input_question_index: post.user_input_question_index,
        user_input_selected: post.user_input_selected,
        user_input_answered: post.user_input_answered,
        user_input_note_mode: post.user_input_note_mode,
        user_input_notes: post.user_input_notes,
        user_input_note_cursors: post.user_input_note_cursors,
        permission_scroll_offset: post.permission_scroll_offset,
        ..pre
    })
}

/// The drawer as it is before anything is asked.
pub open spec fn drawer_reset(pre: UiState, post: UiState) -> bool {
    &&& only_drawer(pre, post)
    &&& post.permission_selected == 0
    &&& post.user_input_question_index == 0
    &&& post.user_input_selected@.len() == 0
    &&& post.user_input_answered@.len() == 0
    &&& !post.user_input_note_mode
    &&& post.user_input_notes@.len() == 0
    &&& post.user_input_note_cursors@.len() == 0
    &&& post.permission_scroll_offset == 0
}

/// The drawer with `n` questions, none of them answered.
pub open spec fn questions_prepared(pre: UiState, n: int, post: UiState) -> bool {
    &&& post == (UiState {
        user_input_selected: post.user_input_selected,
        user_input_answered: post.user_input_answered,
        user_input_notes: post.user_input_notes,
        user_input_note_cursors: post.user_input_note_cursors,
        ..pre
    })
    &&& post.user_input_selected@ == Seq::new(n as nat, |i: int| 0usize)
    &&& post.user_input_answered@ == Seq::new(n as nat, |i: int| false)
    &&& text::views(post.user_input_notes@) == Seq::new(n as nat, |i: int| Seq::<char>::empty())
    &&& post.user_input_note_cursors@ == Seq::new(n as nat, |i: int| 0usize)
}

/// The number of questions without an answer.
pub open spec fn unanswered(answered: Seq<bool>) -> int
    decreases answered.len(),
{
    if answered.len() == 0 {
        0
    } else {
        unanswered(answered.drop_last()) + if answered.last() {
            0int
        } else {
            1
        }
    }
}

/// The first question without an answer at or after `from`.
pub open spec fn first_unanswered(answered: Seq<bool>, from: int) -> Option<int>
    decreases answered.len() - from,
{
    if from < 0 || from >= answered.len() {
        None
    } else if !answered[from] {
        Some(from)
    } else {
        first_unanswered(answered, from + 1)
    }
}

/// The question to go on with: the next one without an answer, else the first one without.
pub open spec fn next_question(answered: Seq<bool>, index: usize) -> usize {
    match first_unanswered(answered, index + 1) {
        Some(i) => i as usize,
        None => match first_unanswered(answered, 0) {
            Some(i) => i as usize,
            None => index,
        },
    }
}

/// `s` with `c` put in at `at`.
pub open spec fn with_char(s: Seq<char>, at: int, c: char) -> Seq<char> {
    let i = text::min_int(at, s.len() as int);
    s.take(i).push(c) + s.skip(i)
}

/// The note of the current question, and the cursor in it.
pub open spec fn note_set(pre: UiState, note: Seq<char>, cursor: int, post: UiState) -> bool {
    let i = pre.user_input_question_index as int;
    &&& post == (UiState {
        user_input_notes: post.user_input_notes,
        user_input_note_cursors: post.user_input_note_cursors,
        ..pre
    })
    &&& text::views(post.user_input_notes@) == text::views(pre.user_input_notes@).update(i, note)
    &&& post.user_input_note_cursors@ == pre.user_input_note_cursors@.update(i, cursor as usize)
}

impl UiState {
    /// Whether the current question has a note and a cursor in it.
    pub open spec fn has_note(&self) -> bool {
        &&& self.user_input_question_index < self.user_input_notes@.len()
        &&& self.user_input_question_index < self.user_input_note_cursors@.len()
    }

    /// The note of the current question.
    pub open spec fn note(&self) -> Seq<char> {
        if self.user_input_question_index < self.user_input_notes@.len() {
            self.user_input_notes@[self.user_input_question_index as int]@
        } else {
            Seq::empty()
        }
    }

    /// The cursor in the note of the current question.
    pub open spec fn note_cursor(&self) -> int {
        if self.user_input_question_index < self.user_input_note_cursors@.len() {
            self.user_input_note_cursors@[self.user_input_question_index as int] as int
        } else {
            0
        }
    }

    pub fn reset_permission_drawer(&mut self)
        ensures
            drawer_reset(*old(self), *final(self)),
    {
        self.permission_selected = 0;
        self.user_input_question_index = 0;
        self.user_input_selected = Vec::new();
        self.user_input_answered = Vec::new();
        self.user_input_note_mode = false;
        self.user_input_notes = Vec::new();
        self.user_input_note_cursors = Vec::new();
        self.permission_scroll_offset = 0;
    }

    pub fn prepare_user_input_preview(&mut self, preview: &UserInputPreview)
        ensures
            questions_prepared(*old(self), preview.questions@.len() as int, *final(self)),
    {
        let n: usize = preview.questions.len();
        let mut selected: Vec<usize> = Vec::new();
        let mut answered: Vec<bool> = Vec::new();
        let mut notes: Vec<String> = Vec::new();
        let mut cursors: Vec<usize> = Vec::new();
        let mut i: usize = 0;
        while i < n
            invariant
                i <= n,
                selected@ =~= Seq::new(i as nat, |k: int| 0usize),
                answered@ =~= Seq::new(i as nat, |k: int| false),
                text::views(notes@) =~= Seq::new(i as nat, |k: int| Seq::<char>::empty()),
                cursors@ =~= Seq::new(i as nat, |k: int| 0usize),
            decreases n - i,
        {
            let ghost before = text::views(notes@);
            selected.push(0);
            answered.push(false);
            notes.push(String::new());
            cursors.push(0);
            assert(text::views(notes@) =~= before.push(Seq::<char>::empty()));
            i = i + 1;
        }
        self.user_input_selected = selected;
        self.user_input_answered = answered;
        self.user_input_notes = notes;
        self.user_input_note_cursors = cursors;
    }

    pub fn current_user_input_selected(&self) -> (r: usize)
        ensures
            r == (if self.user_input_question_index < self.user_input_selected@.len() {
                self.user_input_selected@[self.user_input_question_index as int]
            } else {
                0
            }),
    {
        if self.user_input_question_index < self.user_input_selected.len() {
            self.user_input_selected[self.user_input_question_index]
        } else {
            0
        }
    }

    pub fn current_user_input_note(&self) -> (r: String)
        ensures
            r@ == self.note(),
    {
        if self.user_input_question_index < self.user_input_notes.len() {
            self.user_input_notes[self.user_input_question_index].clone()
        } else {
            String::new()
        }
    }

    pub fn current_user_input_note_cursor(&self) -> (r: usize)
        ensures
            r == self.note_cursor(),
    {
        if self.user_input_question_index < self.user_input_note_cursors.len() {
            self.user_input_note_cursors[self.user_input_question_index]
        } else {
            0
        }
    }

    pub fn mark_current_user_input_answered(&mut self)
        ensures
            *final(self) == (UiState {
                user_input_answered: final(self).user_input_answered,
                ..*old(self)
            }),
            final(self).user_input_answered@ == (if old(self).user_input_question_index
                < old(self).user_input_answered@.len() {
                old(self).user_input_answered@.update(
                    old(self).user_input_question_index as int,
                    true,
                )
            } else {
                old(self).user_input_answered@
            }),
    {
        let i = self.user_input_question_index;
        if i < self.user_input_answered.len() {
            self.user_input_answered.set(i, true);
        }
    }

    pub fn user_input_unanswered_count(&self) -> (r: usize)
        ensures
            r == unanswered(self.user_input_answered@),
    {
        let mut n: usize = 0;
        let mut i: usize = 0;
        assert(self.user_input_answered@.take(0) =~= Seq::empty());
        while i < self.user_input_answered.len()
            invariant
                i <= self.user_input_answered@.len(),
                n <= i,
                n == unanswered(self.user_input_answered@.take(i as int)),
            decreases self.user_input_answered@.len() - i,
        {
            assert(self.user_input_answered@.take(i + 1).drop_last()
                =~= self.user_input_answered@.take(i as int));
            if !self.user_input_answered[i] {
                n = n + 1;
            }
            i = i + 1;
        }
        assert(self.user_input_answered@.take(self.user_input_answered@.len() as int)
            =~= self.user_input_answered@);
        n
    }

    fn find_unanswered(&self, from: usize) -> (r: Option<usize>)
        ensures
            match r {
                Some(i) => first_unanswered(self.user_input_answered@, from as int) == Some(
                    i as int,
                ),
                None => first_unanswered(self.user_input_answered@, from as int) is None,
            },
    {
        let mut i: usize = from;
        while i < self.user_input_answered.len()
            invariant
                first_unanswered(self.user_input_answered@, from as int) == first_unanswered(
                    self.user_input_answered@,
                    i as int,
                ),
            decreases self.user_input_answered@.len() - i,
        {
            if !self.user_input_answered[i] {
                return Some(i);
            }
            i = i + 1;
        }
        None
    }

    pub fn move_to_next_unanswered_user_input(&mut self)
        requires
            old(self).user_input_question_index < usize::MAX,
        ensures
            *final(self) == (UiState {
                user_input_question_index: next_question(
                    old(self).user_input_answered@,
                    old(self).user_input_question_index,
                ),
                user_input_note_mode: false,
                ..*old(self)
            }),
    {
        self.user_input_note_mode = false;
        match self.find_unanswered(self.user_input_question_index + 1) {
            Some(i) => {
                self.user_input_question_index = i;
            },
            None => match self.find_unanswered(0) {
                Some(i) => {
                    self.user_input_question_index = i;
                },
                None => {},
            },
        }
    }

    /// Whether the drawer asks questions.
    pub open spec fn asks_questions(&self) -> bool {
        self.user_input_question_index < self.user_input_selected@.len()
    }

    pub fn permission_select_prev(&mut self)
        ensures
            selection_set(
                *old(self),
                text::minus(old(self).selection() as int, 1),
                *final(self),
            ),
    {
        let i = self.user_input_question_index;
        if i < self.user_input_selected.len() {
            let at: usize = self.user_input_selected[i];
            self.user_input_selected.set(i, at.saturating_sub(1));
        } else {
            self.permission_selected = self.permission_selected.saturating_sub(1);
        }
    }

    pub fn permission_select_next_with_max(&mut self, max: usize)
        ensures
            selection_set(
                *old(self),
                if old(self).selection() < max {
                    old(self).selection() + 1
                } else {
                    max as int
                },
                *final(self),
            ),
    {
        let i = self.user_input_question_index;
        if i < self.user_input_selected.len() {
            let at: usize = self.user_input_selected[i];
            let next: usize = if at < max {
                at + 1
            } else {
                max
            };
            self.user_input_selected.set(i, next);
        } else {
            self.permission_selected = if self.permission_selected < max {
                self.permission_selected + 1
            } else {
                max
            };
        }
    }

    /// The option that is selected in the drawer.
    pub open spec fn selection(&self) -> usize {
        if self.asks_questions() {
            self.user_input_selected@[self.user_input_question_index as int]
        } else {
            self.permission_selected
        }
    }

    pub fn user_input_question_prev(&mut self)
        ensures
            *final(self) == (UiState {
                user_input_question_index: text::minus(
                    old(self).user_input_question_index as int,
                    1,
                ) as usize,
                ..*old(self)
            }),
    {
        self.user_input_question_index = self.user_input_question_index.saturating_sub(1);
    }

    pub fn user_input_question_next(&mut self)
        ensures
            *final(self) == (UiState {
                user_input_question_index: if old(self).user_input_question_index + 1
                    < old(self).user_input_answered@.len() {
                    (old(self).user_input_question_index + 1) as usize
                } else {
                    old(self).user_input_question_index
                },
                ..*old(self)
            }),
    {
        let n: usize = self.user_input_answered.len();
        if n > 0 && self.user_input_question_index < n - 1 {
            self.user_input_question_index = self.user_input_question_index + 1;
        }
    }

    pub fn permission_scroll_up(&mut self, lines: usize)
        ensures
            *final(self) == (UiState {
                permission_scroll_offset: text::min_int(
                    old(self).permission_scroll_offset + lines,
                    usize::MAX as int,
                ) as usize,
                ..*old(self)
            }),
    {
        self.permission_scroll_offset = self.permission_scroll_offset.saturating_add(lines);
    }

    pub fn permission_scroll_down(&mut self, lines: usize)
        ensures
            *final(self) == (UiState {
                permission_scroll_offset: text::minus(
                    old(self).permission_scroll_offset as int,
                    lines as int,
                ) as usize,
                ..*old(self)
            }),
    {
        self.permission_scroll_offset = self.permission_scroll_offset.saturating_sub(lines);
    }

    fn set_note(&mut self, note: String, cursor: usize)
        requires
            old(self).has_note(),
        ensures
            note_set(*old(self), note@, cursor as int, *final(self)),
    {
        let i = self.user_input_question_index;
        let ghost n = note@;
        self.user_input_notes.set(i, note);
        self.user_input_note_cursors.set(i, cursor);
        assert(text::views(self.user_input_notes@) =~= text::views(
            old(self).user_input_notes@,
        ).update(i as int, n));
    }

    /// Types `c` in the note of the current question.
    pub fn insert_note_char(&mut self, c: char)
        requires
            old(self).note_cursor() < usize::MAX,
        ensures
            if old(self).has_note() {
                note_set(
                    *old(self),
                    with_char(old(self).note(), old(self).note_cursor(), c),
                    text::min_int(old(self).note_cursor(), old(self).note().len() as int) + 1,
                    *final(self),
                )
            } else {
                *final(self) == *old(self)
            },
    {
        let i = self.user_input_question_index;
        if i < self.user_input_notes.len() && i < self.user_input_note_cursors.len() {
            let mut chars = text::chars_of(self.user_input_notes[i].as_str());
            let at = text::min_usize(self.user_input_note_cursors[i], chars.len());
            chars.insert(at, c);
            assert(chars@ =~= with_char(self.note(), self.note_cursor(), c));
            let note = text::string_of(&chars, 0, chars.len());
            assert(note@ =~= chars@);
            self.set_note(note, at + 1);
        }
    }

    /// Deletes the character before the cursor of the note.
    pub fn delete_note_before(&mut self)
        ensures
            if old(self).has_note() && 0 < old(self).note_cursor() <= old(self).note().len() {
                note_set(
                    *old(self),
                    old(self).note().remove(old(self).note_cursor() - 1),
                    old(self).note_cursor() - 1,
                    *final(self),
                )
            } else {
                *final(self) == *old(self)
            },
    {
        let i = self.user_input_question_index;
        if i < self.user_input_notes.len() && i < self.user_input_note_cursors.len() {
            let mut chars = text::chars_of(self.user_input_notes[i].as_str());
            let at: usize = self.user_input_note_cursors[i];
            if at > 0 && at <= chars.len() {
                let _gone = chars.remove(at - 1);
                let note = text::string_of(&chars, 0, chars.len());
                assert(note@ =~= self.note().remove(at - 1));
                self.set_note(note, at - 1);
            }
        }
    }

    /// Deletes the character behind the cursor of the note.
    pub fn delete_note_after(&mut self)
        ensures
            if old(self).has_note() && old(self).note_cursor() < old(self).note().len() {
                note_set(
                    *old(self),
                    old(self).note().remove(old(self).note_cursor()),
                    old(self).note_cursor(),
                    *final(self),
                )
            } else {
                *final(self) == *old(self)
            },
    {
        let i = self.user_input_question_index;
        if i < self.user_input_notes.len() && i < self.user_input_note_cursors.len() {
            let mut chars = text::chars_of(self.user_input_notes[i].as_str());
            let at: usize = self.user_input_note_cursors[i];
            if at < chars.len() {
                let _gone = chars.remove(at);
                let note = text::string_of(&chars, 0, chars.len());
                assert(note@ =~= self.note().remove(at as int));
                self.set_note(note, at);
            }
        }
    }

    fn set_note_cursor(&mut self, cursor: usize)
        ensures
            note_cursor_set(*old(self), cursor as int, *final(self)),
    {
        let i = self.user_input_question_index;
        if i < self.user_input_note_cursors.len() {
            self.user_input_note_cursors.set(i, cursor);
        }
    }

    pub fn note_cursor_left(&mut self)
        ensures
            note_cursor_set(
                *old(self),
                text::minus(old(self).note_cursor(), 1),
                *final(self),
            ),
    {
        let at: usize = self.current_user_input_note_cursor();
        self.set_note_cursor(at.saturating_sub(1));
    }

    pub fn note_cursor_right(&mut self)
        ensures
            note_cursor_set(
                *old(self),
                if old(self).note_cursor() < old(self).note().len() {
                    old(self).note_cursor() + 1
                } else {
                    old(self).note().len() as int
                },
                *final(self),
            ),
    {
        let at: usize = self.current_user_input_note_cursor();
        let note = self.current_user_input_note();
        let n: usize = text::char_count(note.as_str());
        self.set_note_cursor(if at < n {
            at + 1
        } else {
            n
        });
    }

    pub fn note_cursor_home(&mut self)
        ensures
            note_cursor_set(*old(self), 0, *final(self)),
    {
        self.set_note_cursor(0);
    }

    pub fn note_cursor_end(&mut self)
        ensures
            note_cursor_set(*old(self), old(self).note().len() as int, *final(self)),
    {
        let note = self.current_user_input_note();
        self.set_note_cursor(text::char_count(note.as_str()));
    }

    /// The tool that is asked about: the one with the least id among those that wait.
    pub open spec fn active_pause(&self) -> Option<ToolPauseRequest> {
        least_pause(self.pending_tool_previews@)
    }

    pub fn active_tool_pause(&self) -> (r: Option<&ToolPauseRequest>)
        ensures
            match r {
                Some(p) => self.active_pause() == Some(*p),
                None => self.active_pause() is None,
            },
    {
        let all = &self.pending_tool_previews;
        if all.len() == 0 {
            return None;
        }
        let mut best: usize = 0;
        let mut i: usize = 1;
        assert(all@.take(1).drop_last() =~= Seq::empty());
        assert(least_pause(all@.take(1).drop_last()) is None);
        while i < all.len()
            invariant
                1 <= i <= all@.len(),
                best < i,
                least_pause(all@.take(i as int)) == Some(all@[best as int]),
            decreases all@.len() - i,
        {
            assert(all@.take(i + 1).drop_last() =~= all@.take(i as int));
            if text::is_less(all[i].tool_use_id.as_str(), all[best].tool_use_id.as_str()) {
                best = i;
            }
            i = i + 1;
        }
        assert(all@.take(all@.len() as int) =~= all@);
        Some(&all[best])
    }
}

/// The request with the least tool use id; the first of several.
pub open spec fn least_pause(all: Seq<ToolPauseRequest>) -> Option<ToolPauseRequest>
    decreases all.len(),
{
    if all.len() == 0 {
        None
    } else {
        match least_pause(all.drop_last()) {
            Some(p) => if text::less(all.last().tool_use_id@, p.tool_use_id@) {
                Some(all.last())
            } else {
                Some(p)
            },
            None => Some(all.last()),
        }
    }
}

/// The option `to` selected in the drawer.
pub open spec fn selection_set(pre: UiState, to: int, post: UiState) -> bool {
    if pre.asks_questions() {
        &&& post == (UiState { user_input_selected: post.user_input_selected, ..pre })
        &&& post.user_input_selected@ == pre.user_input_selected@.update(
            pre.user_input_question_index as int,
            to as usize,
        )
    } else {
        post == (UiState { permission_selected: to as usize, ..pre })
    }
}

/// The cursor of the current note at `to`.
pub open spec fn note_cursor_set(pre: UiState, to: int, post: UiState) -> bool {
    if pre.user_input_question_index < pre.user_input_note_cursors@.len() {
        &&& post == (UiState { user_input_note_cursors: post.user_input_note_cursors, ..pre })
        &&& post.user_input_note_cursors@ == pre.user_input_note_cursors@.update(
            pre.user_input_question_index as int,
            to as usize,
        )
    } else {
        post == pre
    }
}

} // verus!
