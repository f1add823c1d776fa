//! The input editor.
use crate::text;
use crate::tui::state::atoms;
use crate::tui::state::atoms::Atom;
use crate::tui::state::lines;
use crate::tui::state::lines::InputVisualLine;
use crate::tui::state::InputImageAttachment;
use crate::tui::state::InputPasteMarker;
use crate::tui::state::UiState;
use crate::tui::state::INPUT_PROMPT_WIDTH;
use crate::tui::state::MAX_INPUT_VISIBLE_LINES;
use crate::width;
use vstd::prelude::*;

verus! {

impl Atom for InputPasteMarker {
    open spec fn lo(&self) -> usize {
        self.start_char
    }

    open spec fn hi(&self) -> usize {
        self.end_char
    }

    open spec fn placed(self, lo: usize, hi: usize) -> Self {
        InputPasteMarker { start_char: lo, end_char: hi, ..self }
    }

    proof fn placed_range(self, lo: usize, hi: usize) {
    }

    fn range(&self) -> (r: (usize, usize)) {
        (self.start_char, self.end_char)
    }

    fn place(self, lo: usize, hi: usize) -> (r: Self) {
        InputPasteMarker {
            start_char: lo,
            end_char: hi,
            marker: self.marker,
            full_text: self.full_text,
            full_char_count: self.full_char_count,
        }
    }
}

impl Atom for InputImageAttachment {
    open spec fn lo(&self) -> usize {
        self.start_char
    }

    open spec fn hi(&self) -> usize {
        self.end_char
    }

    open spec fn placed(self, lo: usize, hi: usize) -> Self {
        InputImageAttachment { start_char: lo, end_char: hi, ..self }
    }

    proof fn placed_range(self, lo: usize, hi: usize) {
    }

    fn range(&self) -> (r: (usize, usize)) {
        (self.start_char, self.end_char)
    }

    fn place(self, lo: usize, hi: usize) -> (r: Self) {
        InputImageAttachment {
            start_char: lo,
            end_char: hi,
            marker: self.marker,
            source_path: self.source_path,
            file_name: self.file_name,
        }
    }
}

/// The columns of a line of the input next to the prompt.
pub open spec fn line_capacity(wrap_width: int) -> int {
    text::max_int(text::minus(wrap_width, INPUT_PROMPT_WIDTH as int), 1)
}

/// How many of `count` lines are shown at once.
pub open spec fn shown_lines(count: int) -> int {
    text::min_int(text::max_int(count, 1), MAX_INPUT_VISIBLE_LINES as int)
}

/// The first shown line, moved as little as needed from `scroll` for `line` to be shown and no
/// room to be left below the last line.
pub open spec fn scrolled(scroll: int, line: int, shown: int, count: int) -> int {
    let s = if line < scroll {
        line
    } else if line >= scroll + shown {
        line + 1 - shown
    } else {
        scroll
    };
    text::min_int(s, text::minus(count, shown))
}

/// The first shown line after bringing the cursor into view.
pub open spec fn settled(chars: Seq<char>, capacity: int, cursor: int, scroll: int) -> int {
    let all = lines::visual_lines(chars, capacity);
    scrolled(scroll, lines::line_of(all, cursor, 0), shown_lines(all.len() as int), all.len() as int)
}

/// Bringing the cursor into view shows its line.
pub proof fn law_cursor_stays_in_view(chars: Seq<char>, capacity: int, cursor: int, scroll: int)
    requires
        0 <= scroll,
    ensures
        ({
            let all = lines::visual_lines(chars, capacity);
            let s = settled(chars, capacity, cursor, scroll);
            &&& 0 <= s <= lines::line_of(all, cursor, 0) < s + shown_lines(all.len() as int)
            &&& s + shown_lines(all.len() as int) <= all.len()
        }),
{
    lines::lemma_line_of(lines::visual_lines(chars, capacity), cursor, 0);
}

/// Bringing the cursor into view twice is bringing it into view once.
pub proof fn lemma_settled_twice(chars: Seq<char>, capacity: int, cursor: int, scroll: int)
    requires
        0 <= scroll,
    ensures
        settled(chars, capacity, cursor, settled(chars, capacity, cursor, scroll)) == settled(
            chars,
            capacity,
            cursor,
            scroll,
        ),
{
    lines::lemma_line_of(lines::visual_lines(chars, capacity), cursor, 0);
}

/// `s` with `new` in place of the characters from `start` to `end`; positions behind the end
/// of `s` stand for its end.
pub open spec fn replaced(s: Seq<char>, start: int, end: int, new: Seq<char>) -> Seq<char> {
    s.take(text::min_int(start, s.len() as int)) + new + s.skip(text::min_int(end, s.len() as int))
}

/// The ranges of all atoms of the input: mentions, images, pasted texts.
pub open spec fn ranges<T: Atom>(atoms: Seq<T>) -> Seq<(usize, usize)> {
    Seq::new(atoms.len(), |i: int| (atoms[i].lo(), atoms[i].hi()))
}

/// The range with the greatest start among those that `cursor` is in or right behind.
pub open spec fn atom_before(all: Seq<(usize, usize)>, cursor: int) -> Option<(usize, usize)>
    decreases all.len(),
{
    if all.len() == 0 {
        None
    } else {
        let best = atom_before(all.drop_last(), cursor);
        let r = all.last();
        if r.0 < cursor <= r.1 && (best is None || r.0 >= (best->0).0) {
            Some(r)
        } else {
            best
        }
    }
}

/// The range with the least start among those that `cursor` is in or right before.
pub open spec fn atom_after(all: Seq<(usize, usize)>, cursor: int) -> Option<(usize, usize)>
    decreases all.len(),
{
    if all.len() == 0 {
        None
    } else {
        let best = atom_after(all.drop_last(), cursor);
        let r = all.last();
        if r.0 <= cursor < r.1 && (best is None || r.0 < (best->0).0) {
            Some(r)
        } else {
            best
        }
    }
}

pub proof fn lemma_atom_before(all: Seq<(usize, usize)>, cursor: int)
    ensures
        match atom_before(all, cursor) {
            Some(r) => all.contains(r) && r.0 < cursor <= r.1 && forall|i: int|
                0 <= i < all.len() && (#[trigger] all[i]).0 < cursor <= all[i].1 ==> all[i].0
                    <= r.0,
            None => forall|i: int|
                0 <= i < all.len() ==> !((#[trigger] all[i]).0 < cursor <= all[i].1),
        },
    decreases all.len(),
{
    if all.len() > 0 {
        let d = all.drop_last();
        lemma_atom_before(d, cursor);
        assert forall|i: int| 0 <= i < d.len() implies all[i] == d[i] by {}
        match atom_before(d, cursor) {
            Some(r) => {
                let k = choose|k: int| 0 <= k < d.len() && d[k] == r;
                assert(all[k] == r);
            },
            None => {},
        }
        assert(all[all.len() - 1] == all.last());
        match atom_before(all, cursor) {
            Some(r) => {
                assert forall|i: int|
                    0 <= i < all.len() && (#[trigger] all[i]).0 < cursor <= all[i].1 implies all[i].0
                    <= r.0 by {
                    if i < d.len() {
                        assert(d[i] == all[i]);
                    }
                }
            },
            None => {
                assert forall|i: int| 0 <= i < all.len() implies !((#[trigger] all[i]).0 < cursor
                    <= all[i].1) by {
                    if i < d.len() {
                        assert(d[i] == all[i]);
                    }
                }
            },
        }
    }
}

pub proof fn lemma_atom_after(all: Seq<(usize, usize)>, cursor: int)
    ensures
        match atom_after(all, cursor) {
            Some(r) => all.contains(r) && r.0 <= cursor < r.1 && forall|i: int|
                0 <= i < all.len() && (#[trigger] all[i]).0 <= cursor < all[i].1 ==> all[i].0
                    >= r.0,
            None => forall|i: int|
                0 <= i < all.len() ==> !((#[trigger] all[i]).0 <= cursor < all[i].1),
        },
    decreases all.len(),
{
    if all.len() > 0 {
        let d = all.drop_last();
        lemma_atom_after(d, cursor);
        match atom_after(d, cursor) {
            Some(r) => {
                let k = choose|k: int| 0 <= k < d.len() && d[k] == r;
                assert(all[k] == r);
            },
            None => {},
        }
        assert(all[all.len() - 1] == all.last());
        match atom_after(all, cursor) {
            Some(r) => {
                assert forall|i: int|
                    0 <= i < all.len() && (#[trigger] all[i]).0 <= cursor < all[i].1 implies all[i].0
                    >= r.0 by {
                    if i < d.len() {
                        assert(d[i] == all[i]);
                    }
                }
            },
            None => {
                assert forall|i: int| 0 <= i < all.len() implies !((#[trigger] all[i]).0 <= cursor
                    < all[i].1) by {
                    if i < d.len() {
                        assert(d[i] == all[i]);
                    }
                }
            },
        }
    }
}

/// Whether `post` differs from `pre` in nothing but what the editor owns.
pub open spec fn only_editor(pre: UiState, post: UiState) -> bool {
    post == (UiState {
        input: post.input,
        input_mentions: post.input_mentions,
        input_images: post.input_images,
        input_paste_markers: post.input_paste_markers,
        input_scroll_line: post.input_scroll_line,
        cursor_char: post.cursor_char,
        ..pre
    })
}

/// The input and its atoms after `new` has replaced `start..end`.
pub open spec fn text_edited(
    pre: UiState,
    start: int,
    end: int,
    new: Seq<char>,
    post: UiState,
) -> bool {
    &&& post.input@ == replaced(pre.input@, start, end, new)
    &&& post.input_mentions@ == atoms::edited_atoms(
        pre.input_mentions@,
        start,
        end - start,
        new.len() as int,
    )
    &&& post.input_images@ == atoms::edited_atoms(
        pre.input_images@,
        start,
        end - start,
        new.len() as int,
    )
    &&& post.input_paste_markers@ == atoms::edited_atoms(
        pre.input_paste_markers@,
        start,
        end - start,
        new.len() as int,
    )
}

/// The cursor at `cursor`, in view.
pub open spec fn cursor_moved(pre: UiState, cursor: int, post: UiState) -> bool {
    &&& post.cursor_char == cursor
    &&& post.input_scroll_line == settled(
        post.input@,
        line_capacity(pre.input_wrap_width as int),
        cursor,
        pre.input_scroll_line as int,
    )
}

/// Nothing but the cursor moves.
pub open spec fn just_moved(pre: UiState, cursor: int, post: UiState) -> bool {
    &&& post == (UiState {
        cursor_char: post.cursor_char,
        input_scroll_line: post.input_scroll_line,
        ..pre
    })
    &&& cursor_moved(pre, cursor, post)
}

/// `new` typed at the cursor.
pub open spec fn text_inserted(pre: UiState, new: Seq<char>, post: UiState) -> bool {
    if new.len() == 0 {
        post == pre
    } else {
        &&& only_editor(pre, post)
        &&& text_edited(pre, pre.cursor_char as int, pre.cursor_char as int, new, post)
        &&& cursor_moved(pre, pre.cursor_char + new.len(), post)
    }
}

/// The atom `start..end` deleted, the cursor put where it was.
pub open spec fn atom_deleted(pre: UiState, start: int, end: int, post: UiState) -> bool {
    let capacity = line_capacity(pre.input_wrap_width as int);
    &&& only_editor(pre, post)
    &&& text_edited(pre, start, end, Seq::empty(), post)
    &&& post.cursor_char == start
    &&& post.input_scroll_line == settled(
        post.input@,
        capacity,
        start,
        settled(post.input@, capacity, pre.cursor_char as int, pre.input_scroll_line as int),
    )
}

/// The effect of the backspace key.
pub open spec fn deleted_before(pre: UiState, post: UiState) -> bool {
    if pre.cursor_char == 0 {
        post == pre
    } else {
        match atom_before(pre.atom_ranges(), pre.cursor_char as int) {
            Some((start, end)) => atom_deleted(pre, start as int, end as int, post),
            None => {
                &&& only_editor(pre, post)
                &&& text_edited(
                    pre,
                    pre.cursor_char - 1,
                    pre.cursor_char as int,
                    Seq::empty(),
                    post,
                )
                &&& cursor_moved(pre, pre.cursor_char - 1, post)
            },
        }
    }
}

/// The effect of the delete key.
pub open spec fn deleted_after(pre: UiState, post: UiState) -> bool {
    match atom_after(pre.atom_ranges(), pre.cursor_char as int) {
        Some((start, end)) => atom_deleted(pre, start as int, end as int, post),
        None => if pre.cursor_char < pre.input@.len() {
            &&& only_editor(pre, post)
            &&& text_edited(pre, pre.cursor_char as int, pre.cursor_char + 1, Seq::empty(), post)
            &&& cursor_moved(pre, pre.cursor_char as int, post)
        } else {
            post == pre
        },
    }
}

/// Where the cursor goes to the left: over a whole atom, else one character.
pub open spec fn left_of(pre: UiState) -> int {
    match atom_before(pre.atom_ranges(), pre.cursor_char as int) {
        Some((start, _)) => start as int,
        None => text::minus(pre.cursor_char as int, 1),
    }
}

/// Where the cursor goes to the right: over a whole atom, else one character.
pub open spec fn right_of(pre: UiState) -> int {
    match atom_after(pre.atom_ranges(), pre.cursor_char as int) {
        Some((_, end)) => end as int,
        None => if pre.cursor_char < pre.input@.len() {
            pre.cursor_char + 1
        } else {
            pre.cursor_char as int
        },
    }
}

/// The input broken into lines of another width, at least one column, with the cursor in sight.
pub open spec fn wrap_width_set(pre: UiState, width: int, post: UiState) -> bool {
    let w = text::max_int(width, 1) as usize;
    if w == pre.input_wrap_width {
        post == pre
    } else {
        &&& post == (UiState {
            input_wrap_width: w,
            input_scroll_line: post.input_scroll_line,
            ..pre
        })
        &&& post.input_scroll_line == settled(
            pre.input@,
            line_capacity(w as int),
            pre.cursor_char as int,
            pre.input_scroll_line as int,
        )
    }
}

impl UiState {
    pub open spec fn atom_ranges(&self) -> Seq<(usize, usize)> {
        ranges(self.input_mentions@) + ranges(self.input_images@) + ranges(self.input_paste_markers@)
    }

    pub open spec fn capacity(&self) -> int {
        line_capacity(self.input_wrap_width as int)
    }

    /// The lines of the input on the screen.
    pub open spec fn shown_input(&self) -> Seq<InputVisualLine> {
        lines::visual_lines(self.input@, self.capacity())
    }

    /// The line of the cursor, and its column.
    pub open spec fn cursor_place(&self) -> (int, int) {
        let all = self.shown_input();
        let i = lines::line_of(all, self.cursor_char as int, 0);
        let line = all[i];
        let to = if line.start_char <= self.cursor_char <= line.end_char {
            self.cursor_char as int
        } else {
            line.end_char as int
        };
        (i, width::capped_columns(self.input@.subrange(line.start_char as int, to)))
    }

    /// The cursor and every atom are within the input.
    pub open spec fn input_ok(&self) -> bool {
        &&& self.cursor_char <= self.input@.len() <= usize::MAX
        &&& atoms::atoms_within(self.input_mentions@, self.input@.len() as int)
        &&& atoms::atoms_within(self.input_images@, self.input@.len() as int)
        &&& atoms::atoms_within(self.input_paste_markers@, self.input@.len() as int)
    }

    /// The number of bytes in front of a character of the input.
    pub fn char_to_byte(&self, char_idx: usize) -> (r: usize)
        ensures
            r == vstd::utf8::encode_utf8(
                text::first_chars(self.input@, char_idx as int),
            ).len() as usize,
    {
        let head = text::take_chars(self.input.as_str(), char_idx);
        head.as_str().len()
    }

    pub fn input_visual_line_prefix_width(&self, line_idx: usize) -> (r: usize)
        ensures
            r == INPUT_PROMPT_WIDTH,
    {
        INPUT_PROMPT_WIDTH
    }

    fn input_visual_line_capacity(&self, line_idx: usize) -> (r: usize)
        ensures
            r == self.capacity(),
            r < usize::MAX,
    {
        text::max_usize(
            self.input_wrap_width.saturating_sub(self.input_visual_line_prefix_width(line_idx)),
            1,
        )
    }

    pub fn input_visual_lines(&self) -> (r: Vec<InputVisualLine>)
        ensures
            r@ == self.shown_input(),
            r@.len() >= 1,
    {
        let chars = text::chars_of(self.input.as_str());
        lines::break_lines(&chars, self.input_visual_line_capacity(0))
    }

    pub fn input_line_bounds(&self) -> (r: Vec<(usize, usize)>)
        ensures
            r@ == Seq::new(
                self.shown_input().len(),
                |i: int| (self.shown_input()[i].start_char, self.shown_input()[i].end_char),
            ),
    {
        let all = self.input_visual_lines();
        let mut out: Vec<(usize, usize)> = Vec::new();
        let mut i: usize = 0;
        while i < all.len()
            invariant
                all@ == self.shown_input(),
                i <= all@.len(),
                out@.len() == i,
                forall|k: int|
                    0 <= k < i ==> out@[k] == (all@[k].start_char, all@[k].end_char),
            decreases all@.len() - i,
        {
            out.push((all[i].start_char, all[i].end_char));
            i = i + 1;
        }
        out
    }

    pub fn input_line_count(&self) -> (r: usize)
        ensures
            r == self.shown_input().len(),
            r >= 1,
    {
        self.input_visual_lines().len()
    }

    pub fn input_visible_line_count(&self) -> (r: usize)
        ensures
            r == shown_lines(self.shown_input().len() as int),
            1 <= r <= MAX_INPUT_VISIBLE_LINES,
    {
        let n: usize = self.input_line_count();
        text::min_usize(text::max_usize(n, 1), MAX_INPUT_VISIBLE_LINES)
    }

    /// The columns of the characters of the input from `start` to `end`.
    pub fn input_display_width(&self, start: usize, end: usize) -> (r: usize)
        ensures
            ({
                let n = self.input@.len() as int;
                let from = text::min_int(start as int, n);
                r == width::capped_columns(
                    self.input@.subrange(
                        from,
                        text::max_int(from, text::min_int(end as int, n)),
                    ),
                )
            }),
    {
        let chars = text::chars_of(self.input.as_str());
        let from = text::min_usize(start, chars.len());
        let to = text::max_usize(from, text::min_usize(end, chars.len()));
        width::columns_of(&chars, from, to)
    }

    /// The line of the cursor on the screen, and its column there.
    pub fn input_cursor_line_col(&self) -> (r: Option<(usize, usize)>)
        ensures
            match r {
                Some((line, col)) => (line as int, col as int) == self.cursor_place() && line
                    < self.shown_input().len(),
                None => false,
            },
    {
        let all = self.input_visual_lines();
        let i = lines::find_line(&all, self.cursor_char);
        let line = all[i];
        let _count: usize = text::char_count(self.input.as_str());
        proof {
            lines::lemma_lines_partition(self.input@, self.capacity());
            assert(all@[i as int].start_char <= all@[i as int].end_char);
        }
        let to = if line.start_char <= self.cursor_char && self.cursor_char <= line.end_char {
            self.cursor_char
        } else {
            line.end_char
        };
        Some((i, self.input_display_width(line.start_char, to)))
    }

    /// Moves the shown part of the input so that the cursor is in it.
    pub fn ensure_input_cursor_visible(&mut self)
        ensures
            *final(self) == (UiState {
                input_scroll_line: final(self).input_scroll_line,
                ..*old(self)
            }),
            final(self).input_scroll_line == settled(
                old(self).input@,
                old(self).capacity(),
                old(self).cursor_char as int,
                old(self).input_scroll_line as int,
            ),
    {
        let all = self.input_visual_lines();
        let line_idx = lines::find_line(&all, self.cursor_char);
        let count: usize = all.len();
        let visible = text::min_usize(text::max_usize(count, 1), MAX_INPUT_VISIBLE_LINES);
        let mut scroll: usize = self.input_scroll_line;
        if line_idx < scroll {
            scroll = line_idx;
        } else if line_idx - scroll >= visible {
            scroll = line_idx + 1 - visible;
        }
        self.input_scroll_line = text::min_usize(scroll, count.saturating_sub(visible));
    }

    pub fn set_input_wrap_width(&mut self, width: usize)
        ensures
            wrap_width_set(*old(self), width as int, *final(self)),
    {
        let w = text::max_usize(width, 1);
        if self.input_wrap_width != w {
            self.input_wrap_width = w;
            self.ensure_input_cursor_visible();
        }
    }

    /// Puts `new` in place of `start..end` of the input and keeps the atoms in step.
    pub(crate) fn replace_input(&mut self, start: usize, end: usize, new: &str)
        requires
            start <= end,
        ensures
            only_editor(*old(self), *final(self)),
            text_edited(*old(self), start as int, end as int, new@, *final(self)),
            final(self).cursor_char == old(self).cursor_char,
            final(self).input_scroll_line == old(self).input_scroll_line,
    {
        let chars = text::chars_of(self.input.as_str());
        let n: usize = chars.len();
        let from = text::min_usize(start, n);
        let to = text::min_usize(end, n);
        let mut out = text::string_of(&chars, 0, from);
        let tail = text::string_of(&chars, to, n);
        out.push_str(new);
        out.push_str(tail.as_str());
        assert(out@ =~= replaced(self.input@, start as int, end as int, new@));
        let new_len: usize = text::char_count(new);
        self.input = out;
        atoms::edit_atoms(&mut self.input_mentions, start, end - start, new_len);
        atoms::edit_atoms(&mut self.input_images, start, end - start, new_len);
        atoms::edit_atoms(&mut self.input_paste_markers, start, end - start, new_len);
    }

    /// Types `text` at the cursor.
    pub fn insert_text(&mut self, text: &str)
        requires
            old(self).cursor_char + text@.len() <= usize::MAX,
        ensures
            text_inserted(*old(self), text@, *final(self)),
    {
        let n: usize = crate::text::char_count(text);
        if n == 0 {
            return;
        }
        let at = self.cursor_char;
        self.replace_input(at, at, text);
        self.cursor_char = at + n;
        self.ensure_input_cursor_visible();
    }

    fn list_atoms(&self) -> (r: Vec<(usize, usize)>)
        ensures
            r@ == self.atom_ranges(),
    {
        let mut out: Vec<(usize, usize)> = Vec::new();
        push_ranges(&self.input_mentions, &mut out);
        push_ranges(&self.input_images, &mut out);
        push_ranges(&self.input_paste_markers, &mut out);
        assert(out@ =~= self.atom_ranges());
        out
    }

    fn input_atom_before_cursor(&self) -> (r: Option<(usize, usize)>)
        ensures
            r == atom_before(self.atom_ranges(), self.cursor_char as int),
    {
        let all = self.list_atoms();
        let mut best: Option<(usize, usize)> = None;
        let mut i: usize = 0;
        assert(all@.take(0) =~= Seq::empty());
        while i < all.len()
            invariant
                i <= all@.len(),
                best == atom_before(all@.take(i as int), self.cursor_char as int),
            decreases all@.len() - i,
        {
            let (lo, hi) = all[i];
            assert(all@.take(i + 1).drop_last() =~= all@.take(i as int));
            if lo < self.cursor_char && self.cursor_char <= hi {
                match best {
                    Some((b, _)) => {
                        if lo >= b {
                            best = Some((lo, hi));
                        }
                    },
                    None => {
                        best = Some((lo, hi));
                    },
                }
            }
            i = i + 1;
        }
        assert(all@.take(all@.len() as int) =~= all@);
        best
    }

    fn input_atom_after_cursor(&self) -> (r: Option<(usize, usize)>)
        ensures
            r == atom_after(self.atom_ranges(), self.cursor_char as int),
    {
        let all = self.list_atoms();
        let mut best: Option<(usize, usize)> = None;
        let mut i: usize = 0;
        assert(all@.take(0) =~= Seq::empty());
        while i < all.len()
            invariant
                i <= all@.len(),
                best == atom_after(all@.take(i as int), self.cursor_char as int),
            decreases all@.len() - i,
        {
            let (lo, hi) = all[i];
            assert(all@.take(i + 1).drop_last() =~= all@.take(i as int));
            if lo <= self.cursor_char && self.cursor_char < hi {
                match best {
                    Some((b, _)) => {
                        if lo < b {
                            best = Some((lo, hi));
                        }
                    },
                    None => {
                        best = Some((lo, hi));
                    },
                }
            }
            i = i + 1;
        }
        assert(all@.take(all@.len() as int) =~= all@);
        best
    }

    fn delete_atom(&mut self, start: usize, end: usize)
        requires
            start <= end,
        ensures
            atom_deleted(*old(self), start as int, end as int, *final(self)),
    {
        self.replace_input(start, end, "");
        proof {
            reveal_strlit("");
            assert(""@ =~= Seq::<char>::empty());
        }
        self.ensure_input_cursor_visible();
        self.cursor_char = start;
        self.ensure_input_cursor_visible();
    }

    /// Deletes the atom that the cursor is in or behind, else the character before it.
    pub fn delete_before(&mut self)
        requires
            old(self).cursor_char <= old(self).input@.len() || atom_before(
                old(self).atom_ranges(),
                old(self).cursor_char as int,
            ) is Some,
        ensures
            deleted_before(*old(self), *final(self)),
    {
        proof {
            lemma_atom_before(self.atom_ranges(), self.cursor_char as int);
        }
        if self.cursor_char > 0 {
            match self.input_atom_before_cursor() {
                Some((start, end)) => {
                    self.delete_atom(start, end);
                },
                None => {
                    let at: usize = self.cursor_char - 1;
                    self.replace_input(at, at + 1, "");
                    proof {
                        reveal_strlit("");
                        assert(""@ =~= Seq::<char>::empty());
                    }
                    self.cursor_char = at;
                    self.ensure_input_cursor_visible();
                },
            }
        }
    }

    /// Deletes the atom that the cursor is in or before, else the character behind it.
    pub fn delete_after(&mut self)
        ensures
            deleted_after(*old(self), *final(self)),
    {
        proof {
            lemma_atom_after(self.atom_ranges(), self.cursor_char as int);
        }
        match self.input_atom_after_cursor() {
            Some((start, end)) => {
                self.delete_atom(start, end);
            },
            None => {
                let n: usize = text::char_count(self.input.as_str());
                if self.cursor_char < n {
                    let at = self.cursor_char;
                    self.replace_input(at, at + 1, "");
                    proof {
                        reveal_strlit("");
                        assert(""@ =~= Seq::<char>::empty());
                    }
                    self.ensure_input_cursor_visible();
                }
            },
        }
    }

    pub fn cursor_left(&mut self)
        ensures
            just_moved(*old(self), left_of(*old(self)), *final(self)),
    {
        match self.input_atom_before_cursor() {
            Some((start, _)) => {
                self.cursor_char = start;
            },
            None => {
                self.cursor_char = self.cursor_char.saturating_sub(1);
            },
        }
        self.ensure_input_cursor_visible();
    }

    pub fn cursor_right(&mut self)
        ensures
            just_moved(*old(self), right_of(*old(self)), *final(self)),
    {
        match self.input_atom_after_cursor() {
            Some((_, end)) => {
                self.cursor_char = end;
            },
            None => {
                let n: usize = text::char_count(self.input.as_str());
                if self.cursor_char < n {
                    self.cursor_char = self.cursor_char + 1;
                }
            },
        }
        self.ensure_input_cursor_visible();
    }

    pub fn cursor_home(&mut self)
        ensures
            just_moved(*old(self), 0, *final(self)),
    {
        self.cursor_char = 0;
        self.ensure_input_cursor_visible();
    }

    pub fn cursor_end(&mut self)
        ensures
            just_moved(*old(self), old(self).input@.len() as int, *final(self)),
    {
        self.cursor_char = text::char_count(self.input.as_str());
        self.ensure_input_cursor_visible();
    }

    /// The position in line `target_line` that is closest to column `target_col` from the right.
    pub open spec fn position_in_line(&self, target_line: int, target_col: int) -> int {
        let all = self.shown_input();
        if 0 <= target_line < all.len() {
            lines::position_at(
                self.input@,
                all[target_line].start_char as int,
                all[target_line].end_char as int,
                target_col,
            )
        } else {
            self.input@.len() as int
        }
    }

    fn input_line_col_to_char(&self, target_line: usize, target_col: usize) -> (r: usize)
        ensures
            r == self.position_in_line(target_line as int, target_col as int),
    {
        let all = self.input_visual_lines();
        let chars = text::chars_of(self.input.as_str());
        if target_line < all.len() {
            let line = all[target_line];
            let _count: usize = chars.len();
            proof {
                lines::lemma_lines_partition(self.input@, self.capacity());
                assert(all@[target_line as int].start_char <= all@[target_line as int].end_char);
            }
            lines::find_position(&chars, line.start_char, line.end_char, target_col)
        } else {
            chars.len()
        }
    }

    /// Moves the cursor up one line of the input; says whether there was one.
    pub fn cursor_up_in_input(&mut self) -> (r: bool)
        ensures
            r == (old(self).cursor_place().0 > 0),
            !r ==> *final(self) == *old(self),
            r ==> just_moved(
                *old(self),
                old(self).position_in_line(
                    old(self).cursor_place().0 - 1,
                    old(self).cursor_place().1,
                ),
                *final(self),
            ),
    {
        match self.input_cursor_line_col() {
            Some((line_idx, col)) => {
                if line_idx == 0 {
                    return false;
                }
                self.cursor_char = self.input_line_col_to_char(line_idx - 1, col);
                self.ensure_input_cursor_visible();
                true
            },
            None => false,
        }
    }

    /// Moves the cursor down one line of the input; says whether there was one.
    pub fn cursor_down_in_input(&mut self) -> (r: bool)
        ensures
            r == (old(self).cursor_place().0 + 1 < old(self).shown_input().len()),
            !r ==> *final(self) == *old(self),
            r ==> just_moved(
                *old(self),
                old(self).position_in_line(
                    old(self).cursor_place().0 + 1,
                    old(self).cursor_place().1,
                ),
                *final(self),
            ),
    {
        match self.input_cursor_line_col() {
            Some((line_idx, col)) => {
                let line_count: usize = self.input_line_count();
                if line_idx + 1 >= line_count {
                    return false;
                }
                self.cursor_char = self.input_line_col_to_char(line_idx + 1, col);
                self.ensure_input_cursor_visible();
                true
            },
            None => false,
        }
    }
}

fn push_ranges<T: Atom>(atoms: &Vec<T>, out: &mut Vec<(usize, usize)>)
    ensures
        final(out)@ == old(out)@ + ranges(atoms@),
{
    let ghost before = out@;
    let mut i: usize = 0;
    while i < atoms.len()
        invariant
            i <= atoms@.len(),
            out@ =~= before + ranges(atoms@).take(i as int),
        decreases atoms@.len() - i,
    {
        out.push(atoms[i].range());
        i = i + 1;
    }
}

} // verus!
