//! Mentions: references in the input to files, directories, agents and commands.
use crate::text;
use crate::tui::state::atoms::Atom;
use crate::types::display::DisplayMention;
use crate::types::display::MentionKind;
use vstd::prelude::*;

verus! {

/// A mention in the input.
#[derive(Debug, PartialEq, Eq)]
pub struct InputMention {
    pub start_char: usize,
    pub end_char: usize,
    pub kind: MentionKind,
    pub label: String,
    pub target: String,
    pub description: String,
}

impl Atom for InputMention {
    open spec fn lo(&self) -> usize {
        self.start_char
    }

    open spec fn hi(&self) -> usize {
        self.end_char
    }

    open spec fn placed(self, lo: usize, hi: usize) -> Self {
        InputMention { start_char: lo, end_char: hi, ..self }
    }

    proof fn placed_range(self, lo: usize, hi: usize) {
    }

    fn range(&self) -> (r: (usize, usize)) {
        (self.start_char, self.end_char)
    }

    fn place(self, lo: usize, hi: usize) -> (r: Self) {
        InputMention {
            start_char: lo,
            end_char: hi,
            kind: self.kind,
            label: self.label,
            target: self.target,
            description: self.description,
        }
    }
}

impl InputMention {
    pub open spec fn displayed(self) -> DisplayMention {
        DisplayMention {
            start_char: self.start_char,
            end_char: self.end_char,
            kind: self.kind,
            label: self.label,
            target: self.target,
            description: self.description,
        }
    }

    pub fn display_mention(&self) -> (r: DisplayMention)
        ensures
            r == self.displayed(),
    {
        DisplayMention {
            start_char: self.start_char,
            end_char: self.end_char,
            kind: self.kind,
            label: self.label.clone(),
            target: self.target.clone(),
            description: self.description.clone(),
        }
    }
}

/// Something that can be mentioned.
#[derive(Debug, PartialEq, Eq)]
pub struct MentionCandidate {
    pub kind: MentionKind,
    pub label: String,
    pub target: String,
    pub description: String,
}

impl Clone for MentionCandidate {
    fn clone(&self) -> (r: Self)
        ensures
            r == *self,
    {
        MentionCandidate {
            kind: self.kind,
            label: self.label.clone(),
            target: self.target.clone(),
            description: self.description.clone(),
        }
    }
}

impl MentionCandidate {
    /// How the candidate is written in the input.
    pub fn insert_display(&self) -> (r: String)
        ensures
            r@ == seq!['@'] + self.label@,
    {
        let mut out = String::new();
        out.push('@');
        out.push_str(self.label.as_str());
        assert(out@ =~= seq!['@'] + self.label@);
        out
    }

    pub fn is_directory(&self) -> (r: bool)
        ensures
            r == (self.kind == MentionKind::Directory),
    {
        self.kind == MentionKind::Directory
    }
}

/// The list of candidates offered while a mention is typed.
#[derive(Debug, PartialEq, Eq)]
pub struct MentionAutocomplete {
    pub visible: bool,
    pub candidates: Vec<MentionCandidate>,
    pub filtered: Vec<MentionCandidate>,
    pub selected: usize,
    pub active_start: usize,
    pub active_end: usize,
    /// The directory that relative candidates are seen from.
    pub cwd: String,
}

/// Where the mention that ends at `at` starts: at the last `@` before it with no white space
/// in between, if that `@` is at the start of a word.
pub open spec fn mention_start(input: Seq<char>, at: int) -> Option<int>
    decreases at,
{
    if at <= 0 || at > input.len() || text::white(input[at - 1]) {
        None
    } else if input[at - 1] == '@' {
        if at == 1 || text::white(input[at - 2]) {
            Some(at - 1)
        } else {
            None
        }
    } else {
        mention_start(input, at - 1)
    }
}

/// The first `n` candidates whose label holds what has been typed, upper and lower case alike.
pub open spec fn mention_matches(
    candidates: Seq<MentionCandidate>,
    typed: Seq<char>,
    n: int,
) -> Seq<MentionCandidate>
    decreases n,
{
    if n <= 0 {
        Seq::empty()
    } else {
        let before = mention_matches(candidates, typed, n - 1);
        if text::occurs(
            text::ascii_lowered(candidates[n - 1].label@),
            text::ascii_lowered(typed),
        ) {
            before.push(candidates[n - 1])
        } else {
            before
        }
    }
}

/// The list after the input has become `input` with the cursor at `cursor`.
pub open spec fn mentions_for(
    pre: MentionAutocomplete,
    input: Seq<char>,
    cursor: int,
    post: MentionAutocomplete,
) -> bool {
    match mention_start(input, cursor) {
        Some(start) => {
            let list = mention_matches(
                pre.candidates@,
                input.subrange(start + 1, cursor),
                pre.candidates@.len() as int,
            );
            &&& post == (MentionAutocomplete {
                visible: list.len() > 0,
                filtered: post.filtered,
                selected: 0,
                active_start: start as usize,
                active_end: cursor as usize,
                ..pre
            })
            &&& post.filtered@ == list
        },
        None => {
            &&& post == (MentionAutocomplete {
                visible: false,
                filtered: post.filtered,
                selected: 0,
                ..pre
            })
            &&& post.filtered@.len() == 0
        },
    }
}

/// The list put away.
pub open spec fn mentions_closed(pre: MentionAutocomplete, post: MentionAutocomplete) -> bool {
    &&& post == (MentionAutocomplete {
        visible: false,
        filtered: post.filtered,
        selected: 0,
        ..pre
    })
    &&& post.filtered@.len() == 0
}

impl MentionAutocomplete {
    pub fn new() -> (r: Self)
        ensures
            !r.visible,
            r.candidates@.len() == 0,
            r.filtered@.len() == 0,
            r.selected == 0,
            r.active_start == 0,
            r.active_end == 0,
            r.cwd@.len() == 0,
    {
        MentionAutocomplete {
            visible: false,
            candidates: Vec::new(),
            filtered: Vec::new(),
            selected: 0,
            active_start: 0,
            active_end: 0,
            cwd: String::new(),
        }
    }

    pub fn set_cwd(&mut self, cwd: String)
        ensures
            *final(self) == (MentionAutocomplete { cwd, ..*old(self) }),
    {
        self.cwd = cwd;
    }

    /// Puts the list away.
    pub fn close(&mut self)
        ensures
            mentions_closed(*old(self), *final(self)),
    {
        self.visible = false;
        self.filtered = Vec::new();
        self.selected = 0;
    }

    pub fn set_candidates(&mut self, candidates: Vec<MentionCandidate>)
        ensures
            *final(self) == (MentionAutocomplete { candidates, ..*old(self) }),
    {
        self.candidates = candidates;
    }

    /// Offers the candidates for the mention that the cursor is in.
    pub fn update(&mut self, input: &str, cursor: usize)
        ensures
            mentions_for(*old(self), input@, cursor as int, *final(self)),
    {
        let chars = text::chars_of(input);
        let mut at: usize = cursor;
        if cursor > chars.len() {
            self.close();
            return;
        }
        let mut found: Option<usize> = None;
        while at > 0 && found.is_none()
            invariant
                chars@ == input@,
                at <= cursor <= chars@.len(),
                self == old(self),
                match found {
                    None => mention_start(input@, cursor as int) == mention_start(
                        input@,
                        at as int,
                    ),
                    Some(s) => mention_start(input@, cursor as int) == Some(s as int) && s
                        < cursor,
                },
            decreases at,
        {
            let c = chars[at - 1];
            if text::is_white(c) {
                assert(mention_start(input@, at as int) is None);
                self.close();
                return;
            }
            if c == '@' {
                if at == 1 || text::is_white(chars[at - 2]) {
                    found = Some(at - 1);
                } else {
                    assert(mention_start(input@, at as int) is None);
                    self.close();
                    return;
                }
            } else {
                at = at - 1;
            }
            if found.is_some() {
                at = at - 1;
            }
        }
        match found {
            Some(start) => {
                let typed = text::string_of(&chars, start + 1, cursor);
                assert(typed@ =~= input@.subrange(start + 1, cursor as int));
                let typed_lower = text::to_ascii_lowercase(typed.as_str());
                let mut list: Vec<MentionCandidate> = Vec::new();
                let mut k: usize = 0;
                while k < self.candidates.len()
                    invariant
                        k <= self.candidates@.len(),
                        typed_lower@ == text::ascii_lowered(typed@),
                        list@ == mention_matches(self.candidates@, typed@, k as int),
                    decreases self.candidates@.len() - k,
                {
                    let label = text::to_ascii_lowercase(self.candidates[k].label.as_str());
                    if text::contains(label.as_str(), typed_lower.as_str()) {
                        list.push(self.candidates[k].clone());
                    }
                    k = k + 1;
                }
                self.visible = list.len() > 0;
                self.filtered = list;
                self.selected = 0;
                self.active_start = start;
                self.active_end = cursor;
            },
            None => {
                assert(mention_start(input@, 0) is None);
                self.close();
            },
        }
    }

    pub fn selected_candidate(&self) -> (r: Option<&MentionCandidate>)
        ensures
            match r {
                Some(c) => self.selected < self.filtered@.len() && *c
                    == self.filtered@[self.selected as int],
                None => self.selected >= self.filtered@.len(),
            },
    {
        if self.selected < self.filtered.len() {
            Some(&self.filtered[self.selected])
        } else {
            None
        }
    }

    pub fn select_next(&mut self)
        ensures
            *final(self) == (MentionAutocomplete {
                selected: crate::tui::state::autocomplete::next_selected(
                    old(self).selected,
                    old(self).filtered@.len() as int,
                ),
                ..*old(self)
            }),
    {
        if self.filtered.len() > 0 && self.selected < self.filtered.len() - 1 {
            self.selected = self.selected + 1;
        }
    }

    pub fn select_prev(&mut self)
        ensures
            *final(self) == (MentionAutocomplete {
                selected: text::minus(old(self).selected as int, 1) as usize,
                ..*old(self)
            }),
    {
        self.selected = self.selected.saturating_sub(1);
    }
}

} // verus!
