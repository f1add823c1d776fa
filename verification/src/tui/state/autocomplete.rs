//! Completion of command names.
use crate::text;
use crate::types::events::CommandSummary;
use vstd::prelude::*;

verus! {

/// The list of commands offered while a command name is typed.
#[derive(Debug, PartialEq, Eq)]
pub struct CommandAutocomplete {
    pub visible: bool,
    pub all_commands: Vec<CommandSummary>,
    /// Positions in `all_commands` of the commands on offer.
    pub filtered: Vec<usize>,
    pub selected: usize,
}

/// What has been typed of a command name: the input behind a leading slash, as long as it
/// holds no white space.
pub open spec fn typed_name(input: Seq<char>) -> Option<Seq<char>> {
    if input.len() > 0 && input[0] == '/' && forall|i: int|
        0 <= i < input.len() ==> !text::white(#[trigger] input[i]) {
        Some(input.skip(1))
    } else {
        None
    }
}

/// The positions below `n` of the commands whose name starts with `typed`.
pub open spec fn offered(commands: Seq<CommandSummary>, typed: Seq<char>, n: int) -> Seq<usize>
    decreases n,
{
    if n <= 0 {
        Seq::empty()
    } else {
        let before = offered(commands, typed, n - 1);
        if text::has_prefix(commands[n - 1].name@, typed) {
            before.push((n - 1) as usize)
        } else {
            before
        }
    }
}

/// The list after the input has become `input`.
pub open spec fn commands_for(
    pre: CommandAutocomplete,
    input: Seq<char>,
    post: CommandAutocomplete,
) -> bool {
    let list = match typed_name(input) {
        Some(typed) => offered(pre.all_commands@, typed, pre.all_commands@.len() as int),
        None => Seq::empty(),
    };
    &&& post == (CommandAutocomplete {
        visible: post.visible,
        filtered: post.filtered,
        selected: 0,
        ..pre
    })
    &&& post.filtered@ == list
    &&& post.visible == (list.len() > 0)
}

pub proof fn lemma_offered(commands: Seq<CommandSummary>, typed: Seq<char>, n: int)
    requires
        0 <= n <= commands.len() <= usize::MAX,
    ensures
        forall|i: int|
            0 <= i < offered(commands, typed, n).len() ==> (#[trigger] offered(
                commands,
                typed,
                n,
            )[i]) < n && text::has_prefix(
                commands[offered(commands, typed, n)[i] as int].name@,
                typed,
            ),
    decreases n,
{
    if n > 0 {
        lemma_offered(commands, typed, n - 1);
        let before = offered(commands, typed, n - 1);
        let all = offered(commands, typed, n);
        assert forall|i: int| 0 <= i < all.len() implies (#[trigger] all[i]) < n
            && text::has_prefix(commands[all[i] as int].name@, typed) by {
            if i < before.len() {
                assert(all[i] == before[i]);
            }
        }
    }
}

impl CommandAutocomplete {
    pub fn new() -> (r: Self)
        ensures
            !r.visible,
            r.all_commands@.len() == 0,
            r.filtered@.len() == 0,
            r.selected == 0,
    {
        CommandAutocomplete {
            visible: false,
            all_commands: Vec::new(),
            filtered: Vec::new(),
            selected: 0,
        }
    }

    /// Offers the commands that the input can still become.
    pub fn update(&mut self, input: &str)
        ensures
            commands_for(*old(self), input@, *final(self)),
    {
        let chars = text::chars_of(input);
        let mut list: Vec<usize> = Vec::new();
        let mut is_name = chars.len() > 0 && chars[0] == '/';
        let mut i: usize = 0;
        while i < chars.len() && is_name
            invariant
                chars@ == input@,
                i <= chars@.len(),
                is_name ==> chars@.len() > 0 && chars@[0] == '/' && forall|k: int|
                    0 <= k < i ==> !text::white(#[trigger] chars@[k]),
                !is_name ==> typed_name(input@) is None,
            decreases chars@.len() - i,
        {
            if text::is_white(chars[i]) {
                is_name = false;
            }
            i = i + 1;
        }
        if is_name {
            let typed = text::string_of(&chars, 1, chars.len());
            assert(typed@ =~= input@.skip(1));
            let mut k: usize = 0;
            while k < self.all_commands.len()
                invariant
                    k <= self.all_commands@.len(),
                    list@ == offered(self.all_commands@, typed@, k as int),
                decreases self.all_commands@.len() - k,
            {
                if text::starts_with(self.all_commands[k].name.as_str(), typed.as_str()) {
                    list.push(k);
                }
                k = k + 1;
            }
        }
        self.visible = list.len() > 0;
        self.filtered = list;
        self.selected = 0;
    }

    /// The command under the selection.
    pub fn selected_command(&self) -> (r: Option<&CommandSummary>)
        ensures
            match r {
                Some(c) => self.selected < self.filtered@.len()
                    && self.filtered@[self.selected as int] < self.all_commands@.len() && *c
                    == self.all_commands@[self.filtered@[self.selected as int] as int],
                None => self.selected >= self.filtered@.len()
                    || self.filtered@[self.selected as int] >= self.all_commands@.len(),
            },
    {
        if self.selected < self.filtered.len() {
            let at: usize = self.filtered[self.selected];
            if at < self.all_commands.len() {
                return Some(&self.all_commands[at]);
            }
        }
        None
    }

    pub fn select_next(&mut self)
        ensures
            *final(self) == (CommandAutocomplete {
                selected: next_selected(old(self).selected, old(self).filtered@.len() as int),
                ..*old(self)
            }),
    {
        if self.filtered.len() > 0 && self.selected < self.filtered.len() - 1 {
            self.selected = self.selected + 1;
        }
    }

    pub fn select_prev(&mut self)
        ensures
            *final(self) == (CommandAutocomplete {
                selected: text::minus(old(self).selected as int, 1) as usize,
                ..*old(self)
            }),
    {
        self.selected = self.selected.saturating_sub(1);
    }
}

/// The selection one further down a list of `len` entries.
pub open spec fn next_selected(selected: usize, len: int) -> usize {
    if selected + 1 < len {
        (selected + 1) as usize
    } else {
        selected
    }
}

} // verus!
