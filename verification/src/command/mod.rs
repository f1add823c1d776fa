//! Commands that the user types behind a slash.
pub mod agents;
pub mod command_laws;
pub mod exit;
pub mod help;
pub mod init;
pub mod model;
pub mod new;
pub mod rename;
pub mod sessions;

use crate::json;
use crate::text;
use crate::types::events::CommandSummary;
use vstd::prelude::*;

verus! {

/// A command as typed.
#[derive(Debug, PartialEq, Eq)]
pub struct ParsedCommand {
    pub name: String,
    pub args: String,
}

/// Where the first white space of `s` stands, at or after `from`.
pub open spec fn white_from(s: Seq<char>, from: int) -> Option<int>
    decreases s.len() - from,
{
    if from >= s.len() {
        None
    } else if text::white(s[from]) {
        Some(from)
    } else {
        white_from(s, from + 1)
    }
}

/// The name and the arguments of the command that `input` is, if it is one: where it starts with
/// a slash, however little follows.
pub open spec fn command_in(input: Seq<char>) -> Option<(Seq<char>, Seq<char>)> {
    let t = text::trimmed(input);
    if t.len() == 0 || t[0] != '/' {
        None
    } else {
        let rest = t.skip(1);
        match white_from(rest, 0) {
            Some(i) => Some((rest.take(i), text::trimmed(rest.skip(i + 1)))),
            None => Some((rest, Seq::empty())),
        }
    }
}

pub fn parse(input: &str) -> (r: Option<ParsedCommand>)
    ensures
        match r {
            Some(p) => command_in(input@) == Some((p.name@, p.args@)),
            None => command_in(input@) is None,
        },
{
    let t = text::trim(input);
    let chars = text::chars_of(t.as_str());
    let n: usize = chars.len();
    if n == 0 || chars[0] != '/' {
        return None;
    }
    let ghost rest = t@.skip(1);
    let mut i: usize = 1;
    while i < n && !text::is_white(chars[i])
        invariant
            chars@ == t@,
            n == t@.len(),
            1 <= i <= n,
            rest == t@.skip(1),
            white_from(rest, 0) == white_from(rest, i - 1),
        decreases n - i,
    {
        i = i + 1;
    }
    let name = text::string_of(&chars, 1, i);
    if i < n {
        let after = text::string_of(&chars, i + 1, n);
        assert(name@ =~= rest.take(i - 1));
        assert(after@ =~= rest.skip(i as int));
        Some(ParsedCommand { name, args: text::trim(after.as_str()) })
    } else {
        assert(name@ =~= rest);
        let args = String::new();
        Some(ParsedCommand { name, args })
    }
}

proof fn lemma_white_from(s: Seq<char>, from: int)
    requires
        0 <= from,
    ensures
        match white_from(s, from) {
            Some(i) => from <= i < s.len() && text::white(s[i]) && forall|k: int|
                from <= k < i ==> !text::white(#[trigger] s[k]),
            None => forall|k: int| from <= k < s.len() ==> !text::white(#[trigger] s[k]),
        },
    decreases s.len() - from,
{
    if from < s.len() && !text::white(s[from]) {
        lemma_white_from(s, from + 1);
    }
}

/// The name of a command holds no white space, and its arguments are trimmed.
pub proof fn law_parsed_parts(input: Seq<char>)
    ensures
        command_in(input) matches Some((name, args)) ==> text::trimmed(args) == args && forall|
            k: int,
        |
            0 <= k < name.len() ==> !text::white(#[trigger] name[k]),
{
    let rest = text::trimmed(input).skip(1);
    lemma_white_from(rest, 0);
    match white_from(rest, 0) {
        Some(i) => {
            text::lemma_trimmed_twice(rest.skip(i + 1));
        },
        None => {
            text::lemma_trimmed_twice(Seq::<char>::empty());
            assert(text::trimmed(Seq::<char>::empty()) =~= Seq::<char>::empty());
        },
    }
}

/// What a command is called and for.
#[verifier::ext_equal]
pub struct SummaryView {
    pub name: Seq<char>,
    pub aliases: Seq<Seq<char>>,
    pub description: Seq<char>,
    pub has_args: bool,
    pub args_description: Option<Seq<char>>,
}

impl View for CommandSummary {
    type V = SummaryView;

    open spec fn view(&self) -> SummaryView {
        SummaryView {
            name: self.name@,
            aliases: text::views(self.aliases@),
            description: self.description@,
            has_args: self.has_args,
            args_description: json::opt_view(self.args_description),
        }
    }
}

pub open spec fn names_view(list: Seq<&'static str>) -> Seq<Seq<char>> {
    Seq::new(list.len(), |i: int| list[i]@)
}

pub open spec fn summaries_view(list: Seq<CommandSummary>) -> Seq<SummaryView> {
    Seq::new(list.len(), |i: int| list[i]@)
}

/// A command that can be registered.
pub trait Command {
    spec fn summary(&self) -> SummaryView;

    fn name(&self) -> (r: &'static str)
        ensures
            r@ == self.summary().name,
    ;

    fn aliases(&self) -> (r: Vec<&'static str>)
        ensures
            names_view(r@) == self.summary().aliases,
    ;

    fn description(&self) -> (r: &'static str)
        ensures
            r@ == self.summary().description,
    ;

    /// Whether the command takes arguments.
    fn has_args(&self) -> (r: bool)
        ensures
            r == self.summary().has_args,
    ;

    fn args_description(&self) -> (r: Option<&'static str>)
        ensures
            match r {
                Some(d) => self.summary().args_description == Some(d@),
                None => self.summary().args_description is None,
            },
    ;
}

fn summarize<C: Command>(cmd: &C) -> (r: CommandSummary)
    ensures
        r@ == cmd.summary(),
{
    let given = cmd.aliases();
    let mut aliases: Vec<String> = Vec::new();
    let mut i: usize = 0;
    while i < given.len()
        invariant
            i <= given@.len(),
            aliases@.len() == i,
            forall|k: int| 0 <= k < i ==> (#[trigger] aliases@[k])@ == given@[k]@,
        decreases given@.len() - i,
    {
        aliases.push(text::copy(given[i]));
        i = i + 1;
    }
    assert(text::views(aliases@) =~= names_view(given@));
    let args_description = match cmd.args_description() {
        Some(d) => Some(text::copy(d)),
        None => None,
    };
    CommandSummary {
        name: text::copy(cmd.name()),
        aliases,
        description: text::copy(cmd.description()),
        has_args: cmd.has_args(),
        args_description,
    }
}

fn copy_summary(c: &CommandSummary) -> (r: CommandSummary)
    ensures
        r@ == c@,
{
    let args_description = match &c.args_description {
        Some(d) => Some(d.clone()),
        None => None,
    };
    CommandSummary {
        name: c.name.clone(),
        aliases: text::copy_list(&c.aliases),
        description: c.description.clone(),
        has_args: c.has_args,
        args_description,
    }
}

/// The place of the entry with the given key.
pub open spec fn entry_place(entries: Seq<(Seq<char>, SummaryView)>, key: Seq<char>, n: int) -> Option<
    int,
>
    decreases n,
{
    if n <= 0 {
        None
    } else if entries[n - 1].0 == key {
        Some(n - 1)
    } else {
        entry_place(entries, key, n - 1)
    }
}

/// The entries after `v` was put under `key`.
pub open spec fn put(entries: Seq<(Seq<char>, SummaryView)>, key: Seq<char>, v: SummaryView) -> Seq<
    (Seq<char>, SummaryView),
> {
    match entry_place(entries, key, entries.len() as int) {
        Some(i) => entries.update(i, (key, v)),
        None => entries.push((key, v)),
    }
}

/// The entries after `v` was put under each of the keys.
pub open spec fn put_all(
    entries: Seq<(Seq<char>, SummaryView)>,
    keys: Seq<Seq<char>>,
    v: SummaryView,
) -> Seq<(Seq<char>, SummaryView)>
    decreases keys.len(),
{
    if keys.len() == 0 {
        entries
    } else {
        put(put_all(entries, keys.drop_last(), v), keys.last(), v)
    }
}

/// The command found under `key`.
pub open spec fn found(entries: Seq<(Seq<char>, SummaryView)>, key: Seq<char>) -> Option<
    SummaryView,
> {
    match entry_place(entries, key, entries.len() as int) {
        Some(i) => Some(entries[i].1),
        None => None,
    }
}

/// The commands of the entries, each once by its main name.
pub open spec fn commands_in(entries: Seq<(Seq<char>, SummaryView)>) -> Seq<SummaryView>
    decreases entries.len(),
{
    if entries.len() == 0 {
        Seq::empty()
    } else {
        let done = commands_in(entries.drop_last());
        if has_name(done, entries.last().1.name) {
            done
        } else {
            done.push(entries.last().1)
        }
    }
}

pub open spec fn has_name(commands: Seq<SummaryView>, name: Seq<char>) -> bool {
    exists|i: int| 0 <= i < commands.len() && (#[trigger] commands[i]).name == name
}

/// The commands by their names and aliases.
#[derive(Debug)]
pub struct CommandRegistry {
    by_name: Vec<(String, CommandSummary)>,
}

impl View for CommandRegistry {
    type V = Seq<(Seq<char>, SummaryView)>;

    closed spec fn view(&self) -> Seq<(Seq<char>, SummaryView)> {
        Seq::new(self.by_name@.len(), |i: int| (self.by_name@[i].0@, self.by_name@[i].1@))
    }
}

impl Default for CommandRegistry {
    fn default() -> (r: Self)
        ensures
            r@.len() == 0,
    {
        CommandRegistry::new()
    }
}

impl CommandRegistry {
    pub fn new() -> (r: Self)
        ensures
            r@ == Seq::<(Seq<char>, SummaryView)>::empty(),
    {
        let r = CommandRegistry { by_name: Vec::new() };
        assert(r@ =~= Seq::empty());
        r
    }

    fn place(&self, key: &str) -> (r: Option<usize>)
        ensures
            match r {
                Some(i) => i < self.by_name@.len() && entry_place(self@, key@, self@.len() as int)
                    == Some(i as int),
                None => entry_place(self@, key@, self@.len() as int) is None,
            },
    {
        let mut n: usize = self.by_name.len();
        while n > 0
            invariant
                n <= self.by_name@.len(),
                self@.len() == self.by_name@.len(),
                entry_place(self@, key@, self@.len() as int) == entry_place(self@, key@, n as int),
            decreases n,
        {
            assert(self@[n - 1].0 == self.by_name@[n - 1].0@);
            if text::same(self.by_name[n - 1].0.as_str(), key) {
                return Some(n - 1);
            }
            n = n - 1;
        }
        None
    }

    fn put(&mut self, key: &str, v: CommandSummary)
        ensures
            final(self)@ == put(old(self)@, key@, v@),
    {
        let ghost before = self@;
        let ghost view = v@;
        match self.place(key) {
            Some(i) => {
                self.by_name.set(i, (text::copy(key), v));
                assert(self@ =~= before.update(i as int, (key@, view)));
            },
            None => {
                self.by_name.push((text::copy(key), v));
                assert(self@ =~= before.push((key@, view)));
            },
        }
    }

    /// Makes the command known under its name and its aliases.
    pub fn register<C: Command>(&mut self, cmd: &C)
        ensures
            final(self)@ == with_command(old(self)@, *cmd),
    {
        let s = summarize(cmd);
        let ghost aliases = cmd.summary().aliases;
        let ghost v = cmd.summary();
        self.put(s.name.as_str(), copy_summary(&s));
        let ghost first = self@;
        let mut i: usize = 0;
        assert(aliases.take(0) =~= Seq::empty());
        while i < s.aliases.len()
            invariant
                i <= s.aliases@.len(),
                s@ == v,
                aliases == text::views(s.aliases@),
                self@ == put_all(first, aliases.take(i as int), v),
            decreases s.aliases@.len() - i,
        {
            assert(aliases.take(i + 1).drop_last() =~= aliases.take(i as int));
            assert(aliases.take(i + 1).last() == s.aliases@[i as int]@);
            self.put(s.aliases[i].as_str(), copy_summary(&s));
            i = i + 1;
        }
        assert(aliases.take(aliases.len() as int) =~= aliases);
    }

    pub fn get(&self, name: &str) -> (r: Option<&CommandSummary>)
        ensures
            match r {
                Some(c) => found(self@, name@) == Some(c@),
                None => found(self@, name@) is None,
            },
    {
        match self.place(name) {
            Some(i) => {
                assert(self@[i as int].1 == self.by_name@[i as int].1@);
                Some(&self.by_name[i].1)
            },
            None => None,
        }
    }

    /// Every command once, in the order in which the names were first registered.
    pub fn summaries(&self) -> (r: Vec<CommandSummary>)
        ensures
            summaries_view(r@) == commands_in(self@),
    {
        let ghost all = self@;
        let mut out: Vec<CommandSummary> = Vec::new();
        let mut i: usize = 0;
        assert(summaries_view(out@) =~= Seq::empty());
        assert(all.take(0) =~= Seq::empty());
        while i < self.by_name.len()
            invariant
                i <= self.by_name@.len(),
                all == self@,
                all.len() == self.by_name@.len(),
                summaries_view(out@) == commands_in(all.take(i as int)),
            decreases self.by_name@.len() - i,
        {
            let ghost before = summaries_view(out@);
            assert(all.take(i + 1).drop_last() =~= all.take(i as int));
            assert(all.take(i + 1).last().1 == self.by_name@[i as int].1@);
            if !holds_name(&out, self.by_name[i].1.name.as_str()) {
                let c = copy_summary(&self.by_name[i].1);
                let ghost v = c@;
                out.push(c);
                assert(summaries_view(out@) =~= before.push(v));
            }
            i = i + 1;
        }
        assert(all.take(all.len() as int) =~= all);
        out
    }

    /// The same as `summaries`: every command once.
    pub fn all_commands(&self) -> (r: Vec<CommandSummary>)
        ensures
            summaries_view(r@) == commands_in(self@),
    {
        self.summaries()
    }
}

fn holds_name(list: &Vec<CommandSummary>, name: &str) -> (r: bool)
    ensures
        r == has_name(summaries_view(list@), name@),
{
    let mut i: usize = 0;
    while i < list.len()
        invariant
            i <= list@.len(),
            forall|k: int| 0 <= k < i ==> (#[trigger] list@[k]).name@ != name@,
        decreases list@.len() - i,
    {
        if text::same(list[i].name.as_str(), name) {
            assert(summaries_view(list@)[i as int].name == name@);
            return true;
        }
        i = i + 1;
    }
    assert forall|k: int| 0 <= k < list@.len() implies (#[trigger] summaries_view(list@)[k]).name
        != name@ by {
        assert(list@[k].name@ != name@);
    }
    false
}

/// Registers the commands that are always there.
pub fn register_default_commands(registry: &mut CommandRegistry)
    ensures
        final(registry)@ == with_defaults(old(registry)@),
{
    registry.register(&exit::ExitCommand);
    registry.register(&model::ModelCommand);
    registry.register(&sessions::SessionsCommand);
    registry.register(&new::NewCommand);
    registry.register(&rename::RenameCommand);
    registry.register(&help::HelpCommand);
}

/// The entries after a command was registered.
pub open spec fn with_command<C: Command>(
    entries: Seq<(Seq<char>, SummaryView)>,
    cmd: C,
) -> Seq<(Seq<char>, SummaryView)> {
    put_all(put(entries, cmd.summary().name, cmd.summary()), cmd.summary().aliases, cmd.summary())
}

/// The entries after the commands that are always there were registered.
pub open spec fn with_defaults(entries: Seq<(Seq<char>, SummaryView)>) -> Seq<
    (Seq<char>, SummaryView),
> {
    let a = with_command(entries, exit::ExitCommand);
    let b = with_command(a, model::ModelCommand);
    let c = with_command(b, sessions::SessionsCommand);
    let d = with_command(c, new::NewCommand);
    let e = with_command(d, rename::RenameCommand);
    with_command(e, help::HelpCommand)
}

proof fn lemma_entry_place(entries: Seq<(Seq<char>, SummaryView)>, key: Seq<char>, n: int)
    ensures
        match entry_place(entries, key, n) {
            Some(i) => 0 <= i < n && entries[i].0 == key && forall|j: int|
                i < j < n ==> (#[trigger] entries[j]).0 != key,
            None => forall|j: int| 0 <= j < n ==> (#[trigger] entries[j]).0 != key,
        },
    decreases n,
{
    if n > 0 && entries[n - 1].0 != key {
        lemma_entry_place(entries, key, n - 1);
    }
}

/// Putting a command under a key makes it the one found there, and changes no other key.
pub proof fn law_put(
    entries: Seq<(Seq<char>, SummaryView)>,
    key: Seq<char>,
    v: SummaryView,
    other: Seq<char>,
)
    ensures
        found(put(entries, key, v), key) == Some(v),
        other != key ==> found(put(entries, key, v), other) == found(entries, other),
{
    let after = put(entries, key, v);
    lemma_entry_place(entries, key, entries.len() as int);
    lemma_entry_place(after, key, after.len() as int);
    lemma_entry_place(entries, other, entries.len() as int);
    lemma_entry_place(after, other, after.len() as int);
    match entry_place(entries, key, entries.len() as int) {
        Some(i) => {
            assert(after[i] == (key, v));
            let k = entry_place(after, key, after.len() as int)->0;
            assert(after[k].0 == key);
            if k != i {
                assert(after[k] == entries[k]);
            }
            if other != key {
                lemma_same_places(entries, after, other);
            }
        },
        None => {
            assert(after[entries.len() as int] == (key, v));
            let k = entry_place(after, key, after.len() as int)->0;
            assert(after[k].0 == key);
            if k != entries.len() {
                assert(after[k] == entries[k]);
            }
            if other != key {
                lemma_same_places(entries, after, other);
            }
        },
    }
}

proof fn lemma_same_places(
    a: Seq<(Seq<char>, SummaryView)>,
    b: Seq<(Seq<char>, SummaryView)>,
    key: Seq<char>,
)
    requires
        a.len() <= b.len(),
        forall|i: int|
            #![trigger a[i]]
            #![trigger b[i]]
            0 <= i < a.len() ==> (a[i].0 == key <==> b[i].0 == key) && (a[i].0 == key ==> a[i]
                == b[i]),
        forall|i: int| a.len() <= i < b.len() ==> (#[trigger] b[i]).0 != key,
    ensures
        found(a, key) == found(b, key),
{
    lemma_entry_place(a, key, a.len() as int);
    lemma_entry_place(b, key, b.len() as int);
    match entry_place(a, key, a.len() as int) {
        Some(i) => {
            assert(b[i].0 == key);
            let k = entry_place(b, key, b.len() as int)->0;
            assert(b[k].0 == key);
            assert(k < a.len());
            assert(a[k].0 == key);
        },
        None => {
            if entry_place(b, key, b.len() as int) is Some {
                let k = entry_place(b, key, b.len() as int)->0;
                assert(b[k].0 == key);
                assert(k < a.len());
                assert(a[k].0 == key);
            }
        },
    }
}

proof fn lemma_put_all(
    entries: Seq<(Seq<char>, SummaryView)>,
    keys: Seq<Seq<char>>,
    v: SummaryView,
    key: Seq<char>,
)
    ensures
        keys.contains(key) ==> found(put_all(entries, keys, v), key) == Some(v),
        !keys.contains(key) ==> found(put_all(entries, keys, v), key) == found(entries, key),
    decreases keys.len(),
{
    if keys.len() > 0 {
        let less = keys.drop_last();
        lemma_put_all(entries, less, v, key);
        law_put(put_all(entries, less, v), keys.last(), v, key);
        if less.contains(key) {
            let k = choose|k: int| 0 <= k < less.len() && less[k] == key;
            assert(keys[k] == key);
        }
        if keys.contains(key) {
            let k = choose|k: int| 0 <= k < keys.len() && keys[k] == key;
            if k < less.len() {
                assert(less[k] == key);
            }
        }
        assert(keys[keys.len() - 1] == keys.last());
    }
}

/// A registered command is found under its name and each of its aliases; what is found under
/// any other name stays.
pub proof fn law_register<C: Command>(
    entries: Seq<(Seq<char>, SummaryView)>,
    cmd: C,
    key: Seq<char>,
)
    ensures
        key == cmd.summary().name || cmd.summary().aliases.contains(key) ==> found(
            with_command(entries, cmd),
            key,
        ) == Some(cmd.summary()),
        key != cmd.summary().name && !cmd.summary().aliases.contains(key) ==> found(
            with_command(entries, cmd),
            key,
        ) == found(entries, key),
{
    let v = cmd.summary();
    law_put(entries, v.name, v, key);
    lemma_put_all(put(entries, v.name, v), v.aliases, v, key);
}

/// A command that is part of the program.
#[derive(Debug, Clone, Copy, PartialEq, Eq, Structural)]
pub enum BuiltIn {
    Exit,
    Model,
    Sessions,
    New,
    Rename,
    Help,
    Init,
    Agents,
}

/// The name that a command of the program goes by.
pub open spec fn built_in_name(command: BuiltIn) -> Seq<char> {
    match command {
        BuiltIn::Exit => exit::ExitCommand.summary().name,
        BuiltIn::Model => model::ModelCommand.summary().name,
        BuiltIn::Sessions => sessions::SessionsCommand.summary().name,
        BuiltIn::New => new::NewCommand.summary().name,
        BuiltIn::Rename => rename::RenameCommand.summary().name,
        BuiltIn::Help => help::HelpCommand.summary().name,
        BuiltIn::Init => init::InitCommand.summary().name,
        BuiltIn::Agents => agents::AgentsCommand.summary().name,
    }
}

/// The command of the program with the given name.
pub fn built_in(name: &str) -> (r: Option<BuiltIn>)
    ensures
        match r {
            Some(command) => built_in_name(command) == name@,
            None => forall|command: BuiltIn| #[trigger] built_in_name(command) != name@,
        },
{
    if text::same(name, exit::ExitCommand.name()) {
        Some(BuiltIn::Exit)
    } else if text::same(name, model::ModelCommand.name()) {
        Some(BuiltIn::Model)
    } else if text::same(name, sessions::SessionsCommand.name()) {
        Some(BuiltIn::Sessions)
    } else if text::same(name, new::NewCommand.name()) {
        Some(BuiltIn::New)
    } else if text::same(name, rename::RenameCommand.name()) {
        Some(BuiltIn::Rename)
    } else if text::same(name, help::HelpCommand.name()) {
        Some(BuiltIn::Help)
    } else if text::same(name, init::InitCommand.name()) {
        Some(BuiltIn::Init)
    } else if text::same(name, agents::AgentsCommand.name()) {
        Some(BuiltIn::Agents)
    } else {
        None
    }
}

/// No two commands of the program go by the same name.
pub proof fn law_built_in_names_differ(a: BuiltIn, b: BuiltIn)
    requires
        a != b,
    ensures
        built_in_name(a) != built_in_name(b),
{
    reveal_strlit("exit");
    reveal_strlit("model");
    reveal_strlit("sessions");
    reveal_strlit("new");
    reveal_strlit("rename");
    reveal_strlit("help");
    reveal_strlit("init");
    reveal_strlit("agents");
    let x = built_in_name(a);
    let y = built_in_name(b);
    if x == y {
        assert(x.len() == y.len() && x[0] == y[0]);
    }
}

} // verus!
