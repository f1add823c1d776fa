//! The agents that are known, by name.
use crate::json;
use crate::order;
use crate::paths;
use crate::subagents::builtins;
use crate::subagents::parser;
use crate::subagents::AgentSource;
use crate::subagents::AgentSpec;
use crate::subagents::AgentView;
use crate::subagents::SourceView;
use crate::text;
use crate::types::events::AgentSummary;
use vstd::prelude::*;

verus! {

/// How a source is named in messages.
pub open spec fn source_name(source: SourceView) -> Seq<char> {
    match source {
        SourceView::BuiltIn => "<built-in>"@,
        SourceView::File(path) => path,
    }
}

impl AgentSource {
    pub fn display(&self) -> (r: String)
        ensures
            r@ == source_name(self@),
    {
        match self {
            AgentSource::BuiltIn => text::copy("<built-in>"),
            AgentSource::File(path) => path.clone(),
        }
    }
}

/// Why an agent, or a directory of agents, was not loaded.
#[derive(Debug, PartialEq, Eq)]
pub struct AgentLoadDiagnostic {
    message: String,
}

impl View for AgentLoadDiagnostic {
    type V = Seq<char>;

    closed spec fn view(&self) -> Seq<char> {
        self.message@
    }
}

impl AgentLoadDiagnostic {
    pub fn new(message: String) -> (r: Self)
        ensures
            r@ == message@,
    {
        AgentLoadDiagnostic { message }
    }

    pub fn message(&self) -> (r: &str)
        ensures
            r@ == self@,
    {
        self.message.as_str()
    }
}

pub open spec fn diagnostics_view(list: Seq<AgentLoadDiagnostic>) -> Seq<Seq<char>> {
    Seq::new(list.len(), |i: int| list[i]@)
}

/// The agents in the order in which they were added, no two with the same name, and what went
/// wrong while they were loaded.
#[derive(Debug)]
pub struct AgentRegistry {
    pub agents: Vec<AgentSpec>,
    pub diagnostics: Vec<AgentLoadDiagnostic>,
}

#[verifier::ext_equal]
pub struct RegistryView {
    pub agents: Seq<AgentView>,
    pub diagnostics: Seq<Seq<char>>,
}

impl View for AgentRegistry {
    type V = RegistryView;

    open spec fn view(&self) -> RegistryView {
        RegistryView {
            agents: builtins::agents_view(self.agents@),
            diagnostics: diagnostics_view(self.diagnostics@),
        }
    }
}

/// The names of the agents.
pub open spec fn names(agents: Seq<AgentView>) -> Seq<Seq<char>> {
    Seq::new(agents.len(), |i: int| agents[i].name)
}

/// The first agent called `name`.
pub open spec fn agent_named(agents: Seq<AgentView>, name: Seq<char>) -> Option<AgentView>
    decreases agents.len(),
{
    if agents.len() == 0 {
        None
    } else {
        match agent_named(agents.drop_last(), name) {
            Some(a) => Some(a),
            None => if agents.last().name == name {
                Some(agents.last())
            } else {
                None
            },
        }
    }
}

pub open spec fn duplicate_message(name: Seq<char>, kept: SourceView, skipped: SourceView) -> Seq<
    char,
> {
    "duplicate subagent name '"@ + name + "'; keeping "@ + source_name(kept) + ", skipping "@
        + source_name(skipped)
}

/// The registry after `a` was offered: an agent whose name is taken is skipped.
pub open spec fn with_agent(r: RegistryView, a: AgentView) -> RegistryView {
    match agent_named(r.agents, a.name) {
        Some(kept) => RegistryView {
            diagnostics: r.diagnostics.push(duplicate_message(a.name, kept.source, a.source)),
            ..r
        },
        None => RegistryView { agents: r.agents.push(a), ..r },
    }
}

pub open spec fn with_diagnostic(r: RegistryView, message: Seq<char>) -> RegistryView {
    RegistryView { diagnostics: r.diagnostics.push(message), ..r }
}

/// The registry after the file at `path` was read: `content` is its text or why it could not
/// be read.
pub open spec fn with_file(
    r: RegistryView,
    path: Seq<char>,
    content: Result<Seq<char>, Seq<char>>,
) -> RegistryView {
    match content {
        Err(e) => with_diagnostic(
            r,
            "skipped "@ + path + ": "@ + ("failed to read file: "@ + e),
        ),
        Ok(text) => match parser::agent_in(text, path) {
            Ok(a) => with_agent(r, a),
            Err(e) => with_diagnostic(r, "skipped "@ + path + ": "@ + e),
        },
    }
}

/// The paths among the first `n` entries of a directory that name agent files.
pub open spec fn agent_paths(entries: Seq<Result<String, String>>, n: int) -> Seq<Seq<char>>
    decreases n,
{
    if n <= 0 {
        Seq::empty()
    } else {
        let done = agent_paths(entries, n - 1);
        match entries[n - 1] {
            Ok(path) => if paths::extension_of(path@) == Some("md"@) {
                done.push(path@)
            } else {
                done
            },
            Err(_) => done,
        }
    }
}

/// The messages on the first `n` entries that could not be read.
pub open spec fn entry_troubles(entries: Seq<Result<String, String>>, n: int) -> Seq<Seq<char>>
    decreases n,
{
    if n <= 0 {
        Seq::empty()
    } else {
        let done = entry_troubles(entries, n - 1);
        match entries[n - 1] {
            Ok(_) => done,
            Err(e) => done.push("failed to read subagent directory entry: "@ + e@),
        }
    }
}

impl AgentRegistry {
    pub fn new() -> (r: Self)
        ensures
            r@ == (RegistryView { agents: Seq::empty(), diagnostics: Seq::empty() }),
    {
        let r = AgentRegistry { agents: Vec::new(), diagnostics: Vec::new() };
        assert(r@ =~= RegistryView { agents: Seq::empty(), diagnostics: Seq::empty() });
        r
    }

    /// The registry that holds the built-in agents.
    pub fn with_built_ins() -> (r: Self)
        ensures
            r@ == (RegistryView { agents: builtins::built_ins(), diagnostics: Seq::empty() }),
    {
        let agents = builtins::built_in_agents();
        let r = AgentRegistry { agents, diagnostics: Vec::new() };
        assert(r@.diagnostics =~= Seq::empty());
        r
    }

    fn place(&self, name: &str) -> (r: Option<usize>)
        ensures
            match r {
                Some(i) => i < self.agents@.len() && agent_named(self@.agents, name@) == Some(
                    self.agents@[i as int]@,
                ),
                None => agent_named(self@.agents, name@) is None,
            },
    {
        let ghost all = self@.agents;
        let mut i: usize = 0;
        assert(all.take(0) =~= Seq::empty());
        while i < self.agents.len()
            invariant
                i <= self.agents@.len(),
                all == builtins::agents_view(self.agents@),
                agent_named(all.take(i as int), name@) is None,
            decreases self.agents@.len() - i,
        {
            assert(all.take(i + 1).drop_last() =~= all.take(i as int));
            assert(all.take(i + 1).last() == self.agents@[i as int]@);
            if text::same(self.agents[i].name.as_str(), name) {
                proof {
                    lemma_named_prefix(all, name@, i + 1);
                }
                return Some(i);
            }
            i = i + 1;
        }
        assert(all.take(all.len() as int) =~= all);
        None
    }

    pub fn get(&self, name: &str) -> (r: Option<&AgentSpec>)
        ensures
            match r {
                Some(a) => agent_named(self@.agents, name@) == Some(a@),
                None => agent_named(self@.agents, name@) is None,
            },
    {
        match self.place(name) {
            Some(i) => Some(&self.agents[i]),
            None => None,
        }
    }

    /// Notes that something could not be loaded.
    pub fn note(&mut self, message: String)
        ensures
            final(self)@ == with_diagnostic(old(self)@, message@),
    {
        let ghost before = self@;
        self.diagnostics.push(AgentLoadDiagnostic::new(message));
        assert(self@ =~= with_diagnostic(before, message@));
    }

    pub fn insert_agent(&mut self, spec: AgentSpec)
        ensures
            final(self)@ == with_agent(old(self)@, spec@),
    {
        let ghost before = self@;
        let ghost a = spec@;
        match self.place(spec.name.as_str()) {
            Some(i) => {
                let mut m = text::concat("duplicate subagent name '", spec.name.as_str());
                m.push_str("'; keeping ");
                m.push_str(self.agents[i].source.display().as_str());
                m.push_str(", skipping ");
                m.push_str(spec.source.display().as_str());
                self.note(m);
            },
            None => {
                self.agents.push(spec);
                assert(self@ =~= with_agent(before, a));
            },
        }
    }

    /// Adds the agent of the file at `path`.
    pub fn add_file(&mut self, path: &str, content: Result<String, String>)
        ensures
            final(self)@ == with_file(
                old(self)@,
                path@,
                match content {
                    Ok(t) => Ok(t@),
                    Err(e) => Err(e@),
                },
            ),
    {
        let parsed = match content {
            Ok(t) => parser::parse_agent_file(t.as_str(), path),
            Err(e) => Err(text::concat("failed to read file: ", e.as_str())),
        };
        match parsed {
            Ok(spec) => self.insert_agent(spec),
            Err(e) => {
                let mut m = text::concat("skipped ", path);
                m.push_str(": ");
                m.push_str(e.as_str());
                self.note(m);
            },
        }
    }

    /// Notes that the directory `dir` could not be read.
    pub fn directory_failed(&mut self, dir: &str, error: &str)
        ensures
            final(self)@ == with_diagnostic(
                old(self)@,
                "failed to read subagent directory "@ + dir@ + ": "@ + error@,
            ),
    {
        let mut m = text::concat("failed to read subagent directory ", dir);
        m.push_str(": ");
        m.push_str(error);
        self.note(m);
    }

    /// The agent files among the entries of a directory, in order; entries that could not be
    /// read are noted.
    pub fn agent_files(&mut self, entries: &Vec<Result<String, String>>) -> (r: Vec<String>)
        ensures
            final(self)@ == (RegistryView {
                agents: old(self)@.agents,
                diagnostics: old(self)@.diagnostics + entry_troubles(
                    entries@,
                    entries@.len() as int,
                ),
            }),
            order::ordered(text::views(r@)),
            text::views(r@).to_multiset() == agent_paths(
                entries@,
                entries@.len() as int,
            ).to_multiset(),
    {
        broadcast use text::lemma_views_push;

        let ghost before = self@;
        let mut found: Vec<String> = Vec::new();
        let mut i: usize = 0;
        assert(text::views(found@) =~= Seq::empty());
        assert(before.diagnostics + Seq::<Seq<char>>::empty() =~= before.diagnostics);
        while i < entries.len()
            invariant
                i <= entries@.len(),
                self@.agents == before.agents,
                self@.diagnostics == before.diagnostics + entry_troubles(entries@, i as int),
                text::views(found@) == agent_paths(entries@, i as int),
            decreases entries@.len() - i,
        {
            broadcast use text::lemma_views_push;

            match &entries[i] {
                Ok(path) => {
                    let ext = paths::extension(path.as_str());
                    if text::same_opt(&ext, "md") {
                        found.push(path.clone());
                    }
                },
                Err(e) => {
                    let m = text::concat("failed to read subagent directory entry: ", e.as_str());
                    let ghost done = entry_troubles(entries@, i as int);
                    self.note(m);
                    assert((before.diagnostics + done).push(m@) =~= before.diagnostics + done.push(
                        m@,
                    ));
                },
            }
            i = i + 1;
        }
        order::sorted(&found)
    }

    pub fn sorted_names(&self) -> (r: Vec<String>)
        ensures
            order::ordered(text::views(r@)),
            text::views(r@).to_multiset() == names(self@.agents).to_multiset(),
            r@.len() == self@.agents.len(),
    {
        let mut list: Vec<String> = Vec::new();
        let mut i: usize = 0;
        while i < self.agents.len()
            invariant
                i <= self.agents@.len(),
                list@.len() == i,
                forall|k: int| 0 <= k < i ==> (#[trigger] list@[k])@ == self.agents@[k].name@,
            decreases self.agents@.len() - i,
        {
            list.push(self.agents[i].name.clone());
            i = i + 1;
        }
        assert(text::views(list@) =~= names(self@.agents));
        order::sorted(&list)
    }

    /// The names, in order, with what each agent is for.
    pub fn summaries(&self) -> (r: Vec<AgentSummary>)
        ensures
            order::ordered(summary_names(r@)),
            summary_names(r@).to_multiset() == names(self@.agents).to_multiset(),
            forall|i: int|
                0 <= i < r@.len() ==> (agent_named(self@.agents, (#[trigger] r@[i]).name@) matches
                    Some(a) && r@[i].description@ == a.description),
    {
        let list = self.sorted_names();
        let mut out: Vec<AgentSummary> = Vec::new();
        let mut i: usize = 0;
        while i < list.len()
            invariant
                i <= list@.len(),
                out@.len() == i,
                text::views(list@).to_multiset() == names(self@.agents).to_multiset(),
                forall|k: int| 0 <= k < i ==> (#[trigger] out@[k]).name == list@[k],
                forall|k: int|
                    0 <= k < i ==> (agent_named(self@.agents, (#[trigger] out@[k]).name@) matches
                        Some(a) && out@[k].description@ == a.description),
            decreases list@.len() - i,
        {
            proof {
                lemma_listed_is_named(self@.agents, text::views(list@), i as int);
            }
            match self.place(list[i].as_str()) {
                Some(k) => {
                    let description = self.agents[k].description.clone();
                    out.push(AgentSummary { name: list[i].clone(), description });
                },
                None => {
                    assert(text::views(list@)[i as int] == list@[i as int]@);
                    assert(false);
                },
            }
            i = i + 1;
        }
        assert(summary_names(out@) =~= text::views(list@));
        out
    }
}

pub open spec fn summary_names(list: Seq<AgentSummary>) -> Seq<Seq<char>> {
    Seq::new(list.len(), |i: int| list[i].name@)
}

proof fn lemma_named_prefix(agents: Seq<AgentView>, name: Seq<char>, n: int)
    requires
        0 <= n <= agents.len(),
        agent_named(agents.take(n), name) is Some,
    ensures
        agent_named(agents, name) == agent_named(agents.take(n), name),
    decreases agents.len() - n,
{
    if n < agents.len() {
        assert(agents.take(n + 1).drop_last() =~= agents.take(n));
        lemma_named_prefix(agents, name, n + 1);
    } else {
        assert(agents.take(n) =~= agents);
    }
}

/// An agent is found under `name` just where one has that name.
pub proof fn lemma_named(agents: Seq<AgentView>, name: Seq<char>)
    ensures
        agent_named(agents, name) is Some <==> names(agents).contains(name),
        agent_named(agents, name) matches Some(a) ==> a.name == name && agents.contains(a),
    decreases agents.len(),
{
    if agents.len() > 0 {
        lemma_named(agents.drop_last(), name);
        let all = names(agents);
        let less = names(agents.drop_last());
        assert(all =~= less.push(agents.last().name));
        assert(all[all.len() - 1] == agents.last().name);
        if less.contains(name) {
            let k = choose|k: int| 0 <= k < less.len() && less[k] == name;
            assert(all[k] == name);
        }
        if all.contains(name) {
            let k = choose|k: int| 0 <= k < all.len() && all[k] == name;
            if k < less.len() {
                assert(less[k] == name);
            }
        }
        if agent_named(agents.drop_last(), name) is Some {
            let a = agent_named(agents.drop_last(), name)->0;
            let k = choose|k: int| 0 <= k < agents.drop_last().len() && agents.drop_last()[k] == a;
            assert(agents[k] == a);
        }
        assert(agents[agents.len() - 1] == agents.last());
    }
}

proof fn lemma_listed_is_named(agents: Seq<AgentView>, list: Seq<Seq<char>>, i: int)
    requires
        list.to_multiset() == names(agents).to_multiset(),
        0 <= i < list.len(),
    ensures
        agent_named(agents, list[i]) matches Some(a) && a.name == list[i],
{
    broadcast use vstd::seq_lib::group_to_multiset_ensures;

    assert(list.contains(list[i]));
    assert(list.to_multiset().contains(list[i]));
    assert(names(agents).contains(list[i]));
    lemma_named(agents, list[i]);
}

/// Whether every name is taken once.
pub open spec fn names_once(r: RegistryView) -> bool {
    order::distinct(names(r.agents))
}

/// Offering an agent keeps every name once and never changes the agents that are there.
pub proof fn law_first_agent_stays(r: RegistryView, a: AgentView, name: Seq<char>)
    requires
        names_once(r),
    ensures
        names_once(with_agent(r, a)),
        agent_named(r.agents, name) is Some ==> agent_named(with_agent(r, a).agents, name)
            == agent_named(r.agents, name),
        agent_named(with_agent(r, a).agents, a.name) is Some,
        with_agent(r, a).agents.take(r.agents.len() as int) == r.agents,
{
    let after = with_agent(r, a);
    lemma_named(r.agents, a.name);
    assert(after.agents.take(r.agents.len() as int) =~= r.agents);
    if agent_named(r.agents, a.name) is None {
        assert(after.agents.drop_last() =~= r.agents);
        assert forall|i: int, j: int|
            0 <= i < j < names(after.agents).len() implies #[trigger] names(after.agents)[i]
            != #[trigger] names(after.agents)[j] by {
            if j == r.agents.len() {
                assert(names(r.agents)[i] == names(after.agents)[i]);
                assert(names(r.agents).contains(names(after.agents)[i]));
            } else {
                assert(names(r.agents)[i] == names(after.agents)[i]);
                assert(names(r.agents)[j] == names(after.agents)[j]);
            }
        }
    }
}

/// Whatever file is read, the agents that are there stay, and every name is taken once.
pub proof fn law_files_never_replace(
    r: RegistryView,
    path: Seq<char>,
    content: Result<Seq<char>, Seq<char>>,
    name: Seq<char>,
)
    requires
        names_once(r),
    ensures
        names_once(with_file(r, path, content)),
        agent_named(r.agents, name) is Some ==> agent_named(
            with_file(r, path, content).agents,
            name,
        ) == agent_named(r.agents, name),
{
    if content is Ok && parser::agent_in(content->Ok_0, path) is Ok {
        law_first_agent_stays(r, parser::agent_in(content->Ok_0, path)->Ok_0, name);
    }
}

/// Adding the built-in agents one after the other to nothing skips none of them.
pub proof fn law_built_ins_are_all_there()
    ensures
        ({
            let none = RegistryView { agents: Seq::empty(), diagnostics: Seq::empty() };
            let b = builtins::built_ins();
            with_agent(with_agent(with_agent(none, b[0]), b[1]), b[2]) == (RegistryView {
                agents: b,
                diagnostics: Seq::empty(),
            })
        }),
        names_once(RegistryView { agents: builtins::built_ins(), diagnostics: Seq::empty() }),
{
    builtins::lemma_built_in_names();
    let none = RegistryView { agents: Seq::empty(), diagnostics: Seq::empty() };
    let b = builtins::built_ins();
    reveal_with_fuel(agent_named, 4);
    let one = with_agent(none, b[0]);
    let two = with_agent(one, b[1]);
    let three = with_agent(two, b[2]);
    assert(one.agents.drop_last() =~= Seq::empty());
    assert(two.agents.drop_last() =~= one.agents);
    assert(three.agents =~= b);
    let n = names(b);
    assert(n[0] == b[0].name && n[1] == b[1].name && n[2] == b[2].name);
}

/// The directories that hold agent files: the user's, where there is a home directory, then the
/// project's.
pub open spec fn agent_dirs(home: Option<Seq<char>>, cwd: Seq<char>) -> Seq<Seq<char>> {
    let of_project = paths::joined_path(paths::joined_path(cwd, ".omini"@), "agents"@);
    match home {
        Some(h) => if h.len() > 0 {
            seq![paths::joined_path(paths::joined_path(h, ".omini"@), "agents"@), of_project]
        } else {
            seq![of_project]
        },
        None => seq![of_project],
    }
}

/// The directory of the agent files below `base`.
pub fn agents_below(base: &str) -> (r: String)
    ensures
        r@ == paths::joined_path(paths::joined_path(base@, ".omini"@), "agents"@),
{
    let dir = paths::join(base, ".omini");
    paths::join(dir.as_str(), "agents")
}

pub fn agent_directories(home: Option<String>, cwd: &str) -> (r: Vec<String>)
    ensures
        text::views(r@) == agent_dirs(json::opt_view(home), cwd@),
{
    let mut out: Vec<String> = Vec::new();
    match &home {
        Some(h) => {
            if text::char_count(h.as_str()) > 0 {
                out.push(agents_below(h.as_str()));
            }
        },
        None => {},
    }
    out.push(agents_below(cwd));
    assert(text::views(out@) =~= agent_dirs(json::opt_view(home), cwd@));
    out
}

} // verus!
