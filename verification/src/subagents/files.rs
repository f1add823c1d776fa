//! Agents as the user looks at them, and the files that they are kept in.
use crate::json;
use crate::paths;
use crate::subagents::builtins;
use crate::subagents::list_of;
use crate::subagents::model_view;
use crate::subagents::registry;
use crate::subagents::registry::AgentRegistry;
use crate::subagents::AgentModelSpec;
use crate::subagents::AgentSource;
use crate::subagents::AgentSpec;
use crate::subagents::AgentView;
use crate::subagents::SourceView;
use crate::text;
use crate::types::events::AgentDraft;
use crate::types::events::AgentRecord;
use crate::types::events::AgentSourceKind;
use vstd::prelude::*;

verus! {

/// The directory of the agent files below `base`.
pub open spec fn agents_dir(base: Seq<char>) -> Seq<char> {
    paths::joined_path(paths::joined_path(base, ".omini"@), "agents"@)
}

/// Where the agents of an agent's file are kept: with the project, or with the user.
pub open spec fn kind_of(source: SourceView, cwd: Seq<char>) -> AgentSourceKind {
    match source {
        SourceView::BuiltIn => AgentSourceKind::BuiltIn,
        SourceView::File(path) => if text::has_prefix(
            path,
            paths::joined_path(agents_dir(cwd), Seq::empty()),
        ) {
            AgentSourceKind::Project
        } else {
            AgentSourceKind::User
        },
    }
}

pub open spec fn names_or_none(list: Option<Seq<Seq<char>>>) -> Seq<Seq<char>> {
    match list {
        Some(names) => names,
        None => Seq::empty(),
    }
}

/// Whether `r` shows the agent `a` of a session in `cwd`. Only an agent of a file can be changed.
pub open spec fn shows(r: AgentRecord, a: AgentView, cwd: Seq<char>) -> bool {
    &&& r.name@ == a.name
    &&& r.description@ == a.description
    &&& r.instructions@ == a.instructions
    &&& text::views(r.tools@) == names_or_none(a.allow)
    &&& text::views(r.disallow_tools@) == names_or_none(a.deny)
    &&& json::opt_view(r.model) == (match a.model {
        Some((provider, model)) => Some(provider + "/"@ + model),
        None => None,
    })
    &&& r.source_kind == kind_of(a.source, cwd)
    &&& json::opt_view(r.path) == (match a.source {
        SourceView::BuiltIn => None,
        SourceView::File(path) => Some(path),
    })
    &&& r.editable == (a.source is File)
}

fn copy_names(list: &Option<Vec<String>>) -> (r: Vec<String>)
    ensures
        text::views(r@) == names_or_none(list_of(*list)),
{
    match list {
        Some(names) => text::copy_list(names),
        None => {
            let none: Vec<String> = Vec::new();
            assert(text::views(none@) =~= Seq::empty());
            none
        },
    }
}

fn model_text(model: &Option<AgentModelSpec>) -> (r: Option<String>)
    ensures
        json::opt_view(r) == (match model_view(*model) {
            Some((provider, model)) => Some(provider + "/"@ + model),
            None => None,
        }),
{
    match model {
        Some(m) => {
            let mut t = text::concat(m.provider.as_str(), "/");
            t.push_str(m.model.as_str());
            Some(t)
        },
        None => None,
    }
}

/// An agent as the page for the agents shows it.
pub fn agent_record(agent: &AgentSpec, cwd: &str) -> (r: AgentRecord)
    ensures
        shows(r, agent@, cwd@),
{
    let (source_kind, path) = match &agent.source {
        AgentSource::BuiltIn => (AgentSourceKind::BuiltIn, None),
        AgentSource::File(path) => {
            let dir = registry::agents_below(cwd);
            proof {
                reveal_strlit("");
                assert(""@ =~= Seq::<char>::empty());
            }
            let inside = paths::join(dir.as_str(), "");
            if text::starts_with(path.as_str(), inside.as_str()) {
                (AgentSourceKind::Project, Some(path.clone()))
            } else {
                (AgentSourceKind::User, Some(path.clone()))
            }
        },
    };
    let editable = path.is_some();
    AgentRecord {
        name: agent.name.clone(),
        description: agent.description.clone(),
        instructions: agent.instructions.clone(),
        tools: copy_names(&agent.tool_policy.allow),
        disallow_tools: copy_names(&agent.tool_policy.deny),
        model: model_text(&agent.model),
        source_kind,
        path,
        editable,
    }
}

/// All agents as the page for them shows them, in their order.
pub fn agent_records(agents: &AgentRegistry, cwd: &str) -> (r: Vec<AgentRecord>)
    ensures
        r@.len() == agents@.agents.len(),
        forall|i: int| 0 <= i < r@.len() ==> shows(#[trigger] r@[i], agents@.agents[i], cwd@),
{
    let mut out: Vec<AgentRecord> = Vec::new();
    let mut i: usize = 0;
    while i < agents.agents.len()
        invariant
            i <= agents.agents@.len(),
            out@.len() == i,
            agents@.agents == builtins::agents_view(agents.agents@),
            forall|k: int| 0 <= k < i ==> shows(#[trigger] out@[k], agents@.agents[k], cwd@),
        decreases agents.agents@.len() - i,
    {
        out.push(agent_record(&agents.agents[i], cwd));
        i = i + 1;
    }
    out
}

/// Whether a name belongs to an agent other than the one in the file `original`.
pub open spec fn taken(agents: Seq<AgentView>, name: Seq<char>, original: Option<Seq<char>>) -> bool {
    match registry::agent_named(agents, name) {
        Some(a) => match a.source {
            SourceView::BuiltIn => true,
            SourceView::File(path) => original != Some(path),
        },
        None => false,
    }
}

pub fn name_taken(agents: &AgentRegistry, name: &str, original: &Option<String>) -> (r: bool)
    ensures
        r == taken(agents@.agents, name@, json::opt_view(*original)),
{
    match agents.get(name) {
        Some(agent) => match &agent.source {
            AgentSource::BuiltIn => true,
            AgentSource::File(path) => !text::same_opt(original, path.as_str()),
        },
        None => false,
    }
}

/// Where the agents of a kind are kept below: the project or the home directory. The agents that
/// are built in have no files.
pub open spec fn base_of(
    kind: AgentSourceKind,
    cwd: Seq<char>,
    home: Option<Seq<char>>,
) -> Result<Seq<char>, Seq<char>> {
    match kind {
        AgentSourceKind::Project => Ok(cwd),
        AgentSourceKind::User => match home {
            Some(h) => Ok(h),
            None => Err("no home directory"@),
        },
        AgentSourceKind::BuiltIn => Err("a built-in agent cannot be saved"@),
    }
}

/// The directory and the path of the file that an agent is saved in.
pub fn agent_file(kind: AgentSourceKind, cwd: &str, home: &Option<String>, name: &str) -> (r: Result<
    (String, String),
    String,
>)
    ensures
        match base_of(kind, cwd@, json::opt_view(*home)) {
            Ok(base) => r matches Ok(p) && p.0@ == agents_dir(base) && p.1@ == paths::joined_path(
                agents_dir(base),
                name@ + ".md"@,
            ),
            Err(e) => r matches Err(m) && m@ == e,
        },
{
    let dir = match kind {
        AgentSourceKind::Project => registry::agents_below(cwd),
        AgentSourceKind::User => match home {
            Some(h) => registry::agents_below(h.as_str()),
            None => {
                return Err(text::copy("no home directory"));
            },
        },
        AgentSourceKind::BuiltIn => {
            return Err(text::copy("a built-in agent cannot be saved"));
        },
    };
    let file = text::concat(name, ".md");
    let path = paths::join(dir.as_str(), file.as_str());
    Ok((dir, path))
}

/// A text on one line, its words one space apart.
pub open spec fn one_line(s: Seq<char>) -> Seq<char> {
    text::joined(text::words_of(s), " "@)
}

/// A list of names in the header of a file; an empty list is left out.
pub open spec fn list_line(key: Seq<char>, names: Seq<Seq<char>>) -> Seq<char> {
    if names.len() == 0 {
        Seq::empty()
    } else {
        key + text::joined(names, ", "@) + "\n"@
    }
}

pub open spec fn model_line(model: Option<Seq<char>>) -> Seq<char> {
    match model {
        Some(m) => "model: "@ + m + "\n"@,
        None => Seq::empty(),
    }
}

/// The text of an agent's file: a header with its fields, and its instructions.
pub open spec fn file_text(d: AgentDraft) -> Seq<char> {
    "---\nname: "@ + one_line(d.name@) + "\ndescription: "@ + one_line(d.description@) + "\n"@
        + list_line("tools: "@, text::views(d.tools@)) + list_line(
        "disallow_tools: "@,
        text::views(d.disallow_tools@),
    ) + model_line(json::opt_view(d.model)) + "---\n\n"@ + d.instructions@ + "\n"@
}

fn put_on_one_line(s: &str) -> (r: String)
    ensures
        r@ == one_line(s@),
{
    let words = text::split_white(s);
    text::join(&words, " ")
}

fn list_text(key: &str, names: &Vec<String>) -> (r: String)
    ensures
        r@ == list_line(key@, text::views(names@)),
{
    if names.len() == 0 {
        let none = String::new();
        assert(none@ =~= Seq::empty());
        return none;
    }
    let mut out = text::copy(key);
    let list = text::join(names, ", ");
    out.push_str(list.as_str());
    out.push_str("\n");
    out
}

pub fn agent_text(draft: &AgentDraft) -> (r: String)
    ensures
        r@ == file_text(*draft),
{
    let mut out = text::copy("---\nname: ");
    let name = put_on_one_line(draft.name.as_str());
    out.push_str(name.as_str());
    out.push_str("\ndescription: ");
    let description = put_on_one_line(draft.description.as_str());
    out.push_str(description.as_str());
    out.push_str("\n");
    let tools = list_text("tools: ", &draft.tools);
    out.push_str(tools.as_str());
    let denied = list_text("disallow_tools: ", &draft.disallow_tools);
    out.push_str(denied.as_str());
    let ghost before = out@;
    match &draft.model {
        Some(m) => {
            out.push_str("model: ");
            out.push_str(m.as_str());
            out.push_str("\n");
        },
        None => {},
    }
    assert(out@ =~= before + model_line(json::opt_view(draft.model)));
    out.push_str("---\n\n");
    out.push_str(draft.instructions.as_str());
    out.push_str("\n");
    out
}

} // verus!
