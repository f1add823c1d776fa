//! Agents that the main agent can hand a task to.
use crate::text;
use vstd::prelude::*;

pub mod agent_laws;
pub mod builtins;
pub mod files;
pub mod parser;
pub mod registry;
pub mod run_laws;
pub mod runner;

verus! {

#[derive(Debug, PartialEq, Eq)]
pub struct AgentModelSpec {
    pub provider: String,
    pub model: String,
}

/// The tools an agent may use: all but the denied ones, of the allowed ones where these are
/// listed.
#[derive(Debug, PartialEq, Eq)]
pub struct AgentToolPolicy {
    pub allow: Option<Vec<String>>,
    pub deny: Option<Vec<String>>,
}

/// Where an agent comes from.
#[derive(Debug, PartialEq, Eq)]
pub enum AgentSource {
    BuiltIn,
    File(String),
}

#[derive(Debug, PartialEq, Eq)]
pub struct AgentSpec {
    pub name: String,
    pub description: String,
    pub instructions: String,
    pub tool_policy: AgentToolPolicy,
    pub model: Option<AgentModelSpec>,
    pub source: AgentSource,
}

#[verifier::ext_equal]
pub enum SourceView {
    BuiltIn,
    File(Seq<char>),
}

/// What an agent is, with texts as character sequences.
#[verifier::ext_equal]
pub struct AgentView {
    pub name: Seq<char>,
    pub description: Seq<char>,
    pub instructions: Seq<char>,
    pub allow: Option<Seq<Seq<char>>>,
    pub deny: Option<Seq<Seq<char>>>,
    pub model: Option<(Seq<char>, Seq<char>)>,
    pub source: SourceView,
}

pub open spec fn list_of(list: Option<Vec<String>>) -> Option<Seq<Seq<char>>> {
    match list {
        Some(v) => Some(text::views(v@)),
        None => None,
    }
}

pub open spec fn model_view(model: Option<AgentModelSpec>) -> Option<(Seq<char>, Seq<char>)> {
    match model {
        Some(m) => Some((m.provider@, m.model@)),
        None => None,
    }
}

impl View for AgentSource {
    type V = SourceView;

    open spec fn view(&self) -> SourceView {
        match self {
            AgentSource::BuiltIn => SourceView::BuiltIn,
            AgentSource::File(path) => SourceView::File(path@),
        }
    }
}

impl View for AgentSpec {
    type V = AgentView;

    open spec fn view(&self) -> AgentView {
        AgentView {
            name: self.name@,
            description: self.description@,
            instructions: self.instructions@,
            allow: list_of(self.tool_policy.allow),
            deny: list_of(self.tool_policy.deny),
            model: model_view(self.model),
            source: self.source@,
        }
    }
}

} // verus!
