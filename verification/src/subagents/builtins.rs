//! The agents that are always there.
use crate::subagents::AgentSource;
use crate::subagents::AgentSpec;
use crate::subagents::AgentToolPolicy;
use crate::subagents::AgentView;
use crate::subagents::SourceView;
use crate::text;
use crate::tools;
use vstd::prelude::*;

verus! {

pub const DEFAULT_INSTRUCTIONS: &'static str = "You are a general-purpose isolated coding agent.\n\nWork directly from the parent agent's task prompt. Read enough context to avoid guessing, use tools when they materially improve the answer, and keep unrelated files untouched.\n\nWhen the task is investigative, return the key findings with concrete file/function references. When the task asks for implementation, make focused changes, run targeted verification when practical, and report what changed plus any remaining risk.\n\nReturn a concise final result for the parent agent. Do not attempt to spawn subagents.";

pub const EXPLORER_INSTRUCTIONS: &'static str = "You are a read-only exploration agent.\n\nYour job is to answer codebase questions by inspecting files, symbols, configuration, tests, and local documentation. Prefer precise evidence over broad summaries. Include relevant paths, function/type names, and the reasoning that connects the evidence to your conclusion.\n\nDo not edit files. Do not run commands whose purpose is to mutate source, generated assets, dependency manifests, or persistent project state. If a useful check may create build artifacts or caches, mention that tradeoff before relying on it.\n\nReturn a concise final report for the parent agent: findings first, then uncertainty or follow-up checks if any.";

pub const WORKER_INSTRUCTIONS: &'static str = "You are an implementation agent for a focused coding task.\n\nTreat the parent prompt as your scope. Inspect the surrounding code before editing, follow local patterns, and make the smallest coherent change that satisfies the request. Preserve unrelated user changes and avoid broad refactors unless they are necessary for correctness.\n\nWhen changing behavior, consider the nearest useful verification path: targeted unit tests, a focused build/check, or a small manual validation. If verification is not practical, state why.\n\nReturn a concise final result for the parent agent with changed files, verification performed, and any notable caveats. Do not attempt to spawn subagents.";

pub open spec fn default_view() -> AgentView {
    AgentView {
        name: "default"@,
        description: "General purpose isolated coding agent."@,
        instructions: DEFAULT_INSTRUCTIONS@,
        allow: Some(tools::default_names()),
        deny: None,
        model: None,
        source: SourceView::BuiltIn,
    }
}

fn default_agent() -> (r: AgentSpec)
    ensures
        r@ == default_view(),
{
    let allow = tools::inherited_subagent_tool_names();
    AgentSpec {
        name: text::copy("default"),
        description: text::copy("General purpose isolated coding agent."),
        instructions: text::copy(DEFAULT_INSTRUCTIONS),
        tool_policy: AgentToolPolicy { allow: Some(allow), deny: None },
        model: None,
        source: AgentSource::BuiltIn,
    }
}

pub open spec fn explorer_view() -> AgentView {
    AgentView {
        name: "explorer"@,
        description: "Read-only codebase exploration agent."@,
        instructions: EXPLORER_INSTRUCTIONS@,
        allow: Some(seq!["read"@, "bash"@]),
        deny: None,
        model: None,
        source: SourceView::BuiltIn,
    }
}

fn explorer_agent() -> (r: AgentSpec)
    ensures
        r@ == explorer_view(),
{
    let mut allow: Vec<String> = Vec::new();
    allow.push(text::copy("read"));
    allow.push(text::copy("bash"));
    assert(text::views(allow@) =~= seq!["read"@, "bash"@]);
    AgentSpec {
        name: text::copy("explorer"),
        description: text::copy("Read-only codebase exploration agent."),
        instructions: text::copy(EXPLORER_INSTRUCTIONS),
        tool_policy: AgentToolPolicy { allow: Some(allow), deny: None },
        model: None,
        source: AgentSource::BuiltIn,
    }
}

pub open spec fn worker_view() -> AgentView {
    AgentView {
        name: "worker"@,
        description: "Implementation agent for focused coding tasks."@,
        instructions: WORKER_INSTRUCTIONS@,
        allow: Some(tools::default_names()),
        deny: None,
        model: None,
        source: SourceView::BuiltIn,
    }
}

fn worker_agent() -> (r: AgentSpec)
    ensures
        r@ == worker_view(),
{
    let allow = tools::inherited_subagent_tool_names();
    AgentSpec {
        name: text::copy("worker"),
        description: text::copy("Implementation agent for focused coding tasks."),
        instructions: text::copy(WORKER_INSTRUCTIONS),
        tool_policy: AgentToolPolicy { allow: Some(allow), deny: None },
        model: None,
        source: AgentSource::BuiltIn,
    }
}

pub open spec fn agents_view(agents: Seq<AgentSpec>) -> Seq<AgentView> {
    Seq::new(agents.len(), |i: int| agents[i]@)
}

pub open spec fn built_ins() -> Seq<AgentView> {
    seq![default_view(), explorer_view(), worker_view()]
}

pub fn built_in_agents() -> (r: Vec<AgentSpec>)
    ensures
        agents_view(r@) == built_ins(),
{
    let mut out: Vec<AgentSpec> = Vec::new();
    out.push(default_agent());
    out.push(explorer_agent());
    out.push(worker_agent());
    assert(agents_view(out@) =~= built_ins());
    out
}

/// The built-in agents have different names.
pub proof fn lemma_built_in_names()
    ensures
        default_view().name != explorer_view().name,
        default_view().name != worker_view().name,
        explorer_view().name != worker_view().name,
{
    reveal_strlit("default");
    reveal_strlit("explorer");
    reveal_strlit("worker");
    assert("default"@[0] == 'd');
    assert("explorer"@[0] == 'e');
    assert("worker"@[0] == 'w');
}

} // verus!
