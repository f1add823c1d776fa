//! What the runtime tells the user interface when it starts.
use crate::order;
use crate::subagents::registry;
use crate::subagents::registry::AgentRegistry;
use crate::text;
use crate::types::events::AgentSummary;
use crate::types::events::CommandSummary;
use crate::types::events::RuntimeToUiEvent;
use vstd::prelude::*;

verus! {

/// Whether `list` has the agents of the registry, by name, with what each is for.
pub open spec fn lists_agents(list: Seq<AgentSummary>, agents: AgentRegistry) -> bool {
    &&& order::ordered(registry::summary_names(list))
    &&& registry::summary_names(list).to_multiset() == registry::names(
        agents@.agents,
    ).to_multiset()
    &&& forall|i: int|
        0 <= i < list.len() ==> (registry::agent_named(
            agents@.agents,
            (#[trigger] list[i]).name@,
        ) matches Some(a) && list[i].description@ == a.description)
}

pub open spec fn warns(e: RuntimeToUiEvent, what: Seq<char>, note: Seq<char>) -> bool {
    e matches RuntimeToUiEvent::Warning(m) && m@ == what + note
}

/// The commands and the agents, and then a warning for each agent file and each permission rule
/// that could not be read.
pub fn startup_events(
    commands: Vec<CommandSummary>,
    agents: &AgentRegistry,
    permission_notes: &Vec<String>,
) -> (r: Vec<RuntimeToUiEvent>)
    requires
        agents@.diagnostics.len() + permission_notes@.len() + 2 <= usize::MAX,
    ensures
        r@.len() == 2 + agents@.diagnostics.len() + permission_notes@.len(),
        r@[0] == RuntimeToUiEvent::CommandList(commands),
        r@[1] matches RuntimeToUiEvent::AgentList(list) && lists_agents(list@, *agents),
        forall|i: int|
            0 <= i < agents@.diagnostics.len() ==> warns(
                #[trigger] r@[2 + i],
                "Subagent: "@,
                agents@.diagnostics[i],
            ),
        forall|i: int|
            0 <= i < permission_notes@.len() ==> warns(
                #[trigger] r@[2 + agents@.diagnostics.len() + i],
                "Permission: "@,
                permission_notes@[i]@,
            ),
{
    let mut out: Vec<RuntimeToUiEvent> = Vec::new();
    out.push(RuntimeToUiEvent::CommandList(commands));
    out.push(RuntimeToUiEvent::AgentList(agents.summaries()));
    let ghost head = out@;
    let n: usize = agents.diagnostics.len();
    let mut i: usize = 0;
    while i < n
        invariant
            i <= n,
            n == agents.diagnostics@.len(),
            n == agents@.diagnostics.len(),
            out@.len() == 2 + i,
            out@[0] == head[0],
            out@[1] == head[1],
            forall|k: int|
                0 <= k < i ==> warns(
                    #[trigger] out@[2 + k],
                    "Subagent: "@,
                    agents@.diagnostics[k],
                ),
        decreases n - i,
    {
        let note = text::concat("Subagent: ", agents.diagnostics[i].message());
        out.push(RuntimeToUiEvent::Warning(note));
        i = i + 1;
    }
    let mut j: usize = 0;
    while j < permission_notes.len()
        invariant
            j <= permission_notes@.len(),
            n == agents@.diagnostics.len(),
            out@.len() == 2 + n + j,
            out@[0] == head[0],
            out@[1] == head[1],
            forall|k: int|
                0 <= k < n ==> warns(
                    #[trigger] out@[2 + k],
                    "Subagent: "@,
                    agents@.diagnostics[k],
                ),
            forall|k: int|
                0 <= k < j ==> warns(
                    #[trigger] out@[2 + n + k],
                    "Permission: "@,
                    permission_notes@[k]@,
                ),
        decreases permission_notes@.len() - j,
    {
        let note = text::concat("Permission: ", permission_notes[j].as_str());
        out.push(RuntimeToUiEvent::Warning(note));
        j = j + 1;
    }
    out
}

} // verus!
