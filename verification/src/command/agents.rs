//! Looking at the agents and changing them.
use crate::command;
use crate::command::Command;
use crate::command::SummaryView;
use crate::types::config::ProviderProfile;
use crate::types::events::AgentManagement;
use crate::types::events::AgentRecord;
use crate::types::events::CommandEffect;
use crate::types::events::CommandResult;
use vstd::prelude::*;

verus! {

#[derive(Debug)]
pub struct AgentsCommand;

impl Command for AgentsCommand {
    open spec fn summary(&self) -> SummaryView {
        SummaryView {
            name: "agents"@,
            aliases: Seq::empty(),
            description: "管理 agent"@,
            has_args: false,
            args_description: None,
        }
    }

    fn name(&self) -> (r: &'static str) {
        "agents"
    }

    fn aliases(&self) -> (r: Vec<&'static str>) {
        let out: Vec<&'static str> = Vec::new();
        assert(command::names_view(out@) =~= self.summary().aliases);
        out
    }

    fn description(&self) -> (r: &'static str) {
        "管理 agent"
    }

    fn has_args(&self) -> (r: bool) {
        false
    }

    fn args_description(&self) -> (r: Option<&'static str>) {
        None
    }
}

impl AgentsCommand {
    /// Where the command stands in listings.
    pub fn sort_weight(&self) -> (r: i32)
        ensures
            r == 35,
    {
        35
    }

    pub fn execute(
        &self,
        records: Vec<AgentRecord>,
        providers: Vec<(String, ProviderProfile)>,
        current_provider: String,
        current_model: String,
    ) -> (r: CommandResult)
        ensures
            r matches CommandResult::Done(effects) && effects@ == seq![
                CommandEffect::ManageAgents(
                    AgentManagement { records, providers, current_provider, current_model },
                ),
            ],
    {
        let mut effects: Vec<CommandEffect> = Vec::new();
        effects.push(
            CommandEffect::ManageAgents(
                AgentManagement { records, providers, current_provider, current_model },
            ),
        );
        CommandResult::Done(effects)
    }
}

} // verus!
