//! Choosing a model.
use crate::command;
use crate::command::Command;
use crate::command::SummaryView;
use crate::types::config::ProviderProfile;
use crate::types::events::CommandEffect;
use crate::types::events::CommandResult;
use crate::types::events::InteractionRequest;
use vstd::prelude::*;

verus! {

#[derive(Debug)]
pub struct ModelCommand;

impl Command for ModelCommand {
    open spec fn summary(&self) -> SummaryView {
        SummaryView {
            name: "model"@,
            aliases: Seq::empty(),
            description: "切换模型"@,
            has_args: false,
            args_description: None,
        }
    }

    fn name(&self) -> (r: &'static str) {
        "model"
    }

    fn aliases(&self) -> (r: Vec<&'static str>) {
        let out: Vec<&'static str> = Vec::new();
        assert(command::names_view(out@) =~= self.summary().aliases);
        out
    }

    fn description(&self) -> (r: &'static str) {
        "切换模型"
    }

    fn has_args(&self) -> (r: bool) {
        false
    }

    fn args_description(&self) -> (r: Option<&'static str>) {
        None
    }
}

impl ModelCommand {
    /// Puts the models of all providers before the user.
    pub fn execute(
        &self,
        providers: Vec<(String, ProviderProfile)>,
        current_provider: String,
        current_model: String,
    ) -> (r: CommandResult)
        ensures
            r matches CommandResult::Done(effects) && effects@ == seq![
                CommandEffect::ShowInteraction(
                    InteractionRequest::ModelSelection {
                        providers,
                        current_provider,
                        current_model,
                    },
                ),
            ],
    {
        let mut effects: Vec<CommandEffect> = Vec::new();
        effects.push(
            CommandEffect::ShowInteraction(
                InteractionRequest::ModelSelection { providers, current_provider, current_model },
            ),
        );
        CommandResult::Done(effects)
    }
}

} // verus!
