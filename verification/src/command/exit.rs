//! Leaving the program.
use crate::command;
use crate::command::Command;
use crate::command::SummaryView;
use crate::types::events::CommandEffect;
use crate::types::events::CommandResult;
use crate::types::events::RuntimeToUiEvent;
use vstd::prelude::*;

verus! {

#[derive(Debug)]
pub struct ExitCommand;

impl Command for ExitCommand {
    open spec fn summary(&self) -> SummaryView {
        SummaryView {
            name: "exit"@,
            aliases: seq!["quit"@],
            description: "退出程序"@,
            has_args: false,
            args_description: None,
        }
    }

    fn name(&self) -> (r: &'static str) {
        "exit"
    }

    fn aliases(&self) -> (r: Vec<&'static str>) {
        let mut out: Vec<&'static str> = Vec::new();
        out.push("quit");
        assert(command::names_view(out@) =~= self.summary().aliases);
        out
    }

    fn description(&self) -> (r: &'static str) {
        "退出程序"
    }

    fn has_args(&self) -> (r: bool) {
        false
    }

    fn args_description(&self) -> (r: Option<&'static str>) {
        None
    }
}

impl ExitCommand {
    pub fn execute(&self) -> (r: CommandResult)
        ensures
            r matches CommandResult::Done(effects) && effects@ == seq![
                CommandEffect::Emit(RuntimeToUiEvent::Shutdown),
            ],
    {
        let mut effects: Vec<CommandEffect> = Vec::new();
        effects.push(CommandEffect::Emit(RuntimeToUiEvent::Shutdown));
        assert(effects@ =~= seq![CommandEffect::Emit(RuntimeToUiEvent::Shutdown)]);
        CommandResult::Done(effects)
    }
}

} // verus!
