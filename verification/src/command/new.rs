//! Starting over.
use crate::command;
use crate::command::Command;
use crate::command::SummaryView;
use crate::types::events::CommandEffect;
use crate::types::events::CommandResult;
use crate::types::events::RuntimeToUiEvent;
use crate::types::message::Message;
use vstd::prelude::*;

verus! {

#[derive(Debug)]
pub struct NewCommand;

impl Command for NewCommand {
    open spec fn summary(&self) -> SummaryView {
        SummaryView {
            name: "new"@,
            aliases: seq!["clear"@],
            description: "清空当前会话，开始新对话"@,
            has_args: false,
            args_description: None,
        }
    }

    fn name(&self) -> (r: &'static str) {
        "new"
    }

    fn aliases(&self) -> (r: Vec<&'static str>) {
        let mut out: Vec<&'static str> = Vec::new();
        out.push("clear");
        assert(command::names_view(out@) =~= self.summary().aliases);
        out
    }

    fn description(&self) -> (r: &'static str) {
        "清空当前会话，开始新对话"
    }

    fn has_args(&self) -> (r: bool) {
        false
    }

    fn args_description(&self) -> (r: Option<&'static str>) {
        None
    }
}

/// Whether the effects show an empty session without a title.
pub open spec fn shows_nothing(effects: Seq<CommandEffect>) -> bool {
    &&& effects.len() == 2
    &&& effects[0] matches CommandEffect::Emit(
        RuntimeToUiEvent::SessionChanged { session_id, messages, subagents },
    ) && session_id is None && messages@.len() == 0 && subagents@.len() == 0
    &&& effects[1] == CommandEffect::Emit(RuntimeToUiEvent::SessionTitleChanged { title: None })
}

impl NewCommand {
    /// Forgets the session with its messages.
    pub fn execute(
        &self,
        session_id: &mut Option<String>,
        session_dir: &mut Option<String>,
        messages: &mut Vec<Message>,
    ) -> (r: CommandResult)
        ensures
            *final(session_id) is None,
            *final(session_dir) is None,
            final(messages)@ == Seq::<Message>::empty(),
            r matches CommandResult::Done(effects) && shows_nothing(effects@),
    {
        *session_id = None;
        *session_dir = None;
        messages.clear();
        let mut effects: Vec<CommandEffect> = Vec::new();
        effects.push(
            CommandEffect::Emit(
                RuntimeToUiEvent::SessionChanged {
                    session_id: None,
                    messages: Vec::new(),
                    subagents: Vec::new(),
                },
            ),
        );
        effects.push(CommandEffect::Emit(RuntimeToUiEvent::SessionTitleChanged { title: None }));
        CommandResult::Done(effects)
    }
}

} // verus!
