//! Going back to an earlier session.
use crate::command;
use crate::command::Command;
use crate::command::SummaryView;
use crate::db::Session;
use crate::text;
use crate::types::events::CommandEffect;
use crate::types::events::CommandResult;
use crate::types::events::InteractionRequest;
use crate::types::events::SessionSummary;
use vstd::prelude::*;

verus! {

#[derive(Debug)]
pub struct SessionsCommand;

impl Command for SessionsCommand {
    open spec fn summary(&self) -> SummaryView {
        SummaryView {
            name: "sessions"@,
            aliases: seq!["resume"@],
            description: "切换会话"@,
            has_args: false,
            args_description: None,
        }
    }

    fn name(&self) -> (r: &'static str) {
        "sessions"
    }

    fn aliases(&self) -> (r: Vec<&'static str>) {
        let mut out: Vec<&'static str> = Vec::new();
        out.push("resume");
        assert(command::names_view(out@) =~= self.summary().aliases);
        out
    }

    fn description(&self) -> (r: &'static str) {
        "切换会话"
    }

    fn has_args(&self) -> (r: bool) {
        false
    }

    fn args_description(&self) -> (r: Option<&'static str>) {
        None
    }
}

/// What is shown of a stored session; one without a title has an empty one.
pub open spec fn summarizes(m: SessionSummary, s: Session) -> bool {
    &&& m.id == s.id
    &&& m.title@ == (match s.title {
        Some(t) => t@,
        None => Seq::empty(),
    })
    &&& m.model == s.model
    &&& m.provider == s.provider
    &&& m.message_count == s.message_count
    &&& m.created_at == s.created_at
}

fn summary_of(s: &Session) -> (r: SessionSummary)
    ensures
        summarizes(r, *s),
{
    let title = match &s.title {
        Some(t) => t.clone(),
        None => String::new(),
    };
    SessionSummary {
        id: s.id.clone(),
        title,
        model: s.model.clone(),
        provider: s.provider.clone(),
        message_count: s.message_count,
        created_at: s.created_at,
    }
}

/// The effect that puts the stored sessions before the user, in the order given.
pub open spec fn offers(effects: Seq<CommandEffect>, sessions: Seq<Session>) -> bool {
    &&& effects.len() == 1
    &&& effects[0] matches CommandEffect::ShowInteraction(
        InteractionRequest::SessionSelection { sessions: shown },
    ) && shown@.len() == sessions.len() && forall|i: int|
        0 <= i < sessions.len() ==> summarizes(#[trigger] shown@[i], sessions[i])
}

impl SessionsCommand {
    pub fn execute(&self, stored: Result<Vec<Session>, String>) -> (r: CommandResult)
        ensures
            match stored {
                Ok(sessions) => r matches CommandResult::Done(effects) && offers(
                    effects@,
                    sessions@,
                ),
                Err(e) => r matches CommandResult::Error(m) && m@ == "获取会话列表失败: "@ + e@,
            },
    {
        let sessions = match stored {
            Ok(sessions) => sessions,
            Err(e) => {
                return CommandResult::Error(text::concat("获取会话列表失败: ", e.as_str()));
            },
        };
        let mut shown: Vec<SessionSummary> = Vec::new();
        let mut i: usize = 0;
        while i < sessions.len()
            invariant
                i <= sessions@.len(),
                shown@.len() == i,
                forall|k: int| 0 <= k < i ==> summarizes(#[trigger] shown@[k], sessions@[k]),
            decreases sessions@.len() - i,
        {
            shown.push(summary_of(&sessions[i]));
            i = i + 1;
        }
        let mut effects: Vec<CommandEffect> = Vec::new();
        effects.push(
            CommandEffect::ShowInteraction(InteractionRequest::SessionSelection { sessions: shown }),
        );
        CommandResult::Done(effects)
    }
}

} // verus!
