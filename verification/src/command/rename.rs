//! Giving a session another title.
use crate::command;
use crate::command::Command;
use crate::command::SummaryView;
use crate::text;
use crate::types::events::CommandEffect;
use crate::types::events::CommandResult;
use crate::types::events::RuntimeToUiEvent;
use vstd::prelude::*;

verus! {

/// How many characters of a title are kept.
pub const MAX_TITLE_CHARS: usize = 300;

#[derive(Debug)]
pub struct RenameCommand;

impl Command for RenameCommand {
    open spec fn summary(&self) -> SummaryView {
        SummaryView {
            name: "rename"@,
            aliases: Seq::empty(),
            description: "重命名当前会话"@,
            has_args: true,
            args_description: Some("<name>"@),
        }
    }

    fn name(&self) -> (r: &'static str) {
        "rename"
    }

    fn aliases(&self) -> (r: Vec<&'static str>) {
        let out: Vec<&'static str> = Vec::new();
        assert(command::names_view(out@) =~= self.summary().aliases);
        out
    }

    fn description(&self) -> (r: &'static str) {
        "重命名当前会话"
    }

    fn has_args(&self) -> (r: bool) {
        true
    }

    fn args_description(&self) -> (r: Option<&'static str>) {
        Some("<name>")
    }
}

/// The title that a session gets, or why it gets none.
pub open spec fn new_title(has_session: bool, args: Seq<char>) -> Result<Seq<char>, Seq<char>> {
    if !has_session {
        Err("当前没有激活的会话，无法重命名"@)
    } else if text::trimmed(args).len() == 0 {
        Err("请提供新名称，用法: /rename <新名称>"@)
    } else {
        Ok(text::first_chars(text::trimmed(args), MAX_TITLE_CHARS as int))
    }
}

impl RenameCommand {
    /// The title to store.
    pub fn title(&self, has_session: bool, args: &str) -> (r: Result<String, String>)
        ensures
            match r {
                Ok(t) => new_title(has_session, args@) == Ok::<Seq<char>, Seq<char>>(t@),
                Err(e) => new_title(has_session, args@) == Err::<Seq<char>, Seq<char>>(e@),
            },
    {
        if !has_session {
            return Err(text::copy("当前没有激活的会话，无法重命名"));
        }
        let t = text::trim(args);
        if text::char_count(t.as_str()) == 0 {
            return Err(text::copy("请提供新名称，用法: /rename <新名称>"));
        }
        Ok(text::take_chars(t.as_str(), MAX_TITLE_CHARS))
    }

    /// The outcome, once the title was stored or could not be.
    pub fn execute(&self, title: String, stored: Result<(), String>) -> (r: CommandResult)
        ensures
            match stored {
                Ok(_) => r matches CommandResult::Done(effects) && effects@ == seq![
                    CommandEffect::Emit(
                        RuntimeToUiEvent::SessionTitleChanged { title: Some(title) },
                    ),
                ],
                Err(e) => r matches CommandResult::Error(m) && m@ == "重命名失败: "@ + e@,
            },
    {
        match stored {
            Err(e) => CommandResult::Error(text::concat("重命名失败: ", e.as_str())),
            Ok(_) => {
                let mut effects: Vec<CommandEffect> = Vec::new();
                effects.push(
                    CommandEffect::Emit(
                        RuntimeToUiEvent::SessionTitleChanged { title: Some(title) },
                    ),
                );
                CommandResult::Done(effects)
            },
        }
    }
}

} // verus!
