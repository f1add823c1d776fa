//! Writing instructions for a project.
use crate::command;
use crate::command::Command;
use crate::command::SummaryView;
use crate::text;
use crate::types::display::DisplayMention;
use crate::types::display::DisplayMessage;
use crate::types::display::MentionKind;
use crate::types::events::CommandEffect;
use crate::types::events::CommandResult;
use crate::types::message::Message;
use crate::types::message::Role;
use vstd::prelude::*;

verus! {

pub const INIT_PROMPT: &'static str = "Analyze this repository and create or update an AGENTS.md file for future omini agents working in this project.\n\nThis is a repository-initialization task. Start by using the subagent tool for broad codebase exploration unless that tool is unavailable. The subagent work should be read-only and should report the project shape, common commands, and any important existing instruction files. After the subagent returns, verify the key findings yourself before writing.\n\nWhat to include in AGENTS.md:\n1. Common commands needed to work in this codebase, including build, lint/format, tests, running the app, and how to run a single focused test when applicable.\n2. High-level architecture and module relationships that are not obvious from listing files. Focus on the big-picture flow future agents need in order to be productive quickly.\n3. Important repository-specific instructions from README.md, existing AGENTS.md, other assistants' instruction files, .cursor/rules/, .cursorrules, or .github/copilot-instructions.md if those files exist.\n\nHow to write it:\n- If AGENTS.md already exists, merge in useful missing information instead of replacing unrelated guidance.\n- If only another assistant's instruction file exists, use it as source material, but write AGENTS.md for omini agents rather than for that assistant specifically.\n- Keep it concise and avoid generic engineering advice.\n- Do not include obvious rules such as keeping secrets out of commits or writing helpful error messages.\n- Do not invent sections like \"Common Development Tasks\", \"Tips\", or \"Support\" unless they are grounded in files you inspected.\n- Prefer concrete commands and concrete architecture notes over broad descriptions.\n\nBefore finishing, report whether AGENTS.md was created or updated and summarize the most important changes.";

/// What the model is asked, with the user's notes behind it.
pub open spec fn init_prompt(args: Seq<char>) -> Seq<char> {
    let notes = text::trimmed(args);
    if notes.len() == 0 {
        INIT_PROMPT@
    } else {
        INIT_PROMPT@ + "\n\nAdditional user notes for this initialization:\n"@ + notes
    }
}

/// What the user sees of the query: the command as typed, marked as a command.
pub open spec fn shows_init(d: DisplayMessage, args: Seq<char>, description: Seq<char>) -> bool {
    let notes = text::trimmed(args);
    &&& d.role == Role::User
    &&& d.text@ == (if notes.len() == 0 {
        "/init"@
    } else {
        "/init "@ + notes
    })
    &&& d.images@.len() == 0
    &&& d.mentions@.len() == 1
    &&& d.mentions@[0].start_char == 0
    &&& d.mentions@[0].end_char == 5
    &&& d.mentions@[0].kind == MentionKind::Command
    &&& d.mentions@[0].label@ == "init"@
    &&& d.mentions@[0].target@ == "init"@
    &&& d.mentions@[0].description@ == description
}

pub fn build_init_query(args: &str, description: &str) -> (r: (Message, DisplayMessage))
    ensures
        r.0@ == Message::user_text(init_prompt(args@)),
        shows_init(r.1, args@, description@),
{
    let mut prompt = text::copy(INIT_PROMPT);
    let notes = text::trim(args);
    let bare = text::char_count(notes.as_str()) == 0;
    if !bare {
        prompt.push_str("\n\nAdditional user notes for this initialization:\n");
        prompt.push_str(notes.as_str());
    }
    let display_text = if bare {
        text::copy("/init")
    } else {
        text::concat("/init ", notes.as_str())
    };
    let mut mentions: Vec<DisplayMention> = Vec::new();
    mentions.push(
        DisplayMention {
            start_char: 0,
            end_char: 5,
            kind: MentionKind::Command,
            label: text::copy("init"),
            target: text::copy("init"),
            description: text::copy(description),
        },
    );
    let display = DisplayMessage {
        role: Role::User,
        text: display_text,
        mentions,
        images: Vec::new(),
    };
    (Message::from_user_text(prompt), display)
}

#[derive(Debug)]
pub struct InitCommand;

impl Command for InitCommand {
    open spec fn summary(&self) -> SummaryView {
        SummaryView {
            name: "init"@,
            aliases: Seq::empty(),
            description: "分析项目并生成 AGENTS.md"@,
            has_args: false,
            args_description: None,
        }
    }

    fn name(&self) -> (r: &'static str) {
        "init"
    }

    fn aliases(&self) -> (r: Vec<&'static str>) {
        let out: Vec<&'static str> = Vec::new();
        assert(command::names_view(out@) =~= self.summary().aliases);
        out
    }

    fn description(&self) -> (r: &'static str) {
        "分析项目并生成 AGENTS.md"
    }

    fn has_args(&self) -> (r: bool) {
        false
    }

    fn args_description(&self) -> (r: Option<&'static str>) {
        None
    }
}

impl InitCommand {
    /// Where the command stands in listings.
    pub fn sort_weight(&self) -> (r: i32)
        ensures
            r == 50,
    {
        50
    }

    pub fn execute(&self, args: &str) -> (r: CommandResult)
        ensures
            r matches CommandResult::Done(effects) && effects@.len() == 1 && (effects@[0] matches
                CommandEffect::InjectUserQuery { llm_message, display_message } && llm_message@
                == Message::user_text(init_prompt(args@)) && shows_init(
                display_message,
                args@,
                self.summary().description,
            )),
    {
        let (llm_message, display_message) = build_init_query(args, self.description());
        let mut effects: Vec<CommandEffect> = Vec::new();
        effects.push(CommandEffect::InjectUserQuery { llm_message, display_message });
        CommandResult::Done(effects)
    }
}

} // verus!
