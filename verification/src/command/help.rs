//! Listing the commands.
use crate::command;
use crate::command::Command;
use crate::command::SummaryView;
use crate::command::CommandRegistry;
use crate::text;
use crate::types::events::CommandEffect;
use crate::types::events::CommandResult;
use crate::types::events::CommandSummary;
use vstd::prelude::*;

verus! {

#[derive(Debug)]
pub struct HelpCommand;

impl Command for HelpCommand {
    open spec fn summary(&self) -> SummaryView {
        SummaryView {
            name: "help"@,
            aliases: seq!["?"@],
            description: "显示帮助"@,
            has_args: false,
            args_description: None,
        }
    }

    fn name(&self) -> (r: &'static str) {
        "help"
    }

    fn aliases(&self) -> (r: Vec<&'static str>) {
        let mut out: Vec<&'static str> = Vec::new();
        out.push("?");
        assert(command::names_view(out@) =~= self.summary().aliases);
        out
    }

    fn description(&self) -> (r: &'static str) {
        "显示帮助"
    }

    fn has_args(&self) -> (r: bool) {
        false
    }

    fn args_description(&self) -> (r: Option<&'static str>) {
        None
    }
}

/// How a command is written in the listing: its name and the others it goes by.
pub open spec fn left_part(c: SummaryView) -> Seq<char> {
    if c.aliases.len() == 0 {
        "/"@ + c.name
    } else {
        "/"@ + c.name + " (别名: "@ + text::joined(c.aliases, ", "@) + ")"@
    }
}

/// The greatest number of characters that one of the commands takes.
pub open spec fn widest(commands: Seq<SummaryView>) -> int
    decreases commands.len(),
{
    if commands.len() == 0 {
        0
    } else {
        text::max_int(widest(commands.drop_last()), left_part(commands.last()).len() as int)
    }
}

/// The lines of the listing, with the descriptions below each other.
pub open spec fn help_lines(commands: Seq<SummaryView>, width: int) -> Seq<char>
    decreases commands.len(),
{
    if commands.len() == 0 {
        Seq::empty()
    } else {
        let left = left_part(commands.last());
        help_lines(commands.drop_last(), width) + "  "@ + left + text::repeated(
            ' ',
            width - left.len(),
        ) + "  — "@ + commands.last().description + "\n"@
    }
}

pub open spec fn help_text(commands: Seq<SummaryView>) -> Seq<char> {
    "可用的命令:\n"@ + help_lines(commands, widest(commands))
}

fn left_text(c: &CommandSummary) -> (r: String)
    ensures
        r@ == left_part(c@),
{
    let mut out = text::concat("/", c.name.as_str());
    if c.aliases.len() > 0 {
        out.push_str(" (别名: ");
        out.push_str(text::join(&c.aliases, ", ").as_str());
        out.push_str(")");
    }
    out
}

proof fn lemma_widest(commands: Seq<SummaryView>, i: int)
    requires
        0 <= i < commands.len(),
    ensures
        left_part(commands[i]).len() <= widest(commands),
    decreases commands.len(),
{
    if i < commands.len() - 1 {
        lemma_widest(commands.drop_last(), i);
        assert(commands.drop_last()[i] == commands[i]);
    }
}

pub fn build_help(commands: &Vec<CommandSummary>) -> (r: String)
    ensures
        r@ == help_text(command::summaries_view(commands@)),
{
    let ghost all = command::summaries_view(commands@);
    let mut width: usize = 0;
    let mut i: usize = 0;
    assert(all.take(0) =~= Seq::empty());
    while i < commands.len()
        invariant
            i <= commands@.len(),
            all == command::summaries_view(commands@),
            width == widest(all.take(i as int)),
        decreases commands@.len() - i,
    {
        assert(all.take(i + 1).drop_last() =~= all.take(i as int));
        assert(all.take(i + 1).last() == commands@[i as int]@);
        let left = left_text(&commands[i]);
        width = text::max_usize(width, text::char_count(left.as_str()));
        i = i + 1;
    }
    assert(all.take(all.len() as int) =~= all);
    let mut out = text::copy("可用的命令:\n");
    let ghost head = out@;
    assert(head + help_lines(all.take(0), width as int) =~= head);
    let mut j: usize = 0;
    while j < commands.len()
        invariant
            j <= commands@.len(),
            all == command::summaries_view(commands@),
            width == widest(all),
            out@ == head + help_lines(all.take(j as int), width as int),
        decreases commands@.len() - j,
    {
        let ghost before = out@;
        assert(all.take(j + 1).drop_last() =~= all.take(j as int));
        assert(all.take(j + 1).last() == commands@[j as int]@);
        let left = left_text(&commands[j]);
        proof {
            assert(all[j as int] == commands@[j as int]@);
            lemma_widest(all, j as int);
        }
        let pad = text::repeat(' ', width - text::char_count(left.as_str()));
        out.push_str("  ");
        out.push_str(left.as_str());
        out.push_str(pad.as_str());
        out.push_str("  — ");
        out.push_str(commands[j].description.as_str());
        out.push_str("\n");
        assert(out@ =~= head + help_lines(all.take(j + 1), width as int));
        j = j + 1;
    }
    assert(all.take(all.len() as int) =~= all);
    out
}

impl HelpCommand {
    pub fn execute(&self, registry: &CommandRegistry) -> (r: CommandResult)
        ensures
            r matches CommandResult::Done(effects) && effects@.len() == 1 && (effects@[0] matches
                CommandEffect::Notice(t) && t@ == help_text(command::commands_in(registry@))),
    {
        let commands = registry.summaries();
        let mut effects: Vec<CommandEffect> = Vec::new();
        effects.push(CommandEffect::Notice(build_help(&commands)));
        CommandResult::Done(effects)
    }
}

} // verus!
