//! A command is read as it was written, and the listing shows each of them.
use crate::command;
use crate::command::help;
use crate::command::SummaryView;
use crate::prompt_laws::holds;
use crate::prompt_laws::lemma_holds;
use crate::prompt_laws::lemma_holds_within;
use crate::text;
use crate::text::trimmed;
use crate::text::white;
use crate::text_laws;
use vstd::prelude::*;

verus! {

proof fn lemma_white_at(s: Seq<char>, from: int, at: int)
    requires
        0 <= from <= at <= s.len(),
        forall|i: int| from <= i < at ==> !white(#[trigger] s[i]),
        at < s.len() ==> white(s[at]),
    ensures
        command::white_from(s, from) == (if at < s.len() {
            Some(at)
        } else {
            None
        }),
    decreases at - from,
{
    if from < at {
        lemma_white_at(s, from + 1, at);
    }
}

/// A command is read back under its name and with its arguments, with white space round it or
/// without.
pub proof fn law_command_is_read_back(
    before: Seq<char>,
    name: Seq<char>,
    args: Seq<char>,
    after: Seq<char>,
)
    requires
        forall|i: int| 0 <= i < before.len() ==> white(#[trigger] before[i]),
        forall|i: int| 0 <= i < after.len() ==> white(#[trigger] after[i]),
        forall|i: int| 0 <= i < name.len() ==> !white(#[trigger] name[i]),
        args.len() > 0 ==> !white(args[0]) && !white(args.last()),
    ensures
        command::command_in(before + (seq!['/'] + name) + after) == Some(
            (name, Seq::<char>::empty()),
        ),
        args.len() > 0 ==> command::command_in(before + (seq!['/'] + name + seq![' '] + args) + after)
            == Some((name, args)),
{
    assert(!white('/') && white(' '));
    let short = seq!['/'] + name;
    if name.len() > 0 {
        assert(short.last() == name[name.len() - 1]);
    }
    text_laws::law_trimmed(before, short, after);
    assert(short.skip(1) =~= name);
    lemma_white_at(name, 0, name.len() as int);
    if args.len() > 0 {
        let whole = seq!['/'] + name + seq![' '] + args;
        assert(whole.last() == args.last());
        text_laws::law_trimmed(before, whole, after);
        let rest = whole.skip(1);
        assert(rest =~= name + seq![' '] + args);
        let n = name.len() as int;
        assert forall|i: int| 0 <= i < n implies !white(#[trigger] rest[i]) by {
            assert(rest[i] == name[i]);
        }
        lemma_white_at(rest, 0, n);
        assert(rest.take(n) =~= name);
        assert(rest.skip(n + 1) =~= args);
        text_laws::lemma_trimmed_is_same(args);
    }
}

/// What does not start with a slash is no command.
pub proof fn law_message_is_no_command(before: Seq<char>, s: Seq<char>, after: Seq<char>)
    requires
        forall|i: int| 0 <= i < before.len() ==> white(#[trigger] before[i]),
        forall|i: int| 0 <= i < after.len() ==> white(#[trigger] after[i]),
        s.len() > 0 ==> !white(s[0]) && !white(s.last()) && s[0] != '/',
    ensures
        command::command_in(before + s + after) is None,
{
    text_laws::law_trimmed(before, s, after);
}

/// The line of the listing for a command whose description starts at `column`.
pub open spec fn listed(c: SummaryView, column: int) -> Seq<char> {
    "  "@ + help::left_part(c) + text::repeated(' ', column - help::left_part(c).len()) + "  — "@
        + c.description + "\n"@
}

proof fn lemma_listed(commands: Seq<SummaryView>, width: int, i: int)
    requires
        0 <= i < commands.len(),
    ensures
        holds(help::help_lines(commands, width), listed(commands[i], width)),
    decreases commands.len(),
{
    let less = commands.drop_last();
    let done = help::help_lines(less, width);
    let line = listed(commands.last(), width);
    let e = Seq::<char>::empty();
    if i < less.len() {
        lemma_listed(less, width, i);
        lemma_holds_within(e, done, line, listed(less[i], width));
        assert(e + done + line =~= help::help_lines(commands, width));
    } else {
        lemma_holds(done, line, e);
        assert(done + line + e =~= help::help_lines(commands, width));
    }
}

proof fn lemma_widest(commands: Seq<SummaryView>, i: int)
    requires
        0 <= i < commands.len(),
    ensures
        help::left_part(commands[i]).len() <= help::widest(commands),
    decreases commands.len(),
{
    if i < commands.len() - 1 {
        lemma_widest(commands.drop_last(), i);
    }
}

/// The listing has a line for each command, with its name in front and its description behind it,
/// and all descriptions start in one column.
pub proof fn law_each_command_is_listed(commands: Seq<SummaryView>, i: int)
    requires
        0 <= i < commands.len(),
    ensures
        holds(help::help_text(commands), listed(commands[i], help::widest(commands))),
        help::left_part(commands[i]).len() <= help::widest(commands),
        help::left_part(commands[i]).take(1 + commands[i].name.len() as int) == seq!['/']
            + commands[i].name,
{
    let width = help::widest(commands);
    lemma_listed(commands, width, i);
    lemma_widest(commands, i);
    let e = Seq::<char>::empty();
    let lines = help::help_lines(commands, width);
    let c = commands[i];
    let head = help::help_text(Seq::empty());
    assert(head =~= "可用的命令:\n"@);
    lemma_holds_within(head, lines, e, listed(c, width));
    assert(head + lines + e =~= help::help_text(commands));
    reveal_strlit("/");
    assert("/"@ =~= seq!['/']);
    assert(help::left_part(c).take(1 + c.name.len() as int) =~= seq!['/'] + c.name);
}

} // verus!
