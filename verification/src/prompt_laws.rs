//! What the model is told holds what there is to tell.
use crate::prompts;
use crate::prompts::EnvironmentContext;
use crate::prompts::InstructionFile;
use crate::text::trimmed;
use vstd::prelude::*;

verus! {

/// Whether `part` stands in `s`.
pub open spec fn holds(s: Seq<char>, part: Seq<char>) -> bool {
    exists|a: Seq<char>, b: Seq<char>| s == #[trigger] (a + part + b)
}

/// Whether `part` stands in `s`, and behind it `next`.
pub open spec fn holds_both(s: Seq<char>, part: Seq<char>, next: Seq<char>) -> bool {
    exists|a: Seq<char>, b: Seq<char>, c: Seq<char>|
        s == #[trigger] (a + part + b + next + c)
}

pub proof fn lemma_holds(a: Seq<char>, part: Seq<char>, b: Seq<char>)
    ensures
        holds(a + part + b, part),
{
}

pub proof fn lemma_holds_within(a: Seq<char>, s: Seq<char>, b: Seq<char>, part: Seq<char>)
    requires
        holds(s, part),
    ensures
        holds(a + s + b, part),
{
    let (x, y) = choose|x: Seq<char>, y: Seq<char>| s == #[trigger] (x + part + y);
    assert(a + s + b =~= (a + x) + part + (y + b));
    lemma_holds(a + x, part, y + b);
}

/// The model is told each thing of the environment under what it is called.
pub proof fn law_environment_is_told(env: EnvironmentContext)
    ensures
        ({
            let s = prompts::environment(env);
            &&& holds(s, "- "@ + "Working directory"@ + ": `"@ + env.cwd@ + "`\n"@)
            &&& holds(s, "- "@ + "Command shell"@ + ": `"@ + env.command_shell@ + "`\n"@)
            &&& holds(s, "- "@ + "Current date"@ + ": `"@ + env.current_date@ + "`\n"@)
            &&& holds(s, "- "@ + "Timezone"@ + ": `"@ + env.timezone@ + "`\n"@)
            &&& holds(s, "- "@ + "Platform"@ + ": `"@ + env.platform@ + "`\n"@)
            &&& holds(s, "- "@ + "Architecture"@ + ": `"@ + env.architecture@ + "`\n"@)
            &&& env.is_git_repo ==> holds(s, "- "@ + "Git repository"@ + ": `"@ + "true"@ + "`\n"@)
            &&& !env.is_git_repo ==> holds(
                s,
                "- "@ + "Git repository"@ + ": `"@ + "false"@ + "`\n"@,
            )
            &&& env.os matches Some(os) ==> holds(s, "- "@ + "OS"@ + ": `"@ + os@ + "`\n"@)
            &&& env.kernel matches Some(k) ==> holds(s, "- "@ + "Kernel"@ + ": `"@ + k@ + "`\n"@)
            &&& env.login_shell matches Some(l) ==> holds(
                s,
                "- "@ + "Login shell"@ + ": `"@ + l@ + "`\n"@,
            )
        }),
{
    let f0 = "<environment_context>\n## Runtime\n\n"@;
    let f1 = prompts::fact("Working directory"@, env.cwd@);
    let f2 = prompts::fact("Command shell"@, env.command_shell@);
    let f3 = prompts::fact("Login shell"@, prompts::known(env.login_shell));
    let f4 = prompts::fact("Current date"@, env.current_date@);
    let f5 = prompts::fact("Timezone"@, env.timezone@);
    let f6 = prompts::fact("Platform"@, env.platform@);
    let f7 = prompts::fact("OS"@, prompts::known(env.os));
    let f8 = prompts::fact("Kernel"@, prompts::known(env.kernel));
    let f9 = prompts::fact("Architecture"@, env.architecture@);
    let f10 = prompts::fact(
        "Git repository"@,
        (if env.is_git_repo {
            "true"@
        } else {
            "false"@
        }),
    );
    let end = prompts::ENVIRONMENT_NOTES@;
    lemma_each(seq![f0, f1, f2, f3, f4, f5, f6, f7, f8, f9, f10, end]);
    let parts = seq![f0, f1, f2, f3, f4, f5, f6, f7, f8, f9, f10, end];
    lemma_twelve(f0, f1, f2, f3, f4, f5, f6, f7, f8, f9, f10, end);
    assert(all_in_a_row(parts) == prompts::environment(env));
    assert(holds(prompts::environment(env), parts[1]));
    assert(holds(prompts::environment(env), parts[2]));
    assert(holds(prompts::environment(env), parts[3]));
    assert(holds(prompts::environment(env), parts[4]));
    assert(holds(prompts::environment(env), parts[5]));
    assert(holds(prompts::environment(env), parts[6]));
    assert(holds(prompts::environment(env), parts[7]));
    assert(holds(prompts::environment(env), parts[8]));
    assert(holds(prompts::environment(env), parts[9]));
    assert(holds(prompts::environment(env), parts[10]));
}

/// The parts, one behind the other.
spec fn all_in_a_row(parts: Seq<Seq<char>>) -> Seq<char>
    decreases parts.len(),
{
    if parts.len() == 0 {
        Seq::empty()
    } else {
        all_in_a_row(parts.drop_last()) + parts.last()
    }
}

proof fn lemma_each(parts: Seq<Seq<char>>)
    ensures
        forall|i: int| 0 <= i < parts.len() ==> holds(all_in_a_row(parts), #[trigger] parts[i]),
    decreases parts.len(),
{
    if parts.len() > 0 {
        let less = parts.drop_last();
        let s = all_in_a_row(less);
        lemma_each(less);
        assert forall|i: int| 0 <= i < parts.len() implies holds(
            all_in_a_row(parts),
            #[trigger] parts[i],
        ) by {
            let e = Seq::<char>::empty();
            if i < less.len() {
                assert(less[i] == parts[i]);
                lemma_holds_within(e, s, parts.last(), parts[i]);
                assert(e + s + parts.last() =~= all_in_a_row(parts));
            } else {
                lemma_holds(s, parts[i], e);
                assert(s + parts[i] + e =~= all_in_a_row(parts));
            }
        }
    }
}

proof fn lemma_twelve(
    f0: Seq<char>,
    f1: Seq<char>,
    f2: Seq<char>,
    f3: Seq<char>,
    f4: Seq<char>,
    f5: Seq<char>,
    f6: Seq<char>,
    f7: Seq<char>,
    f8: Seq<char>,
    f9: Seq<char>,
    f10: Seq<char>,
    end: Seq<char>,
)
    ensures
        all_in_a_row(seq![f0, f1, f2, f3, f4, f5, f6, f7, f8, f9, f10, end]) == f0 + f1 + f2 + f3
            + f4 + f5 + f6 + f7 + f8 + f9 + f10 + end,
{
    let p0 = Seq::<Seq<char>>::empty();
    lemma_one_more(p0, f0);
    assert(all_in_a_row(p0.push(f0)) =~= f0);
    let p1 = p0.push(f0);
    lemma_one_more(p1, f1);
    let p2 = p1.push(f1);
    lemma_one_more(p2, f2);
    let p3 = p2.push(f2);
    lemma_one_more(p3, f3);
    let p4 = p3.push(f3);
    lemma_one_more(p4, f4);
    let p5 = p4.push(f4);
    lemma_one_more(p5, f5);
    let p6 = p5.push(f5);
    lemma_one_more(p6, f6);
    let p7 = p6.push(f6);
    lemma_one_more(p7, f7);
    let p8 = p7.push(f7);
    lemma_one_more(p8, f8);
    let p9 = p8.push(f8);
    lemma_one_more(p9, f9);
    let p10 = p9.push(f9);
    lemma_one_more(p10, f10);
    let p11 = p10.push(f10);
    lemma_one_more(p11, end);
    assert(seq![f0, f1, f2, f3, f4, f5, f6, f7, f8, f9, f10, end] =~= p11.push(end));
}

proof fn lemma_one_more(parts: Seq<Seq<char>>, part: Seq<char>)
    ensures
        all_in_a_row(parts.push(part)) == all_in_a_row(parts) + part,
{
    assert(parts.push(part).drop_last() =~= parts);
}

/// The model is told what the files with instructions say: those of the user first and those of
/// the project behind them.
pub proof fn law_instructions_are_told(global: InstructionFile, project: InstructionFile)
    ensures
        holds_both(
            prompts::instructions(Some(global), Some(project)),
            trimmed(global.content@),
            trimmed(project.content@),
        ),
        holds(prompts::instructions(Some(global), None), trimmed(global.content@)),
        holds(prompts::instructions(None, Some(project)), trimmed(project.content@)),
{
    let g = trimmed(global.content@);
    let p = trimmed(project.content@);
    let head = prompts::INSTRUCTIONS_HEAD@;
    let end = "</project_instructions>"@;
    let before_g = head + ("## Global Instructions\n\n"@ + ("Source: `"@ + global.path@
        + "`\n\n"@ + "```text\n"@));
    let tail = "\n```\n"@;
    let source_p = "## Project Instructions\n\n"@ + ("Source: `"@ + project.path@ + "`\n\n"@
        + "```text\n"@);
    let between = tail + "\n"@ + source_p;
    let both = prompts::instructions(Some(global), Some(project));
    assert(both =~= before_g + g + between + p + (tail + end));
    let one = prompts::instructions(Some(global), None);
    let rest = tail + "\n"@ + prompts::project_part(None) + end;
    assert(one =~= before_g + g + rest);
    lemma_holds(before_g, g, rest);
    let other = prompts::instructions(None, Some(project));
    let first = head + prompts::global_part(None) + source_p;
    assert(other =~= first + p + (tail + end));
    lemma_holds(first, p, tail + end);
}

/// The prompt holds both the instructions and the environment.
pub proof fn law_prompt_tells_all(
    env: EnvironmentContext,
    global: Option<InstructionFile>,
    project: Option<InstructionFile>,
)
    ensures
        holds(
            prompts::system_prompt(env, global, project),
            prompts::instructions(global, project),
        ),
        holds(prompts::system_prompt(env, global, project), prompts::environment(env)),
{
    let i = prompts::instructions(global, project);
    let e = prompts::environment(env);
    let before = "You are Omini, a coding agent running in the user's local terminal.\n\n"@
        + prompts::AGENT_IDENTITY@ + "\n"@ + prompts::CORE_BEHAVIOR@ + "\n"@
        + prompts::TOOL_INSTRUCTIONS@ + "\n"@;
    lemma_holds(before, i, "\n"@ + e);
    assert(before + i + ("\n"@ + e) =~= prompts::system_prompt(env, global, project));
    lemma_holds(before + i + "\n"@, e, Seq::empty());
    assert(before + i + "\n"@ + e + Seq::<char>::empty() =~= prompts::system_prompt(
        env,
        global,
        project,
    ));
}

} // verus!
