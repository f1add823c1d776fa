//! What the model is told before a conversation.
use crate::json;
use crate::text;
use vstd::prelude::*;

verus! {

pub const COMMAND_SHELL: &'static str = "sh -c";

pub const AGENT_IDENTITY: &'static str = "<agent_identity>\n## Role\n\n- You are a pragmatic software engineering agent.\n- You help the user inspect, modify, test, and explain code in the current workspace.\n- You operate through the available tools and the local terminal environment.\n\n## Priorities\n\n- Follow the user's latest request.\n- Respect project instructions and existing code conventions.\n- Prefer small, focused changes over broad rewrites.\n- Verify meaningful changes when a reasonable verification path exists.\n</agent_identity>";

pub const CORE_BEHAVIOR: &'static str = "<core_behavior>\n## Working Style\n\n- Read the relevant code before making non-trivial changes.\n- Prefer existing project patterns, dependencies, and naming conventions.\n- Keep edits scoped to the task.\n- Do not rewrite unrelated code.\n- Do not discard or overwrite user changes unless the user explicitly asks for it.\n\n## Communication\n\n- Be direct and concise.\n- Explain important assumptions and tradeoffs.\n- If blocked, state the blocker and the next practical option.\n- Use the user's language unless there is a clear reason to do otherwise.\n\n## Code Editing\n\n- Use the available file editing tool whenever possible.\n- Preserve formatting style already used by the file.\n- Add comments only when they clarify non-obvious logic.\n\n## Verification\n\n- Run targeted tests, builds, formatters, or checks when they are relevant and available.\n- If verification cannot be run, explain why.\n</core_behavior>";

pub const TOOL_INSTRUCTIONS: &'static str = "<tool_instructions>\n## Shell\n\n- Commands are executed with `sh -c`.\n- Run commands relative to the current working directory unless another directory is specified.\n- Prefer `rg` for searching text or files.\n- Avoid destructive commands unless the user explicitly requested them.\n\n## Git Safety\n\n- Before git write operations, inspect the current repository state.\n- Do not use destructive git operations such as `git reset --hard`, forced checkout, or forced clean unless the user explicitly asks for them.\n- Do not revert unrelated changes.\n\n## Python\n\n- Use `uv run` instead of invoking `python` or `python3` directly.\n</tool_instructions>";

/// What is known of the machine and the working directory.
#[derive(Debug, PartialEq, Eq)]
pub struct EnvironmentContext {
    pub cwd: String,
    pub command_shell: String,
    pub login_shell: Option<String>,
    pub current_date: String,
    pub timezone: String,
    pub platform: String,
    pub os: Option<String>,
    pub kernel: Option<String>,
    pub architecture: String,
    pub is_git_repo: bool,
}

/// A file with instructions for the model.
#[derive(Debug, PartialEq, Eq)]
pub struct InstructionFile {
    pub path: String,
    pub content: String,
}

/// How a file's instructions are put into the prompt.
pub open spec fn instruction_text(file: InstructionFile) -> Seq<char> {
    "Source: `"@ + file.path@ + "`\n\n"@ + "```text\n"@ + text::trimmed(file.content@)
        + "\n```\n"@
}

fn append_instruction_file(section: &mut String, file: &InstructionFile)
    ensures
        final(section)@ == old(section)@ + instruction_text(*file),
{
    let ghost before = section@;
    section.push_str("Source: `");
    section.push_str(file.path.as_str());
    section.push_str("`\n\n");
    section.push_str("```text\n");
    section.push_str(text::trim(file.content.as_str()).as_str());
    section.push_str("\n```\n");
    assert(section@ =~= before + instruction_text(*file));
}

pub const INSTRUCTIONS_HEAD: &'static str = "<project_instructions>\n## Priority\n\n- Project `AGENTS.md` instructions override global `~/.omini/AGENTS.md` instructions.\n- Apply the most specific instruction when multiple instruction sources overlap.\n- If project instructions conflict with the user's latest request, explain the conflict before proceeding.\n\n";

pub open spec fn global_part(global: Option<InstructionFile>) -> Seq<char> {
    "## Global Instructions\n\n"@ + (match global {
        Some(file) => instruction_text(file) + "\n"@,
        None => "- No global `~/.omini/AGENTS.md` file was found.\n\n"@,
    })
}

pub open spec fn project_part(project: Option<InstructionFile>) -> Seq<char> {
    "## Project Instructions\n\n"@ + (match project {
        Some(file) => instruction_text(file),
        None => "- No project `AGENTS.md` file was found in the current working directory.\n"@,
    })
}

/// The instructions of the user and of the project, and which of them come first.
pub open spec fn instructions(
    global: Option<InstructionFile>,
    project: Option<InstructionFile>,
) -> Seq<char> {
    INSTRUCTIONS_HEAD@ + global_part(global) + project_part(project) + "</project_instructions>"@
}

pub fn project_instructions_section(
    global: &Option<InstructionFile>,
    project: &Option<InstructionFile>,
) -> (r: String)
    ensures
        r@ == instructions(*global, *project),
{
    let mut s = text::copy(INSTRUCTIONS_HEAD);
    let ghost head = s@;
    s.push_str("## Global Instructions\n\n");
    match global {
        Some(file) => {
            append_instruction_file(&mut s, file);
            s.push_str("\n");
        },
        None => {
            s.push_str("- No global `~/.omini/AGENTS.md` file was found.\n\n");
        },
    }
    assert(s@ =~= head + global_part(*global));
    s.push_str("## Project Instructions\n\n");
    match project {
        Some(file) => {
            append_instruction_file(&mut s, file);
        },
        None => {
            s.push_str(
                "- No project `AGENTS.md` file was found in the current working directory.\n",
            );
        },
    }
    assert(s@ =~= head + global_part(*global) + project_part(*project));
    s.push_str("</project_instructions>");
    s
}

/// A line of the environment: what it says and the value, in backquotes.
pub open spec fn fact(label: Seq<char>, value: Seq<char>) -> Seq<char> {
    "- "@ + label + ": `"@ + value + "`\n"@
}

fn push_fact(s: &mut String, label: &str, value: &str)
    ensures
        final(s)@ == old(s)@ + fact(label@, value@),
{
    let ghost before = s@;
    s.push_str("- ");
    s.push_str(label);
    s.push_str(": `");
    s.push_str(value);
    s.push_str("`\n");
    assert(s@ =~= before + fact(label@, value@));
}

/// The value, or `unknown` where there is none.
pub open spec fn known(value: Option<String>) -> Seq<char> {
    match value {
        Some(v) => v@,
        None => "unknown"@,
    }
}

fn or_unknown(value: &Option<String>) -> (r: &str)
    ensures
        r@ == known(*value),
{
    match value {
        Some(v) => v.as_str(),
        None => "unknown",
    }
}

pub const ENVIRONMENT_NOTES: &'static str = "\n## Notes\n\n- Paths are local filesystem paths.\n- Commands run relative to the working directory unless stated otherwise.\n- This prompt does not assume a sandbox, approval system, or isolated filesystem.\n</environment_context>";

/// What the model is told of the environment.
pub open spec fn environment(env: EnvironmentContext) -> Seq<char> {
    "<environment_context>\n## Runtime\n\n"@
        + fact("Working directory"@, env.cwd@)
        + fact("Command shell"@, env.command_shell@)
        + fact("Login shell"@, known(env.login_shell))
        + fact("Current date"@, env.current_date@)
        + fact("Timezone"@, env.timezone@)
        + fact("Platform"@, env.platform@)
        + fact("OS"@, known(env.os))
        + fact("Kernel"@, known(env.kernel))
        + fact("Architecture"@, env.architecture@)
        + fact("Git repository"@, (if env.is_git_repo { "true"@ } else { "false"@ }))
        + ENVIRONMENT_NOTES@
}

pub fn environment_context_section(env: &EnvironmentContext) -> (r: String)
    ensures
        r@ == environment(*env),
{
    let mut s = text::copy("<environment_context>\n## Runtime\n\n");
    push_fact(&mut s, "Working directory", env.cwd.as_str());
    push_fact(&mut s, "Command shell", env.command_shell.as_str());
    push_fact(&mut s, "Login shell", or_unknown(&env.login_shell));
    push_fact(&mut s, "Current date", env.current_date.as_str());
    push_fact(&mut s, "Timezone", env.timezone.as_str());
    push_fact(&mut s, "Platform", env.platform.as_str());
    push_fact(&mut s, "OS", or_unknown(&env.os));
    push_fact(&mut s, "Kernel", or_unknown(&env.kernel));
    push_fact(&mut s, "Architecture", env.architecture.as_str());
    let git = if env.is_git_repo {
        "true"
    } else {
        "false"
    };
    push_fact(&mut s, "Git repository", git);
    s.push_str(ENVIRONMENT_NOTES);
    s
}

/// The whole prompt.
pub open spec fn system_prompt(
    env: EnvironmentContext,
    global: Option<InstructionFile>,
    project: Option<InstructionFile>,
) -> Seq<char> {
    "You are Omini, a coding agent running in the user's local terminal.\n\n"@ + AGENT_IDENTITY@
        + "\n"@ + CORE_BEHAVIOR@ + "\n"@ + TOOL_INSTRUCTIONS@ + "\n"@ + instructions(
        global,
        project,
    ) + "\n"@ + environment(env)
}

pub fn build_system_prompt(
    env: &EnvironmentContext,
    global: &Option<InstructionFile>,
    project: &Option<InstructionFile>,
) -> (r: String)
    ensures
        r@ == system_prompt(*env, *global, *project),
{
    let mut p = text::copy("You are Omini, a coding agent running in the user's local terminal.\n\n");
    p.push_str(AGENT_IDENTITY);
    p.push_str("\n");
    p.push_str(CORE_BEHAVIOR);
    p.push_str("\n");
    p.push_str(TOOL_INSTRUCTIONS);
    p.push_str("\n");
    p.push_str(project_instructions_section(global, project).as_str());
    p.push_str("\n");
    p.push_str(environment_context_section(env).as_str());
    p
}

/// The instructions of the file at `path`; none where it cannot be read or is blank.
pub fn load_instruction_file(path: &str, content: Option<String>) -> (r: Option<InstructionFile>)
    ensures
        match content {
            Some(c) => if text::trimmed(c@).len() == 0 {
                r is None
            } else {
                r matches Some(f) && f.path@ == path@ && f.content@ == text::trimmed(c@)
            },
            None => r is None,
        },
{
    match content {
        None => None,
        Some(c) => {
            let t = text::trim(c.as_str());
            if text::char_count(t.as_str()) == 0 {
                None
            } else {
                Some(InstructionFile { path: text::copy(path), content: t })
            }
        },
    }
}

/// A value that is there and not blank.
pub open spec fn filled(value: Option<Seq<char>>) -> Option<Seq<char>> {
    match value {
        Some(v) => if text::trimmed(v).len() == 0 {
            None
        } else {
            Some(v)
        },
        None => None,
    }
}

/// The value of an environment variable, where it is not blank.
pub fn non_empty_env(value: Option<String>) -> (r: Option<String>)
    ensures
        json::opt_view(r) == filled(json::opt_view(value)),
{
    match value {
        None => None,
        Some(v) => {
            let t = text::trim(v.as_str());
            if text::char_count(t.as_str()) == 0 {
                None
            } else {
                Some(v)
            }
        },
    }
}

/// The time zone: that of the variable, else that of the file, else none that is known.
pub open spec fn zone(tz: Option<Seq<char>>, file: Option<Seq<char>>) -> Seq<char> {
    match filled(tz) {
        Some(z) => z,
        None => match file {
            Some(f) => if text::trimmed(f).len() == 0 {
                "unknown"@
            } else {
                text::trimmed(f)
            },
            None => "unknown"@,
        },
    }
}

pub fn detect_timezone(tz: Option<String>, file: Option<String>) -> (r: String)
    ensures
        r@ == zone(json::opt_view(tz), json::opt_view(file)),
{
    match non_empty_env(tz) {
        Some(z) => z,
        None => match file {
            Some(f) => {
                let t = text::trim(f.as_str());
                if text::char_count(t.as_str()) == 0 {
                    text::copy("unknown")
                } else {
                    t
                }
            },
            None => text::copy("unknown"),
        },
    }
}

/// A value of the release file without the quotes round it.
pub open spec fn without_quotes(value: Seq<char>) -> Seq<char> {
    let t = text::trimmed(value);
    if t.len() >= 2 && t[0] == '"' && t.last() == '"' {
        t.subrange(1, t.len() - 1)
    } else {
        t
    }
}

pub fn unquote_os_release_value(value: &str) -> (r: String)
    ensures
        r@ == without_quotes(value@),
{
    let t = text::trim(value);
    let chars = text::chars_of(t.as_str());
    let n: usize = chars.len();
    if n >= 2 && chars[0] == '"' && chars[n - 1] == '"' {
        text::string_of(&chars, 1, n - 1)
    } else {
        t
    }
}

/// The name of the system in the lines of the release file from `from` on.
pub open spec fn pretty_name(lines: Seq<Seq<char>>, from: int) -> Option<Seq<char>>
    decreases lines.len() - from,
{
    if from >= lines.len() {
        None
    } else if text::has_prefix(lines[from], "PRETTY_NAME="@) {
        Some(without_quotes(lines[from].skip(12)))
    } else {
        pretty_name(lines, from + 1)
    }
}

pub fn detect_os_pretty_name(content: &str) -> (r: Option<String>)
    ensures
        json::opt_view(r) == pretty_name(text::lines_of(content@), 0),
{
    let lines = text::lines(content);
    let ghost all = text::lines_of(content@);
    let mut i: usize = 0;
    proof {
        reveal_strlit("PRETTY_NAME=");
    }
    while i < lines.len()
        invariant
            i <= lines@.len(),
            all == text::lines_of(content@),
            all == text::views(lines@),
            "PRETTY_NAME="@.len() == 12,
            pretty_name(all, 0) == pretty_name(all, i as int),
        decreases lines@.len() - i,
    {
        assert(all[i as int] == lines@[i as int]@);
        match text::strip_prefix(lines[i].as_str(), "PRETTY_NAME=") {
            Some(value) => {
                return Some(unquote_os_release_value(value.as_str()));
            },
            None => {},
        }
        i = i + 1;
    }
    None
}

/// The name and release of the kernel, where both are known.
pub open spec fn kernel_name(os: Seq<char>, release: Seq<char>) -> Option<Seq<char>> {
    if text::trimmed(os).len() == 0 || text::trimmed(release).len() == 0 {
        None
    } else {
        Some(text::trimmed(os) + " "@ + text::trimmed(release))
    }
}

pub fn detect_kernel(os: &str, release: &str) -> (r: Option<String>)
    ensures
        json::opt_view(r) == kernel_name(os@, release@),
{
    let a = text::trim(os);
    let b = text::trim(release);
    if text::char_count(a.as_str()) == 0 || text::char_count(b.as_str()) == 0 {
        None
    } else {
        let mut out = text::concat(a.as_str(), " ");
        out.push_str(b.as_str());
        Some(out)
    }
}

} // verus!
