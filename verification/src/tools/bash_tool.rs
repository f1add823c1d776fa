//! Running shell commands.
use crate::text;
use crate::tools;
use crate::tools::ResultView;
use crate::tools::ToolResult;
use vstd::prelude::*;

verus! {

pub const DESCRIPTION: &'static str = "Execute a shell command and returns its output. The working directory persists between commands, but shell state does not.";

/// The time a command gets where the call names none, in milliseconds.
pub const DEFAULT_TIMEOUT_MS: u64 = 120000;

/// The most time a command can get, in milliseconds.
pub const MAX_TIMEOUT_MS: u64 = 600000;

#[derive(Debug, PartialEq, Eq)]
pub struct BashInput {
    pub command: String,
    pub description: Option<String>,
    pub timeout: Option<u64>,
    pub workdir: Option<String>,
}

#[derive(Debug)]
pub struct BashTool;

/// How running a command ended.
#[derive(Debug)]
pub enum ShellOutcome {
    NotStarted(String),
    TimedOut,
    Ended { success: bool, code: Option<i32>, stdout: Vec<u8>, stderr: Vec<u8> },
}

/// The time that a call gets: what it asks for, up to the most there is.
pub open spec fn time_for(timeout: Option<u64>) -> u64 {
    match timeout {
        Some(t) => if t < MAX_TIMEOUT_MS {
            t
        } else {
            MAX_TIMEOUT_MS
        },
        None => DEFAULT_TIMEOUT_MS,
    }
}

/// What a command that ended printed: what it wrote, or with its exit code where it failed.
pub open spec fn printed(
    success: bool,
    code: Option<i32>,
    stdout: Seq<char>,
    stderr: Seq<char>,
) -> Seq<char> {
    if success {
        if stdout.len() == 0 {
            "(no output)"@
        } else {
            stdout
        }
    } else {
        "Exit code: "@ + (match code {
            Some(c) => text::signed_decimal(c as int),
            None => "?"@,
        }) + "\n"@ + stdout + "\n"@ + stderr
    }
}

/// The result of a command that was given `timeout`.
pub open spec fn shell_result(timeout: Option<u64>, outcome: ShellOutcome) -> ResultView {
    match outcome {
        ShellOutcome::NotStarted(e) => tools::failed("Failed to spawn shell: "@ + e@),
        ShellOutcome::TimedOut => tools::failed(
            "Command timed out after "@ + text::decimal(time_for(timeout) as int) + "ms"@,
        ),
        ShellOutcome::Ended { success, code, stdout, stderr } => tools::fine(
            text::trimmed(
                printed(success, code, text::utf8_lossy(stdout@), text::utf8_lossy(stderr@)),
            ),
        ),
    }
}

impl BashTool {
    pub fn name(&self) -> (r: &'static str)
        ensures
            r@ == "bash"@,
    {
        "bash"
    }

    pub fn description(&self) -> (r: &'static str)
        ensures
            r@ == DESCRIPTION@,
    {
        DESCRIPTION
    }

    /// How many milliseconds the command may take.
    pub fn timeout(&self, input: &BashInput) -> (r: u64)
        ensures
            r == time_for(input.timeout),
    {
        match input.timeout {
            Some(t) => if t < MAX_TIMEOUT_MS {
                t
            } else {
                MAX_TIMEOUT_MS
            },
            None => DEFAULT_TIMEOUT_MS,
        }
    }

    /// The result of the call, by how running its command ended.
    pub fn execute(&self, input: &BashInput, outcome: ShellOutcome) -> (r: ToolResult)
        ensures
            r@ == shell_result(input.timeout, outcome),
    {
        match outcome {
            ShellOutcome::NotStarted(e) => ToolResult::error(
                text::concat("Failed to spawn shell: ", e.as_str()),
            ),
            ShellOutcome::TimedOut => {
                let mut m = text::concat(
                    "Command timed out after ",
                    text::decimal_of(self.timeout(input)).as_str(),
                );
                m.push_str("ms");
                ToolResult::error(m)
            },
            ShellOutcome::Ended { success, code, stdout, stderr } => {
                let out = text::lossy_text(&stdout);
                let err = text::lossy_text(&stderr);
                let all = output_text(success, code, out.as_str(), err.as_str());
                ToolResult::ok(text::trim(all.as_str()))
            },
        }
    }
}

/// What a command that ended printed.
pub fn output_text(success: bool, code: Option<i32>, stdout: &str, stderr: &str) -> (r: String)
    ensures
        r@ == printed(success, code, stdout@, stderr@),
{
    if success {
        if text::char_count(stdout) == 0 {
            text::copy("(no output)")
        } else {
            text::copy(stdout)
        }
    } else {
        let mut m = text::copy("Exit code: ");
        match code {
            Some(c) => {
                m.push_str(text::signed_decimal_of(c as i64).as_str());
            },
            None => {
                m.push_str("?");
            },
        }
        m.push_str("\n");
        m.push_str(stdout);
        m.push_str("\n");
        m.push_str(stderr);
        m
    }
}

} // verus!
