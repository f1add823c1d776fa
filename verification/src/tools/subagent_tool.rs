//! The tool that hands a task to another agent.
use crate::json;
use crate::text;
use crate::tools;
use crate::tools::ResultView;
use crate::tools::ToolResult;
use vstd::prelude::*;

verus! {

pub const DESCRIPTION: &'static str = "Run an isolated subagent for a focused task and wait for its final result.\n\nInput fields:\n  name    The subagent name to run.\n  prompt  The concrete task for that subagent. This field is required.\n  title   Optional short UI title for this subagent task.\n\nThe subagent has its own session, context, system instructions, and tool allowlist. Its intermediate messages are hidden from the main context. You may call this tool multiple times in one assistant turn to run subagents in parallel.\n\nBuilt-in subagents: default, explorer, worker. Custom subagents are loaded from .omini/agents/*.md in the current workspace.";

/// How many characters of a title are kept.
pub const MAX_TITLE_CHARS: usize = 80;

#[derive(Debug, PartialEq, Eq)]
pub struct SubagentInput {
    pub name: String,
    pub prompt: String,
    pub title: Option<String>,
}

#[derive(Debug)]
pub struct SubagentTool;

/// The title that is shown: trimmed and cut, and none where nothing is left of it.
pub open spec fn shown_title(title: Option<Seq<char>>) -> Option<Seq<char>> {
    match title {
        Some(t) => if text::trimmed(t).len() == 0 {
            None
        } else {
            Some(text::first_chars(text::trimmed(t), MAX_TITLE_CHARS as int))
        },
        None => None,
    }
}

/// Why an input cannot be run, if it cannot.
pub open spec fn input_error(name: Seq<char>, prompt: Seq<char>) -> Option<ResultView> {
    if text::trimmed(name).len() == 0 {
        Some(tools::failed("name must not be empty"@))
    } else if text::trimmed(prompt).len() == 0 {
        Some(tools::failed("prompt must not be empty"@))
    } else {
        None
    }
}

/// Why the tool cannot run where it was called, if it cannot. `session_type` is the type of the
/// session that the call runs in, where there is one.
pub open spec fn place_error(session_type: Option<Seq<char>>) -> Option<ResultView> {
    match session_type {
        None => Some(tools::failed("subagent requires runtime context"@)),
        Some(t) => if t == "subagent"@ {
            Some(tools::failed("subagent tool is not available inside subagents"@))
        } else {
            None
        },
    }
}

impl SubagentTool {
    pub fn name(&self) -> (r: &'static str)
        ensures
            r@ == "subagent"@,
    {
        "subagent"
    }

    pub fn description(&self) -> (r: &'static str)
        ensures
            r@ == DESCRIPTION@,
    {
        DESCRIPTION
    }

    pub fn prepare(&self, input: SubagentInput) -> (r: Result<SubagentInput, ToolResult>)
        ensures
            match r {
                Ok(p) => input_error(input.name@, input.prompt@) is None && p.name == input.name
                    && p.prompt == input.prompt && json::opt_view(p.title) == shown_title(
                    json::opt_view(input.title),
                ),
                Err(e) => input_error(input.name@, input.prompt@) == Some(e@),
            },
    {
        let name = text::trim(input.name.as_str());
        if text::char_count(name.as_str()) == 0 {
            return Err(ToolResult::error(text::copy("name must not be empty")));
        }
        let prompt = text::trim(input.prompt.as_str());
        if text::char_count(prompt.as_str()) == 0 {
            return Err(ToolResult::error(text::copy("prompt must not be empty")));
        }
        let title = match input.title {
            Some(t) => {
                let t = text::trim(t.as_str());
                if text::char_count(t.as_str()) == 0 {
                    None
                } else {
                    Some(text::take_chars(t.as_str(), MAX_TITLE_CHARS))
                }
            },
            None => None,
        };
        Ok(SubagentInput { name: input.name, prompt: input.prompt, title })
    }

    /// Whether the tool may run in a session of the given type.
    pub fn check_session(&self, session_type: Option<&str>) -> (r: Option<ToolResult>)
        ensures
            match r {
                Some(e) => place_error(
                    match session_type {
                        Some(t) => Some(t@),
                        None => None,
                    },
                ) == Some(e@),
                None => place_error(
                    match session_type {
                        Some(t) => Some(t@),
                        None => None,
                    },
                ) is None,
            },
    {
        match session_type {
            None => Some(ToolResult::error(text::copy("subagent requires runtime context"))),
            Some(t) => if text::same(t, "subagent") {
                Some(
                    ToolResult::error(
                        text::copy("subagent tool is not available inside subagents"),
                    ),
                )
            } else {
                None
            },
        }
    }
}

/// A prepared title has at most `MAX_TITLE_CHARS` characters and is never empty.
pub proof fn law_title_is_short(title: Option<Seq<char>>)
    ensures
        shown_title(title) matches Some(t) ==> 0 < t.len() <= MAX_TITLE_CHARS,
{
}

} // verus!
