//! What the tools say of what they did.
use crate::engine;
use crate::paths;
use crate::text;
use crate::tools;
use crate::tools::bash_tool;
use crate::tools::bash_tool::ShellOutcome;
use crate::tools::patch_apply;
use crate::tools::patch_run;
use crate::tools::apply_patch_tool::HunkView;
use crate::tools::subagent_tool;
use crate::tools::write_tool;
use crate::tools::write_tool::TargetFacts;
use crate::tools::ResultView;
use crate::types::events::EditPermissionPreview;
use crate::types::message::ToolResultView;
use crate::types::message::ToolUseView;
use vstd::prelude::*;

verus! {

/// A command gets the time it asks for, and never more than ten minutes; two minutes where it
/// asks for none.
pub proof fn law_time_of_a_command(t: u64)
    ensures
        bash_tool::time_for(None) == 120000,
        t <= 600000 ==> bash_tool::time_for(Some(t)) == t,
        t > 600000 ==> bash_tool::time_for(Some(t)) == 600000,
{
}

/// A command that ended is no error of the tool, whatever its exit code; one that could not be
/// started or took too long is. What it printed comes back without white space at the ends, and a
/// failure with its exit code in front and what it wrote to both of its outputs.
pub proof fn law_command_is_reported(timeout: Option<u64>, outcome: ShellOutcome)
    ensures
        bash_tool::shell_result(timeout, outcome).is_error <==> !(outcome is Ended),
        outcome matches ShellOutcome::Ended { success, code, stdout, stderr } ==> {
            let out = text::utf8_lossy(stdout@);
            let err = text::utf8_lossy(stderr@);
            let r = bash_tool::shell_result(timeout, outcome);
            &&& success && out.len() > 0 ==> r.output == text::trimmed(out)
            &&& !success ==> (code matches Some(c) ==> r.output == text::trimmed(
                "Exit code: "@ + text::signed_decimal(c as int) + "\n"@ + out + "\n"@ + err,
            ))
        },
        outcome matches ShellOutcome::NotStarted(e) ==> bash_tool::shell_result(
            timeout,
            outcome,
        ).output == "Failed to spawn shell: "@ + e@,
{
}

/// A file is written only at an absolute path, in a directory that is there, and never in place of
/// a directory; whether a file was there is told as it is.
pub proof fn law_target_of_a_write(path: Seq<char>, facts: TargetFacts)
    ensures
        write_tool::target(path, facts) is Ok <==> text::trimmed(path).len() > 0
            && paths::absolute(path) && paths::parent_of(path) is Some && facts.parent_exists
            && facts.parent_is_dir && !facts.is_dir,
        write_tool::target(path, facts) matches Ok(existed) ==> existed == facts.exists,
{
}

/// The lines that a text spans are one more than its line feeds, and none where it is empty.
pub proof fn law_lines_of_a_write(s: Seq<char>, c: char)
    ensures
        write_tool::lines_spanned(Seq::empty()) == 0,
        s.len() > 0 ==> write_tool::lines_spanned(s.push(c)) == write_tool::lines_spanned(s) + (
        if c == '\n' {
            1int
        } else {
            0
        }),
        s.len() == 0 ==> write_tool::lines_spanned(s.push(c)) == (if c == '\n' {
            2int
        } else {
            1
        }),
{
    assert(s.push(c).drop_last() =~= s);
    if s.len() == 0 {
        assert(s =~= Seq::empty());
        reveal_with_fuel(write_tool::breaks_in, 2);
    }
}

/// The user is shown, before a write, the file that is written and whether it is made or
/// overwritten.
pub proof fn law_write_is_shown_first(
    input: write_tool::WriteInput,
    existed: bool,
    p: EditPermissionPreview,
)
    requires
        write_tool::previews(input, existed, p),
    ensures
        p.path@ == input.file_path@,
        existed ==> p.summary@ == "Overwrite "@ + input.file_path@,
        !existed ==> p.summary@ == "Create "@ + input.file_path@,
        p.added_lines == write_tool::lines_spanned(input.content@),
        p.removed_lines == 0,
{
}

/// A write is reported as done exactly where its target was still right and it succeeded, with
/// the file that was written and whether it was made or overwritten.
pub proof fn law_write_is_reported(
    prepared: write_tool::PreparedWrite,
    checked: Result<bool, Seq<char>>,
    trouble: Option<Seq<char>>,
)
    ensures
        ({
            let r = write_tool::reported(prepared, checked, trouble);
            &&& r is Ok <==> checked is Ok && trouble is None
            &&& r matches Ok(done) ==> {
                &&& done.2 == checked->Ok_0
                &&& checked->Ok_0 ==> done.0 == "Overwrote "@ + prepared.input.file_path@
                &&& !checked->Ok_0 ==> done.0 == "Created "@ + prepared.input.file_path@
                &&& done.1 == write_tool::lines_spanned(prepared.input.content@)
            }
            &&& checked matches Err(e) ==> r == Err::<(Seq<char>, int, bool), Seq<char>>(e)
        }),
{
}

/// A call has its answer under its own id: what the tool said where it ran, and an error where it
/// was cancelled or no tool has its name.
pub proof fn law_call_has_its_answer(
    call: ToolUseView,
    cancelled: bool,
    ran: Option<ResultView>,
)
    ensures
        ({
            let a = engine::answered(call, cancelled, ran);
            &&& a.tool_use_id == call.id
            &&& !cancelled ==> (ran matches Some(r) ==> a.content == r.output && a.is_error
                == r.is_error && a.metadata == r.metadata)
            &&& cancelled || ran is None ==> a.is_error && a.metadata is None
            &&& cancelled ==> a.content == "Execution cancelled"@
            &&& !cancelled && ran is None ==> a.content == "Unknown tool: "@ + call.name
        }),
{
}

/// Of several results of one call the last counts, and a result says nothing of other calls.
pub proof fn law_last_result_counts(
    results: Seq<ToolResultView>,
    r: ToolResultView,
    other: Seq<char>,
)
    ensures
        engine::answer_to(results.push(r), r.tool_use_id) == Some(r),
        other != r.tool_use_id ==> engine::answer_to(results.push(r), other) == engine::answer_to(
            results,
            other,
        ),
        engine::answer_to(Seq::empty(), other) is None,
{
    if other != r.tool_use_id {
        lemma_same_place(results, r, other, results.len() as int);
        lemma_place_range(results, other, results.len() as int);
    }
}

proof fn lemma_place_range(results: Seq<ToolResultView>, id: Seq<char>, n: int)
    ensures
        engine::answer_place(results, id, n) matches Some(i) ==> 0 <= i < n,
    decreases n,
{
    if n > 0 {
        lemma_place_range(results, id, n - 1);
    }
}

proof fn lemma_same_place(
    results: Seq<ToolResultView>,
    r: ToolResultView,
    id: Seq<char>,
    n: int,
)
    requires
        0 <= n <= results.len(),
    ensures
        engine::answer_place(results.push(r), id, n) == engine::answer_place(results, id, n),
    decreases n,
{
    if n > 0 {
        lemma_same_place(results, r, id, n - 1);
        assert(results.push(r)[n - 1] == results[n - 1]);
    }
}

/// An agent is run with a name and a task and in a session, but not in that of another agent.
pub proof fn law_agent_is_run_with_a_task(
    name: Seq<char>,
    prompt: Seq<char>,
    session_type: Option<Seq<char>>,
)
    ensures
        subagent_tool::input_error(name, prompt) is None <==> text::trimmed(name).len() > 0
            && text::trimmed(prompt).len() > 0,
        subagent_tool::place_error(session_type) is None <==> session_type is Some && session_type
            != Some("subagent"@),
{
}

/// What an update says of itself is right: as many more lines were added than removed as the file
/// has grown by; where a hunk keeps no line, all its old lines count as removed and all its new
/// ones as added.
pub proof fn law_update_counts_its_lines(
    path: Seq<char>,
    p: patch_run::Progress,
    h: HunkView,
    number: int,
)
    requires
        h.before.len() <= p.lines.len(),
    ensures
        patch_run::one_update(path, p, h, number) matches Ok(q) ==> {
            &&& (q.added - p.added) - (q.removed - p.removed) == q.lines.len() - p.lines.len()
            &&& q.offset - p.offset == q.lines.len() - p.lines.len()
            &&& (forall|i: int| 0 <= i < h.before.len() ==> !h.after.contains(#[trigger] h.before[i]))
                ==> q.removed - p.removed == h.before.len() && q.added - p.added == h.after.len()
        },
{
    match patch_run::moved_place(p.lines, h, p.offset) {
        Ok(at) => {
            if h.is_end_of_file {
                patch_apply::law_end_of_file_is_matched(p.lines, h);
            } else {
                lemma_place_positive(p.lines, h, p.offset);
            }
            if forall|i: int| 0 <= i < h.before.len() ==> !h.after.contains(#[trigger] h.before[i]) {
                lemma_none_kept(h.before, h.after, h.before.len() as int);
            }
        },
        Err(_) => {},
    }
}

proof fn lemma_place_positive(lines: Seq<Seq<char>>, h: HunkView, offset: int)
    requires
        !h.is_end_of_file,
    ensures
        patch_run::moved_place(lines, h, offset) matches Ok(at) ==> 0 <= at && at + h.before.len()
            <= lines.len(),
{
    let anchor = h.line_anchor + offset;
    if anchor >= 0 {
        let moved = HunkView {
            line_anchor: if anchor == 0 {
                1
            } else {
                text::min_int(anchor, usize::MAX as int)
            },
            ..h
        };
        if h.before.len() > 0 && patch_apply::hunk_place(lines, moved) is Ok {
            patch_apply::law_place_is_right(lines, moved);
        }
    }
}

proof fn lemma_none_kept(before: Seq<Seq<char>>, after: Seq<Seq<char>>, n: int)
    requires
        0 <= n <= before.len(),
        forall|i: int| 0 <= i < before.len() ==> !after.contains(#[trigger] before[i]),
    ensures
        patch_run::kept_lines(before, after, n).len() == 0,
    decreases n,
{
    if n > 0 {
        lemma_none_kept(before, after, n - 1);
        assert(!after.contains(before[n - 1]));
    }
}

/// A success and a failure are told apart and say what they were given to say.
pub proof fn law_results_are_told_apart(output: Seq<char>)
    ensures
        !tools::fine(output).is_error,
        tools::failed(output).is_error,
        tools::fine(output).output == output,
        tools::failed(output).output == output,
        tools::fine(output).metadata is None,
{
}

} // verus!
