//! Running a patch: what its hunks make of a file, and the report on its operations.
use crate::text;
use crate::tools::apply_patch_tool;
use crate::tools::apply_patch_tool::Hunk;
use crate::tools::apply_patch_tool::HunkView;
use crate::tools::patch_apply;
use crate::tools::patch_apply::MatchError;
use crate::tools::patch_apply::MatchFault;
use vstd::prelude::*;

verus! {

/// A file after the hunks of an update, and how much they changed.
#[derive(Debug)]
pub struct UpdateOutcome {
    pub content: String,
    pub hunks: usize,
    pub removed: usize,
    pub added: usize,
}

/// How far an update has come.
pub struct Progress {
    pub lines: Seq<Seq<char>>,
    pub offset: int,
    pub removed: int,
    pub added: int,
}

/// The distinct lines among the first `n` of `before` that are in `after` too.
pub open spec fn kept_lines(before: Seq<Seq<char>>, after: Seq<Seq<char>>, n: int) -> Seq<
    Seq<char>,
>
    decreases n,
{
    if n <= 0 {
        Seq::empty()
    } else {
        let found = kept_lines(before, after, n - 1);
        if after.contains(before[n - 1]) && !found.contains(before[n - 1]) {
            found.push(before[n - 1])
        } else {
            found
        }
    }
}

proof fn lemma_kept_lines(before: Seq<Seq<char>>, after: Seq<Seq<char>>, n: int)
    requires
        0 <= n <= before.len(),
    ensures
        kept_lines(before, after, n).len() <= n,
        kept_lines(before, after, n).len() <= after.len(),
{
    lemma_kept_distinct(before, after, n);
    let found = kept_lines(before, after, n);
    found.unique_seq_to_set();
    after.lemma_cardinality_of_set();
    assert(found.to_set().subset_of(after.to_set())) by {
        assert forall|x: Seq<char>| found.to_set().contains(x) implies after.to_set().contains(
            x,
        ) by {
            assert(found.contains(x));
            let i = choose|i: int| 0 <= i < found.len() && found[i] == x;
            assert(after.contains(found[i]));
        }
    }
    vstd::set_lib::lemma_len_subset(found.to_set(), after.to_set());
}

proof fn lemma_kept_distinct(before: Seq<Seq<char>>, after: Seq<Seq<char>>, n: int)
    requires
        0 <= n <= before.len(),
    ensures
        kept_lines(before, after, n).len() <= n,
        kept_lines(before, after, n).no_duplicates(),
        forall|i: int|
            0 <= i < kept_lines(before, after, n).len() ==> after.contains(
                #[trigger] kept_lines(before, after, n)[i],
            ),
    decreases n,
{
    if n > 0 {
        lemma_kept_distinct(before, after, n - 1);
        let found = kept_lines(before, after, n - 1);
        let all = kept_lines(before, after, n);
        assert forall|i: int| 0 <= i < all.len() implies after.contains(#[trigger] all[i]) by {
            if i < found.len() {
                assert(all[i] == found[i]);
            }
        }
        assert forall|i: int, j: int| 0 <= i < j < all.len() implies all[i] != all[j] by {
            assert(all[i] == found[i]);
            if j < found.len() {
                assert(all[j] == found[j]);
            } else {
                assert(found.contains(found[i]));
            }
        }
    }
}

/// How the failure to place a hunk is told.
pub open spec fn fault_text(number: int, anchor: int, path: Seq<char>, fault: MatchFault) -> Seq<
    char,
> {
    let head = "Hunk "@ + text::decimal(number) + " (L"@ + text::decimal(anchor) + ") for "@ + path;
    match fault {
        MatchFault::NotFound(hint) => head + ": Could not find matching context\n"@ + (match hint {
            Some((line, what)) => "  Closest match at line "@ + text::decimal(line) + ": "@ + what,
            None => "  No similar content found in file."@,
        }),
        MatchFault::Ambiguous(positions) => head
            + ": Context matches at multiple locations:\n  "@ + text::joined(
            Seq::new(positions.len(), |i: int| "line "@ + text::decimal(positions[i])),
            ", "@,
        ) + "\n Use a more specific line number or add more context lines."@,
    }
}

/// Where a hunk applies when the hunks before it have moved its anchor by `offset`. A place
/// behind the end of the file is none. A hunk at the end of the file has no use for its anchor.
pub open spec fn moved_place(lines: Seq<Seq<char>>, hunk: HunkView, offset: int) -> Result<
    int,
    MatchFault,
> {
    let anchor = hunk.line_anchor + offset;
    if hunk.is_end_of_file {
        patch_apply::hunk_place(lines, hunk)
    } else if anchor < 0 {
        Err(MatchFault::NotFound(None))
    } else {
        let moved = HunkView {
            line_anchor: if anchor == 0 {
                1
            } else {
                text::min_int(anchor, usize::MAX as int)
            },
            ..hunk
        };
        match patch_apply::hunk_place(lines, moved) {
            Ok(at) => if at + hunk.before.len() <= lines.len() {
                Ok(at)
            } else {
                Err(MatchFault::NotFound(None))
            },
            Err(e) => Err(e),
        }
    }
}

/// The file after the first `n` hunks, or why one of them does not apply.
pub open spec fn updated(
    path: Seq<char>,
    file: Seq<Seq<char>>,
    hunks: Seq<HunkView>,
    n: int,
) -> Result<Progress, Seq<char>>
    decreases n,
{
    if n <= 0 {
        Ok(Progress { lines: file, offset: 0, removed: 0, added: 0 })
    } else {
        match updated(path, file, hunks, n - 1) {
            Err(e) => Err(e),
            Ok(p) => one_update(path, p, hunks[n - 1], n),
        }
    }
}

/// The file after one more hunk, the `number`th, or why it does not apply.
pub open spec fn one_update(path: Seq<char>, p: Progress, h: HunkView, number: int) -> Result<
    Progress,
    Seq<char>,
> {
    let kept = kept_lines(h.before, h.after, h.before.len() as int).len();
    match moved_place(p.lines, h, p.offset) {
        Err(fault) => Err(fault_text(number, h.line_anchor, path, fault)),
        Ok(at) => Ok(
            Progress {
                lines: patch_apply::hunk_applied(
                    p.lines,
                    at,
                    h.before.len() as int,
                    h.after,
                    h.is_end_of_file,
                ),
                offset: p.offset + h.after.len() - h.before.len(),
                removed: p.removed + h.before.len() - kept,
                added: p.added + h.after.len() - kept,
            },
        ),
    }
}

/// The lines that the first `n` hunks hold.
pub open spec fn hunk_lines(hunks: Seq<HunkView>, n: int) -> int
    decreases n,
{
    if n <= 0 {
        0
    } else {
        hunk_lines(hunks, n - 1) + hunks[n - 1].before.len() + hunks[n - 1].after.len()
    }
}

pub proof fn lemma_hunk_lines(hunks: Seq<HunkView>, k: int, n: int)
    requires
        0 <= k <= n,
    ensures
        0 <= hunk_lines(hunks, k) <= hunk_lines(hunks, n),
    decreases n,
{
    if k < n {
        lemma_hunk_lines(hunks, k, n - 1);
    } else if n > 0 {
        lemma_hunk_lines(hunks, k - 1, n - 1);
    }
}

fn describe_fault(number: usize, anchor: usize, path: &str, e: &MatchError) -> (r: String)
    ensures
        r@ == fault_text(number as int, anchor as int, path@, e@),
{
    let mut out = text::copy("Hunk ");
    let n = text::decimal_of(number as u64);
    out.push_str(n.as_str());
    out.push_str(" (L");
    let a = text::decimal_of(anchor as u64);
    out.push_str(a.as_str());
    out.push_str(") for ");
    out.push_str(path);
    match e {
        MatchError::NotFound { hint } => {
            out.push_str(": Could not find matching context\n");
            match hint {
                Some((line, what)) => {
                    let mut t = text::copy("  Closest match at line ");
                    let l = text::decimal_of(*line as u64);
                    t.push_str(l.as_str());
                    t.push_str(": ");
                    t.push_str(what.as_str());
                    out.push_str(t.as_str());
                },
                None => {
                    out.push_str("  No similar content found in file.");
                },
            }
        },
        MatchError::Ambiguous { positions } => {
            out.push_str(": Context matches at multiple locations:\n  ");
            let mut names: Vec<String> = Vec::new();
            let mut i: usize = 0;
            while i < positions.len()
                invariant
                    i <= positions@.len(),
                    names@.len() == i,
                    forall|k: int|
                        0 <= k < i ==> names@[k]@ == "line "@ + text::decimal(
                            positions@[k] as int,
                        ),
                decreases positions@.len() - i,
            {
                let l = text::decimal_of(positions[i] as u64);
                names.push(text::concat("line ", l.as_str()));
                i = i + 1;
            }
            let list = text::join(&names, ", ");
            assert(text::views(names@) =~= Seq::new(
                positions@.len(),
                |k: int| "line "@ + text::decimal(positions@[k] as int),
            ));
            assert(e@->Ambiguous_0 =~= Seq::new(positions@.len(), |k: int| positions@[k] as int));
            assert(Seq::new(
                e@->Ambiguous_0.len(),
                |k: int| "line "@ + text::decimal(e@->Ambiguous_0[k]),
            ) =~= text::views(names@));
            out.push_str(list.as_str());
            out.push_str("\n Use a more specific line number or add more context lines.");
        },
    }
    out
}

fn count_kept(before: &Vec<String>, after: &Vec<String>) -> (r: usize)
    ensures
        r == kept_lines(
            text::views(before@),
            text::views(after@),
            before@.len() as int,
        ).len(),
        r <= before@.len(),
        r <= after@.len(),
{
    broadcast use text::lemma_views_push;

    let ghost b = text::views(before@);
    let ghost a = text::views(after@);
    let mut found: Vec<String> = Vec::new();
    let mut i: usize = 0;
    assert(text::views(found@) =~= Seq::empty());
    while i < before.len()
        invariant
            i <= before@.len(),
            b == text::views(before@),
            a == text::views(after@),
            text::views(found@) == kept_lines(b, a, i as int),
        decreases before@.len() - i,
    {
        broadcast use text::lemma_views_push;

        assert(b[i as int] == before@[i as int]@);
        if text::list_contains(after, before[i].as_str()) && !text::list_contains(
            &found,
            before[i].as_str(),
        ) {
            found.push(before[i].clone());
        }
        i = i + 1;
    }
    proof {
        lemma_kept_lines(b, a, before@.len() as int);
    }
    found.len()
}

/// Finds where a hunk applies after the hunks before it; `grown` lines have come and `gone`
/// lines have left.
fn place_hunk(lines: &Vec<String>, hunk: &Hunk, grown: usize, gone: usize) -> (r: Result<
    usize,
    MatchError,
>)
    requires
        lines@.len() < usize::MAX - 8,
    ensures
        match r {
            Ok(at) => moved_place(text::views(lines@), hunk@, grown - gone) == Ok::<
                int,
                MatchFault,
            >(at as int) && at + hunk.before@.len() <= lines@.len(),
            Err(e) => moved_place(text::views(lines@), hunk@, grown - gone) == Err::<
                int,
                MatchFault,
            >(e@),
        },
{
    if hunk.is_end_of_file {
        return patch_apply::find_hunk_position(lines, hunk);
    }
    let anchor: i128 = hunk.line_anchor as i128 + grown as i128 - gone as i128;
    if anchor < 0 {
        return Err(MatchError::NotFound { hint: None });
    }
    let line_anchor: usize = if anchor == 0 {
        1
    } else if anchor > usize::MAX as i128 {
        usize::MAX
    } else {
        anchor as usize
    };
    let moved = Hunk {
        line_anchor,
        before: text::copy_list(&hunk.before),
        after: text::copy_list(&hunk.after),
        is_end_of_file: false,
    };
    assert(moved@ =~= HunkView { line_anchor: line_anchor as int, ..hunk@ });
    match patch_apply::find_hunk_position(lines, &moved) {
        Ok(at) => {
            let n: usize = hunk.before.len();
            if n <= lines.len() && at <= lines.len() - n {
                Ok(at)
            } else {
                Err(MatchError::NotFound { hint: None })
            }
        },
        Err(e) => Err(e),
    }
}

/// Applies one hunk; gives the number of lines removed and added so far.
fn apply_one(
    path: &str,
    lines: &mut Vec<String>,
    hunk: &Hunk,
    number: usize,
    grown: usize,
    gone: usize,
    removed: usize,
    added: usize,
) -> (r: Result<(usize, usize), String>)
    requires
        old(lines)@.len() < usize::MAX - 8,
        removed + hunk.before@.len() <= usize::MAX,
        added + hunk.after@.len() <= usize::MAX,
    ensures
        ({
            let p = Progress {
                lines: text::views(old(lines)@),
                offset: grown - gone,
                removed: removed as int,
                added: added as int,
            };
            match r {
                Ok((out, came)) => one_update(path@, p, hunk@, number as int) == Ok::<
                    Progress,
                    Seq<char>,
                >(
                    Progress {
                        lines: text::views(final(lines)@),
                        offset: p.offset + hunk.after@.len() - hunk.before@.len(),
                        removed: out as int,
                        added: came as int,
                    },
                ),
                Err(e) => one_update(path@, p, hunk@, number as int) == Err::<
                    Progress,
                    Seq<char>,
                >(e@),
            }
        }),
        r matches Ok((out, came)) ==> out <= removed + hunk.before@.len() && came <= added
            + hunk.after@.len() && final(lines)@.len() <= old(lines)@.len() + hunk.after@.len(),
{
    let at: usize = match place_hunk(lines, hunk, grown, gone) {
        Ok(at) => at,
        Err(e) => {
            return Err(describe_fault(number, hunk.line_anchor, path, &e));
        },
    };
    let kept: usize = count_kept(&hunk.before, &hunk.after);
    let ghost before = lines@;
    patch_apply::apply_hunk(lines, at, hunk);
    proof {
        patch_apply::lemma_applied_views(
            before,
            at as int,
            hunk.before@.len() as int,
            hunk.after@,
            hunk.is_end_of_file,
        );
    }
    Ok((removed + (hunk.before.len() - kept), added + (hunk.after.len() - kept)))
}

/// Applies the hunks of an update to the content of the file at `path`. Each anchor moves with
/// the lines that the hunks before it added or removed.
pub fn apply_hunks(path: &str, content: &str, hunks: &Vec<Hunk>) -> (r: Result<
    UpdateOutcome,
    String,
>)
    requires
        content@.len() + hunk_lines(
            apply_patch_tool::hunks_view(hunks@),
            hunks@.len() as int,
        ) < usize::MAX - 8,
    ensures
        match (
            r,
            updated(
                path@,
                text::lines_of(content@),
                apply_patch_tool::hunks_view(hunks@),
                hunks@.len() as int,
            ),
        ) {
            (Ok(o), Ok(p)) => o.content@ == text::joined(p.lines, "\n"@) && o.hunks == hunks@.len()
                && o.removed == p.removed && o.added == p.added,
            (Err(e), Err(x)) => e@ == x,
            _ => false,
        },
{
    let ghost hv = apply_patch_tool::hunks_view(hunks@);
    let ghost file = text::lines_of(content@);
    let ghost room = content@.len() + hunk_lines(hv, hunks@.len() as int);
    let mut lines = text::lines(content);
    let mut removed: usize = 0;
    let mut added: usize = 0;
    let mut grown: usize = 0;
    let mut gone: usize = 0;
    let mut n: usize = 0;
    proof {
        text::lemma_lines_count(content@);
    }
    while n < hunks.len()
        invariant
            n <= hunks@.len(),
            hv == apply_patch_tool::hunks_view(hunks@),
            file == text::lines_of(content@),
            room == content@.len() + hunk_lines(hv, hunks@.len() as int),
            room < usize::MAX - 8,
            grown + gone == hunk_lines(hv, n as int),
            lines@.len() <= content@.len() + hunk_lines(hv, n as int),
            removed <= gone,
            added <= grown,
            updated(path@, file, hv, n as int) == Ok::<Progress, Seq<char>>(
                Progress {
                    lines: text::views(lines@),
                    offset: grown - gone,
                    removed: removed as int,
                    added: added as int,
                },
            ),
        decreases hunks@.len() - n,
    {
        proof {
            lemma_hunk_lines(hv, n as int, hunks@.len() as int);
            lemma_hunk_lines(hv, n + 1, hunks@.len() as int);
        }
        let hunk = &hunks[n];
        assert(hv[n as int] == hunk@);
        let (out, came) = match apply_one(
            path,
            &mut lines,
            hunk,
            n + 1,
            grown,
            gone,
            removed,
            added,
        ) {
            Ok(counts) => counts,
            Err(text) => {
                proof {
                    lemma_error_stays(path@, file, hv, n + 1, hunks@.len() as int);
                }
                return Err(text);
            },
        };
        removed = out;
        added = came;
        grown = grown + hunk.after.len();
        gone = gone + hunk.before.len();
        n = n + 1;
    }
    let joined = text::join(&lines, "\n");
    Ok(UpdateOutcome { content: joined, hunks: hunks.len(), removed, added })
}

proof fn lemma_error_stays(
    path: Seq<char>,
    file: Seq<Seq<char>>,
    hunks: Seq<HunkView>,
    k: int,
    n: int,
)
    requires
        k <= n,
        updated(path, file, hunks, k) is Err,
    ensures
        updated(path, file, hunks, n) == updated(path, file, hunks, k),
    decreases n - k,
{
    if k < n {
        lemma_error_stays(path, file, hunks, k, n - 1);
        assert(n > 0) by {
            if n <= 0 {
                assert(updated(path, file, hunks, k) is Ok);
            }
        }
    }
}

/// The note on a file that has been updated.
pub open spec fn update_note(path: Seq<char>, target: Option<Seq<char>>, n: int, removed: int, added: int)
    -> Seq<char> {
    let counts = " ("@ + text::decimal(n) + " hunks, -"@ + text::decimal(removed) + "/+"@
        + text::decimal(added) + " lines)"@;
    match target {
        Some(t) => "Updated and renamed "@ + path + " -> "@ + t + counts,
        None => "Updated "@ + path + counts,
    }
}

pub fn update_message(path: &str, target: &Option<String>, outcome: &UpdateOutcome) -> (r: String)
    ensures
        r@ == update_note(
            path@,
            crate::json::opt_view(*target),
            outcome.hunks as int,
            outcome.removed as int,
            outcome.added as int,
        ),
{
    let mut counts = text::copy(" (");
    let h = text::decimal_of(outcome.hunks as u64);
    counts.push_str(h.as_str());
    counts.push_str(" hunks, -");
    let d = text::decimal_of(outcome.removed as u64);
    counts.push_str(d.as_str());
    counts.push_str("/+");
    let a = text::decimal_of(outcome.added as u64);
    counts.push_str(a.as_str());
    counts.push_str(" lines)");
    match target {
        Some(t) => {
            let mut out = text::copy("Updated and renamed ");
            out.push_str(path);
            out.push_str(" -> ");
            out.push_str(t.as_str());
            out.push_str(counts.as_str());
            out
        },
        None => {
            let mut out = text::copy("Updated ");
            out.push_str(path);
            out.push_str(counts.as_str());
            out
        },
    }
}

/// What is written to a file that a patch adds.
pub fn added_content(content: &Vec<String>) -> (r: String)
    ensures
        r@ == text::joined(text::views(content@), "\n"@),
{
    text::join(content, "\n")
}

/// The note on a file that has been added.
pub fn add_message(path: &str, content: &Vec<String>) -> (r: String)
    ensures
        r@ == "Created "@ + path@ + " ("@ + text::decimal(content@.len() as int) + " lines)"@,
{
    let mut out = text::copy("Created ");
    out.push_str(path);
    out.push_str(" (");
    let n = text::decimal_of(content.len() as u64);
    out.push_str(n.as_str());
    out.push_str(" lines)");
    out
}

/// The note on a file that has been deleted.
pub fn delete_message(path: &str) -> (r: String)
    ensures
        r@ == "Deleted "@ + path@,
{
    text::concat("Deleted ", path)
}

/// The operation to begin when `done` of `total` have ended: the next one in order, and none
/// once one failed.
pub open spec fn next_of(done: int, failed: bool, total: int) -> Option<int> {
    if failed || done >= total {
        None
    } else {
        Some(done)
    }
}

pub fn next_op(done: usize, failed: bool, total: usize) -> (r: Option<usize>)
    ensures
        r == (if failed || done >= total {
            None
        } else {
            Some(done)
        }),
        r matches Some(i) ==> next_of(done as int, failed, total as int) == Some(i as int),
        r is None ==> next_of(done as int, failed, total as int) is None,
{
    if failed || done >= total {
        None
    } else {
        Some(done)
    }
}

/// Whether operation `n` is begun, where `outcomes` says of each operation whether it succeeds.
pub open spec fn begun(outcomes: Seq<bool>, n: int) -> bool
    decreases n,
{
    let total = outcomes.len() as int;
    if n <= 0 {
        n == 0 && next_of(0, false, total) == Some(0int)
    } else {
        begun(outcomes, n - 1) && next_of(n, !outcomes[n - 1], total) == Some(n)
    }
}

/// The operations of a patch are begun in their order, each of them as long as all before it
/// succeeded, and none after one failed.
pub proof fn law_nothing_begins_after_a_failure(outcomes: Seq<bool>, n: int)
    ensures
        begun(outcomes, n) <==> 0 <= n < outcomes.len() && forall|i: int|
            0 <= i < n ==> #[trigger] outcomes[i],
    decreases n,
{
    if n > 0 {
        law_nothing_begins_after_a_failure(outcomes, n - 1);
    }
}

/// `[step/total]` with two spaces in front.
pub open spec fn step_mark(step: int, total: int) -> Seq<char> {
    "  ["@ + text::decimal(step) + "/"@ + text::decimal(total) + "]"@
}

/// The lines on the first `n` operations, all of them done.
pub open spec fn done_lines(notes: Seq<Seq<char>>, total: int, n: int) -> Seq<char>
    decreases n,
{
    if n <= 0 {
        Seq::empty()
    } else {
        done_lines(notes, total, n - 1) + (step_mark(n, total) + " OK -- "@ + notes[n - 1]).push(
            '\n',
        )
    }
}

/// The lines on the operations from `step` to `total` that were not tried.
pub open spec fn skipped_lines(step: int, total: int) -> Seq<char>
    decreases total + 1 - step,
{
    if step > total {
        Seq::empty()
    } else {
        step_mark(step, total) + " SKIP -- (depends on previous)\n"@ + skipped_lines(
            step + 1,
            total,
        )
    }
}

/// The report on a patch all of whose operations were done.
pub open spec fn success_report(notes: Seq<Seq<char>>) -> Seq<char> {
    text::trimmed(
        "apply_patch: All "@ + text::decimal(notes.len() as int)
            + " operation(s) completed successfully\n\n"@ + done_lines(
            notes,
            notes.len() as int,
            notes.len() as int,
        ),
    )
}

/// The report on a patch one of whose operations failed with `error` after `notes`.
pub open spec fn failure_report(notes: Seq<Seq<char>>, error: Seq<char>, total: int) -> Seq<char> {
    let step = notes.len() as int + 1;
    "apply_patch: Operation "@ + text::decimal(step) + "/"@ + text::decimal(total)
        + " failed\n\n"@ + "Completed operations:\n"@ + done_lines(
        notes,
        total,
        notes.len() as int,
    ) + "\n"@ + step_mark(step, total) + " FAIL -- "@ + error + "\n"@ + skipped_lines(
        step + 1,
        total,
    )
}

fn mark_step(step: usize, total: usize) -> (r: String)
    ensures
        r@ == step_mark(step as int, total as int),
{
    let mut out = text::copy("  [");
    let s = text::decimal_of(step as u64);
    out.push_str(s.as_str());
    out.push_str("/");
    let t = text::decimal_of(total as u64);
    out.push_str(t.as_str());
    out.push_str("]");
    out
}

fn list_done(notes: &Vec<String>, total: usize) -> (r: String)
    requires
        notes@.len() < usize::MAX,
    ensures
        r@ == done_lines(text::views(notes@), total as int, notes@.len() as int),
{
    let mut out = String::new();
    let mut i: usize = 0;
    while i < notes.len()
        invariant
            i <= notes@.len() < usize::MAX,
            out@ == done_lines(text::views(notes@), total as int, i as int),
        decreases notes@.len() - i,
    {
        let mut line = mark_step(i + 1, total);
        line.push_str(" OK -- ");
        line.push_str(notes[i].as_str());
        line.push('\n');
        out.push_str(line.as_str());
        i = i + 1;
    }
    out
}

/// The report on a patch: `notes` on the operations that were done, in order, and the error of
/// the one that failed after them, if one did.
pub fn report(notes: &Vec<String>, failed: &Option<String>, total: usize) -> (r: Result<
    String,
    String,
>)
    requires
        notes@.len() < usize::MAX,
        failed is None ==> notes@.len() == total,
        failed is Some ==> notes@.len() < total < usize::MAX,
    ensures
        match (r, *failed) {
            (Ok(t), None) => t@ == success_report(text::views(notes@)),
            (Err(t), Some(e)) => t@ == failure_report(text::views(notes@), e@, total as int),
            _ => false,
        },
{
    let done = list_done(notes, total);
    match failed {
        None => {
            let mut out = text::copy("apply_patch: All ");
            let n = text::decimal_of(total as u64);
            out.push_str(n.as_str());
            out.push_str(" operation(s) completed successfully\n\n");
            out.push_str(done.as_str());
            Ok(text::trim(out.as_str()))
        },
        Some(e) => {
            let step: usize = notes.len() + 1;
            let mut out = text::copy("apply_patch: Operation ");
            let s = text::decimal_of(step as u64);
            out.push_str(s.as_str());
            out.push_str("/");
            let n = text::decimal_of(total as u64);
            out.push_str(n.as_str());
            out.push_str(" failed\n\n");
            out.push_str("Completed operations:\n");
            out.push_str(done.as_str());
            out.push_str("\n");
            let m = mark_step(step, total);
            out.push_str(m.as_str());
            out.push_str(" FAIL -- ");
            out.push_str(e.as_str());
            out.push_str("\n");
            let ghost want = out@ + skipped_lines(step + 1, total as int);
            let mut k: usize = step + 1;
            assert(out@ + skipped_lines(k as int, total as int) == want);
            while k <= total
                invariant
                    k <= total + 1,
                    total < usize::MAX,
                    out@ + skipped_lines(k as int, total as int) == want,
                decreases total + 1 - k,
            {
                let mark = mark_step(k, total);
                let ghost before = out@;
                out.push_str(mark.as_str());
                out.push_str(" SKIP -- (depends on previous)\n");
                assert(out@ + skipped_lines(k + 1, total as int) =~= before + skipped_lines(
                    k as int,
                    total as int,
                ));
                k = k + 1;
            }
            assert(out@ + skipped_lines(k as int, total as int) =~= out@);
            assert(out@ == want);
            assert(want =~= failure_report(text::views(notes@), e@, total as int));
            Err(out)
        },
    }
}

} // verus!
