//! The steps of carrying a patch out: what is to be done to which file next.
use crate::text;
use crate::tools;
use crate::tools::apply_patch_tool;
use crate::tools::apply_patch_tool::ApplyPatchInput;
use crate::tools::apply_patch_tool::HunkView;
use crate::tools::apply_patch_tool::OpView;
use crate::tools::apply_patch_tool::PatchOp;
use crate::tools::patch_run;
use crate::tools::ToolResult;
use vstd::prelude::*;

verus! {

pub const DESCRIPTION: &'static str = "Edit files via a structured patch format. Patch is wrapped in *** Begin Patch / *** End Patch.\n\nOperations:\n  *** Add File: <path>     -- create new file (lines start with +, no anchor)\n  *** Delete File: <path>  -- delete existing file\n  *** Update File: <path>  -- modify file with @@ hunks\n    *** Move to: <path>    -- (optional) rename after applying hunks\n\nEach hunk starts with @@ L<N> (N = 1-indexed line number):\n  @@ L<N> is REQUIRED for every hunk\n  Multiple hunks per file allowed (each with its own @@ L<N>)\n  Offsets are computed automatically across hunks\n\nLine prefixes inside hunk:\n  ` ` (space)  Context -- must match EXACTLY (including whitespace and all characters), preserved in output\n  `-`          Remove -- must match EXACTLY (including whitespace and all characters)\n  `+`          Add\n\nRules:\n  - Include 3 lines of context before and after each change.\n  - Append *** End of File after a hunk to add content at file end.\n  - All paths MUST be absolute.\n  - Context and removal lines must match exactly (use exact content from `read`, including whitespace).\n  - On failure, error shows the closest match.\n\nExample (add + update + delete):\n\n*** Begin Patch\n*** Add File: /project/src/hello.rs\n+pub fn greet() {\n+    println!(\"hi\");\n+}\n*** Update File: /project/src/main.rs\n@@ L42\n fn main() {\n-    old_thing();\n+    greet();\n }\n*** Delete File: /project/src/old.rs\n*** End Patch";

/// How far an operation has come.
#[derive(Debug, PartialEq, Eq)]
pub enum OpState {
    Fresh,
    Looking,
    MakingParent,
    Reading,
    /// Writing, with the note on the operation.
    Writing { note: String },
    /// Making the directory that the file moves to.
    MakingTarget { note: String },
    Moving { note: String },
    Removing,
    Over,
}

#[verifier::ext_equal]
pub enum StateView {
    Fresh,
    Looking,
    MakingParent,
    Reading,
    Writing { note: Seq<char> },
    MakingTarget { note: Seq<char> },
    Moving { note: Seq<char> },
    Removing,
    Over,
}

impl View for OpState {
    type V = StateView;

    open spec fn view(&self) -> StateView {
        match *self {
            OpState::Fresh => StateView::Fresh,
            OpState::Looking => StateView::Looking,
            OpState::MakingParent => StateView::MakingParent,
            OpState::Reading => StateView::Reading,
            OpState::Writing { note } => StateView::Writing { note: note@ },
            OpState::MakingTarget { note } => StateView::MakingTarget { note: note@ },
            OpState::Moving { note } => StateView::Moving { note: note@ },
            OpState::Removing => StateView::Removing,
            OpState::Over => StateView::Over,
        }
    }
}

/// What came of the last action.
#[derive(Debug, PartialEq, Eq)]
pub enum OpEvent {
    Begin,
    /// Whether there is a file.
    Exists(bool),
    /// What is in the file.
    Content(String),
    Succeeded,
    Failed(String),
}

#[verifier::ext_equal]
pub enum EventView {
    Begin,
    Exists(bool),
    Content(Seq<char>),
    Succeeded,
    Failed(Seq<char>),
}

impl View for OpEvent {
    type V = EventView;

    open spec fn view(&self) -> EventView {
        match *self {
            OpEvent::Begin => EventView::Begin,
            OpEvent::Exists(b) => EventView::Exists(b),
            OpEvent::Content(s) => EventView::Content(s@),
            OpEvent::Succeeded => EventView::Succeeded,
            OpEvent::Failed(s) => EventView::Failed(s@),
        }
    }
}

/// What is to be done next.
#[derive(Debug, PartialEq, Eq)]
pub enum OpAction {
    /// See whether there is a file.
    Look(String),
    /// Make the directory that the file is to be in.
    MakeParent(String),
    Read(String),
    Write { path: String, content: String },
    Rename { from: String, to: String },
    Remove(String),
    /// The operation is done.
    Done(String),
    /// The operation failed.
    GiveUp(String),
}

#[verifier::ext_equal]
pub enum ActionView {
    Look(Seq<char>),
    MakeParent(Seq<char>),
    Read(Seq<char>),
    Write { path: Seq<char>, content: Seq<char> },
    Rename { from: Seq<char>, to: Seq<char> },
    Remove(Seq<char>),
    Done(Seq<char>),
    GiveUp(Seq<char>),
}

impl View for OpAction {
    type V = ActionView;

    open spec fn view(&self) -> ActionView {
        match *self {
            OpAction::Look(p) => ActionView::Look(p@),
            OpAction::MakeParent(p) => ActionView::MakeParent(p@),
            OpAction::Read(p) => ActionView::Read(p@),
            OpAction::Write { path, content } => ActionView::Write {
                path: path@,
                content: content@,
            },
            OpAction::Rename { from, to } => ActionView::Rename { from: from@, to: to@ },
            OpAction::Remove(p) => ActionView::Remove(p@),
            OpAction::Done(s) => ActionView::Done(s@),
            OpAction::GiveUp(s) => ActionView::GiveUp(s@),
        }
    }
}

pub open spec fn path_of(op: OpView) -> Seq<char> {
    match op {
        OpView::Add { path, content } => path,
        OpView::Update { path, new_path, hunks } => path,
        OpView::Delete { path } => path,
    }
}

pub open spec fn gives_up(reason: Seq<char>) -> (StateView, ActionView) {
    (StateView::Over, ActionView::GiveUp(reason))
}

/// What is done once it is known whether there is a file: an added file must not be there, the
/// others must.
pub open spec fn after_look(op: OpView, exists: bool) -> (StateView, ActionView) {
    let path = path_of(op);
    match op {
        OpView::Add { path: _, content } => if exists {
            gives_up("File already exists: "@ + path)
        } else {
            (StateView::MakingParent, ActionView::MakeParent(path))
        },
        OpView::Update { path: _, new_path, hunks } => if exists {
            (StateView::Reading, ActionView::Read(path))
        } else {
            gives_up("File not found: "@ + path)
        },
        OpView::Delete { path: _ } => if exists {
            (StateView::Removing, ActionView::Remove(path))
        } else {
            gives_up("File not found: "@ + path)
        },
    }
}

/// What is done with the content of a file that is updated: it is written as the hunks make it,
/// where they fit.
pub open spec fn after_read(
    path: Seq<char>,
    new_path: Option<Seq<char>>,
    hunks: Seq<HunkView>,
    content: Seq<char>,
) -> (StateView, ActionView) {
    match patch_run::updated(path, text::lines_of(content), hunks, hunks.len() as int) {
        Ok(p) => (
            StateView::Writing {
                note: patch_run::update_note(
                    path,
                    new_path,
                    hunks.len() as int,
                    p.removed,
                    p.added,
                ),
            },
            ActionView::Write { path, content: text::joined(p.lines, "\n"@) },
        ),
        Err(e) => gives_up(e),
    }
}

pub open spec fn failure(what: Seq<char>, path: Seq<char>, e: Seq<char>) -> (StateView, ActionView) {
    gives_up(what + path + ": "@ + e)
}

/// What an operation does next, from how far it has come and what came of the last action.
pub open spec fn op_next(op: OpView, state: StateView, event: EventView) -> (
    StateView,
    ActionView,
) {
    let path = path_of(op);
    match (state, event) {
        (StateView::Fresh, _) => (StateView::Looking, ActionView::Look(path)),
        (StateView::Looking, EventView::Exists(b)) => after_look(op, b),
        (StateView::MakingParent, EventView::Succeeded) => match op {
            OpView::Add { path: _, content } => (
                StateView::Writing {
                    note: "Created "@ + path + " ("@ + text::decimal(content.len() as int)
                        + " lines)"@,
                },
                ActionView::Write { path, content: text::joined(content, "\n"@) },
            ),
            _ => gives_up(Seq::empty()),
        },
        (StateView::MakingParent, EventView::Failed(e)) => failure(
            "Failed to create parent directories for "@,
            path,
            e,
        ),
        (StateView::Reading, EventView::Content(s)) => match op {
            OpView::Update { path: _, new_path, hunks } => after_read(path, new_path, hunks, s),
            _ => gives_up(Seq::empty()),
        },
        (StateView::Reading, EventView::Failed(e)) => failure("Failed to read "@, path, e),
        (StateView::Writing { note }, EventView::Succeeded) => match op {
            OpView::Update { path: _, new_path: Some(target), hunks } => (
                StateView::MakingTarget { note },
                ActionView::MakeParent(target),
            ),
            _ => (StateView::Over, ActionView::Done(note)),
        },
        (StateView::Writing { note }, EventView::Failed(e)) => failure(
            "Failed to write "@,
            path,
            e,
        ),
        (StateView::MakingTarget { note }, EventView::Succeeded) => match op {
            OpView::Update { path: _, new_path: Some(target), hunks } => (
                StateView::Moving { note },
                ActionView::Rename { from: path, to: target },
            ),
            _ => gives_up(Seq::empty()),
        },
        (StateView::MakingTarget { note }, EventView::Failed(e)) => match op {
            OpView::Update { path: _, new_path: Some(target), hunks } => failure(
                "Failed to create parent directories for "@,
                target,
                e,
            ),
            _ => gives_up(Seq::empty()),
        },
        (StateView::Moving { note }, EventView::Succeeded) => (
            StateView::Over,
            ActionView::Done(note),
        ),
        (StateView::Moving { note }, EventView::Failed(e)) => match op {
            OpView::Update { path: _, new_path: Some(target), hunks } => failure(
                "Failed to rename "@,
                path + " to "@ + target,
                e,
            ),
            _ => gives_up(Seq::empty()),
        },
        (StateView::Removing, EventView::Succeeded) => (
            StateView::Over,
            ActionView::Done("Deleted "@ + path),
        ),
        (StateView::Removing, EventView::Failed(e)) => failure("Failed to delete "@, path, e),
        _ => gives_up(Seq::empty()),
    }
}

/// An update writes a file only where all of its hunks fit, and then what they make of it.
pub proof fn law_update_writes_what_the_hunks_make(
    op: OpView,
    state: StateView,
    event: EventView,
)
    requires
        op is Update,
        op_next(op, state, event).1 is Write,
    ensures
        event matches EventView::Content(s) && patch_run::updated(
            path_of(op),
            text::lines_of(s),
            op->hunks,
            op->hunks.len() as int,
        ) matches Ok(p) && op_next(op, state, event).1 == (ActionView::Write {
            path: path_of(op),
            content: text::joined(p.lines, "\n"@),
        }),
{
}

/// An added file never takes the place of one that is there, and nothing is removed but by an
/// operation that deletes.
pub proof fn law_nothing_is_overwritten(op: OpView, state: StateView, event: EventView)
    ensures
        op is Add && state is Looking && event == EventView::Exists(true) ==> op_next(
            op,
            state,
            event,
        ).1 is GiveUp,
        state is Looking && op_next(op, state, event).1 is Remove ==> op is Delete,
        !(state is Looking) ==> !(op_next(op, state, event).1 is Remove),
{
}

fn give_up(reason: String) -> (r: (OpState, OpAction))
    ensures
        (r.0@, r.1@) == gives_up(reason@),
{
    (OpState::Over, OpAction::GiveUp(reason))
}

fn fail(what: &str, path: &str, e: &str) -> (r: (OpState, OpAction))
    ensures
        (r.0@, r.1@) == failure(what@, path@, e@),
{
    let mut out = text::concat(what, path);
    out.push_str(": ");
    out.push_str(e);
    give_up(out)
}

fn path_text(op: &PatchOp) -> (r: &str)
    ensures
        r@ == path_of(op@),
{
    match op {
        PatchOp::Add { path, content: _ } => path.as_str(),
        PatchOp::Update { path, new_path: _, hunks: _ } => path.as_str(),
        PatchOp::Delete { path } => path.as_str(),
    }
}

fn looked(op: &PatchOp, exists: bool) -> (r: (OpState, OpAction))
    ensures
        (r.0@, r.1@) == after_look(op@, exists),
{
    let path = path_text(op);
    match op {
        PatchOp::Add { path: _, content: _ } => if exists {
            give_up(text::concat("File already exists: ", path))
        } else {
            (OpState::MakingParent, OpAction::MakeParent(text::copy(path)))
        },
        PatchOp::Update { path: _, new_path: _, hunks: _ } => if exists {
            (OpState::Reading, OpAction::Read(text::copy(path)))
        } else {
            give_up(text::concat("File not found: ", path))
        },
        PatchOp::Delete { path: _ } => if exists {
            (OpState::Removing, OpAction::Remove(text::copy(path)))
        } else {
            give_up(text::concat("File not found: ", path))
        },
    }
}

/// The file that an update moves to.
pub open spec fn target_of(op: OpView) -> Option<Seq<char>> {
    match op {
        OpView::Update { path, new_path, hunks } => new_path,
        _ => None,
    }
}

fn target_text(op: &PatchOp) -> (r: Option<&str>)
    ensures
        match r {
            Some(t) => target_of(op@) == Some(t@),
            None => target_of(op@) is None,
        },
{
    match op {
        PatchOp::Update { path: _, new_path: Some(t), hunks: _ } => Some(t.as_str()),
        _ => None,
    }
}

/// Whether the lines of a file and of the hunks that change it can be counted.
pub open spec fn fits(op: OpView, event: EventView) -> bool {
    op matches OpView::Update { path, new_path, hunks } ==> event matches EventView::Content(s)
        ==> s.len() + patch_run::hunk_lines(hunks, hunks.len() as int) < usize::MAX - 8
}

fn made_parent(op: &PatchOp) -> (r: (OpState, OpAction))
    ensures
        (r.0@, r.1@) == op_next(op@, StateView::MakingParent, EventView::Succeeded),
{
    match op {
        PatchOp::Add { path, content } => {
            let note = patch_run::add_message(path.as_str(), content);
            let data = patch_run::added_content(content);
            (
                OpState::Writing { note },
                OpAction::Write { path: text::copy(path.as_str()), content: data },
            )
        },
        _ => give_up(String::new()),
    }
}

fn read(op: &PatchOp, content: &str) -> (r: (OpState, OpAction))
    requires
        fits(op@, EventView::Content(content@)),
    ensures
        (r.0@, r.1@) == op_next(op@, StateView::Reading, EventView::Content(content@)),
{
    match op {
        PatchOp::Update { path, new_path, hunks } => {
            match patch_run::apply_hunks(path.as_str(), content, hunks) {
                Ok(outcome) => {
                    let note = patch_run::update_message(path.as_str(), new_path, &outcome);
                    (
                        OpState::Writing { note },
                        OpAction::Write {
                            path: text::copy(path.as_str()),
                            content: outcome.content,
                        },
                    )
                },
                Err(e) => give_up(e),
            }
        },
        _ => give_up(String::new()),
    }
}

fn succeeded(op: &PatchOp, state: OpState) -> (r: (OpState, OpAction))
    requires
        !(state is Fresh),
    ensures
        (r.0@, r.1@) == op_next(op@, state@, EventView::Succeeded),
{
    let path = path_text(op);
    match state {
        OpState::MakingParent => made_parent(op),
        OpState::Writing { note } => match target_text(op) {
            Some(t) => (
                OpState::MakingTarget { note },
                OpAction::MakeParent(text::copy(t)),
            ),
            None => (OpState::Over, OpAction::Done(note)),
        },
        OpState::MakingTarget { note } => match target_text(op) {
            Some(t) => (
                OpState::Moving { note },
                OpAction::Rename { from: text::copy(path), to: text::copy(t) },
            ),
            None => give_up(String::new()),
        },
        OpState::Moving { note } => (OpState::Over, OpAction::Done(note)),
        OpState::Removing => (OpState::Over, OpAction::Done(patch_run::delete_message(path))),
        _ => give_up(String::new()),
    }
}

fn failed(op: &PatchOp, state: OpState, e: &str) -> (r: (OpState, OpAction))
    requires
        !(state is Fresh),
    ensures
        (r.0@, r.1@) == op_next(op@, state@, EventView::Failed(e@)),
{
    let path = path_text(op);
    match state {
        OpState::MakingParent => fail("Failed to create parent directories for ", path, e),
        OpState::Reading => fail("Failed to read ", path, e),
        OpState::Writing { note: _ } => fail("Failed to write ", path, e),
        OpState::MakingTarget { note: _ } => match target_text(op) {
            Some(t) => fail("Failed to create parent directories for ", t, e),
            None => give_up(String::new()),
        },
        OpState::Moving { note: _ } => match target_text(op) {
            Some(t) => {
                let mut both = text::concat(path, " to ");
                both.push_str(t);
                fail("Failed to rename ", both.as_str(), e)
            },
            None => give_up(String::new()),
        },
        OpState::Removing => fail("Failed to delete ", path, e),
        _ => give_up(String::new()),
    }
}

/// The next step of an operation. An event that the last action cannot have brought ends it.
pub fn op_step(op: &PatchOp, state: OpState, event: OpEvent) -> (r: (OpState, OpAction))
    requires
        fits(op@, event@),
    ensures
        (r.0@, r.1@) == op_next(op@, state@, event@),
{
    match state {
        OpState::Fresh => {
            return (OpState::Looking, OpAction::Look(text::copy(path_text(op))));
        },
        _ => {},
    }
    match event {
        OpEvent::Begin => give_up(String::new()),
        OpEvent::Exists(b) => match state {
            OpState::Looking => looked(op, b),
            _ => give_up(String::new()),
        },
        OpEvent::Content(s) => match state {
            OpState::Reading => read(op, s.as_str()),
            _ => give_up(String::new()),
        },
        OpEvent::Succeeded => succeeded(op, state),
        OpEvent::Failed(e) => failed(op, state, e.as_str()),
    }
}

/// The tool that edits files by a patch.
#[derive(Debug)]
pub struct ApplyPatchTool;

impl ApplyPatchTool {
    pub fn name(&self) -> (r: &'static str)
        ensures
            r@ == "apply_patch"@,
    {
        "apply_patch"
    }

    pub fn description(&self) -> (r: &'static str)
        ensures
            r@ == DESCRIPTION@,
    {
        DESCRIPTION
    }

    /// The operations of the patch, or the result where it has none or cannot be read.
    pub fn operations(&self, input: &ApplyPatchInput) -> (r: Result<Vec<PatchOp>, ToolResult>)
        requires
            input.input@.len() < usize::MAX,
        ensures
            match (r, apply_patch_tool::patch_of(input.input@)) {
                (Ok(ops), Ok(v)) => v.len() > 0 && apply_patch_tool::ops_view(ops@) == v,
                (Err(e), Ok(v)) => v.len() == 0 && e@ == tools::failed(
                    "No operations found in patch"@,
                ),
                (Err(e), Err(m)) => e@ == tools::failed(m),
                _ => false,
            },
    {
        match apply_patch_tool::parse_patch(input.input.as_str()) {
            Ok(ops) => {
                assert(apply_patch_tool::ops_view(ops@).len() == ops@.len());
                if ops.len() == 0 {
                    Err(ToolResult::error(text::copy("No operations found in patch")))
                } else {
                    Ok(ops)
                }
            },
            Err(e) => Err(ToolResult::error(e)),
        }
    }

    /// The result of a patch: `notes` on the operations that were done, and the error of the one
    /// that failed after them, if one did.
    pub fn finish(&self, notes: &Vec<String>, failed: &Option<String>, total: usize) -> (r:
        ToolResult)
        requires
            notes@.len() < usize::MAX,
            failed is None ==> notes@.len() == total,
            failed is Some ==> notes@.len() < total < usize::MAX,
        ensures
            r@ == (match *failed {
                None => tools::fine(patch_run::success_report(text::views(notes@))),
                Some(e) => tools::failed(
                    patch_run::failure_report(text::views(notes@), e@, total as int),
                ),
            }),
    {
        match patch_run::report(notes, failed, total) {
            Ok(t) => ToolResult::ok(t),
            Err(t) => ToolResult::error(t),
        }
    }
}

} // verus!
