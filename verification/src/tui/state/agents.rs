//! The page on which the user looks at agents and changes them.
use crate::text;
use crate::tui::input::KeyCode;
use crate::types::config::ModelConfig;
use crate::types::config::ProviderProfile;
use crate::types::events::AgentManagement;
use crate::types::events::AgentRecord;
use crate::types::events::AgentSourceKind;
use crate::types::events::UiToRuntimeEvent;
use vstd::prelude::*;

verus! {

/// The steps of making an agent.
#[derive(Debug, Clone, Copy, PartialEq, Eq, Structural)]
pub enum AgentCreateStep {
    Scope,
    Tools,
    Model,
    Method,
    ManualName,
    ManualDescription,
    ManualInstructions,
    GenerateDescription,
}

/// What the page shows.
#[derive(Debug, Clone, Copy, PartialEq, Eq, Structural)]
pub enum AgentManagerView {
    List,
    Detail(usize),
    EditMenu,
    EditMetadata,
    EditTools,
    EditModel,
    Create(AgentCreateStep),
    GeneratedPreview,
    Generate,
    Generating,
    ConfirmDelete(usize),
}

/// The field that is being edited.
#[derive(Debug, Clone, Copy, PartialEq, Eq, Structural)]
pub enum AgentEditorField {
    Name,
    Description,
    Instructions,
    Tools,
    Model,
    GenerateDescription,
}

#[derive(Debug, PartialEq, Eq)]
pub enum AgentModelEntry {
    /// The model of the session that starts the agent.
    Inherit,
    ProviderHeader { name: String },
    Model { provider_key: String, model: ModelConfig },
}

/// An agent in the making, and where the cursor is in it.
#[derive(Debug, PartialEq, Eq)]
pub struct AgentEditorDraft {
    pub source_kind: AgentSourceKind,
    /// The file of an agent that exists already.
    pub original_path: Option<String>,
    pub name: String,
    pub description: String,
    pub instructions: String,
    /// What a generated agent is to be for.
    pub generated_description: String,
    pub tools: Vec<String>,
    pub disallow_tools: Vec<String>,
    pub model: Option<String>,
    pub field: AgentEditorField,
    /// The cursor in the field, counted in characters.
    pub cursor: usize,
}

#[derive(Debug, PartialEq, Eq)]
pub struct AgentManagerState {
    pub records: Vec<AgentRecord>,
    pub view: AgentManagerView,
    /// 0 for making a new agent, else one more than the place of the agent.
    pub selected: usize,
    pub detail_action_selected: usize,
    pub edit_action_selected: usize,
    pub create_scope_selected: usize,
    pub create_method_selected: usize,
    pub tool_selected: usize,
    pub model_entries: Vec<AgentModelEntry>,
    pub model_selected: usize,
    pub draft: AgentEditorDraft,
    pub message: Option<String>,
}

/// Where an agent comes from, in words.
pub open spec fn source_words(kind: AgentSourceKind) -> Seq<char> {
    match kind {
        AgentSourceKind::BuiltIn => "内置"@,
        AgentSourceKind::Project => "项目"@,
        AgentSourceKind::User => "用户"@,
    }
}

pub fn source_label(kind: AgentSourceKind) -> (r: &'static str)
    ensures
        r@ == source_words(kind),
{
    match kind {
        AgentSourceKind::BuiltIn => "内置",
        AgentSourceKind::Project => "项目",
        AgentSourceKind::User => "用户",
    }
}

/// The models that an agent can be given: that of the session, and those of each provider below
/// the name of that provider.
pub open spec fn models_offered(providers: Seq<(String, ProviderProfile)>, n: int) -> Seq<
    AgentModelEntry,
>
    decreases n,
{
    if n <= 0 {
        seq![AgentModelEntry::Inherit]
    } else {
        let (key, profile) = providers[n - 1];
        models_offered(providers, n - 1).push(
            AgentModelEntry::ProviderHeader { name: profile.name },
        ) + Seq::new(
            profile.models@.len(),
            |i: int| AgentModelEntry::Model { provider_key: key, model: profile.models@[i] },
        )
    }
}

fn offer_models(providers: &Vec<(String, ProviderProfile)>) -> (r: Vec<AgentModelEntry>)
    ensures
        r@ == models_offered(providers@, providers@.len() as int),
{
    let mut out: Vec<AgentModelEntry> = Vec::new();
    out.push(AgentModelEntry::Inherit);
    assert(out@ =~= seq![AgentModelEntry::Inherit]);
    let mut n: usize = 0;
    while n < providers.len()
        invariant
            n <= providers@.len(),
            out@ == models_offered(providers@, n as int),
        decreases providers@.len() - n,
    {
        let p = &providers[n];
        out.push(AgentModelEntry::ProviderHeader { name: p.1.name.clone() });
        let ghost before = out@;
        let ghost all = Seq::new(
            p.1.models@.len(),
            |i: int| AgentModelEntry::Model { provider_key: p.0, model: p.1.models@[i] },
        );
        let mut i: usize = 0;
        assert(before + all.take(0) =~= before);
        while i < p.1.models.len()
            invariant
                i <= p.1.models@.len(),
                all == Seq::new(
                    p.1.models@.len(),
                    |i: int| AgentModelEntry::Model { provider_key: p.0, model: p.1.models@[i] },
                ),
                out@ == before + all.take(i as int),
            decreases p.1.models@.len() - i,
        {
            let model = p.1.models[i].clone();
            out.push(AgentModelEntry::Model { provider_key: p.0.clone(), model });
            assert(all.take(i + 1) =~= all.take(i as int).push(all[i as int]));
            i = i + 1;
        }
        assert(all.take(p.1.models@.len() as int) =~= all);
        n = n + 1;
    }
    out
}

/// Whether an agent in the making has nothing in it yet.
pub open spec fn nothing_drafted(d: AgentEditorDraft) -> bool {
    &&& d.source_kind == AgentSourceKind::Project
    &&& d.original_path is None
    &&& d.name@.len() == 0
    &&& d.description@.len() == 0
    &&& d.instructions@.len() == 0
    &&& d.generated_description@.len() == 0
    &&& d.tools@.len() == 0
    &&& d.disallow_tools@.len() == 0
    &&& d.model is None
    &&& d.field == AgentEditorField::Name
    &&& d.cursor == 0
}

/// Whether `d` is the agent of a record, taken up to be changed.
pub open spec fn takes_up(d: AgentEditorDraft, r: AgentRecord) -> bool {
    &&& d.source_kind == r.source_kind
    &&& d.original_path == r.path
    &&& d.name == r.name
    &&& d.description == r.description
    &&& d.instructions == r.instructions
    &&& d.generated_description@.len() == 0
    &&& text::views(d.tools@) == text::views(r.tools@)
    &&& text::views(d.disallow_tools@) == text::views(r.disallow_tools@)
    &&& d.model == r.model
    &&& d.field == AgentEditorField::Name
    &&& d.cursor == 0
}

fn draft_of(r: &AgentRecord) -> (d: AgentEditorDraft)
    ensures
        takes_up(d, *r),
{
    AgentEditorDraft {
        source_kind: r.source_kind,
        original_path: r.path.clone(),
        name: r.name.clone(),
        description: r.description.clone(),
        instructions: r.instructions.clone(),
        generated_description: String::new(),
        tools: text::copy_list(&r.tools),
        disallow_tools: text::copy_list(&r.disallow_tools),
        model: r.model.clone(),
        field: AgentEditorField::Name,
        cursor: 0,
    }
}

impl AgentManagerState {
    /// The page as it opens: the list of the agents, with the entry for a new one chosen.
    pub fn open(management: AgentManagement) -> (r: Self)
        ensures
            r.records == management.records,
            r.view == AgentManagerView::List,
            r.selected == 0,
            r.detail_action_selected == 0,
            r.edit_action_selected == 0,
            r.create_scope_selected == 0,
            r.create_method_selected == 0,
            r.tool_selected == 0,
            r.model_selected == 0,
            r.model_entries@ == models_offered(
                management.providers@,
                management.providers@.len() as int,
            ),
            nothing_drafted(r.draft),
            r.message is None,
    {
        let model_entries = offer_models(&management.providers);
        AgentManagerState {
            records: management.records,
            view: AgentManagerView::List,
            selected: 0,
            detail_action_selected: 0,
            edit_action_selected: 0,
            create_scope_selected: 0,
            create_method_selected: 0,
            tool_selected: 0,
            model_entries,
            model_selected: 0,
            draft: AgentEditorDraft {
                source_kind: AgentSourceKind::Project,
                original_path: None,
                name: String::new(),
                description: String::new(),
                instructions: String::new(),
                generated_description: String::new(),
                tools: Vec::new(),
                disallow_tools: Vec::new(),
                model: None,
                field: AgentEditorField::Name,
                cursor: 0,
            },
            message: None,
        }
    }

    /// What can be done with the agent at `i`: changing it, deleting it and going back, or only
    /// the last.
    pub open spec fn action_count(self, i: int) -> int {
        if i < self.records@.len() && self.records@[i].editable {
            3
        } else {
            1
        }
    }

    fn actions(&self, i: usize) -> (r: usize)
        ensures
            r == self.action_count(i as int),
    {
        if i < self.records.len() && self.records[i].editable {
            3
        } else {
            1
        }
    }

    /// The entry and the action chosen and the view after a key, and whether the page stays open.
    /// The list is left by the escape key, and every other view goes back by it.
    pub open spec fn after_key(self, key: KeyCode) -> (int, int, AgentManagerView, bool) {
        let at = self.selected as int;
        let action = self.detail_action_selected as int;
        match (self.view, key) {
            (AgentManagerView::List, KeyCode::Esc) => (at, action, self.view, false),
            (AgentManagerView::List, KeyCode::Up) => (text::minus(at, 1), action, self.view, true),
            (AgentManagerView::List, KeyCode::Down) => (
                text::min_int(at + 1, self.records@.len() as int),
                action,
                self.view,
                true,
            ),
            (AgentManagerView::List, KeyCode::Enter) => if at > 0 {
                (at, 0, AgentManagerView::Detail((at - 1) as usize), true)
            } else {
                (at, action, self.view, true)
            },
            (AgentManagerView::Detail(i), KeyCode::Up) => (
                at,
                text::minus(action, 1),
                self.view,
                true,
            ),
            (AgentManagerView::Detail(i), KeyCode::Down) => (
                at,
                text::min_int(action + 1, self.action_count(i as int) - 1),
                self.view,
                true,
            ),
            (AgentManagerView::Detail(i), KeyCode::Enter) => (
                at,
                action,
                if self.action_count(i as int) == 3 && action == 0 {
                    AgentManagerView::EditMenu
                } else if self.action_count(i as int) == 3 && action == 1 {
                    AgentManagerView::ConfirmDelete(i)
                } else {
                    AgentManagerView::List
                },
                true,
            ),
            (AgentManagerView::ConfirmDelete(i), KeyCode::Enter) => (
                at,
                action,
                AgentManagerView::List,
                true,
            ),
            (AgentManagerView::ConfirmDelete(i), KeyCode::Esc) => (
                at,
                action,
                AgentManagerView::Detail(i),
                true,
            ),
            (_, KeyCode::Esc) => (at, action, AgentManagerView::List, true),
            (_, _) => (at, action, self.view, true),
        }
    }

    /// The agent that a key takes up to be changed.
    pub open spec fn edited_by_key(self, key: KeyCode) -> Option<int> {
        match (self.view, key) {
            (AgentManagerView::Detail(i), KeyCode::Enter) => if self.action_count(i as int) == 3
                && self.detail_action_selected == 0 {
                Some(i as int)
            } else {
                None
            },
            (_, _) => None,
        }
    }

    /// What a key asks of the runtime: the file of an agent goes when that is confirmed.
    pub open spec fn asked_by_key(self, key: KeyCode) -> Option<UiToRuntimeEvent> {
        match (self.view, key) {
            (AgentManagerView::ConfirmDelete(i), KeyCode::Enter) => if i < self.records@.len() {
                match self.records@[i as int].path {
                    Some(path) => Some(UiToRuntimeEvent::AgentDeleteRequested { path }),
                    None => None,
                }
            } else {
                None
            },
            (_, _) => None,
        }
    }

    /// Takes a key; says whether the page stays open, and what is asked of the runtime.
    pub fn on_key(&mut self, key: KeyCode) -> (r: (bool, Option<UiToRuntimeEvent>))
        requires
            old(self).detail_action_selected < usize::MAX,
        ensures
            ({
                let (selected, action, view, open) = old(self).after_key(key);
                &&& r.0 == open
                &&& *final(self) == (AgentManagerState {
                    selected: selected as usize,
                    detail_action_selected: action as usize,
                    view,
                    draft: final(self).draft,
                    ..*old(self)
                })
            }),
            match old(self).edited_by_key(key) {
                Some(i) => takes_up(final(self).draft, old(self).records@[i]),
                None => final(self).draft == old(self).draft,
            },
            r.1 == old(self).asked_by_key(key),
            old(self).selected <= old(self).records@.len() ==> final(self).selected
                <= final(self).records@.len(),
    {
        let mut request: Option<UiToRuntimeEvent> = None;
        match (self.view, key) {
            (AgentManagerView::List, KeyCode::Esc) => {
                return (false, None);
            },
            (AgentManagerView::List, KeyCode::Up) => {
                if self.selected > 0 {
                    self.selected = self.selected - 1;
                }
            },
            (AgentManagerView::List, KeyCode::Down) => {
                if self.selected < self.records.len() {
                    self.selected = self.selected + 1;
                } else {
                    self.selected = self.records.len();
                }
            },
            (AgentManagerView::List, KeyCode::Enter) => {
                if self.selected > 0 {
                    self.view = AgentManagerView::Detail(self.selected - 1);
                    self.detail_action_selected = 0;
                }
            },
            (AgentManagerView::Detail(_), KeyCode::Up) => {
                if self.detail_action_selected > 0 {
                    self.detail_action_selected = self.detail_action_selected - 1;
                }
            },
            (AgentManagerView::Detail(i), KeyCode::Down) => {
                let last: usize = self.actions(i) - 1;
                self.detail_action_selected =
                text::min_usize(self.detail_action_selected + 1, last);
            },
            (AgentManagerView::Detail(i), KeyCode::Enter) => {
                let editable = self.actions(i) == 3;
                self.view =
                if editable && self.detail_action_selected == 0 {
                    self.draft = draft_of(&self.records[i]);
                    AgentManagerView::EditMenu
                } else if editable && self.detail_action_selected == 1 {
                    AgentManagerView::ConfirmDelete(i)
                } else {
                    AgentManagerView::List
                };
            },
            (AgentManagerView::ConfirmDelete(i), KeyCode::Enter) => {
                if i < self.records.len() {
                    match &self.records[i].path {
                        Some(path) => {
                            request =
                            Some(UiToRuntimeEvent::AgentDeleteRequested { path: path.clone() });
                        },
                        None => {},
                    }
                }
                self.view = AgentManagerView::List;
            },
            (AgentManagerView::ConfirmDelete(i), KeyCode::Esc) => {
                self.view = AgentManagerView::Detail(i);
            },
            (_, KeyCode::Esc) => {
                self.view = AgentManagerView::List;
            },
            (_, _) => {},
        }
        (true, request)
    }

    /// Shows the agents as they are now, in the list.
    pub fn update_records(&mut self, records: Vec<AgentRecord>)
        ensures
            *final(self) == (AgentManagerState {
                records,
                view: AgentManagerView::List,
                selected: text::min_int(old(self).selected as int, records@.len() as int) as usize,
                ..*old(self)
            }),
    {
        self.selected = text::min_usize(self.selected, records.len());
        self.records = records;
        self.view = AgentManagerView::List;
    }
}

} // verus!
