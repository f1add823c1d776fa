//! The pages on which the user picks a model or a session.
use crate::text;
use crate::tui::state::UiState;
use crate::types::config::ModelConfig;
use crate::types::config::ProviderProfile;
use crate::types::config::ThinkingEffort;
use crate::types::events::InteractionRequest;
use crate::types::events::SessionSummary;
use vstd::prelude::*;

verus! {

#[derive(Debug, PartialEq, Eq)]
pub enum ModelSelectionEntry {
    /// The heading of a provider; it cannot be selected.
    ProviderHeader { name: String },
    /// A model of a provider.
    Model { provider_key: String, model: ModelConfig },
}

/// The page that is open.
#[derive(Debug, PartialEq, Eq)]
pub enum InteractionStep {
    ModelSelection {
        entries: Vec<ModelSelectionEntry>,
        selected: usize,
        /// 0 for off, 1 for low, 2 for medium, 3 for high.
        thinking_idx: usize,
        active_provider: String,
        active_model: String,
    },
    Session {
        sessions: Vec<SessionSummary>,
        all_sessions: Vec<SessionSummary>,
        search: String,
        selected: usize,
    },
}

/// `order` with `x` put behind the last position whose key is not greater.
pub open spec fn insert_by_key(order: Seq<usize>, keys: Seq<Seq<char>>, x: usize) -> Seq<usize>
    decreases order.len(),
{
    if order.len() == 0 || !text::less(keys[x as int], keys[order.last() as int]) {
        order.push(x)
    } else {
        insert_by_key(order.drop_last(), keys, x).push(order.last())
    }
}

/// The positions below `n`, in the order of their keys.
pub open spec fn order_by_key(keys: Seq<Seq<char>>, n: int) -> Seq<usize>
    decreases n,
{
    if n <= 0 {
        Seq::empty()
    } else {
        insert_by_key(order_by_key(keys, n - 1), keys, (n - 1) as usize)
    }
}

proof fn lemma_insert_by_key(order: Seq<usize>, keys: Seq<Seq<char>>, x: usize)
    ensures
        insert_by_key(order, keys, x).to_multiset() == order.to_multiset().insert(x),
        insert_by_key(order, keys, x).len() == order.len() + 1,
    decreases order.len(),
{
    broadcast use vstd::seq_lib::group_to_multiset_ensures;

    if order.len() > 0 && text::less(keys[x as int], keys[order.last() as int]) {
        lemma_insert_by_key(order.drop_last(), keys, x);
        assert(order =~= order.drop_last().push(order.last()));
    }
}

pub proof fn lemma_order_by_key(keys: Seq<Seq<char>>, n: int)
    requires
        0 <= n <= usize::MAX,
    ensures
        order_by_key(keys, n).len() == n,
        forall|i: int| 0 <= i < n ==> (#[trigger] order_by_key(keys, n)[i]) < n,
    decreases n,
{
    broadcast use vstd::seq_lib::group_to_multiset_ensures;

    if n > 0 {
        lemma_order_by_key(keys, n - 1);
        let before = order_by_key(keys, n - 1);
        let x = (n - 1) as usize;
        lemma_insert_by_key(before, keys, x);
        let after = order_by_key(keys, n);
        assert forall|i: int| 0 <= i < n implies (#[trigger] after[i]) < n by {
            assert(after.contains(after[i]));
            assert(after.to_multiset().count(after[i]) > 0);
            if after[i] != x {
                assert(before.to_multiset().count(after[i]) > 0);
                assert(before.contains(after[i]));
            }
        }
    }
}

pub open spec fn provider_keys(providers: Seq<(String, ProviderProfile)>) -> Seq<Seq<char>> {
    Seq::new(providers.len(), |i: int| providers[i].0@)
}

/// The entries of one provider: its heading and its models.
pub open spec fn provider_entries(p: (String, ProviderProfile)) -> Seq<ModelSelectionEntry> {
    seq![ModelSelectionEntry::ProviderHeader { name: p.1.name }] + Seq::new(
        p.1.models@.len(),
        |i: int| ModelSelectionEntry::Model { provider_key: p.0, model: p.1.models@[i] },
    )
}

/// The entries of the first `n` providers in the given order.
pub open spec fn model_entries(
    providers: Seq<(String, ProviderProfile)>,
    order: Seq<usize>,
    n: int,
) -> Seq<ModelSelectionEntry>
    decreases n,
{
    if n <= 0 {
        Seq::empty()
    } else {
        model_entries(providers, order, n - 1) + provider_entries(providers[order[n - 1] as int])
    }
}

/// Whether an entry is the given model of the given provider.
pub open spec fn is_entry_of(e: ModelSelectionEntry, provider: Seq<char>, model: Seq<char>) -> bool {
    e matches ModelSelectionEntry::Model { provider_key, model: m } && provider_key@ == provider
        && m.id@ == model
}

/// Where the first model stands from `from` on; no place of a model where there is none.
pub open spec fn first_model(entries: Seq<ModelSelectionEntry>, from: int) -> int
    decreases entries.len() - from,
{
    if from >= entries.len() {
        0
    } else if entries[from] is Model {
        from
    } else {
        first_model(entries, from + 1)
    }
}

/// The last entry of the given model among the first `n`, or the first model of all.
pub open spec fn entry_of(
    entries: Seq<ModelSelectionEntry>,
    provider: Seq<char>,
    model: Seq<char>,
    n: int,
) -> int
    decreases n,
{
    if n <= 0 {
        first_model(entries, 0)
    } else if is_entry_of(entries[n - 1], provider, model) {
        n - 1
    } else {
        entry_of(entries, provider, model, n - 1)
    }
}

/// The place of a thinking effort in the list of efforts.
pub open spec fn effort_index(effort: Option<ThinkingEffort>) -> usize {
    match effort {
        Some(ThinkingEffort::Low) => 1,
        Some(ThinkingEffort::Medium) => 2,
        Some(ThinkingEffort::High) => 3,
        _ => 0,
    }
}

/// `sorted` with `x` put behind the last session that is not older.
pub open spec fn insert_session(sorted: Seq<SessionSummary>, x: SessionSummary) -> Seq<
    SessionSummary,
>
    decreases sorted.len(),
{
    if sorted.len() == 0 || sorted.last().created_at >= x.created_at {
        sorted.push(x)
    } else {
        insert_session(sorted.drop_last(), x).push(sorted.last())
    }
}

/// The first `n` sessions, the newest first.
pub open spec fn newest_first(sessions: Seq<SessionSummary>, n: int) -> Seq<SessionSummary>
    decreases n,
{
    if n <= 0 {
        Seq::empty()
    } else {
        insert_session(newest_first(sessions, n - 1), sessions[n - 1])
    }
}

/// The page that opens for a request.
pub open spec fn step_opened(
    req: InteractionRequest,
    effort: Option<ThinkingEffort>,
    step: InteractionStep,
) -> bool {
    match req {
        InteractionRequest::ModelSelection { providers, current_provider, current_model } => {
            let all = model_entries(
                providers@,
                order_by_key(provider_keys(providers@), providers@.len() as int),
                providers@.len() as int,
            );
            step matches InteractionStep::ModelSelection {
                entries,
                selected,
                thinking_idx,
                active_provider,
                active_model,
            } && {
                &&& entries@ == all
                &&& selected == entry_of(
                    all,
                    current_provider@,
                    current_model@,
                    all.len() as int,
                )
                &&& thinking_idx == effort_index(effort)
                &&& active_provider@ == current_provider@
                &&& active_model@ == current_model@
            }
        },
        InteractionRequest::SessionSelection { sessions } => {
            let all = newest_first(sessions@, sessions@.len() as int);
            step matches InteractionStep::Session {
                sessions: shown,
                all_sessions,
                search,
                selected,
            } && {
                &&& shown@ == all
                &&& all_sessions@ == all
                &&& search@.len() == 0
                &&& selected == 0
            }
        },
    }
}

fn sort_providers(providers: &Vec<(String, ProviderProfile)>) -> (r: Vec<usize>)
    ensures
        r@ == order_by_key(provider_keys(providers@), providers@.len() as int),
        r@.len() == providers@.len(),
        forall|i: int| 0 <= i < r@.len() ==> (#[trigger] r@[i]) < providers@.len(),
{
    let ghost keys = provider_keys(providers@);
    let mut order: Vec<usize> = Vec::new();
    let mut n: usize = 0;
    let total: usize = providers.len();
    while n < total
        invariant
            n <= total,
            total == providers@.len(),
            keys == provider_keys(providers@),
            order@ == order_by_key(keys, n as int),
        decreases total - n,
    {
        proof {
            lemma_order_by_key(keys, n as int);
        }
        let mut at: usize = order.len();
        let ghost all = order@;
        assert(all.take(at as int) =~= all);
        assert(insert_by_key(all, keys, n) =~= insert_by_key(all, keys, n) + all.skip(at as int));
        while at > 0
            invariant
                at <= all.len(),
                n < total,
                total == providers@.len(),
                order@ == all,
                keys == provider_keys(providers@),
                all.len() == n,
                forall|i: int| 0 <= i < all.len() ==> (#[trigger] all[i]) < n,
                insert_by_key(all, keys, n) == insert_by_key(all.take(at as int), keys, n)
                    + all.skip(at as int),
            ensures
                at <= all.len(),
                insert_by_key(all, keys, n) == all.take(at as int).push(n) + all.skip(at as int),
            decreases at,
        {
            let other: usize = order[at - 1];
            assert(all.take(at as int).last() == all[at - 1]);
            assert(keys[n as int] == providers@[n as int].0@);
            assert(keys[other as int] == providers@[other as int].0@);
            if !text::is_less(providers[n].0.as_str(), providers[other].0.as_str()) {
                break;
            }
            assert(all.take(at as int).drop_last() =~= all.take(at - 1));
            assert(insert_by_key(all.take(at - 1), keys, n).push(all[at - 1]) + all.skip(at as int)
                =~= insert_by_key(all.take(at - 1), keys, n) + all.skip(at - 1));
            at = at - 1;
        }
        order.insert(at, n);
        assert(order@ =~= insert_by_key(all, keys, n));
        n = n + 1;
    }
    proof {
        lemma_order_by_key(keys, total as int);
    }
    order
}

fn sort_sessions(sessions: &Vec<SessionSummary>) -> (r: Vec<SessionSummary>)
    ensures
        r@ == newest_first(sessions@, sessions@.len() as int),
{
    let mut out: Vec<SessionSummary> = Vec::new();
    let mut n: usize = 0;
    while n < sessions.len()
        invariant
            n <= sessions@.len(),
            out@ == newest_first(sessions@, n as int),
        decreases sessions@.len() - n,
    {
        let x = sessions[n].clone();
        let mut at: usize = out.len();
        let ghost all = out@;
        assert(all.take(at as int) =~= all);
        assert(insert_session(all, x) =~= insert_session(all, x) + all.skip(at as int));
        while at > 0
            invariant
                at <= all.len(),
                out@ == all,
                insert_session(all, x) == insert_session(all.take(at as int), x) + all.skip(
                    at as int,
                ),
            ensures
                at <= all.len(),
                insert_session(all, x) == all.take(at as int).push(x) + all.skip(at as int),
            decreases at,
        {
            assert(all.take(at as int).last() == all[at - 1]);
            if out[at - 1].created_at >= x.created_at {
                break;
            }
            assert(all.take(at as int).drop_last() =~= all.take(at - 1));
            assert(insert_session(all.take(at - 1), x).push(all[at - 1]) + all.skip(at as int)
                =~= insert_session(all.take(at - 1), x) + all.skip(at - 1));
            at = at - 1;
        }
        out.insert(at, x);
        assert(out@ =~= insert_session(all, x));
        n = n + 1;
    }
    out
}

pub(crate) fn copy_sessions(sessions: &Vec<SessionSummary>) -> (r: Vec<SessionSummary>)
    ensures
        r@ == sessions@,
{
    let mut out: Vec<SessionSummary> = Vec::new();
    let mut i: usize = 0;
    while i < sessions.len()
        invariant
            i <= sessions@.len(),
            out@ == sessions@.take(i as int),
        decreases sessions@.len() - i,
    {
        out.push(sessions[i].clone());
        assert(out@ =~= sessions@.take(i + 1));
        i = i + 1;
    }
    assert(sessions@.take(sessions@.len() as int) =~= sessions@);
    out
}

fn list_models(providers: &Vec<(String, ProviderProfile)>) -> (r: Vec<ModelSelectionEntry>)
    ensures
        r@ == model_entries(
            providers@,
            order_by_key(provider_keys(providers@), providers@.len() as int),
            providers@.len() as int,
        ),
{
    let order = sort_providers(providers);
    let mut entries: Vec<ModelSelectionEntry> = Vec::new();
    let mut n: usize = 0;
    while n < order.len()
        invariant
            n <= order@.len(),
            order@.len() == providers@.len(),
            forall|i: int| 0 <= i < order@.len() ==> (#[trigger] order@[i]) < providers@.len(),
            entries@ == model_entries(providers@, order@, n as int),
        decreases order@.len() - n,
    {
        let p = &providers[order[n]];
        let ghost before = entries@;
        entries.push(ModelSelectionEntry::ProviderHeader { name: p.1.name.clone() });
        let mut i: usize = 0;
        while i < p.1.models.len()
            invariant
                i <= p.1.models@.len(),
                entries@ =~= before + provider_entries(*p).take(i + 1),
            decreases p.1.models@.len() - i,
        {
            entries.push(
                ModelSelectionEntry::Model {
                    provider_key: p.0.clone(),
                    model: p.1.models[i].clone(),
                },
            );
            i = i + 1;
        }
        assert(provider_entries(*p).take((p.1.models@.len() + 1) as int) =~= provider_entries(*p));
        n = n + 1;
    }
    entries
}

fn find_model(entries: &Vec<ModelSelectionEntry>, provider: &str, model: &str) -> (r: usize)
    ensures
        r == entry_of(entries@, provider@, model@, entries@.len() as int),
{
    let mut n: usize = entries.len();
    while n > 0
        invariant
            n <= entries@.len(),
            entry_of(entries@, provider@, model@, entries@.len() as int) == entry_of(
                entries@,
                provider@,
                model@,
                n as int,
            ),
        decreases n,
    {
        match &entries[n - 1] {
            ModelSelectionEntry::Model { provider_key, model: m } => {
                if text::same(provider_key.as_str(), provider) && text::same(
                    m.id.as_str(),
                    model,
                ) {
                    return n - 1;
                }
            },
            _ => {},
        }
        n = n - 1;
    }
    let mut i: usize = 0;
    while i < entries.len()
        invariant
            i <= entries@.len(),
            entry_of(entries@, provider@, model@, entries@.len() as int) == first_model(
                entries@,
                i as int,
            ),
        decreases entries@.len() - i,
    {
        if let ModelSelectionEntry::Model { .. } = &entries[i] {
            return i;
        }
        i = i + 1;
    }
    0
}

pub proof fn lemma_first_model_listed(entries: Seq<ModelSelectionEntry>, from: int)
    requires
        0 <= from,
    ensures
        0 <= first_model(entries, from),
        entries.len() > 0 ==> first_model(entries, from) < entries.len(),
    decreases entries.len() - from,
{
    if from < entries.len() && entries[from] !is Model {
        lemma_first_model_listed(entries, from + 1);
    }
}

proof fn lemma_first_model(entries: Seq<ModelSelectionEntry>, from: int, at: int)
    requires
        0 <= from <= at < entries.len(),
        entries[at] is Model,
    ensures
        from <= first_model(entries, from) <= at,
        entries[first_model(entries, from)] is Model,
    decreases entries.len() - from,
{
    if entries[from] !is Model {
        lemma_first_model(entries, from + 1, at);
    }
}

/// Where any model is listed, a model is chosen and never a heading.
pub proof fn law_a_model_is_chosen(
    entries: Seq<ModelSelectionEntry>,
    provider: Seq<char>,
    model: Seq<char>,
    n: int,
    at: int,
)
    requires
        0 <= n <= entries.len(),
        0 <= at < entries.len(),
        entries[at] is Model,
    ensures
        0 <= entry_of(entries, provider, model, n) < entries.len(),
        entries[entry_of(entries, provider, model, n)] is Model,
    decreases n,
{
    if n <= 0 {
        lemma_first_model(entries, 0, at);
    } else if !is_entry_of(entries[n - 1], provider, model) {
        law_a_model_is_chosen(entries, provider, model, n - 1, at);
    }
}

impl UiState {
    /// Opens the page for a request.
    pub fn open_interaction_request(&mut self, req: &InteractionRequest)
        ensures
            *final(self) == (UiState {
                interaction_step: final(self).interaction_step,
                ..*old(self)
            }),
            final(self).interaction_step matches Some(step) && step_opened(
                *req,
                old(self).status_bar.thinking_effort,
                step,
            ),
            final(self).interaction_step matches Some(
                InteractionStep::ModelSelection { entries, selected, .. },
            ) ==> (exists|i: int| 0 <= i < entries@.len() && (#[trigger] entries@[i]) is Model)
                ==> selected < entries@.len() && entries@[selected as int] is Model,
    {
        let step = match req {
            InteractionRequest::ModelSelection { providers, current_provider, current_model } => {
                let entries = list_models(providers);
                let selected = find_model(
                    &entries,
                    current_provider.as_str(),
                    current_model.as_str(),
                );
                proof {
                    if exists|i: int| 0 <= i < entries@.len() && (#[trigger] entries@[i]) is Model {
                        let at = choose|i: int|
                            0 <= i < entries@.len() && (#[trigger] entries@[i]) is Model;
                        law_a_model_is_chosen(
                            entries@,
                            current_provider@,
                            current_model@,
                            entries@.len() as int,
                            at,
                        );
                    }
                }
                let thinking_idx: usize = match self.status_bar.thinking_effort {
                    Some(ThinkingEffort::Low) => 1,
                    Some(ThinkingEffort::Medium) => 2,
                    Some(ThinkingEffort::High) => 3,
                    _ => 0,
                };
                InteractionStep::ModelSelection {
                    entries,
                    selected,
                    thinking_idx,
                    active_provider: current_provider.clone(),
                    active_model: current_model.clone(),
                }
            },
            InteractionRequest::SessionSelection { sessions } => {
                let sorted = sort_sessions(sessions);
                let all_sessions = copy_sessions(&sorted);
                InteractionStep::Session {
                    sessions: sorted,
                    all_sessions,
                    search: String::new(),
                    selected: 0,
                }
            },
        };
        self.interaction_step = Some(step);
    }
}

} // verus!
