//! What the user does reaches whom it is meant for, and what comes back is shown as what it is.
use crate::api::request_laws;
use crate::json;
use crate::json::JsonView;
use crate::text;
use crate::tui::input;
use crate::tui::input::KeyCode;
use crate::tui::keys;
use crate::tui::keys::UiEffect;
use crate::tui::state::atoms;
use crate::tui::state::draft;
use crate::tui::state::events;
use crate::tui::state::interaction::InteractionStep;
use crate::tui::state::interaction::ModelSelectionEntry;
use crate::tui::state::AgentStatus;
use crate::tui::state::UiMessage;
use crate::tui::state::UiState;
use crate::types::display::UserDraft;
use crate::types::events::RuntimeToUiEvent;
use crate::types::events::ToolPauseKind;
use crate::types::events::ToolPauseRequest;
use crate::types::events::ToolPauseResponse;
use crate::types::events::UiToRuntimeEvent;
use crate::types::events::UserInputQuestion;
use crate::types::message::ContentBlock;
use crate::types::message::Message;
use crate::types::message::Role;
use vstd::prelude::*;

verus! {

/// The effect that answers the call `req` with yes or no.
pub open spec fn answers_call(effect: UiEffect, req: ToolPauseRequest, approved: bool) -> bool {
    effect == UiEffect::Request(
        UiToRuntimeEvent::ResolveToolPause {
            tool_use_id: req.tool_use_id,
            response: ToolPauseResponse::Permission { approved },
        },
    )
}

/// While a call asks for permission, yes approves just that call, no and the escape key refuse
/// it, and the enter key does what is selected; no other key answers it.
pub proof fn law_keys_answer_the_call(
    pre: UiState,
    req: ToolPauseRequest,
    key: KeyCode,
    effect: UiEffect,
    post: UiState,
)
    requires
        pre.active_pause() == Some(req),
        req.kind is Permission,
        !pre.user_input_note_mode,
        keys::pause_key(pre, req, key, effect, post),
    ensures
        key == KeyCode::Char('y') || key == KeyCode::Char('Y') ==> answers_call(effect, req, true),
        key == KeyCode::Char('n') || key == KeyCode::Char('N') || key == KeyCode::Esc
            ==> answers_call(effect, req, false),
        key == KeyCode::Enter ==> answers_call(effect, req, pre.permission_selected == 0),
        !(key == KeyCode::Char('y') || key == KeyCode::Char('Y') || key == KeyCode::Char('n')
            || key == KeyCode::Char('N') || key == KeyCode::Esc || key == KeyCode::Enter) ==> effect
            == UiEffect::Nothing,
{
    assert forall|choice: usize| #[trigger]
        keys::answered_with(pre, choice, effect, post) implies answers_call(
        effect,
        req,
        choice == 0,
    ) by {
        let mid = UiState { permission_selected: choice, ..pre };
        assert(mid.active_pause() == pre.active_pause());
    }
}

/// Turning questions away cancels just the call that asks them.
pub proof fn law_questions_are_turned_away(
    pre: UiState,
    req: ToolPauseRequest,
    effect: UiEffect,
    post: UiState,
)
    requires
        req.kind is UserInput,
        !pre.user_input_note_mode,
        keys::pause_key(pre, req, KeyCode::Esc, effect, post),
    ensures
        effect == UiEffect::Request(
            UiToRuntimeEvent::ResolveToolPause {
                tool_use_id: req.tool_use_id,
                response: ToolPauseResponse::Cancelled,
            },
        ),
{
}

proof fn lemma_answer_lookup(
    s: UiState,
    questions: Seq<UserInputQuestion>,
    n: int,
    i: int,
)
    requires
        0 <= i < n <= questions.len(),
        forall|a: int, b: int|
            0 <= a < b < questions.len() ==> (#[trigger] questions[a]).id@ != (
            #[trigger] questions[b]).id@,
    ensures
        json::lookup(
            Seq::new(
                n as nat,
                |k: int| (questions[k].id@, input::answer_view(s, questions[k], k)),
            ),
            questions[i].id@,
        ) == Some(input::answer_view(s, questions[i], i)),
    decreases n,
{
    let all = Seq::new(
        n as nat,
        |k: int| (questions[k].id@, input::answer_view(s, questions[k], k)),
    );
    let less = Seq::new(
        (n - 1) as nat,
        |k: int| (questions[k].id@, input::answer_view(s, questions[k], k)),
    );
    assert(all.drop_last() =~= less);
    if i < n - 1 {
        assert(questions[i].id@ != questions[n - 1].id@);
        lemma_answer_lookup(s, questions, n - 1, i);
    }
}

/// Every question is answered under its id with the option that was chosen for it, and with the
/// note that was written for it.
pub proof fn law_questions_are_answered(
    s: UiState,
    questions: Seq<UserInputQuestion>,
    i: int,
)
    requires
        0 <= i < questions.len(),
        i < s.user_input_selected@.len(),
        i < s.user_input_notes@.len(),
        forall|a: int, b: int|
            0 <= a < b < questions.len() ==> (#[trigger] questions[a]).id@ != (
            #[trigger] questions[b]).id@,
    ensures
        ({
            let given = input::answers_view(s, questions).at("answers"@).at(questions[i].id@);
            let chosen = s.user_input_selected@[i] as int;
            let note = text::trimmed(s.user_input_notes@[i]@);
            &&& chosen < questions[i].options@.len() ==> given.at("label"@).str_value() == Some(
                questions[i].options@[chosen].label@,
            )
            &&& chosen >= questions[i].options@.len() ==> given.at("label"@).str_value() == Some(
                "None of the above"@,
            )
            &&& note.len() > 0 ==> given.at("note"@).str_value() == Some(note)
            &&& note.len() == 0 ==> given.at("note"@) == JsonView::Null
        }),
{
    let n = questions.len() as int;
    lemma_answer_lookup(s, questions, n, i);
    let all = Seq::new(
        questions.len(),
        |k: int| (questions[k].id@, input::answer_view(s, questions[k], k)),
    );
    let none: Seq<(Seq<char>, JsonView)> = Seq::empty();
    request_laws::lemma_lookup_push(none, "answers"@, JsonView::Object(all), "answers"@);
    assert(seq![("answers"@, JsonView::Object(all))] =~= none.push(
        ("answers"@, JsonView::Object(all)),
    ));
    let answer = input::answer_view(s, questions[i], i);
    let label = answer->Object_0[0].1;
    let note = answer->Object_0[1].1;
    reveal_strlit("label");
    reveal_strlit("note");
    let one = none.push(("label"@, label));
    request_laws::lemma_lookup_push(none, "label"@, label, "label"@);
    request_laws::lemma_lookup_push(one, "note"@, note, "label"@);
    request_laws::lemma_lookup_push(one, "note"@, note, "note"@);
    assert(answer->Object_0 =~= one.push(("note"@, note)));
    assert("label"@.len() == 5 && "note"@.len() == 4);
}

/// The enter key sends what was typed: to the model where no run is under way, into the queue
/// where one is, and as a command where it starts with a slash. The input is empty then.
pub proof fn law_enter_sends_what_was_typed(pre: UiState, effect: UiEffect, post: UiState)
    requires
        keys::entered(pre, effect, post),
        pre.input@.len() > 0,
        pre.input_paste_markers@.len() == 0,
        pre.pending_intervention_inputs@.len() == 0,
    ensures
        post.input@.len() == 0,
        post.cursor_char == 0,
        pre.input@[0] == '/' ==> (effect matches UiEffect::Request(
            UiToRuntimeEvent::SendCommand(line),
        ) && line@ == pre.input@) && post.messages == pre.messages,
        pre.input@[0] != '/' && pre.agent_status == AgentStatus::Idle ==> (effect matches
            UiEffect::Request(UiToRuntimeEvent::SendMessage(d)) && d.text@ == pre.input@)
            && post.agent_status == AgentStatus::Working && post.messages@.len()
            == pre.messages@.len() + 1 && post.scroll_offset == 0,
        pre.input@[0] != '/' && pre.agent_status == AgentStatus::Idle && pre.input_mentions@.len()
            == 0 && pre.input_images@.len() == 0 ==> (post.messages@.last() matches
            UiMessage::Message(m) && m@ == Message::user_text(pre.input@)),
        pre.input@[0] != '/' && pre.agent_status != AgentStatus::Idle ==> effect
            == UiEffect::Nothing && post.queued_user_inputs@.len()
            == pre.queued_user_inputs@.len() + 1 && post.queued_user_inputs@.last().text@
            == pre.input@ && post.queued_user_inputs@.drop_last() == pre.queued_user_inputs@,
{
    let (d, mid) = choose|d: UserDraft, mid: UiState|
        #[trigger] draft::draft_taken(pre, Some(d), mid) && keys::draft_entered(
            mid,
            d,
            effect,
            post,
        );
    let sorted = atoms::by_start(pre.input_paste_markers@);
    assert(pre.input_paste_markers@ =~= Seq::empty());
    assert(sorted =~= Seq::empty());
    assert(draft::expanded(pre.input@, sorted) =~= pre.input@);
    assert(mid.queued_user_inputs@.push(d).drop_last() =~= mid.queued_user_inputs@);
    if pre.input_mentions@.len() == 0 {
        assert(d.mentions@.len() == 0);
    }
}

/// Inputs that waited are sent as one, each on lines of its own and in the order in which they
/// were typed.
pub proof fn law_waiting_inputs_are_sent_in_order(
    drafts: Seq<UserDraft>,
    d: UserDraft,
    last: UserDraft,
    more: UserDraft,
)
    requires
        drafts.len() > 0,
        draft::combined(drafts, d),
        draft::combined(drafts.push(last), more),
    ensures
        drafts.len() == 1 ==> d.text@ == drafts[0].text@,
        more.text@ == d.text@ + seq!['\n'] + last.text@,
{
    let all = draft::draft_texts(drafts.push(last));
    assert(all.drop_last() =~= draft::draft_texts(drafts));
    assert(all.last() == last.text@);
}

/// The model that is sent is the one that is selected, with its provider and the effort that is
/// set; another key sends none.
pub proof fn law_selected_model_is_sent(
    pre: InteractionStep,
    key: KeyCode,
    post: InteractionStep,
    stays: bool,
    request: Option<UiToRuntimeEvent>,
)
    requires
        pre is ModelSelection,
        input::choice_key(pre, key, post, stays, request),
        pre->entries@[pre->ModelSelection_selected as int] is Model,
    ensures
        key == KeyCode::Enter ==> (request matches Some(
            UiToRuntimeEvent::ModelSelected { provider, model, thinking_effort },
        ) && ModelSelectionEntry::Model {
            provider_key: provider,
            model: pre->entries@[pre->ModelSelection_selected as int]->Model_model,
        } == pre->entries@[pre->ModelSelection_selected as int] && model
            == pre->entries@[pre->ModelSelection_selected as int]->Model_model.id
            && thinking_effort == input::effort_at(pre->thinking_idx)),
        key != KeyCode::Enter ==> request is None,
        stays <==> key != KeyCode::Esc,
{
}

/// The session that is sent is the one that is selected; another key sends none.
pub proof fn law_selected_session_is_sent(
    pre: InteractionStep,
    key: KeyCode,
    post: InteractionStep,
    stays: bool,
    request: Option<UiToRuntimeEvent>,
)
    requires
        pre is Session,
        input::choice_key(pre, key, post, stays, request),
        pre->Session_selected < pre->sessions@.len(),
    ensures
        key == KeyCode::Enter ==> request == Some(
            UiToRuntimeEvent::SessionSelected {
                session_id: pre->sessions@[pre->Session_selected as int].id,
            },
        ),
        key != KeyCode::Enter ==> request is None,
        stays <==> key != KeyCode::Esc,
        key == KeyCode::Up && pre->Session_selected > 0 ==> post->Session_selected
            == pre->Session_selected - 1,
        key == KeyCode::Down && pre->Session_selected + 1 < pre->sessions@.len() <= usize::MAX
            ==> post->Session_selected == pre->Session_selected + 1,
{
}

/// The message that is being received, as the user sees it: its last block.
pub open spec fn last_shown(s: UiState) -> ContentBlock {
    events::pending_blocks(s).last()
}

/// What the runtime tells is shown as what it is: text behind the text before it, thinking as
/// thinking, calls as calls, and errors, warnings and notices as such behind all messages.
pub proof fn law_shown_as_what_it_is(pre: UiState, event: RuntimeToUiEvent, post: UiState)
    requires
        events::event_applied(pre, event, post),
    ensures
        event matches RuntimeToUiEvent::TextDelta(t) ==> ({
            let before = events::pending_blocks(pre);
            &&& last_shown(post) matches ContentBlock::Text(b) && b.text@ == (if before.len() > 0
                && before.last() is Text {
                before.last()->Text_0.text@ + t@
            } else {
                t@
            })
            &&& post.agent_status == AgentStatus::Working
            &&& post.messages == pre.messages
        }),
        event matches RuntimeToUiEvent::ThinkingDelta(t) ==> ({
            let before = events::pending_blocks(pre);
            &&& last_shown(post) matches ContentBlock::Thinking(b) && b.thinking@ == (if before.len()
                > 0 && before.last() is Thinking {
                before.last()->Thinking_0.thinking@ + t@
            } else {
                t@
            })
            &&& post.agent_status == AgentStatus::Thinking
            &&& post.messages == pre.messages
        }),
        event matches RuntimeToUiEvent::ToolUse(u) ==> last_shown(post) == ContentBlock::ToolUse(u)
            && text::views(post.running_tools@).contains(u.id@),
        event matches RuntimeToUiEvent::Error(e) ==> post.messages@ == pre.messages@.push(
            UiMessage::Error { text: e },
        ),
        event matches RuntimeToUiEvent::Warning(w) ==> post.messages@ == pre.messages@.push(
            UiMessage::Warning { text: w },
        ),
        event matches RuntimeToUiEvent::CommandNotice(t) ==> post.messages@ == pre.messages@.push(
            UiMessage::Notice { text: t },
        ),
        event matches RuntimeToUiEvent::ModelChanged { provider, model, thinking_effort } ==> (
        post.status_bar.active_provider == provider && post.status_bar.model == model
            && post.status_bar.thinking_effort == thinking_effort && post.interaction_step is None
            && post.interaction_request is None),
        event matches RuntimeToUiEvent::SessionTitleChanged { title }
            ==> post.current_session_title == title,
        event matches RuntimeToUiEvent::CommandList(c) ==> post.autocomplete.all_commands == c,
        event is RunStarted ==> post.agent_status == AgentStatus::Thinking
            && post.pending_assistant is None,
        event is RunFinished ==> post.agent_status == AgentStatus::Idle && post.pending_assistant
            is None,
        event is ToolPauseRequested ==> post.agent_status == AgentStatus::AwaitingInput,
{
    if let RuntimeToUiEvent::ToolUse(u) = event {
        let ids = text::views(pre.running_tools@);
        lemma_key_at(ids, u.id@);
        match events::key_at(ids, u.id@) {
            Some(i) => {
                assert(text::views(post.running_tools@)[i] == u.id@);
            },
            None => {
                assert(text::views(post.running_tools@)[pre.running_tools@.len() as int] == u.id@);
            },
        }
    }
}

proof fn lemma_key_at(keys: Seq<Seq<char>>, key: Seq<char>)
    ensures
        events::key_at(keys, key) matches Some(i) ==> 0 <= i < keys.len() && keys[i] == key,
    decreases keys.len(),
{
    if keys.len() > 0 {
        lemma_key_at(keys.drop_last(), key);
    }
}

/// What was received of an answer is kept among the messages when its turn ends or the run does.
pub proof fn law_answer_stays_shown(
    pre: UiState,
    event: RuntimeToUiEvent,
    post: UiState,
    m: Message,
)
    requires
        events::event_applied(pre, event, post),
        event is TurnEnded || event is RunFinished || event is TurnStarted,
        pre.pending_assistant == Some(m),
        m.content@.len() > 0,
    ensures
        post.messages@.len() > pre.messages@.len(),
        post.messages@.take(pre.messages@.len() as int) == pre.messages@,
        post.messages@[pre.messages@.len() as int] == UiMessage::Message(m),
        post.pending_assistant is None,
{
    let n = pre.messages@.len() as int;
    let with = pre.messages@.push(UiMessage::Message(m));
    assert(with.take(n) =~= pre.messages@);
    assert(with[n] == UiMessage::Message(m));
    if event is TurnEnded {
        assert(post.messages@.take(n + 1)[n] == post.messages@[n]);
        assert(post.messages@.take(n) =~= post.messages@.take(n + 1).take(n));
    }
}

/// A call that asks is what the user is asked about until it has its answer.
pub proof fn law_asking_call_waits(pre: UiState, req: ToolPauseRequest, post: UiState)
    requires
        events::event_applied(pre, RuntimeToUiEvent::ToolPauseRequested(req), post),
    ensures
        post.pending_tool_previews@.contains(req),
{
    let (a, b) = choose|a: UiState, b: UiState|
        {
            &&& #[trigger] crate::tui::state::permission::drawer_reset(pre, a)
            &&& match req.kind {
                ToolPauseKind::UserInput(
                    preview,
                ) => crate::tui::state::permission::questions_prepared(
                    a,
                    preview.questions@.len() as int,
                    b,
                ),
                ToolPauseKind::Permission(_) => b == a,
            }
            &&& #[trigger] events::pause_stored(b, req, post)
        };
    let ids = events::pause_ids(b.pending_tool_previews@);
    lemma_key_at(ids, req.tool_use_id@);
    match events::key_at(ids, req.tool_use_id@) {
        Some(i) => {
            assert(post.pending_tool_previews@[i] == req);
        },
        None => {
            assert(post.pending_tool_previews@[b.pending_tool_previews@.len() as int] == req);
        },
    }
}

} // verus!
