//! What holds of the state whatever the runtime reports.
use crate::tui::state::events;
use crate::tui::state::UiState;
use crate::types::events::RuntimeToUiEvent;
use crate::types::events::SubagentStatus;
use crate::types::message;
use crate::types::message::ContentBlock;
use vstd::prelude::*;

verus! {

/// What the user is typing, and what they have typed for later, is theirs: no event of the
/// runtime touches it.
pub proof fn law_events_leave_the_input_alone(
    pre: UiState,
    event: RuntimeToUiEvent,
    post: UiState,
)
    requires
        events::event_applied(pre, event, post),
    ensures
        post.input == pre.input,
        post.input_mentions == pre.input_mentions,
        post.input_images == pre.input_images,
        post.input_paste_markers == pre.input_paste_markers,
        post.cursor_char == pre.cursor_char,
        post.queued_user_inputs == pre.queued_user_inputs,
{
}

/// No event takes anything out of the message area.
pub proof fn law_messages_stay(pre: UiState, event: RuntimeToUiEvent, post: UiState)
    requires
        events::event_applied(pre, event, post),
    ensures
        post.messages@.len() >= pre.messages@.len(),
{
}

/// After an error no subagent is taken to be running.
pub proof fn law_error_ends_the_subagents(pre: UiState, e: String, post: UiState)
    requires
        events::event_applied(pre, RuntimeToUiEvent::Error(e), post),
    ensures
        forall|i: int|
            0 <= i < post.subagents@.len() ==> (#[trigger] post.subagents@[i]).status
                != SubagentStatus::Running,
{
}

/// How a text is cut into pieces as it comes in makes no difference to the message.
pub proof fn law_pieces_of_text_join(
    pre: Seq<ContentBlock>,
    a: String,
    mid: Seq<ContentBlock>,
    b: String,
    post: Seq<ContentBlock>,
    whole: String,
    at_once: Seq<ContentBlock>,
)
    requires
        events::text_added(pre, a, mid),
        events::text_added(mid, b, post),
        whole@ == a@ + b@,
        events::text_added(pre, whole, at_once),
    ensures
        message::blocks_view(post) == message::blocks_view(at_once),
{
    let n = post.len() - 1;
    assert(at_once.len() == post.len());
    assert forall|i: int| 0 <= i < n implies post[i] == at_once[i] by {
        assert(post.drop_last()[i] == post[i]);
        assert(mid.drop_last()[i] == mid[i]);
        assert(at_once.drop_last()[i] == at_once[i]);
    }
    assert(post.last()@ == at_once.last()@) by {
        if pre.len() > 0 && pre.last() is Text {
            assert(pre.last()->Text_0.text@ + a@ + b@ =~= pre.last()->Text_0.text@ + (a@ + b@));
        }
    }
    assert(message::blocks_view(post) =~= message::blocks_view(at_once));
}

/// How thinking is cut into pieces as it comes in makes no difference to the message.
pub proof fn law_pieces_of_thinking_join(
    pre: Seq<ContentBlock>,
    a: String,
    mid: Seq<ContentBlock>,
    b: String,
    post: Seq<ContentBlock>,
    whole: String,
    at_once: Seq<ContentBlock>,
)
    requires
        events::thinking_added(pre, a, mid),
        events::thinking_added(mid, b, post),
        whole@ == a@ + b@,
        events::thinking_added(pre, whole, at_once),
    ensures
        message::blocks_view(post) == message::blocks_view(at_once),
{
    let n = post.len() - 1;
    assert(at_once.len() == post.len());
    assert forall|i: int| 0 <= i < n implies post[i] == at_once[i] by {
        assert(post.drop_last()[i] == post[i]);
        assert(mid.drop_last()[i] == mid[i]);
        assert(at_once.drop_last()[i] == at_once[i]);
    }
    assert(post.last()@ == at_once.last()@) by {
        if pre.len() > 0 && pre.last() is Thinking {
            assert(pre.last()->Thinking_0.thinking@ + a@ + b@ =~= pre.last()->Thinking_0.thinking@
                + (a@ + b@));
        }
    }
    assert(message::blocks_view(post) =~= message::blocks_view(at_once));
}

} // verus!
