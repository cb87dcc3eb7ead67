//! What can be relied on of events: how they are found, what kind they are, what they are called, and how
//! a log grows.
use vstd::prelude::*;

use crate::event::{
    event_with, ids_increase, lemma_order_of, order_of, AgentTurnState, ApiState, CompactKind, Event,
    EventDataBase, EventId, EventKind, TerminalSessionState, ToolOutputStream,
};

verus! {

/// An event is found by its identity exactly if it is there, and it is the first of that identity.
pub proof fn law_events_are_found(events: Seq<Event>, place: int, id: EventId)
    ensures
        event_with(events, id) is None <==> (forall|i: int|
            0 <= i < events.len() ==> #[trigger] events[i].id != id),
        event_with(events, id) matches Some(found) ==> found.id == id && events.contains(found),
        0 <= place < events.len() && ids_increase(events) ==> event_with(events, events[place].id)
            == Some(events[place]) && order_of(events, events[place].id) == Some(place),
{
    lemma_order_of(events, id);
    if let Some(order) = order_of(events, id) {
        assert(events[order].id == id);
        assert(events.contains(events[order]));
    }
    if 0 <= place < events.len() && ids_increase(events) {
        lemma_order_of(events, events[place].id);
        if let Some(order) = order_of(events, events[place].id) {
            if order < place {
                assert(events[order].id < events[place].id);
            } else if place < order {
                assert(events[place].id < events[order].id);
            }
        } else {
            assert(events[place].id != events[place].id);
        }
    }
}

/// A log that grows keeps every event that it had, under its identity. The new events get the next
/// identities in their order, and the log stays in order.
pub proof fn law_logs_only_grow(before: EventDataBase, after: EventDataBase, count: int, place: int)
    requires
        before.wf(),
        after.grown(&before, count),
    ensures
        after.wf(),
        after@.len() == before@.len() + count,
        0 <= place < before@.len() ==> after@[place] == before@[place],
        0 <= place < count ==> after@[before@.len() + place].id == before.next_id + place
            && after.added(&before, place) == after@[before@.len() + place].body,
        after.next_id == before.next_id + count,
        after.mutation_revision == before.mutation_revision,
{
    let first = before@.len() as int;
    assert forall|i: int| 0 <= i < first implies #[trigger] after@[i] == before@[i] by {
        assert(after@.take(first)[i] == before@[i]);
    }
    assert forall|i: int, j: int| 0 <= i < j < after@.len() implies #[trigger] after@[i].id
        < #[trigger] after@[j].id by {
        if j < first {
            assert(before@[i].id < before@[j].id);
        } else if i < first {
            assert(before@[i].id < before.next_id);
        }
    }
    assert forall|i: int| 0 <= i < after@.len() implies #[trigger] after@[i].id < after.next_id by {
        if i < first {
            assert(before@[i].id < before.next_id);
        }
    }
}

/// A turn begins with a prompt of the user, of a manager or of a parent agent, and with nothing else.
pub proof fn law_prompts_that_begin_turns(event: Event)
    ensures
        event.body is UserPrompt || event.body is ManagerPrompt || event.body is ParentAgentPrompt
            ==> event.root_prompt(),
        event.root_prompt() ==> event.kind_of() == EventKind::UserPrompt || event.kind_of()
            == EventKind::ManagerPrompt || event.kind_of() == EventKind::ParentAgentPrompt,
        event.body is FollowUpPrompt || event.body is SystemPrompt ==> !event.root_prompt(),
{
}

/// A request is over once it completed, failed or was interrupted; a turn once it has more than started; a
/// terminal session once it does not run. Only a worker's conversation is compacted in one turn.
pub proof fn law_what_is_over(
    request: ApiState,
    turn: AgentTurnState,
    session: TerminalSessionState,
    kind: CompactKind,
)
    ensures
        request.terminal() <==> request == ApiState::Completed || request == ApiState::Error
            || request == ApiState::Interrupted,
        !request.terminal() <==> request == ApiState::Requesting || request == ApiState::Streaming
            || request == ApiState::Retrying,
        turn.terminal() <==> turn != AgentTurnState::Started,
        session.terminal() <==> session == TerminalSessionState::Exited || session
            == TerminalSessionState::Lost,
        kind.multi_turn() <==> kind == CompactKind::MainAgentMultiTurn || kind
            == CompactKind::ManagerMultiTurn,
{
}

/// The kind of an event is the kind of what it says.
pub proof fn law_events_are_of_their_kind(event: Event)
    ensures
        event.kind_of() == EventKind::AgentKindDef <==> event.body is AgentKindDef,
        event.kind_of() == EventKind::AgentTurn <==> event.body is AgentTurn,
        event.kind_of() == EventKind::SystemPrompt <==> event.body is SystemPrompt,
        event.kind_of() == EventKind::UserPrompt <==> event.body is UserPrompt,
        event.kind_of() == EventKind::ManagerPrompt <==> event.body is ManagerPrompt,
        event.kind_of() == EventKind::ParentAgentPrompt <==> event.body is ParentAgentPrompt,
        event.kind_of() == EventKind::FollowUpPrompt <==> event.body is FollowUpPrompt,
        event.kind_of() == EventKind::AssistResponse <==> event.body is AssistResponse,
        event.kind_of() == EventKind::ApiStateUpdate <==> event.body is ApiStateUpdate,
        event.kind_of() == EventKind::ContextUsageEstimate <==> event.body is ContextUsageEstimate,
        event.kind_of() == EventKind::UserTurnAborted <==> event.body is UserTurnAborted,
        event.kind_of() == EventKind::ToolCall <==> event.body is ToolCall,
        event.kind_of() == EventKind::ToolInfoUpdate <==> event.body is ToolInfoUpdate,
        event.kind_of() == EventKind::ToolCallResult <==> event.body is ToolCallResult,
        event.kind_of() == EventKind::TerminalSessionCreated <==> event.body is TerminalSessionCreated,
        event.kind_of() == EventKind::TerminalSessionState <==> event.body is TerminalSessionState,
        event.kind_of() == EventKind::ModelContextItem <==> event.body is ModelContextItem,
        event.kind_of() == EventKind::ModelChanged <==> event.body is ModelChanged,
        event.kind_of() == EventKind::ReasoningEffortChanged <==> event.body is ReasoningEffortChanged,
        event.kind_of() == EventKind::ContextCleared <==> event.body is ContextCleared,
        event.kind_of() == EventKind::WorkMapMutation <==> event.body is WorkMapMutation,
        event.kind_of() == EventKind::WorkMapPendingReminder <==> event.body is WorkMapPendingReminder,
        event.kind_of() == EventKind::CompactStateUpdate <==> event.body is CompactStateUpdate,
        event.kind_of() == EventKind::AgentTitleChanged <==> event.body is AgentTitleChanged,
        event.kind_of() == EventKind::CloneCompleted <==> event.body is CloneCompleted,
        event.kind_of() == EventKind::ImageContent <==> event.body is ImageContent,
{
}

/// How long the names of the kinds are.
proof fn lemma_names_of_kinds()
    ensures
        "ToolCall"@.len() == 8,
        "AgentTurn"@.len() == 9,
        "UserPrompt"@.len() == 10,
        "AgentKindDef"@.len() == 12,
        "SystemPrompt"@.len() == 12,
        "ModelChanged"@.len() == 12,
        "ImageContent"@.len() == 12,
        "ManagerPrompt"@.len() == 13,
        "FollowUpPrompt"@.len() == 14,
        "AssistResponse"@.len() == 14,
        "ApiStateUpdate"@.len() == 14,
        "ToolInfoUpdate"@.len() == 14,
        "ToolCallResult"@.len() == 14,
        "ContextCleared"@.len() == 14,
        "CloneCompleted"@.len() == 14,
        "UserTurnAborted"@.len() == 15,
        "WorkMapMutation"@.len() == 15,
        "ModelContextItem"@.len() == 16,
        "ParentAgentPrompt"@.len() == 17,
        "AgentTitleChanged"@.len() == 17,
        "CompactStateUpdate"@.len() == 18,
        "ContextUsageEstimate"@.len() == 20,
        "TerminalSessionState"@.len() == 20,
        "TerminalSessionCreated"@.len() == 22,
        "ReasoningEffortChanged"@.len() == 22,
        "WorkMapPendingReminder"@.len() == 22,
        "AgentKindDef"@[0] != "SystemPrompt"@[0],
        "AgentKindDef"@[0] != "ModelChanged"@[0],
        "AgentKindDef"@[0] != "ImageContent"@[0],
        "SystemPrompt"@[0] != "ModelChanged"@[0],
        "SystemPrompt"@[0] != "ImageContent"@[0],
        "ModelChanged"@[0] != "ImageContent"@[0],
        "ParentAgentPrompt"@[0] != "AgentTitleChanged"@[0],
        "FollowUpPrompt"@[0] != "AssistResponse"@[0],
        "FollowUpPrompt"@[0] != "ApiStateUpdate"@[0],
        "FollowUpPrompt"@[0] != "ToolInfoUpdate"@[0],
        "FollowUpPrompt"@[0] != "ToolCallResult"@[0],
        "FollowUpPrompt"@[0] != "ContextCleared"@[0],
        "FollowUpPrompt"@[0] != "CloneCompleted"@[0],
        "AssistResponse"@[1] != "ApiStateUpdate"@[1],
        "AssistResponse"@[0] != "ToolInfoUpdate"@[0],
        "AssistResponse"@[0] != "ToolCallResult"@[0],
        "AssistResponse"@[0] != "ContextCleared"@[0],
        "AssistResponse"@[0] != "CloneCompleted"@[0],
        "ApiStateUpdate"@[0] != "ToolInfoUpdate"@[0],
        "ApiStateUpdate"@[0] != "ToolCallResult"@[0],
        "ApiStateUpdate"@[0] != "ContextCleared"@[0],
        "ApiStateUpdate"@[0] != "CloneCompleted"@[0],
        "ToolInfoUpdate"@[4] != "ToolCallResult"@[4],
        "ToolInfoUpdate"@[0] != "ContextCleared"@[0],
        "ToolInfoUpdate"@[0] != "CloneCompleted"@[0],
        "ToolCallResult"@[0] != "ContextCleared"@[0],
        "ToolCallResult"@[0] != "CloneCompleted"@[0],
        "ContextCleared"@[1] != "CloneCompleted"@[1],
        "ContextUsageEstimate"@[0] != "TerminalSessionState"@[0],
        "UserTurnAborted"@[0] != "WorkMapMutation"@[0],
        "TerminalSessionCreated"@[0] != "ReasoningEffortChanged"@[0],
        "TerminalSessionCreated"@[0] != "WorkMapPendingReminder"@[0],
        "ReasoningEffortChanged"@[0] != "WorkMapPendingReminder"@[0],
{
    reveal_strlit("AgentKindDef");
    reveal_strlit("AgentTurn");
    reveal_strlit("SystemPrompt");
    reveal_strlit("UserPrompt");
    reveal_strlit("ManagerPrompt");
    reveal_strlit("ParentAgentPrompt");
    reveal_strlit("FollowUpPrompt");
    reveal_strlit("AssistResponse");
    reveal_strlit("ApiStateUpdate");
    reveal_strlit("ContextUsageEstimate");
    reveal_strlit("UserTurnAborted");
    reveal_strlit("ToolCall");
    reveal_strlit("ToolInfoUpdate");
    reveal_strlit("ToolCallResult");
    reveal_strlit("TerminalSessionCreated");
    reveal_strlit("TerminalSessionState");
    reveal_strlit("ModelContextItem");
    reveal_strlit("ModelChanged");
    reveal_strlit("ReasoningEffortChanged");
    reveal_strlit("ContextCleared");
    reveal_strlit("WorkMapMutation");
    reveal_strlit("WorkMapPendingReminder");
    reveal_strlit("CompactStateUpdate");
    reveal_strlit("AgentTitleChanged");
    reveal_strlit("CloneCompleted");
    reveal_strlit("ImageContent");
}

/// No two kinds of events are called alike.
pub proof fn law_kinds_are_told_apart(one: EventKind, other: EventKind)
    ensures
        one.name() == other.name() ==> one == other,
{
    lemma_names_of_kinds();
}

/// No two states of a request, streams of a tool or states of a session are called alike.
pub proof fn law_states_are_told_apart(
    one: ApiState,
    other: ApiState,
    stream: ToolOutputStream,
    other_stream: ToolOutputStream,
    session: TerminalSessionState,
    other_session: TerminalSessionState,
)
    ensures
        one.name() == other.name() ==> one == other,
        stream.name() == other_stream.name() ==> stream == other_stream,
        session.name() == other_session.name() ==> session == other_session,
{
    reveal_strlit("requesting");
    reveal_strlit("streaming");
    reveal_strlit("retrying");
    reveal_strlit("completed");
    reveal_strlit("error");
    reveal_strlit("interrupted");
    reveal_strlit("stdout");
    reveal_strlit("stderr");
    reveal_strlit("terminal");
    reveal_strlit("running");
    reveal_strlit("exited");
    reveal_strlit("lost");
    assert("requesting"@.len() == 10 && "streaming"@.len() == 9 && "retrying"@.len() == 8
        && "completed"@.len() == 9 && "error"@.len() == 5 && "interrupted"@.len() == 11);
    assert("streaming"@[0] == 's' && "completed"@[0] == 'c');
    assert("stdout"@.len() == 6 && "stderr"@.len() == 6 && "terminal"@.len() == 8);
    assert("stdout"@[3] == 'o' && "stderr"@[3] == 'e');
    assert("running"@.len() == 7 && "exited"@.len() == 6 && "lost"@.len() == 4);
}

} // verus!
