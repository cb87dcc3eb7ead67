//! What can be relied on of what is asked of an agent and of what a restart finds: inputs are taken one
//! by one, ended turns are not carried on, what was left open is closed, and what is written says
//! what it should.
use vstd::prelude::*;

use crate::api_calls::{
    api_reconciled, completes_request, latest_api_update, open_calls, open_compact,
    request_completed_between, retry_left_open, ApiCallState,
};
use crate::compacts::{compact_reconciled, compact_with, left_open, CompactRecord};
use crate::copies::{same_event, same_events};
use crate::event::{
    event_with, AgentTurnState, ApiState, CompactState, Computed, Event, EventBody, EventDataBase,
    EventId, ToolInfoContent, UserTurnAborted, NO_ABORT_TARGET,
};
use crate::input_queue::{OrchestratorInput, OrchestratorInputQueue};
use crate::inputs::{
    all_taken, running_step, running_trail, taken, target_after, took, AgentDesk, RunningEnd,
    RunningStep,
};
use crate::notes::{note_of, written, Note};
use crate::request::{abort_due, queue_after};
use crate::turns::{abort_error, active_turn, carries_on, first_carrying_on, is_turn_step};

verus! {

/// Exactly the first input is taken, and the others wait in their order. Whoever asked for the end of a
/// turn by it asks no more.
pub proof fn law_inputs_are_taken_one_by_one(
    before: OrchestratorInputQueue,
    after: OrchestratorInputQueue,
)
    requires
        before.pending@.len() > 0,
        taken(&before, &after),
    ensures
        after.pending@.len() == before.pending@.len() - 1,
        forall|i: int|
            0 <= i < after.pending@.len() ==> #[trigger] after.pending@[i] == before.pending@[i + 1],
        before.pending@[0] == OrchestratorInput::AbortTurn(before.abort_target)
            ==> after.abort_target == NO_ABORT_TARGET,
        before.pending@[0] != OrchestratorInput::AbortTurn(before.abort_target)
            ==> after.abort_target == before.abort_target,
{
}

/// The end of a turn is asked for until the input that asked for it is taken.
pub proof fn law_asked_for_until_taken(
    inputs: Seq<OrchestratorInput>,
    count: int,
    target: EventId,
)
    requires
        0 <= count < inputs.len(),
    ensures
        target_after(inputs, 0, target) == target,
        inputs[count] == OrchestratorInput::AbortTurn(target_after(inputs, count, target))
            ==> target_after(inputs, count + 1, target) == NO_ABORT_TARGET,
        inputs[count] != OrchestratorInput::AbortTurn(target_after(inputs, count, target))
            ==> target_after(inputs, count + 1, target) == target_after(inputs, count, target),
{
}

/// Inputs that come while a turn runs are carried out one after another, each from what the one before
/// left. All are carried out, unless one stops the turn or fails, which then is the last.
pub proof fn law_running_inputs_follow_one_another(
    desks: Seq<AgentDesk>,
    inputs: Seq<OrchestratorInput>,
    prompt: EventId,
    result: Result<RunningEnd, Seq<char>>,
    place: int,
)
    requires
        running_trail(desks, inputs, prompt, result),
        0 <= place < desks.len() - 1,
    ensures
        desks.len() - 1 <= inputs.len(),
        result == Ok::<RunningEnd, Seq<char>>(RunningEnd::GoesOn) ==> desks.len() - 1
            == inputs.len(),
        place < desks.len() - 2 ==> took(
            inputs[place],
            prompt,
            &desks[place],
            &desks[place + 1],
            Ok(()),
        ) && running_step(inputs[place]) == RunningStep::Applied,
        place == desks.len() - 2 ==> (result matches Err(error) ==> took(
            inputs[place],
            prompt,
            &desks[place],
            &desks[place + 1],
            Err(error),
        )),
        place == desks.len() - 2 && result is Ok ==> took(
            inputs[place],
            prompt,
            &desks[place],
            &desks[place + 1],
            Ok(()),
        ),
{
    lemma_each_taken(desks, inputs, desks.len() - 2, prompt, place);
}

/// Each of the first inputs was carried out.
proof fn lemma_each_taken(
    desks: Seq<AgentDesk>,
    inputs: Seq<OrchestratorInput>,
    count: int,
    prompt: EventId,
    place: int,
)
    requires
        all_taken(desks, inputs, count, prompt),
        0 <= place,
    ensures
        place < count ==> took(inputs[place], prompt, &desks[place], &desks[place + 1], Ok(()))
            && running_step(inputs[place]) == RunningStep::Applied,
    decreases count,
{
    if count > 0 && place < count - 1 {
        lemma_each_taken(desks, inputs, count - 1, prompt, place);
    }
}

/// Where a turn is ended all that waited is dropped. Where it cannot be ended nothing is dropped, and
/// the end of that turn is asked for no more.
pub proof fn law_ended_turns_drop_what_waited(
    before: OrchestratorInputQueue,
    after: OrchestratorInputQueue,
    prompt: EventId,
    effective: Seq<Event>,
)
    requires
        queue_after(&before, &after, prompt, effective),
    ensures
        abort_due(&before, prompt, effective) <==> before.abort_target == prompt && active_turn(
            effective,
        ) == Some(prompt),
        before.abort_target == prompt && active_turn(effective) == Some(prompt)
            ==> after.pending@.len() == 0 && after.abort_target == NO_ABORT_TARGET,
        before.abort_target == prompt && active_turn(effective) != Some(prompt) ==> after.pending
            == before.pending && after.abort_target == NO_ABORT_TARGET,
        before.abort_target != prompt ==> after.pending == before.pending && after.abort_target
            == before.abort_target,
{
}

/// Nothing carries a turn on from a place exactly if no event from there on does.
proof fn lemma_carrying_on(events: Seq<Event>, place: int, prompt: EventId)
    requires
        0 <= place,
    ensures
        first_carrying_on(events, place, prompt) is None <==> (forall|i: int|
            place <= i < events.len() ==> !carries_on(#[trigger] events[i], prompt)),
    decreases events.len() - place,
{
    if place < events.len() {
        lemma_carrying_on(events, place + 1, prompt);
    }
}

/// The end of a turn by the user is taken up exactly if it is that of an earlier prompt whose turn ran,
/// and nothing behind it carries the turn on.
pub proof fn law_ended_turns_are_not_carried_on(
    events: Seq<Event>,
    place: int,
    aborted: UserTurnAborted,
)
    requires
        0 <= place < events.len(),
    ensures
        abort_error(events, place, aborted) is None <==> {
            &&& aborted.prompt_id < events[place].id
            &&& event_with(events, aborted.prompt_id) matches Some(found)
            &&& found.root_prompt()
            &&& aborted.active_before == Computed::<Option<EventId>>::Value(Some(aborted.prompt_id))
            &&& forall|i: int|
                place < i < events.len() ==> !carries_on(#[trigger] events[i], aborted.prompt_id)
        },
{
    lemma_carrying_on(events, place + 1, aborted.prompt_id);
}

/// A turn is carried on by what is asked, said or called in it, by a further end of it, and by a step of
/// its requests that does not interrupt them. Results of tools and other turns do not carry it on.
pub proof fn law_what_carries_a_turn_on(event: Event, prompt: EventId)
    ensures
        event.body matches EventBody::FollowUpPrompt(follow_up) ==> (carries_on(event, prompt)
            <==> follow_up.prompt_id == prompt),
        event.body matches EventBody::AssistResponse(response) ==> (carries_on(event, prompt)
            <==> response.prompt_id == prompt),
        event.body matches EventBody::ModelContextItem(item) ==> (carries_on(event, prompt)
            <==> item.prompt_id == prompt),
        event.body matches EventBody::ToolCall(call) ==> (carries_on(event, prompt)
            <==> call.prompt_id == prompt),
        event.body matches EventBody::UserTurnAborted(again) ==> (carries_on(event, prompt)
            <==> again.prompt_id == prompt),
        event.body matches EventBody::ApiStateUpdate(update) ==> (carries_on(event, prompt)
            <==> update.prompt_id == prompt && update.state != ApiState::Interrupted),
        event.body is ToolCallResult || event.body is ToolInfoUpdate || event.body is AgentTurn
            || event.body is UserPrompt || event.body is ContextUsageEstimate ==> !carries_on(
            event,
            prompt,
        ),
{
}

/// A retry is left open exactly if the last step of any request is a failure or the word that it is to be
/// tried again.
pub proof fn law_open_retries_are_found(events: Seq<Event>, event: Event)
    ensures
        !retry_left_open(Seq::empty()),
        event.body matches EventBody::ApiStateUpdate(update) ==> (retry_left_open(events.push(event))
            <==> update.state == ApiState::Error || update.state == ApiState::Retrying),
        event.body matches EventBody::ApiStateUpdate(update) ==> latest_api_update(
            events.push(event),
        ) == Some(update),
        !(event.body is ApiStateUpdate) ==> retry_left_open(events.push(event)) == retry_left_open(
            events,
        ) && latest_api_update(events.push(event)) == latest_api_update(events),
{
    assert(events.push(event).drop_last() =~= events);
}

/// The open requests are those that neither completed nor failed nor were interrupted, in their order.
pub proof fn law_open_requests_are_found(calls: Seq<ApiCallState>, call: ApiCallState)
    ensures
        open_calls(Seq::empty()).len() == 0,
        call.state == ApiState::Completed || call.state == ApiState::Error || call.state
            == ApiState::Interrupted ==> open_calls(calls.push(call)) == open_calls(calls),
        call.state == ApiState::Requesting || call.state == ApiState::Streaming || call.state
            == ApiState::Retrying ==> open_calls(calls.push(call)) == open_calls(calls).push(call),
{
    assert(calls.push(call).drop_last() =~= calls);
}

/// A compaction that was left open is interrupted at a restart, as what it is, and the user reads why.
/// Nothing is written where none was.
pub proof fn law_open_compactions_are_interrupted(
    before: EventDataBase,
    after: EventDataBase,
    records: Seq<CompactRecord>,
)
    requires
        compact_reconciled(&before, &after, records),
    ensures
        left_open(records) is Some <==> records.len() > 0 && records.last().state
            == CompactState::Started,
        left_open(records) is None ==> after == before,
        left_open(records) matches Some(id) ==> id == records.last().compact_id && (compact_with(
            before@,
            id,
        ) matches Some(started) ==> {
            &&& after.grown(&before, 1)
            &&& after.added(&before, 0) matches EventBody::CompactStateUpdate(update)
            &&& update.compact_id == id
            &&& update.state == CompactState::Interrupted
            &&& update.prompt_id == started.prompt_id
            &&& update.tool_call_id == started.tool_call_id
            &&& update.kind == started.kind
            &&& update.stage is None
            &&& update.content@ == ""@
            &&& update.detail@ == "orchestrator restarted before Compact completed"@
        }),
{
}

/// Whether an event interrupts a request for a reason, reporting no tokens and no further try.
pub open spec fn is_interruption(
    body: EventBody,
    request: EventId,
    prompt: EventId,
    reason: Seq<char>,
) -> bool {
    &&& body matches EventBody::ApiStateUpdate(update)
    &&& update.api_call_id == request
    &&& update.prompt_id == prompt
    &&& update.state == ApiState::Interrupted
    &&& update.usage is None
    &&& update.retry_count == 0
    &&& update.detail@ == reason
}

/// Every request that was left open is interrupted at a restart, one after another, as that of its own
/// prompt; where none was but a failed one was to be tried again, that one is. Nothing else is written.
pub proof fn law_open_requests_are_interrupted(
    before: EventDataBase,
    after: EventDataBase,
    calls: Seq<ApiCallState>,
    place: int,
)
    requires
        api_reconciled(&before, &after, calls),
    ensures
        open_calls(calls).len() > 0 ==> after.grown(&before, open_calls(calls).len() as int),
        0 <= place < open_calls(calls).len() ==> is_interruption(
            after.added(&before, place),
            open_calls(calls)[place].id,
            open_calls(calls)[place].prompt_id,
            "orchestrator restarted before the API call reached a terminal state"@,
        ),
        open_calls(calls).len() == 0 && retry_left_open(before@) ==> after.grown(&before, 1) && (
        latest_api_update(before@) matches Some(update) && is_interruption(
            after.added(&before, 0),
            update.api_call_id,
            update.prompt_id,
            "orchestrator restarted before the API retry sequence completed"@,
        )),
        open_calls(calls).len() == 0 && !retry_left_open(before@) ==> after == before,
{
    if 0 <= place < open_calls(calls).len() {
        assert(after.added(&before, place) is ApiStateUpdate);
    }
}

/// A step of a turn that is written is that of its turn and its prompt, and says what became of it.
pub proof fn law_steps_of_turns_say_it_all(
    body: EventBody,
    turn: EventId,
    prompt: EventId,
    state: AgentTurnState,
    detail: Seq<char>,
)
    requires
        is_turn_step(body, turn, prompt, state, detail),
    ensures
        note_of(body) == (Note::TurnStep { turn, prompt, state, detail }),
{
}

/// A compaction is open for a prompt from its start to its end, however many stages it goes through.
pub proof fn law_compactions_are_open_until_they_end(
    events: Seq<Event>,
    place: int,
    before: EventId,
    open: Option<EventId>,
)
    requires
        0 <= place < events.len(),
    ensures
        !(events[place].body is CompactStateUpdate) ==> open_compact(events, place, before, open)
            == open_compact(events, place + 1, before, open),
        events[place].body matches EventBody::CompactStateUpdate(update) ==> {
            &&& events[place].id >= before ==> open_compact(events, place, before, open) == open
            &&& events[place].id < before && update.state == CompactState::Started
                ==> open_compact(events, place, before, open) == open_compact(
                events,
                place + 1,
                before,
                Some(update.prompt_id),
            )
            &&& events[place].id < before && update.state == CompactState::StageCompleted
                ==> open_compact(events, place, before, open) == open_compact(
                events,
                place + 1,
                before,
                open,
            )
            &&& events[place].id < before && update.state != CompactState::Started && update.state
                != CompactState::StageCompleted ==> open_compact(events, place, before, open)
                == open_compact(events, place + 1, before, None)
        },
        open_compact(events, events.len() as int, before, open) == open,
{
}

/// Whether an event is this step of a request for a prompt, between two events.
pub open spec fn steps(
    event: Event,
    prompt: EventId,
    request: EventId,
    state: ApiState,
    after: EventId,
    before: EventId,
) -> bool {
    &&& after < event.id < before
    &&& event.body matches EventBody::ApiStateUpdate(update)
    &&& update.prompt_id == prompt
    &&& update.api_call_id == request
    &&& update.state == state
}

/// A request that completed between two events also started between them.
pub proof fn law_completed_requests_started(
    events: Seq<Event>,
    prompt: EventId,
    after: EventId,
    before: EventId,
)
    requires
        request_completed_between(events, prompt, after, before),
    ensures
        exists|i: int, j: int, request: EventId|
            #![trigger steps(events[i], prompt, request, ApiState::Requesting, after, before), events[j]]
            0 <= i < j < events.len() && steps(
                events[i],
                prompt,
                request,
                ApiState::Requesting,
                after,
                before,
            ) && steps(events[j], prompt, request, ApiState::Completed, after, before),
{
    let j = choose|j: int|
        0 <= j < events.len() && #[trigger] completes_request(events, j, prompt, after, before);
    let request = crate::api_calls::request_of(events[j]);
    let i = choose|i: int|
        0 <= i < j && crate::api_calls::request_event_between(
            #[trigger] events[i],
            prompt,
            after,
            before,
        ) && crate::api_calls::request_of(events[i]) == request && crate::api_calls::state_of(
            events[i],
        ) == ApiState::Requesting;
    assert(steps(events[j], prompt, request, ApiState::Completed, after, before));
    assert(events[i].body is ApiStateUpdate);
    assert(steps(events[i], prompt, request, ApiState::Requesting, after, before));
}

/// A request that started and then completed between two events, and took no further step there, counts
/// as completed between them.
pub proof fn law_requests_complete(
    events: Seq<Event>,
    start: int,
    end: int,
    prompt: EventId,
    request: EventId,
    after: EventId,
    before: EventId,
)
    requires
        0 <= start < end < events.len(),
        steps(events[start], prompt, request, ApiState::Requesting, after, before),
        steps(events[end], prompt, request, ApiState::Completed, after, before),
        forall|i: int|
            end < i < events.len() ==> !(#[trigger] events[i].body matches EventBody::ApiStateUpdate(
                update,
            ) && update.api_call_id == request),
    ensures
        request_completed_between(events, prompt, after, before),
{
    assert(crate::api_calls::request_event_between(events[start], prompt, after, before));
    assert(completes_request(events, end, prompt, after, before));
}

/// What an event says is all that it says: a request its step, an answer its text, a call its name and
/// arguments, a result its outcome.
pub proof fn law_notes_say_it_all(body: EventBody, note: Note)
    requires
        note_of(body) == note,
    ensures
        note matches Note::Request {
            api_call,
            prompt,
            state,
            retry_count,
            retry_limit,
            usage,
            detail,
        } ==> (body matches EventBody::ApiStateUpdate(update) && update.api_call_id == api_call
            && update.prompt_id == prompt && update.state == state && update.retry_count
            == retry_count && update.retry_limit == retry_limit && update.usage == usage
            && update.detail@ == detail),
        note matches Note::Estimate { api_state, sum } ==> (
        body matches EventBody::ContextUsageEstimate(estimate) && estimate.api_state_event_id
            == api_state && estimate.sum == sum),
        note matches Note::Item { api_call, prompt, provider, content } ==> (
        body matches EventBody::ModelContextItem(item) && item.api_call_id == api_call
            && item.prompt_id == prompt && item.provider@ == provider && item.content@ == content),
        note matches Note::Said { prompt, content, finished } ==> (
        body matches EventBody::AssistResponse(response) && response.prompt_id == prompt
            && response.content@ == content && response.finished == finished),
        note matches Note::Aborted { prompt } ==> (body matches EventBody::UserTurnAborted(aborted)
            && aborted.prompt_id == prompt && aborted.active_before == Computed::<
            Option<EventId>,
        >::Value(Some(prompt))),
        note matches Note::Called { api_call, prompt, provider_call_id, name, arguments, traits }
            ==> (body matches EventBody::ToolCall(call) && call.api_call_id == api_call
            && call.prompt_id == prompt && call.provider_call_id@ == provider_call_id && call.name@
            == name && call.arguments@ == arguments && call.traits == traits),
        note matches Note::Output { tool_call, stream, content } ==> (
        body matches EventBody::ToolInfoUpdate(info) && info.tool_call_id == tool_call && info.stream
            == stream && (info.content matches ToolInfoContent::Text(text) && text@ == content)),
        note matches Note::Frame { tool_call, stream, frame } ==> (
        body matches EventBody::ToolInfoUpdate(info) && info.tool_call_id == tool_call && info.stream
            == stream && (info.content matches ToolInfoContent::Terminal(bytes) && bytes@ == frame)),
        note matches Note::Ended { tool_call, state, exit_code, detail } ==> (
        body matches EventBody::ToolCallResult(result) && result.tool_call_id == tool_call
            && result.state == state && result.exit_code == exit_code && result.detail@ == detail),
        note matches Note::TurnStep { turn, prompt, state, detail } ==> (
        body matches EventBody::AgentTurn(step) && step.turn_id == turn && step.prompt_id == prompt
            && step.state == state && step.detail@ == detail),
{
}

/// What is written of a compaction says all that is known of it.
pub proof fn law_notes_of_compactions_say_it_all(body: EventBody, note: Note)
    requires
        note_of(body) == note,
    ensures
        note matches Note::Compacted {
            compact,
            tool_call,
            prompt,
            kind,
            total_stages,
            stage,
            state,
            content,
            detail,
        } ==> (body matches EventBody::CompactStateUpdate(update) && update.compact_id == compact
            && update.tool_call_id == tool_call && update.prompt_id == prompt && update.kind == kind
            && update.total_stages == total_stages && update.stage == stage && update.state == state
            && update.content@ == content && update.detail@ == detail),
{
}

/// What is written stands behind the log, piece by piece and in its order, and nothing of the log
/// changes.
pub proof fn law_what_is_written_is_added(
    before: EventDataBase,
    after: EventDataBase,
    notes: Seq<Note>,
    place: int,
)
    requires
        written(&before, &after, notes),
        0 <= place < notes.len(),
    ensures
        after@.len() == before@.len() + notes.len(),
        after@.take(before@.len() as int) == before@,
        note_of(after@[before@.len() + place].body) == notes[place],
{
    assert(note_of(after.added(&before, place)) == notes[place]);
}

/// Events that are the same say the same. But for compactions and images, whose lists are compared by
/// what they hold, they are one event.
pub proof fn law_copies_say_the_same(some: Seq<Event>, others: Seq<Event>, place: int)
    requires
        same_events(some, others),
        0 <= place < some.len(),
    ensures
        others.len() == some.len(),
        some[place].id == others[place].id,
        note_of(some[place].body) == note_of(others[place].body),
        !(some[place].body is CompactStateUpdate) && !(some[place].body is ImageContent)
            ==> some[place] == others[place],
        some[place].body matches EventBody::ImageContent(image) ==> (
        others[place].body matches EventBody::ImageContent(copy) && copy.tool_call_id
            == image.tool_call_id && copy.content_sha256 == image.content_sha256 && copy.width
            == image.width && copy.height == image.height),
{
    assert(same_event(some[place], others[place]));
}

} // verus!
