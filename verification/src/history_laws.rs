//! What can be relied on of the tool calls and the terminal sessions in a log: which events belong to
//! them, and what each event does to them.
use vstd::prelude::*;

use crate::event::{
    event_with, ApiState, Computed, Event, EventBody, EventId, TerminalSessionCreated,
    TerminalSessionState, TerminalSessionUpdate, ToolCall, ToolCallResult, ToolInfoContent,
    ToolInfoUpdate, ToolOutputStream, ToolResultState,
};
use crate::sessions::{
    closed_before, closes_before, session_histories, session_place, session_step, SessionView,
};
use crate::text::{decimal, is_blank};
use crate::tool_calls::{
    api_ended_before, batch_running, ends_api_call, first_open, lemma_first_open,
    lemma_place_of, open_in, place_of, provider_call_taken, same_provider_call, tool_call_with,
    tool_states, tool_step, turn_error, turn_place, ToolCallState, ToolEventKind,
};

verus! {

/// Whether a request completed before an event.
pub open spec fn completed_before(events: Seq<Event>, request: EventId, before: EventId) -> bool {
    exists|i: int|
        0 <= i < events.len() && #[trigger] events[i].id < before && (
        events[i].body matches EventBody::ApiStateUpdate(update) && update.api_call_id == request
            && update.state == ApiState::Completed)
}

/// Whether a request completed, failed or was interrupted before an event.
pub open spec fn over_before(events: Seq<Event>, request: EventId, before: EventId) -> bool {
    exists|i: int|
        0 <= i < events.len() && #[trigger] events[i].id < before && (
        events[i].body matches EventBody::ApiStateUpdate(update) && update.api_call_id == request
            && (update.state == ApiState::Completed || update.state == ApiState::Error
            || update.state == ApiState::Interrupted))
}

/// What is known of the ends of requests.
proof fn lemma_ends(events: Seq<Event>, request: EventId, before: EventId)
    ensures
        api_ended_before(events, request, before, Some(ApiState::Completed)) == completed_before(
            events,
            request,
            before,
        ),
        api_ended_before(events, request, before, None) == over_before(events, request, before),
{
    if api_ended_before(events, request, before, Some(ApiState::Completed)) {
        let i = choose|i: int|
            0 <= i < events.len() && ends_api_call(
                #[trigger] events[i],
                request,
                before,
                Some(ApiState::Completed),
            );
        assert(events[i].id < before);
    }
    if api_ended_before(events, request, before, None) {
        let i = choose|i: int|
            0 <= i < events.len() && ends_api_call(#[trigger] events[i], request, before, None);
        assert(events[i].id < before);
    }
    if completed_before(events, request, before) {
        let i = choose|i: int|
            0 <= i < events.len() && #[trigger] events[i].id < before && (
            events[i].body matches EventBody::ApiStateUpdate(update) && update.api_call_id
                == request && update.state == ApiState::Completed);
        assert(ends_api_call(events[i], request, before, Some(ApiState::Completed)));
    }
    if over_before(events, request, before) {
        let i = choose|i: int|
            0 <= i < events.len() && #[trigger] events[i].id < before && (
            events[i].body matches EventBody::ApiStateUpdate(update) && update.api_call_id
                == request && (update.state == ApiState::Completed || update.state
                == ApiState::Error || update.state == ApiState::Interrupted));
        assert(ends_api_call(events[i], request, before, None));
    }
}

/// Where a session is found.
proof fn lemma_session_found(sessions: Seq<SessionView>, id: Seq<char>)
    ensures
        session_place(sessions, id) matches Some(place) ==> 0 <= place < sessions.len()
            && sessions[place].session_id == id && forall|i: int|
            0 <= i < place ==> (#[trigger] sessions[i]).session_id != id,
        session_place(sessions, id) is None ==> forall|i: int|
            0 <= i < sessions.len() ==> (#[trigger] sessions[i]).session_id != id,
    decreases sessions.len(),
{
    if sessions.len() > 0 {
        let front = sessions.drop_last();
        lemma_session_found(front, id);
        assert(forall|i: int| 0 <= i < front.len() ==> #[trigger] sessions[i] == front[i]);
    }
}

/// A terminal session is taken up exactly if a running call of the tool for it made it: under the
/// name of that call, in a shell and a directory, of a size, and as the only one of its name. It
/// then runs, and the other sessions stay as they were.
pub proof fn law_sessions_are_opened_by_their_tool(
    events: Seq<Event>,
    sessions: Seq<SessionView>,
    event: Event,
    created: TerminalSessionCreated,
)
    requires
        event.body == EventBody::TerminalSessionCreated(created),
    ensures
        session_step(events, sessions, event) is Ok <==> {
            &&& tool_call_with(events, created.tool_call_id) matches Some(call)
            &&& call.name@ == "Terminal.Create"@
            &&& created.session_id@ == "pty-"@ + decimal(created.tool_call_id as nat)
            &&& !is_blank(created.shell@)
            &&& !is_blank(created.cwd@)
            &&& created.width > 0
            &&& created.height > 0
            &&& completed_before(events, call.api_call_id, event.id)
            &&& forall|i: int|
                0 <= i < events.len() && #[trigger] events[i].id < event.id ==> !(
                events[i].body matches EventBody::ToolCallResult(result) && result.tool_call_id
                    == created.tool_call_id)
            &&& forall|i: int|
                0 <= i < sessions.len() ==> (#[trigger] sessions[i]).session_id
                    != created.session_id@
        },
        session_step(events, sessions, event) matches Ok(after) ==> {
            &&& after.len() == sessions.len() + 1
            &&& after.last().session_id == created.session_id@
            &&& after.last().state == TerminalSessionState::Running
            &&& after.last().exit_code is None
            &&& forall|i: int| 0 <= i < sessions.len() ==> #[trigger] after[i] == sessions[i]
        },
{
    lemma_session_found(sessions, created.session_id@);
    let tool_call = created.tool_call_id;
    assert("pty-"@ + decimal(tool_call as nat) + ""@ =~= "pty-"@ + decimal(tool_call as nat)) by {
        reveal_strlit("");
    }
    if let Some(call) = tool_call_with(events, tool_call) {
        lemma_ends(events, call.api_call_id, event.id);
    }
    if closed_before(events, tool_call, event.id) {
        let i = choose|i: int|
            0 <= i < events.len() && closes_before(#[trigger] events[i], tool_call, event.id);
        assert(events[i].id < event.id);
    } else {
        assert forall|i: int| 0 <= i < events.len() && #[trigger] events[i].id < event.id implies !(
        events[i].body matches EventBody::ToolCallResult(result) && result.tool_call_id
            == tool_call) by {
            assert(!closes_before(events[i], tool_call, event.id));
        }
    }
}

/// The end of a terminal session is taken up exactly if the session runs. It then stands as the
/// event says, and the other sessions stay as they were.
pub proof fn law_sessions_end_once(
    events: Seq<Event>,
    sessions: Seq<SessionView>,
    event: Event,
    update: TerminalSessionUpdate,
    place: int,
)
    requires
        event.body == EventBody::TerminalSessionState(update),
        forall|i: int, j: int|
            0 <= i < j < sessions.len() ==> (#[trigger] sessions[i]).session_id != (
            #[trigger] sessions[j]).session_id,
    ensures
        session_step(events, sessions, event) is Ok <==> update.state
            != TerminalSessionState::Running && exists|i: int|
            0 <= i < sessions.len() && (#[trigger] sessions[i]).session_id == update.session_id@
                && sessions[i].state == TerminalSessionState::Running,
        session_step(events, sessions, event) matches Ok(after) ==> (0 <= place < sessions.len() ==> {
            &&& after.len() == sessions.len()
            &&& after[place].session_id == sessions[place].session_id
            &&& sessions[place].session_id == update.session_id@ ==> after[place].state
                == update.state && after[place].exit_code == update.exit_code
            &&& sessions[place].session_id != update.session_id@ ==> after[place]
                == sessions[place]
        }),
{
    lemma_session_found(sessions, update.session_id@);
}

/// No other event changes the terminal sessions, and none makes a log wrong on their account. A log
/// that goes wrong stays wrong.
pub proof fn law_other_events_leave_sessions_alone(
    events: Seq<Event>,
    sessions: Seq<SessionView>,
    event: Event,
    count: int,
)
    requires
        !(event.body is TerminalSessionCreated),
        !(event.body is TerminalSessionState),
    ensures
        session_step(events, sessions, event) == Ok::<
            Seq<SessionView>,
            crate::sessions::SessionHistoryError,
        >(sessions),
        count >= 0 && session_histories(events, count + 1) is Ok ==> session_histories(events, count)
            is Ok,
{
}

/// Whether a call is the one of its batch that runs: it has no result, and all before it have.
pub open spec fn runs(calls: Seq<ToolCallState>, place: int, id: EventId) -> bool {
    &&& 0 <= place < calls.len()
    &&& calls[place].id == id
    &&& !calls[place].finished
    &&& forall|j: int|
        0 <= j < place && (#[trigger] calls[j]).api_call_id == calls[place].api_call_id
            ==> calls[j].finished
}

/// Whether some call of an identity runs.
pub open spec fn one_runs(calls: Seq<ToolCallState>, id: EventId) -> bool {
    exists|place: int| runs(calls, place, id)
}

/// Whether no two calls have one identity.
pub open spec fn ids_differ(calls: Seq<ToolCallState>) -> bool {
    &&& calls.len() <= usize::MAX
    &&& forall|i: int, j: int|
        0 <= i < j < calls.len() ==> (#[trigger] calls[i]).id != (#[trigger] calls[j]).id
}

/// It is the turn of the call that runs.
proof fn lemma_turn(
    calls: Seq<ToolCallState>,
    place: int,
    id: EventId,
    source: ToolEventKind,
    event: EventId,
)
    requires
        ids_differ(calls),
        runs(calls, place, id),
    ensures
        turn_error(calls, source, event, id) is None,
        turn_place(calls, id) == place,
{
    lemma_place_of(calls, id);
    assert(place_of(calls, id) == Some(place));
    let batch = Some(calls[place].api_call_id);
    lemma_first_open(calls, batch, false);
    assert(open_in(calls[place], batch, false));
    if let Some(first) = first_open(calls, batch, false) {
        let k = choose|k: int|
            0 <= k < calls.len() && (#[trigger] calls[k]).id == first && open_in(
                calls[k],
                batch,
                false,
            ) && forall|l: int| 0 <= l < k ==> !open_in(#[trigger] calls[l], batch, false);
        assert(k == place);
    }
}

/// It is nobody's turn where no call runs.
proof fn lemma_no_turn(
    calls: Seq<ToolCallState>,
    id: EventId,
    source: ToolEventKind,
    event: EventId,
)
    requires
        ids_differ(calls),
        !one_runs(calls, id),
    ensures
        turn_error(calls, source, event, id) is Some,
{
    lemma_place_of(calls, id);
    if turn_error(calls, source, event, id) is None {
        let place = place_of(calls, id)->0;
        let batch = Some(calls[place].api_call_id);
        lemma_first_open(calls, batch, false);
        assert(first_open(calls, batch, false) == Some(id));
        let k = choose|k: int|
            0 <= k < calls.len() && (#[trigger] calls[k]).id == id && open_in(
                calls[k],
                batch,
                false,
            ) && forall|l: int| 0 <= l < k ==> !open_in(#[trigger] calls[l], batch, false);
        assert(k == place);
        assert forall|j: int|
            0 <= j < place && (#[trigger] calls[j]).api_call_id == calls[place].api_call_id implies calls[j].finished by {
            assert(!open_in(calls[j], batch, false));
        }
        assert(runs(calls, place, id));
    }
}

/// A tool call is taken up exactly if it belongs to a request of its own turn that has not ended,
/// says what is called and with what, no call of the request has begun to run, no call of another
/// request is open, and no other call of the request has the provider's identity. It then waits,
/// and the other calls stay as they were.
pub proof fn law_calls_join_their_batch(
    events: Seq<Event>,
    calls: Seq<ToolCallState>,
    event: Event,
    call: ToolCall,
)
    requires
        event.body == EventBody::ToolCall(call),
    ensures
        tool_step(events, calls, event) is Ok <==> {
            &&& event_with(events, call.api_call_id) matches Some(found)
            &&& found.body matches EventBody::ApiStateUpdate(update)
            &&& update.state == ApiState::Requesting
            &&& update.prompt_id == call.prompt_id
            &&& update.api_call_id == call.api_call_id
            &&& !over_before(events, call.api_call_id, event.id)
            &&& call.provider_call_id@.len() > 0
            &&& call.name@.len() > 0
            &&& call.arguments@.len() > 0
            &&& forall|i: int|
                0 <= i < calls.len() && (#[trigger] calls[i]).api_call_id == call.api_call_id
                    ==> !calls[i].has_output && !calls[i].finished
            &&& forall|i: int|
                0 <= i < calls.len() && (#[trigger] calls[i]).api_call_id != call.api_call_id
                    ==> calls[i].finished
            &&& forall|i: int|
                0 <= i < calls.len() && (#[trigger] calls[i]).api_call_id == call.api_call_id ==> !(
                tool_call_with(events, calls[i].id) matches Some(other)
                    && other.provider_call_id@ == call.provider_call_id@)
        },
        tool_step(events, calls, event) matches Ok(after) ==> {
            &&& after.len() == calls.len() + 1
            &&& after.last() == (ToolCallState {
                id: event.id,
                api_call_id: call.api_call_id,
                has_output: false,
                finished: false,
            })
            &&& forall|i: int| 0 <= i < calls.len() ==> #[trigger] after[i] == calls[i]
        },
{
    let batch = call.api_call_id;
    lemma_ends(events, batch, event.id);
    lemma_first_open(calls, Some(batch), true);
    if batch_running(calls, batch) {
        let i = choose|i: int|
            0 <= i < calls.len() && (#[trigger] calls[i]).api_call_id == batch && (
            calls[i].has_output || calls[i].finished);
        assert(calls[i].api_call_id == batch);
    }
    if first_open(calls, Some(batch), true) is None {
        assert forall|i: int|
            0 <= i < calls.len() && (#[trigger] calls[i]).api_call_id != batch implies calls[i].finished by {
            assert(!open_in(calls[i], Some(batch), true));
        }
    } else {
        let id = first_open(calls, Some(batch), true)->0;
        let k = choose|k: int|
            0 <= k < calls.len() && (#[trigger] calls[k]).id == id && open_in(
                calls[k],
                Some(batch),
                true,
            ) && forall|l: int| 0 <= l < k ==> !open_in(#[trigger] calls[l], Some(batch), true);
        assert(calls[k].api_call_id != batch && !calls[k].finished);
    }
    let provider = call.provider_call_id@;
    if provider_call_taken(events, calls, batch, provider) {
        let i = choose|i: int|
            0 <= i < calls.len() && same_provider_call(events, #[trigger] calls[i], batch, provider);
        assert(calls[i].api_call_id == batch);
    } else {
        assert forall|i: int|
            0 <= i < calls.len() && (#[trigger] calls[i]).api_call_id == batch implies !(
        tool_call_with(events, calls[i].id) matches Some(other) && other.provider_call_id@
            == provider) by {
            assert(!same_provider_call(events, calls[i], batch, provider));
        }
    }
}

/// Whether a step leaves the calls as they were, but for the one at a place, which has output now.
pub open spec fn only_output(before: Seq<ToolCallState>, after: Seq<ToolCallState>, place: int) -> bool {
    &&& after.len() == before.len()
    &&& after[place].has_output
    &&& after[place].id == before[place].id
    &&& after[place].api_call_id == before[place].api_call_id
    &&& after[place].finished == before[place].finished
    &&& forall|i: int| 0 <= i < before.len() && i != place ==> #[trigger] after[i] == before[i]
}

/// Output is taken up exactly if its call runs, its request completed, and it says something, on one
/// line where it is no terminal's.
pub proof fn law_output_belongs_to_the_call_that_runs(
    events: Seq<Event>,
    calls: Seq<ToolCallState>,
    event: Event,
    info: ToolInfoUpdate,
    place: int,
)
    requires
        event.body == EventBody::ToolInfoUpdate(info),
        ids_differ(calls),
    ensures
        !one_runs(calls, info.tool_call_id) ==> tool_step(events, calls, event) is Err,
        runs(calls, place, info.tool_call_id) ==> (tool_step(events, calls, event) is Ok <==> {
            &&& completed_before(events, calls[place].api_call_id, event.id)
            &&& match info.content {
                ToolInfoContent::Text(text) => text@.len() > 0 && (info.stream
                    == ToolOutputStream::Terminal || (!text@.contains('\n') && !text@.contains(
                    '\r',
                ))),
                ToolInfoContent::Terminal(bytes) => bytes@.len() > 0,
            }
        }),
        runs(calls, place, info.tool_call_id) ==> (tool_step(events, calls, event) matches Ok(after)
            ==> only_output(calls, after, place)),
{
    let id = info.tool_call_id;
    if runs(calls, place, id) {
        lemma_turn(calls, place, id, ToolEventKind::Info, event.id);
        lemma_ends(events, calls[place].api_call_id, event.id);
    }
    if !one_runs(calls, id) {
        lemma_no_turn(calls, id, ToolEventKind::Info, event.id);
    }
}

/// A stored image is taken up exactly if its call runs, is one of a tool that stores images, has
/// stored nothing yet, and its request completed.
pub proof fn law_images_belong_to_the_call_that_runs(
    events: Seq<Event>,
    calls: Seq<ToolCallState>,
    event: Event,
    place: int,
)
    requires
        event.body is ImageContent,
        ids_differ(calls),
    ensures
        event.body matches EventBody::ImageContent(image) ==> {
            &&& !one_runs(calls, image.tool_call_id) ==> tool_step(events, calls, event) is Err
            &&& runs(calls, place, image.tool_call_id) ==> (tool_step(events, calls, event) is Ok
                <==> {
                &&& tool_call_with(events, image.tool_call_id) matches Some(call)
                &&& call.traits.stores_image
                &&& !calls[place].has_output
                &&& completed_before(events, calls[place].api_call_id, event.id)
            })
            &&& runs(calls, place, image.tool_call_id) ==> (tool_step(events, calls, event) matches Ok(
                after,
            ) ==> only_output(calls, after, place))
        },
{
    if let EventBody::ImageContent(image) = event.body {
        let id = image.tool_call_id;
        if runs(calls, place, id) {
            lemma_turn(calls, place, id, ToolEventKind::Image, event.id);
            lemma_ends(events, calls[place].api_call_id, event.id);
        }
        if !one_runs(calls, id) {
            lemma_no_turn(calls, id, ToolEventKind::Image, event.id);
        }
    }
}

/// A change of the work map is taken up exactly if its call runs, is one of the very tool for it, has
/// changed nothing yet, and its request completed.
pub proof fn law_work_maps_belong_to_the_call_that_runs(
    events: Seq<Event>,
    calls: Seq<ToolCallState>,
    event: Event,
    place: int,
)
    requires
        event.body is WorkMapMutation,
        ids_differ(calls),
    ensures
        event.body matches EventBody::WorkMapMutation(update) ==> {
            &&& !one_runs(calls, update.tool_call_id) ==> tool_step(events, calls, event) is Err
            &&& runs(calls, place, update.tool_call_id) ==> (tool_step(events, calls, event) is Ok
                <==> {
                &&& tool_call_with(events, update.tool_call_id) matches Some(call)
                &&& call.traits.workmap
                &&& call.name@ == update.operation_tool@
                &&& !calls[place].has_output
                &&& completed_before(events, calls[place].api_call_id, event.id)
            })
            &&& runs(calls, place, update.tool_call_id) ==> (tool_step(
                events,
                calls,
                event,
            ) matches Ok(after) ==> only_output(calls, after, place))
        },
{
    if let EventBody::WorkMapMutation(update) = event.body {
        let id = update.tool_call_id;
        if runs(calls, place, id) {
            lemma_turn(calls, place, id, ToolEventKind::WorkMap, event.id);
            lemma_ends(events, calls[place].api_call_id, event.id);
        }
        if !one_runs(calls, id) {
            lemma_no_turn(calls, id, ToolEventKind::WorkMap, event.id);
        }
    }
}

/// A title is taken up only in its canonical form: the host's own at any time, that of a tool call
/// while the call runs, is one of the tool for titles, has set none yet, and its request completed.
pub proof fn law_titles_belong_to_the_call_that_runs(
    events: Seq<Event>,
    calls: Seq<ToolCallState>,
    event: Event,
    place: int,
)
    requires
        event.body is AgentTitleChanged,
        ids_differ(calls),
    ensures
        event.body matches EventBody::AgentTitleChanged(change) ==> {
            &&& tool_step(events, calls, event) is Ok ==> (
            change.normalized matches Computed::Value(canonical) && canonical@ == change.title@)
            &&& change.tool_call_id is None ==> (tool_step(events, calls, event) is Ok <==> (
            change.normalized matches Computed::Value(canonical) && canonical@ == change.title@))
            &&& change.tool_call_id is None ==> (tool_step(events, calls, event) matches Ok(after)
                ==> after == calls)
            &&& change.tool_call_id matches Some(id) ==> {
                &&& !one_runs(calls, id) ==> tool_step(events, calls, event) is Err
                &&& runs(calls, place, id) ==> (tool_step(events, calls, event) is Ok <==> {
                    &&& tool_call_with(events, id) matches Some(call)
                    &&& call.name@ == "SetTitle"@
                    &&& change.normalized matches Computed::Value(canonical)
                    &&& canonical@ == change.title@
                    &&& !calls[place].has_output
                    &&& completed_before(events, calls[place].api_call_id, event.id)
                })
                &&& runs(calls, place, id) ==> (tool_step(events, calls, event) matches Ok(after)
                    ==> only_output(calls, after, place))
            }
        },
{
    if let EventBody::AgentTitleChanged(change) = event.body {
        if let Some(id) = change.tool_call_id {
            if runs(calls, place, id) {
                lemma_turn(calls, place, id, ToolEventKind::Title, event.id);
                lemma_ends(events, calls[place].api_call_id, event.id);
            }
            if !one_runs(calls, id) {
                lemma_no_turn(calls, id, ToolEventKind::Title, event.id);
            }
        }
    }
}

/// A result is taken up exactly if its call runs and its request is over; if the call had output the
/// request must have completed, and the success of a call that makes an image needs one. The call
/// then is finished, and the others stay as they were.
pub proof fn law_results_close_the_call_that_runs(
    events: Seq<Event>,
    calls: Seq<ToolCallState>,
    event: Event,
    result: ToolCallResult,
    place: int,
)
    requires
        event.body == EventBody::ToolCallResult(result),
        ids_differ(calls),
    ensures
        !one_runs(calls, result.tool_call_id) ==> tool_step(events, calls, event) is Err,
        runs(calls, place, result.tool_call_id) ==> (tool_step(events, calls, event) is Ok <==> {
            &&& over_before(events, calls[place].api_call_id, event.id)
            &&& calls[place].has_output ==> completed_before(
                events,
                calls[place].api_call_id,
                event.id,
            )
            &&& result.state == ToolResultState::Succeeded && (tool_call_with(
                events,
                result.tool_call_id,
            ) matches Some(call) && call.traits.requires_image) ==> calls[place].has_output
        }),
        runs(calls, place, result.tool_call_id) ==> (tool_step(events, calls, event) matches Ok(after)
            ==> {
            &&& after.len() == calls.len()
            &&& after[place] == (ToolCallState { finished: true, ..calls[place] })
            &&& forall|i: int| 0 <= i < calls.len() && i != place ==> #[trigger] after[i] == calls[i]
        }),
{
    let id = result.tool_call_id;
    if runs(calls, place, id) {
        let request = calls[place].api_call_id;
        lemma_turn(calls, place, id, ToolEventKind::Outcome, event.id);
        lemma_ends(events, request, event.id);
        if completed_before(events, request, event.id) {
            let i = choose|i: int|
                0 <= i < events.len() && #[trigger] events[i].id < event.id && (
                events[i].body matches EventBody::ApiStateUpdate(update) && update.api_call_id
                    == request && update.state == ApiState::Completed);
            assert(over_before(events, request, event.id));
        }
    }
    if !one_runs(calls, id) {
        lemma_no_turn(calls, id, ToolEventKind::Outcome, event.id);
    }
}

/// A request starts only when every tool call has its result. No other event changes the calls.
pub proof fn law_requests_wait_for_open_calls(
    events: Seq<Event>,
    calls: Seq<ToolCallState>,
    event: Event,
    count: int,
)
    ensures
        event.body matches EventBody::ApiStateUpdate(update) ==> (update.state
            == ApiState::Requesting ==> (tool_step(events, calls, event) is Ok <==> (forall|i: int|
            0 <= i < calls.len() ==> (#[trigger] calls[i]).finished))),
        event.body matches EventBody::ApiStateUpdate(update) ==> (update.state
            != ApiState::Requesting ==> tool_step(events, calls, event) is Ok),
        event.body is ApiStateUpdate || event.body is UserPrompt || event.body is AssistResponse
            || event.body is AgentTurn || event.body is CompactStateUpdate || event.body
            is TerminalSessionCreated ==> (tool_step(events, calls, event) matches Ok(after)
            ==> after == calls),
        event.body is UserPrompt || event.body is AssistResponse || event.body is AgentTurn
            || event.body is CompactStateUpdate || event.body is TerminalSessionCreated
            ==> tool_step(events, calls, event) is Ok,
        count >= 0 && tool_states(events, count + 1) is Ok ==> tool_states(events, count) is Ok,
{
    lemma_first_open(calls, None, false);
    if first_open(calls, None, false) is None {
        assert forall|i: int| 0 <= i < calls.len() implies (#[trigger] calls[i]).finished by {
            assert(!open_in(calls[i], None, false));
        }
    }
}

} // verus!
