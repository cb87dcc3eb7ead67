//! What a restart does to the tool calls of a log: it leaves none of them open.
use vstd::prelude::*;

use crate::event::{
    ids_increase, lemma_grown_wf, ApiState, Event, EventBody, EventDataBase, EventId,
};
use crate::later::{bounded, continues, lemma_ended_kept, lemma_tools_kept};
use crate::notes::written;
use crate::tool_calls::{
    api_ended_before, call_turn, ends_api_call, first_open, lemma_first_open, lemma_place_of,
    lemma_states_match, lemma_turn, open_in, place_of, tool_states, tool_step, turn_place,
    with_result, CallTurn, ToolCallState, ToolHistoryError,
};
use crate::tools::{persisted, restart_notes, PersistedResult};

verus! {

/// The calls with the first of them finished.
pub open spec fn finished_up_to(calls: Seq<ToolCallState>, count: int) -> Seq<ToolCallState> {
    Seq::new(
        calls.len(),
        |i: int|
            if i < count {
                ToolCallState { finished: true, ..calls[i] }
            } else {
                calls[i]
            },
    )
}

/// Where the earlier calls are finished, it is the next one's turn.
proof fn lemma_next_turn(calls: Seq<ToolCallState>, place: int)
    requires
        0 <= place < calls.len() <= usize::MAX,
        !calls[place].finished,
        forall|i: int| 0 <= i < place ==> (#[trigger] calls[i]).finished,
        forall|k: int, l: int|
            0 <= k < l < calls.len() ==> (#[trigger] calls[k]).id < (#[trigger] calls[l]).id,
    ensures
        call_turn(calls, calls[place].id) == CallTurn::Next(place as usize),
        turn_place(calls, calls[place].id) == place,
{
    let id = calls[place].id;
    lemma_place_of(calls, id);
    let found = place_of(calls, id)->0;
    if found < place {
        assert(calls[found].id < calls[place].id);
    }
    if place < found {
        assert(calls[place].id < calls[found].id);
    }
    let batch = Some(calls[place].api_call_id);
    lemma_first_open(calls, batch, false);
    assert(open_in(calls[place], batch, false));
    let first = first_open(calls, batch, false)->0;
    let k = choose|k: int|
        0 <= k < calls.len() && (#[trigger] calls[k]).id == first && open_in(
            calls[k],
            batch,
            false,
        ) && forall|l: int| 0 <= l < k ==> !open_in(#[trigger] calls[l], batch, false);
    if k < place {
        assert(calls[k].finished);
    }
    if place < k {
        assert(!open_in(calls[place], batch, false));
    }
}

/// A call that has put something out belongs to a request that completed.
proof fn lemma_output_after_request(events: Seq<Event>, count: int, bound: EventId)
    requires
        ids_increase(events),
        0 <= count <= events.len() <= usize::MAX,
        tool_states(events, count) is Ok,
        forall|i: int| 0 <= i < count ==> (#[trigger] events[i]).id < bound,
    ensures
        forall|k: int|
            0 <= k < tool_states(events, count)->Ok_0.len() && (#[trigger] tool_states(
                events,
                count,
            )->Ok_0[k]).has_output ==> api_ended_before(
                events,
                tool_states(events, count)->Ok_0[k].api_call_id,
                bound,
                Some(ApiState::Completed),
            ),
    decreases count,
{
    if count > 0 {
        lemma_output_after_request(events, count - 1, bound);
        lemma_states_match(events, count - 1);
        let calls = tool_states(events, count - 1)->Ok_0;
        let next = tool_states(events, count)->Ok_0;
        let event = events[count - 1];
        assert(tool_step(events, calls, event) == Ok::<_, ToolHistoryError>(next));
        assert forall|k: int|
            0 <= k < next.len() && (#[trigger] next[k]).has_output implies api_ended_before(
            events,
            next[k].api_call_id,
            bound,
            Some(ApiState::Completed),
        ) by {
            if k < calls.len() && calls[k].has_output && calls[k].api_call_id
                == next[k].api_call_id {
                assert(calls[k].has_output);
            } else {
                let tool_call = match event.body {
                    EventBody::ToolInfoUpdate(info) => info.tool_call_id,
                    EventBody::WorkMapMutation(update) => update.tool_call_id,
                    EventBody::AgentTitleChanged(change) => change.tool_call_id->0,
                    EventBody::ImageContent(image) => image.tool_call_id,
                    EventBody::ToolCallResult(result) => result.tool_call_id,
                    _ => 0,
                };
                if call_turn(calls, tool_call) is Next {
                    lemma_turn(calls, tool_call);
                }
                let place = turn_place(calls, tool_call);
                assert(place == k);
                let i = choose|i: int|
                    0 <= i < events.len() && ends_api_call(
                        #[trigger] events[i],
                        calls[k].api_call_id,
                        event.id,
                        Some(ApiState::Completed),
                    );
                assert(ends_api_call(
                    events[i],
                    next[k].api_call_id,
                    bound,
                    Some(ApiState::Completed),
                ));
            }
        }
    }
}

proof fn lemma_ended_later(
    events: Seq<Event>,
    api_call: EventId,
    early: EventId,
    late: EventId,
    required: Option<ApiState>,
)
    requires
        api_ended_before(events, api_call, early, required),
        early <= late,
    ensures
        api_ended_before(events, api_call, late, required),
{
    let i = choose|i: int|
        0 <= i < events.len() && ends_api_call(#[trigger] events[i], api_call, early, required);
    assert(ends_api_call(events[i], api_call, late, required));
}

pub proof fn lemma_notes(calls: Seq<ToolCallState>, results: Seq<PersistedResult>)
    ensures
        forall|j: int|
            0 <= j < restart_notes(calls, results).len() ==> (#[trigger] restart_notes(
                calls,
                results,
            )[j]) is Ended,
    decreases calls.len(),
{
    if calls.len() > 0 {
        lemma_notes(calls.drop_last(), results);
        let before = restart_notes(calls.drop_last(), results);
        let all = restart_notes(calls, results);
        assert forall|j: int| 0 <= j < all.len() implies (#[trigger] all[j]) is Ended by {
            if j < before.len() {
                assert(before[j] is Ended);
            }
        }
    }
}

proof fn lemma_notes_prefix(calls: Seq<ToolCallState>, results: Seq<PersistedResult>, count: int)
    requires
        0 <= count <= calls.len(),
    ensures
        restart_notes(calls.take(count), results).len() <= restart_notes(calls, results).len(),
        restart_notes(calls, results).take(
            restart_notes(calls.take(count), results).len() as int,
        ) == restart_notes(calls.take(count), results),
    decreases calls.len() - count,
{
    let part = restart_notes(calls.take(count), results);
    if count == calls.len() {
        assert(calls.take(count) =~= calls);
        assert(part.take(part.len() as int) =~= part);
    } else {
        lemma_notes_prefix(calls, results, count + 1);
        let more = restart_notes(calls.take(count + 1), results);
        assert(calls.take(count + 1).drop_last() =~= calls.take(count));
        assert(more.take(part.len() as int) =~= part);
        let all = restart_notes(calls, results);
        assert(all.take(part.len() as int) =~= all.take(more.len() as int).take(part.len() as int));
    }
}

#[verifier::rlimit(40)]
proof fn lemma_closed_so_far(
    before: &EventDataBase,
    after: &EventDataBase,
    calls: Seq<ToolCallState>,
    results: Seq<PersistedResult>,
    count: int,
)
    requires
        before.wf(),
        before@.len() <= usize::MAX,
        tool_states(before@, before@.len() as int) == Ok::<_, ToolHistoryError>(calls),
        written(before, after, restart_notes(calls, results)),
        forall|k: int|
            0 <= k < calls.len() && !(#[trigger] calls[k]).finished ==> api_ended_before(
                before@,
                calls[k].api_call_id,
                before.next_id,
                None,
            ),
        forall|k: int|
            0 <= k < calls.len() && persisted(results, (#[trigger] calls[k]).id) is Some
                ==> calls[k].has_output,
        0 <= count <= calls.len(),
    ensures
        tool_states(
            after@,
            before@.len() as int + restart_notes(calls.take(count), results).len(),
        ) == Ok::<_, ToolHistoryError>(finished_up_to(calls, count)),
    decreases count,
{
    let start = before@.len() as int;
    let notes = restart_notes(calls, results);
    lemma_notes(calls, results);
    lemma_grown_wf(before, after, notes.len() as int);
    assert(continues(before@, after@));
    assert(bounded(before@, after@, before.next_id));
    lemma_states_match(before@, start);
    if count == 0 {
        lemma_tools_kept(before@, after@, start);
        assert(finished_up_to(calls, 0) =~= calls);
    } else {
        lemma_closed_so_far(before, after, calls, results, count - 1);
        let done = finished_up_to(calls, count - 1);
        let earlier = restart_notes(calls.take(count - 1), results);
        let now = restart_notes(calls.take(count), results);
        assert(calls.take(count).drop_last() =~= calls.take(count - 1));
        assert(calls.take(count).last() == calls[count - 1]);
        let call = calls[count - 1];
        if call.finished {
            assert(finished_up_to(calls, count) =~= done);
        } else {
            lemma_notes_prefix(calls, results, count);
            let place = start + earlier.len();
            assert(notes[earlier.len() as int] == now[earlier.len() as int]) by {
                assert(notes.take(now.len() as int)[earlier.len() as int]
                    == notes[earlier.len() as int]);
            }
            let event = after@[place];
            assert(after.added(before, earlier.len() as int) == event.body);
            let result = event.body->ToolCallResult_0;
            assert(result.tool_call_id == call.id);
            assert forall|k: int, l: int| 0 <= k < l < done.len() implies (#[trigger] done[k]).id
                < (#[trigger] done[l]).id by {
                assert(calls[k].id < calls[l].id);
            }
            lemma_next_turn(done, count - 1);
            assert(done[count - 1] == call);
            assert(event.id >= before.next_id);
            lemma_ended_kept(before@, after@, call.api_call_id, before.next_id, None);
            lemma_ended_later(after@, call.api_call_id, before.next_id, event.id, None);
            if call.has_output {
                lemma_output_after_request(before@, start, before.next_id);
                lemma_ended_kept(
                    before@,
                    after@,
                    call.api_call_id,
                    before.next_id,
                    Some(ApiState::Completed),
                );
                lemma_ended_later(
                    after@,
                    call.api_call_id,
                    before.next_id,
                    event.id,
                    Some(ApiState::Completed),
                );
            }
            assert(with_result(done, count - 1) =~= finished_up_to(calls, count));
        }
    }
}

/// A restart leaves no tool call open, and the history still keeps the rules of tool calls. The
/// requests that called the tools have ended before, and only a call that had put something out is
/// known to have done something.
pub proof fn law_restart_closes_tool_calls(
    before: &EventDataBase,
    after: &EventDataBase,
    calls: Seq<ToolCallState>,
    results: Seq<PersistedResult>,
)
    requires
        before.wf(),
        before@.len() <= usize::MAX,
        tool_states(before@, before@.len() as int) == Ok::<_, ToolHistoryError>(calls),
        written(before, after, restart_notes(calls, results)),
        forall|k: int|
            0 <= k < calls.len() && !(#[trigger] calls[k]).finished ==> api_ended_before(
                before@,
                calls[k].api_call_id,
                before.next_id,
                None,
            ),
        forall|k: int|
            0 <= k < calls.len() && persisted(results, (#[trigger] calls[k]).id) is Some
                ==> calls[k].has_output,
    ensures
        tool_states(after@, after@.len() as int) matches Ok(later) && later.len() == calls.len()
            && forall|k: int| 0 <= k < later.len() ==> (#[trigger] later[k]).finished && later[k].id
            == calls[k].id,
{
    lemma_closed_so_far(before, after, calls, results, calls.len() as int);
    assert(calls.take(calls.len() as int) =~= calls);
}

} // verus!
