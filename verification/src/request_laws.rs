//! What can be relied on of the requests and the compactions in a log: which steps they may take, and
//! what each step does to them.
use vstd::prelude::*;

use crate::api_calls::{
    api_states, api_step, call_place, latest_call, lemma_call_place, open_compact,
    request_completed_between, ApiCallState, ApiHistory,
};
use crate::compacts::{
    compact_step, compact_with, sections, stage_names, succeeded_before, succeeds_before,
    CompactHistory,
};
use crate::event::{
    event_with, ApiState, ApiStateUpdate, CompactState, CompactStateUpdate, Event, EventBody, EventId,
    ToolResultState,
};
use crate::text::{is_blank, views};
use crate::tool_calls::tool_call_with;

verus! {

/// The latest request of a prompt is the last one that is, among the running ones where asked.
proof fn lemma_latest(calls: Seq<ApiCallState>, prompt: EventId, running: bool)
    ensures
        latest_call(calls, prompt, running) matches Some(place) ==> 0 <= place < calls.len()
            && calls[place].prompt_id == prompt && (running ==> !calls[place].state.terminal())
            && forall|i: int|
            place < i < calls.len() ==> !((#[trigger] calls[i]).prompt_id == prompt && (running
                ==> !calls[i].state.terminal())),
        latest_call(calls, prompt, running) is None ==> forall|i: int|
            0 <= i < calls.len() ==> !((#[trigger] calls[i]).prompt_id == prompt && (running
                ==> !calls[i].state.terminal())),
    decreases calls.len(),
{
    if calls.len() > 0 {
        let front = calls.drop_last();
        lemma_latest(front, prompt, running);
        assert(forall|i: int| 0 <= i < front.len() ==> #[trigger] calls[i] == front[i]);
    }
}

/// Whether a request is the last of its prompt that has not ended.
pub open spec fn is_open(calls: Seq<ApiCallState>, place: int, prompt: EventId) -> bool {
    &&& 0 <= place < calls.len()
    &&& calls[place].prompt_id == prompt
    &&& !calls[place].state.terminal()
    &&& forall|i: int|
        place < i < calls.len() && (#[trigger] calls[i]).prompt_id == prompt
            ==> calls[i].state.terminal()
}

/// A part of an answer is taken up exactly if the open request of its prompt streams and its answer
/// is not finished. It is finished if the part says so; nothing else changes.
pub proof fn law_answers_belong_to_the_open_request(
    events: Seq<Event>,
    history: ApiHistory,
    event: Event,
    place: int,
)
    requires
        event.body is AssistResponse,
    ensures
        event.body matches EventBody::AssistResponse(response) ==> {
            &&& !(exists|k: int| is_open(history.0, k, response.prompt_id)) ==> api_step(
                events,
                history,
                event,
            ) is Err
            &&& is_open(history.0, place, response.prompt_id) ==> (api_step(events, history, event)
                is Ok <==> history.0[place].state == ApiState::Streaming
                && !history.0[place].response_finished)
            &&& is_open(history.0, place, response.prompt_id) ==> (api_step(
                events,
                history,
                event,
            ) matches Ok(after) ==> {
                &&& after.1 == history.1
                &&& after.0.len() == history.0.len()
                &&& after.0[place] == (ApiCallState {
                    response_finished: response.finished,
                    ..history.0[place]
                })
                &&& forall|i: int|
                    0 <= i < history.0.len() && i != place ==> #[trigger] after.0[i] == history.0[i]
            })
        },
{
    if let EventBody::AssistResponse(response) = event.body {
        lemma_latest(history.0, response.prompt_id, true);
        if let Some(k) = latest_call(history.0, response.prompt_id, true) {
            assert(is_open(history.0, k, response.prompt_id));
            if is_open(history.0, place, response.prompt_id) {
                assert(k == place);
            }
        }
    }
}

/// Whether a request is the only one of its identity.
pub open spec fn is_known(calls: Seq<ApiCallState>, place: int, id: EventId) -> bool {
    &&& 0 <= place < calls.len()
    &&& calls[place].id == id
    &&& forall|i: int| 0 <= i < calls.len() && i != place ==> (#[trigger] calls[i]).id != id
}

/// A request that is the only one of its identity is found.
proof fn lemma_known(calls: Seq<ApiCallState>, place: int, id: EventId)
    requires
        is_known(calls, place, id),
    ensures
        call_place(calls, id) == Some(place),
{
    lemma_call_place(calls, id);
    if let Some(k) = call_place(calls, id) {
        assert(k == place);
    }
}

/// An item for the provider is taken up exactly if its request is one of its own turn and streams.
/// It changes nothing.
pub proof fn law_items_belong_to_a_streaming_request(
    events: Seq<Event>,
    history: ApiHistory,
    event: Event,
    place: int,
)
    requires
        event.body is ModelContextItem,
    ensures
        event.body matches EventBody::ModelContextItem(item) ==> {
            &&& (forall|i: int|
                0 <= i < history.0.len() ==> (#[trigger] history.0[i]).id != item.api_call_id)
                ==> api_step(events, history, event) is Err
            &&& is_known(history.0, place, item.api_call_id) ==> (api_step(events, history, event)
                is Ok <==> history.0[place].prompt_id == item.prompt_id && history.0[place].state
                == ApiState::Streaming)
            &&& api_step(events, history, event) matches Ok(after) ==> after == history
        },
{
    if let EventBody::ModelContextItem(item) = event.body {
        lemma_call_place(history.0, item.api_call_id);
        if is_known(history.0, place, item.api_call_id) {
            lemma_known(history.0, place, item.api_call_id);
        }
    }
}

/// Whether the latest request of a prompt failed.
pub open spec fn failed_last(calls: Seq<ApiCallState>, prompt: EventId) -> bool {
    exists|place: int|
        {
            &&& 0 <= place < calls.len()
            &&& (#[trigger] calls[place]).prompt_id == prompt
            &&& calls[place].state == ApiState::Error
            &&& forall|i: int| place < i < calls.len() ==> (#[trigger] calls[i]).prompt_id != prompt
        }
}

/// A request starts exactly if it is for an earlier prompt that begins a turn, goes by the number of
/// its own event, is the only one of it, and, where the latest request of the prompt failed, is the
/// retry that is due. It then stands behind the others under the retry that was due, which is due
/// no more.
pub proof fn law_requests_start(
    events: Seq<Event>,
    history: ApiHistory,
    event: Event,
    update: ApiStateUpdate,
)
    requires
        event.body == EventBody::ApiStateUpdate(update),
        update.state == ApiState::Requesting,
    ensures
        api_step(events, history, event) is Ok <==> {
            &&& update.prompt_id < event.id
            &&& event_with(events, update.prompt_id) matches Some(found)
            &&& found.root_prompt()
            &&& update.api_call_id == event.id
            &&& forall|i: int| 0 <= i < history.0.len() ==> (#[trigger] history.0[i]).id != event.id
            &&& failed_last(history.0, update.prompt_id) ==> history.1.dom().contains(
                update.prompt_id,
            ) && history.1[update.prompt_id].0 > 0
        },
        api_step(events, history, event) matches Ok(after) ==> {
            &&& after.0.len() == history.0.len() + 1
            &&& after.0.last().id == event.id
            &&& after.0.last().prompt_id == update.prompt_id
            &&& after.0.last().state == ApiState::Requesting
            &&& !after.0.last().response_finished
            &&& history.1.dom().contains(update.prompt_id) ==> after.0.last().retry_count
                == history.1[update.prompt_id].0 && after.0.last().retry_limit
                == history.1[update.prompt_id].1
            &&& !history.1.dom().contains(update.prompt_id) ==> after.0.last().retry_count == 0
            &&& after.0.last().compact_summary <==> open_compact(events, 0, event.id, None) == Some(
                update.prompt_id,
            )
            &&& forall|i: int|
                0 <= i < history.0.len() ==> #[trigger] after.0[i] == history.0[i]
            &&& after.1 == history.1.remove(update.prompt_id)
        },
{
    let prompt = update.prompt_id;
    lemma_call_place(history.0, event.id);
    lemma_latest(history.0, prompt, false);
    match latest_call(history.0, prompt, false) {
        Some(place) => {
            if history.0[place].state == ApiState::Error {
                assert(history.0[place].prompt_id == prompt);
                assert(failed_last(history.0, prompt));
            } else if failed_last(history.0, prompt) {
                let k = choose|k: int|
                    {
                        &&& 0 <= k < history.0.len()
                        &&& (#[trigger] history.0[k]).prompt_id == prompt
                        &&& history.0[k].state == ApiState::Error
                        &&& forall|i: int|
                            k < i < history.0.len() ==> (#[trigger] history.0[i]).prompt_id
                                != prompt
                    };
                assert(k == place);
            }
        },
        None => {},
    }
}

/// A retry is announced exactly if its request failed, it is the next one in number under the limit in
/// force, and none is due for the prompt. It is due then, and no request changes.
pub proof fn law_retries_are_counted(
    events: Seq<Event>,
    history: ApiHistory,
    event: Event,
    update: ApiStateUpdate,
    place: int,
)
    requires
        event.body == EventBody::ApiStateUpdate(update),
        update.state == ApiState::Retrying,
        is_known(history.0, place, update.api_call_id),
        update.prompt_id < event.id,
        event_with(events, update.prompt_id) matches Some(found) && found.root_prompt(),
    ensures
        api_step(events, history, event) is Ok <==> {
            &&& history.0[place].prompt_id == update.prompt_id
            &&& history.0[place].state == ApiState::Error
            &&& update.retry_count == history.0[place].retry_count + 1
            &&& history.0[place].retry_limit != 0 ==> update.retry_limit
                == history.0[place].retry_limit
            &&& !history.1.dom().contains(update.prompt_id)
        },
        api_step(events, history, event) matches Ok(after) ==> {
            &&& after.0 == history.0
            &&& after.1.dom().contains(update.prompt_id)
            &&& after.1[update.prompt_id] == (update.retry_count, update.retry_limit)
            &&& forall|prompt: EventId|
                prompt != update.prompt_id ==> (#[trigger] after.1.dom().contains(prompt)
                    <==> history.1.dom().contains(prompt)) && (history.1.dom().contains(prompt)
                    ==> after.1[prompt] == history.1[prompt])
        },
{
    lemma_known(history.0, place, update.api_call_id);
}

/// A request streams once it has started, and completes once its answer is finished or if it was for
/// a summary. It fails or is interrupted as long as it has not ended; only a failed one can be
/// interrupted afterwards. Nothing else changes but that a retry is due no more then.
pub proof fn law_requests_go_on(
    events: Seq<Event>,
    history: ApiHistory,
    event: Event,
    update: ApiStateUpdate,
    place: int,
)
    requires
        event.body == EventBody::ApiStateUpdate(update),
        update.state != ApiState::Requesting,
        update.state != ApiState::Retrying,
        is_known(history.0, place, update.api_call_id),
        update.prompt_id < event.id,
        event_with(events, update.prompt_id) matches Some(found) && found.root_prompt(),
    ensures
        history.0[place].prompt_id != update.prompt_id ==> api_step(events, history, event) is Err,
        history.0[place].prompt_id == update.prompt_id ==> {
            &&& update.state == ApiState::Streaming ==> (api_step(events, history, event) is Ok
                <==> history.0[place].state == ApiState::Requesting)
            &&& update.state == ApiState::Completed ==> (api_step(events, history, event) is Ok
                <==> !history.0[place].state.terminal() && (history.0[place].response_finished
                || history.0[place].compact_summary))
            &&& update.state == ApiState::Error ==> (api_step(events, history, event) is Ok
                <==> !history.0[place].state.terminal())
            &&& update.state == ApiState::Interrupted ==> (api_step(events, history, event) is Ok
                <==> history.0[place].state != ApiState::Completed && history.0[place].state
                != ApiState::Interrupted)
        },
        api_step(events, history, event) matches Ok(after) ==> {
            &&& after.0.len() == history.0.len()
            &&& after.0[place] == (ApiCallState { state: update.state, ..history.0[place] })
            &&& forall|i: int|
                0 <= i < history.0.len() && i != place ==> #[trigger] after.0[i] == history.0[i]
            &&& history.0[place].state == ApiState::Error ==> after.1 == history.1.remove(
                update.prompt_id,
            )
            &&& history.0[place].state != ApiState::Error ==> after.1 == history.1
        },
{
    lemma_known(history.0, place, update.api_call_id);
}

/// A step of a request that nobody started, or for what is no earlier prompt, is not taken up. Events
/// that are not about requests change none. A log that goes wrong stays wrong.
pub proof fn law_steps_need_their_request(
    events: Seq<Event>,
    history: ApiHistory,
    event: Event,
    count: int,
)
    ensures
        event.body matches EventBody::ApiStateUpdate(update) ==> {
            &&& update.state != ApiState::Requesting && (forall|i: int|
                0 <= i < history.0.len() ==> (#[trigger] history.0[i]).id != update.api_call_id)
                ==> api_step(events, history, event) is Err
            &&& !(update.prompt_id < event.id && (event_with(
                events,
                update.prompt_id,
            ) matches Some(found) && found.root_prompt())) ==> api_step(events, history, event)
                is Err
        },
        !(event.body is AssistResponse || event.body is ModelContextItem || event.body
            is ApiStateUpdate) ==> (api_step(events, history, event) matches Ok(after) && after
            == history),
        count >= 0 && api_states(events, count + 1) is Ok ==> api_states(events, count) is Ok,
{
    if let EventBody::ApiStateUpdate(update) = event.body {
        lemma_call_place(history.0, update.api_call_id);
    }
}

/// Whether a tool call succeeded before an event.
pub open spec fn worked_before(events: Seq<Event>, tool_call: EventId, before: EventId) -> bool {
    exists|i: int|
        0 <= i < events.len() && #[trigger] events[i].id < before && (
        events[i].body matches EventBody::ToolCallResult(result) && result.tool_call_id == tool_call
            && result.state == ToolResultState::Succeeded)
}

/// A compaction starts exactly if none is open, it goes by the number of its own event, says nothing
/// yet, and the call of the tool for it, in its own turn, succeeded before. It is open then, with no
/// stage done.
pub proof fn law_compactions_start_after_their_tool(
    events: Seq<Event>,
    history: CompactHistory,
    event: Event,
    update: CompactStateUpdate,
)
    requires
        event.body == EventBody::CompactStateUpdate(update),
        update.state == CompactState::Started,
    ensures
        compact_step(events, history, event) is Ok <==> {
            &&& history.1 is None
            &&& update.compact_id == event.id
            &&& update.accepted_count
            &&& update.stage is None
            &&& update.content@.len() == 0
            &&& update.detail@.len() == 0
            &&& tool_call_with(events, update.tool_call_id) matches Some(call)
            &&& call.name@ == "Compact"@
            &&& call.prompt_id == update.prompt_id
            &&& worked_before(events, update.tool_call_id, event.id)
        },
        compact_step(events, history, event) matches Ok(after) ==> {
            &&& after.0.len() == history.0.len() + 1
            &&& after.0.last().compact_id == event.id
            &&& after.0.last().state == CompactState::Started
            &&& forall|i: int|
                0 <= i < history.0.len() ==> #[trigger] after.0[i] == history.0[i]
            &&& after.1 matches Some((open, stages))
            &&& open.compact_id == event.id
            &&& open.previous_event_id == event.id
            &&& stages.len() == 0
        },
{
    let tool_call = update.tool_call_id;
    if succeeded_before(events, tool_call, event.id) {
        let i = choose|i: int|
            0 <= i < events.len() && succeeds_before(#[trigger] events[i], tool_call, event.id);
        assert(events[i].id < event.id);
    }
    if worked_before(events, tool_call, event.id) {
        let i = choose|i: int|
            0 <= i < events.len() && #[trigger] events[i].id < event.id && (
            events[i].body matches EventBody::ToolCallResult(result) && result.tool_call_id
                == tool_call && result.state == ToolResultState::Succeeded);
        assert(succeeds_before(events[i], tool_call, event.id));
    }
}

/// Whether a step names the same work as the start of a compaction.
pub open spec fn goes_on_with(update: CompactStateUpdate, started: CompactStateUpdate) -> bool {
    &&& update.kind == started.kind
    &&& update.total_stages == started.total_stages
    &&& update.tool_call_id == started.tool_call_id
    &&& update.prompt_id == started.prompt_id
}

/// A stage is taken up exactly if it is the next one of the open compaction's plan, has an answer,
/// and a request completed for it since the step before. Its answer then stands behind the others.
pub proof fn law_stages_follow_the_plan(
    events: Seq<Event>,
    history: CompactHistory,
    event: Event,
    update: CompactStateUpdate,
)
    requires
        event.body == EventBody::CompactStateUpdate(update),
        update.state == CompactState::StageCompleted,
    ensures
        compact_step(events, history, event) is Ok <==> {
            &&& history.1 matches Some((open, stages))
            &&& open.compact_id == update.compact_id
            &&& compact_with(events, open.compact_id) matches Some(started)
            &&& started.kind.multi_turn()
            &&& goes_on_with(update, started)
            &&& started.stages matches Some(plan)
            &&& stages.len() < plan@.len()
            &&& update.stage == Some(plan@[stages.len() as int])
            &&& update.content@.len() > 0
            &&& update.detail@.len() == 0
            &&& request_completed_between(
                events,
                started.prompt_id,
                open.previous_event_id,
                event.id,
            )
        },
        compact_step(events, history, event) matches Ok(after) ==> {
            &&& after.0 == history.0
            &&& history.1 matches Some((open, stages))
            &&& after.1 matches Some((now, done))
            &&& now.compact_id == open.compact_id
            &&& now.previous_event_id == event.id
            &&& done.len() == stages.len() + 1
            &&& update.stage == Some(done.last().stage)
            &&& done.last().content == update.content@
            &&& forall|i: int| 0 <= i < stages.len() ==> #[trigger] done[i] == stages[i]
        },
{
}

/// A compaction ends exactly if it is the open one. If it completed it has a summary and no reason: in
/// one turn a request completed for it, in several all stages of the plan are done and the summary is
/// made of their answers but the first. If it did not it has a reason and no summary.
pub proof fn law_compactions_end_once(
    events: Seq<Event>,
    history: CompactHistory,
    event: Event,
    update: CompactStateUpdate,
)
    requires
        event.body == EventBody::CompactStateUpdate(update),
        update.state != CompactState::Started,
        update.state != CompactState::StageCompleted,
    ensures
        compact_step(events, history, event) is Ok <==> {
            &&& history.1 matches Some((open, stages))
            &&& open.compact_id == update.compact_id
            &&& compact_with(events, update.compact_id) matches Some(started)
            &&& goes_on_with(update, started)
            &&& update.stage is None
            &&& if update.state == CompactState::Completed {
                &&& !is_blank(update.content@)
                &&& update.detail@.len() == 0
                &&& if started.kind.multi_turn() {
                    &&& started.stages matches Some(plan)
                    &&& stage_names(stages) == plan@
                    &&& views(update.merged_sections@) == sections(stages)
                    &&& update.content@ == update.merged_summary@
                } else {
                    &&& stages.len() == 0
                    &&& request_completed_between(
                        events,
                        started.prompt_id,
                        update.compact_id,
                        event.id,
                    )
                }
            } else {
                &&& update.content@.len() == 0
                &&& !is_blank(update.detail@)
            }
        },
        compact_step(events, history, event) matches Ok(after) ==> {
            &&& after.1 is None
            &&& after.0.len() == history.0.len()
            &&& history.0.len() > 0 ==> after.0.last().state == update.state
                && after.0.last().compact_id == history.0.last().compact_id
            &&& forall|i: int|
                0 <= i < history.0.len() - 1 ==> #[trigger] after.0[i] == history.0[i]
        },
{
}

/// The sections of a summary are the answers of the stages but the first, in their order.
pub proof fn law_sections_are_the_answers(stages: Seq<crate::compacts::StageView>, place: int)
    requires
        0 < place < stages.len(),
    ensures
        sections(stages).len() == stages.len() - 1,
        sections(stages)[place - 1] == stages[place].content,
        stage_names(stages)[place] == stages[place].stage,
        stage_names(stages).len() == stages.len(),
{
}

/// No other event changes the compactions.
pub proof fn law_other_events_leave_compactions_alone(
    events: Seq<Event>,
    history: CompactHistory,
    event: Event,
)
    requires
        !(event.body is CompactStateUpdate),
    ensures
        compact_step(events, history, event) matches Ok(after) && after == history,
{
}

} // verus!
