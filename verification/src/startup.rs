//! What a restart makes of a log as a whole.
use vstd::prelude::*;

use crate::api_calls::{
    api_reconciled, api_states, call_place, law_restart_closes_requests, lemma_api_step_shape,
    lemma_call_place, lemma_latest_call, lemma_none_open, open_calls, retry_left_open, ApiCallState,
};
use crate::compacts::{
    compact_histories, compact_reconciled, law_restart_closes_compaction, left_open,
};
use crate::event::{
    event_with, lemma_order_of, order_of, ApiState, Event, EventBody, EventDataBase, EventId,
};
use crate::later::{
    added_in_order, carries_on_ended, chat_rules, continues, in_order, lemma_chat_rules_kept,
    lemma_compacts_untouched, lemma_continues_twice, lemma_grown_continues, lemma_prefix,
    lemma_requests_untouched, lemma_rules_kept, lemma_sessions_untouched, lemma_tools_untouched,
    rules_of, LogRules,
};
use crate::notes::{note_of, written};
use crate::profile::MainAgentProfile;
use crate::restart::law_restart_closes_tool_calls;
use crate::support::{chat_problem, chats, main_problem, HistoryFacts};
use crate::tool_calls::{
    api_ended_before, ends_api_call, lemma_step_shape, tool_states, ToolCallState, ToolHistoryError,
};
use crate::tools::{persisted, restart_notes, PersistedResult};

verus! {

/// Whether an event starts a request.
pub open spec fn starts_request(event: Event) -> bool {
    event.body matches EventBody::ApiStateUpdate(update) && update.state == ApiState::Requesting
}

/// A request that has ended did so by an event of the log, and no request of the log is unknown.
proof fn lemma_ended_by_event(events: Seq<Event>, count: int, bound: EventId)
    requires
        0 <= count <= events.len(),
        api_states(events, count) is Ok,
        forall|i: int| 0 <= i < count ==> (#[trigger] events[i]).id < bound,
    ensures
        ({
            let calls = api_states(events, count)->Ok_0.0;
            &&& forall|k: int|
                0 <= k < calls.len() && (#[trigger] calls[k]).state.terminal() ==> api_ended_before(
                    events,
                    calls[k].id,
                    bound,
                    None,
                )
            &&& forall|i: int|
                0 <= i < count && starts_request(#[trigger] events[i]) ==> call_place(
                    calls,
                    events[i].id,
                ) is Some
        }),
    decreases count,
{
    if count > 0 {
        lemma_ended_by_event(events, count - 1, bound);
        let history = api_states(events, count - 1)->Ok_0;
        let event = events[count - 1];
        lemma_api_step_shape(events, history, event);
        let calls = api_states(events, count)->Ok_0.0;
        assert forall|k: int|
            0 <= k < calls.len() && (#[trigger] calls[k]).state.terminal() implies api_ended_before(
            events,
            calls[k].id,
            bound,
            None,
        ) by {
            if k < history.0.len() && history.0[k].state.terminal() {
                assert(calls[k].id == history.0[k].id);
            } else {
                match event.body {
                    EventBody::ApiStateUpdate(update) => {
                        lemma_call_place(history.0, update.api_call_id);
                        assert(ends_api_call(event, calls[k].id, bound, None));
                    },
                    EventBody::AssistResponse(response) => {
                        lemma_latest_call(history.0, response.prompt_id, true);
                        assert(calls[k].state == history.0[k].state);
                    },
                    _ => {},
                }
            }
        }
        assert forall|i: int| 0 <= i < count && starts_request(#[trigger] events[i]) implies call_place(
            calls,
            events[i].id,
        ) is Some by {
            lemma_call_place(calls, events[i].id);
            if i < count - 1 {
                lemma_call_place(history.0, events[i].id);
                let k = call_place(history.0, events[i].id)->0;
                assert(calls[k].id == history.0[k].id);
            } else {
                assert(calls[calls.len() - 1].id == event.id);
            }
        }
    }
}

/// Every tool call was called by a request of the log.
pub proof fn lemma_called_by_request(events: Seq<Event>, count: int)
    requires
        0 <= count <= events.len() <= usize::MAX,
        tool_states(events, count) is Ok,
    ensures
        tool_states(events, count)->Ok_0.len() <= count,
        forall|k: int|
            0 <= k < tool_states(events, count)->Ok_0.len() ==> (event_with(
                events,
                (#[trigger] tool_states(events, count)->Ok_0[k]).api_call_id,
            ) matches Some(found) && starts_request(found)),
    decreases count,
{
    if count > 0 {
        lemma_called_by_request(events, count - 1);
        let calls = tool_states(events, count - 1)->Ok_0;
        let next = tool_states(events, count)->Ok_0;
        lemma_step_shape(events, calls, events[count - 1]);
        assert forall|k: int| 0 <= k < next.len() implies (event_with(
            events,
            (#[trigger] next[k]).api_call_id,
        ) matches Some(found) && starts_request(found)) by {
            if k < calls.len() {
                assert(next[k].api_call_id == calls[k].api_call_id);
            }
        }
    }
}

/// Where no request of a log is open, those that called tools have ended.
proof fn lemma_callers_ended(log: &EventDataBase, calls: Seq<ToolCallState>)
    requires
        log.wf(),
        log@.len() <= usize::MAX,
        api_states(log@, log@.len() as int) matches Ok(history) && open_calls(history.0).len() == 0,
        tool_states(log@, log@.len() as int) == Ok::<_, ToolHistoryError>(calls),
    ensures
        forall|k: int|
            0 <= k < calls.len() ==> api_ended_before(
                log@,
                (#[trigger] calls[k]).api_call_id,
                log.next_id,
                None,
            ),
{
    let requests = api_states(log@, log@.len() as int)->Ok_0.0;
    lemma_ended_by_event(log@, log@.len() as int, log.next_id);
    lemma_called_by_request(log@, log@.len() as int);
    lemma_none_open(requests);
    assert forall|k: int| 0 <= k < calls.len() implies api_ended_before(
        log@,
        (#[trigger] calls[k]).api_call_id,
        log.next_id,
        None,
    ) by {
        let id = calls[k].api_call_id;
        lemma_order_of(log@, id);
        let order = order_of(log@, id)->0;
        assert(starts_request(log@[order]));
        lemma_call_place(requests, id);
        let place = call_place(requests, id)->0;
        assert(requests[place].state.terminal());
    }
}

proof fn lemma_same_continues(log: &EventDataBase)
    requires
        log.wf(),
    ensures
        continues(log@, log@),
{
    assert(log@.take(log@.len() as int) =~= log@);
}

/// What a restart adds for the requests.
proof fn lemma_requests_step(
    before: &EventDataBase,
    after: &EventDataBase,
    calls: Seq<ApiCallState>,
)
    requires
        before.wf(),
        api_reconciled(before, after, calls),
    ensures
        after.wf(),
        continues(before@, after@),
        forall|j: int| before@.len() <= j < after@.len() ==> {
            &&& (#[trigger] after@[j]).body is ApiStateUpdate
            &&& after@[j].body->ApiStateUpdate_0.state == ApiState::Interrupted
        },
{
    let open = open_calls(calls);
    if open.len() > 0 {
        lemma_grown_continues(before, after, open.len() as int);
        assert forall|j: int| before@.len() <= j < after@.len() implies {
            &&& (#[trigger] after@[j]).body is ApiStateUpdate
            &&& after@[j].body->ApiStateUpdate_0.state == ApiState::Interrupted
        } by {
            assert(after.added(before, j - before@.len()) == after@[j].body);
        }
    } else if retry_left_open(before@) {
        lemma_grown_continues(before, after, 1);
        assert(after.added(before, 0) == after@[before@.len() as int].body);
    } else {
        lemma_same_continues(before);
    }
}

/// What a restart adds for the tool calls.
proof fn lemma_tools_step(
    before: &EventDataBase,
    after: &EventDataBase,
    calls: Seq<ToolCallState>,
    results: Seq<PersistedResult>,
)
    requires
        before.wf(),
        written(before, after, restart_notes(calls, results)),
    ensures
        after.wf(),
        continues(before@, after@),
        forall|j: int|
            before@.len() <= j < after@.len() ==> (#[trigger] after@[j]).body is ToolCallResult,
{
    let notes = restart_notes(calls, results);
    crate::restart::lemma_notes(calls, results);
    lemma_grown_continues(before, after, notes.len() as int);
    assert forall|j: int| before@.len() <= j < after@.len() implies (#[trigger] after@[j]).body
        is ToolCallResult by {
        assert(note_of(after.added(before, j - before@.len())) == notes[j - before@.len()]);
        assert(notes[j - before@.len()] is Ended);
    }
}

/// What a restart adds for the compactions.
proof fn lemma_compacts_step(
    before: &EventDataBase,
    after: &EventDataBase,
    records: Seq<crate::compacts::CompactRecord>,
)
    requires
        before.wf(),
        compact_reconciled(before, after, records),
    ensures
        after.wf(),
        continues(before@, after@),
        forall|j: int|
            before@.len() <= j < after@.len() ==> (#[trigger] after@[j]).body is CompactStateUpdate,
{
    if *after == *before {
        lemma_same_continues(before);
    } else {
        lemma_grown_continues(before, after, 1);
        assert(after.added(before, 0) == after@[before@.len() as int].body);
    }
}

/// Whether an event is one that a restart adds.
pub open spec fn added_by_restart(event: Event) -> bool {
    match event.body {
        EventBody::ApiStateUpdate(update) => update.state == ApiState::Interrupted,
        EventBody::ToolCallResult(_) => true,
        EventBody::CompactStateUpdate(_) => true,
        _ => false,
    }
}

/// What a restart adds is in order.
proof fn lemma_restart_in_order(
    events: Seq<Event>,
    longer: Seq<Event>,
    place: int,
    rules: LogRules,
)
    requires
        added_by_restart(longer[place]),
    ensures
        in_order(longer, place, rules),
        !carries_on_ended(events, longer[place]),
{
    reveal(in_order);
}

/// Whether a restart has been gone through: the requests, then the tool calls, then the
/// compactions.
pub open spec fn restarted(
    log: &EventDataBase,
    requests: &EventDataBase,
    tools: &EventDataBase,
    done: &EventDataBase,
    results: Seq<PersistedResult>,
) -> bool {
    &&& match api_states(log@, log@.len() as int) {
        Ok(history) => api_reconciled(log, requests, history.0),
        Err(_) => false,
    }
    &&& match tool_states(requests@, requests@.len() as int) {
        Ok(calls) => written(requests, tools, restart_notes(calls, results)),
        Err(_) => false,
    }
    &&& match compact_histories(tools@, tools@.len() as int) {
        Ok(history) => compact_reconciled(tools, done, history.0),
        Err(_) => false,
    }
}

/// Whether nothing of a log is open: no request, no retry, no tool call and no compaction.
pub open spec fn nothing_open(events: Seq<Event>) -> bool {
    let count = events.len() as int;
    &&& api_states(events, count) matches Ok(history) && open_calls(history.0).len() == 0
    &&& !retry_left_open(events)
    &&& tool_states(events, count) matches Ok(calls) && forall|k: int|
        0 <= k < calls.len() ==> (#[trigger] calls[k]).finished
    &&& compact_histories(events, count) matches Ok(history) && left_open(history.0) is None
}

/// A restart leaves nothing open, whatever was: no request, no retry, no tool call and no
/// compaction. Only a call that had put something out is known to have done something.
#[verifier::rlimit(40)]
pub proof fn law_restart_leaves_nothing_open(
    log: &EventDataBase,
    requests: &EventDataBase,
    tools: &EventDataBase,
    done: &EventDataBase,
    results: Seq<PersistedResult>,
)
    requires
        log.wf(),
        requests@.len() <= usize::MAX,
        tools@.len() <= usize::MAX,
        restarted(log, requests, tools, done, results),
        forall|k: int|
            0 <= k < tool_states(requests@, requests@.len() as int)->Ok_0.len() && persisted(
                results,
                (#[trigger] tool_states(requests@, requests@.len() as int)->Ok_0[k]).id,
            ) is Some ==> tool_states(requests@, requests@.len() as int)->Ok_0[k].has_output,
    ensures
        nothing_open(done@),
{
    let calls = api_states(log@, log@.len() as int)->Ok_0.0;
    let tool_calls = tool_states(requests@, requests@.len() as int)->Ok_0;
    let history = compact_histories(tools@, tools@.len() as int)->Ok_0;
    law_restart_closes_requests(log, requests, calls);
    lemma_requests_step(log, requests, calls);
    lemma_callers_ended(requests, tool_calls);
    law_restart_closes_tool_calls(requests, tools, tool_calls, results);
    lemma_tools_step(requests, tools, tool_calls, results);
    law_restart_closes_compaction(tools, done, history);
    lemma_compacts_step(tools, done, history.0);
    lemma_prefix(tools@, done@);
    lemma_prefix(requests@, tools@);
    lemma_requests_untouched(requests@, tools@, tools@.len() as int);
    assert(tools@.take(tools@.len() as int) =~= tools@);
    lemma_requests_untouched(tools@, done@, done@.len() as int);
    assert(done@.take(done@.len() as int) =~= done@);
    lemma_tools_untouched(tools@, done@, done@.len() as int);
}

/// What a restart does for the requests of a log leaves its tool calls and compactions as they
/// are, and what it does for the tool calls leaves the compactions as they are: where a log keeps
/// their rules, no step of the restart is refused.
pub proof fn law_restart_is_not_refused(
    log: &EventDataBase,
    requests: &EventDataBase,
    tools: &EventDataBase,
    results: Seq<PersistedResult>,
)
    requires
        log.wf(),
        log@.len() <= usize::MAX,
        api_states(log@, log@.len() as int) is Ok,
        tool_states(log@, log@.len() as int) is Ok,
        compact_histories(log@, log@.len() as int) is Ok,
        api_reconciled(log, requests, api_states(log@, log@.len() as int)->Ok_0.0),
        written(
            requests,
            tools,
            restart_notes(tool_states(log@, log@.len() as int)->Ok_0, results),
        ),
    ensures
        tool_states(requests@, requests@.len() as int) == tool_states(log@, log@.len() as int),
        compact_histories(tools@, tools@.len() as int) == compact_histories(
            log@,
            log@.len() as int,
        ),
{
    let calls = api_states(log@, log@.len() as int)->Ok_0.0;
    let tool_calls = tool_states(log@, log@.len() as int)->Ok_0;
    lemma_requests_step(log, requests, calls);
    lemma_tools_step(requests, tools, tool_calls, results);
    lemma_tools_untouched(log@, requests@, requests@.len() as int);
    lemma_compacts_untouched(log@, requests@, requests@.len() as int);
    lemma_compacts_untouched(requests@, tools@, tools@.len() as int);
}

/// An agent that can go on from a log can go on from it after a restart, where no other part of
/// the program finds anything wrong with it then.
#[verifier::rlimit(40)]
pub proof fn law_restart_keeps_the_log_supported(
    log: &EventDataBase,
    requests: &EventDataBase,
    tools: &EventDataBase,
    done: &EventDataBase,
    results: Seq<PersistedResult>,
    profile: MainAgentProfile,
    has_parent_prompt: bool,
    facts: HistoryFacts,
)
    requires
        log.wf(),
        log@.len() > 0,
        requests@.len() <= usize::MAX,
        tools@.len() <= usize::MAX,
        main_problem(log@, profile, has_parent_prompt, facts) is None,
        restarted(log, requests, tools, done, results),
        forall|k: int|
            0 <= k < tool_states(requests@, requests@.len() as int)->Ok_0.len() && persisted(
                results,
                (#[trigger] tool_states(requests@, requests@.len() as int)->Ok_0[k]).id,
            ) is Some ==> tool_states(requests@, requests@.len() as int)->Ok_0[k].has_output,
    ensures
        main_problem(done@, profile, has_parent_prompt, facts) is None,
{
    law_restart_leaves_nothing_open(log, requests, tools, done, results);
    lemma_requests_step(log, requests, api_states(log@, log@.len() as int)->Ok_0.0);
    lemma_tools_step(
        requests,
        tools,
        tool_states(requests@, requests@.len() as int)->Ok_0,
        results,
    );
    lemma_compacts_step(tools, done, compact_histories(tools@, tools@.len() as int)->Ok_0.0);
    lemma_continues_twice(log@, requests@, tools@);
    lemma_continues_twice(log@, tools@, done@);
    lemma_prefix(tools@, done@);
    lemma_prefix(requests@, tools@);
    assert forall|j: int| log@.len() <= j < done@.len() implies added_by_restart(
        #[trigger] done@[j],
    ) by {
        if j < tools@.len() {
            assert(done@[j] == tools@[j]);
            if j < requests@.len() {
                assert(tools@[j] == requests@[j]);
            }
        }
    }
    let rules = rules_of(log@, profile, has_parent_prompt);
    assert(added_in_order(log@, done@, rules)) by {
        assert forall|j: int| log@.len() <= j < done@.len() implies #[trigger] in_order(
            done@,
            j,
            rules,
        ) by {
            lemma_restart_in_order(log@, done@, j, rules);
        }
        assert forall|j: int| log@.len() <= j < done@.len() implies !carries_on_ended(
            log@,
            #[trigger] done@[j],
        ) by {
            lemma_restart_in_order(log@, done@, j, rules);
        }
    }
    lemma_sessions_untouched(log@, done@, done@.len() as int);
    lemma_rules_kept(log@, done@, profile, has_parent_prompt, facts);
}

/// A chat bot that can go on from a log can go on from it after a restart, which closes its
/// requests.
pub proof fn law_restart_keeps_the_chat_supported(
    log: &EventDataBase,
    requests: &EventDataBase,
    facts: HistoryFacts,
)
    requires
        log.wf(),
        log@.len() > 0,
        chat_problem(log@, facts) is None,
        api_states(log@, log@.len() as int) matches Ok(history) && api_reconciled(
            log,
            requests,
            history.0,
        ),
    ensures
        chat_problem(requests@, facts) is None,
        api_states(requests@, requests@.len() as int) matches Ok(history) && open_calls(
            history.0,
        ).len() == 0,
{
    let calls = api_states(log@, log@.len() as int)->Ok_0.0;
    law_restart_closes_requests(log, requests, calls);
    lemma_requests_step(log, requests, calls);
    let rules = chat_rules(log@);
    assert forall|j: int| log@.len() <= j < requests@.len() implies #[trigger] in_order(
        requests@,
        j,
        rules,
    ) by {
        assert(added_by_restart(requests@[j]));
        lemma_restart_in_order(log@, requests@, j, rules);
    }
    assert forall|j: int| log@.len() <= j < requests@.len() implies !carries_on_ended(
        log@,
        #[trigger] requests@[j],
    ) && chats(requests@[j].kind_of()) by {
        assert(added_by_restart(requests@[j]));
        lemma_restart_in_order(log@, requests@, j, rules);
    }
    lemma_chat_rules_kept(log@, requests@, facts);
}

/// Where all calls are finished, a restart writes nothing of them.
proof fn lemma_no_notes(calls: Seq<ToolCallState>, results: Seq<PersistedResult>)
    requires
        forall|k: int| 0 <= k < calls.len() ==> (#[trigger] calls[k]).finished,
    ensures
        restart_notes(calls, results).len() == 0,
    decreases calls.len(),
{
    if calls.len() > 0 {
        assert(calls[calls.len() - 1].finished);
        assert forall|k: int| 0 <= k < calls.drop_last().len() implies (
        #[trigger] calls.drop_last()[k]).finished by {
            assert(calls[k].finished);
        }
        lemma_no_notes(calls.drop_last(), results);
    }
}

/// A second restart, from a log in which nothing is open, changes nothing of it.
pub proof fn law_second_restart_changes_nothing(
    log: &EventDataBase,
    requests: &EventDataBase,
    tools: &EventDataBase,
    done: &EventDataBase,
    results: Seq<PersistedResult>,
)
    requires
        nothing_open(log@),
        restarted(log, requests, tools, done, results),
    ensures
        done@ == log@,
        done.next_id == log.next_id,
{
    lemma_no_notes(tool_states(log@, log@.len() as int)->Ok_0, results);
    assert(tools@.take(requests@.len() as int) =~= tools@);
}

} // verus!
