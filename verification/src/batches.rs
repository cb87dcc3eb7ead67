//! What writing down the tool calls of an answer leaves of a log.
use vstd::prelude::*;

use crate::api_calls::{
    api_states, lemma_api_calls, lemma_api_step_shape, lemma_call_place, lemma_latest_call,
};
use crate::buffers::CallView;
use crate::event::{
    event_with, ids_increase, lemma_order_of, order_of, ApiState, ApiUsage, Event, EventBody,
    EventDataBase, EventId, ToolOutputStream, ToolResultState, ToolTraits,
};
use crate::later::{
    carries_on_ended, continues, in_order, lemma_ended_kept, lemma_found, lemma_prefix,
    not_of_sessions, LogRules,
};
use crate::notes::{note_of, written, Note};
use crate::request::{answer_notes, call_notes, terminal_notes, Attempt};
use crate::support::HistoryFacts;
use crate::text::{is_blank, law_lines_hold_no_line_feed, lines_of};
use crate::tool_calls::{
    api_ended_before, batch_running, call_turn, ends_api_call, first_open, lemma_first_open,
    lemma_place_of, lemma_recorder, lemma_states_match, open_in, place_of, provider_call_taken,
    same_provider_call, tool_call_with, tool_states, tool_step, with_output, with_result, CallTurn,
    ToolHistoryError,
};
use crate::tools::{end_note, interrupted_notes, output_notes};
use crate::tries::{
    lemma_closed, lemma_earlier, lemma_left, lemma_next, lemma_one_by_one, lemma_same_ends,
    lemma_written_events, left, one_more, rests, runs, same_tools, sums_up, uncalled,
};
use crate::turns::{aborted, aborts, carries_on};
use crate::upkeep::{goes_on, rules_for, supported, Role};

verus! {

/// Whether an event begins the request of a prompt.
pub open spec fn begins(event: Event, api_call: EventId, prompt: EventId) -> bool {
    &&& event.id == api_call
    &&& event.body matches EventBody::ApiStateUpdate(update)
    &&& update.state == ApiState::Requesting
    &&& update.prompt_id == prompt
    &&& update.api_call_id == api_call
}

/// Whether an event ends a request.
pub open spec fn closes(event: Event, api_call: EventId) -> bool {
    &&& event.body matches EventBody::ApiStateUpdate(update)
    &&& update.api_call_id == api_call
    &&& update.state.terminal()
}

/// Every request of a log was begun by an event of it.
pub proof fn lemma_beginning(events: Seq<Event>, count: int, k: int) -> (i: int)
    requires
        0 <= count <= events.len(),
        api_states(events, count) is Ok,
        0 <= k < api_states(events, count)->Ok_0.0.len(),
    ensures
        0 <= i < count,
        begins(
            events[i],
            api_states(events, count)->Ok_0.0[k].id,
            api_states(events, count)->Ok_0.0[k].prompt_id,
        ),
    decreases count,
{
    let history = api_states(events, count - 1)->Ok_0;
    lemma_api_step_shape(events, history, events[count - 1]);
    let calls = api_states(events, count)->Ok_0.0;
    if k < history.0.len() {
        assert(calls[k].id == history.0[k].id && calls[k].prompt_id == history.0[k].prompt_id);
        lemma_beginning(events, count - 1, k)
    } else {
        count - 1
    }
}

/// What ends a request speaks of an earlier one.
pub proof fn lemma_ends_earlier(events: Seq<Event>, count: int, i: int, api_call: EventId)
    requires
        ids_increase(events),
        0 <= i < count <= events.len(),
        api_states(events, count) is Ok,
        closes(events[i], api_call),
    ensures
        api_call < events[i].id,
    decreases count,
{
    if i < count - 1 {
        lemma_ends_earlier(events, count - 1, i, api_call);
    } else {
        let history = api_states(events, i)->Ok_0;
        lemma_api_calls(events, i, events[i].id);
        lemma_call_place(history.0, api_call);
    }
}

/// A request that was ended has ended.
proof fn lemma_not_ended_yet(events: Seq<Event>, count: int, k: int, i: int)
    requires
        ids_increase(events),
        0 <= i < count <= events.len(),
        api_states(events, count) is Ok,
        0 <= k < api_states(events, count)->Ok_0.0.len(),
        !api_states(events, count)->Ok_0.0[k].state.terminal(),
    ensures
        !closes(events[i], api_states(events, count)->Ok_0.0[k].id),
    decreases count,
{
    let history = api_states(events, count - 1)->Ok_0;
    let event = events[count - 1];
    lemma_api_step_shape(events, history, event);
    lemma_api_calls(events, count - 1, event.id);
    let calls = api_states(events, count)->Ok_0.0;
    let id = calls[k].id;
    if k >= history.0.len() {
        if closes(events[i], id) {
            lemma_ends_earlier(events, count, i, id);
            if i < count - 1 {
                assert(events[i].id < event.id);
            }
        }
    } else {
        assert(id == history.0[k].id);
        match event.body {
            EventBody::ApiStateUpdate(update) => {
                lemma_call_place(history.0, update.api_call_id);
            },
            EventBody::AssistResponse(response) => {
                lemma_latest_call(history.0, response.prompt_id, true);
            },
            _ => {},
        }
        if i < count - 1 {
            assert(!history.0[k].state.terminal());
            lemma_not_ended_yet(events, count - 1, k, i);
        }
    }
}

/// The request that runs was begun in the log, and nothing ended it.
proof fn lemma_stands(events: Seq<Event>, attempt: Attempt, finished: bool, summary: bool)
    requires
        ids_increase(events),
        runs(events, attempt, finished, summary),
    ensures
        event_with(events, attempt.api_call_id) matches Some(found) && begins(
            found,
            attempt.api_call_id,
            attempt.prompt_id,
        ),
        forall|i: int|
            0 <= i < events.len() ==> !closes(#[trigger] events[i], attempt.api_call_id),
{
    let count = events.len() as int;
    let calls = api_states(events, count)->Ok_0.0;
    let k = calls.len() - 1;
    let api_call = attempt.api_call_id;
    let place = lemma_beginning(events, count, k);
    lemma_order_of(events, api_call);
    let order = order_of(events, api_call)->0;
    assert(order == place) by {
        if order < place {
            assert(events[order].id < events[place].id);
        } else if order > place {
            assert(events[place].id < events[order].id);
        }
    }
    assert forall|i: int| 0 <= i < count implies !closes(#[trigger] events[i], api_call) by {
        lemma_not_ended_yet(events, count, k, i);
    }
}

/// Whether the call of an event is the one that the provider knows under an identity.
pub open spec fn calls_as(event: Option<Event>, provider_call_id: Seq<char>) -> bool {
    match event {
        Some(Event { body: EventBody::ToolCall(call), .. }) => call.provider_call_id@
            == provider_call_id,
        _ => false,
    }
}

/// Whether the first tool calls of an answer stand in a log, none begun: the earlier ones, of which
/// there are `old`, are finished and belong to other requests. The identities begin with `first`.
pub open spec fn called(
    events: Seq<Event>,
    api_call: EventId,
    first: EventId,
    old: int,
    calls: Seq<CallView>,
    count: int,
) -> bool {
    &&& tool_states(events, events.len() as int) matches Ok(states)
    &&& states.len() == old + count
    &&& forall|k: int|
        0 <= k < old ==> (#[trigger] states[k]).finished && states[k].api_call_id != api_call
    &&& forall|k: int|
        old <= k < states.len() ==> !(#[trigger] states[k]).finished && !states[k].has_output
            && states[k].api_call_id == api_call && states[k].id == first + (k - old) && calls_as(
            event_with(events, states[k].id),
            calls[k - old].provider_call_id,
        )
}

/// Whether the provider tells the tool calls of an answer apart, and nothing of them is missing.
pub open spec fn well_called(calls: Seq<CallView>) -> bool {
    &&& forall|i: int|
        0 <= i < calls.len() ==> (#[trigger] calls[i]).provider_call_id.len() > 0
            && calls[i].name.len() > 0 && calls[i].arguments.len() > 0
    &&& forall|i: int, j: int|
        0 <= i < j < calls.len() ==> (#[trigger] calls[i]).provider_call_id != (
        #[trigger] calls[j]).provider_call_id
}

proof fn lemma_call_in_order(early: Seq<Event>, late: Seq<Event>, prompt: EventId, rules: LogRules)
    requires
        one_more(early, late),
        late.last().body matches EventBody::ToolCall(call) && call.prompt_id == prompt,
        !aborted(early, prompt),
    ensures
        in_order(late, early.len() as int, rules),
        !carries_on_ended(early, late.last()),
        not_of_sessions(late.last()),
        !aborted(late, prompt),
{
    reveal(in_order);
    lemma_prefix(early, late);
    let event = late.last();
    if carries_on_ended(early, event) {
        let p = choose|p: int|
            0 <= p < early.len() && ((#[trigger] early[p]).body
                matches EventBody::UserTurnAborted(abort) && carries_on(event, abort.prompt_id));
        assert(aborts(early[p], prompt));
    }
    if aborted(late, prompt) {
        let p = choose|p: int| 0 <= p < late.len() && aborts(#[trigger] late[p], prompt);
        assert(aborts(early[p], prompt));
    }
}

/// The rules of tool calls accept the next call of an answer.
proof fn lemma_call_accepted(
    early: Seq<Event>,
    late: Seq<Event>,
    attempt: Attempt,
    finished: bool,
    summary: bool,
    first: EventId,
    old: int,
    calls: Seq<CallView>,
    count: int,
)
    requires
        one_more(early, late),
        runs(early, attempt, finished, summary),
        0 <= old,
        0 <= count < calls.len(),
        well_called(calls),
        called(early, attempt.api_call_id, first, old, calls, count),
        match note_of(late.last().body) {
            Note::Called { api_call, prompt, provider_call_id, name, arguments, .. } => {
                &&& api_call == attempt.api_call_id
                &&& prompt == attempt.prompt_id
                &&& provider_call_id == calls[count].provider_call_id
                &&& name == calls[count].name
                &&& arguments == calls[count].arguments
            },
            _ => false,
        },
    ensures
        ({
            let states = tool_states(early, early.len() as int)->Ok_0;
            tool_step(late, states, late.last()) matches Ok(next) && next.len() == states.len() + 1
                && next.drop_last() == states && next.last().id == late.last().id
                && next.last().api_call_id == attempt.api_call_id && !next.last().finished
                && !next.last().has_output
        }),
{
    let api_call = attempt.api_call_id;
    let event = late.last();
    let states = tool_states(early, early.len() as int)->Ok_0;
    lemma_prefix(early, late);
    lemma_stands(early, attempt, finished, summary);
    lemma_found(early, late, api_call);
    if api_ended_before(late, api_call, event.id, None) {
        let i = choose|i: int|
            0 <= i < late.len() && ends_api_call(#[trigger] late[i], api_call, event.id, None);
        assert(closes(early[i], api_call));
    }
    assert(calls[count].provider_call_id.len() > 0);
    lemma_first_open(states, Some(api_call), true);
    assert(!batch_running(states, api_call));
    assert(first_open(states, Some(api_call), true) is None);
    if provider_call_taken(late, states, api_call, calls[count].provider_call_id) {
        let k = choose|k: int|
            0 <= k < states.len() && same_provider_call(
                late,
                #[trigger] states[k],
                api_call,
                calls[count].provider_call_id,
            );
        assert(old <= k);
        lemma_found(early, late, states[k].id);
        assert(calls[k - old].provider_call_id != calls[count].provider_call_id);
    }
    let next = tool_step(late, states, event)->Ok_0;
    assert(next.drop_last() =~= states);
}

/// A tool call of the answer is written to the log.
#[verifier::rlimit(40)]
proof fn lemma_called(
    early: Seq<Event>,
    late: Seq<Event>,
    attempt: Attempt,
    finished: bool,
    summary: bool,
    first: EventId,
    old: int,
    calls: Seq<CallView>,
    count: int,
    role: Role,
    facts: HistoryFacts,
)
    requires
        one_more(early, late),
        goes_on(early, role, facts),
        role is Main,
        runs(early, attempt, finished, summary),
        !attempt.aborted,
        0 <= old,
        0 <= count < calls.len(),
        well_called(calls),
        called(early, attempt.api_call_id, first, old, calls, count),
        late.last().id == first + count,
        match note_of(late.last().body) {
            Note::Called { api_call, prompt, provider_call_id, name, arguments, .. } => {
                &&& api_call == attempt.api_call_id
                &&& prompt == attempt.prompt_id
                &&& provider_call_id == calls[count].provider_call_id
                &&& name == calls[count].name
                &&& arguments == calls[count].arguments
            },
            _ => false,
        },
    ensures
        goes_on(late, role, facts),
        runs(late, attempt, finished, summary),
        called(late, attempt.api_call_id, first, old, calls, count + 1),
{
    lemma_call_in_order(
        early,
        late,
        attempt.prompt_id,
        rules_for(early, role),
    );
    lemma_call_accepted(early, late, attempt, finished, summary, first, old, calls, count);
    lemma_next(early, late, role, facts);
    lemma_found(early, late, attempt.prompt_id);
    let states = tool_states(early, early.len() as int)->Ok_0;
    let next = tool_states(late, late.len() as int)->Ok_0;
    lemma_prefix(early, late);
    lemma_order_of(late, late.last().id);
    let order = order_of(late, late.last().id)->0;
    assert(order == early.len()) by {
        if order < early.len() {
            assert(late[order].id < late[early.len() as int].id);
        }
    }
    assert forall|k: int| old <= k < next.len() implies calls_as(
        event_with(late, (#[trigger] next[k]).id),
        calls[k - old].provider_call_id,
    ) && !next[k].finished && !next[k].has_output && next[k].api_call_id == attempt.api_call_id
        && next[k].id == first + (k - old) by {
        if k < states.len() {
            assert(next[k] == next.drop_last()[k]);
            assert(next[k] == states[k]);
            lemma_found(early, late, states[k].id);
        }
    }
    assert forall|k: int| 0 <= k < old implies (#[trigger] next[k]).finished && next[k].api_call_id
        != attempt.api_call_id by {
        assert(next[k] == next.drop_last()[k]);
        assert(next[k] == states[k]);
    }
}

/// The first tool calls of an answer are written to the log.
proof fn lemma_all_called(
    log: Seq<Event>,
    from: int,
    attempt: Attempt,
    finished: bool,
    summary: bool,
    first: EventId,
    old: int,
    calls: Seq<CallView>,
    traits: Seq<ToolTraits>,
    count: int,
    role: Role,
    facts: HistoryFacts,
)
    requires
        ids_increase(log),
        0 < from,
        0 <= count <= calls.len(),
        from + count <= log.len() <= usize::MAX,
        goes_on(log.take(from), role, facts),
        role is Main,
        runs(log.take(from), attempt, finished, summary),
        !attempt.aborted,
        0 <= old,
        called(log.take(from), attempt.api_call_id, first, old, calls, 0),
        well_called(calls),
        forall|j: int|
            from <= j < from + count ==> note_of((#[trigger] log[j]).body) == call_notes(
                attempt,
                calls,
                traits,
            )[j - from] && log[j].id == first + (j - from),
    ensures
        goes_on(log.take(from + count), role, facts),
        runs(log.take(from + count), attempt, finished, summary),
        called(log.take(from + count), attempt.api_call_id, first, old, calls, count),
    decreases count,
{
    if count > 0 {
        lemma_all_called(
            log,
            from,
            attempt,
            finished,
            summary,
            first,
            old,
            calls,
            traits,
            count - 1,
            role,
            facts,
        );
        let place = from + count - 1;
        lemma_one_by_one(log, place);
        assert(note_of(log[place].body) == call_notes(attempt, calls, traits)[count - 1]);
        lemma_called(
            log.take(place),
            log.take(place + 1),
            attempt,
            finished,
            summary,
            first,
            old,
            calls,
            count - 1,
            role,
            facts,
        );
    }
}

/// Where the tool calls of a log stay as they are and so do the events that recorded them, those of
/// an answer stay as they are.
proof fn lemma_called_stays(
    early: Seq<Event>,
    late: Seq<Event>,
    api_call: EventId,
    first: EventId,
    old: int,
    calls: Seq<CallView>,
    count: int,
)
    requires
        continues(early, late),
        same_tools(early, late),
        0 <= old,
        called(early, api_call, first, old, calls, count),
    ensures
        called(late, api_call, first, old, calls, count),
{
    let states = tool_states(late, late.len() as int)->Ok_0;
    assert forall|k: int| old <= k < states.len() implies calls_as(
        event_with(late, (#[trigger] states[k]).id),
        calls[k - old].provider_call_id,
    ) by {
        lemma_found(early, late, states[k].id);
    }
}

/// Writing down the tool calls of a complete answer, where the provider tells them apart, and the
/// end of the request leaves the log one that the agent can go on from: the request has ended, and
/// its tool calls are the only ones that are open, in the order in which they were called.
#[verifier::rlimit(40)]
pub proof fn law_recorded_answer_keeps_the_log_supported(
    before: &EventDataBase,
    after: &EventDataBase,
    attempt: Attempt,
    calls: Seq<CallView>,
    traits: Seq<ToolTraits>,
    usage: Option<ApiUsage>,
    sum: u64,
    finished: bool,
    summary: bool,
    role: Role,
    facts: HistoryFacts,
)
    requires
        supported(before, role, facts),
        role is Main,
        runs(before@, attempt, finished, summary),
        uncalled(before@, attempt.api_call_id),
        !attempt.aborted,
        finished || summary,
        well_called(calls),
        sums_up(usage, sum),
        before.next_id + calls.len() <= u64::MAX,
        written(
            before,
            after,
            answer_notes(attempt, calls, traits, usage, before.next_id, sum),
        ),
    ensures
        goes_on(after@, role, facts),
        batch_runs(
            after@,
            attempt,
            tool_states(before@, before@.len() as int)->Ok_0.len() as int,
            Seq::new(calls.len(), |i: int| (before.next_id + i) as u64),
            0,
        ),
{
    let notes = answer_notes(attempt, calls, traits, usage, before.next_id, sum);
    let called_first = call_notes(attempt, calls, traits);
    let first = before.next_id;
    let rest = terminal_notes(
        (before.next_id + calls.len()) as u64,
        attempt.api_call_id,
        attempt.prompt_id,
        ApiState::Completed,
        usage,
        ""@,
        sum,
    );
    let log = after@;
    let start = before@.len() as int;
    let old = tool_states(before@, start)->Ok_0.len() as int;
    let from = start + calls.len();
    lemma_earlier(before, attempt, finished, summary);
    lemma_written_events(before, after, notes);
    assert forall|j: int| start <= j < from implies note_of((#[trigger] log[j]).body)
        == called_first[j - start] && log[j].id == first + (j - start) by {
        assert(notes[j - start] == called_first[j - start]);
    }
    lemma_all_called(
        log,
        start,
        attempt,
        finished,
        summary,
        first,
        old,
        calls,
        traits,
        calls.len() as int,
        role,
        facts,
    );
    assert forall|j: int| from <= j < log.len() implies note_of((#[trigger] log[j]).body) == rest[j
        - from] && attempt.api_call_id < log[j].id by {
        assert(notes[j - start] == rest[j - from]);
    }
    lemma_closed(
        log,
        from,
        attempt,
        finished,
        summary,
        ApiState::Completed,
        usage,
        ""@,
        sum,
        role,
        facts,
    );
    lemma_called_stays(
        log.take(from),
        log,
        attempt.api_call_id,
        first,
        old,
        calls,
        calls.len() as int,
    );
}

/// A request that has completed was completed by an event of the log, and no later one speaks of it.
#[verifier::rlimit(40)]
pub proof fn lemma_completion(events: Seq<Event>, count: int, k: int) -> (i: int)
    requires
        ids_increase(events),
        0 <= count <= events.len(),
        api_states(events, count) is Ok,
        0 <= k < api_states(events, count)->Ok_0.0.len(),
        api_states(events, count)->Ok_0.0[k].state == ApiState::Completed,
    ensures
        0 <= i < count,
        match events[i].body {
            EventBody::ApiStateUpdate(update) => update.api_call_id == api_states(
                events,
                count,
            )->Ok_0.0[k].id && update.state == ApiState::Completed && update.prompt_id
                == api_states(events, count)->Ok_0.0[k].prompt_id,
            _ => false,
        },
        forall|j: int|
            i < j < count ==> ((#[trigger] events[j]).body matches EventBody::ApiStateUpdate(update)
                ==> update.api_call_id != api_states(events, count)->Ok_0.0[k].id),
    decreases count,
{
    let history = api_states(events, count - 1)->Ok_0;
    let event = events[count - 1];
    lemma_api_step_shape(events, history, event);
    lemma_api_calls(events, count - 1, event.id);
    let calls = api_states(events, count)->Ok_0.0;
    match event.body {
        EventBody::ApiStateUpdate(update) => {
            lemma_call_place(history.0, update.api_call_id);
        },
        EventBody::AssistResponse(response) => {
            lemma_latest_call(history.0, response.prompt_id, true);
        },
        _ => {},
    }
    if k < history.0.len() && history.0[k].state == ApiState::Completed {
        lemma_completion(events, count - 1, k)
    } else {
        count - 1
    }
}

/// Whether the tool calls of a request that has completed are run one after the other: those with
/// these identities, of which the first `done` are finished. `old` calls of other requests stand
/// before them.
pub open spec fn batch_runs(
    events: Seq<Event>,
    attempt: Attempt,
    old: int,
    ids: Seq<EventId>,
    done: int,
) -> bool {
    &&& left(events, attempt, ApiState::Completed)
    &&& 0 <= old
    &&& 0 <= done <= ids.len()
    &&& tool_states(events, events.len() as int) matches Ok(states)
    &&& states.len() == old + ids.len()
    &&& forall|k: int| 0 <= k < states.len() ==> (#[trigger] states[k]).finished == (k < old + done)
    &&& forall|k: int|
        old <= k < states.len() ==> (#[trigger] states[k]).api_call_id == attempt.api_call_id
            && states[k].id == ids[k - old]
}

/// The next call of a batch is the one whose turn it is.
proof fn lemma_next_call(
    events: Seq<Event>,
    attempt: Attempt,
    old: int,
    ids: Seq<EventId>,
    done: int,
)
    requires
        ids_increase(events),
        events.len() <= usize::MAX,
        batch_runs(events, attempt, old, ids, done),
        done < ids.len(),
    ensures
        ({
            let states = tool_states(events, events.len() as int)->Ok_0;
            &&& call_turn(states, ids[done]) == CallTurn::Next((old + done) as usize)
            &&& old + done < states.len() <= usize::MAX
        }),
{
    let states = tool_states(events, events.len() as int)->Ok_0;
    let id = ids[done];
    let next = old + done;
    let batch = Some(attempt.api_call_id);
    lemma_states_match(events, events.len() as int);
    lemma_place_of(states, id);
    assert(states[next].id == id);
    let place = place_of(states, id)->0;
    assert(place == next);
    lemma_first_open(states, batch, false);
    assert(open_in(states[next], batch, false));
    let k = choose|k: int|
        0 <= k < states.len() && (#[trigger] states[k]).id == first_open(states, batch, false)->0
            && open_in(states[k], batch, false) && forall|l: int|
            0 <= l < k ==> !open_in(#[trigger] states[l], batch, false);
    assert(!states[k].finished);
    assert(k >= next);
    if k > next {
        assert(!open_in(states[next], batch, false));
    }
}

/// Whether a log tells of the completion of a request before an event to come.
proof fn lemma_completed_before(events: Seq<Event>, attempt: Attempt, before: EventId)
    requires
        ids_increase(events),
        left(events, attempt, ApiState::Completed),
        forall|i: int| 0 <= i < events.len() ==> (#[trigger] events[i]).id < before,
    ensures
        api_ended_before(events, attempt.api_call_id, before, Some(ApiState::Completed)),
        api_ended_before(events, attempt.api_call_id, before, None),
{
    let calls = api_states(events, events.len() as int)->Ok_0.0;
    let i = lemma_completion(events, events.len() as int, calls.len() - 1);
    assert(ends_api_call(events[i], attempt.api_call_id, before, Some(ApiState::Completed)));
    assert(ends_api_call(events[i], attempt.api_call_id, before, None));
}

/// Whether an event is output of a tool call that can be shown: a line of text or a frame.
pub open spec fn puts_out(note: Note, id: EventId) -> bool {
    match note {
        Note::Output { tool_call, content, .. } => tool_call == id && content.len() > 0
            && !content.contains('\n') && !content.contains('\r'),
        Note::Frame { tool_call, frame, .. } => tool_call == id && frame.len() > 0,
        _ => false,
    }
}

/// What a tool call puts out, and its result, are in order and leave the requests as they are.
#[verifier::rlimit(40)]
proof fn lemma_call_event(
    early: Seq<Event>,
    late: Seq<Event>,
    attempt: Attempt,
    role: Role,
    facts: HistoryFacts,
)
    requires
        one_more(early, late),
        goes_on(early, role, facts),
        role is Main,
        left(early, attempt, ApiState::Completed),
        late.last().body is ToolInfoUpdate || late.last().body is ToolCallResult,
        tool_step(late, tool_states(early, early.len() as int)->Ok_0, late.last()) is Ok,
    ensures
        goes_on(late, role, facts),
        tool_states(late, late.len() as int) == tool_step(
            late,
            tool_states(early, early.len() as int)->Ok_0,
            late.last(),
        ),
        left(late, attempt, ApiState::Completed),
{
    let prompt = attempt.prompt_id;
    lemma_found(early, late, prompt);
    assert(in_order(
        late,
        early.len() as int,
        rules_for(early, role),
    )) by {
        reveal(in_order);
    }
    lemma_same_ends(early, late, prompt);
    lemma_next(early, late, role, facts);
}

/// The rules of tool calls accept what the next call of a batch puts out.
#[verifier::rlimit(40)]
proof fn lemma_output_accepted(
    early: Seq<Event>,
    late: Seq<Event>,
    attempt: Attempt,
    old: int,
    ids: Seq<EventId>,
    done: int,
)
    requires
        one_more(early, late),
        batch_runs(early, attempt, old, ids, done),
        done < ids.len(),
        puts_out(note_of(late.last().body), ids[done]),
    ensures
        ({
            let states = tool_states(early, early.len() as int)->Ok_0;
            &&& old + done < states.len()
            &&& tool_step(late, states, late.last()) == Ok::<_, ToolHistoryError>(
                with_output(states, old + done),
            )
        }),
{
    lemma_prefix(early, late);
    lemma_next_call(early, attempt, old, ids, done);
    lemma_completed_before(early, attempt, late.last().id);
    lemma_ended_kept(
        early,
        late,
        attempt.api_call_id,
        late.last().id,
        Some(ApiState::Completed),
    );
}

/// The next call of a batch puts something out.
proof fn lemma_put_out(
    early: Seq<Event>,
    late: Seq<Event>,
    attempt: Attempt,
    old: int,
    ids: Seq<EventId>,
    done: int,
    role: Role,
    facts: HistoryFacts,
)
    requires
        one_more(early, late),
        goes_on(early, role, facts),
        role is Main,
        batch_runs(early, attempt, old, ids, done),
        done < ids.len(),
        puts_out(note_of(late.last().body), ids[done]),
    ensures
        goes_on(late, role, facts),
        batch_runs(late, attempt, old, ids, done),
{
    lemma_output_accepted(early, late, attempt, old, ids, done);
    lemma_call_event(early, late, attempt, role, facts);
}

/// Whether a tool call may end so: one that shows an image has stored it where it succeeded.
pub open spec fn may_end(events: Seq<Event>, id: EventId, state: ToolResultState) -> bool {
    ||| state != ToolResultState::Succeeded
    ||| match tool_call_with(events, id) {
        Some(call) => !call.traits.requires_image,
        None => true,
    }
    ||| match place_of(tool_states(events, events.len() as int)->Ok_0, id) {
        Some(place) => tool_states(events, events.len() as int)->Ok_0[place].has_output,
        None => true,
    }
}

/// The rules of tool calls accept the end of the next call of a batch.
#[verifier::rlimit(40)]
proof fn lemma_end_accepted(
    early: Seq<Event>,
    late: Seq<Event>,
    attempt: Attempt,
    old: int,
    ids: Seq<EventId>,
    done: int,
    end: ToolResultState,
)
    requires
        one_more(early, late),
        batch_runs(early, attempt, old, ids, done),
        done < ids.len(),
        may_end(early, ids[done], end),
        match note_of(late.last().body) {
            Note::Ended { tool_call, state, .. } => tool_call == ids[done] && state == end,
            _ => false,
        },
    ensures
        ({
            let states = tool_states(early, early.len() as int)->Ok_0;
            &&& old + done < states.len()
            &&& tool_step(late, states, late.last()) == Ok::<_, ToolHistoryError>(
                with_result(states, old + done),
            )
        }),
{
    let id = ids[done];
    lemma_prefix(early, late);
    lemma_next_call(early, attempt, old, ids, done);
    lemma_completed_before(early, attempt, late.last().id);
    lemma_ended_kept(
        early,
        late,
        attempt.api_call_id,
        late.last().id,
        Some(ApiState::Completed),
    );
    lemma_ended_kept(early, late, attempt.api_call_id, late.last().id, None);
    lemma_recorded_found(early, late, old + done);
    let states = tool_states(early, early.len() as int)->Ok_0;
    lemma_place_of(states, id);
    assert(place_of(states, id) == Some(old + done));
    assert(tool_call_with(late, id) == tool_call_with(early, id));
}

/// The next call of a batch ends.
proof fn lemma_call_ended(
    early: Seq<Event>,
    late: Seq<Event>,
    attempt: Attempt,
    old: int,
    ids: Seq<EventId>,
    done: int,
    end: ToolResultState,
    role: Role,
    facts: HistoryFacts,
)
    requires
        one_more(early, late),
        goes_on(early, role, facts),
        role is Main,
        batch_runs(early, attempt, old, ids, done),
        done < ids.len(),
        may_end(early, ids[done], end),
        match note_of(late.last().body) {
            Note::Ended { tool_call, state, .. } => tool_call == ids[done] && state == end,
            _ => false,
        },
    ensures
        goes_on(late, role, facts),
        batch_runs(late, attempt, old, ids, done + 1),
{
    lemma_end_accepted(early, late, attempt, old, ids, done, end);
    lemma_call_event(early, late, attempt, role, facts);
}

/// The event that recorded a tool call is found by its identity, before and after.
proof fn lemma_recorded_found(early: Seq<Event>, late: Seq<Event>, k: int)
    requires
        one_more(early, late),
        tool_states(early, early.len() as int) is Ok,
        0 <= k < tool_states(early, early.len() as int)->Ok_0.len(),
    ensures
        ({
            let id = tool_states(early, early.len() as int)->Ok_0[k].id;
            event_with(late, id) == event_with(early, id)
        }),
{
    let states = tool_states(early, early.len() as int)->Ok_0;
    lemma_prefix(early, late);
    lemma_states_match(early, early.len() as int);
    let i = lemma_recorder(early, early.len() as int, states[k]);
    lemma_found(early, late, states[k].id);
    lemma_order_of(early, states[k].id);
    assert(early[i].id == states[k].id);
}

proof fn lemma_all_put_out(
    log: Seq<Event>,
    from: int,
    upto: int,
    attempt: Attempt,
    old: int,
    ids: Seq<EventId>,
    done: int,
    role: Role,
    facts: HistoryFacts,
)
    requires
        ids_increase(log),
        0 < from <= upto <= log.len() <= usize::MAX,
        goes_on(log.take(from), role, facts),
        role is Main,
        batch_runs(log.take(from), attempt, old, ids, done),
        done < ids.len(),
        forall|j: int|
            from <= j < upto ==> puts_out(note_of((#[trigger] log[j]).body), ids[done]),
    ensures
        goes_on(log.take(upto), role, facts),
        batch_runs(log.take(upto), attempt, old, ids, done),
    decreases upto - from,
{
    if from < upto {
        lemma_all_put_out(
            log,
            from,
            upto - 1,
            attempt,
            old,
            ids,
            done,
            role,
            facts,
        );
        lemma_one_by_one(log, upto - 1);
        lemma_put_out(
            log.take(upto - 1),
            log.take(upto),
            attempt,
            old,
            ids,
            done,
            role,
            facts,
        );
    }
}

/// What the call whose turn it is puts out, line by line or as frames, leaves the log one that the
/// agent can go on from, and it is still the turn of the call.
pub proof fn law_output_keeps_the_log_supported(
    before: &EventDataBase,
    after: &EventDataBase,
    attempt: Attempt,
    old: int,
    ids: Seq<EventId>,
    done: int,
    notes: Seq<Note>,
    role: Role,
    facts: HistoryFacts,
)
    requires
        supported(before, role, facts),
        role is Main,
        batch_runs(before@, attempt, old, ids, done),
        done < ids.len(),
        forall|k: int| 0 <= k < notes.len() ==> puts_out(#[trigger] notes[k], ids[done]),
        written(before, after, notes),
    ensures
        goes_on(after@, role, facts),
        batch_runs(after@, attempt, old, ids, done),
{
    let start = before@.len() as int;
    lemma_written_events(before, after, notes);
    assert forall|j: int| start <= j < after@.len() implies puts_out(
        note_of((#[trigger] after@[j]).body),
        ids[done],
    ) by {
        assert(puts_out(notes[j - start], ids[done]));
    }
    lemma_all_put_out(
        after@,
        start,
        after@.len() as int,
        attempt,
        old,
        ids,
        done,
        role,
        facts,
    );
    assert(after@.take(after@.len() as int) =~= after@);
}

/// The end of the call whose turn it is leaves the log one that the agent can go on from, and it is
/// then the turn of the next one.
pub proof fn law_ended_call_keeps_the_log_supported(
    before: &EventDataBase,
    after: &EventDataBase,
    attempt: Attempt,
    old: int,
    ids: Seq<EventId>,
    done: int,
    state: ToolResultState,
    detail: Seq<char>,
    role: Role,
    facts: HistoryFacts,
)
    requires
        supported(before, role, facts),
        role is Main,
        batch_runs(before@, attempt, old, ids, done),
        done < ids.len(),
        may_end(before@, ids[done], state),
        written(before, after, seq![end_note(ids[done], state, detail)]),
    ensures
        goes_on(after@, role, facts),
        batch_runs(after@, attempt, old, ids, done + 1),
{
    lemma_written_events(before, after, seq![end_note(ids[done], state, detail)]);
    assert(note_of(after@[before@.len() as int].body) is Ended);
    lemma_call_ended(
        before@,
        after@,
        attempt,
        old,
        ids,
        done,
        state,
        role,
        facts,
    );
}

proof fn lemma_all_interrupted(
    log: Seq<Event>,
    from: int,
    count: int,
    attempt: Attempt,
    old: int,
    ids: Seq<EventId>,
    done: int,
    role: Role,
    facts: HistoryFacts,
)
    requires
        ids_increase(log),
        0 < from,
        0 <= count <= ids.len() - done,
        from + count <= log.len() <= usize::MAX,
        goes_on(log.take(from), role, facts),
        role is Main,
        batch_runs(log.take(from), attempt, old, ids, done),
        forall|j: int|
            from <= j < from + count ==> match note_of((#[trigger] log[j]).body) {
                Note::Ended { tool_call, state, .. } => tool_call == ids[done + (j - from)]
                    && state == ToolResultState::Interrupted,
                _ => false,
            },
    ensures
        goes_on(log.take(from + count), role, facts),
        batch_runs(log.take(from + count), attempt, old, ids, done + count),
    decreases count,
{
    if count > 0 {
        lemma_all_interrupted(
            log,
            from,
            count - 1,
            attempt,
            old,
            ids,
            done,
            role,
            facts,
        );
        let place = from + count - 1;
        lemma_one_by_one(log, place);
        assert(note_of(log[place].body) is Ended);
        lemma_call_ended(
            log.take(place),
            log.take(place + 1),
            attempt,
            old,
            ids,
            done + count - 1,
            ToolResultState::Interrupted,
            role,
            facts,
        );
    }
}

/// Ending the calls of a batch that do not run any more leaves the log one that the agent can go on
/// from, and all calls of the batch are then finished.
pub proof fn law_interrupted_batch_keeps_the_log_supported(
    before: &EventDataBase,
    after: &EventDataBase,
    attempt: Attempt,
    old: int,
    ids: Seq<EventId>,
    done: int,
    role: Role,
    facts: HistoryFacts,
)
    requires
        supported(before, role, facts),
        role is Main,
        batch_runs(before@, attempt, old, ids, done),
        written(before, after, interrupted_notes(ids.skip(done))),
    ensures
        goes_on(after@, role, facts),
        batch_runs(after@, attempt, old, ids, ids.len() as int),
{
    let start = before@.len() as int;
    let notes = interrupted_notes(ids.skip(done));
    lemma_written_events(before, after, notes);
    assert forall|j: int| start <= j < start + notes.len() implies match note_of(
        (#[trigger] after@[j]).body,
    ) {
        Note::Ended { tool_call, state, .. } => tool_call == ids[done + (j - start)] && state
            == ToolResultState::Interrupted,
        _ => false,
    } by {
        assert(notes[j - start] == end_note(ids[done + (j - start)], ToolResultState::Interrupted, ""@));
    }
    assert(before@ == after@.take(start));
    lemma_all_interrupted(
        after@,
        start,
        notes.len() as int,
        attempt,
        old,
        ids,
        done,
        role,
        facts,
    );
    assert(after@.take(after@.len() as int) =~= after@);
}

/// Once all calls of a batch are finished, and the user has not ended the turn, the next request can
/// be asked.
pub proof fn law_finished_batch_lets_the_next_request_begin(
    edb: &EventDataBase,
    attempt: Attempt,
    old: int,
    ids: Seq<EventId>,
)
    requires
        edb.wf(),
        batch_runs(edb@, attempt, old, ids, ids.len() as int),
        !attempt.aborted,
    ensures
        rests(edb@, attempt.prompt_id, edb.next_id, 0),
{
    lemma_api_calls(edb@, edb@.len() as int, edb.next_id);
    let calls = api_states(edb@, edb@.len() as int)->Ok_0.0;
    assert(calls[calls.len() - 1].id < edb.next_id);
    lemma_left(edb@, attempt, ApiState::Completed, edb.next_id);
}

proof fn lemma_output_lines(
    id: EventId,
    stream: ToolOutputStream,
    lines: Seq<Seq<char>>,
)
    requires
        forall|i: int|
            0 <= i < lines.len() ==> !(#[trigger] lines[i]).contains('\n') && !lines[i].contains(
                '\r',
            ),
    ensures
        forall|k: int|
            0 <= k < output_notes(id, stream, lines).len() ==> puts_out(
                #[trigger] output_notes(id, stream, lines)[k],
                id,
            ),
    decreases lines.len(),
{
    if lines.len() > 0 {
        let front = lines.drop_last();
        assert forall|i: int| 0 <= i < front.len() implies !(#[trigger] front[i]).contains('\n')
            && !front[i].contains('\r') by {
            assert(front[i] == lines[i]);
        }
        lemma_output_lines(id, stream, front);
        let before = output_notes(id, stream, front);
        let all = output_notes(id, stream, lines);
        let line = lines.last();
        assert(line == lines[lines.len() - 1]);
        assert forall|k: int| 0 <= k < all.len() implies puts_out(#[trigger] all[k], id) by {
            if k < before.len() {
                assert(all[k] == before[k]);
            } else {
                assert(!is_blank(line));
                assert(line.len() > 0);
                assert(all[k] == (Note::Output { tool_call: id, stream, content: line }));
            }
        }
    }
}

/// All that is written of a text that a tool call puts out can be shown, where the text holds no
/// carriage return.
pub proof fn law_text_output_can_be_shown(
    id: EventId,
    stream: ToolOutputStream,
    content: Seq<char>,
)
    requires
        !content.contains('\r'),
    ensures
        forall|k: int|
            0 <= k < output_notes(id, stream, lines_of(content)).len() ==> puts_out(
                #[trigger] output_notes(id, stream, lines_of(content))[k],
                id,
            ),
{
    let lines = lines_of(content);
    assert forall|i: int| 0 <= i < lines.len() implies !(#[trigger] lines[i]).contains('\n')
        && !lines[i].contains('\r') by {
        law_lines_hold_no_line_feed(content, i);
    }
    lemma_output_lines(id, stream, lines);
}

} // verus!
