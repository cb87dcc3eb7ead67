//! What the tries of a request leave of a log.
use vstd::prelude::*;

use crate::api_calls::{
    api_states, api_step, due_retry, latest_call, lemma_api_calls, lemma_call_place, open_compact,
    valid_prompt, ApiCallState,
};
use crate::buffers::{complete_lines, AssistView, ChunkView, MainView};
use crate::event::{
    ids_increase, lemma_order_of, order_of, ApiState, ApiUsage, Event, EventBody, EventDataBase,
    EventId,
};
use crate::input_queue::OrchestratorInputQueue;
use crate::json::JsonView;
use crate::later::{
    carries_on_ended, continues, in_order, lemma_compacts_untouched, lemma_found,
    lemma_grown_continues, lemma_prefix, lemma_chat_rules_kept, lemma_requests_kept,
    lemma_rules_kept, lemma_sessions_untouched, lemma_tools_kept, not_of_sessions, LogRules,
};
use crate::notes::{note_of, plain_request, written, Note};
use crate::request::{
    abort_due, abort_notes, aborted_notes, after_failure, attempt_end, chunk_notes, ended,
    failure_notes, item_notes, line_notes, line_taken, retryable, streaming_notes, terminal_notes,
    AnswerView, Attempt, AttemptEnd, API_RETRY_LIMIT,
};
use crate::startup::{lemma_called_by_request, starts_request};
use crate::stream::{stream_event, StreamView};
use crate::support::{chats, HistoryFacts};
use crate::text::line_end;
use crate::tool_calls::{first_open, lemma_first_open, tool_states, tool_step};
use crate::turns::{aborted, aborts, carries_on};
use crate::upkeep::{
    goes_on, lemma_estimates_are_old, lemma_not_ended, lemma_ruled, rules_for, supported, Role,
};
use crate::validate::estimates;

verus! {

/// The number of the try and the limit of tries that a request carries.
pub open spec fn tried(retry_count: u8) -> (u8, u8) {
    if retry_count == 0 {
        (0, 0)
    } else {
        (retry_count, API_RETRY_LIMIT)
    }
}

/// Whether all tool calls of a log are finished.
pub open spec fn tools_rest(events: Seq<Event>) -> bool {
    tool_states(events, events.len() as int) matches Ok(calls) && forall|k: int|
        0 <= k < calls.len() ==> (#[trigger] calls[k]).finished
}

/// Whether all tool calls of a log are finished and none belongs to the request.
pub open spec fn uncalled(events: Seq<Event>, api_call: EventId) -> bool {
    tool_states(events, events.len() as int) matches Ok(calls) && forall|k: int|
        0 <= k < calls.len() ==> (#[trigger] calls[k]).finished && calls[k].api_call_id != api_call
}

/// Whether the tool calls of a log are those of an earlier one, as they were.
pub open spec fn same_tools(early: Seq<Event>, late: Seq<Event>) -> bool {
    tool_states(late, late.len() as int) == tool_states(early, early.len() as int)
}

/// Whether a request of a turn can be tried for the time that `retry_count` says: no request runs,
/// no tool call is open, and after a failure the further try was announced.
pub open spec fn rests(events: Seq<Event>, prompt: EventId, next: EventId, retry_count: u8) -> bool {
    &&& valid_prompt(events, prompt, next)
    &&& !aborted(events, prompt)
    &&& tools_rest(events)
    &&& api_states(events, events.len() as int) matches Ok(history)
    &&& forall|k: int| 0 <= k < history.0.len() ==> (#[trigger] history.0[k]).state.terminal()
    &&& due_retry(history, prompt) == tried(retry_count)
    &&& retry_count == 0 ==> match latest_call(history.0, prompt, false) {
        Some(place) => history.0[place].state != ApiState::Error,
        None => true,
    }
}

/// How the request of a try stands in a log. `finished` says whether its answer is complete,
/// `summary` whether it asks for a summary.
pub open spec fn standing(attempt: Attempt, finished: bool, summary: bool) -> ApiCallState {
    ApiCallState {
        id: attempt.api_call_id,
        prompt_id: attempt.prompt_id,
        state: if attempt.streaming {
            ApiState::Streaming
        } else {
            ApiState::Requesting
        },
        response_finished: finished,
        retry_count: tried(attempt.retry_count).0,
        retry_limit: tried(attempt.retry_count).1,
        compact_summary: summary,
    }
}

/// Whether the request of a try is the one that runs.
pub open spec fn runs(events: Seq<Event>, attempt: Attempt, finished: bool, summary: bool) -> bool {
    &&& valid_prompt(events, attempt.prompt_id, attempt.api_call_id)
    &&& aborted(events, attempt.prompt_id) == attempt.aborted
    &&& tool_states(events, events.len() as int) is Ok
    &&& api_states(events, events.len() as int) matches Ok(history)
    &&& history.0.len() > 0
    &&& history.0.last() == standing(attempt, finished, summary)
    &&& forall|k: int|
        0 <= k < history.0.len() - 1 ==> (#[trigger] history.0[k]).state.terminal()
    &&& !history.1.dom().contains(attempt.prompt_id)
}

/// Whether a log is another with one event added.
pub open spec fn one_more(early: Seq<Event>, late: Seq<Event>) -> bool {
    &&& continues(early, late)
    &&& late.len() == early.len() + 1
    &&& 0 < early.len() <= usize::MAX
}

/// Whether an event is a part of the request of a turn.
pub open spec fn of_request(event: Event, prompt: EventId) -> bool {
    match event.body {
        EventBody::AssistResponse(response) => response.prompt_id == prompt,
        EventBody::ModelContextItem(item) => item.prompt_id == prompt,
        EventBody::ApiStateUpdate(update) => update.prompt_id == prompt,
        _ => false,
    }
}

/// Whether an event is the interruption of a request.
pub open spec fn interrupts(event: Event) -> bool {
    event.body matches EventBody::ApiStateUpdate(update) && update.state == ApiState::Interrupted
}

proof fn lemma_part_in_order(
    early: Seq<Event>,
    late: Seq<Event>,
    prompt: EventId,
    rules: LogRules,
)
    requires
        one_more(early, late),
        of_request(late.last(), prompt),
        !aborted(early, prompt) || interrupts(late.last()),
    ensures
        in_order(late, early.len() as int, rules),
        !carries_on_ended(early, late.last()),
        not_of_sessions(late.last()),
        chats(late.last().kind_of()),
        aborted(late, prompt) == aborted(early, prompt),
        forall|id: EventId|
            valid_prompt(early, prompt, id) ==> #[trigger] valid_prompt(late, prompt, id),
{
    reveal(in_order);
    lemma_prefix(early, late);
    lemma_found(early, late, prompt);
    let event = late.last();
    if carries_on_ended(early, event) {
        let p = choose|p: int|
            0 <= p < early.len() && ((#[trigger] early[p]).body
                matches EventBody::UserTurnAborted(abort) && carries_on(event, abort.prompt_id));
        assert(aborts(early[p], prompt));
    }
    if aborted(late, prompt) {
        let p = choose|p: int| 0 <= p < late.len() && aborts(#[trigger] late[p], prompt);
        assert(aborts(early[p], prompt));
    }
    if aborted(early, prompt) {
        let p = choose|p: int| 0 <= p < early.len() && aborts(#[trigger] early[p], prompt);
        assert(aborts(late[p], prompt));
    }
}

/// An event that the rules of requests and of tool calls accept, and that is in order, leaves a log
/// one that the agent can go on from.
pub proof fn lemma_next(
    early: Seq<Event>,
    late: Seq<Event>,
    role: Role,
    facts: HistoryFacts,
)
    requires
        one_more(early, late),
        goes_on(early, role, facts),
        in_order(late, early.len() as int, rules_for(early, role)),
        !carries_on_ended(early, late.last()),
        !(late.last().body is CompactStateUpdate),
        not_of_sessions(late.last()),
        role.knows(late.last()),
        tool_states(early, early.len() as int) is Ok,
        api_step(late, api_states(early, early.len() as int)->Ok_0, late.last()) is Ok,
        tool_step(late, tool_states(early, early.len() as int)->Ok_0, late.last()) is Ok,
    ensures
        goes_on(late, role, facts),
        api_states(late, late.len() as int) == api_step(
            late,
            api_states(early, early.len() as int)->Ok_0,
            late.last(),
        ),
        tool_states(late, late.len() as int) == tool_step(
            late,
            tool_states(early, early.len() as int)->Ok_0,
            late.last(),
        ),
{
    reveal(goes_on);
    let count = early.len() as int;
    lemma_requests_kept(early, late, count);
    lemma_tools_kept(early, late, count);
    match role {
        Role::Main { profile, has_parent_prompt } => {
            lemma_compacts_untouched(early, late, count + 1);
            lemma_sessions_untouched(early, late, count + 1);
            lemma_rules_kept(early, late, profile, has_parent_prompt, facts);
        },
        Role::Chat => {
            lemma_chat_rules_kept(early, late, facts);
        },
    }
}

/// A part of a request that the rules of requests accept leaves a log one that the agent can go on
/// from.
proof fn lemma_part(
    early: Seq<Event>,
    late: Seq<Event>,
    prompt: EventId,
    role: Role,
    facts: HistoryFacts,
)
    requires
        one_more(early, late),
        goes_on(early, role, facts),
        of_request(late.last(), prompt),
        !aborted(early, prompt) || interrupts(late.last()),
        tool_states(early, early.len() as int) is Ok,
        starts_request(late.last()) ==> tools_rest(early),
        api_step(late, api_states(early, early.len() as int)->Ok_0, late.last()) is Ok,
    ensures
        goes_on(late, role, facts),
        api_states(late, late.len() as int) == api_step(
            late,
            api_states(early, early.len() as int)->Ok_0,
            late.last(),
        ),
        same_tools(early, late),
        aborted(late, prompt) == aborted(early, prompt),
        forall|id: EventId|
            valid_prompt(early, prompt, id) ==> #[trigger] valid_prompt(late, prompt, id),
{
    lemma_part_in_order(early, late, prompt, rules_for(early, role));
    if starts_request(late.last()) {
        let calls = tool_states(early, early.len() as int)->Ok_0;
        lemma_first_open(calls, None, false);
        assert(first_open(calls, None, false) is None);
    }
    lemma_next(early, late, role, facts);
}

/// A request that can be tried runs once it has begun.
proof fn lemma_begun(
    early: Seq<Event>,
    late: Seq<Event>,
    prompt: EventId,
    retry_count: u8,
    role: Role,
    facts: HistoryFacts,
)
    requires
        one_more(early, late),
        goes_on(early, role, facts),
        rests(early, prompt, late.last().id, retry_count),
        note_of(late.last().body) == plain_request(
            late.last().id,
            prompt,
            ApiState::Requesting,
            None,
            ""@,
        ),
    ensures
        goes_on(late, role, facts),
        same_tools(early, late),
        runs(
            late,
            Attempt {
                prompt_id: prompt,
                api_call_id: late.last().id,
                retry_count,
                streaming: false,
                aborted: false,
            },
            false,
            open_compact(late, 0, late.last().id, None) == Some(prompt),
        ),
{
    let id = late.last().id;
    lemma_prefix(early, late);
    lemma_found(early, late, prompt);
    let history = api_states(early, early.len() as int)->Ok_0;
    lemma_api_calls(early, early.len() as int, id);
    lemma_call_place(history.0, id);
    lemma_part(early, late, prompt, role, facts);
}

/// The first line of an answer comes.
proof fn lemma_streams(
    early: Seq<Event>,
    late: Seq<Event>,
    attempt: Attempt,
    finished: bool,
    summary: bool,
    role: Role,
    facts: HistoryFacts,
)
    requires
        one_more(early, late),
        goes_on(early, role, facts),
        runs(early, attempt, finished, summary),
        !attempt.streaming,
        !attempt.aborted,
        note_of(late.last().body) == plain_request(
            attempt.api_call_id,
            attempt.prompt_id,
            ApiState::Streaming,
            None,
            ""@,
        ),
        attempt.api_call_id < late.last().id,
    ensures
        goes_on(late, role, facts),
        same_tools(early, late),
        runs(late, Attempt { streaming: true, ..attempt }, finished, summary),
{
    lemma_found(early, late, attempt.prompt_id);
    lemma_part(early, late, attempt.prompt_id, role, facts);
}

/// An item that the provider wants back comes.
proof fn lemma_item(
    early: Seq<Event>,
    late: Seq<Event>,
    attempt: Attempt,
    finished: bool,
    summary: bool,
    role: Role,
    facts: HistoryFacts,
)
    requires
        one_more(early, late),
        goes_on(early, role, facts),
        runs(early, attempt, finished, summary),
        attempt.streaming,
        !attempt.aborted,
        match note_of(late.last().body) {
            Note::Item { api_call, prompt, .. } => api_call == attempt.api_call_id && prompt
                == attempt.prompt_id,
            _ => false,
        },
    ensures
        goes_on(late, role, facts),
        same_tools(early, late),
        runs(late, attempt, finished, summary),
{
    lemma_part(early, late, attempt.prompt_id, role, facts);
}

/// A piece of the answer comes.
proof fn lemma_said(
    early: Seq<Event>,
    late: Seq<Event>,
    attempt: Attempt,
    summary: bool,
    last: bool,
    role: Role,
    facts: HistoryFacts,
)
    requires
        one_more(early, late),
        goes_on(early, role, facts),
        runs(early, attempt, false, summary),
        attempt.streaming,
        !attempt.aborted,
        match note_of(late.last().body) {
            Note::Said { prompt, finished, .. } => prompt == attempt.prompt_id && finished == last,
            _ => false,
        },
    ensures
        goes_on(late, role, facts),
        same_tools(early, late),
        runs(late, attempt, last, summary),
{
    lemma_part(early, late, attempt.prompt_id, role, facts);
}

/// Whether no request of a log runs and the one of this try was the latest: it ended in this way.
pub open spec fn left(events: Seq<Event>, attempt: Attempt, state: ApiState) -> bool {
    &&& valid_prompt(events, attempt.prompt_id, attempt.api_call_id)
    &&& aborted(events, attempt.prompt_id) == attempt.aborted
    &&& tool_states(events, events.len() as int) is Ok
    &&& state.terminal()
    &&& api_states(events, events.len() as int) matches Ok(history)
    &&& history.0.len() > 0
    &&& history.0.last().id == attempt.api_call_id
    &&& history.0.last().prompt_id == attempt.prompt_id
    &&& history.0.last().state == state
    &&& history.0.last().retry_count == tried(attempt.retry_count).0
    &&& history.0.last().retry_limit == tried(attempt.retry_count).1
    &&& forall|k: int|
        0 <= k < history.0.len() - 1 ==> (#[trigger] history.0[k]).state.terminal()
    &&& !history.1.dom().contains(attempt.prompt_id)
}

/// The request ends.
proof fn lemma_ends(
    early: Seq<Event>,
    late: Seq<Event>,
    attempt: Attempt,
    finished: bool,
    summary: bool,
    end: ApiState,
    role: Role,
    facts: HistoryFacts,
)
    requires
        one_more(early, late),
        goes_on(early, role, facts),
        runs(early, attempt, finished, summary),
        end.terminal(),
        end == ApiState::Completed ==> finished || summary,
        attempt.aborted ==> end == ApiState::Interrupted,
        match note_of(late.last().body) {
            Note::Request { api_call, prompt, state, .. } => api_call == attempt.api_call_id
                && prompt == attempt.prompt_id && state == end,
            _ => false,
        },
        attempt.api_call_id < late.last().id,
    ensures
        goes_on(late, role, facts),
        same_tools(early, late),
        left(late, attempt, end),
{
    lemma_found(early, late, attempt.prompt_id);
    lemma_part(early, late, attempt.prompt_id, role, facts);
}

/// A request that failed is given up.
proof fn lemma_given_up(
    early: Seq<Event>,
    late: Seq<Event>,
    attempt: Attempt,
    role: Role,
    facts: HistoryFacts,
)
    requires
        one_more(early, late),
        goes_on(early, role, facts),
        left(early, attempt, ApiState::Error),
        match note_of(late.last().body) {
            Note::Request { api_call, prompt, state, .. } => api_call == attempt.api_call_id
                && prompt == attempt.prompt_id && state == ApiState::Interrupted,
            _ => false,
        },
        attempt.api_call_id < late.last().id,
    ensures
        goes_on(late, role, facts),
        same_tools(early, late),
        left(late, attempt, ApiState::Interrupted),
{
    lemma_found(early, late, attempt.prompt_id);
    lemma_part(early, late, attempt.prompt_id, role, facts);
}

/// A further try of a request that failed is announced.
proof fn lemma_announced(
    early: Seq<Event>,
    late: Seq<Event>,
    attempt: Attempt,
    next: EventId,
    role: Role,
    facts: HistoryFacts,
)
    requires
        one_more(early, late),
        goes_on(early, role, facts),
        left(early, attempt, ApiState::Error),
        tools_rest(early),
        !attempt.aborted,
        attempt.retry_count < API_RETRY_LIMIT,
        match note_of(late.last().body) {
            Note::Request { api_call, prompt, state, retry_count, retry_limit, .. } => {
                &&& api_call == attempt.api_call_id
                &&& prompt == attempt.prompt_id
                &&& state == ApiState::Retrying
                &&& retry_count == attempt.retry_count + 1
                &&& retry_limit == API_RETRY_LIMIT
            },
            _ => false,
        },
        attempt.api_call_id < late.last().id < next,
    ensures
        goes_on(late, role, facts),
        rests(late, attempt.prompt_id, next, (attempt.retry_count + 1) as u8),
{
    lemma_found(early, late, attempt.prompt_id);
    lemma_part(early, late, attempt.prompt_id, role, facts);
}

/// Where the last request of a turn has ended in order, or was given up, another can be asked.
pub proof fn lemma_left(events: Seq<Event>, attempt: Attempt, state: ApiState, next: EventId)
    requires
        left(events, attempt, state),
        tools_rest(events),
        state != ApiState::Error,
        !attempt.aborted,
        attempt.api_call_id < next,
    ensures
        rests(events, attempt.prompt_id, next, 0),
{
}

/// What is said beside the requests, the tool calls and the compactions leaves them as they are.
proof fn lemma_beside(
    early: Seq<Event>,
    late: Seq<Event>,
    role: Role,
    facts: HistoryFacts,
)
    requires
        one_more(early, late),
        goes_on(early, role, facts),
        in_order(late, early.len() as int, rules_for(early, role)),
        !carries_on_ended(early, late.last()),
        late.last().body is UserTurnAborted || late.last().body is ContextUsageEstimate,
        api_states(early, early.len() as int) is Ok,
        tool_states(early, early.len() as int) is Ok,
    ensures
        goes_on(late, role, facts),
        api_states(late, late.len() as int) == api_states(early, early.len() as int),
        same_tools(early, late),
{
    lemma_next(early, late, role, facts);
}

/// The user ends the turn of a request that runs.
proof fn lemma_turn_ended(
    early: Seq<Event>,
    late: Seq<Event>,
    attempt: Attempt,
    finished: bool,
    summary: bool,
    role: Role,
    facts: HistoryFacts,
)
    requires
        one_more(early, late),
        goes_on(early, role, facts),
        runs(early, attempt, finished, summary),
        !attempt.aborted,
        note_of(late.last().body) == (Note::Aborted { prompt: attempt.prompt_id }),
        attempt.api_call_id < late.last().id,
    ensures
        goes_on(late, role, facts),
        same_tools(early, late),
        runs(late, Attempt { aborted: true, ..attempt }, finished, summary),
{
    let prompt = attempt.prompt_id;
    lemma_found(early, late, prompt);
    lemma_ruled(late, early.len() as int, rules_for(early, role));
    lemma_not_ended(early, late.last(), prompt);
    lemma_beside(early, late, role, facts);
    assert(aborts(late[early.len() as int], prompt));
}

/// Whether an event is the end of a request that reports so many tokens.
pub open spec fn ends_with(event: Event, sum: u64) -> bool {
    match event.body {
        EventBody::ApiStateUpdate(update) => {
            &&& update.state == ApiState::Completed || update.state == ApiState::Interrupted
            &&& match update.usage {
                Some(usage) => usage.total_tokens == sum,
                None => false,
            }
        },
        _ => false,
    }
}

/// The tokens of the request that has just ended are divided.
proof fn lemma_divided(
    early: Seq<Event>,
    late: Seq<Event>,
    attempt: Attempt,
    state: ApiState,
    sum: u64,
    role: Role,
    facts: HistoryFacts,
)
    requires
        one_more(early, late),
        goes_on(early, role, facts),
        left(early, attempt, state),
        ends_with(early.last(), sum),
        note_of(late.last().body) == (Note::Estimate { api_state: early.last().id, sum }),
    ensures
        goes_on(late, role, facts),
        same_tools(early, late),
        left(late, attempt, state),
{
    let end = early.last().id;
    let place = early.len() as int;
    lemma_prefix(early, late);
    lemma_found(early, late, attempt.prompt_id);
    lemma_order_of(late, end);
    assert(late[place - 1] == early.last());
    let order = order_of(late, end)->0;
    assert(order == place - 1) by {
        if order < place - 1 {
            assert(late[order].id < late[place - 1].id);
        } else if order > place - 1 {
            assert(late[place - 1].id < late[order].id);
        }
    }
    assert forall|i: int| 0 <= i < place implies !estimates(#[trigger] late[i], end) by {
        assert(late[i] == early[i]);
        if estimates(early[i], end) {
            lemma_estimates_are_old(early, i, end, role, facts);
            if i < place - 1 {
                assert(early[i].id < early[place - 1].id);
            }
        }
    }
    lemma_ruled(late, place, rules_for(early, role));
    lemma_same_ends(early, late, attempt.prompt_id);
    lemma_beside(early, late, role, facts);
}

/// What ends no turn leaves those that were ended, and carries none on.
pub proof fn lemma_same_ends(early: Seq<Event>, late: Seq<Event>, prompt: EventId)
    requires
        one_more(early, late),
        match late.last().body {
            EventBody::ContextUsageEstimate(_) => true,
            EventBody::ToolInfoUpdate(_) => true,
            EventBody::ToolCallResult(_) => true,
            EventBody::CompactStateUpdate(_) => true,
            _ => false,
        },
    ensures
        aborted(late, prompt) == aborted(early, prompt),
        !carries_on_ended(early, late.last()),
{
    lemma_prefix(early, late);
    if aborted(late, prompt) {
        let p = choose|p: int| 0 <= p < late.len() && aborts(#[trigger] late[p], prompt);
        assert(aborts(early[p], prompt));
    }
    if aborted(early, prompt) {
        let p = choose|p: int| 0 <= p < early.len() && aborts(#[trigger] early[p], prompt);
        assert(aborts(late[p], prompt));
    }
}

/// A log is its first events and one more, again and again.
pub proof fn lemma_one_by_one(log: Seq<Event>, place: int)
    requires
        ids_increase(log),
        0 < place < log.len() <= usize::MAX,
    ensures
        one_more(log.take(place), log.take(place + 1)),
        log.take(place + 1).last() == log[place],
{
    assert(log.take(place + 1).take(place) =~= log.take(place));
}

/// Whether the pieces of an answer can follow when it is complete already or not: nothing follows
/// the last piece.
pub open spec fn in_flow(finished: bool, chunks: Seq<ChunkView>) -> bool {
    ||| chunks.len() == 0
    ||| !finished && (chunks.len() == 1 || forall|i: int|
        0 <= i < chunks.len() ==> !(#[trigger] chunks[i]).finished)
}

/// Whether an answer is complete once the pieces have come.
pub open spec fn after_flow(finished: bool, chunks: Seq<ChunkView>) -> bool {
    finished || (chunks.len() == 1 && chunks[0].finished)
}

proof fn lemma_items(
    log: Seq<Event>,
    from: int,
    upto: int,
    attempt: Attempt,
    finished: bool,
    summary: bool,
    role: Role,
    facts: HistoryFacts,
)
    requires
        ids_increase(log),
        0 < from <= upto <= log.len() <= usize::MAX,
        goes_on(log.take(from), role, facts),
        runs(log.take(from), attempt, finished, summary),
        attempt.streaming,
        !attempt.aborted,
        forall|j: int|
            from <= j < upto ==> match note_of((#[trigger] log[j]).body) {
                Note::Item { api_call, prompt, .. } => api_call == attempt.api_call_id && prompt
                    == attempt.prompt_id,
                _ => false,
            },
    ensures
        goes_on(log.take(upto), role, facts),
        same_tools(log.take(from), log.take(upto)),
        runs(log.take(upto), attempt, finished, summary),
    decreases upto - from,
{
    if from < upto {
        lemma_items(
            log,
            from,
            upto - 1,
            attempt,
            finished,
            summary,
            role,
            facts,
        );
        lemma_one_by_one(log, upto - 1);
        lemma_item(
            log.take(upto - 1),
            log.take(upto),
            attempt,
            finished,
            summary,
            role,
            facts,
        );
    }
}

proof fn lemma_pieces(
    log: Seq<Event>,
    from: int,
    upto: int,
    attempt: Attempt,
    summary: bool,
    role: Role,
    facts: HistoryFacts,
)
    requires
        ids_increase(log),
        0 < from <= upto <= log.len() <= usize::MAX,
        goes_on(log.take(from), role, facts),
        runs(log.take(from), attempt, false, summary),
        attempt.streaming,
        !attempt.aborted,
        forall|j: int|
            from <= j < upto ==> match note_of((#[trigger] log[j]).body) {
                Note::Said { prompt, finished, .. } => prompt == attempt.prompt_id && !finished,
                _ => false,
            },
    ensures
        goes_on(log.take(upto), role, facts),
        same_tools(log.take(from), log.take(upto)),
        runs(log.take(upto), attempt, false, summary),
    decreases upto - from,
{
    if from < upto {
        lemma_pieces(
            log,
            from,
            upto - 1,
            attempt,
            summary,
            role,
            facts,
        );
        lemma_one_by_one(log, upto - 1);
        lemma_said(
            log.take(upto - 1),
            log.take(upto),
            attempt,
            summary,
            false,
            role,
            facts,
        );
    }
}

/// What a line gives out is written to the log.
#[verifier::rlimit(40)]
proof fn lemma_line(
    log: Seq<Event>,
    from: int,
    attempt: Attempt,
    finished: bool,
    summary: bool,
    items: Seq<(Seq<char>, JsonView)>,
    chunks: Seq<ChunkView>,
    role: Role,
    facts: HistoryFacts,
)
    requires
        ids_increase(log),
        0 < from,
        ({
            let notes = line_notes(attempt, items, Ok(chunks));
            &&& from + notes.len() <= log.len() <= usize::MAX
            &&& forall|j: int|
                from <= j < from + notes.len() ==> note_of((#[trigger] log[j]).body) == notes[j
                    - from] && attempt.api_call_id < log[j].id
        }),
        goes_on(log.take(from), role, facts),
        runs(log.take(from), attempt, finished, summary),
        !attempt.aborted,
        in_flow(finished, chunks),
    ensures
        ({
            let upto = from + line_notes(attempt, items, Ok(chunks)).len();
            &&& goes_on(log.take(upto), role, facts)
            &&& same_tools(log.take(from), log.take(upto))
            &&& runs(
                log.take(upto),
                Attempt { streaming: true, ..attempt },
                after_flow(finished, chunks),
                summary,
            )
        }),
{
    let streaming = Attempt { streaming: true, ..attempt };
    let start = streaming_notes(attempt);
    let back = item_notes(attempt, items);
    let said = chunk_notes(attempt.prompt_id, chunks);
    let notes = line_notes(attempt, items, Ok(chunks));
    assert(notes == start + back + said);
    let first = from + start.len();
    if !attempt.streaming {
        lemma_one_by_one(log, from);
        assert(note_of(log[from].body) == notes[0]);
        lemma_streams(
            log.take(from),
            log.take(first),
            attempt,
            finished,
            summary,
            role,
            facts,
        );
    }
    let second = first + back.len();
    assert forall|j: int| first <= j < second implies match note_of((#[trigger] log[j]).body) {
        Note::Item { api_call, prompt, .. } => api_call == attempt.api_call_id && prompt
            == attempt.prompt_id,
        _ => false,
    } by {
        assert(notes[j - from] == back[j - first]);
    }
    lemma_items(
        log,
        first,
        second,
        streaming,
        finished,
        summary,
        role,
        facts,
    );
    let last = second + said.len();
    assert forall|j: int| second <= j < last implies note_of((#[trigger] log[j]).body) == said[j
        - second] by {
        assert(notes[j - from] == said[j - second]);
    }
    if chunks.len() == 1 {
        lemma_one_by_one(log, second);
        assert(note_of(log[second].body) == said[0]);
        lemma_said(
            log.take(second),
            log.take(last),
            streaming,
            summary,
            chunks[0].finished,
            role,
            facts,
        );
    } else if chunks.len() > 0 {
        assert forall|j: int| second <= j < last implies match note_of((#[trigger] log[j]).body) {
            Note::Said { prompt, finished, .. } => prompt == attempt.prompt_id && !finished,
            _ => false,
        } by {
            assert(!chunks[j - second].finished);
        }
        lemma_pieces(
            log,
            second,
            last,
            streaming,
            summary,
            role,
            facts,
        );
    }
}

/// A failure is written to the log.
proof fn lemma_failed(
    log: Seq<Event>,
    from: int,
    attempt: Attempt,
    finished: bool,
    summary: bool,
    usage: Option<ApiUsage>,
    error: Seq<char>,
    again: bool,
    next: EventId,
    role: Role,
    facts: HistoryFacts,
)
    requires
        ids_increase(log),
        0 < from,
        from + 2 == log.len() <= usize::MAX,
        ({
            let notes = failure_notes(
                attempt.api_call_id,
                attempt.prompt_id,
                attempt.retry_count,
                usage,
                error,
                again,
            );
            forall|j: int|
                from <= j < from + 2 ==> note_of((#[trigger] log[j]).body) == notes[j - from]
                    && attempt.api_call_id < log[j].id < next
        }),
        goes_on(log.take(from), role, facts),
        runs(log.take(from), attempt, finished, summary),
        tools_rest(log.take(from)),
        !attempt.aborted,
    ensures
        goes_on(log, role, facts),
        if again && attempt.retry_count < API_RETRY_LIMIT {
            rests(log, attempt.prompt_id, next, (attempt.retry_count + 1) as u8)
        } else {
            rests(log, attempt.prompt_id, next, 0)
        },
{
    lemma_one_by_one(log, from);
    lemma_one_by_one(log, from + 1);
    assert(log.take(from + 2) =~= log);
    assert(note_of(log[from].body) is Request);
    assert(note_of(log[from + 1].body) is Request);
    lemma_ends(
        log.take(from),
        log.take(from + 1),
        attempt,
        finished,
        summary,
        ApiState::Error,
        role,
        facts,
    );
    if again && attempt.retry_count < API_RETRY_LIMIT {
        lemma_announced(
            log.take(from + 1),
            log,
            attempt,
            next,
            role,
            facts,
        );
    } else {
        lemma_given_up(log.take(from + 1), log, attempt, role, facts);
        lemma_left(log, attempt, ApiState::Interrupted, next);
    }
}

/// The end of a request, and how its tokens divide, are written to the log.
pub proof fn lemma_closed(
    log: Seq<Event>,
    from: int,
    attempt: Attempt,
    finished: bool,
    summary: bool,
    end: ApiState,
    usage: Option<ApiUsage>,
    detail: Seq<char>,
    sum: u64,
    role: Role,
    facts: HistoryFacts,
)
    requires
        ids_increase(log),
        0 < from < log.len(),
        ({
            let notes = terminal_notes(
                log[from].id,
                attempt.api_call_id,
                attempt.prompt_id,
                end,
                usage,
                detail,
                sum,
            );
            &&& from + notes.len() == log.len() <= usize::MAX
            &&& forall|j: int|
                from <= j < log.len() ==> note_of((#[trigger] log[j]).body) == notes[j - from]
                    && attempt.api_call_id < log[j].id
        }),
        match usage {
            Some(tokens) => tokens.total_tokens == sum,
            None => true,
        },
        end == ApiState::Completed || end == ApiState::Interrupted,
        end == ApiState::Completed ==> finished || summary,
        attempt.aborted ==> end == ApiState::Interrupted,
        goes_on(log.take(from), role, facts),
        runs(log.take(from), attempt, finished, summary),
    ensures
        goes_on(log, role, facts),
        same_tools(log.take(from), log),
        left(log, attempt, end),
{
    lemma_one_by_one(log, from);
    assert(note_of(log[from].body) is Request);
    lemma_ends(
        log.take(from),
        log.take(from + 1),
        attempt,
        finished,
        summary,
        end,
        role,
        facts,
    );
    if usage is Some {
        lemma_one_by_one(log, from + 1);
        assert(log.take(from + 2) =~= log);
        assert(note_of(log[from + 1].body) is Estimate);
        lemma_divided(
            log.take(from + 1),
            log,
            attempt,
            end,
            sum,
            role,
            facts,
        );
    } else {
        assert(log.take(from + 1) =~= log);
    }
}

/// The requests that called tools have identities of the log.
proof fn lemma_called_earlier(edb: &EventDataBase)
    requires
        edb.wf(),
        edb@.len() <= usize::MAX,
        tool_states(edb@, edb@.len() as int) is Ok,
    ensures
        forall|k: int|
            0 <= k < tool_states(edb@, edb@.len() as int)->Ok_0.len() ==> (
            #[trigger] tool_states(edb@, edb@.len() as int)->Ok_0[k]).api_call_id < edb.next_id,
{
    let calls = tool_states(edb@, edb@.len() as int)->Ok_0;
    lemma_called_by_request(edb@, edb@.len() as int);
    assert forall|k: int| 0 <= k < calls.len() implies (#[trigger] calls[k]).api_call_id
        < edb.next_id by {
        lemma_order_of(edb@, calls[k].api_call_id);
        assert(edb@[order_of(edb@, calls[k].api_call_id)->0].id == calls[k].api_call_id);
    }
}

/// Beginning a request, where it can be tried, leaves the log one that the agent can go on from,
/// and the request is then the one that runs.
pub proof fn law_begun_request_runs(
    before: &EventDataBase,
    after: &EventDataBase,
    prompt: EventId,
    retry_count: u8,
    role: Role,
    facts: HistoryFacts,
)
    requires
        supported(before, role, facts),
        rests(before@, prompt, before.next_id, retry_count),
        written(
            before,
            after,
            seq![plain_request(before.next_id, prompt, ApiState::Requesting, None, ""@)],
        ),
    ensures
        goes_on(after@, role, facts),
        uncalled(after@, before.next_id),
        runs(
            after@,
            Attempt {
                prompt_id: prompt,
                api_call_id: before.next_id,
                retry_count,
                streaming: false,
                aborted: false,
            },
            false,
            open_compact(after@, 0, before.next_id, None) == Some(prompt),
        ),
{
    lemma_grown_continues(before, after, 1);
    assert(note_of(after.added(before, 0)) == plain_request(
        before.next_id,
        prompt,
        ApiState::Requesting,
        None,
        ""@,
    ));
    assert(after@[before@.len() as int].id == before.next_id);
    lemma_called_earlier(before);
    lemma_begun(
        before@,
        after@,
        prompt,
        retry_count,
        role,
        facts,
    );
}

proof fn lemma_fits(edb: &EventDataBase)
    ensures
        edb@.len() <= usize::MAX,
{
    assert(edb.events.len() == edb@.len());
}

/// What is written is what the later events say, under identities of their own.
pub proof fn lemma_written_events(before: &EventDataBase, after: &EventDataBase, notes: Seq<Note>)
    requires
        before.wf(),
        written(before, after, notes),
    ensures
        continues(before@, after@),
        after@.len() == before@.len() + notes.len() <= usize::MAX,
        after@.take(before@.len() as int) == before@,
        forall|j: int|
            before@.len() <= j < after@.len() ==> note_of((#[trigger] after@[j]).body) == notes[j
                - before@.len()] && after@[j].id == before.next_id + (j - before@.len()),
{
    lemma_fits(after);
    lemma_grown_continues(before, after, notes.len() as int);
    assert forall|j: int| before@.len() <= j < after@.len() implies note_of(
        (#[trigger] after@[j]).body,
    ) == notes[j - before@.len()] && after@[j].id == before.next_id + (j - before@.len()) by {
        assert(note_of(after.added(before, j - before@.len())) == notes[j - before@.len()]);
    }
}

/// The identity of a request that runs is an earlier one.
pub proof fn lemma_earlier(edb: &EventDataBase, attempt: Attempt, finished: bool, summary: bool)
    requires
        edb.wf(),
        runs(edb@, attempt, finished, summary),
    ensures
        attempt.api_call_id < edb.next_id,
{
    lemma_api_calls(edb@, edb@.len() as int, edb.next_id);
}

/// A line of an answer, whether it is written down, cannot be read, or finds that the user wants the
/// turn to end, leaves the log one that the agent can go on from, and the request is still the one
/// that runs.
pub proof fn law_line_leaves_the_request_running(
    before: (Attempt, &OrchestratorInputQueue, &EventDataBase),
    after: (Attempt, &OrchestratorInputQueue, &EventDataBase),
    effective: Seq<Event>,
    aborted_text: Seq<char>,
    items: Seq<(Seq<char>, JsonView)>,
    given: Result<Seq<ChunkView>, Seq<char>>,
    result: Result<(), Seq<char>>,
    finished: bool,
    summary: bool,
    role: Role,
    facts: HistoryFacts,
)
    requires
        supported(before.2, role, facts),
        runs(before.2@, before.0, finished, summary),
        !before.0.aborted,
        given matches Ok(chunks) ==> in_flow(finished, chunks),
        line_taken(before, after, effective, aborted_text, items, given, result),
    ensures
        goes_on(after.2@, role, facts),
        same_tools(before.2@, after.2@),
        runs(
            after.2@,
            after.0,
            if result is Ok {
                after_flow(finished, given->Ok_0)
            } else {
                finished
            },
            summary,
        ),
{
    let attempt = before.0;
    let start = before.2@.len() as int;
    lemma_earlier(before.2, attempt, finished, summary);
    if !before.2.room(1) {
    } else if abort_due(before.1, attempt.prompt_id, effective) {
        let notes = abort_notes(true, attempt.prompt_id);
        lemma_written_events(before.2, after.2, notes);
        assert(note_of(after.2@[start].body) == notes[0]);
        lemma_turn_ended(
            before.2@,
            after.2@,
            attempt,
            finished,
            summary,
            role,
            facts,
        );
    } else {
        let notes = line_notes(attempt, items, given);
        if before.2.room(notes.len() as int) {
            lemma_written_events(before.2, after.2, notes);
            let (back, chunks) = match given {
                Ok(chunks) => (items, chunks),
                Err(_) => (Seq::empty(), Seq::empty()),
            };
            assert(line_notes(attempt, back, Ok(chunks)) =~= notes);
            lemma_line(
                after.2@,
                start,
                attempt,
                finished,
                summary,
                back,
                chunks,
                role,
                facts,
            );
            assert(after.2@.take(after.2@.len() as int) =~= after.2@);
        }
    }
}

/// How a try leaves the log when it has ended in this way: another try can begin; the user ended
/// the turn and the request was interrupted; another request can be asked; or the request still
/// runs, because its tool calls are to be written down.
pub open spec fn leaves(
    events: Seq<Event>,
    next: EventId,
    attempt: Attempt,
    finished: bool,
    summary: bool,
    end: AttemptEnd,
) -> bool {
    match end {
        AttemptEnd::Retry => rests(
            events,
            attempt.prompt_id,
            next,
            (attempt.retry_count + 1) as u8,
        ),
        AttemptEnd::Aborted => left(
            events,
            Attempt { aborted: true, ..attempt },
            ApiState::Interrupted,
        ),
        AttemptEnd::Answered => uncalled(events, attempt.api_call_id) && runs(
            events,
            Attempt { streaming: true, ..attempt },
            finished,
            summary,
        ),
        AttemptEnd::Completed => rests(events, attempt.prompt_id, next, 0) && left(
            events,
            attempt,
            ApiState::Completed,
        ),
        AttemptEnd::Interrupted => rests(events, attempt.prompt_id, next, 0),
    }
}

/// Whether the tokens of an answer divide into so many.
pub open spec fn sums_up(usage: Option<ApiUsage>, sum: u64) -> bool {
    match usage {
        Some(tokens) => tokens.total_tokens == sum,
        None => true,
    }
}

/// The end of a turn that the user wanted is written to the log.
proof fn lemma_aborted_end(
    before: &EventDataBase,
    after: &EventDataBase,
    attempt: Attempt,
    answer: AnswerView,
    finished: bool,
    summary: bool,
    due: bool,
    sum: u64,
    role: Role,
    facts: HistoryFacts,
)
    requires
        supported(before, role, facts),
        runs(before@, attempt, finished, summary),
        attempt.aborted == !due,
        sums_up(answer.usage, sum),
        before.next_id + 1 <= u64::MAX,
        written(
            before,
            after,
            abort_notes(due, attempt.prompt_id) + aborted_notes(
                attempt,
                answer,
                before.next_id + if due {
                    1int
                } else {
                    0
                },
                sum,
            ),
        ),
    ensures
        goes_on(after@, role, facts),
        left(after@, Attempt { aborted: true, ..attempt }, ApiState::Interrupted),
{
    let start = before@.len() as int;
    let stopped = Attempt { aborted: true, ..attempt };
    let first = abort_notes(due, attempt.prompt_id);
    let rest = aborted_notes(
        attempt,
        answer,
        before.next_id + if due {
            1int
        } else {
            0
        },
        sum,
    );
    let notes = first + rest;
    let log = after@;
    lemma_earlier(before, attempt, finished, summary);
    lemma_written_events(before, after, notes);
    let from = start + first.len();
    if due {
        lemma_one_by_one(log, start);
        assert(note_of(log[start].body) == notes[0]);
        lemma_turn_ended(
            before@,
            log.take(from),
            attempt,
            finished,
            summary,
            role,
            facts,
        );
    }
    assert forall|j: int| from <= j < log.len() implies note_of((#[trigger] log[j]).body) == rest[j
        - from] && attempt.api_call_id < log[j].id by {
        assert(notes[j - start] == rest[j - from]);
    }
    lemma_closed(
        log,
        from,
        stopped,
        finished,
        summary,
        ApiState::Interrupted,
        answer.usage,
        answer.aborted_detail,
        sum,
        role,
        facts,
    );
}

/// What is written first of an answer that came to its end: that it came, and what is left of it.
pub open spec fn rest_said(attempt: Attempt, answer: AnswerView) -> Seq<Note> {
    streaming_notes(attempt) + chunk_notes(attempt.prompt_id, answer.last)
}

/// The rest of an answer that came to its end is written to the log.
#[verifier::rlimit(40)]
proof fn lemma_rest_said(
    before: &EventDataBase,
    after: &EventDataBase,
    attempt: Attempt,
    answer: AnswerView,
    finished: bool,
    summary: bool,
    rest: Seq<Note>,
    role: Role,
    facts: HistoryFacts,
)
    requires
        supported(before, role, facts),
        runs(before@, attempt, finished, summary),
        !attempt.aborted,
        in_flow(finished, answer.last),
        written(before, after, rest_said(attempt, answer) + rest),
    ensures
        ({
            let from = (before@.len() + rest_said(attempt, answer).len()) as int;
            &&& ids_increase(after@)
            &&& 0 < from
            &&& from + rest.len() == after@.len() <= usize::MAX
            &&& goes_on(after@.take(from), role, facts)
            &&& same_tools(before@, after@.take(from))
            &&& runs(
                after@.take(from),
                Attempt { streaming: true, ..attempt },
                after_flow(finished, answer.last),
                summary,
            )
            &&& forall|j: int|
                from <= j < after@.len() ==> note_of((#[trigger] after@[j]).body) == rest[j - from]
                    && attempt.api_call_id < after@[j].id < after.next_id && after@[j].id
                    == before.next_id + (j - before@.len())
        }),
{
    let start = before@.len() as int;
    let said = rest_said(attempt, answer);
    let notes = said + rest;
    let log = after@;
    lemma_earlier(before, attempt, finished, summary);
    lemma_written_events(before, after, notes);
    assert(line_notes(attempt, Seq::empty(), Ok(answer.last)) =~= said);
    let from = start + said.len();
    assert forall|j: int| start <= j < from implies note_of((#[trigger] log[j]).body) == said[j
        - start] && attempt.api_call_id < log[j].id by {
        assert(notes[j - start] == said[j - start]);
    }
    lemma_line(
        log,
        start,
        attempt,
        finished,
        summary,
        Seq::empty(),
        answer.last,
        role,
        facts,
    );
    assert forall|j: int| from <= j < log.len() implies note_of((#[trigger] log[j]).body) == rest[j
        - from] && attempt.api_call_id < log[j].id < after.next_id && log[j].id == before.next_id
        + (j - start) by {
        assert(notes[j - start] == rest[j - from]);
    }
}

/// An answer that came to its end, and with which something is wrong, is written to the log.
#[verifier::rlimit(40)]
proof fn lemma_answer_refused(
    before: &EventDataBase,
    after: &EventDataBase,
    attempt: Attempt,
    answer: AnswerView,
    finished: bool,
    summary: bool,
    error: Seq<char>,
    role: Role,
    facts: HistoryFacts,
)
    requires
        supported(before, role, facts),
        runs(before@, attempt, finished, summary),
        uncalled(before@, attempt.api_call_id),
        !attempt.aborted,
        in_flow(finished, answer.last),
        written(
            before,
            after,
            rest_said(attempt, answer) + failure_notes(
                attempt.api_call_id,
                attempt.prompt_id,
                attempt.retry_count,
                answer.usage,
                error,
                true,
            ),
        ),
    ensures
        goes_on(after@, role, facts),
        leaves(
            after@,
            after.next_id,
            attempt,
            after_flow(finished, answer.last),
            summary,
            after_failure(attempt.retry_count, true),
        ),
{
    let rest = failure_notes(
        attempt.api_call_id,
        attempt.prompt_id,
        attempt.retry_count,
        answer.usage,
        error,
        true,
    );
    lemma_rest_said(
        before,
        after,
        attempt,
        answer,
        finished,
        summary,
        rest,
        role,
        facts,
    );
    lemma_failed(
        after@,
        (before@.len() + rest_said(attempt, answer).len()) as int,
        Attempt { streaming: true, ..attempt },
        after_flow(finished, answer.last),
        summary,
        answer.usage,
        error,
        true,
        after.next_id,
        role,
        facts,
    );
}

/// An answer that came to its end, and with which the request ends, is written to the log.
#[verifier::rlimit(40)]
proof fn lemma_answer_taken(
    before: &EventDataBase,
    after: &EventDataBase,
    attempt: Attempt,
    answer: AnswerView,
    finished: bool,
    summary: bool,
    sum: u64,
    role: Role,
    facts: HistoryFacts,
)
    requires
        supported(before, role, facts),
        runs(before@, attempt, finished, summary),
        uncalled(before@, attempt.api_call_id),
        !attempt.aborted,
        in_flow(finished, answer.last),
        after_flow(finished, answer.last) || summary,
        sums_up(answer.usage, sum),
        before.next_id + rest_said(attempt, answer).len() <= u64::MAX,
        written(
            before,
            after,
            rest_said(attempt, answer) + terminal_notes(
                (before.next_id + rest_said(attempt, answer).len()) as u64,
                attempt.api_call_id,
                attempt.prompt_id,
                ApiState::Completed,
                answer.usage,
                ""@,
                sum,
            ),
        ),
    ensures
        goes_on(after@, role, facts),
        rests(after@, attempt.prompt_id, after.next_id, 0),
        left(after@, attempt, ApiState::Completed),
{
    let streaming = Attempt { streaming: true, ..attempt };
    let rest = terminal_notes(
        (before.next_id + rest_said(attempt, answer).len()) as u64,
        attempt.api_call_id,
        attempt.prompt_id,
        ApiState::Completed,
        answer.usage,
        ""@,
        sum,
    );
    lemma_rest_said(
        before,
        after,
        attempt,
        answer,
        finished,
        summary,
        rest,
        role,
        facts,
    );
    lemma_closed(
        after@,
        (before@.len() + rest_said(attempt, answer).len()) as int,
        streaming,
        after_flow(finished, answer.last),
        summary,
        ApiState::Completed,
        answer.usage,
        ""@,
        sum,
        role,
        facts,
    );
    lemma_earlier(before, attempt, finished, summary);
    lemma_left(after@, streaming, ApiState::Completed, after.next_id);
}

/// The end of an answer that came to its end is written to the log.
proof fn lemma_answer_end(
    before: &EventDataBase,
    after: &EventDataBase,
    attempt: Attempt,
    answer: AnswerView,
    finished: bool,
    summary: bool,
    sum: u64,
    role: Role,
    facts: HistoryFacts,
)
    requires
        supported(before, role, facts),
        runs(before@, attempt, finished, summary),
        uncalled(before@, attempt.api_call_id),
        !attempt.aborted,
        in_flow(finished, answer.last),
        answer.problem is None && answer.closes ==> after_flow(finished, answer.last) || summary,
        sums_up(answer.usage, sum),
        written(
            before,
            after,
            attempt_end(attempt, answer, false, Ok(()), before.next_id, sum).1,
        ),
        before.room(attempt_end(attempt, answer, false, Ok(()), before.next_id, sum).1.len() as int),
    ensures
        goes_on(after@, role, facts),
        leaves(
            after@,
            after.next_id,
            attempt,
            after_flow(finished, answer.last),
            summary,
            attempt_end(attempt, answer, false, Ok(()), before.next_id, sum).0,
        ),
{
    match answer.problem {
        Some(error) => {
            lemma_answer_refused(
                before,
                after,
                attempt,
                answer,
                finished,
                summary,
                error,
                role,
                facts,
            );
        },
        None => if answer.closes {
            lemma_answer_taken(
                before,
                after,
                attempt,
                answer,
                finished,
                summary,
                sum,
                role,
                facts,
            );
        } else {
            assert(rest_said(attempt, answer) + Seq::empty() =~= rest_said(attempt, answer));
            lemma_rest_said(
                before,
                after,
                attempt,
                answer,
                finished,
                summary,
                Seq::empty(),
                role,
                facts,
            );
            assert(after@.take(after@.len() as int) =~= after@);
        },
    }
}

/// However a try ends, the log is one that the agent can go on from, and what may come next can: a
/// further try where one is announced, and another request where this one has ended.
#[verifier::rlimit(40)]
pub proof fn law_ended_try_leaves_the_log_supported(
    attempt: Attempt,
    answer: AnswerView,
    queues: (&OrchestratorInputQueue, &OrchestratorInputQueue),
    logs: (&EventDataBase, &EventDataBase),
    effective: Seq<Event>,
    outcome: Result<(), Seq<char>>,
    sum: u64,
    end: AttemptEnd,
    finished: bool,
    summary: bool,
    role: Role,
    facts: HistoryFacts,
)
    requires
        supported(logs.0, role, facts),
        runs(logs.0@, attempt, finished, summary),
        uncalled(logs.0@, attempt.api_call_id),
        attempt.aborted ==> outcome is Err,
        in_flow(finished, answer.last),
        answer.problem is None && answer.closes ==> after_flow(finished, answer.last) || summary,
        sums_up(answer.usage, sum),
        ended(attempt, answer, queues, logs, effective, outcome, sum, Ok(end)),
    ensures
        goes_on(logs.1@, role, facts),
        leaves(
            logs.1@,
            logs.1.next_id,
            attempt,
            after_flow(finished, answer.last),
            summary,
            end,
        ),
{
    let (before, after) = logs;
    let due = abort_due(queues.0, attempt.prompt_id, effective);
    let notes = attempt_end(attempt, answer, due, outcome, before.next_id, sum).1;
    if attempt.aborted {
        assert(abort_notes(false, attempt.prompt_id) + notes =~= notes);
        lemma_aborted_end(
            before,
            after,
            attempt,
            answer,
            finished,
            summary,
            false,
            sum,
            role,
            facts,
        );
    } else if due {
        lemma_aborted_end(
            before,
            after,
            attempt,
            answer,
            finished,
            summary,
            true,
            sum,
            role,
            facts,
        );
    } else {
        match outcome {
            Err(error) => {
                lemma_earlier(before, attempt, finished, summary);
                lemma_written_events(before, after, notes);
                lemma_failed(
                    after@,
                    before@.len() as int,
                    attempt,
                    finished,
                    summary,
                    answer.usage,
                    error,
                    retryable(error),
                    after.next_id,
                    role,
                    facts,
                );
            },
            Ok(_) => {
                lemma_answer_end(
                    before,
                    after,
                    attempt,
                    answer,
                    finished,
                    summary,
                    sum,
                    role,
                    facts,
                );
            },
        }
    }
}

proof fn lemma_lines_unfinished(text: Seq<char>)
    ensures
        forall|i: int|
            0 <= i < complete_lines(text).len() ==> !(#[trigger] complete_lines(text)[i]).finished,
    decreases text.len(),
{
    let end = line_end(text) as int;
    if end < text.len() {
        lemma_lines_unfinished(text.skip(end + 1));
        let rest = complete_lines(text.skip(end + 1));
        let all = complete_lines(text);
        assert forall|i: int| 0 <= i < all.len() implies !(#[trigger] all[i]).finished by {
            if i > 0 {
                assert(all[i] == rest[i - 1]);
            }
        }
    }
}

/// The pieces that an answer gives out can follow one another, and after the last piece the answer
/// is complete: a line gives out pieces that others may follow, or the last one.
pub proof fn law_pieces_follow_one_another(buffer: AssistView, line: Seq<char>)
    requires
        !buffer.finished,
    ensures
        buffer.after_line(line).1 matches Ok(chunks) ==> in_flow(false, chunks) && after_flow(
            false,
            chunks,
        ) == buffer.after_line(line).0.finished,
{
    if let Ok(StreamView::Delta { content: Some(content), .. }) = stream_event(line) {
        lemma_lines_unfinished(buffer.content + content);
    }
}

/// What holds of the pieces of an answer holds of those of an answer that may call tools.
pub proof fn law_pieces_beside_tool_calls_follow_one_another(buffer: MainView, line: Seq<char>)
    requires
        !buffer.assistant.finished,
    ensures
        buffer.after_line(line).1 matches Ok(chunks) ==> in_flow(false, chunks) && after_flow(
            false,
            chunks,
        ) == buffer.after_line(line).0.assistant.finished,
{
    if let Ok(StreamView::Delta { content: Some(content), .. }) = stream_event(line) {
        lemma_lines_unfinished(buffer.assistant.content + content);
    }
}

/// The rest of an answer can follow, and with it the answer is complete.
pub proof fn law_rest_completes_the_answer(buffer: AssistView)
    ensures
        in_flow(buffer.finished, buffer.last_chunks()),
        after_flow(buffer.finished, buffer.last_chunks()),
{
}

} // verus!
