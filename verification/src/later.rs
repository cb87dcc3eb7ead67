//! Events that are added to a log change nothing of what is said of the earlier ones.
use vstd::prelude::*;

use crate::api_calls::{
    api_states, completes_request, latest_api_update, open_compact, request_completed_between,
    request_event_between, request_of, state_of,
};
use crate::compacts::{compact_histories, compact_with, succeeded_before, succeeds_before};
use crate::context::kind_in;
use crate::event::{
    event_with, first_failure, ids_increase, lemma_grown_wf, lemma_no_failure, lemma_order_of,
    order_of, AgentKind, ApiState, CompactState, Event, EventBody, EventDataBase, EventId,
};
use crate::profile::MainAgentProfile;
use crate::sessions::{closed_before, closes_before, session_histories};
use crate::support::{
    chat_kind_check, chat_problem, chat_source_check, chats, late_prompt_check, main_problem,
    main_start_problem, prompt_check, prompt_names, HistoryFacts,
};
use crate::tool_calls::{
    api_ended_before, call_turn, ends_api_call, lemma_states_match, lemma_turn, provider_call_taken,
    recorded, records_call, same_provider_call, tool_call_with, tool_states, turn_place,
    ToolCallState,
};
use crate::turns::{abort_check, carries_on, first_carrying_on};
use crate::validate::{
    clone_check, closes_tool, ended_by_requests, estimate_check, estimates, first_open_tool,
    follow_up_check, has_turn_step, initial_state_check, newer_prompt, open_tool, reminder_check,
    reminds, request_called_tool, source_check, title_check, turn_step, turn_tool,
};

verus! {

/// Whether a log goes on from another: its first events are those of the other.
pub open spec fn continues(events: Seq<Event>, longer: Seq<Event>) -> bool {
    &&& events.len() <= longer.len()
    &&& longer.take(events.len() as int) == events
    &&& ids_increase(longer)
}

pub proof fn lemma_prefix(events: Seq<Event>, longer: Seq<Event>)
    requires
        continues(events, longer),
    ensures
        ids_increase(events),
        forall|i: int| 0 <= i < events.len() ==> #[trigger] longer[i] == events[i],
        forall|i: int, j: int|
            0 <= i < events.len() && events.len() <= j < longer.len() ==> (#[trigger] events[i]).id
                < (#[trigger] longer[j]).id,
{
    assert forall|i: int| 0 <= i < events.len() implies #[trigger] longer[i] == events[i] by {
        assert(longer.take(events.len() as int)[i] == longer[i]);
    }
    assert forall|i: int, j: int|
        0 <= i < events.len() && events.len() <= j < longer.len() implies (#[trigger] events[i]).id
        < (#[trigger] longer[j]).id by {
        assert(longer[i].id < longer[j].id);
    }
    assert forall|i: int, j: int| 0 <= i < j < events.len() implies #[trigger] events[i].id
        < #[trigger] events[j].id by {
        assert(longer[i].id < longer[j].id);
    }
}

/// What an earlier event is found by finds it still, and an event up to a place is found exactly
/// if it was.
pub proof fn lemma_found(events: Seq<Event>, longer: Seq<Event>, id: EventId)
    requires
        continues(events, longer),
    ensures
        event_with(events, id) is Some ==> event_with(longer, id) == event_with(events, id),
        forall|p: int|
            0 <= p < events.len() && id <= (#[trigger] events[p]).id ==> event_with(longer, id)
                == event_with(events, id),
{
    lemma_prefix(events, longer);
    lemma_order_of(events, id);
    lemma_order_of(longer, id);
    if let Some(order) = order_of(events, id) {
        assert(longer[order].id == id);
        let found = order_of(longer, id)->0;
        if found < order {
            assert(events[found].id == id);
        }
    } else if let Some(found) = order_of(longer, id) {
        if found < events.len() {
            assert(events[found].id == id);
        }
    }
}

/// No event that was added stands before an earlier one.
pub open spec fn bounded(events: Seq<Event>, longer: Seq<Event>, before: EventId) -> bool {
    forall|j: int| events.len() <= j < longer.len() ==> before <= (#[trigger] longer[j]).id
}

proof fn lemma_bounded(events: Seq<Event>, longer: Seq<Event>, place: int)
    requires
        continues(events, longer),
        0 <= place < events.len(),
    ensures
        bounded(events, longer, events[place].id),
{
    lemma_prefix(events, longer);
}

proof fn lemma_open_compact(
    events: Seq<Event>,
    longer: Seq<Event>,
    place: int,
    before: EventId,
    open: Option<EventId>,
)
    requires
        continues(events, longer),
        bounded(events, longer, before),
        0 <= place <= longer.len(),
    ensures
        open_compact(longer, place, before, open) == open_compact(events, place, before, open),
    decreases longer.len() - place,
{
    lemma_prefix(events, longer);
    if place < longer.len() {
        match longer[place].body {
            EventBody::CompactStateUpdate(update) => {
                let next = match update.state {
                    CompactState::Started => Some(update.prompt_id),
                    CompactState::StageCompleted => open,
                    _ => None,
                };
                if place < events.len() {
                    lemma_open_compact(events, longer, place + 1, before, next);
                }
            },
            _ => {
                lemma_open_compact(events, longer, place + 1, before, open);
            },
        }
    }
}

/// What is said of the requests of the earlier events stays.
pub proof fn lemma_requests_kept(events: Seq<Event>, longer: Seq<Event>, count: int)
    requires
        continues(events, longer),
        0 <= count <= events.len(),
    ensures
        api_states(longer, count) == api_states(events, count),
    decreases count,
{
    if count > 0 {
        lemma_requests_kept(events, longer, count - 1);
        lemma_prefix(events, longer);
        let event = events[count - 1];
        assert(longer[count - 1] == event);
        if let EventBody::ApiStateUpdate(update) = event.body {
            lemma_found(events, longer, update.prompt_id);
            lemma_bounded(events, longer, count - 1);
            lemma_open_compact(events, longer, 0, event.id, None);
        }
    }
}

pub proof fn lemma_ended_kept(
    events: Seq<Event>,
    longer: Seq<Event>,
    api_call: EventId,
    before: EventId,
    required: Option<ApiState>,
)
    requires
        continues(events, longer),
        bounded(events, longer, before),
    ensures
        api_ended_before(longer, api_call, before, required) == api_ended_before(
            events,
            api_call,
            before,
            required,
        ),
{
    lemma_prefix(events, longer);
    if api_ended_before(longer, api_call, before, required) {
        let i = choose|i: int|
            0 <= i < longer.len() && ends_api_call(#[trigger] longer[i], api_call, before, required);
        assert(ends_api_call(events[i], api_call, before, required));
    }
    if api_ended_before(events, api_call, before, required) {
        let i = choose|i: int|
            0 <= i < events.len() && ends_api_call(#[trigger] events[i], api_call, before, required);
        assert(ends_api_call(longer[i], api_call, before, required));
    }
}

/// A recorded call is found by its identity.
proof fn lemma_call_found(
    events: Seq<Event>,
    longer: Seq<Event>,
    count: int,
    state: ToolCallState,
)
    requires
        continues(events, longer),
        0 <= count <= events.len(),
        recorded(events, count, state),
    ensures
        event_with(longer, state.id) == event_with(events, state.id),
        event_with(events, state.id) is Some,
{
    reveal(recorded);
    let i = choose|i: int| 0 <= i < count && records_call(#[trigger] events[i], state);
    lemma_order_of(events, state.id);
    lemma_found(events, longer, state.id);
    assert(events[i].id == state.id);
}

proof fn lemma_provider_kept(
    events: Seq<Event>,
    longer: Seq<Event>,
    count: int,
    calls: Seq<ToolCallState>,
    api_call: EventId,
    provider_call_id: Seq<char>,
)
    requires
        continues(events, longer),
        0 <= count <= events.len(),
        forall|k: int| 0 <= k < calls.len() ==> recorded(events, count, #[trigger] calls[k]),
    ensures
        provider_call_taken(longer, calls, api_call, provider_call_id) == provider_call_taken(
            events,
            calls,
            api_call,
            provider_call_id,
        ),
{
    assert forall|i: int| 0 <= i < calls.len() implies same_provider_call(
        longer,
        #[trigger] calls[i],
        api_call,
        provider_call_id,
    ) == same_provider_call(events, calls[i], api_call, provider_call_id) by {
        lemma_call_found(events, longer, count, calls[i]);
    }
    if provider_call_taken(longer, calls, api_call, provider_call_id) {
        let i = choose|i: int|
            0 <= i < calls.len() && same_provider_call(
                longer,
                #[trigger] calls[i],
                api_call,
                provider_call_id,
            );
        assert(same_provider_call(events, calls[i], api_call, provider_call_id));
    }
    if provider_call_taken(events, calls, api_call, provider_call_id) {
        let i = choose|i: int|
            0 <= i < calls.len() && same_provider_call(
                events,
                #[trigger] calls[i],
                api_call,
                provider_call_id,
            );
        assert(same_provider_call(longer, calls[i], api_call, provider_call_id));
    }
}

/// The tool call that an event speaks of, if it does.
pub open spec fn call_spoken_of(event: Event) -> Option<EventId> {
    match event.body {
        EventBody::ToolInfoUpdate(info) => Some(info.tool_call_id),
        EventBody::WorkMapMutation(update) => Some(update.tool_call_id),
        EventBody::AgentTitleChanged(change) => change.tool_call_id,
        EventBody::ImageContent(image) => Some(image.tool_call_id),
        EventBody::ToolCallResult(result) => Some(result.tool_call_id),
        _ => None,
    }
}

/// What is said of the tool calls of the earlier events stays.
#[verifier::rlimit(40)]
pub proof fn lemma_tools_kept(events: Seq<Event>, longer: Seq<Event>, count: int)
    requires
        continues(events, longer),
        0 <= count <= events.len() <= usize::MAX,
        tool_states(events, count) is Ok,
    ensures
        tool_states(longer, count) == tool_states(events, count),
    decreases count,
{
    if count > 0 {
        lemma_tools_kept(events, longer, count - 1);
        lemma_prefix(events, longer);
        lemma_states_match(events, count - 1);
        lemma_bounded(events, longer, count - 1);
        let calls = tool_states(events, count - 1)->Ok_0;
        let event = events[count - 1];
        assert(longer[count - 1] == event);
        if let EventBody::ToolCall(call) = event.body {
            lemma_found(events, longer, call.api_call_id);
            lemma_ended_kept(events, longer, call.api_call_id, event.id, None);
            lemma_provider_kept(
                events,
                longer,
                count - 1,
                calls,
                call.api_call_id,
                call.provider_call_id@,
            );
        }
        if let Some(tool_call) = call_spoken_of(event) {
            assert(call_turn(calls, tool_call) is Next);
            lemma_turn(calls, tool_call);
            let place = turn_place(calls, tool_call);
            lemma_call_found(events, longer, count - 1, calls[place]);
            let api_call = calls[place].api_call_id;
            lemma_ended_kept(events, longer, api_call, event.id, None);
            lemma_ended_kept(events, longer, api_call, event.id, Some(ApiState::Completed));
        }
    }
}

proof fn lemma_succeeded_kept(
    events: Seq<Event>,
    longer: Seq<Event>,
    tool_call: EventId,
    before: EventId,
)
    requires
        continues(events, longer),
        bounded(events, longer, before),
    ensures
        succeeded_before(longer, tool_call, before) == succeeded_before(events, tool_call, before),
{
    lemma_prefix(events, longer);
    if succeeded_before(longer, tool_call, before) {
        let i = choose|i: int|
            0 <= i < longer.len() && succeeds_before(#[trigger] longer[i], tool_call, before);
        assert(succeeds_before(events[i], tool_call, before));
    }
    if succeeded_before(events, tool_call, before) {
        let i = choose|i: int|
            0 <= i < events.len() && succeeds_before(#[trigger] events[i], tool_call, before);
        assert(succeeds_before(longer[i], tool_call, before));
    }
}

proof fn lemma_completes_kept(
    events: Seq<Event>,
    longer: Seq<Event>,
    place: int,
    prompt: EventId,
    after: EventId,
    before: EventId,
)
    requires
        continues(events, longer),
        bounded(events, longer, before),
        0 <= place < events.len(),
    ensures
        completes_request(longer, place, prompt, after, before) == completes_request(
            events,
            place,
            prompt,
            after,
            before,
        ),
{
    lemma_prefix(events, longer);
    if completes_request(longer, place, prompt, after, before) {
        let i = choose|i: int|
            0 <= i < place && request_event_between(#[trigger] longer[i], prompt, after, before)
                && request_of(longer[i]) == request_of(longer[place]) && state_of(longer[i])
                == ApiState::Requesting;
        assert(request_event_between(events[i], prompt, after, before));
        assert forall|k: int|
            place < k < events.len() && request_event_between(
                #[trigger] events[k],
                prompt,
                after,
                before,
            ) implies request_of(events[k]) != request_of(events[place]) by {
            assert(longer[k] == events[k]);
        }
    }
    if completes_request(events, place, prompt, after, before) {
        let i = choose|i: int|
            0 <= i < place && request_event_between(#[trigger] events[i], prompt, after, before)
                && request_of(events[i]) == request_of(events[place]) && state_of(events[i])
                == ApiState::Requesting;
        assert(request_event_between(longer[i], prompt, after, before));
        assert forall|k: int|
            place < k < longer.len() && request_event_between(
                #[trigger] longer[k],
                prompt,
                after,
                before,
            ) implies request_of(longer[k]) != request_of(longer[place]) by {
            assert(k < events.len());
            assert(longer[k] == events[k]);
        }
    }
}

pub proof fn lemma_completed_kept(
    events: Seq<Event>,
    longer: Seq<Event>,
    prompt: EventId,
    after: EventId,
    before: EventId,
)
    requires
        continues(events, longer),
        bounded(events, longer, before),
    ensures
        request_completed_between(longer, prompt, after, before) == request_completed_between(
            events,
            prompt,
            after,
            before,
        ),
{
    if request_completed_between(longer, prompt, after, before) {
        let p = choose|p: int|
            0 <= p < longer.len() && #[trigger] completes_request(longer, p, prompt, after, before);
        assert(p < events.len());
        lemma_completes_kept(events, longer, p, prompt, after, before);
        assert(completes_request(events, p, prompt, after, before));
    }
    if request_completed_between(events, prompt, after, before) {
        let p = choose|p: int|
            0 <= p < events.len() && #[trigger] completes_request(events, p, prompt, after, before);
        lemma_completes_kept(events, longer, p, prompt, after, before);
        assert(completes_request(longer, p, prompt, after, before));
    }
}

/// What is said of the compactions of the earlier events stays.
pub proof fn lemma_compacts_kept(events: Seq<Event>, longer: Seq<Event>, count: int)
    requires
        continues(events, longer),
        0 <= count <= events.len(),
        compact_histories(events, count) is Ok,
    ensures
        compact_histories(longer, count) == compact_histories(events, count),
    decreases count,
{
    if count > 0 {
        lemma_compacts_kept(events, longer, count - 1);
        lemma_prefix(events, longer);
        lemma_bounded(events, longer, count - 1);
        let event = events[count - 1];
        assert(longer[count - 1] == event);
        if let EventBody::CompactStateUpdate(update) = event.body {
            let history = compact_histories(events, count - 1)->Ok_0;
            lemma_found(events, longer, update.tool_call_id);
            lemma_found(events, longer, update.compact_id);
            lemma_succeeded_kept(events, longer, update.tool_call_id, event.id);
            if let Some((open, stages)) = history.1 {
                lemma_found(events, longer, open.compact_id);
                if let Some(started) = compact_with(events, open.compact_id) {
                    lemma_completed_kept(
                        events,
                        longer,
                        started.prompt_id,
                        open.previous_event_id,
                        event.id,
                    );
                    lemma_completed_kept(
                        events,
                        longer,
                        started.prompt_id,
                        update.compact_id,
                        event.id,
                    );
                }
            }
        }
    }
}

proof fn lemma_closed_kept(
    events: Seq<Event>,
    longer: Seq<Event>,
    tool_call: EventId,
    before: EventId,
)
    requires
        continues(events, longer),
        bounded(events, longer, before),
    ensures
        closed_before(longer, tool_call, before) == closed_before(events, tool_call, before),
{
    lemma_prefix(events, longer);
    if closed_before(longer, tool_call, before) {
        let i = choose|i: int|
            0 <= i < longer.len() && closes_before(#[trigger] longer[i], tool_call, before);
        assert(closes_before(events[i], tool_call, before));
    }
    if closed_before(events, tool_call, before) {
        let i = choose|i: int|
            0 <= i < events.len() && closes_before(#[trigger] events[i], tool_call, before);
        assert(closes_before(longer[i], tool_call, before));
    }
}

/// What is said of the terminal sessions of the earlier events stays.
pub proof fn lemma_sessions_kept(events: Seq<Event>, longer: Seq<Event>, count: int)
    requires
        continues(events, longer),
        0 <= count <= events.len(),
        session_histories(events, count) is Ok,
    ensures
        session_histories(longer, count) == session_histories(events, count),
    decreases count,
{
    if count > 0 {
        lemma_sessions_kept(events, longer, count - 1);
        lemma_prefix(events, longer);
        lemma_bounded(events, longer, count - 1);
        let event = events[count - 1];
        assert(longer[count - 1] == event);
        if let EventBody::TerminalSessionCreated(created) = event.body {
            lemma_found(events, longer, created.tool_call_id);
            lemma_closed_kept(events, longer, created.tool_call_id, event.id);
            if let Some(call) = tool_call_with(events, created.tool_call_id) {
                lemma_ended_kept(
                    events,
                    longer,
                    call.api_call_id,
                    event.id,
                    Some(ApiState::Completed),
                );
            }
        }
    }
}

/// What the log of an agent is held to: the names of the prompts that it begins with, and who the
/// agent is.
pub struct LogRules {
    pub names: Seq<Seq<char>>,
    pub kind: AgentKind,
    pub profile: MainAgentProfile,
}

impl LogRules {
    /// The identity of the first model.
    pub open spec fn model(self) -> EventId {
        (self.names.len() + 1) as u64
    }

    /// The identity of the first effort.
    pub open spec fn effort(self) -> EventId {
        (self.names.len() + 2) as u64
    }
}

/// Whether the event at a place keeps the rules that speak of it alone or of what stands before it.
#[verifier::opaque]
pub open spec fn in_order(events: Seq<Event>, place: int, rules: LogRules) -> bool {
    &&& initial_state_check(events, rules.model(), rules.effort())(place) is None
    &&& late_prompt_check(events, rules.names.len() as int + 1)(place) is None
    &&& source_check(events, rules.kind, rules.profile)(place) is None
    &&& clone_check(events)(place) is None
    &&& reminder_check(events)(place) is None
    &&& title_check(events)(place) is None
    &&& follow_up_check(events)(place) is None
    &&& abort_check(events)(place) is None
    &&& estimate_check(events)(place) is None
}

/// Whether an event carries a turn on that the user had ended.
pub open spec fn carries_on_ended(events: Seq<Event>, event: Event) -> bool {
    exists|p: int|
        0 <= p < events.len() && ((#[trigger] events[p]).body matches EventBody::UserTurnAborted(
            aborted,
        ) && carries_on(event, aborted.prompt_id))
}

/// Whether all that was added to a log keeps the rules, as far as they do not speak of requests,
/// tool calls, compactions and sessions.
pub open spec fn added_in_order(events: Seq<Event>, longer: Seq<Event>, rules: LogRules) -> bool {
    &&& continues(events, longer)
    &&& forall|j: int|
        events.len() <= j < longer.len() ==> #[trigger] in_order(longer, j, rules)
    &&& forall|j: int|
        events.len() <= j < longer.len() ==> !carries_on_ended(events, #[trigger] longer[j])
}

/// A check that finds nothing wrong at the earlier places, and nothing at the added ones, finds
/// nothing.
proof fn lemma_check_kept<E>(
    early: spec_fn(int) -> Option<E>,
    late: spec_fn(int) -> Option<E>,
    count: int,
    total: int,
)
    requires
        first_failure(early, count) is None,
        0 <= count <= total,
        forall|p: int| 0 <= p < count && early(p) is None ==> #[trigger] late(p) is None,
        forall|p: int| count <= p < total ==> #[trigger] late(p) is None,
    ensures
        first_failure(late, total) is None,
{
    lemma_no_failure(early, count);
    lemma_no_failure(late, total);
    assert forall|p: int| 0 <= p < total implies #[trigger] late(p) is None by {
        if p < count {
            assert(early(p) is None);
        }
    }
}

/// What is right at the beginning of a log stays so.
proof fn lemma_start_kept(events: Seq<Event>, longer: Seq<Event>, rules: LogRules)
    requires
        added_in_order(events, longer, rules),
        main_start_problem(events, rules.names) is None,
    ensures
        main_start_problem(longer, rules.names) is None,
{
    lemma_prefix(events, longer);
    let names = rules.names;
    let model = rules.model();
    let effort = rules.effort();
    let count = events.len() as int;
    let total = longer.len() as int;
    let early = prompt_check(events, names);
    let late = prompt_check(longer, names);
    assert forall|p: int| 0 <= p < names.len() && early(p) is None implies #[trigger] late(p)
        is None by {
        lemma_found(events, longer, (p + 1) as u64);
    }
    lemma_check_kept(early, late, names.len() as int, names.len() as int);
    lemma_found(events, longer, model);
    lemma_found(events, longer, effort);
    let early = initial_state_check(events, model, effort);
    let late = initial_state_check(longer, model, effort);
    assert forall|j: int| count <= j < total implies #[trigger] late(j) is None by {
        assert(in_order(longer, j, rules));
        reveal(in_order);
    }
    lemma_check_kept(early, late, count, total);
    let start = names.len() as int + 1;
    let early = late_prompt_check(events, start);
    let late = late_prompt_check(longer, start);
    assert forall|j: int| count <= j < total implies #[trigger] late(j) is None by {
        assert(in_order(longer, j, rules));
        reveal(in_order);
    }
    lemma_check_kept(early, late, count, total);
}

proof fn lemma_newer_kept(
    events: Seq<Event>,
    longer: Seq<Event>,
    place: int,
    prompt: EventId,
    follow_up: EventId,
)
    requires
        continues(events, longer),
        bounded(events, longer, follow_up),
        0 <= place <= longer.len(),
    ensures
        newer_prompt(longer, place, prompt, follow_up) == newer_prompt(
            events,
            place,
            prompt,
            follow_up,
        ),
    decreases longer.len() - place,
{
    lemma_prefix(events, longer);
    if place < longer.len() {
        lemma_newer_kept(events, longer, place + 1, prompt, follow_up);
    }
}

proof fn lemma_turn_steps_kept(
    events: Seq<Event>,
    longer: Seq<Event>,
    prompt: EventId,
    follow_up: EventId,
    last: bool,
)
    requires
        continues(events, longer),
        bounded(events, longer, follow_up),
    ensures
        has_turn_step(longer, prompt, follow_up, last) == has_turn_step(
            events,
            prompt,
            follow_up,
            last,
        ),
{
    lemma_prefix(events, longer);
    if has_turn_step(longer, prompt, follow_up, last) {
        let i = choose|i: int|
            0 <= i < longer.len() && turn_step(#[trigger] longer[i], prompt, follow_up, last);
        assert(turn_step(events[i], prompt, follow_up, last));
    }
    if has_turn_step(events, prompt, follow_up, last) {
        let i = choose|i: int|
            0 <= i < events.len() && turn_step(#[trigger] events[i], prompt, follow_up, last);
        assert(turn_step(longer[i], prompt, follow_up, last));
    }
}

proof fn lemma_called_tool_kept(
    events: Seq<Event>,
    longer: Seq<Event>,
    count: int,
    prompt: EventId,
    follow_up: EventId,
    api_call: EventId,
)
    requires
        continues(events, longer),
        0 <= count <= events.len(),
    ensures
        request_called_tool(longer, count, prompt, follow_up, api_call) == request_called_tool(
            events,
            count,
            prompt,
            follow_up,
            api_call,
        ),
{
    lemma_prefix(events, longer);
    if request_called_tool(longer, count, prompt, follow_up, api_call) {
        let i = choose|i: int|
            0 <= i < count && turn_tool(#[trigger] longer[i], prompt, follow_up, Some(api_call));
        assert(turn_tool(events[i], prompt, follow_up, Some(api_call)));
    }
    if request_called_tool(events, count, prompt, follow_up, api_call) {
        let i = choose|i: int|
            0 <= i < count && turn_tool(#[trigger] events[i], prompt, follow_up, Some(api_call));
        assert(turn_tool(longer[i], prompt, follow_up, Some(api_call)));
    }
}

#[verifier::rlimit(40)]
proof fn lemma_ends_kept(
    events: Seq<Event>,
    longer: Seq<Event>,
    count: int,
    prompt: EventId,
    follow_up: EventId,
)
    requires
        continues(events, longer),
        bounded(events, longer, follow_up),
        0 <= count <= longer.len(),
    ensures
        count <= events.len() ==> ended_by_requests(longer, count, prompt, follow_up)
            == ended_by_requests(events, count, prompt, follow_up),
        count >= events.len() ==> ended_by_requests(longer, count, prompt, follow_up)
            == ended_by_requests(events, events.len() as int, prompt, follow_up),
    decreases count,
{
    lemma_prefix(events, longer);
    if count > 0 {
        lemma_ends_kept(events, longer, count - 1, prompt, follow_up);
        if count <= events.len() {
            assert(longer[count - 1] == events[count - 1]);
            if let EventBody::ApiStateUpdate(update) = events[count - 1].body {
                lemma_called_tool_kept(
                    events,
                    longer,
                    count - 1,
                    prompt,
                    follow_up,
                    update.api_call_id,
                );
            }
        } else {
            assert(follow_up <= longer[count - 1].id);
        }
    }
}

proof fn lemma_open_tools_kept(
    events: Seq<Event>,
    longer: Seq<Event>,
    place: int,
    prompt: EventId,
    follow_up: EventId,
)
    requires
        continues(events, longer),
        bounded(events, longer, follow_up),
        0 <= place <= longer.len(),
    ensures
        first_open_tool(longer, place, prompt, follow_up) == first_open_tool(
            events,
            place,
            prompt,
            follow_up,
        ),
    decreases longer.len() - place,
{
    lemma_prefix(events, longer);
    if place < longer.len() {
        lemma_open_tools_kept(events, longer, place + 1, prompt, follow_up);
        if place < events.len() {
            assert(longer[place] == events[place]);
            let id = events[place].id;
            if open_tool(longer, place, prompt, follow_up) {
                assert forall|j: int| place < j < events.len() implies !closes_tool(
                    #[trigger] events[j],
                    id,
                    prompt,
                    follow_up,
                ) by {
                    assert(longer[j] == events[j]);
                }
            }
            if open_tool(events, place, prompt, follow_up) {
                assert forall|j: int| place < j < longer.len() implies !closes_tool(
                    #[trigger] longer[j],
                    id,
                    prompt,
                    follow_up,
                ) by {
                    if j < events.len() {
                        assert(longer[j] == events[j]);
                    }
                }
            }
        } else {
            assert(follow_up <= longer[place].id);
        }
    }
}

proof fn lemma_follow_ups_kept(events: Seq<Event>, longer: Seq<Event>, rules: LogRules)
    requires
        added_in_order(events, longer, rules),
        first_failure(follow_up_check(events), events.len() as int) is None,
    ensures
        first_failure(follow_up_check(longer), longer.len() as int) is None,
{
    lemma_prefix(events, longer);
    let early = follow_up_check(events);
    let late = follow_up_check(longer);
    assert forall|p: int| 0 <= p < events.len() && early(p) is None implies #[trigger] late(p)
        is None by {
        assert(longer[p] == events[p]);
        if let EventBody::FollowUpPrompt(follow_up) = events[p].body {
            let prompt = follow_up.prompt_id;
            let id = events[p].id;
            lemma_bounded(events, longer, p);
            lemma_found(events, longer, prompt);
            lemma_newer_kept(events, longer, 0, prompt, id);
            lemma_turn_steps_kept(events, longer, prompt, id, false);
            lemma_turn_steps_kept(events, longer, prompt, id, true);
            lemma_ends_kept(events, longer, longer.len() as int, prompt, id);
            lemma_open_tools_kept(events, longer, 0, prompt, id);
        }
    }
    assert forall|j: int| events.len() <= j < longer.len() implies #[trigger] late(j) is None by {
        assert(in_order(longer, j, rules));
        reveal(in_order);
    }
    lemma_check_kept(early, late, events.len() as int, longer.len() as int);
}

proof fn lemma_carrying_kept(
    events: Seq<Event>,
    longer: Seq<Event>,
    place: int,
    prompt: EventId,
)
    requires
        continues(events, longer),
        0 <= place <= longer.len(),
        forall|j: int|
            events.len() <= j < longer.len() ==> !carries_on(#[trigger] longer[j], prompt),
    ensures
        first_carrying_on(longer, place, prompt) == first_carrying_on(events, place, prompt),
    decreases longer.len() - place,
{
    lemma_prefix(events, longer);
    if place < longer.len() {
        lemma_carrying_kept(events, longer, place + 1, prompt);
    }
}

proof fn lemma_aborts_kept(events: Seq<Event>, longer: Seq<Event>, rules: LogRules)
    requires
        added_in_order(events, longer, rules),
        first_failure(abort_check(events), events.len() as int) is None,
    ensures
        first_failure(abort_check(longer), longer.len() as int) is None,
{
    lemma_prefix(events, longer);
    let early = abort_check(events);
    let late = abort_check(longer);
    assert forall|p: int| 0 <= p < events.len() && early(p) is None implies #[trigger] late(p)
        is None by {
        assert(longer[p] == events[p]);
        if let EventBody::UserTurnAborted(aborted) = events[p].body {
            lemma_found(events, longer, aborted.prompt_id);
            assert forall|j: int| events.len() <= j < longer.len() implies !carries_on(
                #[trigger] longer[j],
                aborted.prompt_id,
            ) by {
                assert(!carries_on_ended(events, longer[j]));
            }
            lemma_carrying_kept(events, longer, p + 1, aborted.prompt_id);
        }
    }
    assert forall|j: int| events.len() <= j < longer.len() implies #[trigger] late(j) is None by {
        assert(in_order(longer, j, rules));
        reveal(in_order);
    }
    lemma_check_kept(early, late, events.len() as int, longer.len() as int);
}

proof fn lemma_estimates_kept(events: Seq<Event>, longer: Seq<Event>, rules: LogRules)
    requires
        added_in_order(events, longer, rules),
        first_failure(estimate_check(events), events.len() as int) is None,
    ensures
        first_failure(estimate_check(longer), longer.len() as int) is None,
{
    lemma_prefix(events, longer);
    let early = estimate_check(events);
    let late = estimate_check(longer);
    assert forall|p: int| 0 <= p < events.len() && early(p) is None implies #[trigger] late(p)
        is None by {
        assert(longer[p] == events[p]);
        if let EventBody::ContextUsageEstimate(estimate) = events[p].body {
            let api_state = estimate.api_state_event_id;
            lemma_found(events, longer, api_state);
            if exists|i: int| 0 <= i < p && estimates(#[trigger] longer[i], api_state) {
                let i = choose|i: int| 0 <= i < p && estimates(#[trigger] longer[i], api_state);
                assert(estimates(events[i], api_state));
            }
        }
    }
    assert forall|j: int| events.len() <= j < longer.len() implies #[trigger] late(j) is None by {
        assert(in_order(longer, j, rules));
        reveal(in_order);
    }
    lemma_check_kept(early, late, events.len() as int, longer.len() as int);
}

proof fn lemma_reminders_kept(events: Seq<Event>, longer: Seq<Event>, rules: LogRules)
    requires
        added_in_order(events, longer, rules),
        first_failure(reminder_check(events), events.len() as int) is None,
    ensures
        first_failure(reminder_check(longer), longer.len() as int) is None,
{
    lemma_prefix(events, longer);
    let early = reminder_check(events);
    let late = reminder_check(longer);
    assert forall|p: int| 0 <= p < events.len() && early(p) is None implies #[trigger] late(p)
        is None by {
        assert(longer[p] == events[p]);
        if let EventBody::WorkMapPendingReminder(reminder) = events[p].body {
            let prompt = reminder.prompt_id;
            if p > 0 {
                assert(longer[p - 1] == events[p - 1]);
            }
            if exists|i: int| 0 <= i < p && reminds(#[trigger] longer[i], prompt) {
                let i = choose|i: int| 0 <= i < p && reminds(#[trigger] longer[i], prompt);
                assert(reminds(events[i], prompt));
            }
        }
    }
    assert forall|j: int| events.len() <= j < longer.len() implies #[trigger] late(j) is None by {
        assert(in_order(longer, j, rules));
        reveal(in_order);
    }
    lemma_check_kept(early, late, events.len() as int, longer.len() as int);
}

proof fn lemma_titles_kept(events: Seq<Event>, longer: Seq<Event>, rules: LogRules)
    requires
        added_in_order(events, longer, rules),
        first_failure(title_check(events), events.len() as int) is None,
    ensures
        first_failure(title_check(longer), longer.len() as int) is None,
{
    lemma_prefix(events, longer);
    let early = title_check(events);
    let late = title_check(longer);
    assert forall|p: int| 0 <= p < events.len() && early(p) is None implies #[trigger] late(p)
        is None by {
        assert(longer[p] == events[p]);
        if let EventBody::AgentTitleChanged(change) = events[p].body {
            if let Some(tool_call) = change.tool_call_id {
                lemma_found(events, longer, tool_call);
            }
        }
    }
    assert forall|j: int| events.len() <= j < longer.len() implies #[trigger] late(j) is None by {
        assert(in_order(longer, j, rules));
        reveal(in_order);
    }
    lemma_check_kept(early, late, events.len() as int, longer.len() as int);
}

proof fn lemma_local_checks_kept(events: Seq<Event>, longer: Seq<Event>, rules: LogRules)
    requires
        added_in_order(events, longer, rules),
    ensures
        first_failure(source_check(events, rules.kind, rules.profile), events.len() as int) is None
            ==> first_failure(
            source_check(longer, rules.kind, rules.profile),
            longer.len() as int,
        ) is None,
        first_failure(clone_check(events), events.len() as int) is None ==> first_failure(
            clone_check(longer),
            longer.len() as int,
        ) is None,
{
    lemma_prefix(events, longer);
    let count = events.len() as int;
    let total = longer.len() as int;
    let kind = rules.kind;
    let profile = rules.profile;
    if first_failure(source_check(events, kind, profile), count) is None {
        let early = source_check(events, kind, profile);
        let late = source_check(longer, kind, profile);
        assert forall|j: int| count <= j < total implies #[trigger] late(j) is None by {
            assert(in_order(longer, j, rules));
            reveal(in_order);
        }
        lemma_check_kept(early, late, count, total);
    }
    if first_failure(clone_check(events), count) is None {
        let early = clone_check(events);
        let late = clone_check(longer);
        assert forall|p: int| 0 <= p < count && early(p) is None implies #[trigger] late(p)
            is None by {
            assert(longer[p] == events[p]);
            if p > 0 {
                assert(longer[p - 1] == events[p - 1]);
            }
        }
        assert forall|j: int| count <= j < total implies #[trigger] late(j) is None by {
            assert(in_order(longer, j, rules));
            reveal(in_order);
        }
        lemma_check_kept(early, late, count, total);
    }
}

/// The rules of the log of an agent.
pub open spec fn rules_of(
    events: Seq<Event>,
    profile: MainAgentProfile,
    has_parent_prompt: bool,
) -> LogRules {
    LogRules {
        names: prompt_names(profile, has_parent_prompt),
        kind: kind_in(events)->0.kind,
        profile,
    }
}

/// Whether the requests, tool calls, compactions and sessions of a log keep their rules.
pub open spec fn histories_ok(events: Seq<Event>) -> bool {
    let count = events.len() as int;
    &&& api_states(events, count) is Ok
    &&& tool_states(events, count) is Ok
    &&& compact_histories(events, count) is Ok
    &&& session_histories(events, count) is Ok
}

/// An agent that can go on from a log can go on from it with events added that keep the rules.
pub proof fn lemma_rules_kept(
    events: Seq<Event>,
    longer: Seq<Event>,
    profile: MainAgentProfile,
    has_parent_prompt: bool,
    facts: HistoryFacts,
)
    requires
        added_in_order(events, longer, rules_of(events, profile, has_parent_prompt)),
        events.len() > 0,
        main_problem(events, profile, has_parent_prompt, facts) is None,
        histories_ok(longer),
    ensures
        main_problem(longer, profile, has_parent_prompt, facts) is None,
{
    lemma_prefix(events, longer);
    assert(longer[0] == events[0]);
    let rules = rules_of(events, profile, has_parent_prompt);
    lemma_start_kept(events, longer, rules);
    lemma_local_checks_kept(events, longer, rules);
    lemma_titles_kept(events, longer, rules);
    lemma_reminders_kept(events, longer, rules);
    lemma_follow_ups_kept(events, longer, rules);
    lemma_aborts_kept(events, longer, rules);
    lemma_estimates_kept(events, longer, rules);
}

/// What the log of a chat bot is held to.
pub open spec fn chat_rules(events: Seq<Event>) -> LogRules {
    LogRules {
        names: Seq::empty(),
        kind: kind_in(events)->0.kind,
        profile: MainAgentProfile::Standard,
    }
}

/// A chat bot that can go on from a log can go on from it with events added that it knows and that
/// keep the rules.
pub proof fn lemma_chat_rules_kept(events: Seq<Event>, longer: Seq<Event>, facts: HistoryFacts)
    requires
        added_in_order(events, longer, chat_rules(events)),
        forall|j: int|
            events.len() <= j < longer.len() ==> chats((#[trigger] longer[j]).kind_of()),
        events.len() > 0,
        chat_problem(events, facts) is None,
        api_states(longer, longer.len() as int) is Ok,
    ensures
        chat_problem(longer, facts) is None,
{
    lemma_prefix(events, longer);
    assert(longer[0] == events[0]);
    let rules = chat_rules(events);
    let count = events.len() as int;
    let total = longer.len() as int;
    lemma_found(events, longer, 1);
    lemma_found(events, longer, 2);
    let early = initial_state_check(events, 1, 2);
    let late = initial_state_check(longer, 1, 2);
    assert forall|j: int| count <= j < total implies #[trigger] late(j) is None by {
        assert(in_order(longer, j, rules));
        reveal(in_order);
    }
    lemma_check_kept(early, late, count, total);
    let early = chat_kind_check(events);
    let late = chat_kind_check(longer);
    assert forall|j: int| count <= j < total implies #[trigger] late(j) is None by {
        assert(chats(longer[j].kind_of()));
    }
    lemma_check_kept(early, late, count, total);
    let early = chat_source_check(events, rules.kind);
    let late = chat_source_check(longer, rules.kind);
    assert forall|j: int| count <= j < total implies #[trigger] late(j) is None by {
        assert(in_order(longer, j, rules));
        reveal(in_order);
    }
    lemma_check_kept(early, late, count, total);
    lemma_local_checks_kept(events, longer, rules);
    lemma_aborts_kept(events, longer, rules);
    lemma_estimates_kept(events, longer, rules);
}

/// Whether nothing is said of requests by an event.
pub open spec fn not_of_requests(event: Event) -> bool {
    !(event.body is AssistResponse || event.body is ModelContextItem || event.body
        is ApiStateUpdate)
}

/// Events that say nothing of requests leave them as they are.
pub proof fn lemma_requests_untouched(events: Seq<Event>, longer: Seq<Event>, count: int)
    requires
        continues(events, longer),
        events.len() <= count <= longer.len(),
        forall|j: int| events.len() <= j < longer.len() ==> not_of_requests(#[trigger] longer[j]),
    ensures
        api_states(longer, count) == api_states(events, events.len() as int),
        latest_api_update(longer.take(count)) == latest_api_update(events),
    decreases count,
{
    if count == events.len() {
        lemma_requests_kept(events, longer, count);
    } else {
        lemma_requests_untouched(events, longer, count - 1);
        assert(not_of_requests(longer[count - 1]));
        assert(longer.take(count).drop_last() =~= longer.take(count - 1));
        assert(longer.take(count).last() == longer[count - 1]);
    }
}

/// Whether an event leaves the tool calls as they are.
pub open spec fn not_of_tools(event: Event) -> bool {
    match event.body {
        EventBody::ApiStateUpdate(update) => update.state != ApiState::Requesting,
        EventBody::ToolCall(_) => false,
        EventBody::AgentTitleChanged(_) => false,
        _ => call_spoken_of(event) is None,
    }
}

/// Events that say nothing of tool calls leave them as they are.
pub proof fn lemma_tools_untouched(events: Seq<Event>, longer: Seq<Event>, count: int)
    requires
        continues(events, longer),
        events.len() <= count <= longer.len(),
        events.len() <= usize::MAX,
        tool_states(events, events.len() as int) is Ok,
        forall|j: int| events.len() <= j < longer.len() ==> not_of_tools(#[trigger] longer[j]),
    ensures
        tool_states(longer, count) == tool_states(events, events.len() as int),
    decreases count,
{
    if count == events.len() {
        lemma_tools_kept(events, longer, count);
    } else {
        lemma_tools_untouched(events, longer, count - 1);
        assert(not_of_tools(longer[count - 1]));
    }
}

/// Events that say nothing of compactions leave them as they are.
pub proof fn lemma_compacts_untouched(events: Seq<Event>, longer: Seq<Event>, count: int)
    requires
        continues(events, longer),
        events.len() <= count <= longer.len(),
        compact_histories(events, events.len() as int) is Ok,
        forall|j: int|
            events.len() <= j < longer.len() ==> !((#[trigger] longer[j]).body
                is CompactStateUpdate),
    ensures
        compact_histories(longer, count) == compact_histories(events, events.len() as int),
    decreases count,
{
    if count == events.len() {
        lemma_compacts_kept(events, longer, count);
    } else {
        lemma_compacts_untouched(events, longer, count - 1);
        assert(!(longer[count - 1].body is CompactStateUpdate));
    }
}

/// Whether an event leaves the terminal sessions as they are.
pub open spec fn not_of_sessions(event: Event) -> bool {
    !(event.body is TerminalSessionCreated || event.body is TerminalSessionState)
}

/// Events that say nothing of terminal sessions leave them as they are.
pub proof fn lemma_sessions_untouched(events: Seq<Event>, longer: Seq<Event>, count: int)
    requires
        continues(events, longer),
        events.len() <= count <= longer.len(),
        session_histories(events, events.len() as int) is Ok,
        forall|j: int| events.len() <= j < longer.len() ==> not_of_sessions(#[trigger] longer[j]),
    ensures
        session_histories(longer, count) == session_histories(events, events.len() as int),
    decreases count,
{
    if count == events.len() {
        lemma_sessions_kept(events, longer, count);
    } else {
        lemma_sessions_untouched(events, longer, count - 1);
        assert(not_of_sessions(longer[count - 1]));
    }
}

/// A log goes on from another if it goes on from one that does.
pub proof fn lemma_continues_twice(first: Seq<Event>, second: Seq<Event>, third: Seq<Event>)
    requires
        continues(first, second),
        continues(second, third),
    ensures
        continues(first, third),
{
    lemma_prefix(first, second);
    lemma_prefix(second, third);
    assert(third.take(first.len() as int) =~= first);
}

/// A log that grew goes on from the one before.
pub proof fn lemma_grown_continues(before: &EventDataBase, after: &EventDataBase, count: int)
    requires
        before.wf(),
        after.grown(before, count),
    ensures
        after.wf(),
        continues(before@, after@),
{
    lemma_grown_wf(before, after, count);
}

} // verus!
