//! What agents add to a log leaves it one that they can go on from.
use vstd::prelude::*;

use crate::agent::{divides, estimate_owed};
use crate::context::kind_in;
use crate::event::{
    event_with, lemma_no_failure, lemma_order_of, order_of, AgentKind, ApiState, Computed, Event,
    EventBody, EventDataBase, EventId, ModelChangeCause, ReasoningEffortChangeCause,
};
use crate::input_queue::OrchestratorInput;
use crate::inputs::{
    input_applied, is_abort, one_if, running_input_applied, setting_applied, turn_begun, AgentDesk,
};
use crate::later::{
    carries_on_ended, chat_rules, in_order, lemma_chat_rules_kept, lemma_compacts_untouched,
    lemma_found, lemma_grown_continues, lemma_prefix, lemma_requests_untouched, lemma_rules_kept,
    lemma_sessions_untouched, lemma_tools_untouched, not_of_requests, not_of_sessions, not_of_tools,
    rules_of, LogRules,
};
use crate::notes::{note_of, written, Note};
use crate::profile::MainAgentProfile;
use crate::support::{chat_problem, chats, main_problem, HistoryFacts};
use crate::tool_calls::{
    is_result_of, law_result_follows_call, lemma_state_place, lemma_states_match, tool_history_ok,
    tool_states,
};
use crate::turns::{abort_error, aborted, aborts, carries_on};
use crate::validate::{
    closes_tool, estimate_check, estimate_error, estimates, first_open_tool, follow_up_error,
    has_turn_step, newer_prompt, open_tool, reminder_check, reminder_error, reminds, turn_step,
    turn_tool, valid_source,
};

verus! {

/// Whether an event says nothing of requests, tool calls, compactions and sessions.
pub open spec fn plain(event: Event) -> bool {
    &&& not_of_requests(event)
    &&& not_of_tools(event)
    &&& !(event.body is CompactStateUpdate)
    &&& not_of_sessions(event)
}

/// Which agent a log belongs to.
pub enum Role {
    Main { profile: MainAgentProfile, has_parent_prompt: bool },
    Chat,
}

impl Role {
    /// The part of the agent. A chat bot hears whom an agent without a special part hears.
    pub open spec fn profile(self) -> MainAgentProfile {
        match self {
            Role::Main { profile, .. } => profile,
            Role::Chat => MainAgentProfile::Standard,
        }
    }

    /// Whether the agent knows events of this kind.
    pub open spec fn knows(self, event: Event) -> bool {
        self is Chat ==> chats(event.kind_of())
    }
}

/// What the log of an agent is held to.
pub open spec fn rules_for(events: Seq<Event>, role: Role) -> LogRules {
    match role {
        Role::Main { profile, has_parent_prompt } => rules_of(events, profile, has_parent_prompt),
        Role::Chat => chat_rules(events),
    }
}

/// Whether an agent can go on from the events of a log: nothing is wrong with them.
#[verifier::opaque]
pub open spec fn goes_on(events: Seq<Event>, role: Role, facts: HistoryFacts) -> bool {
    match role {
        Role::Main { profile, has_parent_prompt } => main_problem(
            events,
            profile,
            has_parent_prompt,
            facts,
        ) is None,
        Role::Chat => chat_problem(events, facts) is None,
    }
}

/// Whether an agent can go on from a log.
pub open spec fn supported(edb: &EventDataBase, role: Role, facts: HistoryFacts) -> bool {
    &&& edb.wf()
    &&& 0 < edb@.len() <= usize::MAX
    &&& goes_on(edb@, role, facts)
}

/// Plain events that keep the rules that speak of them leave a log supported.
proof fn lemma_plain_added(
    before: &EventDataBase,
    after: &EventDataBase,
    count: int,
    role: Role,
    facts: HistoryFacts,
)
    requires
        supported(before, role, facts),
        after.grown(before, count),
        forall|j: int|
            before@.len() <= j < after@.len() ==> plain(#[trigger] after@[j]) && role.knows(
                after@[j],
            ),
        forall|j: int|
            before@.len() <= j < after@.len() ==> #[trigger] in_order(
                after@,
                j,
                rules_for(before@, role),
            ),
        forall|j: int|
            before@.len() <= j < after@.len() ==> !carries_on_ended(before@, #[trigger] after@[j]),
    ensures
        goes_on(after@, role, facts),
{
    reveal(goes_on);
    lemma_grown_continues(before, after, count);
    let total = after@.len() as int;
    assert forall|j: int| before@.len() <= j < total implies not_of_requests(
        #[trigger] after@[j],
    ) && not_of_tools(after@[j]) && not_of_sessions(after@[j]) && !(after@[j].body
        is CompactStateUpdate) by {
        assert(plain(after@[j]));
    }
    lemma_requests_untouched(before@, after@, total);
    match role {
        Role::Main { profile, has_parent_prompt } => {
            lemma_tools_untouched(before@, after@, total);
            lemma_compacts_untouched(before@, after@, total);
            lemma_sessions_untouched(before@, after@, total);
            lemma_rules_kept(before@, after@, profile, has_parent_prompt, facts);
        },
        Role::Chat => {
            assert forall|j: int| before@.len() <= j < total implies chats(
                (#[trigger] after@[j]).kind_of(),
            ) by {
                assert(role.knows(after@[j]));
            }
            lemma_chat_rules_kept(before@, after@, facts);
        },
    }
}

/// One plain event that keeps the rules that speak of it leaves a log supported.
proof fn lemma_one_added(
    before: &EventDataBase,
    after: &EventDataBase,
    role: Role,
    facts: HistoryFacts,
)
    requires
        supported(before, role, facts),
        after.grown(before, 1),
        plain(after@[before@.len() as int]),
        role.knows(after@[before@.len() as int]),
        in_order(after@, before@.len() as int, rules_for(before@, role)),
        !carries_on_ended(before@, after@[before@.len() as int]),
    ensures
        goes_on(after@, role, facts),
{
    lemma_plain_added(before, after, 1, role, facts);
}

/// Events that no rule speaks of are in order.
proof fn lemma_unruled(events: Seq<Event>, place: int, rules: LogRules)
    requires
        match events[place].body {
            EventBody::AgentTurn(_) => true,
            EventBody::ContextCleared => true,
            EventBody::ModelChanged(changed) => changed.cause != ModelChangeCause::Initial,
            EventBody::ReasoningEffortChanged(changed) => changed.cause
                != ReasoningEffortChangeCause::Initial,
            _ => false,
        },
    ensures
        in_order(events, place, rules),
        plain(events[place]),
        chats(events[place].kind_of()),
{
    reveal(in_order);
}

/// A prompt from who may prompt the agent is in order.
proof fn lemma_prompt_in_order(events: Seq<Event>, place: int, rules: LogRules)
    requires
        events[place].body is UserPrompt || events[place].body is ManagerPrompt
            || events[place].body is ParentAgentPrompt,
        valid_source(events[place], rules.kind, rules.profile),
    ensures
        in_order(events, place, rules),
        plain(events[place]),
        !(events[place].body is ManagerPrompt) ==> chats(events[place].kind_of()),
{
    reveal(in_order);
}

/// An event that keeps the one rule that speaks of it is in order.
pub proof fn lemma_ruled(events: Seq<Event>, place: int, rules: LogRules)
    requires
        match events[place].body {
            EventBody::WorkMapPendingReminder(reminder) => reminder_error(events, place, reminder)
                is None,
            EventBody::FollowUpPrompt(follow_up) => follow_up_error(
                events,
                events[place].id,
                follow_up.prompt_id,
            ) is None,
            EventBody::UserTurnAborted(abort) => abort_error(events, place, abort) is None,
            EventBody::ContextUsageEstimate(estimate) => estimate_error(events, place, estimate)
                is None,
            _ => false,
        },
    ensures
        in_order(events, place, rules),
        plain(events[place]),
        events[place].body is UserTurnAborted || events[place].body is ContextUsageEstimate
            ==> chats(events[place].kind_of()),
{
    reveal(in_order);
}

/// The reminders of a log are those of earlier prompts.
proof fn lemma_reminders_are_old(
    edb: &EventDataBase,
    place: int,
    role: Role,
    facts: HistoryFacts,
)
    requires
        supported(edb, role, facts),
        role is Main,
        0 <= place < edb@.len(),
    ensures
        !reminds(edb@[place], edb.next_id),
{
    reveal(goes_on);
    let check = reminder_check(edb@);
    lemma_no_failure(check, edb@.len() as int);
    assert(check(place) is None);
    if place > 0 {
        assert(edb@[place - 1].id < edb.next_id);
    }
}

/// The divisions of a log are those of earlier ends of requests.
pub proof fn lemma_estimates_are_old(
    events: Seq<Event>,
    place: int,
    api_state: EventId,
    role: Role,
    facts: HistoryFacts,
)
    requires
        goes_on(events, role, facts),
        0 <= place < events.len(),
        estimates(events[place], api_state),
    ensures
        api_state < events[place].id,
{
    reveal(goes_on);
    let check = estimate_check(events);
    lemma_no_failure(check, events.len() as int);
    assert(check(place) is None);
    lemma_order_of(events, api_state);
}

/// Whether an input may come to an agent: the user speaks to agents of the user, a manager to its
/// worker, and an agent to the one below it.
pub open spec fn may_ask(
    input: OrchestratorInput,
    kind: AgentKind,
    profile: MainAgentProfile,
) -> bool {
    match input {
        OrchestratorInput::UserPrompt(_) => profile != MainAgentProfile::Worker && kind
            != AgentKind::SubAgent,
        OrchestratorInput::ManagerPrompt(_) => profile == MainAgentProfile::Worker,
        OrchestratorInput::ParentAgentPrompt(_) => profile == MainAgentProfile::Standard && kind
            == AgentKind::SubAgent,
        _ => true,
    }
}

#[verifier::rlimit(40)]
proof fn lemma_turn_begun(
    before: &AgentDesk,
    after: &AgentDesk,
    prompt: EventBody,
    reminded: bool,
    role: Role,
    facts: HistoryFacts,
)
    requires
        supported(&before.edb, role, facts),
        turn_begun(before, after, prompt, reminded),
        prompt is UserPrompt || prompt is ManagerPrompt || prompt is ParentAgentPrompt,
        valid_source(
            Event { id: before.edb.next_id, body: prompt },
            kind_in(before.edb@)->0.kind,
            role.profile(),
        ),
        reminded ==> prompt is UserPrompt && role is Main,
    ensures
        goes_on(after.edb@, role, facts),
{
    let early = before.edb@;
    let late = after.edb@;
    let start = early.len() as int;
    let count = 2 + one_if(reminded);
    let id = before.edb.next_id;
    lemma_grown_continues(&before.edb, &after.edb, count);
    lemma_prefix(early, late);
    assert(after.edb.added(&before.edb, 0) == late[start].body);
    assert(after.edb.added(&before.edb, count - 1) == late[start + count - 1].body);
    let rules = rules_for(early, role);
    assert(late[start].id == id);
    lemma_prompt_in_order(late, start, rules);
    lemma_unruled(late, start + count - 1, rules);
    if reminded {
        assert(after.edb.added(&before.edb, 1) == late[start + 1].body);
        assert forall|i: int| 0 <= i < start + 1 implies !reminds(#[trigger] late[i], id) by {
            if i < start {
                assert(late[i] == early[i]);
                lemma_reminders_are_old(&before.edb, i, role, facts);
            }
        }
        lemma_ruled(late, start + 1, rules);
    }
    assert forall|j: int| start <= j < late.len() implies #[trigger] in_order(late, j, rules) by {
        assert(j == start || j == start + count - 1 || (reminded && j == start + 1));
    }
    assert forall|j: int| start <= j < late.len() implies plain(#[trigger] late[j])
        && !carries_on_ended(early, late[j]) by {
        assert(j == start || j == start + count - 1 || (reminded && j == start + 1));
    }
    lemma_plain_added(&before.edb, &after.edb, count, role, facts);
}

proof fn lemma_setting_applied(
    input: OrchestratorInput,
    before: &AgentDesk,
    after: &AgentDesk,
    result: Result<(), Seq<char>>,
    role: Role,
    facts: HistoryFacts,
)
    requires
        supported(&before.edb, role, facts),
        setting_applied(input, before, after, result),
        !(input is RewindContext),
    ensures
        goes_on(after.edb@, role, facts),
{
    if after.edb != before.edb {
        let early = before.edb@;
        let late = after.edb@;
        let start = early.len() as int;
        let count = late.len() - start;
        lemma_grown_continues(&before.edb, &after.edb, count);
        let rules = rules_for(early, role);
        assert forall|j: int| start <= j < late.len() implies #[trigger] in_order(late, j, rules)
            && plain(late[j]) && !carries_on_ended(early, late[j]) by {
            assert(after.edb.added(&before.edb, j - start) == late[j].body);
            lemma_unruled(late, j, rules);
        }
        assert forall|j: int| start <= j < late.len() implies plain(#[trigger] late[j])
            && !carries_on_ended(early, late[j]) by {
            assert(in_order(late, j, rules));
        }
        lemma_plain_added(&before.edb, &after.edb, count, role, facts);
    }
}

/// Whatever an agent that rests is asked by those who may ask it, but for going back, leaves its
/// log one that it can go on from.
pub proof fn law_input_keeps_the_log_supported(
    input: OrchestratorInput,
    remind: bool,
    open_work: Computed<bool>,
    before: &AgentDesk,
    after: &AgentDesk,
    result: Result<(), Seq<char>>,
    role: Role,
    facts: HistoryFacts,
)
    requires
        supported(&before.edb, role, facts),
        input_applied(input, remind, open_work, before, after, result),
        !(input is RewindContext),
        may_ask(input, kind_in(before.edb@)->0.kind, role.profile()),
        remind ==> role is Main,
    ensures
        goes_on(after.edb@, role, facts),
{
    match input {
        OrchestratorInput::UserPrompt(content) => {
            if result is Ok {
                lemma_turn_begun(
                    before,
                    after,
                    EventBody::UserPrompt(content),
                    remind && open_work == Computed::<bool>::Value(true),
                    role,
                    facts,
                );
            }
        },
        OrchestratorInput::ManagerPrompt(content) => {
            lemma_turn_begun(
                before,
                after,
                EventBody::ManagerPrompt(content),
                false,
                role,
                facts,
            );
        },
        OrchestratorInput::ParentAgentPrompt(content) => {
            lemma_turn_begun(
                before,
                after,
                EventBody::ParentAgentPrompt(content),
                false,
                role,
                facts,
            );
        },
        _ => {
            lemma_setting_applied(
                input,
                before,
                after,
                result,
                role,
                facts,
            );
        },
    }
}

/// Whether a turn of the user can be joined: it has begun and not ended, no later prompt of the
/// user stands after it, and none of the tool calls of the log is open.
pub open spec fn can_be_joined(events: Seq<Event>, prompt: EventId, next: EventId) -> bool {
    &&& event_with(events, prompt) matches Some(found) && found.body is UserPrompt
    &&& forall|i: int|
        0 <= i < events.len() && (#[trigger] events[i]).body is UserPrompt ==> events[i].id
            <= prompt
    &&& has_turn_step(events, prompt, next, false)
    &&& !has_turn_step(events, prompt, next, true)
    &&& !aborted(events, prompt)
    &&& tool_states(events, events.len() as int) matches Ok(calls) && forall|k: int|
        0 <= k < calls.len() ==> (#[trigger] calls[k]).finished
}

proof fn lemma_no_newer(events: Seq<Event>, place: int, prompt: EventId, follow_up: EventId)
    requires
        0 <= place <= events.len(),
        forall|i: int|
            0 <= i < events.len() && (#[trigger] events[i]).body is UserPrompt ==> events[i].id
                <= prompt,
    ensures
        newer_prompt(events, place, prompt, follow_up) is None,
    decreases events.len() - place,
{
    if place < events.len() {
        lemma_no_newer(events, place + 1, prompt, follow_up);
    }
}

proof fn lemma_no_open_tool(events: Seq<Event>, place: int, prompt: EventId, follow_up: EventId)
    requires
        0 <= place <= events.len(),
        forall|p: int|
            0 <= p < events.len() ==> !(#[trigger] open_tool(events, p, prompt, follow_up)),
    ensures
        first_open_tool(events, place, prompt, follow_up) is None,
    decreases events.len() - place,
{
    if place < events.len() {
        assert(!open_tool(events, place, prompt, follow_up));
        lemma_no_open_tool(events, place + 1, prompt, follow_up);
    }
}

/// A follow-up at the end of a log whose turn can be joined keeps the rules of follow-ups.
proof fn lemma_joins(before: &EventDataBase, after: &EventDataBase, prompt: EventId)
    requires
        before.wf(),
        before@.len() <= usize::MAX,
        after.grown(before, 1),
        after@.last().body is FollowUpPrompt,
        can_be_joined(before@, prompt, before.next_id),
    ensures
        follow_up_error(after@, before.next_id, prompt) is None,
{
    let early = before@;
    let late = after@;
    let next = before.next_id;
    let start = early.len() as int;
    lemma_grown_continues(before, after, 1);
    lemma_prefix(early, late);
    lemma_found(early, late, prompt);
    lemma_order_of(early, prompt);
    assert(early[order_of(early, prompt)->0].id == prompt);
    assert forall|i: int| 0 <= i < late.len() && (#[trigger] late[i]).body is UserPrompt implies late[i].id
        <= prompt by {
        assert(i < start);
        assert(late[i] == early[i]);
    }
    lemma_no_newer(late, 0, prompt, next);
    let begun = choose|i: int|
        0 <= i < early.len() && turn_step(#[trigger] early[i], prompt, next, false);
    assert(turn_step(late[begun], prompt, next, false));
    if has_turn_step(late, prompt, next, true) {
        let i = choose|i: int|
            0 <= i < late.len() && turn_step(#[trigger] late[i], prompt, next, true);
        assert(i < start);
        assert(turn_step(early[i], prompt, next, true));
    }
    let calls = tool_states(early, start)->Ok_0;
    lemma_states_match(early, start);
    assert(tool_history_ok(early));
    assert forall|p: int| 0 <= p < late.len() implies !(#[trigger] open_tool(
        late,
        p,
        prompt,
        next,
    )) by {
        if turn_tool(late[p], prompt, next, None) {
            assert(p < start);
            assert(late[p] == early[p]);
            let id = early[p].id;
            let k = lemma_state_place(calls, id);
            assert(calls[k].finished);
            let r = choose|r: int| 0 <= r < start && is_result_of(#[trigger] early[r], id);
            law_result_follows_call(early, r, id);
            let i = choose|i: int|
                0 <= i < r && (#[trigger] early[i]).id == id && early[i].body is ToolCall;
            assert(i == p) by {
                if i < p {
                    assert(early[i].id < early[p].id);
                } else if p < i {
                    assert(early[p].id < early[i].id);
                }
            }
            assert(early[p].id < early[r].id);
            assert(late[r] == early[r]);
            assert(closes_tool(late[r], id, prompt, next));
        }
    }
    lemma_no_open_tool(late, 0, prompt, next);
}

/// What carries on a turn that was not ended carries on no ended turn.
pub proof fn lemma_not_ended(events: Seq<Event>, event: Event, prompt: EventId)
    requires
        !aborted(events, prompt),
        match event.body {
            EventBody::FollowUpPrompt(follow_up) => follow_up.prompt_id == prompt,
            EventBody::UserTurnAborted(abort) => abort.prompt_id == prompt,
            _ => false,
        },
    ensures
        !carries_on_ended(events, event),
{
    if carries_on_ended(events, event) {
        let p = choose|p: int|
            0 <= p < events.len() && ((#[trigger] events[p]).body
                matches EventBody::UserTurnAborted(abort) && carries_on(event, abort.prompt_id));
        assert(aborts(events[p], prompt));
    }
}

/// The end of an active turn at the end of a log keeps the rules of such ends.
proof fn lemma_abort_in_order(before: &EventDataBase, after: &EventDataBase, prompt: EventId)
    requires
        before.wf(),
        event_with(before@, prompt) matches Some(found) && found.root_prompt(),
        after.grown(before, 1),
        is_abort(after.added(before, 0), prompt),
    ensures
        is_abort(after@[before@.len() as int].body, prompt),
        abort_error(
            after@,
            before@.len() as int,
            after@[before@.len() as int].body->UserTurnAborted_0,
        ) is None,
{
    let early = before@;
    let late = after@;
    lemma_grown_continues(before, after, 1);
    lemma_prefix(early, late);
    assert(after.added(before, 0) == late[early.len() as int].body);
    lemma_found(early, late, prompt);
    lemma_order_of(early, prompt);
    assert(early[order_of(early, prompt)->0].id == prompt);
}

/// Whatever is asked while a turn runs, but for going back, leaves the log one that the agent can
/// go on from, where a prompt of the user finds a turn that it can join.
#[verifier::rlimit(40)]
pub proof fn law_running_input_keeps_the_log_supported(
    input: OrchestratorInput,
    prompt: EventId,
    before: &AgentDesk,
    after: &AgentDesk,
    result: Result<(), Seq<char>>,
    role: Role,
    facts: HistoryFacts,
)
    requires
        supported(&before.edb, role, facts),
        running_input_applied(input, prompt, before, after, result),
        !(input is RewindContext),
        input is UserPrompt ==> role is Main && can_be_joined(
            before.edb@,
            prompt,
            before.edb.next_id,
        ),
    ensures
        goes_on(after.edb@, role, facts),
{
    match input {
        OrchestratorInput::UserPrompt(content) => {
            let early = before.edb@;
            let late = after.edb@;
            let start = early.len() as int;
            assert(after.edb.added(&before.edb, 0) == late[start].body);
            lemma_joins(&before.edb, &after.edb, prompt);
            lemma_ruled(late, start, rules_for(early, role));
            lemma_not_ended(early, late[start], prompt);
            lemma_one_added(&before.edb, &after.edb, role, facts);
        },
        OrchestratorInput::ManagerPrompt(_) => {},
        OrchestratorInput::ParentAgentPrompt(_) => {},
        _ => {
            lemma_setting_applied(
                input,
                before,
                after,
                result,
                role,
                facts,
            );
        },
    }
}

/// Ending a turn of the log because the user asks for it, once, leaves the log one that the agent
/// can go on from.
#[verifier::rlimit(40)]
pub proof fn law_abort_keeps_the_log_supported(
    before: &EventDataBase,
    after: &EventDataBase,
    prompt: EventId,
    role: Role,
    facts: HistoryFacts,
)
    requires
        supported(before, role, facts),
        event_with(before@, prompt) matches Some(found) && found.root_prompt(),
        !aborted(before@, prompt),
        after.grown(before, 1),
        is_abort(after.added(before, 0), prompt),
    ensures
        goes_on(after@, role, facts),
{
    let start = before@.len() as int;
    lemma_abort_in_order(before, after, prompt);
    lemma_ruled(after@, start, rules_for(before@, role));
    lemma_not_ended(before@, after@[start], prompt);
    lemma_one_added(before, after, role, facts);
}

/// A step of a turn leaves the log one that the agent can go on from.
pub proof fn law_turn_step_keeps_the_log_supported(
    before: &EventDataBase,
    after: &EventDataBase,
    role: Role,
    facts: HistoryFacts,
)
    requires
        supported(before, role, facts),
        after.grown(before, 1),
        after.added(before, 0) is AgentTurn,
    ensures
        goes_on(after@, role, facts),
{
    assert(after.added(before, 0) == after@[before@.len() as int].body);
    lemma_unruled(
        after@,
        before@.len() as int,
        rules_for(before@, role),
    );
    lemma_one_added(before, after, role, facts);
}

/// Whether an event is the end of a request that reports so many tokens.
pub open spec fn charged(event: Option<Event>, sum: u64) -> bool {
    match event {
        Some(Event { body: EventBody::ApiStateUpdate(update), .. }) => {
            &&& update.state == ApiState::Completed || update.state == ApiState::Interrupted
            &&& match update.usage {
                Some(usage) => usage.total_tokens == sum,
                None => false,
            }
        },
        _ => false,
    }
}

/// A division of the tokens of a request that were not divided yet keeps the rules of divisions.
#[verifier::rlimit(40)]
proof fn lemma_estimate_in_order(
    before: &EventDataBase,
    after: &EventDataBase,
    api_state: EventId,
    sum: u64,
)
    requires
        before.wf(),
        estimate_owed(before@, Some(api_state)) is Some,
        charged(event_with(before@, api_state), sum),
        written(before, after, seq![Note::Estimate { api_state, sum }]),
    ensures
        after.grown(before, 1),
        after@[before@.len() as int].body is ContextUsageEstimate,
        estimate_error(
            after@,
            before@.len() as int,
            after@[before@.len() as int].body->ContextUsageEstimate_0,
        ) is None,
{
    let early = before@;
    let late = after@;
    let start = early.len() as int;
    lemma_grown_continues(before, after, 1);
    lemma_prefix(early, late);
    assert(note_of(after.added(before, 0)) == (Note::Estimate { api_state, sum }));
    assert(after.added(before, 0) == late[start].body);
    lemma_found(early, late, api_state);
    lemma_order_of(early, api_state);
    assert(early[order_of(early, api_state)->0].id == api_state);
    assert forall|i: int| 0 <= i < start implies !estimates(#[trigger] late[i], api_state) by {
        assert(late[i] == early[i]);
        assert(!divides(early[i], api_state));
    }
}

/// Dividing the tokens that the end of a request of the log reports leaves the log one that the
/// agent can go on from.
#[verifier::rlimit(40)]
pub proof fn law_estimate_keeps_the_log_supported(
    before: &EventDataBase,
    after: &EventDataBase,
    api_state: EventId,
    sum: u64,
    role: Role,
    facts: HistoryFacts,
)
    requires
        supported(before, role, facts),
        estimate_owed(before@, Some(api_state)) is Some,
        charged(event_with(before@, api_state), sum),
        written(before, after, seq![Note::Estimate { api_state, sum }]),
    ensures
        goes_on(after@, role, facts),
{
    let start = before@.len() as int;
    lemma_estimate_in_order(before, after, api_state, sum);
    lemma_ruled(after@, start, rules_for(before@, role));
    lemma_one_added(before, after, role, facts);
}

} // verus!
