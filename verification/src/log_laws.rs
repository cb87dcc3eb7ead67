//! What can be relied on of a log that keeps the rules: where its first model and effort stand, who
//! speaks in it, what a follow-up joins, and what reminders, clones, estimates and titles go with.
use vstd::prelude::*;

use crate::api_calls::api_states;
use crate::compacts::compact_histories;
use crate::context::kind_in;
use crate::event::{
    event_with, first_failure, AgentKind, AgentTitleChanged, ApiState, Computed,
    ContextUsageEstimate, Event, EventBody, EventId, ModelChangeCause, ReasoningEffortChangeCause,
    WorkMapPendingReminder,
};
use crate::json::{json_read, JsonView};
use crate::profile::MainAgentProfile;
use crate::sessions::session_histories;
use crate::support::{
    chat_kind_check, chat_problem, chat_source_check, late_prompt_check, main_problem,
    prompt_check, prompt_names, HistoryFacts,
};
use crate::tool_calls::{tool_call_with, tool_states};
use crate::turns::abort_check;
use crate::validate::{
    clone_check, clone_error, closes_tool, ended_by_requests, estimate_check, estimate_error,
    estimates, first_open_tool, follow_up_check, follow_up_error, has_turn_step,
    initial_state_check, newer_prompt, open_tool, reminder_check, reminder_error, reminds,
    request_called_tool, source_check, title_change_error, title_check, turn_ended, turn_step,
    turn_tool,
};

verus! {

/// A log passes a check if each of its events does; otherwise the first event that does not says
/// why.
pub proof fn law_first_failure_is_told<E>(check: spec_fn(int) -> Option<E>, count: int)
    ensures
        first_failure(check, count) is None <==> (forall|i: int|
            0 <= i < count ==> #[trigger] check(i) is None),
        first_failure(check, count) matches Some(error) ==> exists|i: int|
            0 <= i < count && #[trigger] check(i) == Some(error) && (forall|j: int|
                0 <= j < i ==> #[trigger] check(j) is None),
    decreases count,
{
    if count > 0 {
        law_first_failure_is_told(check, count - 1);
        if first_failure(check, count - 1) is None {
            assert(forall|j: int| 0 <= j < count - 1 ==> #[trigger] check(j) is None);
            if check(count - 1) is Some {
                assert(check(count - 1) == first_failure(check, count));
            } else {
                assert forall|i: int| 0 <= i < count implies #[trigger] check(i) is None by {
                    if i < count - 1 {
                        assert(check(i) is None);
                    }
                }
            }
        } else {
            let error = first_failure(check, count - 1)->0;
            let i = choose|i: int|
                0 <= i < count - 1 && #[trigger] check(i) == Some(error) && (forall|j: int|
                    0 <= j < i ==> #[trigger] check(j) is None);
            assert(check(i) == Some(error));
        }
    }
}

/// Whether an event chooses the first model and stands elsewhere than at its place.
pub open spec fn strays(event: Event, model: EventId, effort: EventId) -> bool {
    ||| event.id != model && (event.body matches EventBody::ModelChanged(changed) && changed.cause
        == ModelChangeCause::Initial)
    ||| event.id != effort && (event.body matches EventBody::ReasoningEffortChanged(changed)
        && changed.cause == ReasoningEffortChangeCause::Initial)
}

/// The first model and the first effort are chosen where a log begins and nowhere else.
pub proof fn law_first_choices_stand_at_the_beginning(
    events: Seq<Event>,
    model: EventId,
    effort: EventId,
)
    ensures
        first_failure(initial_state_check(events, model, effort), events.len() as int) is None <==> (
        forall|i: int| 0 <= i < events.len() ==> !strays(#[trigger] events[i], model, effort)),
{
    let check = initial_state_check(events, model, effort);
    law_first_failure_is_told(check, events.len() as int);
    assert forall|i: int| 0 <= i < events.len() implies (check(i) is None) == !strays(
        #[trigger] events[i],
        model,
        effort,
    ) by {}
    if first_failure(check, events.len() as int) is None {
        assert forall|i: int| 0 <= i < events.len() implies !strays(
            #[trigger] events[i],
            model,
            effort,
        ) by {
            assert(check(i) is None);
        }
    } else {
        let i = choose|i: int| 0 <= i < events.len() && !(#[trigger] check(i) is None);
        assert(strays(events[i], model, effort));
    }
}

/// The user speaks to main agents and managers, a manager to its worker, and a parent agent to its
/// sub-agent. Nobody else is heard, and no other event is refused.
pub proof fn law_agents_hear_whom_they_work_for(
    events: Seq<Event>,
    place: int,
    kind: AgentKind,
    profile: MainAgentProfile,
)
    ensures
        events[place].body is ManagerPrompt ==> (source_check(events, kind, profile)(place) is None
            <==> profile == MainAgentProfile::Worker),
        events[place].body is UserPrompt && profile == MainAgentProfile::Worker ==> source_check(
            events,
            kind,
            profile,
        )(place) is Some,
        events[place].body is UserPrompt && kind == AgentKind::SubAgent ==> source_check(
            events,
            kind,
            profile,
        )(place) is Some,
        events[place].body is UserPrompt && kind != AgentKind::SubAgent && profile
            != MainAgentProfile::Worker ==> source_check(events, kind, profile)(place) is None,
        events[place].body is ParentAgentPrompt ==> (source_check(events, kind, profile)(place)
            is None <==> profile == MainAgentProfile::Standard && kind == AgentKind::SubAgent),
        !(events[place].body is ManagerPrompt || events[place].body is UserPrompt
            || events[place].body is ParentAgentPrompt) ==> source_check(events, kind, profile)(
            place,
        ) is None,
{
}

/// No newer prompt stands between a prompt and its follow-up exactly if none is found.
proof fn lemma_newer_prompt(events: Seq<Event>, place: int, prompt: EventId, follow_up: EventId)
    requires
        0 <= place,
    ensures
        newer_prompt(events, place, prompt, follow_up) is None <==> (forall|i: int|
            place <= i < events.len() ==> !((#[trigger] events[i]).body is UserPrompt && prompt
                < events[i].id < follow_up)),
    decreases events.len() - place,
{
    if place < events.len() {
        lemma_newer_prompt(events, place + 1, prompt, follow_up);
    }
}

/// Whether an event is a tool call of a turn before its follow-up.
pub open spec fn calls_before(event: Event, prompt: EventId, follow_up: EventId) -> bool {
    &&& prompt < event.id < follow_up
    &&& event.body matches EventBody::ToolCall(call)
    &&& call.prompt_id == prompt
}

/// Whether an event is the result of a tool call and stands before a follow-up.
pub open spec fn results_before(event: Event, tool_call: EventId, prompt: EventId, follow_up: EventId) -> bool {
    &&& prompt < event.id < follow_up
    &&& event.body matches EventBody::ToolCallResult(result)
    &&& result.tool_call_id == tool_call
}

/// Whether a tool call of a turn has its result before a follow-up.
pub open spec fn has_result(events: Seq<Event>, place: int, prompt: EventId, follow_up: EventId) -> bool {
    exists|j: int|
        place < j < events.len() && results_before(
            #[trigger] events[j],
            events[place].id,
            prompt,
            follow_up,
        )
}

/// A tool call is open exactly if it belongs to the turn and has no result.
proof fn lemma_open_tool(events: Seq<Event>, place: int, prompt: EventId, follow_up: EventId)
    requires
        0 <= place < events.len(),
    ensures
        open_tool(events, place, prompt, follow_up) == (calls_before(
            events[place],
            prompt,
            follow_up,
        ) && !has_result(events, place, prompt, follow_up)),
{
    let id = events[place].id;
    assert(forall|j: int|
        #![trigger events[j]]
        closes_tool(events[j], id, prompt, follow_up) == results_before(
            events[j],
            id,
            prompt,
            follow_up,
        ));
    if has_result(events, place, prompt, follow_up) {
        let j = choose|j: int|
            place < j < events.len() && results_before(#[trigger] events[j], id, prompt, follow_up);
        assert(closes_tool(events[j], id, prompt, follow_up));
    }
}

/// No tool call is open exactly if none is found.
proof fn lemma_first_open_tool(events: Seq<Event>, place: int, prompt: EventId, follow_up: EventId)
    requires
        0 <= place,
    ensures
        first_open_tool(events, place, prompt, follow_up) is None <==> (forall|i: int|
            place <= i < events.len() && calls_before(#[trigger] events[i], prompt, follow_up)
                ==> has_result(events, i, prompt, follow_up)),
    decreases events.len() - place,
{
    if place < events.len() {
        lemma_open_tool(events, place, prompt, follow_up);
        lemma_first_open_tool(events, place + 1, prompt, follow_up);
    }
}

/// A follow-up is taken up exactly if it joins an earlier prompt of the user, no newer prompt of the
/// user stands between them, the turn has not ended, and every tool call of the turn has its result.
pub proof fn law_follow_ups_join_running_turns(events: Seq<Event>, event: EventId, prompt: EventId)
    ensures
        follow_up_error(events, event, prompt) is None <==> {
            &&& prompt < event
            &&& event_with(events, prompt) matches Some(found)
            &&& found.body is UserPrompt
            &&& forall|i: int|
                0 <= i < events.len() ==> !((#[trigger] events[i]).body is UserPrompt && prompt
                    < events[i].id < event)
            &&& !turn_ended(events, prompt, event)
            &&& forall|i: int|
                0 <= i < events.len() && calls_before(#[trigger] events[i], prompt, event)
                    ==> has_result(events, i, prompt, event)
        },
{
    lemma_newer_prompt(events, 0, prompt, event);
    lemma_first_open_tool(events, 0, prompt, event);
}

/// Whether an event is a step of a turn before its follow-up.
pub open spec fn steps_before(event: Event, prompt: EventId, follow_up: EventId) -> bool {
    &&& prompt < event.id < follow_up
    &&& event.body matches EventBody::AgentTurn(turn)
    &&& turn.prompt_id == prompt
}

/// A turn that has steps of its own has ended exactly if one of them is a last one.
pub proof fn law_turns_end_with_their_last_step(
    events: Seq<Event>,
    place: int,
    prompt: EventId,
    follow_up: EventId,
)
    requires
        0 <= place < events.len(),
        steps_before(events[place], prompt, follow_up),
    ensures
        turn_ended(events, prompt, follow_up) <==> exists|i: int|
            0 <= i < events.len() && steps_before(#[trigger] events[i], prompt, follow_up) && (
            events[i].body matches EventBody::AgentTurn(turn) && turn.state.terminal()),
{
    assert(turn_step(events[place], prompt, follow_up, false));
    assert(has_turn_step(events, prompt, follow_up, false));
    if has_turn_step(events, prompt, follow_up, true) {
        let i = choose|i: int|
            0 <= i < events.len() && turn_step(#[trigger] events[i], prompt, follow_up, true);
        assert(steps_before(events[i], prompt, follow_up));
    }
    if exists|i: int|
        0 <= i < events.len() && steps_before(#[trigger] events[i], prompt, follow_up) && (
        events[i].body matches EventBody::AgentTurn(turn) && turn.state.terminal()) {
        let i = choose|i: int|
            0 <= i < events.len() && steps_before(#[trigger] events[i], prompt, follow_up) && (
            events[i].body matches EventBody::AgentTurn(turn) && turn.state.terminal());
        assert(turn_step(events[i], prompt, follow_up, true));
    }
}

/// Without steps of its own a turn ends by its requests: one that failed or was interrupted ends it,
/// one that begins or goes on leaves it running, and one that completed ends it if it called no
/// tool. Other events change nothing.
pub proof fn law_turns_end_with_their_requests(
    events: Seq<Event>,
    count: int,
    prompt: EventId,
    follow_up: EventId,
)
    requires
        0 <= count < events.len(),
    ensures
        !ended_by_requests(events, 0, prompt, follow_up),
        events[count].body matches EventBody::ApiStateUpdate(update) ==> (update.prompt_id == prompt
            && prompt < events[count].id < follow_up ==> {
            &&& update.state == ApiState::Error || update.state == ApiState::Interrupted
                ==> ended_by_requests(events, count + 1, prompt, follow_up)
            &&& update.state == ApiState::Requesting || update.state == ApiState::Streaming
                || update.state == ApiState::Retrying ==> !ended_by_requests(
                events,
                count + 1,
                prompt,
                follow_up,
            )
            &&& update.state == ApiState::Completed && !(exists|i: int|
                0 <= i < count && calls_before(#[trigger] events[i], prompt, follow_up) && (
                events[i].body matches EventBody::ToolCall(call) && call.api_call_id
                    == update.api_call_id)) ==> ended_by_requests(
                events,
                count + 1,
                prompt,
                follow_up,
            )
        }),
        !(prompt < events[count].id < follow_up && (
        events[count].body matches EventBody::ApiStateUpdate(update) && update.prompt_id == prompt))
            ==> ended_by_requests(events, count + 1, prompt, follow_up) == ended_by_requests(
            events,
            count,
            prompt,
            follow_up,
        ),
{
    if let EventBody::ApiStateUpdate(update) = events[count].body {
        if request_called_tool(events, count, prompt, follow_up, update.api_call_id) {
            let i = choose|i: int|
                0 <= i < count && turn_tool(
                    #[trigger] events[i],
                    prompt,
                    follow_up,
                    Some(update.api_call_id),
                );
            assert(calls_before(events[i], prompt, follow_up));
        }
    }
}

/// A reminder is taken up exactly if it follows at once the user's prompt that it is for, work is
/// open, and no reminder for that prompt came before.
pub proof fn law_reminders_follow_their_prompts(
    events: Seq<Event>,
    place: int,
    reminder: WorkMapPendingReminder,
)
    ensures
        reminder_error(events, place, reminder) is None <==> {
            &&& place > 0
            &&& events[place - 1].body is UserPrompt
            &&& events[place - 1].id == reminder.prompt_id
            &&& reminder.work_before matches Computed::Value(open)
            &&& open
            &&& forall|i: int|
                0 <= i < place ==> !(#[trigger] events[i].body matches EventBody::WorkMapPendingReminder(
                    earlier,
                ) && earlier.prompt_id == reminder.prompt_id)
        },
{
    let prompt = reminder.prompt_id;
    assert(forall|i: int|
        #![trigger events[i]]
        reminds(events[i], prompt) == (events[i].body matches EventBody::WorkMapPendingReminder(
            earlier,
        ) && earlier.prompt_id == prompt));
    if exists|i: int| 0 <= i < place && reminds(#[trigger] events[i], prompt) {
        let i = choose|i: int| 0 <= i < place && reminds(#[trigger] events[i], prompt);
        assert(events[i].body is WorkMapPendingReminder);
    }
}

/// The end of a clone is taken up exactly if it follows at once a title of the host's own, and names
/// that title.
pub proof fn law_clones_follow_their_titles(events: Seq<Event>, place: int, title: String)
    ensures
        clone_error(events, place, title) is None <==> place > 0 && (
        events[place - 1].body matches EventBody::AgentTitleChanged(change) && change.tool_call_id
            is None && change.title@ == title@),
{
}

/// An estimate is taken up exactly if it divides all the tokens that an earlier end of a request
/// reported, and no earlier estimate does.
pub proof fn law_estimates_divide_what_was_reported(
    events: Seq<Event>,
    place: int,
    estimate: ContextUsageEstimate,
)
    ensures
        estimate_error(events, place, estimate) is None <==> {
            &&& event_with(events, estimate.api_state_event_id) matches Some(found)
            &&& found.id < events[place].id
            &&& found.body matches EventBody::ApiStateUpdate(update)
            &&& update.state == ApiState::Completed || update.state == ApiState::Interrupted
            &&& update.usage matches Some(usage)
            &&& estimate.sum == usage.total_tokens
            &&& forall|i: int|
                0 <= i < place ==> !(#[trigger] events[i].body matches EventBody::ContextUsageEstimate(
                    earlier,
                ) && earlier.api_state_event_id == estimate.api_state_event_id)
        },
{
    let api_state = estimate.api_state_event_id;
    if exists|i: int| 0 <= i < place && estimates(#[trigger] events[i], api_state) {
        let i = choose|i: int| 0 <= i < place && estimates(#[trigger] events[i], api_state);
        assert(events[i].body is ContextUsageEstimate);
    }
    if exists|i: int|
        0 <= i < place && (#[trigger] events[i].body matches EventBody::ContextUsageEstimate(
            earlier,
        ) && earlier.api_state_event_id == api_state) {
        let i = choose|i: int|
            0 <= i < place && (#[trigger] events[i].body matches EventBody::ContextUsageEstimate(
                earlier,
            ) && earlier.api_state_event_id == api_state);
        assert(estimates(events[i], api_state));
    }
}

/// A title that a tool call set is taken up exactly if the call is there, its arguments are one text
/// under `title`, and the title is the canonical form of what it asked for.
pub proof fn law_titles_are_what_was_asked_for(
    events: Seq<Event>,
    place: int,
    change: AgentTitleChanged,
    tool_call: EventId,
)
    requires
        change.tool_call_id == Some(tool_call),
    ensures
        title_change_error(events, place, change) is None <==> {
            &&& tool_call_with(events, tool_call) matches Some(call)
            &&& json_read(call.arguments@) matches Some(JsonView::Object(entries))
            &&& forall|key: Seq<char>| #[trigger] entries.dom().contains(key) <==> key == "title"@
            &&& entries["title"@] is Text
            &&& change.requested matches Computed::Value(requested)
            &&& requested@ == change.title@
        },
{
    if let Some(call) = tool_call_with(events, tool_call) {
        if let Some(JsonView::Object(entries)) = json_read(call.arguments@) {
            if entries.dom() == set!["title"@] {
                assert(entries.dom().contains("title"@));
                assert forall|key: Seq<char>| #[trigger] entries.dom().contains(key) <==> key
                    == "title"@ by {}
            }
            if forall|key: Seq<char>| #[trigger] entries.dom().contains(key) <==> key == "title"@ {
                assert(entries.dom() =~= set!["title"@]);
            }
        }
    }
}

/// A title of the host's own is taken up exactly if it has a canonical form.
pub proof fn law_titles_of_the_host_are_titles(
    events: Seq<Event>,
    place: int,
    change: AgentTitleChanged,
)
    requires
        change.tool_call_id is None,
    ensures
        title_change_error(events, place, change) is None <==> change.normalized is Value,
{
}

/// The checks of a log speak of the events that they are about, and of no others.
pub proof fn law_checks_know_their_events(events: Seq<Event>, place: int)
    ensures
        !(events[place].body is FollowUpPrompt) ==> follow_up_check(events)(place) is None,
        events[place].body matches EventBody::FollowUpPrompt(follow_up) ==> follow_up_check(events)(
            place,
        ) == follow_up_error(events, events[place].id, follow_up.prompt_id),
        !(events[place].body is WorkMapPendingReminder) ==> reminder_check(events)(place) is None,
        events[place].body matches EventBody::WorkMapPendingReminder(reminder) ==> reminder_check(
            events,
        )(place) == reminder_error(events, place, reminder),
        !(events[place].body is CloneCompleted) ==> clone_check(events)(place) is None,
        events[place].body matches EventBody::CloneCompleted(title) ==> clone_check(events)(place)
            == clone_error(events, place, title),
        !(events[place].body is ContextUsageEstimate) ==> estimate_check(events)(place) is None,
        events[place].body matches EventBody::ContextUsageEstimate(estimate) ==> estimate_check(
            events,
        )(place) == estimate_error(events, place, estimate),
        !(events[place].body is AgentTitleChanged) ==> title_check(events)(place) is None,
        events[place].body matches EventBody::AgentTitleChanged(change) ==> title_check(events)(
            place,
        ) == title_change_error(events, place, change),
{
}

/// A prompt of the beginning is in its place exactly if the event of its number is that prompt.
pub proof fn law_prompts_stand_in_their_places(events: Seq<Event>, names: Seq<Seq<char>>, place: int)
    requires
        0 <= place < u64::MAX,
    ensures
        prompt_check(events, names)(place) is None <==> (event_with(
            events,
            (place + 1) as u64,
        ) matches Some(found) && (found.body matches EventBody::SystemPrompt(name) && name@
            == names[place])),
{
}

/// No prompt of the system stands behind the beginning of a log.
pub proof fn law_no_prompt_comes_late(events: Seq<Event>, start: int, place: int)
    ensures
        late_prompt_check(events, start)(place) is None <==> !(events[place].body is SystemPrompt
            && place >= start),
{
}

/// A chat bot hears its parent agent if it is a sub-agent, and otherwise the user.
pub proof fn law_chat_bots_hear_whom_they_work_for(events: Seq<Event>, place: int, kind: AgentKind)
    ensures
        events[place].body is UserPrompt ==> (chat_source_check(events, kind)(place) is None <==> kind
            != AgentKind::SubAgent),
        events[place].body is ParentAgentPrompt ==> (chat_source_check(events, kind)(place) is None
            <==> kind == AgentKind::SubAgent),
        !(events[place].body is UserPrompt || events[place].body is ParentAgentPrompt)
            ==> chat_source_check(events, kind)(place) is None,
        events[place].body is ToolCall || events[place].body is ToolCallResult || events[place].body
            is ManagerPrompt || events[place].body is FollowUpPrompt || events[place].body
            is CompactStateUpdate || events[place].body is SystemPrompt ==> chat_kind_check(events)(
            place,
        ) is Some,
        events[place].body is UserPrompt || events[place].body is ParentAgentPrompt
            || events[place].body is AssistResponse || events[place].body is ApiStateUpdate
            || events[place].body is AgentTurn || events[place].body is ModelChanged
            || events[place].body is UserTurnAborted || events[place].body is ContextCleared
            ==> chat_kind_check(events)(place) is None,
{
}

/// An agent goes on from a log with something in it exactly if it is the log of such an agent, begins
/// with its prompts, a model and an effort, and breaks no rule.
pub proof fn law_agents_go_on_from_their_own_logs(
    events: Seq<Event>,
    profile: MainAgentProfile,
    has_parent_prompt: bool,
    facts: HistoryFacts,
)
    requires
        events.len() > 0,
    ensures
        main_problem(events, profile, has_parent_prompt, facts) is None <==> {
            let count = events.len() as int;
            let names = prompt_names(profile, has_parent_prompt);
            let model = (names.len() + 1) as u64;
            let effort = (names.len() + 2) as u64;
            &&& kind_in(events) matches Some(definition)
            &&& definition.orchestrator@ == profile.orchestrator()
            &&& first_failure(prompt_check(events, names), names.len() as int) is None
            &&& event_with(events, model) matches Some(first)
            &&& first.body matches EventBody::ModelChanged(chosen)
            &&& chosen.cause == ModelChangeCause::Initial
            &&& event_with(events, effort) matches Some(second)
            &&& second.body matches EventBody::ReasoningEffortChanged(asked)
            &&& asked.cause == ReasoningEffortChangeCause::Initial
            &&& first_failure(initial_state_check(events, model, effort), count) is None
            &&& first_failure(late_prompt_check(events, names.len() as int + 1), count) is None
            &&& first_failure(source_check(events, definition.kind, profile), count) is None
            &&& first_failure(title_check(events), count) is None
            &&& first_failure(clone_check(events), count) is None
            &&& first_failure(reminder_check(events), count) is None
            &&& first_failure(follow_up_check(events), count) is None
            &&& first_failure(abort_check(events), count) is None
            &&& first_failure(estimate_check(events), count) is None
            &&& api_states(events, count) is Ok
            &&& tool_states(events, count) is Ok
            &&& compact_histories(events, count) is Ok
            &&& session_histories(events, count) is Ok
            &&& facts.branches is None
            &&& facts.turns is None
            &&& facts.work is None
        },
{
}

/// A chat bot goes on from a log exactly if it is the log of a chat bot, begins with a model and an
/// effort, holds what chat bots know alone, and breaks no rule.
pub proof fn law_chat_bots_go_on_from_their_own_logs(events: Seq<Event>, facts: HistoryFacts)
    requires
        events.len() > 0,
    ensures
        chat_problem(events, facts) is None <==> {
            let count = events.len() as int;
            &&& kind_in(events) matches Some(definition)
            &&& definition.orchestrator@ == "chatbot"@
            &&& event_with(events, 1) matches Some(first)
            &&& first.body matches EventBody::ModelChanged(chosen)
            &&& chosen.cause == ModelChangeCause::Initial
            &&& event_with(events, 2) matches Some(second)
            &&& second.body matches EventBody::ReasoningEffortChanged(asked)
            &&& asked.cause == ReasoningEffortChangeCause::Initial
            &&& first_failure(initial_state_check(events, 1, 2), count) is None
            &&& first_failure(chat_kind_check(events), count) is None
            &&& first_failure(chat_source_check(events, definition.kind), count) is None
            &&& first_failure(clone_check(events), count) is None
            &&& first_failure(abort_check(events), count) is None
            &&& first_failure(estimate_check(events), count) is None
            &&& api_states(events, count) is Ok
            &&& facts.branches is None
            &&& facts.turns is None
        },
{
}

/// Everybody goes on from a log with nothing in it.
pub proof fn law_empty_logs_have_no_problem(
    profile: MainAgentProfile,
    has_parent_prompt: bool,
    facts: HistoryFacts,
)
    ensures
        main_problem(Seq::empty(), profile, has_parent_prompt, facts) is None,
        chat_problem(Seq::empty(), facts) is None,
{
}

} // verus!
