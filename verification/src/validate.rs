//! The rules of single kinds of events: prompts, follow-ups, reminders, titles, clones, estimates
//! and the first model and effort.
use vstd::prelude::*;

use crate::event::{
    event_with, first_failure, lemma_failure_stays, AgentKind, AgentTitleChanged, AgentTurn,
    ApiState, Computed, ContextUsageEstimate, Event, EventBody, EventDataBase, EventId, EventKind,
    FollowUpPrompt, ModelChangeCause, ReasoningEffortChangeCause, WorkMapPendingReminder,
};
use crate::json::{json_failure, json_get, json_read, json_text, parse_json, Json, JsonView};
use crate::profile::MainAgentProfile;
use crate::text::{decimal, join3, same, say1, say2};
use crate::tool_calls::{find_tool_call, tool_call_with};

verus! {

/// A rule of a single kind of events that an event breaks.
#[derive(Debug)]
pub enum EventRuleError {
    LateInitialModel { event: EventId, expected: EventId },
    LateInitialEffort { event: EventId, expected: EventId },
    FollowUpWithoutPrompt { event: EventId, prompt: EventId },
    FollowUpNotLater { event: EventId },
    FollowUpCrosses { event: EventId, newer: EventId },
    FollowUpAfterEnd { event: EventId, prompt: EventId },
    FollowUpDuringTool { event: EventId, tool_call: EventId },
    WrongSource { kind: EventKind, profile: MainAgentProfile, agent_kind: AgentKind },
    TwoReminders { prompt: EventId },
    ReminderMisplaced { event: EventId, prompt: EventId },
    WorkUnknown { reason: String },
    ReminderWithoutWork { event: EventId },
    CloneWithoutTitle { event: EventId },
    CloneTitleMismatch { event: EventId },
    TwoEstimates { api_state: EventId },
    EstimateMissingState { event: EventId, api_state: EventId },
    EstimateWithoutUsage { event: EventId, api_state: EventId },
    EstimateMismatch { event: EventId, api_state: EventId },
}

/// What an agent of the profile and kind is called.
pub open spec fn agent_name(profile: MainAgentProfile, agent_kind: AgentKind) -> Seq<char> {
    match profile {
        MainAgentProfile::Manager => "ManagerAgent"@,
        MainAgentProfile::Worker => "WorkerAgent"@,
        MainAgentProfile::Standard => if agent_kind == AgentKind::SubAgent {
            "sub-Agent"@
        } else {
            "MainAgent"@
        },
    }
}

fn agent_label(profile: MainAgentProfile, agent_kind: AgentKind) -> (name: &'static str)
    ensures
        name@ == agent_name(profile, agent_kind),
{
    match profile {
        MainAgentProfile::Manager => "ManagerAgent",
        MainAgentProfile::Worker => "WorkerAgent",
        MainAgentProfile::Standard => if agent_kind == AgentKind::SubAgent {
            "sub-Agent"
        } else {
            "MainAgent"
        },
    }
}

impl EventRuleError {
    /// What is said of a history that breaks the rule.
    pub open spec fn text(&self) -> Seq<char> {
        match *self {
            EventRuleError::LateInitialModel { event, expected } =>
                "initial model state appears at id="@ + decimal(event as nat) + ", expected id="@
                    + decimal(expected as nat) + ""@,
            EventRuleError::LateInitialEffort { event, expected } =>
                "initial reasoning effort state appears at id="@ + decimal(event as nat)
                    + ", expected id="@ + decimal(expected as nat) + ""@,
            EventRuleError::FollowUpWithoutPrompt { event, prompt } => "follow-up prompt "@
                + decimal(event as nat) + " references missing user prompt "@ + decimal(
                prompt as nat,
            ) + ""@,
            EventRuleError::FollowUpNotLater { event } => "follow-up prompt "@ + decimal(
                event as nat,
            ) + " must reference an earlier user prompt"@,
            EventRuleError::FollowUpCrosses { event, newer } => "follow-up prompt "@ + decimal(
                event as nat,
            ) + " crosses newer user prompt "@ + decimal(newer as nat) + ""@,
            EventRuleError::FollowUpAfterEnd { event, prompt } => "follow-up prompt "@ + decimal(
                event as nat,
            ) + " appears after turn "@ + decimal(prompt as nat) + " ended"@,
            EventRuleError::FollowUpDuringTool { event, tool_call } => "follow-up prompt "@
                + decimal(event as nat) + " interrupts tool call "@ + decimal(tool_call as nat)
                + " before its result"@,
            EventRuleError::WrongSource { kind, profile, agent_kind } => kind.name()
                + " is not a valid prompt source for "@ + agent_name(profile, agent_kind),
            EventRuleError::TwoReminders { prompt } => "user prompt "@ + decimal(prompt as nat)
                + " has more than one WorkMap pending reminder"@,
            EventRuleError::ReminderMisplaced { event, prompt } => "WorkMap pending reminder "@
                + decimal(event as nat) + " must immediately follow user prompt "@ + decimal(
                prompt as nat,
            ) + ""@,
            EventRuleError::WorkUnknown { reason } => reason@,
            EventRuleError::ReminderWithoutWork { event } => "WorkMap pending reminder "@ + decimal(
                event as nat,
            ) + " was recorded without unfinished work"@,
            EventRuleError::CloneWithoutTitle { event } => "Clone completed event "@ + decimal(
                event as nat,
            ) + " does not immediately follow its host title"@,
            EventRuleError::CloneTitleMismatch { event } => "Clone completed event "@ + decimal(
                event as nat,
            ) + " does not match its host title"@,
            EventRuleError::TwoEstimates { api_state } => "API state "@ + decimal(api_state as nat)
                + " has more than one context usage estimate"@,
            EventRuleError::EstimateMissingState { event, api_state } => "context usage estimate "@
                + decimal(event as nat) + " references a missing API state "@ + decimal(
                api_state as nat,
            ) + ""@,
            EventRuleError::EstimateWithoutUsage { event, api_state } => "context usage estimate "@
                + decimal(event as nat) + " references API state "@ + decimal(api_state as nat)
                + " without usage"@,
            EventRuleError::EstimateMismatch { event, api_state } => "context usage estimate "@
                + decimal(event as nat) + " does not match API state "@ + decimal(api_state as nat)
                + ""@,
        }
    }

    /// What is said of a history that breaks the rule.
    pub fn message(&self) -> (text: String)
        ensures
            text@ == self.text(),
    {
        match self {
            EventRuleError::LateInitialModel { event, expected } => say2(
                "initial model state appears at id=",
                *event,
                ", expected id=",
                *expected,
                "",
            ),
            EventRuleError::LateInitialEffort { event, expected } => say2(
                "initial reasoning effort state appears at id=",
                *event,
                ", expected id=",
                *expected,
                "",
            ),
            EventRuleError::FollowUpWithoutPrompt { event, prompt } => say2(
                "follow-up prompt ",
                *event,
                " references missing user prompt ",
                *prompt,
                "",
            ),
            EventRuleError::FollowUpNotLater { event } => say1(
                "follow-up prompt ",
                *event,
                " must reference an earlier user prompt",
            ),
            EventRuleError::FollowUpCrosses { event, newer } => say2(
                "follow-up prompt ",
                *event,
                " crosses newer user prompt ",
                *newer,
                "",
            ),
            EventRuleError::FollowUpAfterEnd { event, prompt } => say2(
                "follow-up prompt ",
                *event,
                " appears after turn ",
                *prompt,
                " ended",
            ),
            EventRuleError::FollowUpDuringTool { event, tool_call } => say2(
                "follow-up prompt ",
                *event,
                " interrupts tool call ",
                *tool_call,
                " before its result",
            ),
            EventRuleError::WrongSource { kind, profile, agent_kind } => join3(
                kind.label(),
                " is not a valid prompt source for ",
                agent_label(*profile, *agent_kind),
            ),
            EventRuleError::TwoReminders { prompt } => say1(
                "user prompt ",
                *prompt,
                " has more than one WorkMap pending reminder",
            ),
            EventRuleError::ReminderMisplaced { event, prompt } => say2(
                "WorkMap pending reminder ",
                *event,
                " must immediately follow user prompt ",
                *prompt,
                "",
            ),
            EventRuleError::WorkUnknown { reason } => reason.clone(),
            EventRuleError::ReminderWithoutWork { event } => say1(
                "WorkMap pending reminder ",
                *event,
                " was recorded without unfinished work",
            ),
            EventRuleError::CloneWithoutTitle { event } => say1(
                "Clone completed event ",
                *event,
                " does not immediately follow its host title",
            ),
            EventRuleError::CloneTitleMismatch { event } => say1(
                "Clone completed event ",
                *event,
                " does not match its host title",
            ),
            EventRuleError::TwoEstimates { api_state } => say1(
                "API state ",
                *api_state,
                " has more than one context usage estimate",
            ),
            EventRuleError::EstimateMissingState { event, api_state } => say2(
                "context usage estimate ",
                *event,
                " references a missing API state ",
                *api_state,
                "",
            ),
            EventRuleError::EstimateWithoutUsage { event, api_state } => say2(
                "context usage estimate ",
                *event,
                " references API state ",
                *api_state,
                " without usage",
            ),
            EventRuleError::EstimateMismatch { event, api_state } => say2(
                "context usage estimate ",
                *event,
                " does not match API state ",
                *api_state,
                "",
            ),
        }
    }
}

/// The first model and effort stand where the log begins, and nowhere else.
pub open spec fn initial_state_check(
    events: Seq<Event>,
    model: EventId,
    effort: EventId,
) -> spec_fn(int) -> Option<EventRuleError> {
    |place: int|
        match events[place].body {
            EventBody::ModelChanged(changed) => if changed.cause == ModelChangeCause::Initial
                && events[place].id != model {
                Some(
                    EventRuleError::LateInitialModel { event: events[place].id, expected: model },
                )
            } else {
                None
            },
            EventBody::ReasoningEffortChanged(changed) => if changed.cause
                == ReasoningEffortChangeCause::Initial && events[place].id != effort {
                Some(
                    EventRuleError::LateInitialEffort { event: events[place].id, expected: effort },
                )
            } else {
                None
            },
            _ => None,
        }
}

/// Checks that the first model and effort stand where the log begins, and nowhere else.
pub fn validate_initial_state_events(
    edb: &EventDataBase,
    initial_model_id: EventId,
    initial_effort_id: EventId,
) -> (result: Result<(), EventRuleError>)
    ensures
        match first_failure(
            initial_state_check(edb@, initial_model_id, initial_effort_id),
            edb@.len() as int,
        ) {
            Some(error) => result == Err::<(), EventRuleError>(error),
            None => result is Ok,
        },
{
    let ghost check = initial_state_check(edb@, initial_model_id, initial_effort_id);
    let mut place: usize = 0;
    while place < edb.events.len()
        invariant
            place <= edb@.len(),
            check == initial_state_check(edb@, initial_model_id, initial_effort_id),
            first_failure(check, place as int) is None,
        decreases edb@.len() - place,
    {
        let event = edb.events[place].id;
        let found = match &edb.events[place].body {
            EventBody::ModelChanged(changed) => if changed.cause == ModelChangeCause::Initial
                && event != initial_model_id {
                Some(EventRuleError::LateInitialModel { event, expected: initial_model_id })
            } else {
                None
            },
            EventBody::ReasoningEffortChanged(changed) => if changed.cause
                == ReasoningEffortChangeCause::Initial && event != initial_effort_id {
                Some(EventRuleError::LateInitialEffort { event, expected: initial_effort_id })
            } else {
                None
            },
            _ => None,
        };
        assert(found == check(place as int));
        if let Some(error) = found {
            proof {
                lemma_failure_stays(check, place + 1, edb@.len() as int);
            }
            return Err(error);
        }
        place += 1;
    }
    Ok(())
}

/// Whether an event stands between a prompt and its follow-up.
pub open spec fn between(event: Event, prompt: EventId, follow_up: EventId) -> bool {
    prompt < event.id < follow_up
}

/// The first newer prompt of the user from the place on, between a prompt and its follow-up.
pub open spec fn newer_prompt(
    events: Seq<Event>,
    place: int,
    prompt: EventId,
    follow_up: EventId,
) -> Option<EventId>
    decreases events.len() - place,
{
    if place < 0 || place >= events.len() {
        None
    } else if between(events[place], prompt, follow_up) && events[place].body is UserPrompt {
        Some(events[place].id)
    } else {
        newer_prompt(events, place + 1, prompt, follow_up)
    }
}

/// Whether the event is a step of the turn, a last one where `last` says so.
pub open spec fn turn_step(event: Event, prompt: EventId, follow_up: EventId, last: bool) -> bool {
    &&& between(event, prompt, follow_up)
    &&& event.body matches EventBody::AgentTurn(turn)
    &&& turn.prompt_id == prompt
    &&& last ==> turn.state.terminal()
}

/// Whether the turn has a step, a last one where `last` says so.
pub open spec fn has_turn_step(
    events: Seq<Event>,
    prompt: EventId,
    follow_up: EventId,
    last: bool,
) -> bool {
    exists|i: int|
        0 <= i < events.len() && turn_step(#[trigger] events[i], prompt, follow_up, last)
}

/// Whether the event is a tool call of the turn, of one request where one is given.
pub open spec fn turn_tool(
    event: Event,
    prompt: EventId,
    follow_up: EventId,
    api_call: Option<EventId>,
) -> bool {
    &&& between(event, prompt, follow_up)
    &&& event.body matches EventBody::ToolCall(call)
    &&& call.prompt_id == prompt
    &&& api_call matches Some(request) ==> call.api_call_id == request
}

/// Whether one of the first events is a tool call of the turn for the request.
pub open spec fn request_called_tool(
    events: Seq<Event>,
    count: int,
    prompt: EventId,
    follow_up: EventId,
    api_call: EventId,
) -> bool {
    exists|i: int|
        0 <= i < count && turn_tool(#[trigger] events[i], prompt, follow_up, Some(api_call))
}

/// Whether the turn has ended by its requests alone: the last step of its requests is an end that
/// calls no tool. This counts where the turn has no steps of its own.
pub open spec fn ended_by_requests(
    events: Seq<Event>,
    count: int,
    prompt: EventId,
    follow_up: EventId,
) -> bool
    decreases count,
{
    if count <= 0 {
        false
    } else {
        let event = events[count - 1];
        let before = ended_by_requests(events, count - 1, prompt, follow_up);
        match event.body {
            EventBody::ApiStateUpdate(update) => if between(event, prompt, follow_up)
                && update.prompt_id == prompt {
                match update.state {
                    ApiState::Completed => before || !request_called_tool(
                        events,
                        count - 1,
                        prompt,
                        follow_up,
                        update.api_call_id,
                    ),
                    ApiState::Error => true,
                    ApiState::Interrupted => true,
                    _ => false,
                }
            } else {
                before
            },
            _ => before,
        }
    }
}

/// Whether the event closes the tool call, before the follow-up.
pub open spec fn closes_tool(
    event: Event,
    tool_call: EventId,
    prompt: EventId,
    follow_up: EventId,
) -> bool {
    &&& between(event, prompt, follow_up)
    &&& event.body matches EventBody::ToolCallResult(result)
    &&& result.tool_call_id == tool_call
}

/// Whether the event is a tool call of the turn that is open at the follow-up.
pub open spec fn open_tool(
    events: Seq<Event>,
    place: int,
    prompt: EventId,
    follow_up: EventId,
) -> bool {
    &&& turn_tool(events[place], prompt, follow_up, None)
    &&& forall|j: int|
        place < j < events.len() ==> !closes_tool(
            #[trigger] events[j],
            events[place].id,
            prompt,
            follow_up,
        )
}

/// The first tool call of the turn from the place on that is open at the follow-up.
pub open spec fn first_open_tool(
    events: Seq<Event>,
    place: int,
    prompt: EventId,
    follow_up: EventId,
) -> Option<EventId>
    decreases events.len() - place,
{
    if place < 0 || place >= events.len() {
        None
    } else if open_tool(events, place, prompt, follow_up) {
        Some(events[place].id)
    } else {
        first_open_tool(events, place + 1, prompt, follow_up)
    }
}

/// Whether the turn has ended before the follow-up.
pub open spec fn turn_ended(events: Seq<Event>, prompt: EventId, follow_up: EventId) -> bool {
    if has_turn_step(events, prompt, follow_up, false) {
        has_turn_step(events, prompt, follow_up, true)
    } else {
        ended_by_requests(events, events.len() as int, prompt, follow_up)
    }
}

/// A follow-up joins a running turn of the user, at a point where no tool is open.
pub open spec fn follow_up_error(events: Seq<Event>, event: EventId, prompt: EventId) -> Option<
    EventRuleError,
> {
    if !(event_with(events, prompt) matches Some(found) && found.body is UserPrompt) {
        Some(EventRuleError::FollowUpWithoutPrompt { event, prompt })
    } else if prompt >= event {
        Some(EventRuleError::FollowUpNotLater { event })
    } else {
        match newer_prompt(events, 0, prompt, event) {
            Some(newer) => Some(EventRuleError::FollowUpCrosses { event, newer }),
            None => if turn_ended(events, prompt, event) {
                Some(EventRuleError::FollowUpAfterEnd { event, prompt })
            } else {
                match first_open_tool(events, 0, prompt, event) {
                    Some(tool_call) => Some(EventRuleError::FollowUpDuringTool { event, tool_call }),
                    None => None,
                }
            },
        }
    }
}

/// What is wrong with the event at the place, if it is a follow-up.
pub open spec fn follow_up_check(events: Seq<Event>) -> spec_fn(int) -> Option<EventRuleError> {
    |place: int|
        match events[place].body {
            EventBody::FollowUpPrompt(follow_up) => follow_up_error(
                events,
                events[place].id,
                follow_up.prompt_id,
            ),
            _ => None,
        }
}

fn is_between(event: &Event, prompt: EventId, follow_up: EventId) -> (result: bool)
    ensures
        result == between(*event, prompt, follow_up),
{
    prompt < event.id && event.id < follow_up
}

fn find_newer_prompt(events: &Vec<Event>, prompt: EventId, follow_up: EventId) -> (newer: Option<
    EventId,
>)
    ensures
        newer == newer_prompt(events@, 0, prompt, follow_up),
{
    let mut place: usize = 0;
    while place < events.len()
        invariant
            place <= events.len(),
            newer_prompt(events@, 0, prompt, follow_up) == newer_prompt(
                events@,
                place as int,
                prompt,
                follow_up,
            ),
        decreases events.len() - place,
    {
        if is_between(&events[place], prompt, follow_up) {
            if let EventBody::UserPrompt(_) = &events[place].body {
                return Some(events[place].id);
            }
        }
        place += 1;
    }
    None
}

fn find_turn_step(events: &Vec<Event>, prompt: EventId, follow_up: EventId, last: bool) -> (found:
    bool)
    ensures
        found == has_turn_step(events@, prompt, follow_up, last),
{
    let mut place: usize = 0;
    while place < events.len()
        invariant
            place <= events.len(),
            forall|i: int|
                0 <= i < place ==> !turn_step(#[trigger] events@[i], prompt, follow_up, last),
        decreases events.len() - place,
    {
        if let EventBody::AgentTurn(turn) = &events[place].body {
            if is_between(&events[place], prompt, follow_up) && turn.prompt_id == prompt && (!last
                || turn.state.is_terminal()) {
                assert(turn_step(events@[place as int], prompt, follow_up, last));
                return true;
            }
        }
        place += 1;
    }
    false
}

fn has_called_tool_before(
    events: &Vec<Event>,
    count: usize,
    prompt: EventId,
    follow_up: EventId,
    api_call: EventId,
) -> (called: bool)
    requires
        count <= events.len(),
    ensures
        called == request_called_tool(events@, count as int, prompt, follow_up, api_call),
{
    let mut place: usize = 0;
    while place < count
        invariant
            place <= count <= events.len(),
            forall|i: int|
                0 <= i < place ==> !turn_tool(
                    #[trigger] events@[i],
                    prompt,
                    follow_up,
                    Some(api_call),
                ),
        decreases count - place,
    {
        if let EventBody::ToolCall(call) = &events[place].body {
            if is_between(&events[place], prompt, follow_up) && call.prompt_id == prompt
                && call.api_call_id == api_call {
                assert(turn_tool(events@[place as int], prompt, follow_up, Some(api_call)));
                return true;
            }
        }
        place += 1;
    }
    false
}

fn is_ended_by_requests(events: &Vec<Event>, prompt: EventId, follow_up: EventId) -> (ended: bool)
    ensures
        ended == ended_by_requests(events@, events@.len() as int, prompt, follow_up),
{
    let mut ended = false;
    let mut place: usize = 0;
    while place < events.len()
        invariant
            place <= events.len(),
            ended == ended_by_requests(events@, place as int, prompt, follow_up),
        decreases events.len() - place,
    {
        if let EventBody::ApiStateUpdate(update) = &events[place].body {
            if is_between(&events[place], prompt, follow_up) && update.prompt_id == prompt {
                ended = match update.state {
                    ApiState::Completed => ended || !has_called_tool_before(
                        events,
                        place,
                        prompt,
                        follow_up,
                        update.api_call_id,
                    ),
                    ApiState::Error => true,
                    ApiState::Interrupted => true,
                    _ => false,
                };
            }
        }
        place += 1;
    }
    ended
}

fn is_open_tool(events: &Vec<Event>, place: usize, prompt: EventId, follow_up: EventId) -> (open:
    bool)
    requires
        place < events.len(),
    ensures
        open == open_tool(events@, place as int, prompt, follow_up),
{
    match &events[place].body {
        EventBody::ToolCall(call) => {
            if !is_between(&events[place], prompt, follow_up) || call.prompt_id != prompt {
                return false;
            }
            let id = events[place].id;
            let mut index: usize = place + 1;
            while index < events.len()
                invariant
                    place < index <= events.len(),
                    id == events@[place as int].id,
                    forall|j: int|
                        place < j < index ==> !closes_tool(
                            #[trigger] events@[j],
                            id,
                            prompt,
                            follow_up,
                        ),
                decreases events.len() - index,
            {
                if let EventBody::ToolCallResult(result) = &events[index].body {
                    if is_between(&events[index], prompt, follow_up) && result.tool_call_id == id {
                        assert(closes_tool(events@[index as int], id, prompt, follow_up));
                        return false;
                    }
                }
                index += 1;
            }
            true
        },
        _ => false,
    }
}

fn find_open_tool(events: &Vec<Event>, prompt: EventId, follow_up: EventId) -> (tool: Option<
    EventId,
>)
    ensures
        tool == first_open_tool(events@, 0, prompt, follow_up),
{
    let mut place: usize = 0;
    while place < events.len()
        invariant
            place <= events.len(),
            first_open_tool(events@, 0, prompt, follow_up) == first_open_tool(
                events@,
                place as int,
                prompt,
                follow_up,
            ),
        decreases events.len() - place,
    {
        if is_open_tool(events, place, prompt, follow_up) {
            return Some(events[place].id);
        }
        place += 1;
    }
    None
}

fn check_follow_up(events: &Vec<Event>, event: EventId, prompt: EventId) -> (error: Option<
    EventRuleError,
>)
    ensures
        error == follow_up_error(events@, event, prompt),
{
    let of_user = match crate::event::find_event(events, prompt) {
        Some(found) => match &found.body {
            EventBody::UserPrompt(_) => true,
            _ => false,
        },
        None => false,
    };
    if !of_user {
        return Some(EventRuleError::FollowUpWithoutPrompt { event, prompt });
    }
    if prompt >= event {
        return Some(EventRuleError::FollowUpNotLater { event });
    }
    if let Some(newer) = find_newer_prompt(events, prompt, event) {
        return Some(EventRuleError::FollowUpCrosses { event, newer });
    }
    let ended = if find_turn_step(events, prompt, event, false) {
        find_turn_step(events, prompt, event, true)
    } else {
        is_ended_by_requests(events, prompt, event)
    };
    if ended {
        return Some(EventRuleError::FollowUpAfterEnd { event, prompt });
    }
    match find_open_tool(events, prompt, event) {
        Some(tool_call) => Some(EventRuleError::FollowUpDuringTool { event, tool_call }),
        None => None,
    }
}

/// Checks that each follow-up joins a running turn at a point where no tool is open.
pub fn validate_follow_up_prompts(edb: &EventDataBase) -> (result: Result<(), EventRuleError>)
    ensures
        match first_failure(follow_up_check(edb@), edb@.len() as int) {
            Some(error) => result == Err::<(), EventRuleError>(error),
            None => result is Ok,
        },
{
    let ghost check = follow_up_check(edb@);
    let mut place: usize = 0;
    while place < edb.events.len()
        invariant
            place <= edb@.len(),
            check == follow_up_check(edb@),
            first_failure(check, place as int) is None,
        decreases edb@.len() - place,
    {
        let found = match &edb.events[place].body {
            EventBody::FollowUpPrompt(follow_up) => check_follow_up(
                &edb.events,
                edb.events[place].id,
                follow_up.prompt_id,
            ),
            _ => None,
        };
        assert(found == check(place as int));
        if let Some(error) = found {
            proof {
                lemma_failure_stays(check, place + 1, edb@.len() as int);
            }
            return Err(error);
        }
        place += 1;
    }
    Ok(())
}

/// Whether a prompt may come to an agent of the kind and profile: the user speaks to main agents
/// and managers, a manager to its worker, and a parent agent to its sub-agent.
pub open spec fn valid_source(
    event: Event,
    agent_kind: AgentKind,
    profile: MainAgentProfile,
) -> bool {
    match event.body {
        EventBody::UserPrompt(_) => profile != MainAgentProfile::Worker && agent_kind
            != AgentKind::SubAgent,
        EventBody::ManagerPrompt(_) => profile == MainAgentProfile::Worker,
        EventBody::ParentAgentPrompt(_) => profile == MainAgentProfile::Standard && agent_kind
            == AgentKind::SubAgent,
        _ => true,
    }
}

/// What is wrong with the source of the prompt at the place.
pub open spec fn source_check(
    events: Seq<Event>,
    agent_kind: AgentKind,
    profile: MainAgentProfile,
) -> spec_fn(int) -> Option<EventRuleError> {
    |place: int|
        if valid_source(events[place], agent_kind, profile) {
            None
        } else {
            Some(
                EventRuleError::WrongSource { kind: events[place].kind_of(), profile, agent_kind },
            )
        }
}

/// Checks that each prompt comes from who may prompt the agent.
pub fn validate_prompt_sources(
    edb: &EventDataBase,
    agent_kind: AgentKind,
    profile: MainAgentProfile,
) -> (result: Result<(), EventRuleError>)
    ensures
        match first_failure(source_check(edb@, agent_kind, profile), edb@.len() as int) {
            Some(error) => result == Err::<(), EventRuleError>(error),
            None => result is Ok,
        },
{
    let ghost check = source_check(edb@, agent_kind, profile);
    let mut place: usize = 0;
    while place < edb.events.len()
        invariant
            place <= edb@.len(),
            check == source_check(edb@, agent_kind, profile),
            first_failure(check, place as int) is None,
        decreases edb@.len() - place,
    {
        let valid = match &edb.events[place].body {
            EventBody::UserPrompt(_) => profile != MainAgentProfile::Worker && agent_kind
                != AgentKind::SubAgent,
            EventBody::ManagerPrompt(_) => profile == MainAgentProfile::Worker,
            EventBody::ParentAgentPrompt(_) => profile == MainAgentProfile::Standard && agent_kind
                == AgentKind::SubAgent,
            _ => true,
        };
        assert(check(place as int) is None <==> valid);
        if !valid {
            let error = EventRuleError::WrongSource {
                kind: edb.events[place].kind(),
                profile,
                agent_kind,
            };
            proof {
                assert(check(place as int) == Some(error));
                lemma_failure_stays(check, place + 1, edb@.len() as int);
            }
            return Err(error);
        }
        place += 1;
    }
    Ok(())
}

/// Whether the event is a reminder for the prompt.
pub open spec fn reminds(event: Event, prompt: EventId) -> bool {
    event.body matches EventBody::WorkMapPendingReminder(reminder) && reminder.prompt_id == prompt
}

/// A reminder follows its prompt at once, once, and only while work is open.
pub open spec fn reminder_error(
    events: Seq<Event>,
    place: int,
    reminder: WorkMapPendingReminder,
) -> Option<EventRuleError> {
    let event = events[place].id;
    let prompt = reminder.prompt_id;
    if exists|i: int| 0 <= i < place && reminds(#[trigger] events[i], prompt) {
        Some(EventRuleError::TwoReminders { prompt })
    } else if !(place > 0 && events[place - 1].id == prompt && events[place - 1].body
        is UserPrompt) {
        Some(EventRuleError::ReminderMisplaced { event, prompt })
    } else {
        match reminder.work_before {
            Computed::Failure(reason) => Some(EventRuleError::WorkUnknown { reason }),
            Computed::Value(open) => if open {
                None
            } else {
                Some(EventRuleError::ReminderWithoutWork { event })
            },
        }
    }
}

/// What is wrong with the event at the place, if it is a reminder.
pub open spec fn reminder_check(events: Seq<Event>) -> spec_fn(int) -> Option<EventRuleError> {
    |place: int|
        match events[place].body {
            EventBody::WorkMapPendingReminder(reminder) => reminder_error(events, place, reminder),
            _ => None,
        }
}

fn check_reminder(events: &Vec<Event>, place: usize, reminder: &WorkMapPendingReminder) -> (error:
    Option<EventRuleError>)
    requires
        place < events.len(),
    ensures
        error == reminder_error(events@, place as int, *reminder),
{
    let event = events[place].id;
    let prompt = reminder.prompt_id;
    let mut index: usize = 0;
    while index < place
        invariant
            index <= place < events.len(),
            prompt == reminder.prompt_id,
            forall|i: int| 0 <= i < index ==> !reminds(#[trigger] events@[i], prompt),
        decreases place - index,
    {
        if let EventBody::WorkMapPendingReminder(earlier) = &events[index].body {
            if earlier.prompt_id == prompt {
                assert(reminds(events@[index as int], prompt));
                return Some(EventRuleError::TwoReminders { prompt });
            }
        }
        index += 1;
    }
    let follows = if place > 0 {
        events[place - 1].id == prompt && match &events[place - 1].body {
            EventBody::UserPrompt(_) => true,
            _ => false,
        }
    } else {
        false
    };
    if !follows {
        return Some(EventRuleError::ReminderMisplaced { event, prompt });
    }
    match &reminder.work_before {
        Computed::Failure(reason) => Some(EventRuleError::WorkUnknown { reason: reason.clone() }),
        Computed::Value(open) => if *open {
            None
        } else {
            Some(EventRuleError::ReminderWithoutWork { event })
        },
    }
}

/// Checks that each reminder of open work follows its prompt at once, once, and is due.
pub fn validate_workmap_pending_reminders(edb: &EventDataBase) -> (result: Result<
    (),
    EventRuleError,
>)
    ensures
        match first_failure(reminder_check(edb@), edb@.len() as int) {
            Some(error) => result == Err::<(), EventRuleError>(error),
            None => result is Ok,
        },
{
    let ghost check = reminder_check(edb@);
    let mut place: usize = 0;
    while place < edb.events.len()
        invariant
            place <= edb@.len(),
            check == reminder_check(edb@),
            first_failure(check, place as int) is None,
        decreases edb@.len() - place,
    {
        let found = match &edb.events[place].body {
            EventBody::WorkMapPendingReminder(reminder) => check_reminder(
                &edb.events,
                place,
                reminder,
            ),
            _ => None,
        };
        assert(found == check(place as int));
        if let Some(error) = found {
            proof {
                lemma_failure_stays(check, place + 1, edb@.len() as int);
            }
            return Err(error);
        }
        place += 1;
    }
    Ok(())
}

/// The end of a clone follows at once the title that the host gave it.
pub open spec fn clone_error(events: Seq<Event>, place: int, title: String) -> Option<
    EventRuleError,
> {
    let event = events[place].id;
    if place <= 0 {
        Some(EventRuleError::CloneWithoutTitle { event })
    } else {
        match events[place - 1].body {
            EventBody::AgentTitleChanged(change) => if change.tool_call_id is Some
                || change.title@ != title@ {
                Some(EventRuleError::CloneTitleMismatch { event })
            } else {
                None
            },
            _ => Some(EventRuleError::CloneWithoutTitle { event }),
        }
    }
}

/// What is wrong with the event at the place, if it ends a clone.
pub open spec fn clone_check(events: Seq<Event>) -> spec_fn(int) -> Option<EventRuleError> {
    |place: int|
        match events[place].body {
            EventBody::CloneCompleted(title) => clone_error(events, place, title),
            _ => None,
        }
}

fn check_clone(events: &Vec<Event>, place: usize, title: &String) -> (error: Option<EventRuleError>)
    requires
        place < events.len(),
    ensures
        error == clone_error(events@, place as int, *title),
{
    let event = events[place].id;
    if place == 0 {
        return Some(EventRuleError::CloneWithoutTitle { event });
    }
    match &events[place - 1].body {
        EventBody::AgentTitleChanged(change) => if change.tool_call_id.is_some() || change.title
            != *title {
            Some(EventRuleError::CloneTitleMismatch { event })
        } else {
            None
        },
        _ => Some(EventRuleError::CloneWithoutTitle { event }),
    }
}

/// Checks that each end of a clone follows at once the title that the host gave it.
pub fn validate_clone_completed_events(edb: &EventDataBase) -> (result: Result<(), EventRuleError>)
    ensures
        match first_failure(clone_check(edb@), edb@.len() as int) {
            Some(error) => result == Err::<(), EventRuleError>(error),
            None => result is Ok,
        },
{
    let ghost check = clone_check(edb@);
    let mut place: usize = 0;
    while place < edb.events.len()
        invariant
            place <= edb@.len(),
            check == clone_check(edb@),
            first_failure(check, place as int) is None,
        decreases edb@.len() - place,
    {
        let found = match &edb.events[place].body {
            EventBody::CloneCompleted(title) => check_clone(&edb.events, place, title),
            _ => None,
        };
        assert(found == check(place as int));
        if let Some(error) = found {
            proof {
                lemma_failure_stays(check, place + 1, edb@.len() as int);
            }
            return Err(error);
        }
        place += 1;
    }
    Ok(())
}

/// Whether the event is an estimate for the step of a request.
pub open spec fn estimates(event: Event, api_state: EventId) -> bool {
    event.body matches EventBody::ContextUsageEstimate(estimate) && estimate.api_state_event_id
        == api_state
}

/// An estimate divides the tokens that the end of a request reports, once.
pub open spec fn estimate_error(
    events: Seq<Event>,
    place: int,
    estimate: ContextUsageEstimate,
) -> Option<EventRuleError> {
    let event = events[place].id;
    let api_state = estimate.api_state_event_id;
    if exists|i: int| 0 <= i < place && estimates(#[trigger] events[i], api_state) {
        Some(EventRuleError::TwoEstimates { api_state })
    } else {
        match event_with(events, api_state) {
            Some(Event { id, body: EventBody::ApiStateUpdate(update) }) => match update.usage {
                None => Some(EventRuleError::EstimateWithoutUsage { event, api_state }),
                Some(usage) => if id >= event || !(update.state == ApiState::Completed
                    || update.state == ApiState::Interrupted) || estimate.sum
                    != usage.total_tokens {
                    Some(EventRuleError::EstimateMismatch { event, api_state })
                } else {
                    None
                },
            },
            _ => Some(EventRuleError::EstimateMissingState { event, api_state }),
        }
    }
}

/// What is wrong with the event at the place, if it is an estimate.
pub open spec fn estimate_check(events: Seq<Event>) -> spec_fn(int) -> Option<EventRuleError> {
    |place: int|
        match events[place].body {
            EventBody::ContextUsageEstimate(estimate) => estimate_error(events, place, estimate),
            _ => None,
        }
}

fn check_estimate(events: &Vec<Event>, place: usize, estimate: &ContextUsageEstimate) -> (error:
    Option<EventRuleError>)
    requires
        place < events.len(),
    ensures
        error == estimate_error(events@, place as int, *estimate),
{
    let event = events[place].id;
    let api_state = estimate.api_state_event_id;
    let mut index: usize = 0;
    while index < place
        invariant
            index <= place < events.len(),
            api_state == estimate.api_state_event_id,
            forall|i: int| 0 <= i < index ==> !estimates(#[trigger] events@[i], api_state),
        decreases place - index,
    {
        if let EventBody::ContextUsageEstimate(earlier) = &events[index].body {
            if earlier.api_state_event_id == api_state {
                assert(estimates(events@[index as int], api_state));
                return Some(EventRuleError::TwoEstimates { api_state });
            }
        }
        index += 1;
    }
    match crate::event::find_event(events, api_state) {
        None => Some(EventRuleError::EstimateMissingState { event, api_state }),
        Some(found) => match &found.body {
            EventBody::ApiStateUpdate(update) => match update.usage {
                None => Some(EventRuleError::EstimateWithoutUsage { event, api_state }),
                Some(usage) => if found.id >= event || !(update.state == ApiState::Completed
                    || update.state == ApiState::Interrupted) || estimate.sum
                    != usage.total_tokens {
                    Some(EventRuleError::EstimateMismatch { event, api_state })
                } else {
                    None
                },
            },
            _ => Some(EventRuleError::EstimateMissingState { event, api_state }),
        },
    }
}

/// Checks that each estimate divides the tokens that the end of a request reports, once.
pub fn validate_context_usage_estimates(edb: &EventDataBase) -> (result: Result<(), EventRuleError>)
    ensures
        match first_failure(estimate_check(edb@), edb@.len() as int) {
            Some(error) => result == Err::<(), EventRuleError>(error),
            None => result is Ok,
        },
{
    let ghost check = estimate_check(edb@);
    let mut place: usize = 0;
    while place < edb.events.len()
        invariant
            place <= edb@.len(),
            check == estimate_check(edb@),
            first_failure(check, place as int) is None,
        decreases edb@.len() - place,
    {
        let found = match &edb.events[place].body {
            EventBody::ContextUsageEstimate(estimate) => check_estimate(
                &edb.events,
                place,
                estimate,
            ),
            _ => None,
        };
        assert(found == check(place as int));
        if let Some(error) = found {
            proof {
                lemma_failure_stays(check, place + 1, edb@.len() as int);
            }
            return Err(error);
        }
        place += 1;
    }
    Ok(())
}

/// A rule of titles that an event breaks.
#[derive(Debug)]
pub enum TitleHistoryError {
    InvalidTitle { reason: String },
    MissingCall { event: EventId, tool_call: EventId },
    InvalidArguments { tool_call: EventId, reason: String },
    NotOneTitle { tool_call: EventId },
    Mismatch { event: EventId, tool_call: EventId },
}

/// A rule of titles that an event breaks, as a value.
pub enum TitleHistoryView {
    InvalidTitle { reason: Seq<char> },
    MissingCall { event: EventId, tool_call: EventId },
    InvalidArguments { tool_call: EventId, reason: Seq<char> },
    NotOneTitle { tool_call: EventId },
    Mismatch { event: EventId, tool_call: EventId },
}

impl View for TitleHistoryError {
    type V = TitleHistoryView;

    open spec fn view(&self) -> TitleHistoryView {
        match *self {
            TitleHistoryError::InvalidTitle { reason } => TitleHistoryView::InvalidTitle {
                reason: reason@,
            },
            TitleHistoryError::MissingCall { event, tool_call } => TitleHistoryView::MissingCall {
                event,
                tool_call,
            },
            TitleHistoryError::InvalidArguments { tool_call, reason } =>
                TitleHistoryView::InvalidArguments { tool_call, reason: reason@ },
            TitleHistoryError::NotOneTitle { tool_call } => TitleHistoryView::NotOneTitle {
                tool_call,
            },
            TitleHistoryError::Mismatch { event, tool_call } => TitleHistoryView::Mismatch {
                event,
                tool_call,
            },
        }
    }
}

impl TitleHistoryView {
    /// What is said of a history that breaks the rule.
    pub open spec fn text(self) -> Seq<char> {
        match self {
            TitleHistoryView::InvalidTitle { reason } => reason,
            TitleHistoryView::MissingCall { event, tool_call } => "Agent title change "@ + decimal(
                event as nat,
            ) + " references missing call "@ + decimal(tool_call as nat) + ""@,
            TitleHistoryView::InvalidArguments { tool_call, reason } => ("SetTitle call "@
                + decimal(tool_call as nat) + " has invalid arguments: "@) + reason + ""@,
            TitleHistoryView::NotOneTitle { tool_call } => "SetTitle call "@ + decimal(
                tool_call as nat,
            ) + " does not contain exactly one string title"@,
            TitleHistoryView::Mismatch { event, tool_call } => "Agent title change "@ + decimal(
                event as nat,
            ) + " does not match SetTitle call "@ + decimal(tool_call as nat) + ""@,
        }
    }
}

impl TitleHistoryError {
    /// What is said of a history that breaks the rule.
    pub fn message(&self) -> (text: String)
        ensures
            text@ == self@.text(),
    {
        match self {
            TitleHistoryError::InvalidTitle { reason } => reason.clone(),
            TitleHistoryError::MissingCall { event, tool_call } => say2(
                "Agent title change ",
                *event,
                " references missing call ",
                *tool_call,
                "",
            ),
            TitleHistoryError::InvalidArguments { tool_call, reason } => join3(
                say1("SetTitle call ", *tool_call, " has invalid arguments: ").as_str(),
                reason.as_str(),
                "",
            ),
            TitleHistoryError::NotOneTitle { tool_call } => say1(
                "SetTitle call ",
                *tool_call,
                " does not contain exactly one string title",
            ),
            TitleHistoryError::Mismatch { event, tool_call } => say2(
                "Agent title change ",
                *event,
                " does not match SetTitle call ",
                *tool_call,
                "",
            ),
        }
    }
}

/// The title that the arguments of the tool ask for: an object whose one entry is a text `title`.
pub open spec fn title_of(arguments: JsonView) -> Option<Seq<char>> {
    match arguments {
        JsonView::Object(entries) => if entries.dom() == set!["title"@] {
            json_text(json_get(arguments, "title"@))
        } else {
            None
        },
        _ => None,
    }
}

/// The title that the arguments ask for.
pub fn requested_title(arguments: &Json) -> (title: Option<&str>)
    ensures
        match title {
            Some(found) => title_of(arguments@) == Some(found@),
            None => title_of(arguments@) is None,
        },
{
    match arguments {
        Json::Object(entries) => {
            let mut place: usize = 0;
            let mut alone = true;
            assert(entries@.take(0) =~= Seq::<(String, Json)>::empty());
            while place < entries.len()
                invariant
                    place <= entries.len(),
                    alone ==> crate::json::object_view(entries@.take(place as int)).dom().subset_of(
                        set!["title"@],
                    ),
                    !alone ==> exists|key: Seq<char>|
                        key != "title"@ && #[trigger] crate::json::object_view(
                            entries@.take(place as int),
                        ).dom().contains(key),
                decreases entries.len() - place,
            {
                assert(entries@.take(place + 1).drop_last() =~= entries@.take(place as int));
                let ghost before = crate::json::object_view(entries@.take(place as int));
                if !same(entries[place].0.as_str(), "title") {
                    assert(crate::json::object_view(entries@.take(place + 1)).dom().contains(
                        entries@[place as int].0@,
                    ));
                    alone = false;
                } else if !alone {
                    let ghost key = choose|key: Seq<char>|
                        key != "title"@ && #[trigger] before.dom().contains(key);
                    assert(crate::json::object_view(entries@.take(place + 1)).dom().contains(key));
                }
                place += 1;
            }
            assert(entries@.take(place as int) =~= entries@);
            if !alone {
                let ghost key = choose|key: Seq<char>|
                    key != "title"@ && #[trigger] crate::json::object_view(
                        entries@,
                    ).dom().contains(key);
                assert(!set!["title"@].contains(key));
                return None;
            }
            match arguments.get("title") {
                Some(value) => {
                    assert(crate::json::object_view(entries@).dom() =~= set!["title"@]);
                    value.as_str()
                },
                None => {
                    assert(set!["title"@].contains("title"@));
                    None
                },
            }
        },
        _ => None,
    }
}

/// A title that a tool call sets is the canonical form of the one that the call asks for; the
/// host's own titles have a canonical form.
pub open spec fn title_change_error(events: Seq<Event>, place: int, change: AgentTitleChanged) -> Option<
    TitleHistoryView,
> {
    let event = events[place].id;
    match change.tool_call_id {
        None => match change.normalized {
            Computed::Failure(reason) => Some(
                TitleHistoryView::InvalidTitle { reason: reason@ },
            ),
            Computed::Value(_) => None,
        },
        Some(tool_call) => match tool_call_with(events, tool_call) {
            None => Some(TitleHistoryView::MissingCall { event, tool_call }),
            Some(call) => match json_read(call.arguments@) {
                None => Some(
                    TitleHistoryView::InvalidArguments {
                        tool_call,
                        reason: json_failure(call.arguments@),
                    },
                ),
                Some(arguments) => if title_of(arguments) is None {
                    Some(TitleHistoryView::NotOneTitle { tool_call })
                } else {
                    match change.requested {
                        Computed::Failure(reason) => Some(
                            TitleHistoryView::InvalidTitle { reason: reason@ },
                        ),
                        Computed::Value(requested) => if requested@ != change.title@ {
                            Some(TitleHistoryView::Mismatch { event, tool_call })
                        } else {
                            None
                        },
                    }
                },
            },
        },
    }
}

/// What is wrong with the event at the place, if it changes the title.
pub open spec fn title_check(events: Seq<Event>) -> spec_fn(int) -> Option<TitleHistoryView> {
    |place: int|
        match events[place].body {
            EventBody::AgentTitleChanged(change) => title_change_error(events, place, change),
            _ => None,
        }
}

/// A title change against the arguments that its call was made with, once they are read.
pub fn check_title_request(
    event: EventId,
    tool_call: EventId,
    arguments: &Json,
    change: &AgentTitleChanged,
) -> (error: Option<TitleHistoryError>)
    ensures
        match error {
            Some(found) => Some(found@) == (if title_of(arguments@) is None {
                Some(TitleHistoryView::NotOneTitle { tool_call })
            } else {
                match change.requested {
                    Computed::Failure(reason) => Some(
                        TitleHistoryView::InvalidTitle { reason: reason@ },
                    ),
                    Computed::Value(requested) => if requested@ != change.title@ {
                        Some(TitleHistoryView::Mismatch { event, tool_call })
                    } else {
                        None
                    },
                }
            }),
            None => title_of(arguments@) is Some && (change.requested matches Computed::Value(
                requested,
            ) && requested@ == change.title@),
        },
{
    if requested_title(arguments).is_none() {
        return Some(TitleHistoryError::NotOneTitle { tool_call });
    }
    match &change.requested {
        Computed::Failure(reason) => Some(
            TitleHistoryError::InvalidTitle { reason: reason.clone() },
        ),
        Computed::Value(requested) => if *requested != change.title {
            Some(TitleHistoryError::Mismatch { event, tool_call })
        } else {
            None
        },
    }
}

fn check_title_change(events: &Vec<Event>, place: usize, change: &AgentTitleChanged) -> (error:
    Option<TitleHistoryError>)
    requires
        place < events.len(),
    ensures
        match error {
            Some(found) => title_change_error(events@, place as int, *change) == Some(found@),
            None => title_change_error(events@, place as int, *change) is None,
        },
{
    let event = events[place].id;
    match change.tool_call_id {
        None => match &change.normalized {
            Computed::Failure(reason) => Some(
                TitleHistoryError::InvalidTitle { reason: reason.clone() },
            ),
            Computed::Value(_) => None,
        },
        Some(tool_call) => match find_tool_call(events, tool_call) {
            None => Some(TitleHistoryError::MissingCall { event, tool_call }),
            Some(call) => match parse_json(call.arguments.as_str()) {
                Err(reason) => Some(TitleHistoryError::InvalidArguments { tool_call, reason }),
                Ok(arguments) => check_title_request(event, tool_call, &arguments, change),
            },
        },
    }
}

/// Checks that each title is the one that its tool call asks for.
pub fn validate_agent_title_changes(edb: &EventDataBase) -> (result: Result<(), TitleHistoryError>)
    ensures
        match result {
            Err(error) => first_failure(title_check(edb@), edb@.len() as int) == Some(error@),
            Ok(_) => first_failure(title_check(edb@), edb@.len() as int) is None,
        },
{
    let ghost check = title_check(edb@);
    let mut place: usize = 0;
    while place < edb.events.len()
        invariant
            place <= edb@.len(),
            check == title_check(edb@),
            first_failure(check, place as int) is None,
        decreases edb@.len() - place,
    {
        let found = match &edb.events[place].body {
            EventBody::AgentTitleChanged(change) => check_title_change(&edb.events, place, change),
            _ => None,
        };
        assert(match found {
            Some(error) => check(place as int) == Some(error@),
            None => check(place as int) is None,
        });
        if let Some(error) = found {
            proof {
                lemma_failure_stays(check, place + 1, edb@.len() as int);
            }
            return Err(error);
        }
        place += 1;
    }
    Ok(())
}

} // verus!
