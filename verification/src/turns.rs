//! Turns: a prompt begins a turn, and the turn stands where its requests and tools stand.
use vstd::prelude::*;

use crate::api_calls::{is_valid_prompt, valid_prompt};
use crate::event::{
    first_failure, lemma_failure_stays, AgentTurn, AgentTurnState, ApiState, Computed, Event,
    EventBody, EventDataBase, EventId, EventKind, UserTurnAborted,
};
use crate::text::{decimal, join3, push_decimal, say2};

verus! {

/// Where the current turn stands.
#[derive(Clone, Copy, Debug, PartialEq, Eq, Structural)]
pub enum UserTurnState {
    Active(EventId),
    Aborting(EventId),
    Aborted(EventId),
    Completed(EventId),
}

/// The latest prompt that begins a turn.
pub open spec fn latest_prompt(events: Seq<Event>) -> Option<EventId>
    decreases events.len(),
{
    if events.len() == 0 {
        None
    } else if events.last().root_prompt() {
        Some(events.last().id)
    } else {
        latest_prompt(events.drop_last())
    }
}

fn find_latest_prompt(events: &Vec<Event>) -> (prompt: Option<EventId>)
    ensures
        prompt == latest_prompt(events@),
{
    let mut place: usize = events.len();
    assert(events@.take(place as int) =~= events@);
    while place > 0
        invariant
            place <= events.len(),
            latest_prompt(events@) == latest_prompt(events@.take(place as int)),
        decreases place,
    {
        assert(events@.take(place as int).drop_last() =~= events@.take(place - 1));
        place -= 1;
        if events[place].is_root_prompt() {
            return Some(events[place].id);
        }
    }
    None
}

/// Whether the event is the abort of the turn.
pub open spec fn aborts(event: Event, prompt: EventId) -> bool {
    event.body matches EventBody::UserTurnAborted(aborted) && aborted.prompt_id == prompt
}

/// Whether the turn was aborted.
pub open spec fn aborted(events: Seq<Event>, prompt: EventId) -> bool {
    exists|i: int| 0 <= i < events.len() && aborts(#[trigger] events[i], prompt)
}

/// The request that the event is a step of, for a step of a request of the turn.
pub open spec fn step_of(event: Event, prompt: EventId) -> Option<(EventId, ApiState)> {
    match event.body {
        EventBody::ApiStateUpdate(update) => if update.prompt_id == prompt {
            Some((update.api_call_id, update.state))
        } else {
            None
        },
        _ => None,
    }
}

/// Whether the event is the last step of its request, and leaves the request running.
pub open spec fn leaves_running(events: Seq<Event>, place: int, prompt: EventId) -> bool {
    &&& step_of(events[place], prompt) matches Some(step)
    &&& !step.1.terminal()
    &&& forall|j: int|
        place < j < events.len() ==> !(step_of(#[trigger] events[j], prompt) matches Some(later)
            && later.0 == step.0)
}

/// Whether the event is the result of the tool call.
pub open spec fn closes(event: Event, tool_call: EventId) -> bool {
    event.body matches EventBody::ToolCallResult(result) && result.tool_call_id == tool_call
}

/// Whether the event is a tool call of the turn without a result after it.
pub open spec fn leaves_open(events: Seq<Event>, place: int, prompt: EventId) -> bool {
    &&& events[place].body matches EventBody::ToolCall(call)
    &&& call.prompt_id == prompt
    &&& forall|j: int|
        place < j < events.len() ==> !closes(#[trigger] events[j], events[place].id)
}

/// Whether the event leaves a request of the turn running or a tool call open.
pub open spec fn unsettled_at(events: Seq<Event>, place: int, prompt: EventId) -> bool {
    leaves_running(events, place, prompt) || leaves_open(events, place, prompt)
}

/// Whether nothing of the turn is left running: each request of it has ended, and each tool call
/// has its result.
pub open spec fn settled(events: Seq<Event>, prompt: EventId) -> bool {
    forall|i: int| 0 <= i < events.len() ==> !#[trigger] unsettled_at(events, i, prompt)
}

fn is_aborted(events: &Vec<Event>, prompt: EventId) -> (result: bool)
    ensures
        result == aborted(events@, prompt),
{
    let mut place: usize = 0;
    while place < events.len()
        invariant
            place <= events.len(),
            forall|i: int| 0 <= i < place ==> !aborts(#[trigger] events@[i], prompt),
        decreases events.len() - place,
    {
        if let EventBody::UserTurnAborted(aborted) = &events[place].body {
            if aborted.prompt_id == prompt {
                assert(aborts(events@[place as int], prompt));
                return true;
            }
        }
        place += 1;
    }
    false
}

fn find_step(event: &Event, prompt: EventId) -> (step: Option<(EventId, ApiState)>)
    ensures
        step == step_of(*event, prompt),
{
    match &event.body {
        EventBody::ApiStateUpdate(update) => if update.prompt_id == prompt {
            Some((update.api_call_id, update.state))
        } else {
            None
        },
        _ => None,
    }
}

fn request_left_running(events: &Vec<Event>, place: usize, prompt: EventId) -> (result: bool)
    requires
        place < events.len(),
    ensures
        result == leaves_running(events@, place as int, prompt),
{
    match find_step(&events[place], prompt) {
        None => false,
        Some((call, state)) => {
            if state.is_terminal() {
                return false;
            }
            let mut index: usize = place + 1;
            while index < events.len()
                invariant
                    place < index <= events.len(),
                    step_of(events@[place as int], prompt) == Some((call, state)),
                    forall|j: int|
                        place < j < index ==> !(step_of(
                            #[trigger] events@[j],
                            prompt,
                        ) matches Some(later) && later.0 == call),
                decreases events.len() - index,
            {
                if let Some((later, _)) = find_step(&events[index], prompt) {
                    if later == call {
                        assert(step_of(events@[index as int], prompt) matches Some(other)
                            && other.0 == call);
                        return false;
                    }
                }
                index += 1;
            }
            true
        },
    }
}

fn tool_left_open(events: &Vec<Event>, place: usize, prompt: EventId) -> (result: bool)
    requires
        place < events.len(),
    ensures
        result == leaves_open(events@, place as int, prompt),
{
    match &events[place].body {
        EventBody::ToolCall(call) => {
            if call.prompt_id != prompt {
                return false;
            }
            let id = events[place].id;
            let mut index: usize = place + 1;
            while index < events.len()
                invariant
                    place < index <= events.len(),
                    id == events@[place as int].id,
                    forall|j: int| place < j < index ==> !closes(#[trigger] events@[j], id),
                decreases events.len() - index,
            {
                if let EventBody::ToolCallResult(result) = &events[index].body {
                    if result.tool_call_id == id {
                        assert(closes(events@[index as int], id));
                        return false;
                    }
                }
                index += 1;
            }
            true
        },
        _ => false,
    }
}

fn is_settled(events: &Vec<Event>, prompt: EventId) -> (result: bool)
    ensures
        result == settled(events@, prompt),
{
    let mut place: usize = 0;
    while place < events.len()
        invariant
            place <= events.len(),
            forall|i: int| 0 <= i < place ==> !#[trigger] unsettled_at(events@, i, prompt),
        decreases events.len() - place,
    {
        let running = request_left_running(events, place, prompt);
        let open = tool_left_open(events, place, prompt);
        assert((running || open) == unsettled_at(events@, place as int, prompt));
        if running || open {
            return false;
        }
        place += 1;
    }
    true
}

/// The latest request of the turn.
pub open spec fn latest_request(events: Seq<Event>, prompt: EventId) -> Option<EventId>
    decreases events.len(),
{
    if events.len() == 0 {
        None
    } else {
        match step_of(events.last(), prompt) {
            Some((call, ApiState::Requesting)) => Some(call),
            _ => latest_request(events.drop_last(), prompt),
        }
    }
}

fn find_latest_request(events: &Vec<Event>, prompt: EventId) -> (call: Option<EventId>)
    ensures
        call == latest_request(events@, prompt),
{
    let mut place: usize = events.len();
    assert(events@.take(place as int) =~= events@);
    while place > 0
        invariant
            place <= events.len(),
            latest_request(events@, prompt) == latest_request(events@.take(place as int), prompt),
        decreases place,
    {
        assert(events@.take(place as int).drop_last() =~= events@.take(place - 1));
        place -= 1;
        if let Some((call, state)) = find_step(&events[place], prompt) {
            if state == ApiState::Requesting {
                return Some(call);
            }
        }
    }
    None
}

/// The state that the request has reached.
pub open spec fn reached(events: Seq<Event>, call: EventId) -> Option<ApiState>
    decreases events.len(),
{
    if events.len() == 0 {
        None
    } else {
        match events.last().body {
            EventBody::ApiStateUpdate(update) => if update.api_call_id == call {
                Some(update.state)
            } else {
                reached(events.drop_last(), call)
            },
            _ => reached(events.drop_last(), call),
        }
    }
}

fn find_reached(events: &Vec<Event>, call: EventId) -> (state: Option<ApiState>)
    ensures
        state == reached(events@, call),
{
    let mut place: usize = events.len();
    assert(events@.take(place as int) =~= events@);
    while place > 0
        invariant
            place <= events.len(),
            reached(events@, call) == reached(events@.take(place as int), call),
        decreases place,
    {
        assert(events@.take(place as int).drop_last() =~= events@.take(place - 1));
        place -= 1;
        if let EventBody::ApiStateUpdate(update) = &events[place].body {
            if update.api_call_id == call {
                return Some(update.state);
            }
        }
    }
    None
}

/// Whether the event is a tool call that the request asked for.
pub open spec fn calls_tool(event: Event, call: EventId) -> bool {
    event.body matches EventBody::ToolCall(tool) && tool.api_call_id == call
}

/// Whether the event is the last part of the request's answer.
pub open spec fn answers(event: Event, prompt: EventId, call: EventId) -> bool {
    &&& event.id > call
    &&& event.body matches EventBody::AssistResponse(response)
    &&& response.prompt_id == prompt
    &&& response.finished
}

/// Whether the request asked for a tool.
pub open spec fn called_tool(events: Seq<Event>, call: EventId) -> bool {
    exists|i: int| 0 <= i < events.len() && calls_tool(#[trigger] events[i], call)
}

/// Whether the request has its whole answer.
pub open spec fn answered(events: Seq<Event>, prompt: EventId, call: EventId) -> bool {
    exists|i: int| 0 <= i < events.len() && answers(#[trigger] events[i], prompt, call)
}

fn has_called_tool(events: &Vec<Event>, call: EventId) -> (result: bool)
    ensures
        result == called_tool(events@, call),
{
    let mut place: usize = 0;
    while place < events.len()
        invariant
            place <= events.len(),
            forall|i: int| 0 <= i < place ==> !calls_tool(#[trigger] events@[i], call),
        decreases events.len() - place,
    {
        if let EventBody::ToolCall(tool) = &events[place].body {
            if tool.api_call_id == call {
                assert(calls_tool(events@[place as int], call));
                return true;
            }
        }
        place += 1;
    }
    false
}

fn is_answered(events: &Vec<Event>, prompt: EventId, call: EventId) -> (result: bool)
    ensures
        result == answered(events@, prompt, call),
{
    let mut place: usize = 0;
    while place < events.len()
        invariant
            place <= events.len(),
            forall|i: int| 0 <= i < place ==> !answers(#[trigger] events@[i], prompt, call),
        decreases events.len() - place,
    {
        if let EventBody::AssistResponse(response) = &events[place].body {
            if events[place].id > call && response.prompt_id == prompt && response.finished {
                assert(answers(events@[place as int], prompt, call));
                return true;
            }
        }
        place += 1;
    }
    false
}

/// Where the current turn stands, by the events of the conversation that are in effect.
pub open spec fn turn_state(effective: Seq<Event>) -> Option<UserTurnState> {
    match latest_prompt(effective) {
        None => None,
        Some(prompt) => Some(
            if aborted(effective, prompt) {
                if settled(effective, prompt) {
                    UserTurnState::Aborted(prompt)
                } else {
                    UserTurnState::Aborting(prompt)
                }
            } else {
                match latest_request(effective, prompt) {
                    None => UserTurnState::Active(prompt),
                    Some(call) => {
                        let tool = called_tool(effective, call);
                        if !tool && answered(effective, prompt, call) {
                            UserTurnState::Completed(prompt)
                        } else {
                            match reached(effective, call) {
                                Some(ApiState::Error) => UserTurnState::Completed(prompt),
                                Some(ApiState::Interrupted) => UserTurnState::Completed(prompt),
                                Some(ApiState::Completed) => if tool {
                                    UserTurnState::Active(prompt)
                                } else {
                                    UserTurnState::Completed(prompt)
                                },
                                _ => UserTurnState::Active(prompt),
                            }
                        }
                    },
                }
            },
        ),
    }
}

/// Where the current turn stands, by the events of the conversation that are in effect.
pub fn current_user_turn_state(effective: &Vec<Event>) -> (state: Option<UserTurnState>)
    ensures
        state == turn_state(effective@),
{
    let prompt = match find_latest_prompt(effective) {
        None => {
            return None;
        },
        Some(prompt) => prompt,
    };
    if is_aborted(effective, prompt) {
        return Some(
            if is_settled(effective, prompt) {
                UserTurnState::Aborted(prompt)
            } else {
                UserTurnState::Aborting(prompt)
            },
        );
    }
    let call = match find_latest_request(effective, prompt) {
        None => {
            return Some(UserTurnState::Active(prompt));
        },
        Some(call) => call,
    };
    let tool = has_called_tool(effective, call);
    if !tool && is_answered(effective, prompt, call) {
        return Some(UserTurnState::Completed(prompt));
    }
    Some(
        match find_reached(effective, call) {
            Some(ApiState::Error) => UserTurnState::Completed(prompt),
            Some(ApiState::Interrupted) => UserTurnState::Completed(prompt),
            Some(ApiState::Completed) => if tool {
                UserTurnState::Active(prompt)
            } else {
                UserTurnState::Completed(prompt)
            },
            _ => UserTurnState::Active(prompt),
        },
    )
}

/// The turn that is active, by the events of the conversation that are in effect.
pub open spec fn active_turn(effective: Seq<Event>) -> Option<EventId> {
    match turn_state(effective) {
        Some(UserTurnState::Active(prompt)) => Some(prompt),
        _ => None,
    }
}

/// The turn that is active, by the events of the conversation that are in effect.
pub fn active_user_turn_id(effective: &Vec<Event>) -> (prompt: Option<EventId>)
    ensures
        prompt == active_turn(effective@),
{
    match current_user_turn_state(effective) {
        Some(UserTurnState::Active(prompt)) => Some(prompt),
        _ => None,
    }
}

/// A request of the turn that has started has reached some state.
pub proof fn law_started_request_has_a_state(events: Seq<Event>, prompt: EventId)
    ensures
        latest_request(events, prompt) matches Some(call) ==> reached(events, call) is Some,
    decreases events.len(),
{
    if events.len() > 0 {
        law_started_request_has_a_state(events.drop_last(), prompt);
    }
}

/// Once a turn is aborted it is never active again, nor completed, whatever is added to it.
pub proof fn law_aborted_turn_stays_aborted(events: Seq<Event>, event: Event, prompt: EventId)
    requires
        latest_prompt(events) == Some(prompt),
        aborted(events, prompt),
        !event.root_prompt(),
    ensures
        turn_state(events.push(event)) matches Some(state) && (state == UserTurnState::Aborted(
            prompt,
        ) || state == UserTurnState::Aborting(prompt)),
{
    let longer = events.push(event);
    assert(longer.drop_last() =~= events);
    let i = choose|i: int| 0 <= i < events.len() && aborts(#[trigger] events[i], prompt);
    assert(aborts(longer[i], prompt));
}

/// A rule of aborts that an event breaks.
#[derive(Debug)]
pub enum AbortHistoryError {
    InvalidPrompt { abort: EventId, prompt: EventId },
    Unknown { reason: String },
    Inactive { abort: EventId, prompt: EventId },
    Later { kind: EventKind, prompt: EventId, abort: EventId },
}

impl AbortHistoryError {
    /// What is said of a history that breaks the rule.
    pub open spec fn text(&self) -> Seq<char> {
        match *self {
            AbortHistoryError::InvalidPrompt { abort, prompt } => "turn abort "@ + decimal(
                abort as nat,
            ) + " references invalid prompt "@ + decimal(prompt as nat) + ""@,
            AbortHistoryError::Unknown { reason } => reason@,
            AbortHistoryError::Inactive { abort, prompt } => "turn abort "@ + decimal(abort as nat)
                + " targets inactive prompt "@ + decimal(prompt as nat) + ""@,
            AbortHistoryError::Later { kind, prompt, abort } => ""@ + kind.name()
                + " appears after turn "@ + decimal(prompt as nat) + " was aborted by event "@
                + decimal(abort as nat),
        }
    }

    /// What is said of a history that breaks the rule.
    pub fn message(&self) -> (text: String)
        ensures
            text@ == self.text(),
    {
        match self {
            AbortHistoryError::InvalidPrompt { abort, prompt } => say2(
                "turn abort ",
                *abort,
                " references invalid prompt ",
                *prompt,
                "",
            ),
            AbortHistoryError::Unknown { reason } => reason.clone(),
            AbortHistoryError::Inactive { abort, prompt } => say2(
                "turn abort ",
                *abort,
                " targets inactive prompt ",
                *prompt,
                "",
            ),
            AbortHistoryError::Later { kind, prompt, abort } => {
                let mut text = join3("", kind.label(), " appears after turn ");
                push_decimal(&mut text, *prompt);
                text.append(" was aborted by event ");
                push_decimal(&mut text, *abort);
                text
            },
        }
    }
}

/// Whether the event may not follow the abort of the turn: it would carry the turn on.
pub open spec fn carries_on(event: Event, prompt: EventId) -> bool {
    match event.body {
        EventBody::FollowUpPrompt(follow_up) => follow_up.prompt_id == prompt,
        EventBody::AssistResponse(response) => response.prompt_id == prompt,
        EventBody::ModelContextItem(item) => item.prompt_id == prompt,
        EventBody::ToolCall(call) => call.prompt_id == prompt,
        EventBody::ApiStateUpdate(update) => update.prompt_id == prompt && update.state
            != ApiState::Interrupted,
        EventBody::UserTurnAborted(next) => next.prompt_id == prompt,
        _ => false,
    }
}

fn is_carried_on(event: &Event, prompt: EventId) -> (result: bool)
    ensures
        result == carries_on(*event, prompt),
{
    match &event.body {
        EventBody::FollowUpPrompt(follow_up) => follow_up.prompt_id == prompt,
        EventBody::AssistResponse(response) => response.prompt_id == prompt,
        EventBody::ModelContextItem(item) => item.prompt_id == prompt,
        EventBody::ToolCall(call) => call.prompt_id == prompt,
        EventBody::ApiStateUpdate(update) => update.prompt_id == prompt && update.state
            != ApiState::Interrupted,
        EventBody::UserTurnAborted(next) => next.prompt_id == prompt,
        _ => false,
    }
}

/// The first event from the place on that carries the aborted turn on.
pub open spec fn first_carrying_on(events: Seq<Event>, place: int, prompt: EventId) -> Option<
    EventKind,
>
    decreases events.len() - place,
{
    if place < 0 || place >= events.len() {
        None
    } else if carries_on(events[place], prompt) {
        Some(events[place].kind_of())
    } else {
        first_carrying_on(events, place + 1, prompt)
    }
}

/// What is wrong with an abort: its turn must be the active one, and nothing may carry it on.
pub open spec fn abort_error(
    events: Seq<Event>,
    place: int,
    aborted: UserTurnAborted,
) -> Option<AbortHistoryError> {
    let abort = events[place].id;
    let prompt = aborted.prompt_id;
    if !valid_prompt(events, prompt, abort) {
        Some(AbortHistoryError::InvalidPrompt { abort, prompt })
    } else {
        match aborted.active_before {
            Computed::Failure(reason) => Some(AbortHistoryError::Unknown { reason }),
            Computed::Value(active) => if active != Some(prompt) {
                Some(AbortHistoryError::Inactive { abort, prompt })
            } else {
                match first_carrying_on(events, place + 1, prompt) {
                    Some(kind) => Some(AbortHistoryError::Later { kind, prompt, abort }),
                    None => None,
                }
            },
        }
    }
}

/// What is wrong with the event at the place, if it is an abort.
pub open spec fn abort_check(events: Seq<Event>) -> spec_fn(int) -> Option<AbortHistoryError> {
    |place: int|
        match events[place].body {
            EventBody::UserTurnAborted(aborted) => abort_error(events, place, aborted),
            _ => None,
        }
}

fn check_abort(events: &Vec<Event>, place: usize, aborted: &UserTurnAborted) -> (error: Option<
    AbortHistoryError,
>)
    requires
        place < events.len(),
    ensures
        error == abort_error(events@, place as int, *aborted),
{
    let abort = events[place].id;
    let prompt = aborted.prompt_id;
    if !is_valid_prompt(events, prompt, abort) {
        return Some(AbortHistoryError::InvalidPrompt { abort, prompt });
    }
    match &aborted.active_before {
        Computed::Failure(reason) => {
            return Some(AbortHistoryError::Unknown { reason: reason.clone() });
        },
        Computed::Value(active) => {
            let same = match active {
                Some(turn) => *turn == prompt,
                None => false,
            };
            if !same {
                return Some(AbortHistoryError::Inactive { abort, prompt });
            }
        },
    }
    let mut index: usize = place + 1;
    while index < events.len()
        invariant
            place < index <= events.len(),
            abort == events@[place as int].id,
            prompt == aborted.prompt_id,
            valid_prompt(events@, prompt, abort),
            aborted.active_before == Computed::Value(Some(prompt)),
            first_carrying_on(events@, place + 1, prompt) == first_carrying_on(
                events@,
                index as int,
                prompt,
            ),
        decreases events.len() - index,
    {
        if is_carried_on(&events[index], prompt) {
            return Some(
                AbortHistoryError::Later { kind: events[index].kind(), prompt, abort },
            );
        }
        index += 1;
    }
    None
}

/// Checks that each abort ends the turn that was active.
pub fn validate_turn_aborts(edb: &EventDataBase) -> (result: Result<(), AbortHistoryError>)
    ensures
        match first_failure(abort_check(edb@), edb@.len() as int) {
            Some(error) => result == Err::<(), AbortHistoryError>(error),
            None => result is Ok,
        },
{
    let mut place: usize = 0;
    while place < edb.events.len()
        invariant
            place <= edb@.len(),
            first_failure(abort_check(edb@), place as int) is None,
        decreases edb@.len() - place,
    {
        if let EventBody::UserTurnAborted(aborted) = &edb.events[place].body {
            if let Some(error) = check_abort(&edb.events, place, aborted) {
                proof {
                    assert(abort_check(edb@)(place as int) == Some(error));
                    lemma_failure_stays(abort_check(edb@), place + 1, edb@.len() as int);
                }
                return Err(error);
            }
        }
        assert(abort_check(edb@)(place as int) is None);
        place += 1;
    }
    Ok(())
}

/// What a restart says of a turn that was open.
pub const RESTART_TURN_DETAIL: &'static str =
    "orchestrator restarted before the Agent turn reached a terminal state";

/// Whether an event body is this step of a turn.
pub open spec fn is_turn_step(
    body: EventBody,
    turn: EventId,
    prompt: EventId,
    state: AgentTurnState,
    detail: Seq<char>,
) -> bool {
    &&& body matches EventBody::AgentTurn(step)
    &&& step.turn_id == turn
    &&& step.prompt_id == prompt
    &&& step.state == state
    &&& step.detail@ == detail
}

/// Adds a step of a turn to the log.
pub fn append_agent_turn(
    edb: &mut EventDataBase,
    turn_id: EventId,
    prompt_id: EventId,
    state: AgentTurnState,
    detail: &str,
) -> (id: EventId)
    requires
        old(edb).room(1),
    ensures
        id == old(edb).next_id,
        final(edb).grown(old(edb), 1),
        is_turn_step(final(edb).added(old(edb), 0), turn_id, prompt_id, state, detail@),
        old(edb).wf() ==> final(edb).wf(),
{
    edb.append(
        EventBody::AgentTurn(AgentTurn { turn_id, prompt_id, state, detail: detail.to_owned() }),
    )
}

/// Why a turn cannot be closed.
#[derive(Clone, Copy, Debug, PartialEq, Eq, Structural)]
pub enum TurnError {
    NoTurn { prompt: EventId },
    OtherTurn { turn: EventId, prompt: EventId },
}

impl TurnError {
    /// What is said of the turn.
    pub open spec fn text(&self) -> Seq<char> {
        match *self {
            TurnError::NoTurn { prompt } => "user prompt "@ + decimal(prompt as nat)
                + " has no AgentTurnEvent"@,
            TurnError::OtherTurn { turn, prompt } => "latest Agent turn "@ + decimal(turn as nat)
                + " does not belong to prompt "@ + decimal(prompt as nat) + ""@,
        }
    }

    /// What is said of the turn.
    pub fn message(&self) -> (text: String)
        ensures
            text@ == self.text(),
    {
        match *self {
            TurnError::NoTurn { prompt } => crate::text::say1(
                "user prompt ",
                prompt,
                " has no AgentTurnEvent",
            ),
            TurnError::OtherTurn { turn, prompt } => say2(
                "latest Agent turn ",
                turn,
                " does not belong to prompt ",
                prompt,
                "",
            ),
        }
    }
}

/// Where the latest turn of the log stands.
#[derive(Clone, Copy, Debug, PartialEq, Eq, Structural)]
pub struct LatestTurn {
    pub turn_id: EventId,
    pub prompt_id: EventId,
    pub state: AgentTurnState,
}

/// What closing the turn of the prompt does: nothing where the prompt is gone or its turn has
/// ended; otherwise the latest turn, which must be that of the prompt, ends.
pub open spec fn closing(
    events: Seq<Event>,
    latest: Option<LatestTurn>,
    prompt: EventId,
) -> Result<Option<LatestTurn>, TurnError> {
    if !(crate::event::event_with(events, prompt) matches Some(found) && found.root_prompt()) {
        Ok(None)
    } else {
        match latest {
            None => Err(TurnError::NoTurn { prompt }),
            Some(turn) => if turn.prompt_id != prompt {
                Err(TurnError::OtherTurn { turn: turn.turn_id, prompt })
            } else if turn.state.terminal() {
                Ok(None)
            } else {
                Ok(Some(turn))
            },
        }
    }
}

/// Closes the turn of the prompt. `latest` is the latest turn of the log.
pub fn close_agent_turn(
    edb: &mut EventDataBase,
    latest: Option<LatestTurn>,
    prompt_id: EventId,
    state: AgentTurnState,
    detail: &str,
) -> (result: Result<bool, TurnError>)
    requires
        old(edb).room(1),
    ensures
        match closing(old(edb)@, latest, prompt_id) {
            Err(error) => result == Err::<bool, TurnError>(error) && *final(edb) == *old(edb),
            Ok(None) => result == Ok::<bool, TurnError>(false) && *final(edb) == *old(edb),
            Ok(Some(turn)) => {
                &&& result == Ok::<bool, TurnError>(true)
                &&& final(edb).grown(old(edb), 1)
                &&& is_turn_step(
                    final(edb).added(old(edb), 0),
                    turn.turn_id,
                    prompt_id,
                    state,
                    detail@,
                )
            },
        },
        old(edb).wf() ==> final(edb).wf(),
{
    let is_prompt = match edb.get(prompt_id) {
        Some(event) => event.is_root_prompt(),
        None => false,
    };
    if !is_prompt {
        return Ok(false);
    }
    match latest {
        None => Err(TurnError::NoTurn { prompt: prompt_id }),
        Some(turn) => {
            if turn.prompt_id != prompt_id {
                return Err(TurnError::OtherTurn { turn: turn.turn_id, prompt: prompt_id });
            }
            if turn.state.is_terminal() {
                return Ok(false);
            }
            append_agent_turn(edb, turn.turn_id, prompt_id, state, detail);
            Ok(true)
        },
    }
}

/// How a restart ends a turn that was open: completed if its answer was, else interrupted.
pub open spec fn restart_end(effective: Seq<Event>, turn: LatestTurn) -> AgentTurnState {
    if turn_state(effective) == Some(UserTurnState::Completed(turn.prompt_id)) {
        AgentTurnState::Completed
    } else {
        AgentTurnState::Interrupted
    }
}

/// After a restart, ends the turn that was left open. `latest` is the latest turn of the log.
pub fn reconcile_agent_turns(
    edb: &mut EventDataBase,
    latest: Option<LatestTurn>,
    effective: &Vec<Event>,
)
    requires
        old(edb).room(1),
    ensures
        match latest {
            Some(turn) => if turn.state.terminal() {
                *final(edb) == *old(edb)
            } else {
                &&& final(edb).grown(old(edb), 1)
                &&& is_turn_step(
                    final(edb).added(old(edb), 0),
                    turn.turn_id,
                    turn.prompt_id,
                    restart_end(effective@, turn),
                    if restart_end(effective@, turn) == AgentTurnState::Interrupted {
                        RESTART_TURN_DETAIL@
                    } else {
                        ""@
                    },
                )
            },
            None => *final(edb) == *old(edb),
        },
        old(edb).wf() ==> final(edb).wf(),
{
    if let Some(turn) = latest {
        if !turn.state.is_terminal() {
            let completed = match current_user_turn_state(effective) {
                Some(UserTurnState::Completed(prompt)) => prompt == turn.prompt_id,
                _ => false,
            };
            if completed {
                append_agent_turn(
                    edb,
                    turn.turn_id,
                    turn.prompt_id,
                    AgentTurnState::Completed,
                    "",
                );
            } else {
                append_agent_turn(
                    edb,
                    turn.turn_id,
                    turn.prompt_id,
                    AgentTurnState::Interrupted,
                    RESTART_TURN_DETAIL,
                );
            }
        }
    }
}

} // verus!
