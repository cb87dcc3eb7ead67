//! The rules of model requests: how a request goes from its start to its end, how it is retried,
//! and what a restart makes of requests that a crash left open.
use std::collections::HashMap;
use vstd::prelude::*;

use crate::event::{
    event_with, find_event, ApiState, ApiStateUpdate, CompactState, Event, EventBody, EventDataBase,
    EventId,
};
use crate::text::{decimal, join3, push_decimal, say1, say2, say3};

verus! {

broadcast use vstd::std_specs::hash::group_hash_axioms;

/// How far a request has come.
#[derive(Clone, Copy, Debug, PartialEq, Eq, Structural)]
pub struct ApiCallState {
    pub id: EventId,
    pub prompt_id: EventId,
    pub state: ApiState,
    pub response_finished: bool,
    pub retry_count: u8,
    pub retry_limit: u8,
    pub compact_summary: bool,
}

/// A rule of requests that an event breaks.
#[derive(Clone, Copy, Debug, PartialEq, Eq, Structural)]
pub enum ApiHistoryError {
    NoActiveCall { response: EventId },
    ResponseNotStreaming { response: EventId, api_call: EventId, state: ApiState },
    ResponseAfterFinal { api_call: EventId },
    ItemUnknownCall { item: EventId, api_call: EventId },
    ItemNotStreaming { item: EventId, api_call: EventId },
    InvalidPrompt { api_call: EventId, prompt: EventId },
    ForeignIdentity { event: EventId },
    NoRetryEvent { prompt: EventId },
    Duplicate { api_call: EventId },
    UnknownCall { event: EventId, api_call: EventId },
    PromptChanged { api_call: EventId, from: EventId, to: EventId },
    RetryFrom { api_call: EventId, state: ApiState },
    RetryOverflow { api_call: EventId },
    InvalidRetry { api_call: EventId, count: u8, limit: u8, call_count: u8, call_limit: u8 },
    TwoRetries { prompt: EventId },
    AfterTerminal { api_call: EventId, state: ApiState },
    StreamingFrom { api_call: EventId, state: ApiState },
    NoFinalResponse { api_call: EventId },
}

impl ApiHistoryError {
    /// What is said of a history that breaks the rule.
    pub open spec fn text(&self) -> Seq<char> {
        match *self {
            ApiHistoryError::NoActiveCall { response } => "assist response "@ + decimal(
                response as nat,
            ) + " has no active API call"@,
            ApiHistoryError::ResponseNotStreaming { response, api_call, state } => (
            "assist response "@ + decimal(response as nat) + " belongs to API call "@ + decimal(
                api_call as nat,
            ) + " in state "@) + state.name() + ""@,
            ApiHistoryError::ResponseAfterFinal { api_call } => "API call "@ + decimal(
                api_call as nat,
            ) + " has response content after its final response event"@,
            ApiHistoryError::ItemUnknownCall { item, api_call } => "model context item "@ + decimal(
                item as nat,
            ) + " references unknown API call "@ + decimal(api_call as nat) + ""@,
            ApiHistoryError::ItemNotStreaming { item, api_call } => "model context item "@
                + decimal(item as nat) + " does not belong to active streaming API call "@
                + decimal(api_call as nat) + ""@,
            ApiHistoryError::InvalidPrompt { api_call, prompt } => "API call "@ + decimal(
                api_call as nat,
            ) + " references invalid prompt "@ + decimal(prompt as nat) + ""@,
            ApiHistoryError::ForeignIdentity { event } => "requesting event "@ + decimal(
                event as nat,
            ) + " must use its own ID as api_call_id"@,
            ApiHistoryError::NoRetryEvent { prompt } => "prompt "@ + decimal(prompt as nat)
                + " started a new API call after an error without a retry event"@,
            ApiHistoryError::Duplicate { api_call } => "duplicate API call "@ + decimal(
                api_call as nat,
            ) + ""@,
            ApiHistoryError::UnknownCall { event, api_call } => "API state "@ + decimal(
                event as nat,
            ) + " references unknown call "@ + decimal(api_call as nat) + ""@,
            ApiHistoryError::PromptChanged { api_call, from, to } => "API call "@ + decimal(
                api_call as nat,
            ) + " changed prompt from "@ + decimal(from as nat) + " to "@ + decimal(to as nat)
                + ""@,
            ApiHistoryError::RetryFrom { api_call, state } => ("API call "@ + decimal(
                api_call as nat,
            ) + " scheduled a retry from "@) + state.name() + ""@,
            ApiHistoryError::RetryOverflow { api_call } => "API call "@ + decimal(api_call as nat)
                + " retry count overflow"@,
            ApiHistoryError::InvalidRetry { api_call, count, limit, call_count, call_limit } => (
            "API call "@ + decimal(api_call as nat) + " has invalid retry "@ + decimal(
                count as nat,
            ) + "/"@ + decimal(limit as nat) + " after "@) + decimal(call_count as nat) + "/"@
                + decimal(call_limit as nat),
            ApiHistoryError::TwoRetries { prompt } => "prompt "@ + decimal(prompt as nat)
                + " has more than one pending API retry"@,
            ApiHistoryError::AfterTerminal { api_call, state } => ("API call "@ + decimal(
                api_call as nat,
            ) + " has state after terminal state "@) + state.name() + ""@,
            ApiHistoryError::StreamingFrom { api_call, state } => ("API call "@ + decimal(
                api_call as nat,
            ) + " entered streaming from "@) + state.name() + ""@,
            ApiHistoryError::NoFinalResponse { api_call } => "API call "@ + decimal(api_call as nat)
                + " completed without a final assist response"@,
        }
    }

    /// What is said of a history that breaks the rule.
    pub fn message(&self) -> (text: String)
        ensures
            text@ == self.text(),
    {
        match *self {
            ApiHistoryError::NoActiveCall { response } => say1(
                "assist response ",
                response,
                " has no active API call",
            ),
            ApiHistoryError::ResponseNotStreaming { response, api_call, state } => join3(
                say2("assist response ", response, " belongs to API call ", api_call, " in state ").as_str(),
                state.label(),
                "",
            ),
            ApiHistoryError::ResponseAfterFinal { api_call } => say1(
                "API call ",
                api_call,
                " has response content after its final response event",
            ),
            ApiHistoryError::ItemUnknownCall { item, api_call } => say2(
                "model context item ",
                item,
                " references unknown API call ",
                api_call,
                "",
            ),
            ApiHistoryError::ItemNotStreaming { item, api_call } => say2(
                "model context item ",
                item,
                " does not belong to active streaming API call ",
                api_call,
                "",
            ),
            ApiHistoryError::InvalidPrompt { api_call, prompt } => say2(
                "API call ",
                api_call,
                " references invalid prompt ",
                prompt,
                "",
            ),
            ApiHistoryError::ForeignIdentity { event } => say1(
                "requesting event ",
                event,
                " must use its own ID as api_call_id",
            ),
            ApiHistoryError::NoRetryEvent { prompt } => say1(
                "prompt ",
                prompt,
                " started a new API call after an error without a retry event",
            ),
            ApiHistoryError::Duplicate { api_call } => say1("duplicate API call ", api_call, ""),
            ApiHistoryError::UnknownCall { event, api_call } => say2(
                "API state ",
                event,
                " references unknown call ",
                api_call,
                "",
            ),
            ApiHistoryError::PromptChanged { api_call, from, to } => say3(
                "API call ",
                api_call,
                " changed prompt from ",
                from,
                " to ",
                to,
                "",
            ),
            ApiHistoryError::RetryFrom { api_call, state } => join3(
                say1("API call ", api_call, " scheduled a retry from ").as_str(),
                state.label(),
                "",
            ),
            ApiHistoryError::RetryOverflow { api_call } => say1(
                "API call ",
                api_call,
                " retry count overflow",
            ),
            ApiHistoryError::InvalidRetry { api_call, count, limit, call_count, call_limit } => {
                let mut text = say3(
                    "API call ",
                    api_call,
                    " has invalid retry ",
                    count as u64,
                    "/",
                    limit as u64,
                    " after ",
                );
                push_decimal(&mut text, call_count as u64);
                text.append("/");
                push_decimal(&mut text, call_limit as u64);
                text
            },
            ApiHistoryError::TwoRetries { prompt } => say1(
                "prompt ",
                prompt,
                " has more than one pending API retry",
            ),
            ApiHistoryError::AfterTerminal { api_call, state } => join3(
                say1("API call ", api_call, " has state after terminal state ").as_str(),
                state.label(),
                "",
            ),
            ApiHistoryError::StreamingFrom { api_call, state } => join3(
                say1("API call ", api_call, " entered streaming from ").as_str(),
                state.label(),
                "",
            ),
            ApiHistoryError::NoFinalResponse { api_call } => say1(
                "API call ",
                api_call,
                " completed without a final assist response",
            ),
        }
    }
}

/// The prompt whose compaction is open after the events from a place on, up to the first
/// compaction event that is not before `before`.
pub open spec fn open_compact(
    events: Seq<Event>,
    place: int,
    before: EventId,
    open: Option<EventId>,
) -> Option<EventId>
    decreases events.len() - place,
{
    if place < 0 || place >= events.len() {
        open
    } else {
        match events[place].body {
            EventBody::CompactStateUpdate(update) => if events[place].id >= before {
                open
            } else {
                open_compact(
                    events,
                    place + 1,
                    before,
                    match update.state {
                        CompactState::Started => Some(update.prompt_id),
                        CompactState::StageCompleted => open,
                        _ => None,
                    },
                )
            },
            _ => open_compact(events, place + 1, before, open),
        }
    }
}

/// Whether a compaction of the prompt's turn is open before the event.
pub fn compact_lifecycle_is_open_before(
    events: &Vec<Event>,
    before_id: EventId,
    prompt_id: EventId,
) -> (open: bool)
    ensures
        open == (open_compact(events@, 0, before_id, None) == Some(prompt_id)),
{
    let mut open: Option<EventId> = None;
    let mut place: usize = 0;
    while place < events.len()
        invariant
            place <= events.len(),
            open_compact(events@, 0, before_id, None) == open_compact(
                events@,
                place as int,
                before_id,
                open,
            ),
        decreases events.len() - place,
    {
        let event = &events[place];
        if let EventBody::CompactStateUpdate(update) = &event.body {
            if event.id >= before_id {
                return open == Some(prompt_id);
            }
            match update.state {
                CompactState::Started => {
                    open = Some(update.prompt_id);
                },
                CompactState::StageCompleted => {},
                _ => {
                    open = None;
                },
            }
        }
        place += 1;
    }
    open == Some(prompt_id)
}

/// The place of a request among the requests.
pub open spec fn call_place(calls: Seq<ApiCallState>, id: EventId) -> Option<int>
    decreases calls.len(),
{
    if calls.len() == 0 {
        None
    } else if calls.last().id == id {
        Some(calls.len() - 1)
    } else {
        call_place(calls.drop_last(), id)
    }
}

pub proof fn lemma_call_place(calls: Seq<ApiCallState>, id: EventId)
    ensures
        call_place(calls, id) matches Some(place) ==> 0 <= place < calls.len() && calls[place].id
            == id && forall|i: int| place < i < calls.len() ==> calls[i].id != id,
        call_place(calls, id) is None ==> forall|i: int| 0 <= i < calls.len() ==> calls[i].id != id,
    decreases calls.len(),
{
    if calls.len() > 0 && calls.last().id != id {
        let front = calls.drop_last();
        lemma_call_place(front, id);
        assert forall|i: int| 0 <= i < front.len() implies front[i] == calls[i] by {}
        match call_place(front, id) {
            Some(place) => {
                assert forall|i: int| place < i < calls.len() implies calls[i].id != id by {
                    if i < front.len() {
                        assert(front[i].id != id);
                    }
                }
            },
            None => {
                assert forall|i: int| 0 <= i < calls.len() implies calls[i].id != id by {
                    if i < front.len() {
                        assert(front[i].id != id);
                    }
                }
            },
        }
    }
}

fn find_call(calls: &Vec<ApiCallState>, id: EventId) -> (place: Option<usize>)
    ensures
        place matches Some(found) ==> found < calls@.len() && call_place(calls@, id) == Some(
            found as int,
        ) && calls@[found as int].id == id,
        place is None ==> call_place(calls@, id) is None,
{
    proof {
        lemma_call_place(calls@, id);
    }
    let mut place: usize = calls.len();
    while place > 0
        invariant
            place <= calls.len(),
            forall|i: int| place <= i < calls@.len() ==> calls@[i].id != id,
            call_place(calls@, id) matches Some(p) ==> 0 <= p < calls@.len() && calls@[p].id == id
                && forall|i: int| p < i < calls@.len() ==> calls@[i].id != id,
            call_place(calls@, id) is None ==> forall|i: int|
                0 <= i < calls@.len() ==> calls@[i].id != id,
        decreases place,
    {
        place -= 1;
        if calls[place].id == id {
            return Some(place);
        }
    }
    None
}

/// The latest request of a prompt, among those that are still running where `running` says so.
pub open spec fn latest_call(calls: Seq<ApiCallState>, prompt: EventId, running: bool) -> Option<int>
    decreases calls.len(),
{
    if calls.len() == 0 {
        None
    } else if calls.last().prompt_id == prompt && (running ==> !calls.last().state.terminal()) {
        Some(calls.len() - 1)
    } else {
        latest_call(calls.drop_last(), prompt, running)
    }
}

fn find_latest_call(calls: &Vec<ApiCallState>, prompt: EventId, running: bool) -> (place: Option<
    usize,
>)
    ensures
        place matches Some(found) ==> found < calls@.len() && latest_call(calls@, prompt, running)
            == Some(found as int),
        place is None ==> latest_call(calls@, prompt, running) is None,
{
    let mut place: usize = calls.len();
    assert(calls@.take(place as int) =~= calls@);
    while place > 0
        invariant
            place <= calls.len(),
            latest_call(calls@, prompt, running) == latest_call(
                calls@.take(place as int),
                prompt,
                running,
            ),
        decreases place,
    {
        assert(calls@.take(place as int).drop_last() =~= calls@.take(place - 1));
        place -= 1;
        let call = calls[place];
        if call.prompt_id == prompt && (!running || !call.state.is_terminal()) {
            return Some(place);
        }
    }
    None
}

/// The requests so far, and the retries that are due, by prompt.
pub type ApiHistory = (Seq<ApiCallState>, Map<EventId, (u8, u8)>);

/// Whether a prompt that begins a turn stands before the event.
pub open spec fn valid_prompt(events: Seq<Event>, prompt: EventId, event: EventId) -> bool {
    prompt < event && (event_with(events, prompt) matches Some(found) && found.root_prompt())
}

/// Whether a prompt that begins a turn stands before the event.
pub fn is_valid_prompt(events: &Vec<Event>, prompt: EventId, event: EventId) -> (valid: bool)
    ensures
        valid == valid_prompt(events@, prompt, event),
{
    match find_event(events, prompt) {
        Some(found) => found.is_root_prompt() && prompt < event,
        None => false,
    }
}

/// A part of an answer belongs to the running request of its prompt.
pub open spec fn response_step(
    history: ApiHistory,
    id: EventId,
    prompt: EventId,
    finished: bool,
) -> Result<ApiHistory, ApiHistoryError> {
    match latest_call(history.0, prompt, true) {
        None => Err(ApiHistoryError::NoActiveCall { response: id }),
        Some(place) => {
            let call = history.0[place];
            if call.state != ApiState::Streaming {
                Err(
                    ApiHistoryError::ResponseNotStreaming {
                        response: id,
                        api_call: call.id,
                        state: call.state,
                    },
                )
            } else if call.response_finished {
                Err(ApiHistoryError::ResponseAfterFinal { api_call: call.id })
            } else {
                Ok(
                    (
                        history.0.update(
                            place,
                            ApiCallState { response_finished: finished, ..call },
                        ),
                        history.1,
                    ),
                )
            }
        },
    }
}

/// An item that the provider wants back belongs to a streaming request.
pub open spec fn item_step(
    history: ApiHistory,
    id: EventId,
    api_call: EventId,
    prompt: EventId,
) -> Result<ApiHistory, ApiHistoryError> {
    match call_place(history.0, api_call) {
        None => Err(ApiHistoryError::ItemUnknownCall { item: id, api_call }),
        Some(place) => if history.0[place].prompt_id != prompt || history.0[place].state
            != ApiState::Streaming {
            Err(ApiHistoryError::ItemNotStreaming { item: id, api_call })
        } else {
            Ok(history)
        },
    }
}

/// The retry that is due for the prompt.
pub open spec fn due_retry(history: ApiHistory, prompt: EventId) -> (u8, u8) {
    if history.1.dom().contains(prompt) {
        history.1[prompt]
    } else {
        (0, 0)
    }
}

/// A request starts under its own identity; after a failure only as the retry that is due.
pub open spec fn request_step(
    events: Seq<Event>,
    history: ApiHistory,
    id: EventId,
    update: ApiStateUpdate,
) -> Result<ApiHistory, ApiHistoryError> {
    let prompt = update.prompt_id;
    if update.api_call_id != id {
        Err(ApiHistoryError::ForeignIdentity { event: id })
    } else if due_retry(history, prompt).0 == 0 && (latest_call(history.0, prompt, false) matches Some(
        place,
    ) && history.0[place].state == ApiState::Error) {
        Err(ApiHistoryError::NoRetryEvent { prompt })
    } else if call_place(history.0, id) is Some {
        Err(ApiHistoryError::Duplicate { api_call: id })
    } else {
        Ok(
            (
                history.0.push(
                    ApiCallState {
                        id,
                        prompt_id: prompt,
                        state: ApiState::Requesting,
                        response_finished: false,
                        retry_count: due_retry(history, prompt).0,
                        retry_limit: due_retry(history, prompt).1,
                        compact_summary: open_compact(events, 0, id, None) == Some(prompt),
                    },
                ),
                history.1.remove(prompt),
            ),
        )
    }
}

/// A failed request announces its retry: the next one in number, under the limit in force.
pub open spec fn retry_step(
    history: ApiHistory,
    place: int,
    update: ApiStateUpdate,
) -> Result<ApiHistory, ApiHistoryError> {
    let call = history.0[place];
    let api_call = update.api_call_id;
    if call.state != ApiState::Error {
        Err(ApiHistoryError::RetryFrom { api_call, state: call.state })
    } else if call.retry_count == 255 {
        Err(ApiHistoryError::RetryOverflow { api_call })
    } else if update.retry_count != call.retry_count + 1 || (call.retry_limit != 0
        && update.retry_limit != call.retry_limit) {
        Err(
            ApiHistoryError::InvalidRetry {
                api_call,
                count: update.retry_count,
                limit: update.retry_limit,
                call_count: call.retry_count,
                call_limit: call.retry_limit,
            },
        )
    } else if history.1.dom().contains(update.prompt_id) {
        Err(ApiHistoryError::TwoRetries { prompt: update.prompt_id })
    } else {
        Ok(
            (
                history.0,
                history.1.insert(update.prompt_id, (update.retry_count, update.retry_limit)),
            ),
        )
    }
}

/// A request moves on: from its start to streaming and to its end, which is final but for the
/// interruption of a failed one.
pub open spec fn progress_step(
    history: ApiHistory,
    place: int,
    update: ApiStateUpdate,
) -> Result<ApiHistory, ApiHistoryError> {
    let call = history.0[place];
    let api_call = update.api_call_id;
    let moved = history.0.update(place, ApiCallState { state: update.state, ..call });
    if call.state == ApiState::Error && update.state == ApiState::Interrupted {
        Ok((moved, history.1.remove(update.prompt_id)))
    } else if call.state.terminal() {
        Err(ApiHistoryError::AfterTerminal { api_call, state: call.state })
    } else if update.state == ApiState::Streaming && call.state != ApiState::Requesting {
        Err(ApiHistoryError::StreamingFrom { api_call, state: call.state })
    } else if update.state == ApiState::Completed && !call.response_finished
        && !call.compact_summary {
        Err(ApiHistoryError::NoFinalResponse { api_call })
    } else {
        Ok((moved, history.1))
    }
}

/// What an event does to the requests before it, or the rule that it breaks.
pub open spec fn api_step(events: Seq<Event>, history: ApiHistory, event: Event) -> Result<
    ApiHistory,
    ApiHistoryError,
> {
    let id = event.id;
    match event.body {
        EventBody::AssistResponse(response) => response_step(
            history,
            id,
            response.prompt_id,
            response.finished,
        ),
        EventBody::ModelContextItem(item) => item_step(
            history,
            id,
            item.api_call_id,
            item.prompt_id,
        ),
        EventBody::ApiStateUpdate(update) => if !valid_prompt(events, update.prompt_id, id) {
            Err(
                ApiHistoryError::InvalidPrompt {
                    api_call: update.api_call_id,
                    prompt: update.prompt_id,
                },
            )
        } else if update.state == ApiState::Requesting {
            request_step(events, history, id, update)
        } else {
            match call_place(history.0, update.api_call_id) {
                None => Err(
                    ApiHistoryError::UnknownCall { event: id, api_call: update.api_call_id },
                ),
                Some(place) => if history.0[place].prompt_id != update.prompt_id {
                    Err(
                        ApiHistoryError::PromptChanged {
                            api_call: update.api_call_id,
                            from: history.0[place].prompt_id,
                            to: update.prompt_id,
                        },
                    )
                } else if update.state == ApiState::Retrying {
                    retry_step(history, place, update)
                } else {
                    progress_step(history, place, update)
                },
            }
        },
        _ => Ok(history),
    }
}

/// The requests of the first events, or the first rule that one of them breaks.
pub open spec fn api_states(events: Seq<Event>, count: int) -> Result<ApiHistory, ApiHistoryError>
    decreases count,
{
    if count <= 0 {
        Ok((Seq::empty(), Map::empty()))
    } else {
        match api_states(events, count - 1) {
            Ok(history) => api_step(events, history, events[count - 1]),
            Err(error) => Err(error),
        }
    }
}

fn record_response(
    calls: &mut Vec<ApiCallState>,
    due: &HashMap<EventId, (u8, u8)>,
    id: EventId,
    prompt: EventId,
    finished: bool,
) -> (result: Result<(), ApiHistoryError>)
    ensures
        match result {
            Ok(_) => response_step((old(calls)@, due@), id, prompt, finished) == Ok::<
                _,
                ApiHistoryError,
            >((final(calls)@, due@)),
            Err(error) => response_step((old(calls)@, due@), id, prompt, finished) == Err::<
                ApiHistory,
                _,
            >(error),
        },
{
    match find_latest_call(calls, prompt, true) {
        None => Err(ApiHistoryError::NoActiveCall { response: id }),
        Some(place) => {
            let mut call = calls[place];
            if call.state != ApiState::Streaming {
                return Err(
                    ApiHistoryError::ResponseNotStreaming {
                        response: id,
                        api_call: call.id,
                        state: call.state,
                    },
                );
            }
            if call.response_finished {
                return Err(ApiHistoryError::ResponseAfterFinal { api_call: call.id });
            }
            call.response_finished = finished;
            calls.set(place, call);
            Ok(())
        },
    }
}

fn record_request(
    events: &Vec<Event>,
    calls: &mut Vec<ApiCallState>,
    due: &mut HashMap<EventId, (u8, u8)>,
    id: EventId,
    update: &ApiStateUpdate,
) -> (result: Result<(), ApiHistoryError>)
    requires
        update.state == ApiState::Requesting,
    ensures
        match result {
            Ok(_) => request_step(events@, (old(calls)@, old(due)@), id, *update) == Ok::<
                _,
                ApiHistoryError,
            >((final(calls)@, final(due)@)),
            Err(error) => request_step(events@, (old(calls)@, old(due)@), id, *update) == Err::<
                ApiHistory,
                _,
            >(error),
        },
{
    let prompt = update.prompt_id;
    if update.api_call_id != id {
        return Err(ApiHistoryError::ForeignIdentity { event: id });
    }
    let (retry_count, retry_limit) = match due.remove(&prompt) {
        Some(retry) => retry,
        None => (0u8, 0u8),
    };
    assert(due@ =~= old(due)@.remove(prompt));
    if retry_count == 0 {
        if let Some(place) = find_latest_call(calls, prompt, false) {
            if calls[place].state == ApiState::Error {
                return Err(ApiHistoryError::NoRetryEvent { prompt });
            }
        }
    }
    let compact_summary = compact_lifecycle_is_open_before(events, id, prompt);
    if find_call(calls, id).is_some() {
        return Err(ApiHistoryError::Duplicate { api_call: id });
    }
    calls.push(
        ApiCallState {
            id,
            prompt_id: prompt,
            state: ApiState::Requesting,
            response_finished: false,
            retry_count,
            retry_limit,
            compact_summary,
        },
    );
    Ok(())
}

fn record_retry(
    calls: &Vec<ApiCallState>,
    due: &mut HashMap<EventId, (u8, u8)>,
    place: usize,
    update: &ApiStateUpdate,
) -> (result: Result<(), ApiHistoryError>)
    requires
        place < calls@.len(),
    ensures
        match result {
            Ok(_) => retry_step((calls@, old(due)@), place as int, *update) == Ok::<
                _,
                ApiHistoryError,
            >((calls@, final(due)@)),
            Err(error) => retry_step((calls@, old(due)@), place as int, *update) == Err::<
                ApiHistory,
                _,
            >(error),
        },
{
    let call = calls[place];
    let api_call = update.api_call_id;
    if call.state != ApiState::Error {
        return Err(ApiHistoryError::RetryFrom { api_call, state: call.state });
    }
    if call.retry_count == 255 {
        return Err(ApiHistoryError::RetryOverflow { api_call });
    }
    if update.retry_count != call.retry_count + 1 || (call.retry_limit != 0 && update.retry_limit
        != call.retry_limit) {
        return Err(
            ApiHistoryError::InvalidRetry {
                api_call,
                count: update.retry_count,
                limit: update.retry_limit,
                call_count: call.retry_count,
                call_limit: call.retry_limit,
            },
        );
    }
    if due.contains_key(&update.prompt_id) {
        return Err(ApiHistoryError::TwoRetries { prompt: update.prompt_id });
    }
    due.insert(update.prompt_id, (update.retry_count, update.retry_limit));
    Ok(())
}

fn record_progress(
    calls: &mut Vec<ApiCallState>,
    due: &mut HashMap<EventId, (u8, u8)>,
    place: usize,
    update: &ApiStateUpdate,
) -> (result: Result<(), ApiHistoryError>)
    requires
        place < old(calls)@.len(),
    ensures
        match result {
            Ok(_) => progress_step((old(calls)@, old(due)@), place as int, *update) == Ok::<
                _,
                ApiHistoryError,
            >((final(calls)@, final(due)@)),
            Err(error) => progress_step((old(calls)@, old(due)@), place as int, *update) == Err::<
                ApiHistory,
                _,
            >(error),
        },
{
    let mut call = calls[place];
    let api_call = update.api_call_id;
    if call.state == ApiState::Error && update.state == ApiState::Interrupted {
        due.remove(&update.prompt_id);
        assert(due@ =~= old(due)@.remove(update.prompt_id));
        call.state = update.state;
        calls.set(place, call);
        return Ok(());
    }
    if call.state.is_terminal() {
        return Err(ApiHistoryError::AfterTerminal { api_call, state: call.state });
    }
    if update.state == ApiState::Streaming && call.state != ApiState::Requesting {
        return Err(ApiHistoryError::StreamingFrom { api_call, state: call.state });
    }
    if update.state == ApiState::Completed && !call.response_finished && !call.compact_summary {
        return Err(ApiHistoryError::NoFinalResponse { api_call });
    }
    call.state = update.state;
    calls.set(place, call);
    Ok(())
}

fn record_event(
    events: &Vec<Event>,
    calls: &mut Vec<ApiCallState>,
    due: &mut HashMap<EventId, (u8, u8)>,
    event: &Event,
) -> (result: Result<(), ApiHistoryError>)
    ensures
        match result {
            Ok(_) => api_step(events@, (old(calls)@, old(due)@), *event) == Ok::<
                _,
                ApiHistoryError,
            >((final(calls)@, final(due)@)),
            Err(error) => api_step(events@, (old(calls)@, old(due)@), *event) == Err::<
                ApiHistory,
                _,
            >(error),
        },
{
    let id = event.id;
    match &event.body {
        EventBody::AssistResponse(response) => record_response(
            calls,
            due,
            id,
            response.prompt_id,
            response.finished,
        ),
        EventBody::ModelContextItem(item) => {
            let api_call = item.api_call_id;
            match find_call(calls, api_call) {
                None => Err(ApiHistoryError::ItemUnknownCall { item: id, api_call }),
                Some(place) => if calls[place].prompt_id != item.prompt_id || calls[place].state
                    != ApiState::Streaming {
                    Err(ApiHistoryError::ItemNotStreaming { item: id, api_call })
                } else {
                    Ok(())
                },
            }
        },
        EventBody::ApiStateUpdate(update) => {
            if !is_valid_prompt(events, update.prompt_id, id) {
                return Err(
                    ApiHistoryError::InvalidPrompt {
                        api_call: update.api_call_id,
                        prompt: update.prompt_id,
                    },
                );
            }
            if update.state == ApiState::Requesting {
                return record_request(events, calls, due, id, update);
            }
            match find_call(calls, update.api_call_id) {
                None => Err(
                    ApiHistoryError::UnknownCall { event: id, api_call: update.api_call_id },
                ),
                Some(place) => {
                    if calls[place].prompt_id != update.prompt_id {
                        return Err(
                            ApiHistoryError::PromptChanged {
                                api_call: update.api_call_id,
                                from: calls[place].prompt_id,
                                to: update.prompt_id,
                            },
                        );
                    }
                    if update.state == ApiState::Retrying {
                        record_retry(calls, due, place, update)
                    } else {
                        record_progress(calls, due, place, update)
                    }
                },
            }
        },
        _ => Ok(()),
    }
}

/// The requests of the history in their order, or the first rule of requests that it breaks.
pub fn api_call_states(edb: &EventDataBase) -> (result: Result<Vec<ApiCallState>, ApiHistoryError>)
    ensures
        match result {
            Ok(calls) => api_states(edb@, edb@.len() as int) matches Ok(history) && history.0
                == calls@,
            Err(error) => api_states(edb@, edb@.len() as int) == Err::<ApiHistory, _>(error),
        },
{
    let mut calls: Vec<ApiCallState> = Vec::new();
    let mut due: HashMap<EventId, (u8, u8)> = HashMap::new();
    let mut place: usize = 0;
    while place < edb.events.len()
        invariant
            place <= edb@.len(),
            api_states(edb@, place as int) == Ok::<_, ApiHistoryError>((calls@, due@)),
        decreases edb@.len() - place,
    {
        if let Err(error) = record_event(&edb.events, &mut calls, &mut due, &edb.events[place]) {
            proof {
                lemma_api_error_stays(edb@, place + 1, edb@.len() as int);
            }
            return Err(error);
        }
        place += 1;
    }
    Ok(calls)
}

proof fn lemma_api_error_stays(events: Seq<Event>, early: int, late: int)
    requires
        0 <= early <= late,
        api_states(events, early) is Err,
    ensures
        api_states(events, late) == api_states(events, early),
    decreases late,
{
    if early < late {
        lemma_api_error_stays(events, early, late - 1);
    }
}

/// Whether the event is a step of a request of the prompt between two events.
pub open spec fn request_event_between(
    event: Event,
    prompt: EventId,
    after: EventId,
    before: EventId,
) -> bool {
    &&& after < event.id < before
    &&& event.body matches EventBody::ApiStateUpdate(update)
    &&& update.prompt_id == prompt
}

/// The request that a step of a request belongs to.
pub open spec fn request_of(event: Event) -> EventId {
    match event.body {
        EventBody::ApiStateUpdate(update) => update.api_call_id,
        _ => 0,
    }
}

/// The state that a step of a request reaches.
pub open spec fn state_of(event: Event) -> ApiState {
    match event.body {
        EventBody::ApiStateUpdate(update) => update.state,
        _ => ApiState::Requesting,
    }
}

/// Whether the step at the place completes a request of the prompt that also started between the
/// two events, and is its last step there.
pub open spec fn completes_request(
    events: Seq<Event>,
    place: int,
    prompt: EventId,
    after: EventId,
    before: EventId,
) -> bool {
    &&& request_event_between(events[place], prompt, after, before)
    &&& state_of(events[place]) == ApiState::Completed
    &&& exists|i: int|
        0 <= i < place && request_event_between(#[trigger] events[i], prompt, after, before)
            && request_of(events[i]) == request_of(events[place]) && state_of(events[i])
            == ApiState::Requesting
    &&& forall|i: int|
        place < i < events.len() && request_event_between(#[trigger] events[i], prompt, after, before)
            ==> request_of(events[i]) != request_of(events[place])
}

/// Whether a request of the prompt started and completed between the two events.
pub open spec fn request_completed_between(
    events: Seq<Event>,
    prompt: EventId,
    after: EventId,
    before: EventId,
) -> bool {
    exists|place: int|
        0 <= place < events.len() && #[trigger] completes_request(
            events,
            place,
            prompt,
            after,
            before,
        )
}

fn is_request_event_between(event: &Event, prompt: EventId, after: EventId, before: EventId) -> (step:
    Option<(EventId, ApiState)>)
    ensures
        step is Some <==> request_event_between(*event, prompt, after, before),
        step matches Some(found) ==> found == (request_of(*event), state_of(*event)),
{
    match &event.body {
        EventBody::ApiStateUpdate(update) => if after < event.id && event.id < before
            && update.prompt_id == prompt {
            Some((update.api_call_id, update.state))
        } else {
            None
        },
        _ => None,
    }
}

/// Whether a request of the prompt started and completed between the two events.
pub fn successful_compact_request_between(
    events: &Vec<Event>,
    prompt_id: EventId,
    after_id: EventId,
    before_id: EventId,
) -> (successful: bool)
    ensures
        successful == request_completed_between(events@, prompt_id, after_id, before_id),
{
    let mut place: usize = 0;
    while place < events.len()
        invariant
            place <= events.len(),
            forall|p: int|
                0 <= p < place ==> !#[trigger] completes_request(
                    events@,
                    p,
                    prompt_id,
                    after_id,
                    before_id,
                ),
        decreases events.len() - place,
    {
        if let Some((call, state)) = is_request_event_between(
            &events[place],
            prompt_id,
            after_id,
            before_id,
        ) {
            if state == ApiState::Completed {
                let mut started = false;
                let mut index: usize = 0;
                while index < place
                    invariant
                        index <= place < events.len(),
                        started == exists|i: int|
                            0 <= i < index && request_event_between(
                                #[trigger] events@[i],
                                prompt_id,
                                after_id,
                                before_id,
                            ) && request_of(events@[i]) == call && state_of(events@[i])
                                == ApiState::Requesting,
                    decreases place - index,
                {
                    if let Some((other, step)) = is_request_event_between(
                        &events[index],
                        prompt_id,
                        after_id,
                        before_id,
                    ) {
                        if other == call && step == ApiState::Requesting {
                            started = true;
                        }
                    }
                    index += 1;
                }
                let mut last = true;
                index = place + 1;
                while index < events.len()
                    invariant
                        place < index <= events.len(),
                        last == forall|i: int|
                            place < i < index && request_event_between(
                                #[trigger] events@[i],
                                prompt_id,
                                after_id,
                                before_id,
                            ) ==> request_of(events@[i]) != call,
                    decreases events.len() - index,
                {
                    if let Some((other, _)) = is_request_event_between(
                        &events[index],
                        prompt_id,
                        after_id,
                        before_id,
                    ) {
                        if other == call {
                            last = false;
                        }
                    }
                    index += 1;
                }
                if started && last {
                    assert(completes_request(
                        events@,
                        place as int,
                        prompt_id,
                        after_id,
                        before_id,
                    ));
                    return true;
                }
            }
        }
        place += 1;
    }
    false
}


/// What a restart says of a request that was running.
pub const RESTART_DETAIL: &'static str =
    "orchestrator restarted before the API call reached a terminal state";

/// What a restart says of a request that was to be retried.
pub const RESTART_RETRY_DETAIL: &'static str =
    "orchestrator restarted before the API retry sequence completed";

/// Whether an event body is this step of a request.
pub open spec fn is_api_state(
    body: EventBody,
    api_call: EventId,
    prompt: EventId,
    state: ApiState,
    detail: Seq<char>,
) -> bool {
    &&& body matches EventBody::ApiStateUpdate(update)
    &&& update.api_call_id == api_call
    &&& update.prompt_id == prompt
    &&& update.state == state
    &&& update.retry_count == 0
    &&& update.retry_limit == 0
    &&& update.usage is None
    &&& update.detail@ == detail
}

/// Adds a step of a request to the log.
pub fn append_api_state(
    edb: &mut EventDataBase,
    api_call_id: EventId,
    prompt_id: EventId,
    state: ApiState,
    detail: &str,
) -> (id: EventId)
    requires
        old(edb).room(1),
    ensures
        id == old(edb).next_id,
        final(edb).grown(old(edb), 1),
        is_api_state(final(edb).added(old(edb), 0), api_call_id, prompt_id, state, detail@),
        old(edb).wf() ==> final(edb).wf(),
{
    edb.append(
        EventBody::ApiStateUpdate(
            ApiStateUpdate {
                api_call_id,
                prompt_id,
                state,
                retry_count: 0,
                retry_limit: 0,
                usage: None,
                detail: detail.to_owned(),
            },
        ),
    )
}

/// The requests that have not ended.
pub open spec fn open_calls(calls: Seq<ApiCallState>) -> Seq<ApiCallState>
    decreases calls.len(),
{
    if calls.len() == 0 {
        Seq::empty()
    } else if calls.last().state.terminal() {
        open_calls(calls.drop_last())
    } else {
        open_calls(calls.drop_last()).push(calls.last())
    }
}

/// The latest step of any request.
pub open spec fn latest_api_update(events: Seq<Event>) -> Option<ApiStateUpdate>
    decreases events.len(),
{
    if events.len() == 0 {
        None
    } else {
        match events.last().body {
            EventBody::ApiStateUpdate(update) => Some(update),
            _ => latest_api_update(events.drop_last()),
        }
    }
}

/// Whether the last thing that happened to any request is that one failed.
pub open spec fn retry_left_open(events: Seq<Event>) -> bool {
    latest_api_update(events) matches Some(update) && (update.state == ApiState::Error
        || update.state == ApiState::Retrying)
}

/// Whether the log after is the log before with what a restart says of the requests that were
/// left open: each of them is interrupted, and where none was left open but a failed request was
/// to be retried, that one is.
pub open spec fn api_reconciled(
    before: &EventDataBase,
    after: &EventDataBase,
    calls: Seq<ApiCallState>,
) -> bool {
    let open = open_calls(calls);
    if open.len() > 0 {
        &&& after.grown(before, open.len() as int)
        &&& forall|k: int|
            0 <= k < open.len() ==> is_api_state(
                #[trigger] after.added(before, k),
                open[k].id,
                open[k].prompt_id,
                ApiState::Interrupted,
                RESTART_DETAIL@,
            )
    } else if retry_left_open(before@) {
        &&& after.grown(before, 1)
        &&& is_api_state(
            after.added(before, 0),
            latest_api_update(before@)->0.api_call_id,
            latest_api_update(before@)->0.prompt_id,
            ApiState::Interrupted,
            RESTART_RETRY_DETAIL@,
        )
    } else {
        *after == *before
    }
}

/// How many events a restart writes of the requests that were left open.
pub open spec fn restart_events(events: Seq<Event>, calls: Seq<ApiCallState>) -> int {
    if open_calls(calls).len() > 0 {
        open_calls(calls).len() as int
    } else if retry_left_open(events) {
        1
    } else {
        0
    }
}

proof fn lemma_open_calls_prefix(calls: Seq<ApiCallState>, prefix: int)
    requires
        0 <= prefix <= calls.len(),
    ensures
        open_calls(calls.take(prefix)).len() <= open_calls(calls).len(),
    decreases calls.len(),
{
    if prefix == calls.len() {
        assert(calls.take(prefix) =~= calls);
    } else {
        lemma_open_calls_prefix(calls.drop_last(), prefix);
        assert(calls.drop_last().take(prefix) =~= calls.take(prefix));
    }
}

pub proof fn lemma_latest_call(calls: Seq<ApiCallState>, prompt: EventId, running: bool)
    ensures
        latest_call(calls, prompt, running) matches Some(place) ==> 0 <= place < calls.len()
            && calls[place].prompt_id == prompt && (running ==> !calls[place].state.terminal()),
    decreases calls.len(),
{
    if calls.len() > 0 {
        lemma_latest_call(calls.drop_last(), prompt, running);
    }
}

/// What a step does to the requests: it adds one, or it changes one of them, which keeps its
/// identity and its prompt.
pub proof fn lemma_api_step_shape(events: Seq<Event>, history: ApiHistory, event: Event)
    requires
        api_step(events, history, event) is Ok,
    ensures
        ({
            let next = api_step(events, history, event)->Ok_0.0;
            let requesting = event.body matches EventBody::ApiStateUpdate(update) && update.state
                == ApiState::Requesting;
            if requesting {
                &&& next.len() == history.0.len() + 1
                &&& forall|k: int| 0 <= k < history.0.len() ==> #[trigger] next[k] == history.0[k]
                &&& next.last().id == event.id
                &&& next.last().state == ApiState::Requesting
                &&& valid_prompt(events, next.last().prompt_id, event.id)
                &&& call_place(history.0, event.id) is None
            } else {
                &&& next.len() == history.0.len()
                &&& forall|k: int|
                    0 <= k < history.0.len() ==> (#[trigger] next[k]).id == history.0[k].id
                        && next[k].prompt_id == history.0[k].prompt_id
            }
        }),
{
    match event.body {
        EventBody::AssistResponse(response) => {
            lemma_latest_call(history.0, response.prompt_id, true);
        },
        EventBody::ApiStateUpdate(update) => {
            lemma_call_place(history.0, update.api_call_id);
        },
        _ => {},
    }
}

/// The requests of the first events have different identities, each that of an event, and begin
/// after their prompts.
pub proof fn lemma_api_calls(events: Seq<Event>, count: int, bound: EventId)
    requires
        0 <= count <= events.len(),
        api_states(events, count) is Ok,
        forall|i: int| 0 <= i < count ==> (#[trigger] events[i]).id < bound,
    ensures
        ({
            let calls = api_states(events, count)->Ok_0.0;
            &&& calls.len() <= count
            &&& forall|k: int|
                0 <= k < calls.len() ==> (#[trigger] calls[k]).id < bound && valid_prompt(
                    events,
                    calls[k].prompt_id,
                    calls[k].id,
                )
            &&& forall|k: int, l: int|
                0 <= k < l < calls.len() ==> (#[trigger] calls[k]).id != (#[trigger] calls[l]).id
        }),
    decreases count,
{
    if count > 0 {
        lemma_api_calls(events, count - 1, bound);
        let history = api_states(events, count - 1)->Ok_0;
        let event = events[count - 1];
        lemma_api_step_shape(events, history, event);
        let calls = api_states(events, count)->Ok_0.0;
        lemma_call_place(history.0, event.id);
        assert forall|k: int, l: int| 0 <= k < l < calls.len() implies (#[trigger] calls[k]).id != (
        #[trigger] calls[l]).id by {
            assert(calls[k].id == history.0[k].id);
            if l < history.0.len() {
                assert(calls[l].id == history.0[l].id);
            }
        }
        assert forall|k: int| 0 <= k < calls.len() implies (#[trigger] calls[k]).id < bound
            && valid_prompt(events, calls[k].prompt_id, calls[k].id) by {
            if k < history.0.len() {
                assert(calls[k].id == history.0[k].id);
                assert(calls[k].prompt_id == history.0[k].prompt_id);
            }
        }
    }
}

/// After a restart, interrupts the requests that were left open.
pub fn reconcile_api_states(edb: &mut EventDataBase) -> (result: Result<(), ApiHistoryError>)
    requires
        api_states(old(edb)@, old(edb)@.len() as int) matches Ok(history) ==> restart_events(
            old(edb)@,
            history.0,
        ) > 0 ==> old(edb).room(restart_events(old(edb)@, history.0)),
    ensures
        match api_states(old(edb)@, old(edb)@.len() as int) {
            Ok(history) => result is Ok && api_reconciled(old(edb), final(edb), history.0),
            Err(error) => result == Err::<(), ApiHistoryError>(error) && *final(edb) == *old(edb),
        },
        old(edb).wf() ==> final(edb).wf(),
{
    let calls = match api_call_states(edb) {
        Ok(calls) => calls,
        Err(error) => {
            return Err(error);
        },
    };
    let mut closed: usize = 0;
    let mut place: usize = 0;
    assert(calls@.take(0) =~= Seq::<ApiCallState>::empty());
    assert(edb@.take(edb@.len() as int) =~= edb@);
    while place < calls.len()
        invariant
            place <= calls.len(),
            closed == open_calls(calls@.take(place as int)).len(),
            closed <= place,
            open_calls(calls@).len() > 0 ==> old(edb).room(open_calls(calls@).len() as int),
            edb.grown(old(edb), closed as int),
            closed == 0 ==> *edb == *old(edb),
            forall|k: int|
                0 <= k < closed ==> is_api_state(
                    #[trigger] edb.added(old(edb), k),
                    open_calls(calls@.take(place as int))[k].id,
                    open_calls(calls@.take(place as int))[k].prompt_id,
                    ApiState::Interrupted,
                    RESTART_DETAIL@,
                ),
            old(edb).wf() ==> edb.wf(),
        decreases calls.len() - place,
    {
        let call = calls[place];
        assert(calls@.take(place + 1).drop_last() =~= calls@.take(place as int));
        if !call.state.is_terminal() {
            let ghost before = *edb;
            proof {
                lemma_open_calls_prefix(calls@, place + 1);
            }
            append_api_state(edb, call.id, call.prompt_id, ApiState::Interrupted, RESTART_DETAIL);
            proof {
                crate::event::lemma_grown_twice(old(edb), &before, edb, closed as int, 1);
                assert(edb.added(&before, 0) == edb.added(old(edb), closed + 0));
            }
            closed += 1;
        }
        place += 1;
    }
    assert(calls@.take(place as int) =~= calls@);
    if closed == 0 {
        let mut index: usize = edb.events.len();
        assert(edb@.take(index as int) =~= edb@);
        while index > 0
            invariant
                index <= edb@.len(),
                *edb == *old(edb),
                retry_left_open(old(edb)@) ==> old(edb).room(1),
                open_calls(calls@).len() == 0,
                api_states(old(edb)@, old(edb)@.len() as int) matches Ok(history) && history.0
                    == calls@,
                latest_api_update(edb@) == latest_api_update(edb@.take(index as int)),
            decreases index,
        {
            assert(edb@.take(index as int).drop_last() =~= edb@.take(index - 1));
            index -= 1;
            if let EventBody::ApiStateUpdate(update) = &edb.events[index].body {
                if update.state == ApiState::Error || update.state == ApiState::Retrying {
                    let api_call = update.api_call_id;
                    let prompt = update.prompt_id;
                    append_api_state(
                        edb,
                        api_call,
                        prompt,
                        ApiState::Interrupted,
                        RESTART_RETRY_DETAIL,
                    );
                }
                return Ok(());
            }
        }
    }
    Ok(())
}


proof fn lemma_open_compact_push(
    events: Seq<Event>,
    event: Event,
    place: int,
    before: EventId,
    open: Option<EventId>,
)
    requires
        0 <= place <= events.len(),
        !(event.body is CompactStateUpdate),
    ensures
        open_compact(events.push(event), place, before, open) == open_compact(
            events,
            place,
            before,
            open,
        ),
    decreases events.len() - place,
{
    let longer = events.push(event);
    if place < events.len() {
        assert(longer[place] == events[place]);
        match events[place].body {
            EventBody::CompactStateUpdate(update) => {
                let next = match update.state {
                    CompactState::Started => Some(update.prompt_id),
                    CompactState::StageCompleted => open,
                    _ => None,
                };
                lemma_open_compact_push(events, event, place + 1, before, next);
            },
            _ => {
                lemma_open_compact_push(events, event, place + 1, before, open);
            },
        }
    } else {
        assert(longer[place] == event);
        assert(open_compact(longer, place + 1, before, open) == open);
    }
}

/// An event that is neither a prompt nor a step of a compaction changes nothing of what is said
/// of the events before it.
proof fn lemma_api_states_push(events: Seq<Event>, event: Event, count: int)
    requires
        0 <= count <= events.len(),
        !event.root_prompt(),
        !(event.body is CompactStateUpdate),
    ensures
        api_states(events.push(event), count) == api_states(events, count),
    decreases count,
{
    if count > 0 {
        lemma_api_states_push(events, event, count - 1);
        let longer = events.push(event);
        let step = events[count - 1];
        assert(longer[count - 1] == step);
        if let EventBody::ApiStateUpdate(update) = step.body {
            crate::event::lemma_event_with_push(events, event, update.prompt_id);
            lemma_open_compact_push(events, event, 0, step.id, None);
        }
    }
}

/// A request as a restart leaves it.
pub open spec fn interrupted(call: ApiCallState) -> ApiCallState {
    if call.state.terminal() {
        call
    } else {
        ApiCallState { state: ApiState::Interrupted, ..call }
    }
}

/// The requests, the first ones as a restart leaves them.
pub open spec fn interrupted_first(calls: Seq<ApiCallState>, count: int) -> Seq<ApiCallState> {
    Seq::new(calls.len(), |k: int| if k < count { interrupted(calls[k]) } else { calls[k] })
}

proof fn lemma_interrupts_in_turn(
    before: &EventDataBase,
    after: &EventDataBase,
    calls: Seq<ApiCallState>,
    count: int,
)
    requires
        before.wf(),
        api_states(before@, before@.len() as int) matches Ok(history) && history.0 == calls,
        0 <= count <= calls.len(),
        after@.len() >= before@.len() + open_calls(calls.take(count)).len(),
        after@.take(before@.len() as int) == before@,
        forall|k: int|
            0 <= k < open_calls(calls.take(count)).len() ==> {
                &&& (#[trigger] after@[before@.len() + k]).id == before.next_id + k
                &&& is_api_state(
                    after@[before@.len() + k].body,
                    open_calls(calls.take(count))[k].id,
                    open_calls(calls.take(count))[k].prompt_id,
                    ApiState::Interrupted,
                    RESTART_DETAIL@,
                )
            },
    ensures
        ({
            let length = before@.len() + open_calls(calls.take(count)).len();
            api_states(after@.take(length as int), length as int) matches Ok(history) && history.0
                == interrupted_first(calls, count)
        }),
    decreases count,
{
    let shorter = before@;
    if count == 0 {
        assert(calls.take(0) =~= Seq::<ApiCallState>::empty());
        assert(interrupted_first(calls, 0) =~= calls);
        assert(after@.take(before@.len() as int) == before@);
    } else {
        let call = calls[count - 1];
        assert(calls.take(count).drop_last() =~= calls.take(count - 1));
        let open = open_calls(calls.take(count - 1));
        assert forall|k: int| 0 <= k < open.len() implies {
            &&& (#[trigger] after@[before@.len() + k]).id == before.next_id + k
            &&& is_api_state(
                after@[before@.len() + k].body,
                open[k].id,
                open[k].prompt_id,
                ApiState::Interrupted,
                RESTART_DETAIL@,
            )
        } by {
            assert(open_calls(calls.take(count))[k] == open[k]);
        }
        lemma_interrupts_in_turn(before, after, calls, count - 1);
        let length = (before@.len() + open.len()) as int;
        let events = after@.take(length);
        if call.state.terminal() {
            assert(interrupted_first(calls, count) =~= interrupted_first(calls, count - 1));
        } else {
            let event = after@[length];
            let longer = after@.take(length + 1);
            assert(longer =~= events.push(event));
            assert(open_calls(calls.take(count))[open.len() as int] == call);
            lemma_api_states_push(events, event, length);
            let history = api_states(events, length)->Ok_0;
            assert(longer[length] == event);
            lemma_api_calls(before@, before@.len() as int, before.next_id);
            assert(calls[count - 1].id < before.next_id);
            // The prompt of the call is still found, and the call is the one that is closed.
            lemma_prompt_kept(before@, after@, longer, call.prompt_id, call.id);
            lemma_call_place(history.0, call.id);
            assert(history.0[count - 1] == call);
            let place = call_place(history.0, call.id)->0;
            assert(place == count - 1) by {
                if place != count - 1 {
                    assert(history.0[place].id == calls[place].id);
                    if place < count - 1 {
                        assert(calls[place].id != calls[count - 1].id);
                    } else {
                        assert(calls[count - 1].id != calls[place].id);
                    }
                }
            }
            assert(api_step(longer, history, event) matches Ok(next) && next.0
                == history.0.update(count - 1, interrupted(call)));
            assert(history.0.update(count - 1, interrupted(call)) =~= interrupted_first(
                calls,
                count,
            ));
        }
    }
}

/// A prompt that is found among the first events is found among more of them.
proof fn lemma_prompt_kept(
    events: Seq<Event>,
    all: Seq<Event>,
    longer: Seq<Event>,
    prompt: EventId,
    id: EventId,
)
    requires
        valid_prompt(events, prompt, id),
        events.len() <= longer.len() <= all.len(),
        all.take(events.len() as int) == events,
        longer == all.take(longer.len() as int),
    ensures
        event_with(longer, prompt) == event_with(events, prompt),
    decreases longer.len(),
{
    if longer.len() == events.len() {
        assert(longer =~= events);
    } else {
        let front = longer.drop_last();
        assert(front =~= all.take(front.len() as int));
        lemma_prompt_kept(events, all, front, prompt, id);
        assert(longer =~= front.push(longer.last()));
        crate::event::lemma_event_with_push(front, longer.last(), prompt);
    }
}

/// A restart leaves no request open: the history still keeps the rules of requests, every request
/// of it has ended, and no retry is waited for.
pub proof fn law_restart_closes_requests(
    before: &EventDataBase,
    after: &EventDataBase,
    calls: Seq<ApiCallState>,
)
    requires
        before.wf(),
        api_states(before@, before@.len() as int) matches Ok(history) && history.0 == calls,
        api_reconciled(before, after, calls),
    ensures
        api_states(after@, after@.len() as int) matches Ok(history) && open_calls(history.0).len()
            == 0,
        !retry_left_open(after@),
{
    let open = open_calls(calls);
    assert(calls.take(calls.len() as int) =~= calls);
    if open.len() > 0 {
        assert forall|k: int| 0 <= k < open.len() implies {
            &&& (#[trigger] after@[before@.len() + k]).id == before.next_id + k
            &&& is_api_state(
                after@[before@.len() + k].body,
                open[k].id,
                open[k].prompt_id,
                ApiState::Interrupted,
                RESTART_DETAIL@,
            )
        } by {
            assert(after.added(before, k) == after@[before@.len() + k].body);
        }
        lemma_interrupts_in_turn(before, after, calls, calls.len() as int);
        assert(after@.take(after@.len() as int) =~= after@);
        lemma_interrupted_none_open(calls, calls.len() as int);
        assert(after.added(before, open.len() - 1) == after@.last().body);
    } else if retry_left_open(before@) {
        let update = latest_api_update(before@)->0;
        let event = after@.last();
        assert(after.added(before, 0) == event.body);
        assert(after@ =~= before@.push(event));
        lemma_api_states_push(before@, event, before@.len() as int);
        assert(before@.take(before@.len() as int) =~= before@);
        lemma_retry_left_open(before@, before@.len() as int, before.next_id);
        let history = api_states(before@, before@.len() as int)->Ok_0;
        crate::event::lemma_event_with_push(before@, event, update.prompt_id);
        lemma_call_place(calls, update.api_call_id);
        let place = call_place(calls, update.api_call_id)->0;
        assert(api_step(after@, history, event) matches Ok(next) && next.0 == calls.update(
            place,
            ApiCallState { state: ApiState::Interrupted, ..calls[place] },
        ));
        lemma_none_open_after_update(calls, place);
    }
}

proof fn lemma_interrupted_none_open(calls: Seq<ApiCallState>, count: int)
    requires
        0 <= count <= calls.len(),
    ensures
        open_calls(interrupted_first(calls, calls.len() as int).take(count)).len() == 0,
        count == calls.len() ==> open_calls(interrupted_first(calls, count)).len() == 0,
    decreases count,
{
    let all = interrupted_first(calls, calls.len() as int);
    if count > 0 {
        lemma_interrupted_none_open(calls, count - 1);
        assert(all.take(count).drop_last() =~= all.take(count - 1));
        assert(all.take(count).last() == interrupted(calls[count - 1]));
    }
    if count == calls.len() {
        assert(all.take(count) =~= all);
    }
}

pub proof fn lemma_none_open(calls: Seq<ApiCallState>)
    ensures
        open_calls(calls).len() == 0 <==> forall|k: int|
            0 <= k < calls.len() ==> (#[trigger] calls[k]).state.terminal(),
    decreases calls.len(),
{
    if calls.len() > 0 {
        let front = calls.drop_last();
        lemma_none_open(front);
        if open_calls(calls).len() == 0 {
            assert forall|k: int| 0 <= k < calls.len() implies (
            #[trigger] calls[k]).state.terminal() by {
                if k < front.len() {
                    assert(front[k] == calls[k]);
                }
            }
        } else if calls.last().state.terminal() {
            let k = choose|k: int| 0 <= k < front.len() && !(#[trigger] front[k]).state.terminal();
            assert(calls[k] == front[k]);
        } else {
            assert(!calls[calls.len() - 1].state.terminal());
        }
    }
}

proof fn lemma_none_open_after_update(calls: Seq<ApiCallState>, place: int)
    requires
        open_calls(calls).len() == 0,
        0 <= place < calls.len(),
    ensures
        open_calls(
            calls.update(place, ApiCallState { state: ApiState::Interrupted, ..calls[place] }),
        ).len() == 0,
{
    lemma_none_open(calls);
    lemma_none_open(
        calls.update(place, ApiCallState { state: ApiState::Interrupted, ..calls[place] }),
    );
}

/// The place of a request depends on the identities alone.
proof fn lemma_same_place(one: Seq<ApiCallState>, two: Seq<ApiCallState>, id: EventId)
    requires
        one.len() == two.len(),
        forall|k: int| 0 <= k < one.len() ==> (#[trigger] two[k]).id == one[k].id,
    ensures
        call_place(one, id) == call_place(two, id),
    decreases one.len(),
{
    if one.len() > 0 {
        assert(two[two.len() - 1].id == one[one.len() - 1].id);
        assert forall|k: int| 0 <= k < one.len() - 1 implies (#[trigger] two.drop_last()[k]).id
            == one.drop_last()[k].id by {
            assert(two[k].id == one[k].id);
        }
        lemma_same_place(one.drop_last(), two.drop_last(), id);
    }
}

/// Where the last step of all requests is a failure or the retry that it announces, the request
/// of that step stands failed.
proof fn lemma_retry_left_open(events: Seq<Event>, count: int, bound: EventId)
    requires
        0 <= count <= events.len(),
        api_states(events, count) is Ok,
        forall|i: int| 0 <= i < events.len() ==> (#[trigger] events[i]).id < bound,
        retry_left_open(events.take(count)),
    ensures
        ({
            let update = latest_api_update(events.take(count))->0;
            let calls = api_states(events, count)->Ok_0.0;
            &&& call_place(calls, update.api_call_id) matches Some(place)
            &&& calls[place].state == ApiState::Error
            &&& calls[place].prompt_id == update.prompt_id
            &&& valid_prompt(events, update.prompt_id, bound)
        }),
    decreases count,
{
    if count > 0 {
        let front = events.take(count).drop_last();
        assert(front =~= events.take(count - 1));
        let history = api_states(events, count - 1)->Ok_0;
        let event = events[count - 1];
        assert(events.take(count).last() == event);
        let calls = api_states(events, count)->Ok_0.0;
        match event.body {
            EventBody::ApiStateUpdate(update) => {
                assert(event.id < bound);
                lemma_call_place(history.0, update.api_call_id);
                lemma_api_step_shape(events, history, event);
                lemma_same_place(history.0, calls, update.api_call_id);
            },
            EventBody::AssistResponse(response) => {
                lemma_retry_left_open(events, count - 1, bound);
                let update = latest_api_update(events.take(count - 1))->0;
                lemma_latest_call(history.0, response.prompt_id, true);
                lemma_call_place(history.0, update.api_call_id);
                lemma_api_step_shape(events, history, event);
                lemma_same_place(history.0, calls, update.api_call_id);
            },
            _ => {
                lemma_retry_left_open(events, count - 1, bound);
            },
        }
    }
}

/// A second restart finds nothing to do.
pub proof fn law_restart_is_done_once(
    before: &EventDataBase,
    after: &EventDataBase,
    again: &EventDataBase,
    calls: Seq<ApiCallState>,
    later: Seq<ApiCallState>,
)
    requires
        before.wf(),
        api_states(before@, before@.len() as int) matches Ok(history) && history.0 == calls,
        api_reconciled(before, after, calls),
        api_states(after@, after@.len() as int) matches Ok(history) && history.0 == later,
        api_reconciled(after, again, later),
    ensures
        *again == *after,
{
    law_restart_closes_requests(before, after, calls);
}

} // verus!
