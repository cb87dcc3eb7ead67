//! The rules of tool calls: a model's response calls a batch of tools, the batch is closed before
//! the next request, and the calls of a batch run one after the other in their order.
use vstd::prelude::*;

use crate::event::{
    event_with, find_event, ids_increase, ApiState, Event, EventBody, EventDataBase, EventId, ToolCall,
    ToolCallResult, ToolInfoContent, ToolOutputStream, ToolResultState,
};
use crate::text::{debug_text, decimal, join3, quoted, same, say1, say2, say3};

verus! {

/// The tool that sets the title of the conversation.
pub const SET_TITLE_TOOL: &'static str = "SetTitle";

/// How far a tool call of the history has come.
#[derive(Clone, Copy, Debug, PartialEq, Eq, Structural)]
pub struct ToolCallState {
    pub id: EventId,
    pub api_call_id: EventId,
    pub has_output: bool,
    pub finished: bool,
}

/// A rule of tool calls that an event breaks.
#[derive(Debug)]
pub enum ToolHistoryError {
    RequestBeforeResult { api_call: EventId, tool_call: EventId },
    InvalidApiCall { tool_call: EventId, api_call: EventId },
    CallAfterApiEnd { tool_call: EventId, api_call: EventId },
    EmptyField { tool_call: EventId },
    BatchAlreadyRunning { tool_call: EventId, api_call: EventId },
    BatchOverlap { api_call: EventId, tool_call: EventId },
    RepeatedProviderCall { api_call: EventId, provider_call_id: String },
    UnknownCall { source: ToolEventKind, event: EventId, tool_call: EventId },
    OutOfOrder { source: ToolEventKind, event: EventId, tool_call: EventId, api_call: EventId },
    MissingCall { source: ToolEventKind, event: EventId, tool_call: EventId },
    WrongTool { source: ToolEventKind, event: EventId, tool: String },
    WrongOperation { event: EventId, operation: String, tool: String },
    Repeated { source: ToolEventKind, tool_call: EventId },
    EmptyInfo { event: EventId },
    SeveralLines { event: EventId },
    InvalidTitle { reason: String },
    TitleNotCanonical { event: EventId },
    NoImageStored { tool_call: EventId },
    ApiNotEnded { event: EventId, api_call: EventId },
}

/// The events that a running tool leaves.
#[derive(Clone, Copy, Debug, PartialEq, Eq, Structural)]
pub enum ToolEventKind {
    Info,
    WorkMap,
    Title,
    Image,
    Outcome,
}

impl ToolEventKind {
    pub open spec fn name(self) -> Seq<char> {
        match self {
            ToolEventKind::Info => "tool info "@,
            ToolEventKind::WorkMap => "WorkMap mutation "@,
            ToolEventKind::Title => "Agent title change "@,
            ToolEventKind::Image => "image content "@,
            ToolEventKind::Outcome => "tool result "@,
        }
    }

    fn label(self) -> (name: &'static str)
        ensures
            name@ == self.name(),
    {
        match self {
            ToolEventKind::Info => "tool info ",
            ToolEventKind::WorkMap => "WorkMap mutation ",
            ToolEventKind::Title => "Agent title change ",
            ToolEventKind::Image => "image content ",
            ToolEventKind::Outcome => "tool result ",
        }
    }

    pub open spec fn order_verb(self) -> Seq<char> {
        if self == ToolEventKind::Outcome {
            " closes call "@
        } else {
            " executes call "@
        }
    }

    fn order_verb_text(self) -> (verb: &'static str)
        ensures
            verb@ == self.order_verb(),
    {
        if self == ToolEventKind::Outcome {
            " closes call "
        } else {
            " executes call "
        }
    }

    pub open spec fn wrong_tool(self) -> Seq<char> {
        match self {
            ToolEventKind::WorkMap => " references non-WorkMap tool "@,
            ToolEventKind::Title => " references non-SetTitle tool "@,
            _ => " references non-image-producing tool "@,
        }
    }

    fn wrong_tool_text(self) -> (verb: &'static str)
        ensures
            verb@ == self.wrong_tool(),
    {
        match self {
            ToolEventKind::WorkMap => " references non-WorkMap tool ",
            ToolEventKind::Title => " references non-SetTitle tool ",
            _ => " references non-image-producing tool ",
        }
    }

    pub open spec fn repeated(self) -> Seq<char> {
        match self {
            ToolEventKind::WorkMap => " has more than one WorkMap mutation or mutated after result"@,
            ToolEventKind::Title => " has more than one Agent title change or changed after result"@,
            _ => " has more than one image or stored an image after result"@,
        }
    }

    fn repeated_text(self) -> (verb: &'static str)
        ensures
            verb@ == self.repeated(),
    {
        match self {
            ToolEventKind::WorkMap => " has more than one WorkMap mutation or mutated after result",
            ToolEventKind::Title => " has more than one Agent title change or changed after result",
            _ => " has more than one image or stored an image after result",
        }
    }
}

impl ToolHistoryError {
    /// What is said of a history that breaks the rule.
    pub open spec fn text(&self) -> Seq<char> {
        match *self {
            ToolHistoryError::RequestBeforeResult { api_call, tool_call } => "API call "@ + decimal(
                api_call as nat,
            ) + " started before tool call "@ + decimal(tool_call as nat)
                + " reached a final state"@,
            ToolHistoryError::InvalidApiCall { tool_call, api_call } => "tool call "@ + decimal(
                tool_call as nat,
            ) + " references invalid API call "@ + decimal(api_call as nat) + ""@,
            ToolHistoryError::CallAfterApiEnd { tool_call, api_call } => "tool call "@ + decimal(
                tool_call as nat,
            ) + " was recorded after API call "@ + decimal(api_call as nat) + " ended"@,
            ToolHistoryError::EmptyField { tool_call } => "tool call "@ + decimal(tool_call as nat)
                + " has an empty required field"@,
            ToolHistoryError::BatchAlreadyRunning { tool_call, api_call } => "tool call "@
                + decimal(tool_call as nat) + " was added after execution of API tool batch "@
                + decimal(api_call as nat) + " began"@,
            ToolHistoryError::BatchOverlap { api_call, tool_call } => "API tool batch "@ + decimal(
                api_call as nat,
            ) + " overlaps unfinished tool call "@ + decimal(tool_call as nat) + ""@,
            ToolHistoryError::RepeatedProviderCall { api_call, provider_call_id } => (
            "API tool batch "@ + decimal(api_call as nat) + " repeats provider call ID "@) + quoted(
                provider_call_id@,
            ) + ""@,
            ToolHistoryError::UnknownCall { source, event, tool_call } => source.name() + decimal(
                event as nat,
            ) + " references unknown call "@ + decimal(tool_call as nat) + ""@,
            ToolHistoryError::OutOfOrder { source, event, tool_call, api_call } => source.name()
                + decimal(event as nat) + source.order_verb() + decimal(tool_call as nat)
                + " out of order in API tool batch "@ + decimal(api_call as nat) + ""@,
            ToolHistoryError::MissingCall { source, event, tool_call } => source.name() + decimal(
                event as nat,
            ) + " references missing call "@ + decimal(tool_call as nat) + ""@,
            ToolHistoryError::WrongTool { source, event, tool } => (source.name() + decimal(
                event as nat,
            ) + source.wrong_tool()) + tool@ + ""@,
            ToolHistoryError::WrongOperation { event, operation, tool } => (("WorkMap mutation "@
                + decimal(event as nat) + " operation "@) + operation@ + " does not match tool "@)
                + tool@ + ""@,
            ToolHistoryError::Repeated { source, tool_call } => "tool call "@ + decimal(
                tool_call as nat,
            ) + source.repeated(),
            ToolHistoryError::EmptyInfo { event } => "tool info "@ + decimal(event as nat)
                + " has no effective content"@,
            ToolHistoryError::SeveralLines { event } => "tool info "@ + decimal(event as nat)
                + " contains more than one line"@,
            ToolHistoryError::InvalidTitle { reason } => reason@,
            ToolHistoryError::TitleNotCanonical { event } => "Agent title change "@ + decimal(
                event as nat,
            ) + " stores a non-canonical title"@,
            ToolHistoryError::NoImageStored { tool_call } => "image-producing call "@ + decimal(
                tool_call as nat,
            ) + " succeeded without stored image content"@,
            ToolHistoryError::ApiNotEnded { event, api_call } => "tool execution event "@ + decimal(
                event as nat,
            ) + " appears before API call "@ + decimal(api_call as nat)
                + " reached the required terminal state"@,
        }
    }

    /// What is said of a history that breaks the rule.
    pub fn message(&self) -> (text: String)
        ensures
            text@ == self.text(),
    {
        match self {
            ToolHistoryError::RequestBeforeResult { api_call, tool_call } => say2(
                "API call ",
                *api_call,
                " started before tool call ",
                *tool_call,
                " reached a final state",
            ),
            ToolHistoryError::InvalidApiCall { tool_call, api_call } => say2(
                "tool call ",
                *tool_call,
                " references invalid API call ",
                *api_call,
                "",
            ),
            ToolHistoryError::CallAfterApiEnd { tool_call, api_call } => say2(
                "tool call ",
                *tool_call,
                " was recorded after API call ",
                *api_call,
                " ended",
            ),
            ToolHistoryError::EmptyField { tool_call } => say1(
                "tool call ",
                *tool_call,
                " has an empty required field",
            ),
            ToolHistoryError::BatchAlreadyRunning { tool_call, api_call } => say2(
                "tool call ",
                *tool_call,
                " was added after execution of API tool batch ",
                *api_call,
                " began",
            ),
            ToolHistoryError::BatchOverlap { api_call, tool_call } => say2(
                "API tool batch ",
                *api_call,
                " overlaps unfinished tool call ",
                *tool_call,
                "",
            ),
            ToolHistoryError::RepeatedProviderCall { api_call, provider_call_id } => join3(
                say1("API tool batch ", *api_call, " repeats provider call ID ").as_str(),
                debug_text(provider_call_id.as_str()).as_str(),
                "",
            ),
            ToolHistoryError::UnknownCall { source, event, tool_call } => say2(
                source.label(),
                *event,
                " references unknown call ",
                *tool_call,
                "",
            ),
            ToolHistoryError::OutOfOrder { source, event, tool_call, api_call } => say3(
                source.label(),
                *event,
                source.order_verb_text(),
                *tool_call,
                " out of order in API tool batch ",
                *api_call,
                "",
            ),
            ToolHistoryError::MissingCall { source, event, tool_call } => say2(
                source.label(),
                *event,
                " references missing call ",
                *tool_call,
                "",
            ),
            ToolHistoryError::WrongTool { source, event, tool } => join3(
                say1(source.label(), *event, source.wrong_tool_text()).as_str(),
                tool.as_str(),
                "",
            ),
            ToolHistoryError::WrongOperation { event, operation, tool } => join3(
                join3(
                    say1("WorkMap mutation ", *event, " operation ").as_str(),
                    operation.as_str(),
                    " does not match tool ",
                ).as_str(),
                tool.as_str(),
                "",
            ),
            ToolHistoryError::Repeated { source, tool_call } => say1(
                "tool call ",
                *tool_call,
                source.repeated_text(),
            ),
            ToolHistoryError::EmptyInfo { event } => say1(
                "tool info ",
                *event,
                " has no effective content",
            ),
            ToolHistoryError::SeveralLines { event } => say1(
                "tool info ",
                *event,
                " contains more than one line",
            ),
            ToolHistoryError::InvalidTitle { reason } => reason.clone(),
            ToolHistoryError::TitleNotCanonical { event } => say1(
                "Agent title change ",
                *event,
                " stores a non-canonical title",
            ),
            ToolHistoryError::NoImageStored { tool_call } => say1(
                "image-producing call ",
                *tool_call,
                " succeeded without stored image content",
            ),
            ToolHistoryError::ApiNotEnded { event, api_call } => say2(
                "tool execution event ",
                *event,
                " appears before API call ",
                *api_call,
                " reached the required terminal state",
            ),
        }
    }
}

/// Whether an event ends the API call before another event, in the required state if there is one.
pub open spec fn ends_api_call(
    event: Event,
    api_call: EventId,
    before: EventId,
    required: Option<ApiState>,
) -> bool {
    &&& event.id < before
    &&& event.body matches EventBody::ApiStateUpdate(update)
    &&& update.api_call_id == api_call
    &&& update.state.terminal()
    &&& required is None || required == Some(update.state)
}

/// Whether the API call ended before the event, in the required state if there is one.
pub open spec fn api_ended_before(
    events: Seq<Event>,
    api_call: EventId,
    before: EventId,
    required: Option<ApiState>,
) -> bool {
    exists|i: int|
        0 <= i < events.len() && ends_api_call(#[trigger] events[i], api_call, before, required)
}

/// Whether the API call ended before the event, in the required state if there is one.
pub fn api_call_ended_before(
    events: &Vec<Event>,
    api_call: EventId,
    before: EventId,
    required: Option<ApiState>,
) -> (ended: bool)
    ensures
        ended == api_ended_before(events@, api_call, before, required),
{
    let mut place: usize = 0;
    while place < events.len()
        invariant
            place <= events.len(),
            forall|i: int|
                0 <= i < place ==> !ends_api_call(#[trigger] events@[i], api_call, before, required),
        decreases events.len() - place,
    {
        let event = &events[place];
        if let EventBody::ApiStateUpdate(update) = &event.body {
            let wanted = match required {
                None => true,
                Some(state) => state == update.state,
            };
            if event.id < before && update.api_call_id == api_call && update.state.is_terminal()
                && wanted {
                assert(ends_api_call(events@[place as int], api_call, before, required));
                return true;
            }
        }
        place += 1;
    }
    false
}

/// Requires that the API call ended before the event.
pub fn require_api_terminal_before(
    events: &Vec<Event>,
    api_call: EventId,
    event: EventId,
    required: Option<ApiState>,
) -> (result: Result<(), ToolHistoryError>)
    ensures
        result is Ok <==> api_ended_before(events@, api_call, event, required),
        result matches Err(error) ==> error == (ToolHistoryError::ApiNotEnded { event, api_call }),
{
    if api_call_ended_before(events, api_call, event, required) {
        Ok(())
    } else {
        Err(ToolHistoryError::ApiNotEnded { event, api_call })
    }
}

/// The place of a call among the calls.
pub open spec fn place_of(calls: Seq<ToolCallState>, id: EventId) -> Option<int>
    decreases calls.len(),
{
    if calls.len() == 0 {
        None
    } else {
        match place_of(calls.drop_last(), id) {
            Some(place) => Some(place),
            None => if calls.last().id == id {
                Some(calls.len() - 1)
            } else {
                None
            },
        }
    }
}

pub proof fn lemma_place_of(calls: Seq<ToolCallState>, id: EventId)
    ensures
        place_of(calls, id) matches Some(place) ==> 0 <= place < calls.len() && calls[place].id
            == id && forall|i: int| 0 <= i < place ==> calls[i].id != id,
        place_of(calls, id) is None ==> forall|i: int| 0 <= i < calls.len() ==> calls[i].id != id,
    decreases calls.len(),
{
    if calls.len() > 0 {
        let front = calls.drop_last();
        lemma_place_of(front, id);
        assert forall|i: int| 0 <= i < front.len() implies front[i] == calls[i] by {}
        if place_of(front, id) is None {
            assert forall|i: int| 0 <= i < calls.len() - 1 implies calls[i].id != id by {
                assert(front[i].id != id);
            }
        }
    }
}

fn find_place(calls: &Vec<ToolCallState>, id: EventId) -> (place: Option<usize>)
    ensures
        place matches Some(found) ==> found < calls@.len() && place_of(calls@, id) == Some(
            found as int,
        ),
        place is None ==> place_of(calls@, id) is None,
{
    proof {
        lemma_place_of(calls@, id);
    }
    let mut place: usize = 0;
    while place < calls.len()
        invariant
            place <= calls.len(),
            forall|i: int| 0 <= i < place ==> calls@[i].id != id,
            place_of(calls@, id) matches Some(p) ==> 0 <= p < calls@.len() && calls@[p].id == id
                && forall|i: int| 0 <= i < p ==> calls@[i].id != id,
            place_of(calls@, id) is None ==> forall|i: int|
                0 <= i < calls@.len() ==> calls@[i].id != id,
        decreases calls.len() - place,
    {
        if calls[place].id == id {
            return Some(place);
        }
        place += 1;
    }
    None
}

/// The first call that is open, of one batch where a batch is given, or of the others where
/// `other` says so.
pub open spec fn first_open(
    calls: Seq<ToolCallState>,
    batch: Option<EventId>,
    other: bool,
) -> Option<EventId>
    decreases calls.len(),
{
    if calls.len() == 0 {
        None
    } else {
        match first_open(calls.drop_last(), batch, other) {
            Some(id) => Some(id),
            None => if open_in(calls.last(), batch, other) {
                Some(calls.last().id)
            } else {
                None
            },
        }
    }
}

/// Whether a call is open, of the batch or of the others.
pub open spec fn open_in(call: ToolCallState, batch: Option<EventId>, other: bool) -> bool {
    !call.finished && (batch matches Some(api_call) ==> (call.api_call_id == api_call) != other)
}

fn find_first_open(calls: &Vec<ToolCallState>, batch: Option<EventId>, other: bool) -> (id: Option<
    EventId,
>)
    ensures
        id == first_open(calls@, batch, other),
{
    let mut place: usize = 0;
    while place < calls.len()
        invariant
            place <= calls.len(),
            first_open(calls@.take(place as int), batch, other) is None,
        decreases calls.len() - place,
    {
        let call = calls[place];
        let open = !call.finished && match batch {
            Some(api_call) => (call.api_call_id == api_call) != other,
            None => true,
        };
        assert(calls@.take(place + 1).drop_last() =~= calls@.take(place as int));
        if open {
            proof {
                lemma_first_open_prefix(calls@, place + 1, batch, other);
            }
            return Some(call.id);
        }
        place += 1;
    }
    assert(calls@.take(place as int) =~= calls@);
    None
}

proof fn lemma_first_open_prefix(
    calls: Seq<ToolCallState>,
    prefix: int,
    batch: Option<EventId>,
    other: bool,
)
    requires
        0 <= prefix <= calls.len(),
        first_open(calls.take(prefix), batch, other) is Some,
    ensures
        first_open(calls, batch, other) == first_open(calls.take(prefix), batch, other),
    decreases calls.len(),
{
    if prefix == calls.len() {
        assert(calls.take(prefix) =~= calls);
    } else {
        assert(calls.drop_last().take(prefix) =~= calls.take(prefix));
        lemma_first_open_prefix(calls.drop_last(), prefix, batch, other);
    }
}

/// The call of the batch that runs next.
pub fn next_tool_in_batch(calls: &Vec<ToolCallState>, api_call_id: EventId) -> (id: Option<EventId>)
    ensures
        id == first_open(calls@, Some(api_call_id), false),
{
    find_first_open(calls, Some(api_call_id), false)
}

/// Where a call stands when an event says that it runs.
#[derive(Clone, Copy, Debug, PartialEq, Eq, Structural)]
pub enum CallTurn {
    Unknown,
    OutOfOrder(EventId),
    Next(usize),
}

/// Where a call stands when an event says that it runs.
pub open spec fn call_turn(calls: Seq<ToolCallState>, id: EventId) -> CallTurn {
    match place_of(calls, id) {
        None => CallTurn::Unknown,
        Some(place) => if first_open(calls, Some(calls[place].api_call_id), false) == Some(id) {
            CallTurn::Next(place as usize)
        } else {
            CallTurn::OutOfOrder(calls[place].api_call_id)
        },
    }
}

fn find_call_turn(calls: &Vec<ToolCallState>, id: EventId) -> (turn: CallTurn)
    ensures
        turn == call_turn(calls@, id),
        turn matches CallTurn::Next(place) ==> place < calls@.len() && calls@[place as int].id == id,
{
    proof {
        lemma_place_of(calls@, id);
    }
    match find_place(calls, id) {
        None => CallTurn::Unknown,
        Some(place) => {
            let api_call = calls[place].api_call_id;
            let next = next_tool_in_batch(calls, api_call);
            if next == Some(id) {
                CallTurn::Next(place)
            } else {
                CallTurn::OutOfOrder(api_call)
            }
        },
    }
}

/// Whether a call of the batch has begun to run.
pub open spec fn batch_running(calls: Seq<ToolCallState>, api_call: EventId) -> bool {
    exists|i: int|
        0 <= i < calls.len() && (#[trigger] calls[i]).api_call_id == api_call && (
        calls[i].has_output || calls[i].finished)
}

fn batch_is_running(calls: &Vec<ToolCallState>, api_call: EventId) -> (running: bool)
    ensures
        running == batch_running(calls@, api_call),
{
    let mut place: usize = 0;
    while place < calls.len()
        invariant
            place <= calls.len(),
            forall|i: int|
                0 <= i < place ==> !((#[trigger] calls@[i]).api_call_id == api_call && (
                calls@[i].has_output || calls@[i].finished)),
        decreases calls.len() - place,
    {
        let call = calls[place];
        if call.api_call_id == api_call && (call.has_output || call.finished) {
            assert(calls@[place as int] == call);
            return true;
        }
        place += 1;
    }
    false
}

/// Whether a call of the batch has the provider's identity.
pub open spec fn provider_call_taken(
    events: Seq<Event>,
    calls: Seq<ToolCallState>,
    api_call: EventId,
    provider_call_id: Seq<char>,
) -> bool {
    exists|i: int|
        0 <= i < calls.len() && same_provider_call(
            events,
            #[trigger] calls[i],
            api_call,
            provider_call_id,
        )
}

/// Whether this is a call of the batch with the provider's identity.
pub open spec fn same_provider_call(
    events: Seq<Event>,
    state: ToolCallState,
    api_call: EventId,
    provider_call_id: Seq<char>,
) -> bool {
    &&& state.api_call_id == api_call
    &&& event_with(events, state.id) matches Some(found)
    &&& found.body matches EventBody::ToolCall(existing)
    &&& existing.provider_call_id@ == provider_call_id
}

fn provider_call_is_taken(
    events: &Vec<Event>,
    calls: &Vec<ToolCallState>,
    api_call: EventId,
    provider_call_id: &String,
) -> (taken: bool)
    ensures
        taken == provider_call_taken(events@, calls@, api_call, provider_call_id@),
{
    let mut place: usize = 0;
    while place < calls.len()
        invariant
            place <= calls.len(),
            forall|i: int|
                0 <= i < place ==> !same_provider_call(
                    events@,
                    #[trigger] calls@[i],
                    api_call,
                    provider_call_id@,
                ),
        decreases calls.len() - place,
    {
        let state = calls[place];
        if state.api_call_id == api_call {
            if let Some(found) = find_event(events, state.id) {
                if let EventBody::ToolCall(existing) = &found.body {
                    if existing.provider_call_id == *provider_call_id {
                        assert(same_provider_call(
                            events@,
                            calls@[place as int],
                            api_call,
                            provider_call_id@,
                        ));
                        return true;
                    }
                }
            }
        }
        place += 1;
    }
    false
}

/// Whether the identity is that of the request event of the call's own API call.
pub open spec fn valid_api_call(events: Seq<Event>, call: ToolCall) -> bool {
    &&& event_with(events, call.api_call_id) matches Some(found)
    &&& found.body matches EventBody::ApiStateUpdate(update)
    &&& update.state == ApiState::Requesting
    &&& update.prompt_id == call.prompt_id
    &&& update.api_call_id == call.api_call_id
}

fn is_valid_api_call(events: &Vec<Event>, call: &ToolCall) -> (valid: bool)
    ensures
        valid == valid_api_call(events@, *call),
{
    match find_event(events, call.api_call_id) {
        None => false,
        Some(found) => match &found.body {
            EventBody::ApiStateUpdate(update) => update.state == ApiState::Requesting
                && update.prompt_id == call.prompt_id && update.api_call_id == call.api_call_id,
            _ => false,
        },
    }
}

/// A new call joins the batch of its API call.
pub open spec fn call_step(
    events: Seq<Event>,
    calls: Seq<ToolCallState>,
    id: EventId,
    call: ToolCall,
) -> Result<Seq<ToolCallState>, ToolHistoryError> {
    let api_call = call.api_call_id;
    if !valid_api_call(events, call) {
        Err(ToolHistoryError::InvalidApiCall { tool_call: id, api_call })
    } else if api_ended_before(events, api_call, id, None) {
        Err(ToolHistoryError::CallAfterApiEnd { tool_call: id, api_call })
    } else if call.provider_call_id@.len() == 0 || call.name@.len() == 0 || call.arguments@.len()
        == 0 {
        Err(ToolHistoryError::EmptyField { tool_call: id })
    } else if batch_running(calls, api_call) {
        Err(ToolHistoryError::BatchAlreadyRunning { tool_call: id, api_call })
    } else {
        match first_open(calls, Some(api_call), true) {
            Some(tool_call) => Err(ToolHistoryError::BatchOverlap { api_call, tool_call }),
            None => if provider_call_taken(events, calls, api_call, call.provider_call_id@) {
                Err(
                    ToolHistoryError::RepeatedProviderCall {
                        api_call,
                        provider_call_id: call.provider_call_id,
                    },
                )
            } else {
                Ok(
                    calls.push(
                        ToolCallState {
                            id,
                            api_call_id: api_call,
                            has_output: false,
                            finished: false,
                        },
                    ),
                )
            },
        }
    }
}

fn record_call(
    events: &Vec<Event>,
    calls: &mut Vec<ToolCallState>,
    id: EventId,
    call: &ToolCall,
) -> (result: Result<(), ToolHistoryError>)
    ensures
        match result {
            Ok(_) => call_step(events@, old(calls)@, id, *call) == Ok::<_, ToolHistoryError>(
                final(calls)@,
            ),
            Err(error) => call_step(events@, old(calls)@, id, *call) == Err::<
                Seq<ToolCallState>,
                _,
            >(error),
        },
{
    let api_call = call.api_call_id;
    if !is_valid_api_call(events, call) {
        return Err(ToolHistoryError::InvalidApiCall { tool_call: id, api_call });
    }
    if api_call_ended_before(events, api_call, id, None) {
        return Err(ToolHistoryError::CallAfterApiEnd { tool_call: id, api_call });
    }
    if call.provider_call_id.as_str().is_empty() || call.name.as_str().is_empty()
        || call.arguments.as_str().is_empty() {
        return Err(ToolHistoryError::EmptyField { tool_call: id });
    }
    if batch_is_running(calls, api_call) {
        return Err(ToolHistoryError::BatchAlreadyRunning { tool_call: id, api_call });
    }
    if let Some(tool_call) = find_first_open(calls, Some(api_call), true) {
        return Err(ToolHistoryError::BatchOverlap { api_call, tool_call });
    }
    if provider_call_is_taken(events, calls, api_call, &call.provider_call_id) {
        return Err(
            ToolHistoryError::RepeatedProviderCall {
                api_call,
                provider_call_id: call.provider_call_id.clone(),
            },
        );
    }
    calls.push(ToolCallState { id, api_call_id: api_call, has_output: false, finished: false });
    Ok(())
}

/// Whether a piece of output says nothing.
pub open spec fn info_empty(content: ToolInfoContent) -> bool {
    match content {
        ToolInfoContent::Text(text) => text@.len() == 0,
        ToolInfoContent::Terminal(text) => text@.len() == 0,
    }
}

/// Whether a piece of plain output runs over more than one line.
pub open spec fn several_lines(stream: ToolOutputStream, content: ToolInfoContent) -> bool {
    &&& stream != ToolOutputStream::Terminal
    &&& content matches ToolInfoContent::Text(text)
    &&& text@.contains('\n') || text@.contains('\r')
}

fn has_line_break(text: &str) -> (result: bool)
    ensures
        result == (text@.contains('\n') || text@.contains('\r')),
{
    for character in it: text.chars()
        invariant
            it.seq() == text@,
            forall|i: int| 0 <= i < it.index() ==> text@[i] != '\n' && text@[i] != '\r',
    {
        if character == '\n' || character == '\r' {
            assert(text@[it.index() as int] == character);
            return true;
        }
    }
    false
}

/// Whether the call has a stored result of its run, or is done with running.
pub open spec fn with_output(calls: Seq<ToolCallState>, place: int) -> Seq<ToolCallState> {
    calls.update(place, ToolCallState { has_output: true, ..calls[place] })
}

/// The call at the place is done.
pub open spec fn with_result(calls: Seq<ToolCallState>, place: int) -> Seq<ToolCallState> {
    calls.update(place, ToolCallState { finished: true, ..calls[place] })
}

/// The call's own event says that it runs: it must be its turn.
pub open spec fn turn_error(
    calls: Seq<ToolCallState>,
    source: ToolEventKind,
    event: EventId,
    tool_call: EventId,
) -> Option<ToolHistoryError> {
    match call_turn(calls, tool_call) {
        CallTurn::Unknown => Some(ToolHistoryError::UnknownCall { source, event, tool_call }),
        CallTurn::OutOfOrder(api_call) => Some(
            ToolHistoryError::OutOfOrder { source, event, tool_call, api_call },
        ),
        CallTurn::Next(_) => None,
    }
}

/// The call whose turn it is.
pub open spec fn turn_place(calls: Seq<ToolCallState>, tool_call: EventId) -> int {
    match call_turn(calls, tool_call) {
        CallTurn::Next(place) => place as int,
        _ => -1,
    }
}

fn require_turn(
    calls: &Vec<ToolCallState>,
    source: ToolEventKind,
    event: EventId,
    tool_call: EventId,
) -> (result: Result<usize, ToolHistoryError>)
    ensures
        match result {
            Ok(place) => {
                &&& turn_error(calls@, source, event, tool_call) is None
                &&& place < calls@.len()
                &&& place == turn_place(calls@, tool_call)
                &&& calls@[place as int].id == tool_call
            },
            Err(error) => turn_error(calls@, source, event, tool_call) == Some(error),
        },
{
    match find_call_turn(calls, tool_call) {
        CallTurn::Unknown => Err(ToolHistoryError::UnknownCall { source, event, tool_call }),
        CallTurn::OutOfOrder(api_call) => Err(
            ToolHistoryError::OutOfOrder { source, event, tool_call, api_call },
        ),
        CallTurn::Next(place) => Ok(place),
    }
}

/// A running call stores what it made: once, and after its API call completed.
pub open spec fn output_step(
    events: Seq<Event>,
    calls: Seq<ToolCallState>,
    source: ToolEventKind,
    event: EventId,
    tool_call: EventId,
    once: bool,
) -> Result<Seq<ToolCallState>, ToolHistoryError> {
    let place = turn_place(calls, tool_call);
    let state = calls[place];
    if once && state.has_output {
        Err(ToolHistoryError::Repeated { source, tool_call })
    } else if !api_ended_before(events, state.api_call_id, event, Some(ApiState::Completed)) {
        Err(ToolHistoryError::ApiNotEnded { event, api_call: state.api_call_id })
    } else {
        Ok(with_output(calls, place))
    }
}

fn record_output(
    events: &Vec<Event>,
    calls: &mut Vec<ToolCallState>,
    source: ToolEventKind,
    event: EventId,
    tool_call: EventId,
    once: bool,
    place: usize,
) -> (result: Result<(), ToolHistoryError>)
    requires
        place < old(calls)@.len(),
        place == turn_place(old(calls)@, tool_call),
    ensures
        match result {
            Ok(_) => output_step(events@, old(calls)@, source, event, tool_call, once) == Ok::<
                _,
                ToolHistoryError,
            >(final(calls)@),
            Err(error) => output_step(events@, old(calls)@, source, event, tool_call, once) == Err::<
                Seq<ToolCallState>,
                _,
            >(error),
        },
{
    let mut state = calls[place];
    if once && state.has_output {
        return Err(ToolHistoryError::Repeated { source, tool_call });
    }
    let api_call = state.api_call_id;
    if !api_call_ended_before(events, api_call, event, Some(ApiState::Completed)) {
        return Err(ToolHistoryError::ApiNotEnded { event, api_call });
    }
    state.has_output = true;
    calls.set(place, state);
    Ok(())
}

/// A title is stored in its canonical form.
pub open spec fn title_error(
    event: EventId,
    change: crate::event::AgentTitleChanged,
) -> Option<ToolHistoryError> {
    match change.normalized {
        crate::event::Computed::Failure(reason) => Some(ToolHistoryError::InvalidTitle { reason }),
        crate::event::Computed::Value(normalized) => if normalized@ == change.title@ {
            None
        } else {
            Some(ToolHistoryError::TitleNotCanonical { event })
        },
    }
}

fn check_title(event: EventId, change: &crate::event::AgentTitleChanged) -> (error: Option<
    ToolHistoryError,
>)
    ensures
        error == title_error(event, *change),
{
    match &change.normalized {
        crate::event::Computed::Failure(reason) => Some(
            ToolHistoryError::InvalidTitle { reason: reason.clone() },
        ),
        crate::event::Computed::Value(normalized) => if *normalized == change.title {
            None
        } else {
            Some(ToolHistoryError::TitleNotCanonical { event })
        },
    }
}

/// The event is that of a tool call.
pub open spec fn tool_call_with(events: Seq<Event>, id: EventId) -> Option<ToolCall> {
    match event_with(events, id) {
        Some(found) => match found.body {
            EventBody::ToolCall(call) => Some(call),
            _ => None,
        },
        None => None,
    }
}

/// The tool call with this identity.
pub fn find_tool_call(events: &Vec<Event>, id: EventId) -> (call: Option<&ToolCall>)
    ensures
        call matches Some(found) ==> tool_call_with(events@, id) == Some(*found),
        call is None ==> tool_call_with(events@, id) is None,
{
    match find_event(events, id) {
        Some(found) => match &found.body {
            EventBody::ToolCall(call) => Some(call),
            _ => None,
        },
        None => None,
    }
}

/// What an event does to the tool calls before it, or the rule that it breaks.
pub open spec fn tool_step(
    events: Seq<Event>,
    calls: Seq<ToolCallState>,
    event: Event,
) -> Result<Seq<ToolCallState>, ToolHistoryError> {
    let id = event.id;
    match event.body {
        EventBody::ApiStateUpdate(update) => if update.state == ApiState::Requesting {
            match first_open(calls, None, false) {
                Some(tool_call) => Err(
                    ToolHistoryError::RequestBeforeResult { api_call: update.api_call_id, tool_call },
                ),
                None => Ok(calls),
            }
        } else {
            Ok(calls)
        },
        EventBody::ToolCall(call) => call_step(events, calls, id, call),
        EventBody::ToolInfoUpdate(info) => match turn_error(
            calls,
            ToolEventKind::Info,
            id,
            info.tool_call_id,
        ) {
            Some(error) => Err(error),
            None => if info_empty(info.content) {
                Err(ToolHistoryError::EmptyInfo { event: id })
            } else if several_lines(info.stream, info.content) {
                Err(ToolHistoryError::SeveralLines { event: id })
            } else {
                output_step(events, calls, ToolEventKind::Info, id, info.tool_call_id, false)
            },
        },
        EventBody::WorkMapMutation(update) => workmap_step(events, calls, id, update),
        EventBody::AgentTitleChanged(change) => match change.tool_call_id {
            None => match title_error(id, change) {
                Some(error) => Err(error),
                None => Ok(calls),
            },
            Some(tool_call) => title_step(events, calls, id, tool_call, change),
        },
        EventBody::ImageContent(image) => image_step(events, calls, id, image.tool_call_id),
        EventBody::ToolCallResult(result) => result_step(events, calls, id, result),
        _ => Ok(calls),
    }
}

/// A change of the work map belongs to a running call of the tool for it.
pub open spec fn workmap_step(
    events: Seq<Event>,
    calls: Seq<ToolCallState>,
    id: EventId,
    update: crate::event::WorkMapMutation,
) -> Result<Seq<ToolCallState>, ToolHistoryError> {
    let source = ToolEventKind::WorkMap;
    let tool_call = update.tool_call_id;
    match turn_error(calls, source, id, tool_call) {
        Some(error) => Err(error),
        None => match tool_call_with(events, tool_call) {
            None => Err(ToolHistoryError::MissingCall { source, event: id, tool_call }),
            Some(call) => if !call.traits.workmap {
                Err(ToolHistoryError::WrongTool { source, event: id, tool: call.name })
            } else if call.name@ != update.operation_tool@ {
                Err(
                    ToolHistoryError::WrongOperation {
                        event: id,
                        operation: update.operation,
                        tool: call.name,
                    },
                )
            } else {
                output_step(events, calls, source, id, tool_call, true)
            },
        },
    }
}

fn record_workmap(
    events: &Vec<Event>,
    calls: &mut Vec<ToolCallState>,
    id: EventId,
    update: &crate::event::WorkMapMutation,
) -> (result: Result<(), ToolHistoryError>)
    ensures
        match result {
            Ok(_) => workmap_step(events@, old(calls)@, id, *update) == Ok::<_, ToolHistoryError>(
                final(calls)@,
            ),
            Err(error) => workmap_step(events@, old(calls)@, id, *update) == Err::<
                Seq<ToolCallState>,
                _,
            >(error),
        },
{
    let source = ToolEventKind::WorkMap;
    let tool_call = update.tool_call_id;
    let place = match require_turn(calls, source, id, tool_call) {
        Err(error) => {
            return Err(error);
        },
        Ok(place) => place,
    };
    match find_tool_call(events, tool_call) {
        None => Err(ToolHistoryError::MissingCall { source, event: id, tool_call }),
        Some(call) => {
            if !call.traits.workmap {
                return Err(
                    ToolHistoryError::WrongTool { source, event: id, tool: call.name.clone() },
                );
            }
            if call.name != update.operation_tool {
                return Err(
                    ToolHistoryError::WrongOperation {
                        event: id,
                        operation: update.operation.clone(),
                        tool: call.name.clone(),
                    },
                );
            }
            record_output(events, calls, source, id, tool_call, true, place)
        },
    }
}

/// A change of the title belongs to a running call of the tool for it.
pub open spec fn title_step(
    events: Seq<Event>,
    calls: Seq<ToolCallState>,
    id: EventId,
    tool_call: EventId,
    change: crate::event::AgentTitleChanged,
) -> Result<Seq<ToolCallState>, ToolHistoryError> {
    let source = ToolEventKind::Title;
    match turn_error(calls, source, id, tool_call) {
        Some(error) => Err(error),
        None => match tool_call_with(events, tool_call) {
            None => Err(ToolHistoryError::MissingCall { source, event: id, tool_call }),
            Some(call) => if call.name@ != SET_TITLE_TOOL@ {
                Err(ToolHistoryError::WrongTool { source, event: id, tool: call.name })
            } else {
                match title_error(id, change) {
                    Some(error) => Err(error),
                    None => output_step(events, calls, source, id, tool_call, true),
                }
            },
        },
    }
}

fn record_title(
    events: &Vec<Event>,
    calls: &mut Vec<ToolCallState>,
    id: EventId,
    tool_call: EventId,
    change: &crate::event::AgentTitleChanged,
) -> (result: Result<(), ToolHistoryError>)
    ensures
        match result {
            Ok(_) => title_step(events@, old(calls)@, id, tool_call, *change) == Ok::<
                _,
                ToolHistoryError,
            >(final(calls)@),
            Err(error) => title_step(events@, old(calls)@, id, tool_call, *change) == Err::<
                Seq<ToolCallState>,
                _,
            >(error),
        },
{
    let source = ToolEventKind::Title;
    let place = match require_turn(calls, source, id, tool_call) {
        Err(error) => {
            return Err(error);
        },
        Ok(place) => place,
    };
    match find_tool_call(events, tool_call) {
        None => Err(ToolHistoryError::MissingCall { source, event: id, tool_call }),
        Some(call) => {
            if !same(call.name.as_str(), SET_TITLE_TOOL) {
                return Err(
                    ToolHistoryError::WrongTool { source, event: id, tool: call.name.clone() },
                );
            }
            match check_title(id, change) {
                Some(error) => Err(error),
                None => record_output(events, calls, source, id, tool_call, true, place),
            }
        },
    }
}

/// A stored image belongs to a running call of a tool that stores images.
pub open spec fn image_step(
    events: Seq<Event>,
    calls: Seq<ToolCallState>,
    id: EventId,
    tool_call: EventId,
) -> Result<Seq<ToolCallState>, ToolHistoryError> {
    let source = ToolEventKind::Image;
    match turn_error(calls, source, id, tool_call) {
        Some(error) => Err(error),
        None => match tool_call_with(events, tool_call) {
            None => Err(ToolHistoryError::MissingCall { source, event: id, tool_call }),
            Some(call) => if !call.traits.stores_image {
                Err(ToolHistoryError::WrongTool { source, event: id, tool: call.name })
            } else {
                output_step(events, calls, source, id, tool_call, true)
            },
        },
    }
}

fn record_image(
    events: &Vec<Event>,
    calls: &mut Vec<ToolCallState>,
    id: EventId,
    tool_call: EventId,
) -> (result: Result<(), ToolHistoryError>)
    ensures
        match result {
            Ok(_) => image_step(events@, old(calls)@, id, tool_call) == Ok::<_, ToolHistoryError>(
                final(calls)@,
            ),
            Err(error) => image_step(events@, old(calls)@, id, tool_call) == Err::<
                Seq<ToolCallState>,
                _,
            >(error),
        },
{
    let source = ToolEventKind::Image;
    let place = match require_turn(calls, source, id, tool_call) {
        Err(error) => {
            return Err(error);
        },
        Ok(place) => place,
    };
    match find_tool_call(events, tool_call) {
        None => Err(ToolHistoryError::MissingCall { source, event: id, tool_call }),
        Some(call) => {
            if !call.traits.stores_image {
                return Err(
                    ToolHistoryError::WrongTool { source, event: id, tool: call.name.clone() },
                );
            }
            record_output(events, calls, source, id, tool_call, true, place)
        },
    }
}

/// A result closes the call whose turn it is.
pub open spec fn result_step(
    events: Seq<Event>,
    calls: Seq<ToolCallState>,
    id: EventId,
    result: ToolCallResult,
) -> Result<Seq<ToolCallState>, ToolHistoryError> {
    let tool_call = result.tool_call_id;
    match turn_error(calls, ToolEventKind::Outcome, id, tool_call) {
        Some(error) => Err(error),
        None => {
            let place = turn_place(calls, tool_call);
            let state = calls[place];
            let needs_image = match tool_call_with(events, tool_call) {
                Some(call) => call.traits.requires_image,
                None => false,
            };
            let required = if state.has_output {
                Some(ApiState::Completed)
            } else {
                None
            };
            if needs_image && result.state == ToolResultState::Succeeded && !state.has_output {
                Err(ToolHistoryError::NoImageStored { tool_call })
            } else if !api_ended_before(events, state.api_call_id, id, required) {
                Err(ToolHistoryError::ApiNotEnded { event: id, api_call: state.api_call_id })
            } else {
                Ok(with_result(calls, place))
            }
        },
    }
}

fn record_result(
    events: &Vec<Event>,
    calls: &mut Vec<ToolCallState>,
    id: EventId,
    result: &ToolCallResult,
) -> (outcome: Result<(), ToolHistoryError>)
    ensures
        match outcome {
            Ok(_) => result_step(events@, old(calls)@, id, *result) == Ok::<_, ToolHistoryError>(
                final(calls)@,
            ),
            Err(error) => result_step(events@, old(calls)@, id, *result) == Err::<
                Seq<ToolCallState>,
                _,
            >(error),
        },
{
    let tool_call = result.tool_call_id;
    let place = match require_turn(calls, ToolEventKind::Outcome, id, tool_call) {
        Err(error) => {
            return Err(error);
        },
        Ok(place) => place,
    };
    let mut state = calls[place];
    let needs_image = match find_tool_call(events, tool_call) {
        Some(call) => call.traits.requires_image,
        None => false,
    };
    let required = if state.has_output {
        Some(ApiState::Completed)
    } else {
        None
    };
    if needs_image && result.state == ToolResultState::Succeeded && !state.has_output {
        return Err(ToolHistoryError::NoImageStored { tool_call });
    }
    let api_call = state.api_call_id;
    if !api_call_ended_before(events, api_call, id, required) {
        return Err(ToolHistoryError::ApiNotEnded { event: id, api_call });
    }
    state.finished = true;
    calls.set(place, state);
    Ok(())
}

/// The tool calls of the first events, or the first rule that one of them breaks.
pub open spec fn tool_states(events: Seq<Event>, count: int) -> Result<
    Seq<ToolCallState>,
    ToolHistoryError,
>
    decreases count,
{
    if count <= 0 {
        Ok(Seq::empty())
    } else {
        match tool_states(events, count - 1) {
            Ok(calls) => tool_step(events, calls, events[count - 1]),
            Err(error) => Err(error),
        }
    }
}

fn record_event(events: &Vec<Event>, calls: &mut Vec<ToolCallState>, event: &Event) -> (result:
    Result<(), ToolHistoryError>)
    ensures
        match result {
            Ok(_) => tool_step(events@, old(calls)@, *event) == Ok::<_, ToolHistoryError>(
                final(calls)@,
            ),
            Err(error) => tool_step(events@, old(calls)@, *event) == Err::<Seq<ToolCallState>, _>(
                error,
            ),
        },
{
    let id = event.id;
    match &event.body {
        EventBody::ApiStateUpdate(update) => {
            if update.state == ApiState::Requesting {
                if let Some(tool_call) = find_first_open(calls, None, false) {
                    return Err(
                        ToolHistoryError::RequestBeforeResult {
                            api_call: update.api_call_id,
                            tool_call,
                        },
                    );
                }
            }
            Ok(())
        },
        EventBody::ToolCall(call) => record_call(events, calls, id, call),
        EventBody::ToolInfoUpdate(info) => {
            let source = ToolEventKind::Info;
            let place = match require_turn(calls, source, id, info.tool_call_id) {
                Err(error) => {
                    return Err(error);
                },
                Ok(place) => place,
            };
            match &info.content {
                ToolInfoContent::Text(text) => {
                    if text.as_str().is_empty() {
                        return Err(ToolHistoryError::EmptyInfo { event: id });
                    }
                    if info.stream != ToolOutputStream::Terminal && has_line_break(text.as_str()) {
                        return Err(ToolHistoryError::SeveralLines { event: id });
                    }
                },
                ToolInfoContent::Terminal(text) => {
                    if text.as_str().is_empty() {
                        return Err(ToolHistoryError::EmptyInfo { event: id });
                    }
                },
            }
            record_output(events, calls, source, id, info.tool_call_id, false, place)
        },
        EventBody::WorkMapMutation(update) => record_workmap(events, calls, id, update),
        EventBody::AgentTitleChanged(change) => match change.tool_call_id {
            None => match check_title(id, change) {
                Some(error) => Err(error),
                None => Ok(()),
            },
            Some(tool_call) => record_title(events, calls, id, tool_call, change),
        },
        EventBody::ImageContent(image) => record_image(events, calls, id, image.tool_call_id),
        EventBody::ToolCallResult(result) => record_result(events, calls, id, result),
        _ => Ok(()),
    }
}

/// The tool calls of the history in their order, or the first rule of tool calls that it breaks.
pub fn tool_call_states(edb: &EventDataBase) -> (result: Result<
    Vec<ToolCallState>,
    ToolHistoryError,
>)
    ensures
        match result {
            Ok(calls) => tool_states(edb@, edb@.len() as int) == Ok::<_, ToolHistoryError>(calls@),
            Err(error) => tool_states(edb@, edb@.len() as int) == Err::<Seq<ToolCallState>, _>(
                error,
            ),
        },
{
    let mut calls: Vec<ToolCallState> = Vec::new();
    let mut place: usize = 0;
    while place < edb.events.len()
        invariant
            place <= edb@.len(),
            tool_states(edb@, place as int) == Ok::<_, ToolHistoryError>(calls@),
        decreases edb@.len() - place,
    {
        if let Err(error) = record_event(&edb.events, &mut calls, &edb.events[place]) {
            proof {
                lemma_tool_error_stays(edb@, place + 1, edb@.len() as int);
            }
            return Err(error);
        }
        place += 1;
    }
    Ok(calls)
}

proof fn lemma_tool_error_stays(events: Seq<Event>, early: int, late: int)
    requires
        0 <= early <= late,
        tool_states(events, early) is Err,
    ensures
        tool_states(events, late) == tool_states(events, early),
    decreases late,
{
    if early < late {
        lemma_tool_error_stays(events, early, late - 1);
    }
}


/// Whether the event is the result of the call.
pub open spec fn is_result_of(event: Event, id: EventId) -> bool {
    event.body matches EventBody::ToolCallResult(result) && result.tool_call_id == id
}

/// Whether one of the first events is the result of the call.
pub open spec fn closed_within(events: Seq<Event>, count: int, id: EventId) -> bool {
    exists|i: int| 0 <= i < count && is_result_of(#[trigger] events[i], id)
}

/// Whether the event records the call.
pub open spec fn records_call(event: Event, state: ToolCallState) -> bool {
    &&& event.id == state.id
    &&& event.body matches EventBody::ToolCall(call)
    &&& call.api_call_id == state.api_call_id
}

/// Whether one of the first events records the call.
#[verifier::opaque]
pub open spec fn recorded(events: Seq<Event>, count: int, state: ToolCallState) -> bool {
    exists|i: int| 0 <= i < count && records_call(#[trigger] events[i], state)
}

/// Whether the call has a state.
#[verifier::opaque]
pub open spec fn has_state(calls: Seq<ToolCallState>, id: EventId) -> bool {
    exists|k: int| 0 <= k < calls.len() && (#[trigger] calls[k]).id == id
}

/// What the states of the calls say of the first events: each state is that of a recorded call,
/// in the order of the log, each recorded call has its state, and a call is finished exactly if
/// it has its result.
pub open spec fn states_match(events: Seq<Event>, count: int, calls: Seq<ToolCallState>) -> bool {
    &&& forall|k: int| 0 <= k < calls.len() ==> recorded(events, count, #[trigger] calls[k])
    &&& forall|i: int|
        0 <= i < count && (#[trigger] events[i]).body is ToolCall ==> has_state(calls, events[i].id)
    &&& forall|k: int|
        0 <= k < calls.len() ==> ((#[trigger] calls[k]).finished <==> closed_within(
            events,
            count,
            calls[k].id,
        ))
    &&& forall|k: int, l: int|
        0 <= k < l < calls.len() ==> (#[trigger] calls[k]).id < (#[trigger] calls[l]).id
}

/// The event that records the call.
pub proof fn lemma_recorder(events: Seq<Event>, count: int, state: ToolCallState) -> (i: int)
    requires
        recorded(events, count, state),
    ensures
        0 <= i < count,
        records_call(events[i], state),
{
    reveal(recorded);
    choose|i: int| 0 <= i < count && records_call(#[trigger] events[i], state)
}

proof fn lemma_is_recorded(events: Seq<Event>, count: int, state: ToolCallState, i: int)
    requires
        0 <= i < count,
        records_call(events[i], state),
    ensures
        recorded(events, count, state),
{
    reveal(recorded);
}

/// The place of the call's state.
pub proof fn lemma_state_place(calls: Seq<ToolCallState>, id: EventId) -> (k: int)
    requires
        has_state(calls, id),
    ensures
        0 <= k < calls.len(),
        calls[k].id == id,
{
    reveal(has_state);
    choose|k: int| 0 <= k < calls.len() && (#[trigger] calls[k]).id == id
}

proof fn lemma_has_state(calls: Seq<ToolCallState>, id: EventId, k: int)
    requires
        0 <= k < calls.len(),
        calls[k].id == id,
    ensures
        has_state(calls, id),
{
    reveal(has_state);
}

pub proof fn lemma_first_open(calls: Seq<ToolCallState>, batch: Option<EventId>, other: bool)
    ensures
        first_open(calls, batch, other) is None ==> forall|k: int|
            0 <= k < calls.len() ==> !open_in(#[trigger] calls[k], batch, other),
        first_open(calls, batch, other) matches Some(id) ==> exists|k: int|
            0 <= k < calls.len() && (#[trigger] calls[k]).id == id && open_in(
                calls[k],
                batch,
                other,
            ) && forall|l: int| 0 <= l < k ==> !open_in(#[trigger] calls[l], batch, other),
    decreases calls.len(),
{
    if calls.len() > 0 {
        let front = calls.drop_last();
        lemma_first_open(front, batch, other);
        assert forall|i: int| 0 <= i < front.len() implies front[i] == calls[i] by {}
        match first_open(front, batch, other) {
            Some(id) => {
                let k = choose|k: int|
                    0 <= k < front.len() && (#[trigger] front[k]).id == id && open_in(
                        front[k],
                        batch,
                        other,
                    ) && forall|l: int| 0 <= l < k ==> !open_in(#[trigger] front[l], batch, other);
                assert(calls[k].id == id);
                assert forall|l: int| 0 <= l < k implies !open_in(#[trigger] calls[l], batch, other) by {
                    assert(front[l] == calls[l]);
                }
            },
            None => {
                assert forall|l: int| 0 <= l < calls.len() - 1 implies !open_in(
                    #[trigger] calls[l],
                    batch,
                    other,
                ) by {
                    assert(front[l] == calls[l]);
                }
                if open_in(calls.last(), batch, other) {
                    let k = calls.len() - 1;
                    assert(calls[k].id == calls.last().id);
                }
            },
        }
    }
}

/// The call whose turn it is is open, and the earlier calls of its batch are not.
pub proof fn lemma_turn(calls: Seq<ToolCallState>, id: EventId)
    requires
        call_turn(calls, id) is Next,
        forall|k: int, l: int|
            0 <= k < l < calls.len() ==> (#[trigger] calls[k]).id < (#[trigger] calls[l]).id,
        calls.len() <= usize::MAX,
    ensures
        ({
            let place = turn_place(calls, id);
            &&& 0 <= place < calls.len()
            &&& calls[place].id == id
            &&& !calls[place].finished
            &&& forall|l: int|
                0 <= l < place && (#[trigger] calls[l]).api_call_id == calls[place].api_call_id
                    ==> calls[l].finished
        }),
{
    lemma_place_of(calls, id);
    let place = place_of(calls, id)->0;
    let batch = Some(calls[place].api_call_id);
    lemma_first_open(calls, batch, false);
    let k = choose|k: int|
        0 <= k < calls.len() && (#[trigger] calls[k]).id == id && open_in(calls[k], batch, false)
            && forall|l: int| 0 <= l < k ==> !open_in(#[trigger] calls[l], batch, false);
    if k != place {
        assert(calls[k].id == calls[place].id);
        if k < place {
        } else {
        }
    }
    assert forall|l: int|
        0 <= l < place && (#[trigger] calls[l]).api_call_id
            == calls[place].api_call_id implies calls[l].finished by {
        assert(!open_in(calls[l], batch, false));
    }
}

proof fn lemma_closed_grows(events: Seq<Event>, count: int, id: EventId)
    requires
        0 <= count < events.len(),
    ensures
        closed_within(events, count + 1, id) <==> closed_within(events, count, id) || is_result_of(
            events[count],
            id,
        ),
{
    if closed_within(events, count + 1, id) {
        let i = choose|i: int| 0 <= i < count + 1 && is_result_of(#[trigger] events[i], id);
        if i < count {
            assert(closed_within(events, count, id));
        }
    }
    if closed_within(events, count, id) {
        let i = choose|i: int| 0 <= i < count && is_result_of(#[trigger] events[i], id);
        assert(is_result_of(events[i], id));
    }
    if is_result_of(events[count], id) {
        assert(closed_within(events, count + 1, id));
    }
}

proof fn lemma_no_result_yet(events: Seq<Event>, count: int, id: EventId)
    requires
        ids_increase(events),
        0 <= count <= events.len(),
        tool_states(events, count) is Ok,
        events.len() <= usize::MAX,
        forall|i: int| 0 <= i < count ==> (#[trigger] events[i]).id != id,
    ensures
        !closed_within(events, count, id),
    decreases count,
{
    if count > 0 {
        lemma_states_match(events, count - 1);
        lemma_no_result_yet(events, count - 1, id);
        lemma_closed_grows(events, count - 1, id);
        let calls = tool_states(events, count - 1)->Ok_0;
        if is_result_of(events[count - 1], id) {
            lemma_place_of(calls, id);
            let place = place_of(calls, id)->0;
            let i = lemma_recorder(events, count - 1, calls[place]);
            assert(events[i].id == id);
        }
    }
}

pub proof fn lemma_states_match(events: Seq<Event>, count: int)
    requires
        ids_increase(events),
        0 <= count <= events.len(),
        tool_states(events, count) is Ok,
        events.len() <= usize::MAX,
    ensures
        states_match(events, count, tool_states(events, count)->Ok_0),
        tool_states(events, count)->Ok_0.len() <= count,
    decreases count, 1int,
{
    if count > 0 {
        lemma_states_match(events, count - 1);
        let calls = tool_states(events, count - 1)->Ok_0;
        let event = events[count - 1];
        let next = tool_states(events, count)->Ok_0;
        assert forall|id: EventId|
            #![trigger closed_within(events, count, id)]
            closed_within(events, count, id) <==> closed_within(events, count - 1, id)
                || is_result_of(event, id) by {
            lemma_closed_grows(events, count - 1, id);
        }
        lemma_step_shape(events, calls, event);
        if event.body is ToolCall {
            lemma_new_call_not_closed(events, count);
            lemma_matches_after_call(events, count, calls, next);
        } else {
            lemma_matches_after_mark(events, count, calls, next);
        }
    }
}

proof fn lemma_matches_after_call(
    events: Seq<Event>,
    count: int,
    calls: Seq<ToolCallState>,
    next: Seq<ToolCallState>,
)
    requires
        ids_increase(events),
        0 < count <= events.len(),
        states_match(events, count - 1, calls),
        events[count - 1].body matches EventBody::ToolCall(call) && next == calls.push(
            ToolCallState {
                id: events[count - 1].id,
                api_call_id: call.api_call_id,
                has_output: false,
                finished: false,
            },
        ),
        !closed_within(events, count, events[count - 1].id),
        forall|id: EventId|
            #![trigger closed_within(events, count, id)]
            closed_within(events, count, id) <==> closed_within(events, count - 1, id),
    ensures
        states_match(events, count, next),
{
    assert forall|k: int| 0 <= k < next.len() implies recorded(events, count, #[trigger] next[k]) by {
        if k < calls.len() {
            assert(next[k] == calls[k]);
            let i = lemma_recorder(events, count - 1, calls[k]);
            lemma_is_recorded(events, count, next[k], i);
        } else {
            lemma_is_recorded(events, count, next[k], count - 1);
        }
    }
    assert forall|i: int| 0 <= i < count && (#[trigger] events[i]).body is ToolCall implies has_state(
        next,
        events[i].id,
    ) by {
        if i < count - 1 {
            let k = lemma_state_place(calls, events[i].id);
            lemma_has_state(next, events[i].id, k);
        } else {
            lemma_has_state(next, events[i].id, calls.len() as int);
        }
    }
    assert forall|k: int, l: int| 0 <= k < l < next.len() implies (#[trigger] next[k]).id < (
    #[trigger] next[l]).id by {
        assert(next[k] == calls[k]);
        if l == calls.len() {
            let i = lemma_recorder(events, count - 1, calls[k]);
            assert(events[i].id < events[count - 1].id);
        } else {
            assert(next[l] == calls[l]);
        }
    }
    assert forall|k: int| 0 <= k < next.len() implies ((#[trigger] next[k]).finished
        <==> closed_within(events, count, next[k].id)) by {
        if k < calls.len() {
            assert(next[k] == calls[k]);
        }
    }
}

proof fn lemma_matches_after_mark(
    events: Seq<Event>,
    count: int,
    calls: Seq<ToolCallState>,
    next: Seq<ToolCallState>,
)
    requires
        ids_increase(events),
        0 < count <= events.len(),
        states_match(events, count - 1, calls),
        !(events[count - 1].body is ToolCall),
        next.len() == calls.len(),
        calls.len() <= usize::MAX,
        match events[count - 1].body {
            EventBody::ToolCallResult(result) => {
                &&& call_turn(calls, result.tool_call_id) is Next
                &&& next == with_result(calls, turn_place(calls, result.tool_call_id))
            },
            _ => forall|k: int|
                0 <= k < calls.len() ==> (#[trigger] next[k]).id == calls[k].id
                    && next[k].api_call_id == calls[k].api_call_id && next[k].finished
                    == calls[k].finished,
        },
        forall|id: EventId|
            #![trigger closed_within(events, count, id)]
            closed_within(events, count, id) <==> closed_within(events, count - 1, id)
                || is_result_of(events[count - 1], id),
    ensures
        states_match(events, count, next),
{
    let event = events[count - 1];
    if let EventBody::ToolCallResult(result) = event.body {
        lemma_turn(calls, result.tool_call_id);
    }
    assert forall|k: int| 0 <= k < next.len() implies (#[trigger] next[k]).id == calls[k].id
        && next[k].api_call_id == calls[k].api_call_id by {}
    assert forall|k: int| 0 <= k < next.len() implies recorded(events, count, #[trigger] next[k]) by {
        let i = lemma_recorder(events, count - 1, calls[k]);
        lemma_is_recorded(events, count, next[k], i);
    }
    assert forall|i: int| 0 <= i < count && (#[trigger] events[i]).body is ToolCall implies has_state(
        next,
        events[i].id,
    ) by {
        let k = lemma_state_place(calls, events[i].id);
        lemma_has_state(next, events[i].id, k);
    }
    assert forall|k: int, l: int| 0 <= k < l < next.len() implies (#[trigger] next[k]).id < (
    #[trigger] next[l]).id by {
        assert(calls[k].id < calls[l].id);
    }
    assert forall|k: int| 0 <= k < next.len() implies ((#[trigger] next[k]).finished
        <==> closed_within(events, count, next[k].id)) by {
        if let EventBody::ToolCallResult(result) = event.body {
            let place = turn_place(calls, result.tool_call_id);
            if k != place {
                if k < place {
                    assert(calls[k].id < calls[place].id);
                } else {
                    assert(calls[place].id < calls[k].id);
                }
            }
        }
    }
}

/// What a step does to the states: it adds a call, or it marks the call whose turn it is.
pub proof fn lemma_step_shape(events: Seq<Event>, calls: Seq<ToolCallState>, event: Event)
    requires
        tool_step(events, calls, event) is Ok,
        calls.len() < usize::MAX,
    ensures
        ({
            let next = tool_step(events, calls, event)->Ok_0;
            match event.body {
                EventBody::ToolCall(call) => next == calls.push(
                    ToolCallState {
                        id: event.id,
                        api_call_id: call.api_call_id,
                        has_output: false,
                        finished: false,
                    },
                ),
                EventBody::ToolCallResult(result) => {
                    &&& call_turn(calls, result.tool_call_id) is Next
                    &&& next == with_result(calls, turn_place(calls, result.tool_call_id))
                    &&& 0 <= turn_place(calls, result.tool_call_id) < calls.len()
                },
                _ => next.len() == calls.len() && forall|k: int|
                    0 <= k < calls.len() ==> (#[trigger] next[k]).id == calls[k].id
                        && next[k].api_call_id == calls[k].api_call_id && next[k].finished
                        == calls[k].finished,
            }
        }),
{
    match event.body {
        EventBody::ToolCallResult(result) => {
            lemma_place_of(calls, result.tool_call_id);
        },
        EventBody::ToolInfoUpdate(info) => {
            lemma_place_of(calls, info.tool_call_id);
        },
        EventBody::WorkMapMutation(update) => {
            lemma_place_of(calls, update.tool_call_id);
        },
        EventBody::ImageContent(image) => {
            lemma_place_of(calls, image.tool_call_id);
        },
        EventBody::AgentTitleChanged(change) => {
            if let Some(tool_call) = change.tool_call_id {
                lemma_place_of(calls, tool_call);
            }
        },
        _ => {},
    }
}

proof fn lemma_new_call_not_closed(events: Seq<Event>, count: int)
    requires
        ids_increase(events),
        0 < count <= events.len(),
        tool_states(events, count) is Ok,
        events.len() <= usize::MAX,
        events[count - 1].body is ToolCall,
    ensures
        !closed_within(events, count, events[count - 1].id),
    decreases count, 0int,
{
    let id = events[count - 1].id;
    assert forall|i: int| 0 <= i < count - 1 implies (#[trigger] events[i]).id != id by {}
    lemma_no_result_yet(events, count - 1, id);
    lemma_closed_grows(events, count - 1, id);
}

proof fn lemma_prefix_ok(events: Seq<Event>, early: int, late: int)
    requires
        0 <= early <= late,
        tool_states(events, late) is Ok,
    ensures
        tool_states(events, early) is Ok,
{
    if tool_states(events, early) is Err {
        lemma_tool_error_stays(events, early, late);
    }
}

/// Whether the history keeps the rules of tool calls.
pub open spec fn tool_history_ok(events: Seq<Event>) -> bool {
    ids_increase(events) && events.len() <= usize::MAX && tool_states(events, events.len() as int)
        is Ok
}

/// In a history that keeps the rules, a tool call has at most one result.
pub proof fn law_one_result_per_call(events: Seq<Event>, first: int, second: int, id: EventId)
    requires
        tool_history_ok(events),
        0 <= first < second < events.len(),
        is_result_of(events[first], id),
    ensures
        !is_result_of(events[second], id),
{
    if is_result_of(events[second], id) {
        lemma_prefix_ok(events, second, events.len() as int);
        lemma_prefix_ok(events, second + 1, events.len() as int);
        lemma_states_match(events, second);
        let calls = tool_states(events, second)->Ok_0;
        lemma_step_shape(events, calls, events[second]);
        lemma_turn(calls, id);
        assert(closed_within(events, second, id));
    }
}

/// In a history that keeps the rules, a result belongs to a call that was recorded before it.
pub proof fn law_result_follows_call(events: Seq<Event>, place: int, id: EventId)
    requires
        tool_history_ok(events),
        0 <= place < events.len(),
        is_result_of(events[place], id),
    ensures
        exists|i: int|
            0 <= i < place && (#[trigger] events[i]).id == id && events[i].body is ToolCall,
{
    lemma_prefix_ok(events, place, events.len() as int);
    lemma_prefix_ok(events, place + 1, events.len() as int);
    lemma_states_match(events, place);
    let calls = tool_states(events, place)->Ok_0;
    lemma_step_shape(events, calls, events[place]);
    lemma_turn(calls, id);
    let k = turn_place(calls, id);
    let i = lemma_recorder(events, place, calls[k]);
    assert(events[i].id == id && events[i].body is ToolCall);
}

/// In a history that keeps the rules, every tool call has its result before the next request.
pub proof fn law_request_waits_for_results(events: Seq<Event>, call: int, request: int)
    requires
        tool_history_ok(events),
        0 <= call < request < events.len(),
        events[call].body is ToolCall,
        events[request].body matches EventBody::ApiStateUpdate(update) && update.state
            == ApiState::Requesting,
    ensures
        closed_within(events, request, events[call].id),
{
    lemma_prefix_ok(events, request, events.len() as int);
    lemma_prefix_ok(events, request + 1, events.len() as int);
    lemma_states_match(events, request);
    let calls = tool_states(events, request)->Ok_0;
    lemma_first_open(calls, None, false);
    let k = lemma_state_place(calls, events[call].id);
    assert(!open_in(calls[k], None, false));
}

/// In a history that keeps the rules, the calls of a batch are closed in the order in which the
/// batch has them.
pub proof fn law_batch_closes_in_order(events: Seq<Event>, early: int, late: int, result: int)
    requires
        tool_history_ok(events),
        0 <= early < late < events.len(),
        0 <= result < events.len(),
        events[early].body matches EventBody::ToolCall(first) && events[late].body matches EventBody::ToolCall(
            second,
        ) && first.api_call_id == second.api_call_id,
        is_result_of(events[result], events[late].id),
    ensures
        closed_within(events, result, events[early].id),
{
    lemma_prefix_ok(events, result, events.len() as int);
    lemma_prefix_ok(events, result + 1, events.len() as int);
    lemma_states_match(events, result);
    let calls = tool_states(events, result)->Ok_0;
    let id = events[late].id;
    lemma_step_shape(events, calls, events[result]);
    lemma_turn(calls, id);
    let place = turn_place(calls, id);
    let i = lemma_recorder(events, result, calls[place]);
    assert(i == late) by {
        if i < late {
            assert(events[i].id < events[late].id);
        } else if late < i {
            assert(events[late].id < events[i].id);
        }
    }
    let k = lemma_state_place(calls, events[early].id);
    let j = lemma_recorder(events, result, calls[k]);
    assert(j == early) by {
        if j < early {
            assert(events[j].id < events[early].id);
        } else if early < j {
            assert(events[early].id < events[j].id);
        }
    }
    assert(calls[k].id < calls[place].id);
    if place <= k {
        if place < k {
            assert(calls[place].id < calls[k].id);
        }
    }
    assert(calls[k].finished);
}

} // verus!
