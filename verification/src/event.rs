//! The history of a conversation: its events, and the log that holds them.
use vstd::prelude::*;

verus! {

/// The identity of an event. Identities grow along the log and are never used twice.
pub type EventId = u64;

/// The identity that no event ever has: it stands for "no turn is to be aborted".
pub const NO_ABORT_TARGET: u64 = 0xffff_ffff_ffff_ffff;

/// A value that another part of the program computed, or why it could not.
#[derive(Clone, Debug)]
pub enum Computed<T> {
    Value(T),
    Failure(String),
}

/// Who an agent works for.
#[derive(Clone, Copy, Debug, PartialEq, Eq, Structural)]
pub enum AgentKind {
    Interactive,
    SubAgent,
}

/// How far a turn of an agent has come.
#[derive(Clone, Copy, Debug, PartialEq, Eq, Structural)]
pub enum AgentTurnState {
    Started,
    Completed,
    Interrupted,
    Failed,
}

/// How far a request to a model has come.
#[derive(Clone, Copy, Debug, PartialEq, Eq, Structural)]
pub enum ApiState {
    Requesting,
    Streaming,
    Retrying,
    Completed,
    Error,
    Interrupted,
}

/// How a tool call ended.
#[derive(Clone, Copy, Debug, PartialEq, Eq, Structural)]
pub enum ToolResultState {
    Succeeded,
    Failed,
    Interrupted,
}

/// Where a tool wrote its output.
#[derive(Clone, Copy, Debug, PartialEq, Eq, Structural)]
pub enum ToolOutputStream {
    Stdout,
    Stderr,
    Terminal,
}

/// How a terminal session stands.
#[derive(Clone, Copy, Debug, PartialEq, Eq, Structural)]
pub enum TerminalSessionState {
    Running,
    Exited,
    Lost,
}

/// Why a model became the current one.
#[derive(Clone, Copy, Debug, PartialEq, Eq, Structural)]
pub enum ModelChangeCause {
    Initial,
    User,
}

/// Why a reasoning effort became the current one.
#[derive(Clone, Copy, Debug, PartialEq, Eq, Structural)]
pub enum ReasoningEffortChangeCause {
    Initial,
    User,
    ModelUnsupported,
}

/// How a conversation is compacted.
#[derive(Clone, Copy, Debug, PartialEq, Eq, Structural)]
pub enum CompactKind {
    MainAgentMultiTurn,
    ManagerMultiTurn,
    WorkerSingleTurn,
}

/// A stage of a compaction that takes several requests.
#[derive(Clone, Copy, Debug, PartialEq, Eq, Structural)]
pub enum CompactStage {
    Analysis,
    PrimaryRequest,
    TechnicalContext,
    FilesAndArtifacts,
    Problems,
    CurrentState,
    ActiveToolSessions,
}

/// How far a compaction has come.
#[derive(Clone, Copy, Debug, PartialEq, Eq, Structural)]
pub enum CompactState {
    Started,
    StageCompleted,
    Completed,
    Failed,
    Interrupted,
}

/// The tokens that a provider charged for a request.
#[derive(Clone, Copy, Debug, PartialEq, Eq, Structural)]
pub struct ApiUsage {
    pub input_tokens: u64,
    pub output_tokens: u64,
    pub total_tokens: u64,
}

impl AgentTurnState {
    pub open spec fn terminal(self) -> bool {
        self != AgentTurnState::Started
    }

    pub fn is_terminal(self) -> (result: bool)
        ensures
            result == self.terminal(),
    {
        self != AgentTurnState::Started
    }
}

impl ApiState {
    pub open spec fn terminal(self) -> bool {
        self == ApiState::Completed || self == ApiState::Error || self == ApiState::Interrupted
    }

    pub fn is_terminal(self) -> (result: bool)
        ensures
            result == self.terminal(),
    {
        self == ApiState::Completed || self == ApiState::Error || self == ApiState::Interrupted
    }

    pub open spec fn name(self) -> Seq<char> {
        match self {
            ApiState::Requesting => "requesting"@,
            ApiState::Streaming => "streaming"@,
            ApiState::Retrying => "retrying"@,
            ApiState::Completed => "completed"@,
            ApiState::Error => "error"@,
            ApiState::Interrupted => "interrupted"@,
        }
    }

    /// The name under which the state is shown.
    pub fn label(self) -> (name: &'static str)
        ensures
            name@ == self.name(),
    {
        match self {
            ApiState::Requesting => "requesting",
            ApiState::Streaming => "streaming",
            ApiState::Retrying => "retrying",
            ApiState::Completed => "completed",
            ApiState::Error => "error",
            ApiState::Interrupted => "interrupted",
        }
    }
}

impl ToolResultState {
    pub open spec fn name(self) -> Seq<char> {
        match self {
            ToolResultState::Succeeded => "succeeded"@,
            ToolResultState::Failed => "failed"@,
            ToolResultState::Interrupted => "interrupted"@,
        }
    }

    /// The name under which the state is shown.
    pub fn label(self) -> (name: &'static str)
        ensures
            name@ == self.name(),
    {
        match self {
            ToolResultState::Succeeded => "succeeded",
            ToolResultState::Failed => "failed",
            ToolResultState::Interrupted => "interrupted",
        }
    }
}

impl ToolOutputStream {
    pub open spec fn name(self) -> Seq<char> {
        match self {
            ToolOutputStream::Stdout => "stdout"@,
            ToolOutputStream::Stderr => "stderr"@,
            ToolOutputStream::Terminal => "terminal"@,
        }
    }

    /// The name under which the stream is shown.
    pub fn label(self) -> (name: &'static str)
        ensures
            name@ == self.name(),
    {
        match self {
            ToolOutputStream::Stdout => "stdout",
            ToolOutputStream::Stderr => "stderr",
            ToolOutputStream::Terminal => "terminal",
        }
    }
}

impl TerminalSessionState {
    pub open spec fn terminal(self) -> bool {
        self != TerminalSessionState::Running
    }

    pub fn is_terminal(self) -> (result: bool)
        ensures
            result == self.terminal(),
    {
        self != TerminalSessionState::Running
    }

    pub open spec fn name(self) -> Seq<char> {
        match self {
            TerminalSessionState::Running => "running"@,
            TerminalSessionState::Exited => "exited"@,
            TerminalSessionState::Lost => "lost"@,
        }
    }

    /// The name under which the state is shown.
    pub fn label(self) -> (name: &'static str)
        ensures
            name@ == self.name(),
    {
        match self {
            TerminalSessionState::Running => "running",
            TerminalSessionState::Exited => "exited",
            TerminalSessionState::Lost => "lost",
        }
    }
}

impl CompactKind {
    pub open spec fn multi_turn(self) -> bool {
        self != CompactKind::WorkerSingleTurn
    }

    pub fn is_multi_turn(self) -> (result: bool)
        ensures
            result == self.multi_turn(),
    {
        self != CompactKind::WorkerSingleTurn
    }
}

/// The first event of a log: what agent it belongs to.
#[derive(Clone, Debug)]
pub struct AgentKindDef {
    pub kind: AgentKind,
    pub orchestrator: String,
    pub parent_agent_id: Option<String>,
    pub system_prompt: Option<String>,
}

/// A step of a turn.
#[derive(Clone, Debug)]
pub struct AgentTurn {
    pub turn_id: EventId,
    pub prompt_id: EventId,
    pub state: AgentTurnState,
    pub detail: String,
}

/// A prompt that the user added to a running turn.
#[derive(Clone, Debug)]
pub struct FollowUpPrompt {
    pub prompt_id: EventId,
    pub content: String,
}

/// A part of the model's answer.
#[derive(Clone, Debug)]
pub struct AssistResponse {
    pub prompt_id: EventId,
    pub content: String,
    pub finished: bool,
}

/// A step of a model request.
#[derive(Clone, Debug)]
pub struct ApiStateUpdate {
    pub api_call_id: EventId,
    pub prompt_id: EventId,
    pub state: ApiState,
    pub retry_count: u8,
    pub retry_limit: u8,
    pub usage: Option<ApiUsage>,
    pub detail: String,
}

/// How the tokens of a request divide over the context; `sum` is their sum.
#[derive(Clone, Copy, Debug)]
pub struct ContextUsageEstimate {
    pub api_state_event_id: EventId,
    pub sum: u64,
}

/// The user's abort of a turn. `active_before` is the turn that the events before this one leave
/// active, or why that cannot be said.
#[derive(Clone, Debug)]
pub struct UserTurnAborted {
    pub prompt_id: EventId,
    pub active_before: Computed<Option<EventId>>,
}

/// What the tool boxes say of a tool by its name and arguments.
#[derive(Clone, Copy, Debug, PartialEq, Eq, Structural)]
pub struct ToolTraits {
    pub workmap: bool,
    pub stores_image: bool,
    pub requires_image: bool,
}

/// A tool call that a model asked for.
#[derive(Clone, Debug)]
pub struct ToolCall {
    pub api_call_id: EventId,
    pub prompt_id: EventId,
    pub provider_call_id: String,
    pub name: String,
    pub arguments: String,
    pub traits: ToolTraits,
}

/// Output of a running tool. A terminal update carries the JSON text of its model form.
#[derive(Clone, Debug)]
pub enum ToolInfoContent {
    Text(String),
    Terminal(String),
}

/// A piece of output of a running tool.
#[derive(Clone, Debug)]
pub struct ToolInfoUpdate {
    pub tool_call_id: EventId,
    pub stream: ToolOutputStream,
    pub content: ToolInfoContent,
}

/// The end of a tool call.
#[derive(Clone, Debug)]
pub struct ToolCallResult {
    pub tool_call_id: EventId,
    pub state: ToolResultState,
    pub exit_code: Option<i32>,
    pub detail: String,
}

/// The birth of a terminal session.
#[derive(Clone, Debug)]
pub struct TerminalSessionCreated {
    pub tool_call_id: EventId,
    pub session_id: String,
    pub shell: String,
    pub cwd: String,
    pub width: u16,
    pub height: u16,
}

/// A change of a terminal session.
#[derive(Clone, Debug)]
pub struct TerminalSessionUpdate {
    pub session_id: String,
    pub state: TerminalSessionState,
    pub exit_code: Option<i32>,
}

/// An item that a provider wants back in later requests, as JSON text.
#[derive(Clone, Debug)]
pub struct ModelContextItem {
    pub api_call_id: EventId,
    pub prompt_id: EventId,
    pub provider: String,
    pub content: String,
}

/// A change of the current model.
#[derive(Clone, Debug)]
pub struct ModelChanged {
    pub model: String,
    pub cause: ModelChangeCause,
}

/// A change of the current reasoning effort.
#[derive(Clone, Debug)]
pub struct ReasoningEffortChanged {
    pub effort: String,
    pub cause: ReasoningEffortChangeCause,
}

/// A change of the work map. `operation_tool` is the tool that makes changes of this operation.
#[derive(Clone, Debug)]
pub struct WorkMapMutation {
    pub tool_call_id: EventId,
    pub operation: String,
    pub operation_tool: String,
}

/// A reminder of open work. `work_before` says whether the events before the reminder leave work
/// open, or why that cannot be said.
#[derive(Clone, Debug)]
pub struct WorkMapPendingReminder {
    pub prompt_id: EventId,
    pub work_before: Computed<bool>,
}

/// A step of a compaction. `accepted_count` says whether the kind allows that many stages,
/// `stages` is the plan of stages that the kind has for that count, and `merged_summary` is the
/// summary that the sections in `merged_sections` give.
#[derive(Clone, Debug)]
pub struct CompactStateUpdate {
    pub compact_id: EventId,
    pub tool_call_id: EventId,
    pub prompt_id: EventId,
    pub kind: CompactKind,
    pub total_stages: u8,
    pub stage: Option<CompactStage>,
    pub state: CompactState,
    pub content: String,
    pub detail: String,
    pub accepted_count: bool,
    pub stages: Option<Vec<CompactStage>>,
    pub merged_sections: Vec<String>,
    pub merged_summary: String,
}

/// A change of the agent's title, by a tool call or, without one, by the host. `normalized` is
/// the canonical form of the title, `requested` that of the title that the tool call asks for.
#[derive(Clone, Debug)]
pub struct AgentTitleChanged {
    pub tool_call_id: Option<EventId>,
    pub title: String,
    pub normalized: Computed<String>,
    pub requested: Computed<String>,
}

/// An image that a tool stored. `png` is its form for a model as PNG, or why it has none.
#[derive(Clone, Debug)]
pub struct ImageContent {
    pub tool_call_id: EventId,
    pub source: String,
    pub format: String,
    pub width: u32,
    pub height: u32,
    pub content_sha256: String,
    pub png: Computed<Vec<u8>>,
}

/// What an event says.
#[derive(Clone, Debug)]
pub enum EventBody {
    AgentKindDef(AgentKindDef),
    AgentTurn(AgentTurn),
    SystemPrompt(String),
    UserPrompt(String),
    ManagerPrompt(String),
    ParentAgentPrompt(String),
    FollowUpPrompt(FollowUpPrompt),
    AssistResponse(AssistResponse),
    ApiStateUpdate(ApiStateUpdate),
    ContextUsageEstimate(ContextUsageEstimate),
    UserTurnAborted(UserTurnAborted),
    ToolCall(ToolCall),
    ToolInfoUpdate(ToolInfoUpdate),
    ToolCallResult(ToolCallResult),
    TerminalSessionCreated(TerminalSessionCreated),
    TerminalSessionState(TerminalSessionUpdate),
    ModelContextItem(ModelContextItem),
    ModelChanged(ModelChanged),
    ReasoningEffortChanged(ReasoningEffortChanged),
    ContextCleared,
    WorkMapMutation(WorkMapMutation),
    WorkMapPendingReminder(WorkMapPendingReminder),
    CompactStateUpdate(CompactStateUpdate),
    AgentTitleChanged(AgentTitleChanged),
    CloneCompleted(String),
    ImageContent(ImageContent),
}

/// An event of the history.
#[derive(Clone, Debug)]
pub struct Event {
    pub id: EventId,
    pub body: EventBody,
}

/// What kind of event an event is.
#[derive(Clone, Copy, Debug, PartialEq, Eq, Structural)]
pub enum EventKind {
    AgentKindDef,
    AgentTurn,
    SystemPrompt,
    UserPrompt,
    ManagerPrompt,
    ParentAgentPrompt,
    FollowUpPrompt,
    AssistResponse,
    ApiStateUpdate,
    ContextUsageEstimate,
    UserTurnAborted,
    ToolCall,
    ToolInfoUpdate,
    ToolCallResult,
    TerminalSessionCreated,
    TerminalSessionState,
    ModelContextItem,
    ModelChanged,
    ReasoningEffortChanged,
    ContextCleared,
    WorkMapMutation,
    WorkMapPendingReminder,
    CompactStateUpdate,
    AgentTitleChanged,
    CloneCompleted,
    ImageContent,
}

impl EventKind {
    pub open spec fn name(self) -> Seq<char> {
        match self {
            EventKind::AgentKindDef => "AgentKindDef"@,
            EventKind::AgentTurn => "AgentTurn"@,
            EventKind::SystemPrompt => "SystemPrompt"@,
            EventKind::UserPrompt => "UserPrompt"@,
            EventKind::ManagerPrompt => "ManagerPrompt"@,
            EventKind::ParentAgentPrompt => "ParentAgentPrompt"@,
            EventKind::FollowUpPrompt => "FollowUpPrompt"@,
            EventKind::AssistResponse => "AssistResponse"@,
            EventKind::ApiStateUpdate => "ApiStateUpdate"@,
            EventKind::ContextUsageEstimate => "ContextUsageEstimate"@,
            EventKind::UserTurnAborted => "UserTurnAborted"@,
            EventKind::ToolCall => "ToolCall"@,
            EventKind::ToolInfoUpdate => "ToolInfoUpdate"@,
            EventKind::ToolCallResult => "ToolCallResult"@,
            EventKind::TerminalSessionCreated => "TerminalSessionCreated"@,
            EventKind::TerminalSessionState => "TerminalSessionState"@,
            EventKind::ModelContextItem => "ModelContextItem"@,
            EventKind::ModelChanged => "ModelChanged"@,
            EventKind::ReasoningEffortChanged => "ReasoningEffortChanged"@,
            EventKind::ContextCleared => "ContextCleared"@,
            EventKind::WorkMapMutation => "WorkMapMutation"@,
            EventKind::WorkMapPendingReminder => "WorkMapPendingReminder"@,
            EventKind::CompactStateUpdate => "CompactStateUpdate"@,
            EventKind::AgentTitleChanged => "AgentTitleChanged"@,
            EventKind::CloneCompleted => "CloneCompleted"@,
            EventKind::ImageContent => "ImageContent"@,
        }
    }

    /// The name under which the kind is shown.
    pub fn label(self) -> (name: &'static str)
        ensures
            name@ == self.name(),
    {
        match self {
            EventKind::AgentKindDef => "AgentKindDef",
            EventKind::AgentTurn => "AgentTurn",
            EventKind::SystemPrompt => "SystemPrompt",
            EventKind::UserPrompt => "UserPrompt",
            EventKind::ManagerPrompt => "ManagerPrompt",
            EventKind::ParentAgentPrompt => "ParentAgentPrompt",
            EventKind::FollowUpPrompt => "FollowUpPrompt",
            EventKind::AssistResponse => "AssistResponse",
            EventKind::ApiStateUpdate => "ApiStateUpdate",
            EventKind::ContextUsageEstimate => "ContextUsageEstimate",
            EventKind::UserTurnAborted => "UserTurnAborted",
            EventKind::ToolCall => "ToolCall",
            EventKind::ToolInfoUpdate => "ToolInfoUpdate",
            EventKind::ToolCallResult => "ToolCallResult",
            EventKind::TerminalSessionCreated => "TerminalSessionCreated",
            EventKind::TerminalSessionState => "TerminalSessionState",
            EventKind::ModelContextItem => "ModelContextItem",
            EventKind::ModelChanged => "ModelChanged",
            EventKind::ReasoningEffortChanged => "ReasoningEffortChanged",
            EventKind::ContextCleared => "ContextCleared",
            EventKind::WorkMapMutation => "WorkMapMutation",
            EventKind::WorkMapPendingReminder => "WorkMapPendingReminder",
            EventKind::CompactStateUpdate => "CompactStateUpdate",
            EventKind::AgentTitleChanged => "AgentTitleChanged",
            EventKind::CloneCompleted => "CloneCompleted",
            EventKind::ImageContent => "ImageContent",
        }
    }
}

impl Event {
    pub open spec fn kind_of(self) -> EventKind {
        match self.body {
            EventBody::AgentKindDef(_) => EventKind::AgentKindDef,
            EventBody::AgentTurn(_) => EventKind::AgentTurn,
            EventBody::SystemPrompt(_) => EventKind::SystemPrompt,
            EventBody::UserPrompt(_) => EventKind::UserPrompt,
            EventBody::ManagerPrompt(_) => EventKind::ManagerPrompt,
            EventBody::ParentAgentPrompt(_) => EventKind::ParentAgentPrompt,
            EventBody::FollowUpPrompt(_) => EventKind::FollowUpPrompt,
            EventBody::AssistResponse(_) => EventKind::AssistResponse,
            EventBody::ApiStateUpdate(_) => EventKind::ApiStateUpdate,
            EventBody::ContextUsageEstimate(_) => EventKind::ContextUsageEstimate,
            EventBody::UserTurnAborted(_) => EventKind::UserTurnAborted,
            EventBody::ToolCall(_) => EventKind::ToolCall,
            EventBody::ToolInfoUpdate(_) => EventKind::ToolInfoUpdate,
            EventBody::ToolCallResult(_) => EventKind::ToolCallResult,
            EventBody::TerminalSessionCreated(_) => EventKind::TerminalSessionCreated,
            EventBody::TerminalSessionState(_) => EventKind::TerminalSessionState,
            EventBody::ModelContextItem(_) => EventKind::ModelContextItem,
            EventBody::ModelChanged(_) => EventKind::ModelChanged,
            EventBody::ReasoningEffortChanged(_) => EventKind::ReasoningEffortChanged,
            EventBody::ContextCleared => EventKind::ContextCleared,
            EventBody::WorkMapMutation(_) => EventKind::WorkMapMutation,
            EventBody::WorkMapPendingReminder(_) => EventKind::WorkMapPendingReminder,
            EventBody::CompactStateUpdate(_) => EventKind::CompactStateUpdate,
            EventBody::AgentTitleChanged(_) => EventKind::AgentTitleChanged,
            EventBody::CloneCompleted(_) => EventKind::CloneCompleted,
            EventBody::ImageContent(_) => EventKind::ImageContent,
        }
    }

    /// What kind of event this is.
    pub fn kind(&self) -> (kind: EventKind)
        ensures
            kind == self.kind_of(),
    {
        match &self.body {
            EventBody::AgentKindDef(_) => EventKind::AgentKindDef,
            EventBody::AgentTurn(_) => EventKind::AgentTurn,
            EventBody::SystemPrompt(_) => EventKind::SystemPrompt,
            EventBody::UserPrompt(_) => EventKind::UserPrompt,
            EventBody::ManagerPrompt(_) => EventKind::ManagerPrompt,
            EventBody::ParentAgentPrompt(_) => EventKind::ParentAgentPrompt,
            EventBody::FollowUpPrompt(_) => EventKind::FollowUpPrompt,
            EventBody::AssistResponse(_) => EventKind::AssistResponse,
            EventBody::ApiStateUpdate(_) => EventKind::ApiStateUpdate,
            EventBody::ContextUsageEstimate(_) => EventKind::ContextUsageEstimate,
            EventBody::UserTurnAborted(_) => EventKind::UserTurnAborted,
            EventBody::ToolCall(_) => EventKind::ToolCall,
            EventBody::ToolInfoUpdate(_) => EventKind::ToolInfoUpdate,
            EventBody::ToolCallResult(_) => EventKind::ToolCallResult,
            EventBody::TerminalSessionCreated(_) => EventKind::TerminalSessionCreated,
            EventBody::TerminalSessionState(_) => EventKind::TerminalSessionState,
            EventBody::ModelContextItem(_) => EventKind::ModelContextItem,
            EventBody::ModelChanged(_) => EventKind::ModelChanged,
            EventBody::ReasoningEffortChanged(_) => EventKind::ReasoningEffortChanged,
            EventBody::ContextCleared => EventKind::ContextCleared,
            EventBody::WorkMapMutation(_) => EventKind::WorkMapMutation,
            EventBody::WorkMapPendingReminder(_) => EventKind::WorkMapPendingReminder,
            EventBody::CompactStateUpdate(_) => EventKind::CompactStateUpdate,
            EventBody::AgentTitleChanged(_) => EventKind::AgentTitleChanged,
            EventBody::CloneCompleted(_) => EventKind::CloneCompleted,
            EventBody::ImageContent(_) => EventKind::ImageContent,
        }
    }

    pub open spec fn root_prompt(self) -> bool {
        self.body is UserPrompt || self.body is ManagerPrompt || self.body is ParentAgentPrompt
    }

    /// Whether the event is a prompt that begins a turn.
    pub fn is_root_prompt(&self) -> (result: bool)
        ensures
            result == self.root_prompt(),
    {
        match &self.body {
            EventBody::UserPrompt(_) => true,
            EventBody::ManagerPrompt(_) => true,
            EventBody::ParentAgentPrompt(_) => true,
            _ => false,
        }
    }
}

/// Whether the identities grow along the events.
pub open spec fn ids_increase(events: Seq<Event>) -> bool {
    forall|i: int, j: int| 0 <= i < j < events.len() ==> #[trigger] events[i].id < #[trigger] events[j].id
}

/// The order of the event with this identity.
pub open spec fn order_of(events: Seq<Event>, id: EventId) -> Option<int>
    decreases events.len(),
{
    if events.len() == 0 {
        None
    } else {
        match order_of(events.drop_last(), id) {
            Some(order) => Some(order),
            None => if events.last().id == id {
                Some(events.len() - 1)
            } else {
                None
            },
        }
    }
}

/// The event with this identity.
pub open spec fn event_with(events: Seq<Event>, id: EventId) -> Option<Event> {
    match order_of(events, id) {
        Some(order) => Some(events[order]),
        None => None,
    }
}

/// The order is that of the first event with the identity, and there is none only where no event
/// has it.
pub proof fn lemma_order_of(events: Seq<Event>, id: EventId)
    ensures
        order_of(events, id) matches Some(order) ==> 0 <= order < events.len() && events[order].id
            == id && forall|i: int| 0 <= i < order ==> events[i].id != id,
        order_of(events, id) is None ==> forall|i: int| 0 <= i < events.len() ==> events[i].id != id,
    decreases events.len(),
{
    if events.len() > 0 {
        let front = events.drop_last();
        lemma_order_of(front, id);
        assert forall|i: int| 0 <= i < front.len() implies front[i] == events[i] by {}
        if order_of(front, id) is None {
            assert forall|i: int| 0 <= i < events.len() - 1 implies events[i].id != id by {
                assert(front[i].id != id);
            }
        }
    }
}

/// Where identities grow, an event is found at its own order.
pub proof fn lemma_order_of_event(events: Seq<Event>, order: int)
    requires
        ids_increase(events),
        0 <= order < events.len(),
    ensures
        order_of(events, events[order].id) == Some(order),
{
    lemma_order_of(events, events[order].id);
}

/// Events that are added later do not change what is found of the earlier ones.
pub proof fn lemma_event_with_push(events: Seq<Event>, event: Event, id: EventId)
    ensures
        event_with(events, id) is Some ==> event_with(events.push(event), id) == event_with(
            events,
            id,
        ),
        event_with(events, id) is None && event.id == id ==> event_with(events.push(event), id)
            == Some(event),
        event_with(events, id) is None && event.id != id ==> event_with(events.push(event), id)
            is None,
{
    assert(events.push(event).drop_last() =~= events);
    lemma_order_of(events, id);
}

/// The first failure of a check over the first places.
pub open spec fn first_failure<E>(check: spec_fn(int) -> Option<E>, count: int) -> Option<E>
    decreases count,
{
    if count <= 0 {
        None
    } else {
        match first_failure(check, count - 1) {
            Some(error) => Some(error),
            None => check(count - 1),
        }
    }
}

/// A failure that was found stays the first one.
pub proof fn lemma_failure_stays<E>(check: spec_fn(int) -> Option<E>, early: int, late: int)
    requires
        0 <= early <= late,
        first_failure(check, early) is Some,
    ensures
        first_failure(check, late) == first_failure(check, early),
    decreases late,
{
    if early < late {
        lemma_failure_stays(check, early, late - 1);
    }
}

/// Nothing fails exactly if no place does.
pub proof fn lemma_no_failure<E>(check: spec_fn(int) -> Option<E>, count: int)
    ensures
        first_failure(check, count) is None <==> forall|i: int|
            0 <= i < count ==> #[trigger] check(i) is None,
    decreases count,
{
    if count > 0 {
        lemma_no_failure(check, count - 1);
        if first_failure(check, count) is None {
            assert forall|i: int| 0 <= i < count implies #[trigger] check(i) is None by {
                if i < count - 1 {
                    assert(check(i) is None);
                }
            }
        } else if first_failure(check, count - 1) is None {
            assert(check(count - 1) is Some);
        } else {
            let i = choose|i: int| 0 <= i < count - 1 && !(#[trigger] check(i) is None);
            assert(check(i) is Some);
        }
    }
}

/// A change of the log that is not an addition.
#[derive(Clone, Debug, PartialEq, Eq)]
pub enum EdbMutation {
    Rewind { target_event_id: EventId, restored_prompt_content: Option<String> },
    Regenerate { final_answer_event_id: EventId, prompt_id: EventId },
}

/// The log of a conversation.
pub struct EventDataBase {
    pub events: Vec<Event>,
    pub next_id: EventId,
    pub mutation_revision: u64,
    pub last_mutation: Option<EdbMutation>,
}

impl View for EventDataBase {
    type V = Seq<Event>;

    open spec fn view(&self) -> Seq<Event> {
        self.events@
    }
}

impl EventDataBase {
    /// The identities grow, and the next one is new.
    pub open spec fn wf(&self) -> bool {
        &&& ids_increase(self@)
        &&& forall|i: int| 0 <= i < self@.len() ==> #[trigger] self@[i].id < self.next_id
    }

    /// Whether so many events can still be added.
    pub open spec fn room(&self, count: int) -> bool {
        self.next_id + count <= NO_ABORT_TARGET
    }

    /// Whether this log is the earlier one with so many events added.
    pub open spec fn grown(&self, earlier: &EventDataBase, count: int) -> bool {
        &&& count >= 0
        &&& self@.len() == earlier@.len() + count
        &&& self@.take(earlier@.len() as int) == earlier@
        &&& forall|k: int|
            earlier@.len() <= k < self@.len() ==> (#[trigger] self@[k]).id == earlier.next_id + (k
                - earlier@.len())
        &&& self.next_id == earlier.next_id + count
        &&& self.mutation_revision == earlier.mutation_revision
        &&& self.last_mutation == earlier.last_mutation
    }

    /// What the added event at this place says.
    pub open spec fn added(&self, earlier: &EventDataBase, place: int) -> EventBody {
        self@[earlier@.len() + place].body
    }

    /// An empty log.
    pub fn new() -> (edb: EventDataBase)
        ensures
            edb.wf(),
            edb@ == Seq::<Event>::empty(),
            edb.next_id == 0,
            edb.mutation_revision == 0,
            edb.last_mutation is None,
    {
        EventDataBase { events: Vec::new(), next_id: 0, mutation_revision: 0, last_mutation: None }
    }

    pub fn len(&self) -> (count: usize)
        ensures
            count == self@.len(),
    {
        self.events.len()
    }

    pub fn is_empty(&self) -> (empty: bool)
        ensures
            empty == (self@.len() == 0),
    {
        self.events.len() == 0
    }

    /// The order of the event with this identity.
    pub fn order_of(&self, id: EventId) -> (order: Option<usize>)
        ensures
            order matches Some(place) ==> place < self@.len() && order_of(self@, id) == Some(
                place as int,
            ),
            order is None ==> order_of(self@, id) is None,
    {
        find_order(&self.events, id)
    }

    /// The event with this identity.
    pub fn get(&self, id: EventId) -> (event: Option<&Event>)
        ensures
            event matches Some(found) ==> event_with(self@, id) == Some(*found) && self@.contains(
                *found,
            ),
            event is None ==> event_with(self@, id) is None,
    {
        find_event(&self.events, id)
    }

    /// The event at this order.
    pub fn event_at_order(&self, order: usize) -> (event: Option<&Event>)
        ensures
            event matches Some(found) ==> order < self@.len() && *found == self@[order as int],
            event is None ==> order >= self@.len(),
    {
        if order < self.events.len() {
            Some(&self.events[order])
        } else {
            None
        }
    }

    /// Adds an event under the next identity.
    pub fn append(&mut self, body: EventBody) -> (id: EventId)
        requires
            old(self).room(1),
        ensures
            id == old(self).next_id,
            final(self)@ == old(self)@.push(Event { id, body }),
            final(self).grown(old(self), 1),
            old(self).wf() ==> final(self).wf(),
    {
        let id: EventId = self.next_id;
        self.events.push(Event { id, body });
        self.next_id = id + 1;
        assert(self@.take(old(self)@.len() as int) =~= old(self)@);
        id
    }

    /// Takes the event and all that follow it out of the log. The identities of what was taken
    /// out are not used again. Nothing happens where there is no such event.
    pub fn rewind_to_event(&mut self, target: EventId) -> (found: bool)
        requires
            old(self).mutation_revision < u64::MAX,
        ensures
            found == (order_of(old(self)@, target) is Some),
            !found ==> *final(self) == *old(self),
            order_of(old(self)@, target) matches Some(order) ==> {
                &&& final(self)@ == old(self)@.take(order)
                &&& final(self).next_id == old(self).next_id
                &&& final(self).mutation_revision == old(self).mutation_revision + 1
                &&& final(self).last_mutation matches Some(EdbMutation::Rewind {
                    target_event_id,
                    restored_prompt_content,
                })
                &&& target_event_id == target
                &&& match old(self)@[order].body {
                    EventBody::UserPrompt(content) => restored_prompt_content == Some(content),
                    _ => restored_prompt_content is None,
                }
            },
            old(self).wf() ==> final(self).wf(),
    {
        match find_order(&self.events, target) {
            None => false,
            Some(order) => {
                proof {
                    lemma_order_of(self@, target);
                }
                let restored = match &self.events[order].body {
                    EventBody::UserPrompt(content) => Some(content.clone()),
                    _ => None,
                };
                self.events.truncate(order);
                self.mutation_revision = self.mutation_revision + 1;
                self.last_mutation = Some(
                    EdbMutation::Rewind {
                        target_event_id: target,
                        restored_prompt_content: restored,
                    },
                );
                assert(self@ =~= old(self)@.take(order as int));
                true
            },
        }
    }
}

/// Two additions, one after the other, are one addition of both.
pub proof fn lemma_grown_twice(
    first: &EventDataBase,
    second: &EventDataBase,
    third: &EventDataBase,
    one: int,
    two: int,
)
    requires
        second.grown(first, one),
        third.grown(second, two),
    ensures
        third.grown(first, one + two),
        forall|k: int| 0 <= k < one ==> #[trigger] third.added(first, k) == second.added(first, k),
        forall|k: int| 0 <= k < two ==> #[trigger] third.added(second, k) == third.added(
            first,
            one + k,
        ),
{
    assert(third@.take(first@.len() as int) =~= first@) by {
        assert forall|i: int| 0 <= i < first@.len() implies third@[i] == first@[i] by {
            assert(third@.take(second@.len() as int)[i] == second@[i]);
            assert(second@.take(first@.len() as int)[i] == first@[i]);
        }
    }
    assert forall|k: int| first@.len() <= k < third@.len() implies (#[trigger] third@[k]).id
        == first.next_id + (k - first@.len()) by {
        if k < second@.len() {
            assert(third@.take(second@.len() as int)[k] == second@[k]);
        }
    }
    assert forall|k: int| 0 <= k < one implies #[trigger] third.added(first, k) == second.added(
        first,
        k,
    ) by {
        assert(third@.take(second@.len() as int)[first@.len() + k] == second@[first@.len() + k]);
    }
}

/// An addition keeps the log well formed.
pub proof fn lemma_grown_wf(earlier: &EventDataBase, later: &EventDataBase, count: int)
    requires
        earlier.wf(),
        later.grown(earlier, count),
    ensures
        later.wf(),
{
    assert forall|i: int| 0 <= i < earlier@.len() implies later@[i] == earlier@[i] by {
        assert(later@.take(earlier@.len() as int)[i] == earlier@[i]);
    }
}

/// The order of the event with this identity.
pub fn find_order(events: &Vec<Event>, id: EventId) -> (order: Option<usize>)
    ensures
        order matches Some(place) ==> place < events@.len() && order_of(events@, id) == Some(
            place as int,
        ),
        order is None ==> order_of(events@, id) is None,
{
    let mut place: usize = 0;
    while place < events.len()
        invariant
            place <= events.len(),
            forall|i: int| 0 <= i < place ==> events@[i].id != id,
        decreases events.len() - place,
    {
        if events[place].id == id {
            proof {
                lemma_order_of(events@, id);
            }
            return Some(place);
        }
        place += 1;
    }
    proof {
        lemma_order_of(events@, id);
    }
    None
}

/// The event with this identity.
pub fn find_event(events: &Vec<Event>, id: EventId) -> (event: Option<&Event>)
    ensures
        event matches Some(found) ==> event_with(events@, id) == Some(*found) && events@.contains(
            *found,
        ),
        event is None ==> event_with(events@, id) is None,
{
    match find_order(events, id) {
        Some(place) => {
            assert(events@[place as int] == event_with(events@, id)->0);
            Some(&events[place])
        },
        None => None,
    }
}

} // verus!
