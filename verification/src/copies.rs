//! Copies of events.
use vstd::prelude::*;

use crate::config::copy_text;
use crate::event::{
    AgentKindDef, AgentTitleChanged, AgentTurn, ApiStateUpdate, AssistResponse, CompactStage,
    CompactStateUpdate, Computed, Event, EventBody, EventId, FollowUpPrompt, ImageContent,
    ModelChanged, ModelContextItem, ReasoningEffortChanged, TerminalSessionCreated,
    TerminalSessionUpdate, ToolCall, ToolCallResult, ToolInfoContent, ToolInfoUpdate,
    UserTurnAborted, WorkMapMutation, WorkMapPendingReminder,
};

verus! {

/// Whether two events say the same.
pub open spec fn same_body(one: EventBody, other: EventBody) -> bool {
    match (one, other) {
        (EventBody::CompactStateUpdate(left), EventBody::CompactStateUpdate(right)) => {
            &&& left.compact_id == right.compact_id
            &&& left.tool_call_id == right.tool_call_id
            &&& left.prompt_id == right.prompt_id
            &&& left.kind == right.kind
            &&& left.total_stages == right.total_stages
            &&& left.stage == right.stage
            &&& left.state == right.state
            &&& left.content == right.content
            &&& left.detail == right.detail
            &&& left.accepted_count == right.accepted_count
            &&& match (left.stages, right.stages) {
                (Some(some), Some(others)) => some@ == others@,
                (None, None) => true,
                _ => false,
            }
            &&& left.merged_sections@ == right.merged_sections@
            &&& left.merged_summary == right.merged_summary
        },
        (EventBody::ImageContent(left), EventBody::ImageContent(right)) => {
            &&& left.tool_call_id == right.tool_call_id
            &&& left.source == right.source
            &&& left.format == right.format
            &&& left.width == right.width
            &&& left.height == right.height
            &&& left.content_sha256 == right.content_sha256
            &&& match (left.png, right.png) {
                (Computed::Value(bytes), Computed::Value(others)) => bytes@ == others@,
                (Computed::Failure(reason), Computed::Failure(said)) => reason == said,
                _ => false,
            }
        },
        _ => one == other,
    }
}

/// Whether two events are the same.
pub open spec fn same_event(one: Event, other: Event) -> bool {
    one.id == other.id && same_body(one.body, other.body)
}

/// Whether two lists of events are the same.
pub open spec fn same_events(some: Seq<Event>, others: Seq<Event>) -> bool {
    some.len() == others.len() && forall|i: int|
        0 <= i < some.len() ==> same_event(#[trigger] some[i], others[i])
}

fn copy_turn(turn: &Computed<Option<EventId>>) -> (copy: Computed<Option<EventId>>)
    ensures
        copy == *turn,
{
    match turn {
        Computed::Value(id) => Computed::Value(*id),
        Computed::Failure(reason) => Computed::Failure(reason.clone()),
    }
}

fn copy_flag(flag: &Computed<bool>) -> (copy: Computed<bool>)
    ensures
        copy == *flag,
{
    match flag {
        Computed::Value(set) => Computed::Value(*set),
        Computed::Failure(reason) => Computed::Failure(reason.clone()),
    }
}

fn copy_title(title: &Computed<String>) -> (copy: Computed<String>)
    ensures
        copy == *title,
{
    match title {
        Computed::Value(text) => Computed::Value(text.clone()),
        Computed::Failure(reason) => Computed::Failure(reason.clone()),
    }
}

fn copy_output(content: &ToolInfoContent) -> (copy: ToolInfoContent)
    ensures
        copy == *content,
{
    match content {
        ToolInfoContent::Text(text) => ToolInfoContent::Text(text.clone()),
        ToolInfoContent::Terminal(frame) => ToolInfoContent::Terminal(frame.clone()),
    }
}

fn copy_stages(stages: &Option<Vec<CompactStage>>) -> (copy: Option<Vec<CompactStage>>)
    ensures
        match (copy, *stages) {
            (Some(list), Some(other)) => list@ == other@,
            (None, None) => true,
            _ => false,
        },
{
    let list = match stages {
        Some(list) => list,
        None => return None,
    };
    let mut copy: Vec<CompactStage> = Vec::new();
    let mut place: usize = 0;
    while place < list.len()
        invariant
            place <= list@.len(),
            copy@ == list@.take(place as int),
        decreases list@.len() - place,
    {
        copy.push(list[place]);
        assert(list@.take(place + 1) =~= list@.take(place as int).push(list@[place as int]));
        place += 1;
    }
    assert(list@.take(place as int) =~= list@);
    Some(copy)
}

fn copy_texts(texts: &Vec<String>) -> (copy: Vec<String>)
    ensures
        copy@ == texts@,
{
    let mut copy: Vec<String> = Vec::new();
    let mut place: usize = 0;
    while place < texts.len()
        invariant
            place <= texts@.len(),
            copy@ == texts@.take(place as int),
        decreases texts@.len() - place,
    {
        copy.push(texts[place].clone());
        assert(copy@ =~= texts@.take(place + 1));
        place += 1;
    }
    assert(texts@.take(place as int) =~= texts@);
    copy
}

fn copy_image(png: &Computed<Vec<u8>>) -> (copy: Computed<Vec<u8>>)
    ensures
        match (copy, *png) {
            (Computed::Value(bytes), Computed::Value(other)) => bytes@ == other@,
            (Computed::Failure(reason), Computed::Failure(said)) => reason == said,
            _ => false,
        },
{
    match png {
        Computed::Value(bytes) => {
            let mut copy: Vec<u8> = Vec::new();
            copy.extend_from_slice(bytes.as_slice());
            assert(copy@ =~= bytes@);
            Computed::Value(copy)
        },
        Computed::Failure(reason) => Computed::Failure(reason.clone()),
    }
}

fn copy_body(body: &EventBody) -> (copy: EventBody)
    ensures
        same_body(copy, *body),
{
    match body {
        EventBody::AgentKindDef(event) => EventBody::AgentKindDef(
            AgentKindDef {
                kind: event.kind,
                orchestrator: event.orchestrator.clone(),
                parent_agent_id: copy_text(&event.parent_agent_id),
                system_prompt: copy_text(&event.system_prompt),
            },
        ),
        EventBody::AgentTurn(event) => EventBody::AgentTurn(
            AgentTurn {
                turn_id: event.turn_id,
                prompt_id: event.prompt_id,
                state: event.state,
                detail: event.detail.clone(),
            },
        ),
        EventBody::SystemPrompt(text) => EventBody::SystemPrompt(text.clone()),
        EventBody::UserPrompt(text) => EventBody::UserPrompt(text.clone()),
        EventBody::ManagerPrompt(text) => EventBody::ManagerPrompt(text.clone()),
        EventBody::ParentAgentPrompt(text) => EventBody::ParentAgentPrompt(text.clone()),
        EventBody::FollowUpPrompt(event) => EventBody::FollowUpPrompt(
            FollowUpPrompt {
                prompt_id: event.prompt_id,
                content: event.content.clone(),
            },
        ),
        EventBody::AssistResponse(event) => EventBody::AssistResponse(
            AssistResponse {
                prompt_id: event.prompt_id,
                content: event.content.clone(),
                finished: event.finished,
            },
        ),
        EventBody::ApiStateUpdate(event) => EventBody::ApiStateUpdate(
            ApiStateUpdate {
                api_call_id: event.api_call_id,
                prompt_id: event.prompt_id,
                state: event.state,
                retry_count: event.retry_count,
                retry_limit: event.retry_limit,
                usage: event.usage,
                detail: event.detail.clone(),
            },
        ),
        EventBody::ContextUsageEstimate(estimate) => EventBody::ContextUsageEstimate(*estimate),
        EventBody::UserTurnAborted(event) => EventBody::UserTurnAborted(
            UserTurnAborted {
                prompt_id: event.prompt_id,
                active_before: copy_turn(&event.active_before),
            },
        ),
        EventBody::ToolCall(event) => EventBody::ToolCall(
            ToolCall {
                api_call_id: event.api_call_id,
                prompt_id: event.prompt_id,
                provider_call_id: event.provider_call_id.clone(),
                name: event.name.clone(),
                arguments: event.arguments.clone(),
                traits: event.traits,
            },
        ),
        EventBody::ToolInfoUpdate(event) => EventBody::ToolInfoUpdate(
            ToolInfoUpdate {
                tool_call_id: event.tool_call_id,
                stream: event.stream,
                content: copy_output(&event.content),
            },
        ),
        EventBody::ToolCallResult(event) => EventBody::ToolCallResult(
            ToolCallResult {
                tool_call_id: event.tool_call_id,
                state: event.state,
                exit_code: event.exit_code,
                detail: event.detail.clone(),
            },
        ),
        EventBody::TerminalSessionCreated(event) => EventBody::TerminalSessionCreated(
            TerminalSessionCreated {
                tool_call_id: event.tool_call_id,
                session_id: event.session_id.clone(),
                shell: event.shell.clone(),
                cwd: event.cwd.clone(),
                width: event.width,
                height: event.height,
            },
        ),
        EventBody::TerminalSessionState(event) => EventBody::TerminalSessionState(
            TerminalSessionUpdate {
                session_id: event.session_id.clone(),
                state: event.state,
                exit_code: event.exit_code,
            },
        ),
        EventBody::ModelContextItem(event) => EventBody::ModelContextItem(
            ModelContextItem {
                api_call_id: event.api_call_id,
                prompt_id: event.prompt_id,
                provider: event.provider.clone(),
                content: event.content.clone(),
            },
        ),
        EventBody::ModelChanged(event) => EventBody::ModelChanged(
            ModelChanged {
                model: event.model.clone(),
                cause: event.cause,
            },
        ),
        EventBody::ReasoningEffortChanged(event) => EventBody::ReasoningEffortChanged(
            ReasoningEffortChanged {
                effort: event.effort.clone(),
                cause: event.cause,
            },
        ),
        EventBody::ContextCleared => EventBody::ContextCleared,
        EventBody::WorkMapMutation(event) => EventBody::WorkMapMutation(
            WorkMapMutation {
                tool_call_id: event.tool_call_id,
                operation: event.operation.clone(),
                operation_tool: event.operation_tool.clone(),
            },
        ),
        EventBody::WorkMapPendingReminder(event) => EventBody::WorkMapPendingReminder(
            WorkMapPendingReminder {
                prompt_id: event.prompt_id,
                work_before: copy_flag(&event.work_before),
            },
        ),
        EventBody::CompactStateUpdate(event) => EventBody::CompactStateUpdate(
            CompactStateUpdate {
                compact_id: event.compact_id,
                tool_call_id: event.tool_call_id,
                prompt_id: event.prompt_id,
                kind: event.kind,
                total_stages: event.total_stages,
                stage: event.stage,
                state: event.state,
                content: event.content.clone(),
                detail: event.detail.clone(),
                accepted_count: event.accepted_count,
                stages: copy_stages(&event.stages),
                merged_sections: copy_texts(&event.merged_sections),
                merged_summary: event.merged_summary.clone(),
            },
        ),
        EventBody::AgentTitleChanged(event) => EventBody::AgentTitleChanged(
            AgentTitleChanged {
                tool_call_id: event.tool_call_id,
                title: event.title.clone(),
                normalized: copy_title(&event.normalized),
                requested: copy_title(&event.requested),
            },
        ),
        EventBody::CloneCompleted(text) => EventBody::CloneCompleted(text.clone()),
        EventBody::ImageContent(event) => EventBody::ImageContent(
            ImageContent {
                tool_call_id: event.tool_call_id,
                source: event.source.clone(),
                format: event.format.clone(),
                width: event.width,
                height: event.height,
                content_sha256: event.content_sha256.clone(),
                png: copy_image(&event.png),
            },
        ),
    }
}

impl Event {
    /// The same event once more.
    pub fn copy(&self) -> (copy: Event)
        ensures
            same_event(copy, *self),
    {
        Event { id: self.id, body: copy_body(&self.body) }
    }
}

/// Adds copies of the events from a place on to a list.
pub fn extend_events(list: &mut Vec<Event>, events: &Vec<Event>, from: usize)
    requires
        from <= events@.len(),
    ensures
        final(list)@.len() == old(list)@.len() + (events@.len() - from),
        final(list)@.take(old(list)@.len() as int) == old(list)@,
        same_events(final(list)@.skip(old(list)@.len() as int), events@.skip(from as int)),
{
    let ghost first = list@;
    let mut place: usize = from;
    assert(list@.take(first.len() as int) =~= first);
    while place < events.len()
        invariant
            from <= place <= events@.len(),
            list@.len() == first.len() + (place - from),
            list@.take(first.len() as int) == first,
            forall|i: int|
                0 <= i < place - from ==> same_event(
                    #[trigger] list@[first.len() + i],
                    events@[from + i],
                ),
        decreases events@.len() - place,
    {
        let ghost before = list@;
        list.push(events[place].copy());
        assert(list@.take(first.len() as int) =~= before.take(first.len() as int));
        assert forall|i: int| 0 <= i < place + 1 - from implies same_event(
            #[trigger] list@[first.len() + i],
            events@[from + i],
        ) by {
            if i < place - from {
                assert(list@[first.len() + i] == before[first.len() + i]);
            }
        }
        place += 1;
    }
    assert forall|i: int| 0 <= i < events@.len() - from implies same_event(
        #[trigger] list@.skip(first.len() as int)[i],
        events@.skip(from as int)[i],
    ) by {
        assert(list@[first.len() + i] == list@.skip(first.len() as int)[i]);
    }
}

} // verus!
