//! The rules of compaction: a successful call of the compaction tool starts it, its stages follow
//! the plan of its kind, each after a successful request, and only one is open at a time.
use vstd::prelude::*;

use crate::api_calls::{
    completes_request, request_completed_between, request_event_between, request_of, state_of,
    successful_compact_request_between,
};
use crate::event::{
    event_with, find_event, ids_increase, CompactStage, CompactState, CompactStateUpdate, Event,
    EventBody, EventDataBase, EventId, ToolResultState,
};
use crate::text::{blank, decimal, is_blank, same, say1, say2, views};
use crate::tool_calls::{find_tool_call, tool_call_with};

verus! {

/// The tool that starts a compaction.
pub const COMPACT_TOOL: &'static str = "Compact";

/// What a restart says of a compaction that was open.
pub const RESTART_COMPACT_DETAIL: &'static str = "orchestrator restarted before Compact completed";

/// A compaction and how far it has come.
#[derive(Clone, Copy, Debug, PartialEq, Eq, Structural)]
pub struct CompactRecord {
    pub compact_id: EventId,
    pub state: CompactState,
}

/// The compaction that is open: its latest event, and how many stages are done.
#[derive(Clone, Copy, Debug, PartialEq, Eq, Structural)]
pub struct OpenCompact {
    pub compact_id: EventId,
    pub previous_event_id: EventId,
}

/// A rule of compaction that an event breaks.
#[derive(Clone, Copy, Debug, PartialEq, Eq, Structural)]
pub enum CompactHistoryError {
    InvalidStart { event: EventId },
    Overlap,
    MissingCall { event: EventId, tool_call: EventId },
    InvalidTrigger { event: EventId },
    ToolNotSucceeded { event: EventId },
    StageWithoutStart { event: EventId },
    StageOfOther { event: EventId },
    StartMissing { compact: EventId },
    InvalidStage { event: EventId },
    StageWithoutRequest { event: EventId },
    EndWithoutStart { event: EventId },
    IdentityChanged { compact: EventId },
    InvalidCompletedContent { compact: EventId },
    InvalidUnsuccessfulContent { compact: EventId },
    NoSummaryRequest { compact: EventId },
    InvalidStageCount { compact: EventId, count: u8 },
    StagesMissing { compact: EventId },
    SummaryMismatch { compact: EventId },
}

impl CompactHistoryError {
    /// What is said of a history that breaks the rule.
    pub open spec fn text(&self) -> Seq<char> {
        match *self {
            CompactHistoryError::InvalidStart { event } => "invalid Compact start "@ + decimal(
                event as nat,
            ) + ""@,
            CompactHistoryError::Overlap => "a Compact started before the previous one ended"@,
            CompactHistoryError::MissingCall { event, tool_call } => "Compact "@ + decimal(
                event as nat,
            ) + " references missing tool call "@ + decimal(tool_call as nat) + ""@,
            CompactHistoryError::InvalidTrigger { event } => "Compact "@ + decimal(event as nat)
                + " references an invalid trigger"@,
            CompactHistoryError::ToolNotSucceeded { event } => "Compact "@ + decimal(event as nat)
                + " started before its tool succeeded"@,
            CompactHistoryError::StageWithoutStart { event } => "Compact stage event "@ + decimal(
                event as nat,
            ) + " has no matching open lifecycle"@,
            CompactHistoryError::StageOfOther { event } => "Compact stage event "@ + decimal(
                event as nat,
            ) + " changed lifecycle"@,
            CompactHistoryError::StartMissing { compact } => "Compact "@ + decimal(compact as nat)
                + " start is missing"@,
            CompactHistoryError::InvalidStage { event } => "invalid Compact stage event "@
                + decimal(event as nat) + ""@,
            CompactHistoryError::StageWithoutRequest { event } => "Compact stage event "@ + decimal(
                event as nat,
            ) + " has no successful API request"@,
            CompactHistoryError::EndWithoutStart { event } => "Compact terminal event "@ + decimal(
                event as nat,
            ) + " has no matching open lifecycle"@,
            CompactHistoryError::IdentityChanged { compact } => "Compact "@ + decimal(
                compact as nat,
            ) + " identity changed"@,
            CompactHistoryError::InvalidCompletedContent { compact } => "Compact "@ + decimal(
                compact as nat,
            ) + " has invalid completed content"@,
            CompactHistoryError::InvalidUnsuccessfulContent { compact } => "Compact "@ + decimal(
                compact as nat,
            ) + " has invalid unsuccessful content"@,
            CompactHistoryError::NoSummaryRequest { compact } => "Compact "@ + decimal(
                compact as nat,
            ) + " completed without a successful summary API request"@,
            CompactHistoryError::InvalidStageCount { compact, count } => "Compact "@ + decimal(
                compact as nat,
            ) + " has invalid stage count "@ + decimal(count as nat) + ""@,
            CompactHistoryError::StagesMissing { compact } => "Compact "@ + decimal(compact as nat)
                + " completed before all multi-turn stages"@,
            CompactHistoryError::SummaryMismatch { compact } => "Compact "@ + decimal(
                compact as nat,
            ) + " final summary does not match its sections"@,
        }
    }

    /// What is said of a history that breaks the rule.
    pub fn message(&self) -> (text: String)
        ensures
            text@ == self.text(),
    {
        match *self {
            CompactHistoryError::InvalidStart { event } => say1("invalid Compact start ", event, ""),
            CompactHistoryError::Overlap => "a Compact started before the previous one ended".to_owned(),
            CompactHistoryError::MissingCall { event, tool_call } => say2(
                "Compact ",
                event,
                " references missing tool call ",
                tool_call,
                "",
            ),
            CompactHistoryError::InvalidTrigger { event } => say1(
                "Compact ",
                event,
                " references an invalid trigger",
            ),
            CompactHistoryError::ToolNotSucceeded { event } => say1(
                "Compact ",
                event,
                " started before its tool succeeded",
            ),
            CompactHistoryError::StageWithoutStart { event } => say1(
                "Compact stage event ",
                event,
                " has no matching open lifecycle",
            ),
            CompactHistoryError::StageOfOther { event } => say1(
                "Compact stage event ",
                event,
                " changed lifecycle",
            ),
            CompactHistoryError::StartMissing { compact } => say1(
                "Compact ",
                compact,
                " start is missing",
            ),
            CompactHistoryError::InvalidStage { event } => say1(
                "invalid Compact stage event ",
                event,
                "",
            ),
            CompactHistoryError::StageWithoutRequest { event } => say1(
                "Compact stage event ",
                event,
                " has no successful API request",
            ),
            CompactHistoryError::EndWithoutStart { event } => say1(
                "Compact terminal event ",
                event,
                " has no matching open lifecycle",
            ),
            CompactHistoryError::IdentityChanged { compact } => say1(
                "Compact ",
                compact,
                " identity changed",
            ),
            CompactHistoryError::InvalidCompletedContent { compact } => say1(
                "Compact ",
                compact,
                " has invalid completed content",
            ),
            CompactHistoryError::InvalidUnsuccessfulContent { compact } => say1(
                "Compact ",
                compact,
                " has invalid unsuccessful content",
            ),
            CompactHistoryError::NoSummaryRequest { compact } => say1(
                "Compact ",
                compact,
                " completed without a successful summary API request",
            ),
            CompactHistoryError::InvalidStageCount { compact, count } => say2(
                "Compact ",
                compact,
                " has invalid stage count ",
                count as u64,
                "",
            ),
            CompactHistoryError::StagesMissing { compact } => say1(
                "Compact ",
                compact,
                " completed before all multi-turn stages",
            ),
            CompactHistoryError::SummaryMismatch { compact } => say1(
                "Compact ",
                compact,
                " final summary does not match its sections",
            ),
        }
    }
}

/// A stage that is done, and what the model answered.
#[derive(Debug)]
pub struct FinishedStage {
    pub stage: CompactStage,
    pub content: String,
}

/// A stage that is done, and what the model answered, as a value.
pub struct StageView {
    pub stage: CompactStage,
    pub content: Seq<char>,
}

impl View for FinishedStage {
    type V = StageView;

    open spec fn view(&self) -> StageView {
        StageView { stage: self.stage, content: self.content@ }
    }
}

/// The stages that are done.
pub open spec fn stages_view(stages: Seq<FinishedStage>) -> Seq<StageView> {
    Seq::new(stages.len(), |i: int| stages[i]@)
}

/// The names of the stages that are done.
pub open spec fn stage_names(stages: Seq<StageView>) -> Seq<CompactStage> {
    Seq::new(stages.len(), |i: int| stages[i].stage)
}

/// The sections of the summary: the answers of all stages but the first, which is the model's own
/// analysis.
pub open spec fn sections(stages: Seq<StageView>) -> Seq<Seq<char>> {
    if stages.len() == 0 {
        Seq::empty()
    } else {
        Seq::new((stages.len() - 1) as nat, |i: int| stages[i + 1].content)
    }
}

/// The compactions so far, and the open one with its stages.
pub type CompactHistory = (Seq<CompactRecord>, Option<(OpenCompact, Seq<StageView>)>);

/// Whether the event is the success of the tool call, before another event.
pub open spec fn succeeds_before(event: Event, tool_call: EventId, before: EventId) -> bool {
    &&& event.id < before
    &&& event.body matches EventBody::ToolCallResult(result)
    &&& result.tool_call_id == tool_call
    &&& result.state == ToolResultState::Succeeded
}

/// Whether the tool call succeeded before the event.
pub open spec fn succeeded_before(events: Seq<Event>, tool_call: EventId, before: EventId) -> bool {
    exists|i: int| 0 <= i < events.len() && succeeds_before(#[trigger] events[i], tool_call, before)
}

fn has_succeeded_before(events: &Vec<Event>, tool_call: EventId, before: EventId) -> (result: bool)
    ensures
        result == succeeded_before(events@, tool_call, before),
{
    let mut place: usize = 0;
    while place < events.len()
        invariant
            place <= events.len(),
            forall|i: int|
                0 <= i < place ==> !succeeds_before(#[trigger] events@[i], tool_call, before),
        decreases events.len() - place,
    {
        let event = &events[place];
        if let EventBody::ToolCallResult(result) = &event.body {
            if event.id < before && result.tool_call_id == tool_call && result.state
                == ToolResultState::Succeeded {
                assert(succeeds_before(events@[place as int], tool_call, before));
                return true;
            }
        }
        place += 1;
    }
    false
}

/// The step of a compaction with this identity.
pub open spec fn compact_with(events: Seq<Event>, id: EventId) -> Option<CompactStateUpdate> {
    match event_with(events, id) {
        Some(found) => match found.body {
            EventBody::CompactStateUpdate(update) => Some(update),
            _ => None,
        },
        None => None,
    }
}

fn find_compact(events: &Vec<Event>, id: EventId) -> (update: Option<&CompactStateUpdate>)
    ensures
        update matches Some(found) ==> compact_with(events@, id) == Some(*found),
        update is None ==> compact_with(events@, id) is None,
{
    match find_event(events, id) {
        Some(found) => match &found.body {
            EventBody::CompactStateUpdate(update) => Some(update),
            _ => None,
        },
        None => None,
    }
}

/// A compaction starts with its plan, after the success of the tool call that asks for it.
pub open spec fn start_step(
    events: Seq<Event>,
    history: CompactHistory,
    id: EventId,
    update: CompactStateUpdate,
) -> Result<CompactHistory, CompactHistoryError> {
    if id != update.compact_id || !update.accepted_count || update.stage is Some
        || update.content@.len() != 0 || update.detail@.len() != 0 {
        Err(CompactHistoryError::InvalidStart { event: id })
    } else if history.1 is Some {
        Err(CompactHistoryError::Overlap)
    } else {
        match tool_call_with(events, update.tool_call_id) {
            None => Err(
                CompactHistoryError::MissingCall { event: id, tool_call: update.tool_call_id },
            ),
            Some(call) => if call.name@ != COMPACT_TOOL@ || call.prompt_id != update.prompt_id {
                Err(CompactHistoryError::InvalidTrigger { event: id })
            } else if !succeeded_before(events, update.tool_call_id, id) {
                Err(CompactHistoryError::ToolNotSucceeded { event: id })
            } else {
                Ok(
                    (
                        history.0.push(
                            CompactRecord { compact_id: id, state: CompactState::Started },
                        ),
                        Some(
                            (
                                OpenCompact { compact_id: id, previous_event_id: id },
                                Seq::<StageView>::empty(),
                            ),
                        ),
                    ),
                )
            },
        }
    }
}

fn record_start(
    events: &Vec<Event>,
    records: &mut Vec<CompactRecord>,
    open: &mut Option<OpenCompact>,
    stages: &mut Vec<FinishedStage>,
    id: EventId,
    update: &CompactStateUpdate,
) -> (result: Result<(), CompactHistoryError>)
    requires
        update.state == CompactState::Started,
    ensures
        match result {
            Ok(_) => start_step(
                events@,
                compact_history(old(records)@, *old(open), stages_view(old(stages)@)),
                id,
                *update,
            ) == Ok::<_, CompactHistoryError>(
                compact_history(final(records)@, *final(open), stages_view(final(stages)@)),
            ),
            Err(error) => start_step(
                events@,
                compact_history(old(records)@, *old(open), stages_view(old(stages)@)),
                id,
                *update,
            ) == Err::<CompactHistory, _>(error),
        },
{
    if id != update.compact_id || !update.accepted_count || update.stage.is_some()
        || !update.content.as_str().is_empty() || !update.detail.as_str().is_empty() {
        return Err(CompactHistoryError::InvalidStart { event: id });
    }
    if open.is_some() {
        return Err(CompactHistoryError::Overlap);
    }
    match find_tool_call(events, update.tool_call_id) {
        None => Err(CompactHistoryError::MissingCall { event: id, tool_call: update.tool_call_id }),
        Some(call) => {
            if !same(call.name.as_str(), COMPACT_TOOL) || call.prompt_id != update.prompt_id {
                return Err(CompactHistoryError::InvalidTrigger { event: id });
            }
            if !has_succeeded_before(events, update.tool_call_id, id) {
                return Err(CompactHistoryError::ToolNotSucceeded { event: id });
            }
            *open = Some(OpenCompact { compact_id: id, previous_event_id: id });
            stages.clear();
            assert(stages_view(stages@) =~= Seq::<StageView>::empty());
            records.push(CompactRecord { compact_id: id, state: CompactState::Started });
            Ok(())
        },
    }
}

/// The state of the compactions, as it is held.
pub open spec fn compact_history(
    records: Seq<CompactRecord>,
    open: Option<OpenCompact>,
    stages: Seq<StageView>,
) -> CompactHistory {
    (
        records,
        match open {
            Some(compact) => Some((compact, stages)),
            None => None,
        },
    )
}

/// The stage that the plan has at the place.
pub open spec fn planned_stage(started: CompactStateUpdate, place: int) -> Option<CompactStage> {
    match started.stages {
        Some(plan) => if 0 <= place < plan@.len() {
            Some(plan@[place])
        } else {
            None
        },
        None => None,
    }
}

/// Whether a later step belongs to the compaction that started so.
pub open spec fn same_compact(update: CompactStateUpdate, started: CompactStateUpdate) -> bool {
    update.kind == started.kind && update.total_stages == started.total_stages
        && update.tool_call_id == started.tool_call_id && update.prompt_id == started.prompt_id
}

/// A stage is the next one of the plan, and a request completed since the step before. A stage
/// without a name is none, also where the plan has no further one.
pub open spec fn stage_step(
    events: Seq<Event>,
    history: CompactHistory,
    id: EventId,
    update: CompactStateUpdate,
) -> Result<CompactHistory, CompactHistoryError> {
    match history.1 {
        None => Err(CompactHistoryError::StageWithoutStart { event: id }),
        Some((open, stages)) => if open.compact_id != update.compact_id {
            Err(CompactHistoryError::StageOfOther { event: id })
        } else {
            match compact_with(events, open.compact_id) {
                None => Err(CompactHistoryError::StartMissing { compact: update.compact_id }),
                Some(started) => if !started.kind.multi_turn() || !same_compact(update, started)
                    || update.stage != planned_stage(started, stages.len() as int)
                    || update.content@.len() == 0 || update.detail@.len() != 0 {
                    Err(CompactHistoryError::InvalidStage { event: id })
                } else if !request_completed_between(
                    events,
                    started.prompt_id,
                    open.previous_event_id,
                    id,
                ) {
                    Err(CompactHistoryError::StageWithoutRequest { event: id })
                } else {
                    match update.stage {
                        None => Err(CompactHistoryError::InvalidStage { event: id }),
                        Some(stage) => Ok(
                            (
                                history.0,
                                Some(
                                    (
                                        OpenCompact { previous_event_id: id, ..open },
                                        stages.push(
                                            StageView { stage, content: update.content@ },
                                        ),
                                    ),
                                ),
                            ),
                        ),
                    }
                },
            }
        },
    }
}

fn record_stage(
    events: &Vec<Event>,
    records: &Vec<CompactRecord>,
    open: &mut Option<OpenCompact>,
    stages: &mut Vec<FinishedStage>,
    id: EventId,
    update: &CompactStateUpdate,
) -> (result: Result<(), CompactHistoryError>)
    ensures
        match result {
            Ok(_) => stage_step(
                events@,
                compact_history(records@, *old(open), stages_view(old(stages)@)),
                id,
                *update,
            ) == Ok::<_, CompactHistoryError>(
                compact_history(records@, *final(open), stages_view(final(stages)@)),
            ),
            Err(error) => stage_step(
                events@,
                compact_history(records@, *old(open), stages_view(old(stages)@)),
                id,
                *update,
            ) == Err::<CompactHistory, _>(error),
        },
{
    let compact = match *open {
        None => {
            return Err(CompactHistoryError::StageWithoutStart { event: id });
        },
        Some(compact) => compact,
    };
    if compact.compact_id != update.compact_id {
        return Err(CompactHistoryError::StageOfOther { event: id });
    }
    match find_compact(events, compact.compact_id) {
        None => Err(CompactHistoryError::StartMissing { compact: update.compact_id }),
        Some(started) => {
            let expected = match &started.stages {
                Some(plan) => if stages.len() < plan.len() {
                    Some(plan[stages.len()])
                } else {
                    None
                },
                None => None,
            };
            let next = match (update.stage, expected) {
                (Some(stage), Some(planned)) => planned == stage,
                (None, None) => true,
                _ => false,
            };
            if !started.kind.is_multi_turn() || !is_same_compact(update, started) || !next
                || update.content.as_str().is_empty() || !update.detail.as_str().is_empty() {
                return Err(CompactHistoryError::InvalidStage { event: id });
            }
            if !successful_compact_request_between(
                events,
                started.prompt_id,
                compact.previous_event_id,
                id,
            ) {
                return Err(CompactHistoryError::StageWithoutRequest { event: id });
            }
            let stage = match update.stage {
                Some(stage) => stage,
                None => {
                    return Err(CompactHistoryError::InvalidStage { event: id });
                },
            };
            stages.push(FinishedStage { stage, content: update.content.clone() });
            assert(stages_view(stages@) =~= stages_view(old(stages)@).push(
                StageView { stage, content: update.content@ },
            ));
            *open =
            Some(OpenCompact { compact_id: compact.compact_id, previous_event_id: id });
            Ok(())
        },
    }
}

fn is_same_compact(update: &CompactStateUpdate, started: &CompactStateUpdate) -> (result: bool)
    ensures
        result == same_compact(*update, *started),
{
    update.kind == started.kind && update.total_stages == started.total_stages
        && update.tool_call_id == started.tool_call_id && update.prompt_id == started.prompt_id
}

/// A compaction that completed has the summary that its kind asks for: where it has stages, the one
/// that their answers but the first give.
pub open spec fn completion_error(
    events: Seq<Event>,
    stages: Seq<StageView>,
    id: EventId,
    update: CompactStateUpdate,
    started: CompactStateUpdate,
) -> Option<CompactHistoryError> {
    let compact = update.compact_id;
    if !started.kind.multi_turn() {
        if stages.len() != 0 || !request_completed_between(
            events,
            started.prompt_id,
            compact,
            id,
        ) {
            Some(CompactHistoryError::NoSummaryRequest { compact })
        } else {
            None
        }
    } else {
        match started.stages {
            None => Some(
                CompactHistoryError::InvalidStageCount { compact, count: started.total_stages },
            ),
            Some(plan) => if stage_names(stages) != plan@ {
                Some(CompactHistoryError::StagesMissing { compact })
            } else if views(update.merged_sections@) != sections(stages) || update.content@
                != update.merged_summary@ {
                Some(CompactHistoryError::SummaryMismatch { compact })
            } else {
                None
            },
        }
    }
}

fn check_completion(
    events: &Vec<Event>,
    stages: &Vec<FinishedStage>,
    id: EventId,
    update: &CompactStateUpdate,
    started: &CompactStateUpdate,
) -> (error: Option<CompactHistoryError>)
    ensures
        error == completion_error(events@, stages_view(stages@), id, *update, *started),
{
    let compact = update.compact_id;
    if !started.kind.is_multi_turn() {
        if stages.len() != 0 || !successful_compact_request_between(
            events,
            started.prompt_id,
            compact,
            id,
        ) {
            return Some(CompactHistoryError::NoSummaryRequest { compact });
        }
        return None;
    }
    match &started.stages {
        None => Some(
            CompactHistoryError::InvalidStageCount { compact, count: started.total_stages },
        ),
        Some(plan) => {
            if !same_stages(stages, plan) {
                return Some(CompactHistoryError::StagesMissing { compact });
            }
            if !same_sections(stages, &update.merged_sections) || update.content
                != update.merged_summary {
                return Some(CompactHistoryError::SummaryMismatch { compact });
            }
            None
        },
    }
}

fn same_stages(stages: &Vec<FinishedStage>, plan: &Vec<CompactStage>) -> (result: bool)
    ensures
        result == (stage_names(stages_view(stages@)) == plan@),
{
    let ghost names = stage_names(stages_view(stages@));
    if stages.len() != plan.len() {
        assert(names.len() != plan@.len());
        return false;
    }
    let mut place: usize = 0;
    while place < stages.len()
        invariant
            place <= stages.len(),
            stages.len() == plan.len(),
            names == stage_names(stages_view(stages@)),
            forall|i: int| 0 <= i < place ==> names[i] == plan@[i],
        decreases stages.len() - place,
    {
        assert(names[place as int] == stages@[place as int].stage);
        if stages[place].stage != plan[place] {
            return false;
        }
        place += 1;
    }
    assert(names =~= plan@);
    true
}

fn same_sections(stages: &Vec<FinishedStage>, merged: &Vec<String>) -> (result: bool)
    ensures
        result == (views(merged@) == sections(stages_view(stages@))),
{
    let ghost owed = sections(stages_view(stages@));
    let ghost held = views(merged@);
    let count: usize = if stages.len() == 0 {
        0
    } else {
        stages.len() - 1
    };
    if merged.len() != count {
        assert(held.len() != owed.len());
        return false;
    }
    let mut place: usize = 0;
    while place < count
        invariant
            place <= count == merged@.len(),
            stages@.len() > 0 ==> count == stages@.len() - 1,
            stages@.len() == 0 ==> count == 0,
            owed == sections(stages_view(stages@)),
            held == views(merged@),
            forall|i: int| 0 <= i < place ==> held[i] == owed[i],
        decreases count - place,
    {
        assert(held[place as int] == merged@[place as int]@);
        assert(owed[place as int] == stages@[place + 1].content@);
        if !same(merged[place].as_str(), stages[place + 1].content.as_str()) {
            return false;
        }
        place += 1;
    }
    assert(held =~= owed);
    true
}

/// A compaction ends once, with a summary or with the reason of its failure.
pub open spec fn end_step(
    events: Seq<Event>,
    history: CompactHistory,
    id: EventId,
    update: CompactStateUpdate,
) -> Result<CompactHistory, CompactHistoryError> {
    let compact = update.compact_id;
    match history.1 {
        None => Err(CompactHistoryError::EndWithoutStart { event: id }),
        Some((open, stages)) => if open.compact_id != compact {
            Err(CompactHistoryError::IdentityChanged { compact })
        } else {
            match compact_with(events, compact) {
                None => Err(CompactHistoryError::StartMissing { compact }),
                Some(started) => if !same_compact(update, started) || update.stage is Some {
                    Err(CompactHistoryError::IdentityChanged { compact })
                } else if update.state == CompactState::Completed && (is_blank(update.content@)
                    || update.detail@.len() != 0) {
                    Err(CompactHistoryError::InvalidCompletedContent { compact })
                } else if update.state != CompactState::Completed && (update.content@.len() != 0
                    || is_blank(update.detail@)) {
                    Err(CompactHistoryError::InvalidUnsuccessfulContent { compact })
                } else if update.state == CompactState::Completed && completion_error(
                    events,
                    stages,
                    id,
                    update,
                    started,
                ) is Some {
                    Err(completion_error(events, stages, id, update, started)->0)
                } else {
                    Ok((closed_last(history.0, update.state), None))
                },
            }
        },
    }
}

/// The compactions with the last one in its final state.
pub open spec fn closed_last(records: Seq<CompactRecord>, state: CompactState) -> Seq<CompactRecord> {
    if records.len() == 0 {
        records
    } else {
        records.update(records.len() - 1, CompactRecord { state, ..records.last() })
    }
}

fn record_end(
    events: &Vec<Event>,
    records: &mut Vec<CompactRecord>,
    open: &mut Option<OpenCompact>,
    stages: &Vec<FinishedStage>,
    id: EventId,
    update: &CompactStateUpdate,
) -> (result: Result<(), CompactHistoryError>)
    ensures
        match result {
            Ok(_) => end_step(
                events@,
                compact_history(old(records)@, *old(open), stages_view(stages@)),
                id,
                *update,
            ) == Ok::<_, CompactHistoryError>(
                compact_history(final(records)@, *final(open), stages_view(stages@)),
            ),
            Err(error) => end_step(
                events@,
                compact_history(old(records)@, *old(open), stages_view(stages@)),
                id,
                *update,
            ) == Err::<CompactHistory, _>(error),
        },
{
    let compact = update.compact_id;
    let current = match *open {
        None => {
            return Err(CompactHistoryError::EndWithoutStart { event: id });
        },
        Some(current) => current,
    };
    if current.compact_id != compact {
        return Err(CompactHistoryError::IdentityChanged { compact });
    }
    match find_compact(events, compact) {
        None => Err(CompactHistoryError::StartMissing { compact }),
        Some(started) => {
            if !is_same_compact(update, started) || update.stage.is_some() {
                return Err(CompactHistoryError::IdentityChanged { compact });
            }
            if update.state == CompactState::Completed {
                if blank(update.content.as_str()) || !update.detail.as_str().is_empty() {
                    return Err(CompactHistoryError::InvalidCompletedContent { compact });
                }
                if let Some(error) = check_completion(events, stages, id, update, started) {
                    return Err(error);
                }
            } else if !update.content.as_str().is_empty() || blank(update.detail.as_str()) {
                return Err(CompactHistoryError::InvalidUnsuccessfulContent { compact });
            }
            if records.len() > 0 {
                let last: usize = records.len() - 1;
                let mut record = records[last];
                record.state = update.state;
                records.set(last, record);
            }
            *open = None;
            Ok(())
        },
    }
}

/// What an event does to the compactions before it, or the rule that it breaks.
pub open spec fn compact_step(events: Seq<Event>, history: CompactHistory, event: Event) -> Result<
    CompactHistory,
    CompactHistoryError,
> {
    match event.body {
        EventBody::CompactStateUpdate(update) => match update.state {
            CompactState::Started => start_step(events, history, event.id, update),
            CompactState::StageCompleted => stage_step(events, history, event.id, update),
            _ => end_step(events, history, event.id, update),
        },
        _ => Ok(history),
    }
}

/// The compactions of the first events, or the first rule that one of them breaks.
pub open spec fn compact_histories(events: Seq<Event>, count: int) -> Result<
    CompactHistory,
    CompactHistoryError,
>
    decreases count,
{
    if count <= 0 {
        Ok((Seq::empty(), None))
    } else {
        match compact_histories(events, count - 1) {
            Ok(history) => compact_step(events, history, events[count - 1]),
            Err(error) => Err(error),
        }
    }
}

proof fn lemma_compact_error_stays(events: Seq<Event>, early: int, late: int)
    requires
        0 <= early <= late,
        compact_histories(events, early) is Err,
    ensures
        compact_histories(events, late) == compact_histories(events, early),
    decreases late,
{
    if early < late {
        lemma_compact_error_stays(events, early, late - 1);
    }
}

/// The compactions of the history in their order, or the first rule of compaction that it breaks.
pub fn compact_states(edb: &EventDataBase) -> (result: Result<
    Vec<CompactRecord>,
    CompactHistoryError,
>)
    ensures
        match result {
            Ok(records) => compact_histories(edb@, edb@.len() as int) matches Ok(history)
                && history.0 == records@,
            Err(error) => compact_histories(edb@, edb@.len() as int) == Err::<CompactHistory, _>(
                error,
            ),
        },
{
    let mut records: Vec<CompactRecord> = Vec::new();
    let mut open: Option<OpenCompact> = None;
    let mut stages: Vec<FinishedStage> = Vec::new();
    let mut place: usize = 0;
    while place < edb.events.len()
        invariant
            place <= edb@.len(),
            compact_histories(edb@, place as int) == Ok::<_, CompactHistoryError>(
                compact_history(records@, open, stages_view(stages@)),
            ),
        decreases edb@.len() - place,
    {
        let event = &edb.events[place];
        if let EventBody::CompactStateUpdate(update) = &event.body {
            let result = match update.state {
                CompactState::Started => record_start(
                    &edb.events,
                    &mut records,
                    &mut open,
                    &mut stages,
                    event.id,
                    update,
                ),
                CompactState::StageCompleted => record_stage(
                    &edb.events,
                    &records,
                    &mut open,
                    &mut stages,
                    event.id,
                    update,
                ),
                _ => record_end(
                    &edb.events,
                    &mut records,
                    &mut open,
                    &stages,
                    event.id,
                    update,
                ),
            };
            if let Err(error) = result {
                proof {
                    lemma_compact_error_stays(edb@, place + 1, edb@.len() as int);
                }
                return Err(error);
            }
        }
        place += 1;
    }
    Ok(records)
}


/// Whether an event body ends the compaction that started so.
pub open spec fn is_compact_end(
    body: EventBody,
    compact_id: EventId,
    started: CompactStateUpdate,
    state: CompactState,
    content: Seq<char>,
    detail: Seq<char>,
    merged: (Seq<Seq<char>>, Seq<char>),
) -> bool {
    &&& body matches EventBody::CompactStateUpdate(update)
    &&& update.compact_id == compact_id
    &&& same_compact(update, started)
    &&& update.stage is None
    &&& update.state == state
    &&& update.content@ == content
    &&& update.detail@ == detail
    &&& views(update.merged_sections@) == merged.0
    &&& update.merged_summary@ == merged.1
}

/// Adds the end of a compaction to the log. Nothing happens where it never started. `sections` are
/// the answers of its stages but the first, and `merged_summary` is the summary that they give.
pub fn append_compact_terminal(
    edb: &mut EventDataBase,
    compact_id: EventId,
    state: CompactState,
    content: &str,
    detail: &str,
    sections: Vec<String>,
    merged_summary: &str,
) -> (id: Option<EventId>)
    requires
        old(edb).room(1),
    ensures
        match compact_with(old(edb)@, compact_id) {
            None => id is None && *final(edb) == *old(edb),
            Some(started) => {
                &&& id == Some(old(edb).next_id)
                &&& final(edb).grown(old(edb), 1)
                &&& is_compact_end(
                    final(edb).added(old(edb), 0),
                    compact_id,
                    started,
                    state,
                    content@,
                    detail@,
                    (views(sections@), merged_summary@),
                )
            },
        },
        old(edb).wf() ==> final(edb).wf(),
{
    let update = match find_compact(&edb.events, compact_id) {
        None => {
            return None;
        },
        Some(started) => CompactStateUpdate {
            compact_id,
            tool_call_id: started.tool_call_id,
            prompt_id: started.prompt_id,
            kind: started.kind,
            total_stages: started.total_stages,
            stage: None,
            state,
            content: content.to_owned(),
            detail: detail.to_owned(),
            accepted_count: started.accepted_count,
            stages: None,
            merged_sections: sections,
            merged_summary: merged_summary.to_owned(),
        },
    };
    Some(edb.append(EventBody::CompactStateUpdate(update)))
}

/// No sections.
pub fn no_sections() -> (sections: Vec<String>)
    ensures
        views(sections@) == Seq::<Seq<char>>::empty(),
{
    let sections: Vec<String> = Vec::new();
    assert(views(sections@) =~= Seq::<Seq<char>>::empty());
    sections
}

/// The compaction that is left open, if the last one is.
pub open spec fn left_open(records: Seq<CompactRecord>) -> Option<EventId> {
    if records.len() > 0 && records.last().state == CompactState::Started {
        Some(records.last().compact_id)
    } else {
        None
    }
}

/// After a restart, interrupts the compaction that was left open.
pub fn reconcile_compact_states(edb: &mut EventDataBase) -> (result: Result<
    (),
    CompactHistoryError,
>)
    requires
        compact_histories(old(edb)@, old(edb)@.len() as int) matches Ok(history) ==> left_open(
            history.0,
        ) is Some ==> old(edb).room(1),
    ensures
        match compact_histories(old(edb)@, old(edb)@.len() as int) {
            Err(error) => result == Err::<(), CompactHistoryError>(error) && *final(edb) == *old(
                edb,
            ),
            Ok(history) => result is Ok && compact_reconciled(old(edb), final(edb), history.0),
        },
        old(edb).wf() ==> final(edb).wf(),
{
    let records = match compact_states(edb) {
        Err(error) => {
            return Err(error);
        },
        Ok(records) => records,
    };
    if records.len() > 0 {
        let last = records[records.len() - 1];
        if last.state == CompactState::Started {
            append_compact_terminal(
                edb,
                last.compact_id,
                CompactState::Interrupted,
                "",
                RESTART_COMPACT_DETAIL,
                no_sections(),
                "",
            );
        }
    }
    Ok(())
}

/// Whether the log after is the log before with what a restart says of the compaction that was
/// left open.
pub open spec fn compact_reconciled(
    before: &EventDataBase,
    after: &EventDataBase,
    records: Seq<CompactRecord>,
) -> bool {
    match left_open(records) {
        None => *after == *before,
        Some(compact_id) => match compact_with(before@, compact_id) {
            None => *after == *before,
            Some(started) => after.grown(before, 1) && is_compact_end(
                after.added(before, 0),
                compact_id,
                started,
                CompactState::Interrupted,
                ""@,
                RESTART_COMPACT_DETAIL@,
                (Seq::empty(), ""@),
            ),
        },
    }
}

/// What the records say of the open compaction: it is the last one, it started in the log, and
/// the others have ended.
proof fn lemma_records(events: Seq<Event>, count: int)
    requires
        ids_increase(events),
        0 <= count <= events.len(),
        compact_histories(events, count) is Ok,
    ensures
        ({
            let history = compact_histories(events, count)->Ok_0;
            match history.1 {
                None => left_open(history.0) is None,
                Some((open, _)) => {
                    &&& left_open(history.0) == Some(open.compact_id)
                    &&& compact_with(events, open.compact_id) matches Some(started)
                    &&& started.compact_id == open.compact_id
                },
            }
        }),
    decreases count,
{
    if count > 0 {
        lemma_records(events, count - 1);
        crate::event::lemma_order_of_event(events, count - 1);
    }
}

proof fn lemma_compact_push(events: Seq<Event>, event: Event, count: int)
    requires
        ids_increase(events.push(event)),
        0 <= count <= events.len(),
        event.body is CompactStateUpdate,
        compact_histories(events, count) is Ok,
    ensures
        compact_histories(events.push(event), count) == compact_histories(events, count),
    decreases count,
{
    let longer = events.push(event);
    assert(ids_increase(events)) by {
        assert forall|i: int, j: int| 0 <= i < j < events.len() implies #[trigger] events[i].id
            < #[trigger] events[j].id by {
            assert(longer[i].id < longer[j].id);
        }
    }
    if count > 0 {
        lemma_compact_push(events, event, count - 1);
        lemma_records(events, count - 1);
        let step = events[count - 1];
        assert(longer[count - 1] == step);
        assert(step.id < event.id) by {
            assert(longer[count - 1].id < longer[events.len() as int].id);
        }
        if let EventBody::CompactStateUpdate(update) = step.body {
            crate::event::lemma_event_with_push(events, event, update.tool_call_id);
            crate::event::lemma_event_with_push(events, event, update.compact_id);
            let history = compact_histories(events, count - 1)->Ok_0;
            lemma_succeeded_push(events, event, update.tool_call_id, step.id);
            if let Some((open, stages)) = history.1 {
                crate::event::lemma_event_with_push(events, event, open.compact_id);
                let started = compact_with(events, open.compact_id)->0;
                lemma_completed_push(
                    events,
                    event,
                    started.prompt_id,
                    open.previous_event_id,
                    step.id,
                );
                lemma_completed_push(events, event, started.prompt_id, update.compact_id, step.id);
            }
        }
    }
}

proof fn lemma_succeeded_push(
    events: Seq<Event>,
    event: Event,
    tool_call: EventId,
    before: EventId,
)
    requires
        event.body is CompactStateUpdate,
    ensures
        succeeded_before(events.push(event), tool_call, before) == succeeded_before(
            events,
            tool_call,
            before,
        ),
{
    let longer = events.push(event);
    if succeeded_before(longer, tool_call, before) {
        let i = choose|i: int|
            0 <= i < longer.len() && succeeds_before(#[trigger] longer[i], tool_call, before);
        assert(longer[i] == events[i]);
    }
    if succeeded_before(events, tool_call, before) {
        let i = choose|i: int|
            0 <= i < events.len() && succeeds_before(#[trigger] events[i], tool_call, before);
        assert(longer[i] == events[i]);
    }
}

proof fn lemma_completed_push(
    events: Seq<Event>,
    event: Event,
    prompt: EventId,
    after: EventId,
    before: EventId,
)
    requires
        event.body is CompactStateUpdate,
    ensures
        request_completed_between(events.push(event), prompt, after, before)
            == request_completed_between(events, prompt, after, before),
{
    let longer = events.push(event);
    assert forall|i: int| 0 <= i < events.len() implies longer[i] == events[i] by {}
    assert forall|p: int| 0 <= p < events.len() implies #[trigger] completes_request(
        longer,
        p,
        prompt,
        after,
        before,
    ) == completes_request(events, p, prompt, after, before) by {
        if completes_request(longer, p, prompt, after, before) {
            let i = choose|i: int|
                0 <= i < p && request_event_between(#[trigger] longer[i], prompt, after, before)
                    && request_of(longer[i]) == request_of(longer[p]) && state_of(longer[i])
                    == crate::event::ApiState::Requesting;
            assert(events[i] == longer[i]);
            assert forall|k: int|
                p < k < events.len() && request_event_between(
                    #[trigger] events[k],
                    prompt,
                    after,
                    before,
                ) implies request_of(events[k]) != request_of(events[p]) by {
                assert(longer[k] == events[k]);
            }
        }
        if completes_request(events, p, prompt, after, before) {
            let i = choose|i: int|
                0 <= i < p && request_event_between(#[trigger] events[i], prompt, after, before)
                    && request_of(events[i]) == request_of(events[p]) && state_of(events[i])
                    == crate::event::ApiState::Requesting;
            assert(events[i] == longer[i]);
            assert forall|k: int|
                p < k < longer.len() && request_event_between(
                    #[trigger] longer[k],
                    prompt,
                    after,
                    before,
                ) implies request_of(longer[k]) != request_of(longer[p]) by {
                if k < events.len() {
                    assert(longer[k] == events[k]);
                }
            }
        }
    }
    if request_completed_between(longer, prompt, after, before) {
        let p = choose|p: int|
            0 <= p < longer.len() && #[trigger] completes_request(longer, p, prompt, after, before);
        assert(p < events.len());
        assert(completes_request(events, p, prompt, after, before));
    }
    if request_completed_between(events, prompt, after, before) {
        let p = choose|p: int|
            0 <= p < events.len() && #[trigger] completes_request(events, p, prompt, after, before);
        assert(completes_request(longer, p, prompt, after, before));
    }
}

/// A restart leaves no compaction open, and the history still keeps the rules of compaction.
pub proof fn law_restart_closes_compaction(
    before: &EventDataBase,
    after: &EventDataBase,
    history: CompactHistory,
)
    requires
        before.wf(),
        compact_histories(before@, before@.len() as int) == Ok::<_, CompactHistoryError>(history),
        compact_reconciled(before, after, history.0),
    ensures
        compact_histories(after@, after@.len() as int) matches Ok(later) && later.1 is None
            && left_open(later.0) is None,
{
    lemma_records(before@, before@.len() as int);
    if let Some((open, stages)) = history.1 {
        let event = after@.last();
        assert(after.added(before, 0) == event.body);
        assert(after@ =~= before@.push(event));
        crate::event::lemma_grown_wf(before, after, 1);
        lemma_compact_push(before@, event, before@.len() as int);
        crate::event::lemma_event_with_push(before@, event, open.compact_id);
        reveal_strlit("");
        reveal_strlit("orchestrator restarted before Compact completed");
        let detail = RESTART_COMPACT_DETAIL@;
        assert(detail[0] == 'o');
        assert(!crate::text::is_white_space(detail[0]));
        assert(!is_blank(detail));
    }
}

/// Every compaction of a history that keeps the rules and completed in several stages went through
/// the whole plan of its kind, and its summary is the one that the answers of its stages but the
/// first give.
pub proof fn law_completed_went_through_the_plan(events: Seq<Event>, place: int)
    requires
        ids_increase(events),
        0 <= place < events.len(),
        compact_histories(events, place + 1) is Ok,
        events[place].body matches EventBody::CompactStateUpdate(update) && update.state
            == CompactState::Completed,
    ensures
        ({
            let update = events[place].body->CompactStateUpdate_0;
            let history = compact_histories(events, place)->Ok_0;
            &&& compact_with(events, update.compact_id) matches Some(started)
            &&& history.1 matches Some((open, stages))
            &&& open.compact_id == update.compact_id
            &&& started.kind.multi_turn() ==> (started.stages matches Some(plan) && stage_names(
                stages,
            ) == plan@ && views(update.merged_sections@) == sections(stages) && update.content@
                == update.merged_summary@)
            &&& !started.kind.multi_turn() ==> request_completed_between(
                events,
                started.prompt_id,
                update.compact_id,
                events[place].id,
            )
        }),
{
}

} // verus!
