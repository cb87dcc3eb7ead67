//! The loop of a turn: ask the model, run the tools that it calls, until it has answered.
use vstd::prelude::*;

use crate::compacts::COMPACT_TOOL;
use crate::event::{event_with, AgentTurnState, Event, EventBody, EventDataBase, EventId};
use crate::input_queue::OrchestratorInputQueue;
use crate::text::{decimal, same, say1};
use crate::tools::{is_success, tool_call_succeeded, ToolExecutionOutcome};

verus! {

/// What came of looking for what is asked while the turn runs: the turn is to end, its context is
/// gone, or it goes on.
#[derive(Clone, Copy, Debug, PartialEq, Eq, Structural)]
pub enum InputsOutcome {
    Aborted,
    Stopped,
    Done,
}

/// What came of asking the model. The calls are those of tools, in their order.
#[derive(Debug)]
pub enum ModelRequestOutcome {
    Completed(Vec<EventId>),
    Aborted,
    Interrupted,
}

/// What came of a compaction.
#[derive(Clone, Copy, Debug, PartialEq, Eq, Structural)]
pub enum CompactOutcome {
    Completed,
    Failed,
    Aborted,
}

/// What happened in a turn. `advised` says whether the model was advised to compact.
#[derive(Debug)]
pub enum LoopEvent {
    Inputs(InputsOutcome),
    Answered { outcome: ModelRequestOutcome, advised: bool },
    ToolDone(ToolExecutionOutcome),
    Compacted(CompactOutcome),
}

/// Why a turn ends.
#[derive(Clone, Copy, Debug, PartialEq, Eq, Structural)]
pub enum TurnEnd {
    Answered,
    Aborted,
    ContextControl,
    RequestBroken,
    CompactAborted,
}

impl TurnEnd {
    /// How the turn ends.
    pub open spec fn outcome(self) -> AgentTurnState {
        if self == TurnEnd::Answered {
            AgentTurnState::Completed
        } else {
            AgentTurnState::Interrupted
        }
    }

    /// How the turn ends.
    pub fn state(self) -> (state: AgentTurnState)
        ensures
            state == self.outcome(),
    {
        if self == TurnEnd::Answered {
            AgentTurnState::Completed
        } else {
            AgentTurnState::Interrupted
        }
    }

    /// What is said of the end.
    pub open spec fn text(self) -> Seq<char> {
        match self {
            TurnEnd::Answered => ""@,
            TurnEnd::Aborted => "user requested turn abort"@,
            TurnEnd::ContextControl => "Agent turn stopped by a context control"@,
            TurnEnd::RequestBroken => "model request did not complete normally"@,
            TurnEnd::CompactAborted => "user requested turn abort during Compact"@,
        }
    }

    /// What is said of the end.
    pub fn detail(self) -> (text: &'static str)
        ensures
            text@ == self.text(),
    {
        match self {
            TurnEnd::Answered => "",
            TurnEnd::Aborted => "user requested turn abort",
            TurnEnd::ContextControl => "Agent turn stopped by a context control",
            TurnEnd::RequestBroken => "model request did not complete normally",
            TurnEnd::CompactAborted => "user requested turn abort during Compact",
        }
    }
}

/// What is next in a turn. `Abandon` ends the tool calls from the place on, and then the turn;
/// `Yield` ends them, and what the user added is heard.
#[derive(Clone, Copy, Debug, PartialEq, Eq, Structural)]
pub enum LoopAction {
    TakeInputs,
    RequestModel,
    RunTool(EventId),
    Abandon { from: usize },
    Yield { from: usize },
    Compact(EventId),
    Close(TurnEnd),
    MissingCall(EventId),
    Nothing,
}

/// What a turn waits for.
#[derive(Clone, Copy, Debug, PartialEq, Eq, Structural)]
pub enum LoopPhase {
    Inputs,
    Request,
    Tools,
    FollowUps,
    Compaction,
    Ended,
}

/// A turn that runs. `next` is how many of the tool calls have been started.
#[derive(Debug)]
pub struct AgentLoop {
    pub prompt_id: EventId,
    pub phase: LoopPhase,
    pub compact_warning_latched: bool,
    pub calls: Vec<EventId>,
    pub next: usize,
    pub compact_call: Option<EventId>,
}

/// A turn that runs, as a value.
pub struct LoopView {
    pub prompt: EventId,
    pub phase: LoopPhase,
    pub latched: bool,
    pub calls: Seq<EventId>,
    pub next: int,
    pub compact_call: Option<EventId>,
}

impl View for AgentLoop {
    type V = LoopView;

    open spec fn view(&self) -> LoopView {
        LoopView {
            prompt: self.prompt_id,
            phase: self.phase,
            latched: self.compact_warning_latched,
            calls: self.calls@,
            next: self.next as int,
            compact_call: self.compact_call,
        }
    }
}

/// Whether the identity is that of a tool call.
pub open spec fn is_call(events: Seq<Event>, id: EventId) -> bool {
    event_with(events, id) matches Some(event) && event.body is ToolCall
}

/// Whether the identity is that of a call for a compaction.
pub open spec fn is_compact_call(events: Seq<Event>, id: EventId) -> bool {
    event_with(events, id) matches Some(event) && event.body matches EventBody::ToolCall(call)
        && call.name@ == COMPACT_TOOL@
}

/// The first of the calls that is for a compaction.
pub open spec fn first_compact_call(events: Seq<Event>, calls: Seq<EventId>) -> Option<EventId>
    decreases calls.len(),
{
    if calls.len() == 0 {
        None
    } else if is_compact_call(events, calls[0]) {
        Some(calls[0])
    } else {
        first_compact_call(events, calls.skip(1))
    }
}

/// Whether the tool call succeeded.
pub open spec fn has_succeeded(events: Seq<Event>, tool_call: EventId) -> bool {
    exists|i: int| 0 <= i < events.len() && is_success(#[trigger] events[i], tool_call)
}

/// A turn that has ended.
pub open spec fn ended(turn: LoopView) -> LoopView {
    LoopView { phase: LoopPhase::Ended, ..turn }
}

/// The next tool, or what comes once the tools have run. `abort` says whether the turn is to end.
pub open spec fn next_tool(turn: LoopView, events: Seq<Event>, abort: bool) -> (
    LoopView,
    LoopAction,
) {
    if turn.next >= turn.calls.len() {
        match turn.compact_call {
            Some(call) => if has_succeeded(events, call) {
                (
                    LoopView { phase: LoopPhase::Compaction, ..turn },
                    LoopAction::Compact(call),
                )
            } else {
                (LoopView { phase: LoopPhase::Inputs, ..turn }, LoopAction::TakeInputs)
            },
            None => (LoopView { phase: LoopPhase::Inputs, ..turn }, LoopAction::TakeInputs),
        }
    } else if abort {
        (ended(turn), LoopAction::Abandon { from: turn.next as usize })
    } else if is_call(events, turn.calls[turn.next]) {
        (
            LoopView { phase: LoopPhase::Tools, next: turn.next + 1, ..turn },
            LoopAction::RunTool(turn.calls[turn.next]),
        )
    } else {
        (ended(turn), LoopAction::MissingCall(turn.calls[turn.next]))
    }
}

/// What is next once something happened, and how the turn stands then. What does not belong to
/// the phase changes nothing.
pub open spec fn loop_step(turn: LoopView, event: LoopEvent, events: Seq<Event>, abort: bool) -> (
    LoopView,
    LoopAction,
) {
    match (turn.phase, event) {
        (LoopPhase::Inputs, LoopEvent::Inputs(outcome)) => match outcome {
            InputsOutcome::Aborted => (ended(turn), LoopAction::Close(TurnEnd::Aborted)),
            InputsOutcome::Stopped => (ended(turn), LoopAction::Close(TurnEnd::ContextControl)),
            InputsOutcome::Done => (
                LoopView { phase: LoopPhase::Request, ..turn },
                LoopAction::RequestModel,
            ),
        },
        (LoopPhase::Request, LoopEvent::Answered { outcome, advised }) => {
            let warned = LoopView { latched: turn.latched || advised, ..turn };
            match outcome {
                ModelRequestOutcome::Aborted => (
                    ended(warned),
                    LoopAction::Close(TurnEnd::Aborted),
                ),
                ModelRequestOutcome::Interrupted => (
                    ended(warned),
                    LoopAction::Close(TurnEnd::RequestBroken),
                ),
                ModelRequestOutcome::Completed(calls) => if calls@.len() == 0 {
                    (ended(warned), LoopAction::Close(TurnEnd::Answered))
                } else {
                    next_tool(
                        LoopView {
                            calls: calls@,
                            next: 0,
                            compact_call: first_compact_call(events, calls@),
                            ..warned
                        },
                        events,
                        abort,
                    )
                },
            }
        },
        (LoopPhase::Tools, LoopEvent::ToolDone(outcome)) => if abort {
            (ended(turn), LoopAction::Abandon { from: turn.next as usize })
        } else if outcome == ToolExecutionOutcome::YieldForFollowUp {
            (
                LoopView { phase: LoopPhase::FollowUps, ..turn },
                LoopAction::Yield { from: turn.next as usize },
            )
        } else {
            next_tool(turn, events, abort)
        },
        (LoopPhase::FollowUps, LoopEvent::Inputs(outcome)) => if outcome == InputsOutcome::Stopped {
            (ended(turn), LoopAction::Close(TurnEnd::ContextControl))
        } else {
            (LoopView { phase: LoopPhase::Inputs, ..turn }, LoopAction::TakeInputs)
        },
        (LoopPhase::Compaction, LoopEvent::Compacted(outcome)) => match outcome {
            CompactOutcome::Completed => (
                LoopView { phase: LoopPhase::Inputs, latched: false, ..turn },
                LoopAction::TakeInputs,
            ),
            CompactOutcome::Failed => (
                LoopView { phase: LoopPhase::Inputs, ..turn },
                LoopAction::TakeInputs,
            ),
            CompactOutcome::Aborted => (
                ended(turn),
                LoopAction::Close(TurnEnd::CompactAborted),
            ),
        },
        _ => (turn, LoopAction::Nothing),
    }
}

/// What is said of a tool call that is not in the log.
pub open spec fn missing_call(id: EventId) -> Seq<char> {
    "missing tool call "@ + decimal(id as nat) + ""@
}

/// What is said of a tool call that is not in the log.
pub fn missing_call_message(id: EventId) -> (text: String)
    ensures
        text@ == missing_call(id),
{
    say1("missing tool call ", id, "")
}

fn find_compact_call(edb: &EventDataBase, calls: &Vec<EventId>) -> (found: Option<EventId>)
    requires
        edb.wf(),
    ensures
        found == first_compact_call(edb@, calls@),
{
    let mut place: usize = 0;
    assert(calls@.skip(0) =~= calls@);
    while place < calls.len()
        invariant
            edb.wf(),
            place <= calls@.len(),
            first_compact_call(edb@, calls@.skip(place as int)) == first_compact_call(edb@, calls@),
        decreases calls@.len() - place,
    {
        assert(calls@.skip(place as int).skip(1) =~= calls@.skip(place + 1));
        let id = calls[place];
        if let Some(event) = edb.get(id) {
            if let EventBody::ToolCall(call) = &event.body {
                if same(call.name.as_str(), COMPACT_TOOL) {
                    return Some(id);
                }
            }
        }
        place += 1;
    }
    None
}

impl AgentLoop {
    /// No more tools were started than were called.
    pub open spec fn wf(&self) -> bool {
        self.next <= self.calls@.len()
    }

    /// A turn that begins. What is asked is looked at first.
    pub fn new(prompt_id: EventId) -> (turn: AgentLoop)
        ensures
            turn.wf(),
            turn@ == (LoopView {
                prompt: prompt_id,
                phase: LoopPhase::Inputs,
                latched: false,
                calls: Seq::empty(),
                next: 0,
                compact_call: None,
            }),
    {
        let calls: Vec<EventId> = Vec::new();
        assert(calls@ =~= Seq::<EventId>::empty());
        AgentLoop {
            prompt_id,
            phase: LoopPhase::Inputs,
            compact_warning_latched: false,
            calls,
            next: 0,
            compact_call: None,
        }
    }

    fn next_tool(&mut self, edb: &EventDataBase, abort: bool) -> (action: LoopAction)
        requires
            old(self).wf(),
            edb.wf(),
        ensures
            final(self).wf(),
            next_tool(old(self)@, edb@, abort) == (final(self)@, action),
    {
        if self.next >= self.calls.len() {
            if let Some(call) = self.compact_call {
                if tool_call_succeeded(&edb.events, call) {
                    self.phase = LoopPhase::Compaction;
                    return LoopAction::Compact(call);
                }
            }
            self.phase = LoopPhase::Inputs;
            return LoopAction::TakeInputs;
        }
        if abort {
            self.phase = LoopPhase::Ended;
            return LoopAction::Abandon { from: self.next };
        }
        let id = self.calls[self.next];
        let found = match edb.get(id) {
            Some(event) => match &event.body {
                EventBody::ToolCall(_) => true,
                _ => false,
            },
            None => false,
        };
        if !found {
            self.phase = LoopPhase::Ended;
            return LoopAction::MissingCall(id);
        }
        self.phase = LoopPhase::Tools;
        self.next += 1;
        LoopAction::RunTool(id)
    }

    /// Finds what is next once something happened in the turn.
    pub fn step(
        &mut self,
        event: LoopEvent,
        queue: &OrchestratorInputQueue,
        edb: &EventDataBase,
    ) -> (action: LoopAction)
        requires
            old(self).wf(),
            edb.wf(),
        ensures
            final(self).wf(),
            loop_step(old(self)@, event, edb@, queue.abort_target == old(self).prompt_id) == (
                final(self)@,
                action,
            ),
    {
        let abort = queue.abort_requested(self.prompt_id);
        match (self.phase, event) {
            (LoopPhase::Inputs, LoopEvent::Inputs(outcome)) => match outcome {
                InputsOutcome::Aborted => {
                    self.phase = LoopPhase::Ended;
                    LoopAction::Close(TurnEnd::Aborted)
                },
                InputsOutcome::Stopped => {
                    self.phase = LoopPhase::Ended;
                    LoopAction::Close(TurnEnd::ContextControl)
                },
                InputsOutcome::Done => {
                    self.phase = LoopPhase::Request;
                    LoopAction::RequestModel
                },
            },
            (LoopPhase::Request, LoopEvent::Answered { outcome, advised }) => {
                if advised {
                    self.compact_warning_latched = true;
                }
                match outcome {
                    ModelRequestOutcome::Aborted => {
                        self.phase = LoopPhase::Ended;
                        LoopAction::Close(TurnEnd::Aborted)
                    },
                    ModelRequestOutcome::Interrupted => {
                        self.phase = LoopPhase::Ended;
                        LoopAction::Close(TurnEnd::RequestBroken)
                    },
                    ModelRequestOutcome::Completed(calls) => {
                        if calls.len() == 0 {
                            self.phase = LoopPhase::Ended;
                            return LoopAction::Close(TurnEnd::Answered);
                        }
                        self.compact_call = find_compact_call(edb, &calls);
                        self.calls = calls;
                        self.next = 0;
                        self.next_tool(edb, abort)
                    },
                }
            },
            (LoopPhase::Tools, LoopEvent::ToolDone(outcome)) => {
                if abort {
                    self.phase = LoopPhase::Ended;
                    return LoopAction::Abandon { from: self.next };
                }
                if outcome == ToolExecutionOutcome::YieldForFollowUp {
                    self.phase = LoopPhase::FollowUps;
                    return LoopAction::Yield { from: self.next };
                }
                self.next_tool(edb, abort)
            },
            (LoopPhase::FollowUps, LoopEvent::Inputs(outcome)) => {
                if outcome == InputsOutcome::Stopped {
                    self.phase = LoopPhase::Ended;
                    return LoopAction::Close(TurnEnd::ContextControl);
                }
                self.phase = LoopPhase::Inputs;
                LoopAction::TakeInputs
            },
            (LoopPhase::Compaction, LoopEvent::Compacted(outcome)) => match outcome {
                CompactOutcome::Completed => {
                    self.compact_warning_latched = false;
                    self.phase = LoopPhase::Inputs;
                    LoopAction::TakeInputs
                },
                CompactOutcome::Failed => {
                    self.phase = LoopPhase::Inputs;
                    LoopAction::TakeInputs
                },
                CompactOutcome::Aborted => {
                    self.phase = LoopPhase::Ended;
                    LoopAction::Close(TurnEnd::CompactAborted)
                },
            },
            _ => LoopAction::Nothing,
        }
    }
}

/// Of the tool calls of an answer none is passed over: they run one after another in their order,
/// and where they stop running, all that have not been started are ended.
pub proof fn law_every_call_runs_or_is_ended(
    turn: LoopView,
    event: LoopEvent,
    events: Seq<Event>,
    abort: bool,
)
    requires
        turn.phase == LoopPhase::Tools,
        event is ToolDone,
        0 <= turn.next <= turn.calls.len() <= usize::MAX,
    ensures
        ({
            let (after, action) = loop_step(turn, event, events, abort);
            &&& after.calls == turn.calls
            &&& match action {
                LoopAction::RunTool(id) => turn.next < turn.calls.len() && id
                    == turn.calls[turn.next] && after.next == turn.next + 1 && after.phase
                    == LoopPhase::Tools,
                LoopAction::Abandon { from } => from == turn.next && after.phase
                    == LoopPhase::Ended,
                LoopAction::Yield { from } => from == turn.next && after.phase
                    == LoopPhase::FollowUps,
                LoopAction::MissingCall(id) => turn.next < turn.calls.len() && id
                    == turn.calls[turn.next] && !is_call(events, id),
                LoopAction::Compact(_) => turn.next == turn.calls.len(),
                LoopAction::TakeInputs => turn.next == turn.calls.len(),
                _ => false,
            }
        }),
{
}

/// A turn that has ended stays as it is, whatever happens.
pub proof fn law_ended_turn_stays_ended(
    turn: LoopView,
    event: LoopEvent,
    events: Seq<Event>,
    abort: bool,
)
    requires
        turn.phase == LoopPhase::Ended,
    ensures
        loop_step(turn, event, events, abort) == (turn, LoopAction::Nothing),
{
}

/// The advice to compact stays with the turn until a compaction completes.
pub proof fn law_advice_stays_until_compacted(
    turn: LoopView,
    event: LoopEvent,
    events: Seq<Event>,
    abort: bool,
)
    requires
        turn.latched,
        !(turn.phase == LoopPhase::Compaction && event == LoopEvent::Compacted(
            CompactOutcome::Completed,
        )),
    ensures
        loop_step(turn, event, events, abort).0.latched,
{
}

} // verus!
