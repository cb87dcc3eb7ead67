//! What can be relied on of a turn: what ends it and how, in which order its tools run, when it lets the
//! user speak, and what it remembers of a warning and of an image.
use vstd::prelude::*;

use crate::agent_loop::{
    first_compact_call, has_succeeded, is_call, loop_step, CompactOutcome, InputsOutcome,
    LoopAction, LoopEvent, LoopPhase, LoopView, ModelRequestOutcome, TurnEnd,
};
use crate::context::{context_step, ContextState, MainContextInput};
use crate::event::{Event, EventBody, EventId};
use crate::tools::ToolExecutionOutcome;

verus! {

/// A turn ends as what ended it: by the user, by a change of the context, by a request that broke, by a
/// compaction that the user ended, or with its answer.
pub proof fn law_turns_end_as_what_ended_them(
    turn: LoopView,
    event: LoopEvent,
    events: Seq<Event>,
    abort: bool,
)
    ensures
        ({
            let (after, action) = loop_step(turn, event, events, abort);
            &&& action == LoopAction::Close(TurnEnd::Aborted) <==> {
                ||| turn.phase == LoopPhase::Inputs && event == LoopEvent::Inputs(
                    InputsOutcome::Aborted,
                )
                ||| turn.phase == LoopPhase::Request && (event matches LoopEvent::Answered {
                    outcome,
                    advised,
                } && outcome is Aborted)
            }
            &&& action == LoopAction::Close(TurnEnd::ContextControl) <==> (turn.phase
                == LoopPhase::Inputs || turn.phase == LoopPhase::FollowUps) && event
                == LoopEvent::Inputs(InputsOutcome::Stopped)
            &&& action == LoopAction::Close(TurnEnd::RequestBroken) <==> turn.phase
                == LoopPhase::Request && (event matches LoopEvent::Answered { outcome, advised }
                && outcome is Interrupted)
            &&& action == LoopAction::Close(TurnEnd::CompactAborted) <==> turn.phase
                == LoopPhase::Compaction && event == LoopEvent::Compacted(CompactOutcome::Aborted)
        }),
{
}

/// A warning that the context is nearly full stands from the answer that it came with until a compaction
/// completed, whatever happens between.
pub proof fn law_warnings_stand_until_compacted(
    turn: LoopView,
    event: LoopEvent,
    events: Seq<Event>,
    abort: bool,
)
    ensures
        ({
            let (after, action) = loop_step(turn, event, events, abort);
            &&& turn.phase == LoopPhase::Compaction && event == LoopEvent::Compacted(
                CompactOutcome::Completed,
            ) ==> !after.latched
            &&& turn.phase == LoopPhase::Request && (event matches LoopEvent::Answered {
                outcome,
                advised,
            } && advised) ==> after.latched
            &&& turn.latched && !(turn.phase == LoopPhase::Compaction && event
                == LoopEvent::Compacted(CompactOutcome::Completed)) ==> after.latched
            &&& !turn.latched && !(event matches LoopEvent::Answered { outcome, advised } && advised)
                ==> !after.latched
        }),
{
}

/// The tools of an answer run one after another from the first to the last. Where the turn is to end, or
/// where a wait gives way to the user, those that have not run are named by the first of them.
pub proof fn law_tools_run_one_after_another(
    turn: LoopView,
    outcome: ToolExecutionOutcome,
    events: Seq<Event>,
    abort: bool,
)
    requires
        turn.phase == LoopPhase::Tools,
        0 <= turn.next <= turn.calls.len(),
    ensures
        ({
            let (after, action) = loop_step(turn, LoopEvent::ToolDone(outcome), events, abort);
            &&& after.calls == turn.calls
            &&& abort ==> action == (LoopAction::Abandon { from: turn.next as usize })
            &&& !abort && outcome == ToolExecutionOutcome::YieldForFollowUp ==> action
                == (LoopAction::Yield { from: turn.next as usize }) && after.phase
                == LoopPhase::FollowUps
            &&& !abort && outcome == ToolExecutionOutcome::Completed && turn.next < turn.calls.len()
                && is_call(events, turn.calls[turn.next]) ==> action == LoopAction::RunTool(
                turn.calls[turn.next],
            ) && after.next == turn.next + 1 && after.phase == LoopPhase::Tools
            &&& !abort && outcome == ToolExecutionOutcome::Completed && turn.next < turn.calls.len()
                && !is_call(events, turn.calls[turn.next]) ==> action == LoopAction::MissingCall(
                turn.calls[turn.next],
            )
            &&& !abort && outcome == ToolExecutionOutcome::Completed && turn.next
                == turn.calls.len() ==> {
                &&& turn.compact_call matches Some(call) ==> (has_succeeded(events, call) ==> action
                    == LoopAction::Compact(call))
                &&& turn.compact_call matches Some(call) ==> (!has_succeeded(events, call) ==> action
                    is TakeInputs && after.phase == LoopPhase::Inputs)
                &&& turn.compact_call is None ==> action is TakeInputs && after.phase
                    == LoopPhase::Inputs
            }
        }),
{
}

/// The tools that an answer calls begin to run with the first of them, unless the turn is to end.
pub proof fn law_called_tools_begin_to_run(
    turn: LoopView,
    calls: Vec<EventId>,
    advised: bool,
    events: Seq<Event>,
    abort: bool,
)
    requires
        turn.phase == LoopPhase::Request,
        calls@.len() > 0,
    ensures
        ({
            let event = LoopEvent::Answered {
                outcome: ModelRequestOutcome::Completed(calls),
                advised,
            };
            let (after, action) = loop_step(turn, event, events, abort);
            &&& after.calls == calls@
            &&& after.compact_call == first_compact_call(events, calls@)
            &&& abort ==> action == (LoopAction::Abandon { from: 0 })
            &&& !abort && is_call(events, calls@[0]) ==> action == LoopAction::RunTool(calls@[0])
                && after.next == 1
        }),
{
}

/// Once the user was heard after a wait, or a compaction came to its end, the turn takes up what was
/// asked meanwhile and goes on.
pub proof fn law_turns_go_on_with_what_was_asked(
    turn: LoopView,
    event: LoopEvent,
    events: Seq<Event>,
    abort: bool,
)
    ensures
        turn.phase == LoopPhase::FollowUps && (event matches LoopEvent::Inputs(outcome) && outcome
            != InputsOutcome::Stopped) ==> loop_step(turn, event, events, abort).1 is TakeInputs
            && loop_step(turn, event, events, abort).0.phase == LoopPhase::Inputs,
        turn.phase == LoopPhase::Compaction && (event matches LoopEvent::Compacted(outcome)
            && outcome != CompactOutcome::Aborted) ==> loop_step(turn, event, events, abort).1
            is TakeInputs && loop_step(turn, event, events, abort).0.phase == LoopPhase::Inputs,
        turn.phase == LoopPhase::Ended ==> loop_step(turn, event, events, abort) == (
            turn,
            LoopAction::Nothing,
        ),
{
}

/// An image that a call stored is remembered for that call, by the place of its event; nothing is shown
/// of it yet, and no other image is forgotten.
pub proof fn law_images_are_remembered(
    input: MainContextInput,
    state: ContextState,
    place: int,
    other: EventId,
)
    requires
        0 <= place < input.effective@.len(),
        place <= usize::MAX,
        input.effective@[place].body is ImageContent,
    ensures
        context_step(input, state, place) matches Ok(after) && (
        input.effective@[place].body matches EventBody::ImageContent(image) && {
            &&& after.images.dom().contains(image.tool_call_id)
            &&& after.images[image.tool_call_id] == place
            &&& after.messages == state.messages
            &&& other != image.tool_call_id && state.images.dom().contains(other)
                ==> after.images.dom().contains(other) && after.images[other] == state.images[other]
        }),
{
}

} // verus!
