//! What can be relied on of what an agent is asked: what becomes of a prompt, of a change of the
//! model or the effort, and of going back, and where a turn stands by its log.
use vstd::prelude::*;

use crate::config::{lemma_model_place, models_view, text_in, ModelView};
use crate::event::{
    lemma_order_of, order_of, AgentTurnState, ApiState, Computed, EdbMutation, Event, EventBody,
    EventDataBase, EventId,
};
use crate::input_queue::OrchestratorInput;
use crate::inputs::{
    effort_change, input_applied, last_effort, last_model, restore_problem, restored, rewound,
    running_input_applied, running_step, selected, selection_problem, setting_applied, AgentDesk,
    RunningStep,
};
use crate::model_api::ModelRuntime;
use crate::turns::{
    aborted, active_turn, answered, called_tool, closing, latest_prompt, latest_request, reached,
    restart_end, settled, turn_state, LatestTurn, TurnError, UserTurnState,
};

verus! {

/// The model and the effort of a log are those of its last change, whatever follows that is none.
pub proof fn law_last_change_counts(events: Seq<Event>, event: Event)
    ensures
        last_model(events.push(event)) == (match event.body {
            EventBody::ModelChanged(changed) => Some(changed.model@),
            _ => last_model(events),
        }),
        last_effort(events.push(event)) == (match event.body {
            EventBody::ReasoningEffortChanged(changed) => Some(changed.effort@),
            _ => last_effort(events),
        }),
        last_model(Seq::empty()) is None,
        last_effort(Seq::empty()) is None,
{
    assert(events.push(event).drop_last() =~= events);
}

proof fn lemma_grown_by_one(before: &EventDataBase, after: &EventDataBase)
    requires
        after.grown(before, 1),
    ensures
        after@ == before@.push(after@.last()),
        after@.last().body == after.added(before, 0),
        after@.last().id == before.next_id,
{
    assert(after@ =~= after@.take(before@.len() as int).push(after@.last()));
}

proof fn lemma_grown_by_two(before: &EventDataBase, after: &EventDataBase)
    requires
        after.grown(before, 2),
    ensures
        after@ == before@.push(after@[before@.len() as int]).push(after@.last()),
        after@[before@.len() as int].body == after.added(before, 0),
        after@.last().body == after.added(before, 1),
{
    let start = after@.take(before@.len() as int);
    assert(after@ =~= start.push(after@[before@.len() as int]).push(after@.last()));
}

/// A choice of a model leaves the log with that model as its last, and with the effort that is taken
/// up, and the agent with an effort that its model takes; the model that is taken up is the one of
/// the name.
pub proof fn law_chosen_model_is_taken_up(
    model: Seq<char>,
    requested: Option<Seq<char>>,
    old_effort: Option<String>,
    old_edb: &EventDataBase,
    old_models: &ModelRuntime,
    new_effort: Option<String>,
    new_edb: &EventDataBase,
    new_models: &ModelRuntime,
)
    requires
        selected(
            model,
            requested,
            old_effort,
            old_edb,
            old_models,
            new_effort,
            new_edb,
            new_models,
        ),
        selection_problem(models_view(old_models.models@), model, requested) is None,
    ensures
        last_model(new_edb@) == Some(model),
        last_model(old_edb@) != Some(model) ==> new_models.active.model@.name == model,
        requested matches Some(effort) ==> (match new_effort {
            Some(named) => named@ == effort,
            None => effort == "unset"@,
        }),
        requested is None ==> new_models.active.model@.takes_effort(
            match new_effort {
                Some(named) => named@,
                None => "unset"@,
            },
        ),
        new_effort != old_effort ==> last_effort(new_edb@) == text_in(new_effort),
        new_models.models == old_models.models,
{
    lemma_model_place(models_view(old_models.models@), model);
    let count = new_edb@.len() - old_edb@.len();
    if count == 0 {
        assert(new_edb@ =~= old_edb@) by {
            assert(new_edb@ =~= new_edb@.take(old_edb@.len() as int));
        }
    } else if count == 1 {
        lemma_grown_by_one(old_edb, new_edb);
        law_last_change_counts(old_edb@, new_edb@.last());
    } else {
        lemma_grown_by_two(old_edb, new_edb);
        let first = new_edb@[old_edb@.len() as int];
        law_last_change_counts(old_edb@, first);
        law_last_change_counts(old_edb@.push(first), new_edb@.last());
    }
}

/// A model can be chosen if and only if one has the name, requests to it can be made, and it takes
/// the effort that is asked for with it.
pub proof fn law_models_that_can_be_chosen(
    models: Seq<ModelView>,
    model: Seq<char>,
    requested: Option<Seq<char>>,
    place: int,
)
    requires
        0 <= place < models.len(),
        models[place].name == model,
        forall|i: int| 0 <= i < place ==> (#[trigger] models[i]).name != model,
    ensures
        selection_problem(models, model, requested) is None <==> models[place].provider.implemented()
            && (requested matches Some(effort) ==> models[place].takes_effort(effort)),
{
    lemma_model_place(models, model);
    let found = crate::config::model_place(models, model)->0;
    if found < place {
        assert(models[found].name == model);
    } else if found > place {
        assert(models[place].name != model);
    }
}

/// No model can be chosen by a name that none has.
pub proof fn law_unknown_models_are_refused(
    models: Seq<ModelView>,
    model: Seq<char>,
    requested: Option<Seq<char>>,
)
    requires
        forall|i: int| 0 <= i < models.len() ==> (#[trigger] models[i]).name != model,
    ensures
        selection_problem(models, model, requested) is Some,
{
    lemma_model_place(models, model);
}

/// An effort is changed only where it has to be: to the one that is asked for, or to none where the
/// model does not take the one that counts.
pub proof fn law_efforts_change_only_for_cause(
    active: ModelView,
    current: Seq<char>,
    requested: Option<Seq<char>>,
)
    ensures
        requested is None && active.takes_effort(current) ==> effort_change(
            active,
            current,
            requested,
        ) is None,
        requested == Some(current) ==> effort_change(active, current, requested) is None,
        effort_change(active, current, requested) matches Some((effort, cause)) ==> effort
            != current || !active.takes_effort(current),
        requested is None && !active.takes_effort(current) ==> (effort_change(
            active,
            current,
            requested,
        ) matches Some((effort, cause)) && effort == "unset"@),
{
}

/// What becomes of a setting: an effort is taken up if and only if the model takes it, and is then
/// the last of the log; clearing the context adds one event that says so; neither touches the
/// models.
pub proof fn law_settings_are_carried_out(
    input: OrchestratorInput,
    before: &AgentDesk,
    after: &AgentDesk,
    result: Result<(), Seq<char>>,
)
    requires
        setting_applied(input, before, after, result),
    ensures
        input matches OrchestratorInput::ChangeEffort(next) ==> (result is Ok
            <==> before.models.active.model@.takes_effort(next@)) && (result is Ok ==> last_effort(
            after.edb@,
        ) == Some(next@) && after.effort == Some(next) && after.models == before.models
            && after.edb@.len() == before.edb@.len() + 1 && last_model(after.edb@) == last_model(
            before.edb@,
        )),
        input is ClearContext ==> result is Ok && after.edb@.len() == before.edb@.len() + 1
            && after.edb@.last().body is ContextCleared && after.edb@.drop_last() == before.edb@
            && after.effort == before.effort && after.models == before.models,
        input matches OrchestratorInput::ChangeModel(model) ==> (result is Ok
            <==> selection_problem(models_view(before.models.models@), model@, None) is None) && (
        result is Ok ==> last_model(after.edb@) == Some(model@)),
        input matches OrchestratorInput::RewindContext(target) ==> (order_of(
            before.edb@,
            target,
        ) is None ==> result is Err && *after == *before),
{
    match input {
        OrchestratorInput::ChangeEffort(next) => {
            if result is Ok {
                lemma_grown_by_one(&before.edb, &after.edb);
                law_last_change_counts(before.edb@, after.edb@.last());
            }
        },
        OrchestratorInput::ClearContext => {
            lemma_grown_by_one(&before.edb, &after.edb);
            assert(after.edb@.drop_last() =~= before.edb@);
        },
        OrchestratorInput::ChangeModel(model) => {
            if result is Ok {
                law_chosen_model_is_taken_up(
                    model@,
                    None,
                    before.effort,
                    &before.edb,
                    &before.models,
                    after.effort,
                    &after.edb,
                    &after.models,
                );
            }
        },
        _ => {},
    }
}

/// Going back takes the event and all behind it away, leaves all before it as they were, uses no
/// identity again, and hands the user the prompt that was taken away.
pub proof fn law_going_back_takes_only_what_follows(
    earlier: &EventDataBase,
    later: &EventDataBase,
    target: EventId,
    place: int,
)
    requires
        order_of(earlier@, target) is Some,
        rewound(earlier, later, target, order_of(earlier@, target)->0),
    ensures
        ({
            let order = order_of(earlier@, target)->0;
            &&& later@.len() == order
            &&& 0 <= order < earlier@.len()
            &&& earlier@[order].id == target
            &&& 0 <= place < later@.len() ==> later@[place] == earlier@[place] && later@[place].id
                != target
            &&& later.next_id == earlier.next_id
            &&& later.mutation_revision > earlier.mutation_revision
            &&& earlier@[order].body matches EventBody::UserPrompt(content) ==> (
            later.last_mutation matches Some(EdbMutation::Rewind {
                target_event_id,
                restored_prompt_content,
            }) && target_event_id == target && restored_prompt_content == Some(content))
        }),
{
    lemma_order_of(earlier@, target);
}

/// What an agent takes up of a log: the last model, if it can be talked to, and the last effort; it
/// succeeds if and only if the log has both.
pub proof fn law_logs_are_taken_up(
    events: Seq<Event>,
    old_effort: Option<String>,
    old_models: &ModelRuntime,
    new_effort: Option<String>,
    new_models: &ModelRuntime,
    result: Result<(), Seq<char>>,
)
    requires
        events.len() > 0,
        restored(events, old_effort, old_models, new_effort, new_models, result),
    ensures
        result is Ok <==> restore_problem(events, old_models) is None,
        result is Ok ==> last_model(events) is Some && text_in(new_effort) == last_effort(events)
            && last_effort(events) is Some && Some(new_models.active.model@.name) == last_model(
            events,
        ),
        last_model(events) is None || last_effort(events) is None ==> result is Err && new_effort
            == old_effort,
        new_models.models == old_models.models,
{
    if let Some(model) = last_model(events) {
        lemma_model_place(models_view(old_models.models@), model);
    }
}

/// A prompt to an agent that rests begins a turn: the prompt stands in the log as it was asked, a
/// reminder of open work behind it where there is any, and then the turn of that prompt begins.
/// Nothing else changes.
pub proof fn law_prompts_begin_turns(
    input: OrchestratorInput,
    remind: bool,
    open_work: Computed<bool>,
    before: &AgentDesk,
    after: &AgentDesk,
    result: Result<(), Seq<char>>,
)
    requires
        input_applied(input, remind, open_work, before, after, result),
        input is UserPrompt || input is ManagerPrompt || input is ParentAgentPrompt,
    ensures
        result is Err <==> input is UserPrompt && remind && open_work is Failure,
        result is Err ==> *after == *before,
        result is Ok ==> {
            let reminded = input is UserPrompt && remind && open_work == Computed::<bool>::Value(
                true,
            );
            let first = after.edb@[before.edb@.len() as int];
            &&& after.edb@.len() == before.edb@.len() + (if reminded {
                3int
            } else {
                2
            })
            &&& after.edb@.take(before.edb@.len() as int) == before.edb@
            &&& first.id == before.edb.next_id
            &&& first.body == (match input {
                OrchestratorInput::UserPrompt(content) => EventBody::UserPrompt(content),
                OrchestratorInput::ManagerPrompt(content) => EventBody::ManagerPrompt(content),
                OrchestratorInput::ParentAgentPrompt(content) => EventBody::ParentAgentPrompt(
                    content,
                ),
                _ => first.body,
            })
            &&& after.edb@.last().body matches EventBody::AgentTurn(step)
            &&& step.prompt_id == first.id
            &&& step.turn_id == first.id
            &&& step.state == AgentTurnState::Started
            &&& reminded ==> (after.edb@[before.edb@.len() as int + 1].body matches
                EventBody::WorkMapPendingReminder(reminder) && reminder.prompt_id == first.id)
            &&& after.effort == before.effort
            &&& after.models == before.models
        },
{
}

/// What the user asks while a turn runs is heard in that turn, as it was asked; a prompt of another
/// agent is refused; only a change of the context ends the turn, and clearing it also ends what the
/// tools keep running.
pub proof fn law_prompts_are_heard_in_a_running_turn(
    input: OrchestratorInput,
    prompt_id: EventId,
    before: &AgentDesk,
    after: &AgentDesk,
    result: Result<(), Seq<char>>,
)
    requires
        running_input_applied(input, prompt_id, before, after, result),
    ensures
        input matches OrchestratorInput::UserPrompt(asked) ==> result is Ok && after.edb@.len()
            == before.edb@.len() + 1 && (after.edb@.last().body matches EventBody::FollowUpPrompt(
            heard,
        ) && heard.prompt_id == prompt_id && heard.content == asked) && after.edb@.drop_last()
            == before.edb@ && after.effort == before.effort && after.models == before.models,
        input is ManagerPrompt || input is ParentAgentPrompt ==> result is Err && *after == *before,
        running_step(input) != RunningStep::Applied <==> input is ClearContext || input
            is RewindContext,
        running_step(input) == (RunningStep::Stopped { reset_sessions: true }) <==> input
            is ClearContext,
{
    if input is UserPrompt {
        lemma_grown_by_one(&before.edb, &after.edb);
        assert(after.edb@.drop_last() =~= before.edb@);
    }
}

/// A turn stands by its latest prompt: it is over or ends if and only if it was aborted, over once
/// nothing of it is left running; else it is complete once a request that called no tool has its
/// whole answer or ended; it is active where none was made yet.
pub proof fn law_turns_stand_by_their_log(effective: Seq<Event>)
    ensures
        turn_state(effective) is None <==> latest_prompt(effective) is None,
        latest_prompt(effective) matches Some(prompt) ==> {
            let state = turn_state(effective)->0;
            &&& aborted(effective, prompt) <==> state == UserTurnState::Aborted(prompt) || state
                == UserTurnState::Aborting(prompt)
            &&& state == UserTurnState::Aborted(prompt) <==> aborted(effective, prompt) && settled(
                effective,
                prompt,
            )
            &&& !aborted(effective, prompt) && latest_request(effective, prompt) is None ==> state
                == UserTurnState::Active(prompt)
            &&& !aborted(effective, prompt) && (latest_request(effective, prompt) matches Some(call)
                && !called_tool(effective, call) && answered(effective, prompt, call)) ==> state
                == UserTurnState::Completed(prompt)
            &&& !aborted(effective, prompt) && (latest_request(effective, prompt) matches Some(call)
                && (reached(effective, call) == Some(ApiState::Error) || reached(effective, call)
                == Some(ApiState::Interrupted))) ==> state == UserTurnState::Completed(prompt)
            &&& !aborted(effective, prompt) && (latest_request(effective, prompt) matches Some(call)
                && called_tool(effective, call) && reached(effective, call) == Some(
                ApiState::Completed,
            )) ==> state == UserTurnState::Active(prompt)
            &&& !aborted(effective, prompt) && (latest_request(effective, prompt) matches Some(call)
                && !answered(effective, prompt, call) && (reached(effective, call) == Some(
                ApiState::Requesting,
            ) || reached(effective, call) == Some(ApiState::Streaming) || reached(effective, call)
                == Some(ApiState::Retrying))) ==> state == UserTurnState::Active(prompt)
            &&& active_turn(effective) == Some(prompt) <==> state == UserTurnState::Active(prompt)
            &&& active_turn(effective) matches Some(other) ==> other == prompt
        },
{
}

/// The latest prompt, the latest request of a turn and the state that a request has reached are
/// those of the last event that says so.
pub proof fn law_latest_word_counts(events: Seq<Event>, event: Event, prompt: EventId, call: EventId)
    ensures
        latest_prompt(events.push(event)) == (if event.body is UserPrompt || event.body
            is ManagerPrompt || event.body is ParentAgentPrompt {
            Some(event.id)
        } else {
            latest_prompt(events)
        }),
        latest_request(events.push(event), prompt) == (match event.body {
            EventBody::ApiStateUpdate(update) => if update.prompt_id == prompt && update.state
                == ApiState::Requesting {
                Some(update.api_call_id)
            } else {
                latest_request(events, prompt)
            },
            _ => latest_request(events, prompt),
        }),
        reached(events.push(event), call) == (match event.body {
            EventBody::ApiStateUpdate(update) => if update.api_call_id == call {
                Some(update.state)
            } else {
                reached(events, call)
            },
            _ => reached(events, call),
        }),
{
    assert(events.push(event).drop_last() =~= events);
}

/// The turn of a prompt is closed only if the prompt is there, the turn is its own, and it has not
/// ended; a restart completes a turn only if it was answered.
pub proof fn law_only_open_turns_are_closed(
    events: Seq<Event>,
    latest: Option<LatestTurn>,
    prompt: EventId,
    effective: Seq<Event>,
    turn: LatestTurn,
)
    ensures
        closing(events, latest, prompt) matches Ok(Some(closed)) ==> latest == Some(closed)
            && closed.prompt_id == prompt && !closed.state.terminal() && (
        crate::event::event_with(events, prompt) matches Some(asked) && asked.root_prompt()),
        crate::event::event_with(events, prompt) matches Some(asked) && asked.root_prompt() && (
        latest matches Some(open) && open.prompt_id == prompt && !open.state.terminal())
            ==> closing(events, latest, prompt) == Ok::<Option<LatestTurn>, TurnError>(latest),
        restart_end(effective, turn) == AgentTurnState::Completed <==> turn_state(effective) == Some(
            UserTurnState::Completed(turn.prompt_id),
        ),
        restart_end(effective, turn) == AgentTurnState::Completed || restart_end(effective, turn)
            == AgentTurnState::Interrupted,
{
}

} // verus!
