//! What is asked of an agent, carried out on its log.
use vstd::prelude::*;

use crate::config::{effort_view, models_view, text_in, ModelView, UNSET_EFFORT};
use crate::event::{
    lemma_grown_twice, order_of, AgentTurnState, Computed, Event, EventBody, EventDataBase, EventId,
    ModelChangeCause, ModelChanged, ReasoningEffortChangeCause, ReasoningEffortChanged,
    UserTurnAborted, WorkMapPendingReminder, NO_ABORT_TARGET,
};
use crate::event::{FollowUpPrompt, EdbMutation};
use crate::input_queue::{OrchestratorInput, OrchestratorInputQueue};
use crate::model::unsupported_effort;
use crate::model_api::{activation_problem, no_such_model, validate_effort, ModelRuntime};
use crate::config::model_place;
use crate::text::{decimal, join3, same, say1};
use crate::turns::{active_turn, active_user_turn_id, append_agent_turn, is_turn_step};

verus! {

/// The model that the events leave.
pub open spec fn last_model(events: Seq<Event>) -> Option<Seq<char>>
    decreases events.len(),
{
    if events.len() == 0 {
        None
    } else {
        match events.last().body {
            EventBody::ModelChanged(changed) => Some(changed.model@),
            _ => last_model(events.drop_last()),
        }
    }
}

/// The effort that the events leave.
pub open spec fn last_effort(events: Seq<Event>) -> Option<Seq<char>>
    decreases events.len(),
{
    if events.len() == 0 {
        None
    } else {
        match events.last().body {
            EventBody::ReasoningEffortChanged(changed) => Some(changed.effort@),
            _ => last_effort(events.drop_last()),
        }
    }
}

/// The model that the log leaves.
pub fn latest_model(edb: &EventDataBase) -> (model: Option<&str>)
    ensures
        match model {
            Some(found) => last_model(edb@) == Some(found@),
            None => last_model(edb@) is None,
        },
{
    let mut place: usize = edb.events.len();
    assert(edb@.take(place as int) =~= edb@);
    while place > 0
        invariant
            place <= edb@.len(),
            last_model(edb@.take(place as int)) == last_model(edb@),
        decreases place,
    {
        assert(edb@.take(place as int).drop_last() =~= edb@.take(place - 1));
        place -= 1;
        if let EventBody::ModelChanged(changed) = &edb.events[place].body {
            return Some(changed.model.as_str());
        }
    }
    None
}

/// The effort that the log leaves.
pub fn latest_effort(edb: &EventDataBase) -> (effort: Option<&str>)
    ensures
        match effort {
            Some(found) => last_effort(edb@) == Some(found@),
            None => last_effort(edb@) is None,
        },
{
    let mut place: usize = edb.events.len();
    assert(edb@.take(place as int) =~= edb@);
    while place > 0
        invariant
            place <= edb@.len(),
            last_effort(edb@.take(place as int)) == last_effort(edb@),
        decreases place,
    {
        assert(edb@.take(place as int).drop_last() =~= edb@.take(place - 1));
        place -= 1;
        if let EventBody::ReasoningEffortChanged(changed) = &edb.events[place].body {
            return Some(changed.effort.as_str());
        }
    }
    None
}

/// Whether the event changes the model so.
pub open spec fn is_model_change(
    body: EventBody,
    model: Seq<char>,
    cause: ModelChangeCause,
) -> bool {
    &&& body matches EventBody::ModelChanged(changed)
    &&& changed.model@ == model
    &&& changed.cause == cause
}

/// Whether the event changes the effort so.
pub open spec fn is_effort_change(
    body: EventBody,
    effort: Seq<char>,
    cause: ReasoningEffortChangeCause,
) -> bool {
    &&& body matches EventBody::ReasoningEffortChanged(changed)
    &&& changed.effort@ == effort
    &&& changed.cause == cause
}

/// Adds a change of the model to the log.
pub fn append_model_change(edb: &mut EventDataBase, model: &str, cause: ModelChangeCause)
    requires
        old(edb).room(1),
    ensures
        final(edb).grown(old(edb), 1),
        is_model_change(final(edb).added(old(edb), 0), model@, cause),
        old(edb).wf() ==> final(edb).wf(),
{
    edb.append(EventBody::ModelChanged(ModelChanged { model: model.to_owned(), cause }));
}

/// Adds a change of the effort to the log.
pub fn append_effort_change(
    edb: &mut EventDataBase,
    effort: &str,
    cause: ReasoningEffortChangeCause,
)
    requires
        old(edb).room(1),
    ensures
        final(edb).grown(old(edb), 1),
        is_effort_change(final(edb).added(old(edb), 0), effort@, cause),
        old(edb).wf() ==> final(edb).wf(),
{
    edb.append(
        EventBody::ReasoningEffortChanged(
            ReasoningEffortChanged { effort: effort.to_owned(), cause },
        ),
    );
}

/// What is said of a log without a model.
pub const NO_MODEL_STATE: &'static str = "EDB has no model state";

/// What is said of a log without an effort.
pub const NO_EFFORT_STATE: &'static str = "EDB has no reasoning effort state";

/// The effort that counts.
pub open spec fn current_effort(effort: Option<String>) -> Seq<char> {
    match effort {
        Some(named) => named@,
        None => UNSET_EFFORT@,
    }
}

/// The model that is active once the one of a name has been activated.
pub open spec fn activated(models: &ModelRuntime, name: Seq<char>) -> ModelView {
    if models.active.model@.name == name {
        models.active.model@
    } else {
        models_view(models.models@)[model_place(models_view(models.models@), name)->0]
    }
}

/// What is wrong with taking up the model and the effort that a log leaves.
pub open spec fn restore_problem(events: Seq<Event>, models: &ModelRuntime) -> Option<Seq<char>> {
    match last_model(events) {
        None => Some(NO_MODEL_STATE@),
        Some(model) => if models.active.model@.name != model && activation_problem(
            models_view(models.models@),
            model,
        ) is Some {
            activation_problem(models_view(models.models@), model)
        } else if last_effort(events) is None {
            Some(NO_EFFORT_STATE@)
        } else {
            None
        },
    }
}

/// Whether models are what they are after the model that events leave was taken up: it is the active
/// one, also where the events leave no effort; where they leave no model, or one that cannot be
/// talked to, nothing changes.
pub open spec fn model_taken_up(
    events: Seq<Event>,
    old_models: &ModelRuntime,
    new_models: &ModelRuntime,
) -> bool {
    match last_model(events) {
        None => *new_models == *old_models,
        Some(model) => if old_models.active.model@.name == model || activation_problem(
            models_view(old_models.models@),
            model,
        ) is Some {
            *new_models == *old_models
        } else {
            &&& new_models.active.model@ == activated(old_models, model)
            &&& new_models.models == old_models.models
        },
    }
}

/// What a result says.
pub open spec fn said<T>(result: Result<T, String>) -> Result<T, Seq<char>> {
    match result {
        Ok(value) => Ok(value),
        Err(error) => Err(error@),
    }
}

/// Whether an effort and models are what they are after those that events leave were taken up.
pub open spec fn restored(
    events: Seq<Event>,
    old_effort: Option<String>,
    old_models: &ModelRuntime,
    new_effort: Option<String>,
    new_models: &ModelRuntime,
    result: Result<(), Seq<char>>,
) -> bool {
    if events.len() == 0 {
        result is Ok && new_effort == old_effort && *new_models == *old_models
    } else {
        &&& model_taken_up(events, old_models, new_models)
        &&& match restore_problem(events, old_models) {
            None => result is Ok && text_in(new_effort) == last_effort(events),
            Some(text) => new_effort == old_effort && result == Err::<(), Seq<char>>(text),
        }
    }
}

/// Takes up the model and the effort that the log leaves. An empty log leaves them as they are.
pub fn restore_model_effort(
    effort: &mut Option<String>,
    edb: &EventDataBase,
    models: &mut ModelRuntime,
) -> (result: Result<(), String>)
    requires
        old(models).wf(),
    ensures
        final(models).wf(),
        final(models).models == old(models).models,
        restored(
            edb@,
            *old(effort),
            old(models),
            *final(effort),
            final(models),
            said(result),
        ),
{
    if edb.is_empty() {
        return Ok(());
    }
    let model = match latest_model(edb) {
        Some(model) => model,
        None => return Err(NO_MODEL_STATE.to_owned()),
    };
    match models.activate(model) {
        Ok(()) => {},
        Err(error) => return Err(error),
    }
    match latest_effort(edb) {
        Some(restored) => {
            *effort = Some(restored.to_owned());
            Ok(())
        },
        None => Err(NO_EFFORT_STATE.to_owned()),
    }
}

/// What is wrong with choosing a model and an effort.
pub open spec fn selection_problem(
    models: Seq<ModelView>,
    model: Seq<char>,
    requested: Option<Seq<char>>,
) -> Option<Seq<char>> {
    match model_place(models, model) {
        None => Some(no_such_model(model)),
        Some(place) => match requested {
            Some(effort) => if !models[place].takes_effort(effort) {
                Some(unsupported_effort(models[place].name, effort))
            } else {
                activation_problem(models, model)
            },
            None => activation_problem(models, model),
        },
    }
}

/// The effort that is taken up with a model, if it is another: the one that is asked for, or none
/// where the model does not take the current one.
pub open spec fn effort_change(
    active: ModelView,
    current: Seq<char>,
    requested: Option<Seq<char>>,
) -> Option<(Seq<char>, ReasoningEffortChangeCause)> {
    match requested {
        Some(effort) => if current != effort {
            Some((effort, ReasoningEffortChangeCause::User))
        } else {
            None
        },
        None => if !active.takes_effort(current) {
            Some((UNSET_EFFORT@, ReasoningEffortChangeCause::ModelUnsupported))
        } else {
            None
        },
    }
}

/// One event where something is so.
pub open spec fn one_if(so: bool) -> int {
    if so {
        1
    } else {
        0
    }
}

/// Whether a log, an effort and models are what they are after a model and an effort were chosen.
pub open spec fn selected(
    model: Seq<char>,
    requested: Option<Seq<char>>,
    old_effort: Option<String>,
    old_edb: &EventDataBase,
    old_models: &ModelRuntime,
    new_effort: Option<String>,
    new_edb: &EventDataBase,
    new_models: &ModelRuntime,
) -> bool {
    let switched = last_model(old_edb@) != Some(model);
    let active = if switched {
        activated(old_models, model)
    } else {
        old_models.active.model@
    };
    let change = effort_change(active, current_effort(old_effort), requested);
    &&& new_edb.grown(old_edb, one_if(switched) + one_if(change is Some))
    &&& switched ==> is_model_change(new_edb.added(old_edb, 0), model, ModelChangeCause::User)
    &&& match change {
        Some((effort, cause)) => is_effort_change(
            new_edb.added(old_edb, one_if(switched)),
            effort,
            cause,
        ) && text_in(new_effort) == Some(effort),
        None => new_effort == old_effort,
    }
    &&& new_models.active.model@ == active
    &&& new_models.models == old_models.models
}

/// Chooses a model, and an effort where one is asked for. Where that cannot be done, nothing
/// changes. A current effort that the model does not take gives way to none.
pub fn apply_model_change(
    model: &str,
    requested_effort: Option<&str>,
    effort: &mut Option<String>,
    edb: &mut EventDataBase,
    models: &mut ModelRuntime,
) -> (result: Result<(), String>)
    requires
        old(edb).room(2),
        old(models).wf(),
    ensures
        final(models).wf(),
        final(models).models == old(models).models,
        old(edb).wf() ==> final(edb).wf(),
        match selection_problem(
            models_view(old(models).models@),
            model@,
            effort_view(requested_effort),
        ) {
            Some(text) => {
                &&& *final(effort) == *old(effort)
                &&& *final(edb) == *old(edb)
                &&& *final(models) == *old(models)
                &&& match result {
                    Ok(_) => false,
                    Err(error) => error@ == text,
                }
            },
            None => result is Ok && selected(
                model@,
                effort_view(requested_effort),
                *old(effort),
                old(edb),
                old(models),
                *final(effort),
                final(edb),
                final(models),
            ),
        },
{
    match models.model(model) {
        None => return Err(join3("model ", model, " does not exist")),
        Some(target) => {
            if let Some(requested) = requested_effort {
                match validate_effort(target, requested) {
                    Ok(()) => {},
                    Err(error) => return Err(error),
                }
            }
        },
    }
    match models.validate_activation(model) {
        Ok(()) => {},
        Err(error) => return Err(error),
    }
    let switched = match latest_model(edb) {
        Some(latest) => !same(latest, model),
        None => true,
    };
    if switched {
        append_model_change(edb, model, ModelChangeCause::User);
        match models.activate(model) {
            Ok(()) => {},
            Err(error) => return Err(error),
        }
    }
    let ghost middle = *edb;
    let current = match effort {
        Some(named) => named.clone(),
        None => UNSET_EFFORT.to_owned(),
    };
    assert(current@ == current_effort(*old(effort)));
    match requested_effort {
        Some(requested) => {
            if !same(current.as_str(), requested) {
                append_effort_change(edb, requested, ReasoningEffortChangeCause::User);
                *effort = Some(requested.to_owned());
            }
        },
        None => {
            if !models.active.model.takes(current.as_str()) {
                append_effort_change(
                    edb,
                    UNSET_EFFORT,
                    ReasoningEffortChangeCause::ModelUnsupported,
                );
                *effort = Some(UNSET_EFFORT.to_owned());
            }
        },
    }
    proof {
        let before = one_if(switched);
        let after = edb@.len() - middle@.len();
        assert(middle.grown(old(edb), before)) by {
            assert(old(edb)@.take(old(edb)@.len() as int) =~= old(edb)@);
        }
        assert(edb.grown(&middle, after)) by {
            assert(middle@.take(middle@.len() as int) =~= middle@);
        }
        lemma_grown_twice(old(edb), &middle, edb, before, after);
        assert(edb@.take(middle@.len() as int) == middle@);
        if switched {
            assert(edb@[old(edb)@.len() as int] == middle@[old(edb)@.len() as int]);
        }
    }
    Ok(())
}

/// Chooses a model, and an effort where one is asked for, for the log.
pub fn apply_model_selection(
    edb: &mut EventDataBase,
    models: &mut ModelRuntime,
    model: &str,
    requested_effort: Option<&str>,
) -> (result: Result<(), String>)
    requires
        old(edb).room(2),
        old(models).wf(),
    ensures
        final(models).wf(),
        final(models).models == old(models).models,
        old(edb).wf() ==> final(edb).wf(),
        match last_effort(old(edb)@) {
            None => {
                &&& *final(edb) == *old(edb)
                &&& *final(models) == *old(models)
                &&& match result {
                    Ok(_) => false,
                    Err(error) => error@ == NO_EFFORT_STATE@,
                }
            },
            Some(current) => match selection_problem(
                models_view(old(models).models@),
                model@,
                effort_view(requested_effort),
            ) {
                Some(text) => {
                    &&& *final(edb) == *old(edb)
                    &&& *final(models) == *old(models)
                    &&& match result {
                        Ok(_) => false,
                        Err(error) => error@ == text,
                    }
                },
                None => result is Ok && exists|before: Option<String>, after: Option<String>|
                    current_effort(before) == current && #[trigger] selected(
                        model@,
                        effort_view(requested_effort),
                        before,
                        old(edb),
                        old(models),
                        after,
                        final(edb),
                        final(models),
                    ),
            },
        },
{
    let mut effort = match latest_effort(edb) {
        Some(current) => Some(current.to_owned()),
        None => return Err(NO_EFFORT_STATE.to_owned()),
    };
    apply_model_change(model, requested_effort, &mut effort, edb, models)
}

/// Takes up the model and the effort that the log leaves, or none where the model does not take it.
pub fn reconcile_model_effort(
    effort: &mut Option<String>,
    edb: &mut EventDataBase,
    models: &mut ModelRuntime,
) -> (result: Result<(), String>)
    requires
        old(edb).room(1),
        old(models).wf(),
    ensures
        final(models).wf(),
        final(models).models == old(models).models,
        old(edb).wf() ==> final(edb).wf(),
        if old(edb)@.len() > 0 && restore_problem(old(edb)@, old(models)) is Some {
            &&& *final(edb) == *old(edb)
            &&& *final(effort) == *old(effort)
            &&& model_taken_up(old(edb)@, old(models), final(models))
            &&& match result {
                Ok(_) => false,
                Err(error) => restore_problem(old(edb)@, old(models)) == Some(error@),
            }
        } else {
            let restored = if old(edb)@.len() == 0 {
                current_effort(*old(effort))
            } else {
                last_effort(old(edb)@)->0
            };
            let active = if old(edb)@.len() == 0 {
                old(models).active.model@
            } else {
                activated(old(models), last_model(old(edb)@)->0)
            };
            &&& result is Ok
            &&& final(models).active.model@ == active
            &&& if active.takes_effort(restored) {
                *final(edb) == *old(edb) && current_effort(*final(effort)) == restored
            } else {
                &&& final(edb).grown(old(edb), 1)
                &&& is_effort_change(
                    final(edb).added(old(edb), 0),
                    UNSET_EFFORT@,
                    ReasoningEffortChangeCause::ModelUnsupported,
                )
                &&& text_in(*final(effort)) == Some(UNSET_EFFORT@)
            }
        },
{
    match restore_model_effort(effort, edb, models) {
        Ok(()) => {},
        Err(error) => return Err(error),
    }
    let current = match effort {
        Some(named) => named.clone(),
        None => UNSET_EFFORT.to_owned(),
    };
    if !models.active.model.takes(current.as_str()) {
        append_effort_change(edb, UNSET_EFFORT, ReasoningEffortChangeCause::ModelUnsupported);
        *effort = Some(UNSET_EFFORT.to_owned());
    }
    Ok(())
}

/// What inputs change: the log, the current effort, and the models with the active one.
pub struct AgentDesk {
    pub edb: EventDataBase,
    pub effort: Option<String>,
    pub models: ModelRuntime,
}

impl AgentDesk {
    /// Whether inputs can be carried out: the log is in order and has room.
    pub open spec fn ready(&self) -> bool {
        &&& self.edb.wf()
        &&& self.edb.room(3)
        &&& self.edb.mutation_revision < u64::MAX
        &&& self.models.wf()
    }

    /// Whether the log is in order and the active model can be talked to.
    pub open spec fn wf(&self) -> bool {
        self.edb.wf() && self.models.wf()
    }
}

/// What is said of going back to an event that is not there.
pub open spec fn missing_target(target: EventId) -> Seq<char> {
    "cannot rewind to missing event "@ + decimal(target as nat) + ""@
}

/// Whether a log is what it is after going back to an event.
pub open spec fn rewound(
    earlier: &EventDataBase,
    later: &EventDataBase,
    target: EventId,
    order: int,
) -> bool {
    &&& later@ == earlier@.take(order)
    &&& later.next_id == earlier.next_id
    &&& later.mutation_revision == earlier.mutation_revision + 1
    &&& later.last_mutation matches Some(EdbMutation::Rewind {
        target_event_id,
        restored_prompt_content,
    })
    &&& target_event_id == target
    &&& match earlier@[order].body {
        EventBody::UserPrompt(content) => restored_prompt_content == Some(content),
        _ => restored_prompt_content is None,
    }
}

/// Whether a change of the model, of the effort or of the context was carried out, or why not.
pub open spec fn setting_applied(
    input: OrchestratorInput,
    before: &AgentDesk,
    after: &AgentDesk,
    result: Result<(), Seq<char>>,
) -> bool {
    match input {
        OrchestratorInput::ChangeModel(model) => match selection_problem(
            models_view(before.models.models@),
            model@,
            None,
        ) {
            Some(text) => result == Err::<(), Seq<char>>(text) && *after == *before,
            None => result is Ok && selected(
                model@,
                None,
                before.effort,
                &before.edb,
                &before.models,
                after.effort,
                &after.edb,
                &after.models,
            ),
        },
        OrchestratorInput::ChangeEffort(next) => if before.models.active.model@.takes_effort(
            next@,
        ) {
            &&& result is Ok
            &&& after.edb.grown(&before.edb, 1)
            &&& is_effort_change(
                after.edb.added(&before.edb, 0),
                next@,
                ReasoningEffortChangeCause::User,
            )
            &&& after.effort == Some(next)
            &&& after.models == before.models
        } else {
            &&& result == Err::<(), Seq<char>>(
                unsupported_effort(before.models.active.model@.name, next@),
            )
            &&& *after == *before
        },
        OrchestratorInput::ClearContext => {
            &&& result is Ok
            &&& after.edb.grown(&before.edb, 1)
            &&& after.edb.added(&before.edb, 0) is ContextCleared
            &&& after.effort == before.effort
            &&& after.models == before.models
        },
        OrchestratorInput::RewindContext(target) => match order_of(before.edb@, target) {
            None => result == Err::<(), Seq<char>>(missing_target(target)) && *after == *before,
            Some(order) => {
                &&& rewound(&before.edb, &after.edb, target, order)
                &&& restored(
                    after.edb@,
                    before.effort,
                    &before.models,
                    after.effort,
                    &after.models,
                    result,
                )
            },
        },
        _ => *after == *before && result is Ok,
    }
}

/// Carries out a change of the model, of the effort or of the context.
fn apply_setting(desk: &mut AgentDesk, input: OrchestratorInput) -> (result: Result<(), String>)
    requires
        old(desk).ready(),
    ensures
        final(desk).wf(),
        setting_applied(input, old(desk), final(desk), said(result)),
{
    match input {
        OrchestratorInput::ChangeModel(model) => apply_model_change(
            model.as_str(),
            None,
            &mut desk.effort,
            &mut desk.edb,
            &mut desk.models,
        ),
        OrchestratorInput::ChangeEffort(next) => {
            match validate_effort(&desk.models.active.model, next.as_str()) {
                Ok(()) => {},
                Err(error) => return Err(error),
            }
            append_effort_change(
                &mut desk.edb,
                next.as_str(),
                ReasoningEffortChangeCause::User,
            );
            desk.effort = Some(next);
            Ok(())
        },
        OrchestratorInput::ClearContext => {
            desk.edb.append(EventBody::ContextCleared);
            Ok(())
        },
        OrchestratorInput::RewindContext(target) => {
            if !desk.edb.rewind_to_event(target) {
                return Err(say1("cannot rewind to missing event ", target, ""));
            }
            restore_model_effort(&mut desk.effort, &desk.edb, &mut desk.models)
        },
        _ => Ok(()),
    }
}

/// What came of taking the next input. The sessions of the tools begin anew where the context was
/// cleared.
#[derive(Clone, Copy, Debug, PartialEq, Eq, Structural)]
pub enum InputStep {
    Empty,
    Taken { reset_sessions: bool },
}

/// Whether a turn was begun for a prompt: the prompt, a reminder where work is open, and the
/// beginning of the turn.
pub open spec fn turn_begun(
    before: &AgentDesk,
    after: &AgentDesk,
    prompt: EventBody,
    reminded: bool,
) -> bool {
    let id = before.edb.next_id;
    &&& after.edb.grown(&before.edb, 2 + one_if(reminded))
    &&& after.edb.added(&before.edb, 0) == prompt
    &&& reminded ==> after.edb.added(&before.edb, 1) == EventBody::WorkMapPendingReminder(
        WorkMapPendingReminder { prompt_id: id, work_before: Computed::Value(true) },
    )
    &&& is_turn_step(
        after.edb.added(&before.edb, 1 + one_if(reminded)),
        id,
        id,
        AgentTurnState::Started,
        ""@,
    )
    &&& after.effort == before.effort
    &&& after.models == before.models
}

/// Whether the next input of an agent that rests was carried out, or why not. `remind` says whether
/// the agent is reminded of open work, and `open_work` whether there is any.
pub open spec fn input_applied(
    input: OrchestratorInput,
    remind: bool,
    open_work: Computed<bool>,
    before: &AgentDesk,
    after: &AgentDesk,
    result: Result<(), Seq<char>>,
) -> bool {
    match input {
        OrchestratorInput::UserPrompt(content) => match (remind, open_work) {
            (true, Computed::Failure(reason)) => result == Err::<(), Seq<char>>(reason@) && *after
                == *before,
            _ => result is Ok && turn_begun(
                before,
                after,
                EventBody::UserPrompt(content),
                remind && open_work == Computed::<bool>::Value(true),
            ),
        },
        OrchestratorInput::ManagerPrompt(content) => result is Ok && turn_begun(
            before,
            after,
            EventBody::ManagerPrompt(content),
            false,
        ),
        OrchestratorInput::ParentAgentPrompt(content) => result is Ok && turn_begun(
            before,
            after,
            EventBody::ParentAgentPrompt(content),
            false,
        ),
        _ => setting_applied(input, before, after, result),
    }
}

fn begin_turn(desk: &mut AgentDesk, prompt: EventBody, reminded: bool)
    requires
        old(desk).ready(),
    ensures
        final(desk).wf(),
        turn_begun(old(desk), final(desk), prompt, reminded),
{
    let ghost first = desk.edb;
    let id = desk.edb.append(prompt);
    let ghost second = desk.edb;
    if reminded {
        desk.edb.append(
            EventBody::WorkMapPendingReminder(
                WorkMapPendingReminder { prompt_id: id, work_before: Computed::Value(true) },
            ),
        );
    }
    let ghost third = desk.edb;
    proof {
        assert(third.grown(&second, one_if(reminded))) by {
            assert(second@.take(second@.len() as int) =~= second@);
        }
        lemma_grown_twice(&first, &second, &third, 1, one_if(reminded));
        assert(second.added(&first, 0) == prompt);
        assert(third.added(&first, 0) == prompt);
    }
    append_agent_turn(&mut desk.edb, id, id, AgentTurnState::Started, "");
    proof {
        lemma_grown_twice(&first, &third, &desk.edb, 1 + one_if(reminded), 1);
        assert(desk.edb.added(&first, 0) == third.added(&first, 0));
        assert(desk.edb.added(&third, 0) == desk.edb.added(&first, 1 + one_if(reminded)));
        if reminded {
            assert(third.added(&second, 0) == third.added(&first, 1int + 0));
            assert(desk.edb.added(&first, 1) == third.added(&first, 1));
        }
    }
}

/// What is left of the inputs once the first one is taken.
pub open spec fn taken(
    before: &OrchestratorInputQueue,
    after: &OrchestratorInputQueue,
) -> bool {
    &&& after.pending@ == before.pending@.skip(1)
    &&& after.abort_target == (match before.pending@[0] {
        OrchestratorInput::AbortTurn(prompt) => if before.abort_target == prompt {
            NO_ABORT_TARGET
        } else {
            before.abort_target
        },
        _ => before.abort_target,
    })
}

/// Takes the next input of an agent that rests and carries it out. A prompt begins a turn; the end
/// of a turn is asked of an agent that rests in vain.
pub fn append_next_input(
    queue: &mut OrchestratorInputQueue,
    desk: &mut AgentDesk,
    remind_pending_workmap: bool,
    open_work: Computed<bool>,
) -> (result: Result<InputStep, String>)
    requires
        old(desk).ready(),
    ensures
        final(desk).wf(),
        if old(queue).pending@.len() == 0 {
            &&& result == Ok::<InputStep, String>(InputStep::Empty)
            &&& final(queue).pending@ == old(queue).pending@
            &&& final(queue).abort_target == old(queue).abort_target
            &&& *final(desk) == *old(desk)
        } else {
            let input = old(queue).pending@[0];
            &&& taken(old(queue), final(queue))
            &&& match result {
                Ok(step) => step == InputStep::Taken { reset_sessions: input is ClearContext }
                    && input_applied(
                    input,
                    remind_pending_workmap,
                    open_work,
                    old(desk),
                    final(desk),
                    Ok(()),
                ),
                Err(error) => input_applied(
                    input,
                    remind_pending_workmap,
                    open_work,
                    old(desk),
                    final(desk),
                    Err(error@),
                ),
            }
        },
{
    let input = match queue.pop() {
        Some(input) => input,
        None => return Ok(InputStep::Empty),
    };
    match input {
        OrchestratorInput::UserPrompt(content) => {
            let mut reminded = false;
            if remind_pending_workmap {
                match open_work {
                    Computed::Value(open) => {
                        reminded = open;
                    },
                    Computed::Failure(reason) => return Err(reason),
                }
            }
            begin_turn(desk, EventBody::UserPrompt(content), reminded);
            Ok(InputStep::Taken { reset_sessions: false })
        },
        OrchestratorInput::ManagerPrompt(content) => {
            begin_turn(desk, EventBody::ManagerPrompt(content), false);
            Ok(InputStep::Taken { reset_sessions: false })
        },
        OrchestratorInput::ParentAgentPrompt(content) => {
            begin_turn(desk, EventBody::ParentAgentPrompt(content), false);
            Ok(InputStep::Taken { reset_sessions: false })
        },
        OrchestratorInput::AbortTurn(prompt_id) => {
            queue.clear_abort_signal(prompt_id);
            Ok(InputStep::Taken { reset_sessions: false })
        },
        setting => {
            let reset_sessions = match &setting {
                OrchestratorInput::ClearContext => true,
                _ => false,
            };
            match apply_setting(desk, setting) {
                Ok(()) => Ok(InputStep::Taken { reset_sessions }),
                Err(error) => Err(error),
            }
        },
    }
}

/// Whether the event is the end of the turn that the user asked for.
pub open spec fn is_abort(body: EventBody, prompt: EventId) -> bool {
    &&& body matches EventBody::UserTurnAborted(aborted)
    &&& aborted.prompt_id == prompt
    &&& aborted.active_before == Computed::Value(Some(prompt))
}

/// Ends the turn where that is asked for at once and the turn is active. Nothing else that was
/// asked is carried out then. `effective` are the events that still count.
pub fn begin_turn_abort_if_requested(
    queue: &mut OrchestratorInputQueue,
    prompt_id: EventId,
    edb: &mut EventDataBase,
    effective: &Vec<Event>,
) -> (aborted: bool)
    requires
        old(edb).room(1),
    ensures
        aborted == (old(queue).abort_target == prompt_id && active_turn(effective@) == Some(
            prompt_id,
        )),
        old(edb).wf() ==> final(edb).wf(),
        if aborted {
            &&& final(queue).pending@ == Seq::<OrchestratorInput>::empty()
            &&& final(queue).abort_target == NO_ABORT_TARGET
            &&& final(edb).grown(old(edb), 1)
            &&& is_abort(final(edb).added(old(edb), 0), prompt_id)
        } else {
            &&& final(queue).pending == old(queue).pending
            &&& final(queue).abort_target == (if old(queue).abort_target == prompt_id {
                NO_ABORT_TARGET
            } else {
                old(queue).abort_target
            })
            &&& *final(edb) == *old(edb)
        },
{
    if !queue.consume_abort_signal(prompt_id) {
        return false;
    }
    let active = match active_user_turn_id(effective) {
        Some(active) => active == prompt_id,
        None => false,
    };
    if !active {
        return false;
    }
    queue.clear();
    edb.append(
        EventBody::UserTurnAborted(
            UserTurnAborted { prompt_id, active_before: Computed::Value(Some(prompt_id)) },
        ),
    );
    true
}

/// What came of taking an input while a turn runs: nothing is left, the turn goes on, or it stops
/// because its context is gone.
#[derive(Clone, Copy, Debug, PartialEq, Eq, Structural)]
pub enum RunningStep {
    Idle,
    Applied,
    Stopped { reset_sessions: bool },
}

/// What is said of a prompt of another agent while a turn runs.
pub const INTERNAL_PROMPT_WHILE_BUSY: &'static str =
    "an internal Agent prompt was submitted while its target was busy";

/// Whether an input was carried out while a turn runs, or why not.
pub open spec fn running_input_applied(
    input: OrchestratorInput,
    prompt_id: EventId,
    before: &AgentDesk,
    after: &AgentDesk,
    result: Result<(), Seq<char>>,
) -> bool {
    match input {
        OrchestratorInput::UserPrompt(content) => {
            &&& result is Ok
            &&& after.edb.grown(&before.edb, 1)
            &&& after.edb.added(&before.edb, 0) == EventBody::FollowUpPrompt(
                FollowUpPrompt { prompt_id, content },
            )
            &&& after.effort == before.effort
            &&& after.models == before.models
        },
        OrchestratorInput::ManagerPrompt(_) => result == Err::<(), Seq<char>>(
            INTERNAL_PROMPT_WHILE_BUSY@,
        ) && *after == *before,
        OrchestratorInput::ParentAgentPrompt(_) => result == Err::<(), Seq<char>>(
            INTERNAL_PROMPT_WHILE_BUSY@,
        ) && *after == *before,
        _ => setting_applied(input, before, after, result),
    }
}

/// What is next once an input was carried out while a turn runs.
pub open spec fn running_step(input: OrchestratorInput) -> RunningStep {
    match input {
        OrchestratorInput::ClearContext => RunningStep::Stopped { reset_sessions: true },
        OrchestratorInput::RewindContext(_) => RunningStep::Stopped { reset_sessions: false },
        _ => RunningStep::Applied,
    }
}

/// Takes the next input while the turn runs and carries it out. A prompt of the user joins the
/// turn.
pub fn apply_running_input(
    queue: &mut OrchestratorInputQueue,
    prompt_id: EventId,
    desk: &mut AgentDesk,
) -> (result: Result<RunningStep, String>)
    requires
        old(desk).ready(),
    ensures
        final(desk).wf(),
        if old(queue).pending@.len() == 0 {
            &&& result == Ok::<RunningStep, String>(RunningStep::Idle)
            &&& final(queue).pending@ == old(queue).pending@
            &&& final(queue).abort_target == old(queue).abort_target
            &&& *final(desk) == *old(desk)
        } else {
            let input = old(queue).pending@[0];
            &&& taken(old(queue), final(queue))
            &&& match result {
                Ok(step) => step == running_step(input) && running_input_applied(
                    input,
                    prompt_id,
                    old(desk),
                    final(desk),
                    Ok(()),
                ),
                Err(error) => running_input_applied(
                    input,
                    prompt_id,
                    old(desk),
                    final(desk),
                    Err(error@),
                ),
            }
        },
{
    let input = match queue.pop() {
        Some(input) => input,
        None => return Ok(RunningStep::Idle),
    };
    match input {
        OrchestratorInput::UserPrompt(content) => {
            desk.edb.append(EventBody::FollowUpPrompt(FollowUpPrompt { prompt_id, content }));
            Ok(RunningStep::Applied)
        },
        OrchestratorInput::ManagerPrompt(_) => Err(INTERNAL_PROMPT_WHILE_BUSY.to_owned()),
        OrchestratorInput::ParentAgentPrompt(_) => Err(INTERNAL_PROMPT_WHILE_BUSY.to_owned()),
        OrchestratorInput::AbortTurn(target) => {
            queue.clear_abort_signal(target);
            Ok(RunningStep::Applied)
        },
        setting => {
            let step = match &setting {
                OrchestratorInput::ClearContext => RunningStep::Stopped { reset_sessions: true },
                OrchestratorInput::RewindContext(_) => RunningStep::Stopped {
                    reset_sessions: false,
                },
                _ => RunningStep::Applied,
            };
            match apply_setting(desk, setting) {
                Ok(()) => Ok(step),
                Err(error) => Err(error),
            }
        },
    }
}

/// The turn that is to end at once, after so many of the inputs were taken.
pub open spec fn target_after(
    inputs: Seq<OrchestratorInput>,
    count: int,
    target: EventId,
) -> EventId
    decreases count,
{
    if count <= 0 {
        target
    } else {
        let before = target_after(inputs, count - 1, target);
        match inputs[count - 1] {
            OrchestratorInput::AbortTurn(prompt) => if before == prompt {
                NO_ABORT_TARGET
            } else {
                before
            },
            _ => before,
        }
    }
}

/// Whether a turn goes on once what was asked is carried out.
#[derive(Clone, Copy, Debug, PartialEq, Eq, Structural)]
pub enum RunningEnd {
    GoesOn,
    Stopped { reset_sessions: bool },
}

/// Whether an input was carried out while a turn runs, or why not.
#[verifier::opaque]
pub open spec fn took(
    input: OrchestratorInput,
    prompt_id: EventId,
    before: &AgentDesk,
    after: &AgentDesk,
    result: Result<(), Seq<char>>,
) -> bool {
    running_input_applied(input, prompt_id, before, after, result)
}

/// Whether the first inputs were carried out one after another, and the turn went on.
pub open spec fn all_taken(
    desks: Seq<AgentDesk>,
    inputs: Seq<OrchestratorInput>,
    count: int,
    prompt_id: EventId,
) -> bool
    decreases count,
{
    count <= 0 || (all_taken(desks, inputs, count - 1, prompt_id) && running_step(inputs[count - 1])
        == RunningStep::Applied && took(
        inputs[count - 1],
        prompt_id,
        &desks[count - 1],
        &desks[count],
        Ok(()),
    ))
}

proof fn lemma_still_taken(
    desks: Seq<AgentDesk>,
    inputs: Seq<OrchestratorInput>,
    count: int,
    prompt_id: EventId,
    next: AgentDesk,
)
    requires
        count < desks.len(),
        all_taken(desks, inputs, count, prompt_id),
    ensures
        all_taken(desks.push(next), inputs, count, prompt_id),
    decreases count,
{
    if count > 0 {
        lemma_still_taken(desks, inputs, count - 1, prompt_id, next);
        assert(desks.push(next)[count] == desks[count]);
        assert(desks.push(next)[count - 1] == desks[count - 1]);
    }
}

/// Whether the inputs were carried out one after another, each from what the one before left, as
/// far as the result says: all of them, up to one that ends the turn, or up to one that failed.
pub open spec fn running_trail(
    desks: Seq<AgentDesk>,
    inputs: Seq<OrchestratorInput>,
    prompt_id: EventId,
    result: Result<RunningEnd, Seq<char>>,
) -> bool {
    let taken = desks.len() - 1;
    &&& 0 <= taken <= inputs.len()
    &&& all_taken(desks, inputs, taken - 1, prompt_id)
    &&& match result {
        Ok(RunningEnd::GoesOn) => taken == inputs.len() && (taken > 0 ==> running_step(
            inputs[taken - 1],
        ) == RunningStep::Applied && took(
            inputs[taken - 1],
            prompt_id,
            &desks[taken - 1],
            &desks[taken],
            Ok(()),
        )),
        Ok(RunningEnd::Stopped { reset_sessions }) => taken > 0 && running_step(inputs[taken - 1])
            == (RunningStep::Stopped { reset_sessions }) && took(
            inputs[taken - 1],
            prompt_id,
            &desks[taken - 1],
            &desks[taken],
            Ok(()),
        ),
        Err(text) => taken > 0 && took(
            inputs[taken - 1],
            prompt_id,
            &desks[taken - 1],
            &desks[taken],
            Err(text),
        ),
    }
}

/// Whether there is such a trail from one desk to another.
pub open spec fn trail_between(
    before: &AgentDesk,
    after: &AgentDesk,
    inputs: Seq<OrchestratorInput>,
    count: int,
    prompt_id: EventId,
    result: Result<RunningEnd, Seq<char>>,
) -> bool {
    exists|desks: Seq<AgentDesk>| #[trigger]
        running_trail(desks, inputs, prompt_id, result) && desks.len() == count + 1 && desks[0]
            == *before && desks.last() == *after
}

proof fn lemma_step_room(
    input: OrchestratorInput,
    prompt_id: EventId,
    before: &AgentDesk,
    after: &AgentDesk,
)
    requires
        running_step(input) == RunningStep::Applied,
        took(input, prompt_id, before, after, Ok(())),
    ensures
        after.edb.next_id <= before.edb.next_id + 2,
        after.edb.mutation_revision == before.edb.mutation_revision,
{
    reveal(took);
}

fn take_running_input(
    queue: &mut OrchestratorInputQueue,
    prompt_id: EventId,
    desk: &mut AgentDesk,
) -> (result: Result<RunningStep, String>)
    requires
        old(desk).ready(),
        old(queue).pending@.len() > 0,
    ensures
        final(desk).wf(),
        taken(old(queue), final(queue)),
        match result {
            Ok(step) => step == running_step(old(queue).pending@[0]) && took(
                old(queue).pending@[0],
                prompt_id,
                old(desk),
                final(desk),
                Ok(()),
            ),
            Err(error) => took(
                old(queue).pending@[0],
                prompt_id,
                old(desk),
                final(desk),
                Err(error@),
            ),
        },
{
    proof {
        reveal(took);
    }
    apply_running_input(queue, prompt_id, desk)
}

/// Ends the turn where that is asked for at once; otherwise takes what is asked while the turn runs
/// and carries it out, up to what ends the turn. `effective` are the events that still count.
pub fn apply_running_inputs(
    queue: &mut OrchestratorInputQueue,
    prompt_id: EventId,
    desk: &mut AgentDesk,
    effective: &Vec<Event>,
) -> (result: Result<RunningEnd, String>)
    requires
        old(desk).wf(),
        old(desk).edb.room(3 * old(queue).pending@.len() as int + 3),
        old(desk).edb.mutation_revision < u64::MAX,
    ensures
        final(desk).wf(),
        if old(queue).abort_target == prompt_id && active_turn(effective@) == Some(prompt_id) {
            &&& result == Ok::<RunningEnd, String>(RunningEnd::Stopped { reset_sessions: false })
            &&& final(queue).pending@ == Seq::<OrchestratorInput>::empty()
            &&& final(queue).abort_target == NO_ABORT_TARGET
            &&& final(desk).edb.grown(&old(desk).edb, 1)
            &&& is_abort(final(desk).edb.added(&old(desk).edb, 0), prompt_id)
            &&& final(desk).effort == old(desk).effort
            &&& final(desk).models == old(desk).models
        } else {
            let target = if old(queue).abort_target == prompt_id {
                NO_ABORT_TARGET
            } else {
                old(queue).abort_target
            };
            let inputs = old(queue).pending@;
            let count = inputs.len() - final(queue).pending@.len();
            &&& 0 <= count
            &&& final(queue).pending@ == inputs.skip(count)
            &&& final(queue).abort_target == target_after(inputs, count, target)
            &&& trail_between(old(desk), final(desk), inputs, count, prompt_id, said(result))
        },
{
    let ghost inputs = queue.pending@;
    if begin_turn_abort_if_requested(queue, prompt_id, &mut desk.edb, effective) {
        return Ok(RunningEnd::Stopped { reset_sessions: false });
    }
    let ghost target = queue.abort_target;
    let ghost start = *desk;
    let ghost mut desks = seq![*desk];
    let ghost mut count: int = 0;
    assert(inputs.skip(0) =~= inputs);
    while !queue.is_empty()
        invariant
            desk.wf(),
            0 <= count <= inputs.len(),
            queue.pending@ == inputs.skip(count),
            queue.abort_target == target_after(inputs, count, target),
            desk.edb.room(3 * (inputs.len() - count) + 3),
            desk.edb.mutation_revision < u64::MAX,
            desks.len() == count + 1,
            desks[0] == start,
            desks.last() == *desk,
            all_taken(desks, inputs, count, prompt_id),
            inputs == old(queue).pending@,
            start == *old(desk),
            target == (if old(queue).abort_target == prompt_id {
                NO_ABORT_TARGET
            } else {
                old(queue).abort_target
            }),
            !(old(queue).abort_target == prompt_id && active_turn(effective@) == Some(prompt_id)),
        decreases inputs.len() - count,
    {
        let ghost before = *desk;
        let ghost input = inputs[count];
        assert(queue.pending@[0] == input);
        let result = take_running_input(queue, prompt_id, desk);
        proof {
            lemma_still_taken(desks, inputs, count, prompt_id, *desk);
            desks = desks.push(*desk);
            count = count + 1;
            assert(inputs.skip(count - 1).skip(1) =~= inputs.skip(count));
            assert(desks[count - 1] == before);
            assert(desks[count] == *desk);
        }
        match result {
            Ok(RunningStep::Stopped { reset_sessions }) => {
                assert(running_trail(
                    desks,
                    inputs,
                    prompt_id,
                    Ok(RunningEnd::Stopped { reset_sessions }),
                ));
                return Ok(RunningEnd::Stopped { reset_sessions });
            },
            Ok(_) => {
                proof {
                    lemma_step_room(input, prompt_id, &before, desk);
                }
            },
            Err(error) => {
                assert(running_trail(desks, inputs, prompt_id, Err(error@)));
                return Err(error);
            },
        }
    }
    assert(count == inputs.len());
    assert(running_trail(desks, inputs, prompt_id, Ok(RunningEnd::GoesOn)));
    Ok(RunningEnd::GoesOn)
}

/// A model that cannot be taken up leaves the agent as it is: its log, its effort and its active
/// model.
pub proof fn law_refused_setting_changes_nothing(
    input: OrchestratorInput,
    before: &AgentDesk,
    after: &AgentDesk,
    error: Seq<char>,
)
    requires
        input is ChangeModel || input is ChangeEffort,
        setting_applied(input, before, after, Err(error)),
    ensures
        *after == *before,
{
}

} // verus!
