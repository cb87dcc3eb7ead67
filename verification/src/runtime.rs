//! What the host knows of a running agent: its log, its draft, and whether it is busy.
use vstd::prelude::*;

use crate::config::copy_text;
use crate::copies::{extend_events, same_event, same_events};
use crate::event::{
    event_with, AgentTurn, AgentTurnState, EdbMutation, Event, EventBody, EventDataBase, EventId,
};
use crate::input_queue::{OrchestratorInput, OrchestratorInputQueue};
use crate::inputs::said;
use crate::notes::{append_all, notes_of, Note};
use crate::observer::{live_terminals, ToolboxObserver};
use crate::text::{decimal, join3, same, say1};
use crate::turns::{active_turn, active_user_turn_id, LatestTurn};

verus! {

/// What the user is writing. The revision grows with every change.
#[derive(Debug, PartialEq, Eq)]
pub struct InputDraft {
    pub content: String,
    pub revision: u64,
}

impl Default for InputDraft {
    fn default() -> (draft: InputDraft)
        ensures
            draft.content@ == ""@,
            draft.revision == 0,
    {
        InputDraft { content: "".to_owned(), revision: 0 }
    }
}

/// What is said once a draft cannot change any more.
pub const DRAFT_EXHAUSTED: &'static str = "Agent input draft revision exhausted";

/// Whether a draft was replaced, or why not.
pub open spec fn replaced(
    before: &InputDraft,
    after: &InputDraft,
    content: Seq<char>,
    result: Result<u64, Seq<char>>,
) -> bool {
    if before.revision == u64::MAX {
        *after == *before && result == Err::<u64, Seq<char>>(DRAFT_EXHAUSTED@)
    } else {
        &&& after.revision == before.revision + 1
        &&& after.content@ == content
        &&& result == Ok::<u64, Seq<char>>(after.revision)
    }
}

impl InputDraft {
    /// Changes the draft for somebody who knows its latest revision. Says the revision that the
    /// draft then has, and whether the change was taken. A draft that stays the same keeps its
    /// revision.
    pub fn update(&mut self, expected_revision: u64, content: String) -> (result: Result<
        (u64, bool),
        String,
    >)
        ensures
            if old(self).revision != expected_revision {
                *final(self) == *old(self) && result == Ok::<(u64, bool), String>(
                    (old(self).revision, false),
                )
            } else if old(self).content@ == content@ {
                *final(self) == *old(self) && result == Ok::<(u64, bool), String>(
                    (old(self).revision, true),
                )
            } else {
                replaced(
                    old(self),
                    final(self),
                    content@,
                    match result {
                        Ok((revision, _)) => Ok(revision),
                        Err(error) => Err(error@),
                    },
                ) && match result {
                    Ok((_, accepted)) => accepted,
                    Err(_) => true,
                }
            },
    {
        if self.revision != expected_revision {
            return Ok((self.revision, false));
        }
        if same(self.content.as_str(), content.as_str()) {
            return Ok((self.revision, true));
        }
        match self.replace(content) {
            Ok(revision) => Ok((revision, true)),
            Err(error) => Err(error),
        }
    }

    /// Puts another text in the place of the draft.
    pub fn replace(&mut self, content: String) -> (result: Result<u64, String>)
        ensures
            replaced(old(self), final(self), content@, said(result)),
    {
        if self.revision == u64::MAX {
            return Err(DRAFT_EXHAUSTED.to_owned());
        }
        self.revision += 1;
        self.content = content;
        Ok(self.revision)
    }

    /// Empties the draft.
    pub fn clear(&mut self) -> (result: Result<u64, String>)
        ensures
            replaced(old(self), final(self), ""@, said(result)),
    {
        self.replace("".to_owned())
    }
}

/// A draft that was changed has a higher revision, so somebody who knows only the earlier one
/// cannot change it any more.
pub proof fn law_late_writer_is_refused(
    first: &InputDraft,
    second: &InputDraft,
    content: Seq<char>,
    revision: u64,
)
    requires
        replaced(first, second, content, Ok(revision)),
    ensures
        second.revision != first.revision,
        second.revision > first.revision,
{
}

/// A change of the log that is not an addition, once more.
fn copy_mutation(mutation: &Option<EdbMutation>) -> (copy: Option<EdbMutation>)
    ensures
        copy == *mutation,
{
    match mutation {
        Some(EdbMutation::Rewind { target_event_id, restored_prompt_content }) => Some(
            EdbMutation::Rewind {
                target_event_id: *target_event_id,
                restored_prompt_content: copy_text(restored_prompt_content),
            },
        ),
        Some(EdbMutation::Regenerate { final_answer_event_id, prompt_id }) => Some(
            EdbMutation::Regenerate {
                final_answer_event_id: *final_answer_event_id,
                prompt_id: *prompt_id,
            },
        ),
        None => None,
    }
}

/// A log as it was at a time.
#[derive(Debug)]
pub struct RuntimeEdbSnapshot {
    pub events: Vec<Event>,
    pub edb_size_bytes: u64,
    pub mutation_revision: u64,
    pub last_mutation: Option<EdbMutation>,
}

/// Whether the last event of a list is gone from a log, or more events.
pub open spec fn prefix_changed(shown: Seq<Event>, events: Seq<Event>) -> bool {
    shown.len() > events.len() || (shown.len() > 0 && event_with(events, shown.last().id) is None)
}

impl RuntimeEdbSnapshot {
    /// Whether the snapshot shows the log.
    pub open spec fn shows(&self, edb: &EventDataBase) -> bool {
        &&& same_events(self.events@, edb@)
        &&& self.mutation_revision == edb.mutation_revision
        &&& self.last_mutation == edb.last_mutation
    }

    /// The log as it is. `size` is how many bytes it takes where it is kept.
    pub fn from_edb(edb: &EventDataBase, size: u64) -> (snapshot: RuntimeEdbSnapshot)
        ensures
            snapshot.shows(edb),
            snapshot.edb_size_bytes == size,
    {
        let mut events: Vec<Event> = Vec::new();
        extend_events(&mut events, &edb.events, 0);
        assert(edb@.skip(0) =~= edb@);
        assert(events@.skip(0) =~= events@);
        RuntimeEdbSnapshot {
            events,
            edb_size_bytes: size,
            mutation_revision: edb.mutation_revision,
            last_mutation: copy_mutation(&edb.last_mutation),
        }
    }

    /// Brings the snapshot up to the log. As long as the log only grew, only what is new is copied.
    pub fn refresh_from_edb(&mut self, edb: &EventDataBase, size: u64)
        requires
            edb.wf(),
        ensures
            final(self).edb_size_bytes == size,
            final(self).mutation_revision == edb.mutation_revision,
            final(self).last_mutation == edb.last_mutation,
            if old(self).mutation_revision != edb.mutation_revision || prefix_changed(
                old(self).events@,
                edb@,
            ) {
                same_events(final(self).events@, edb@)
            } else {
                &&& final(self).events@.len() == edb@.len()
                &&& final(self).events@.take(old(self).events@.len() as int) == old(self).events@
                &&& same_events(
                    final(self).events@.skip(old(self).events@.len() as int),
                    edb@.skip(old(self).events@.len() as int),
                )
            },
    {
        let count = self.events.len();
        let changed = count > edb.len() || (count > 0 && edb.get(
            self.events[count - 1].id,
        ).is_none());
        if self.mutation_revision != edb.mutation_revision || changed {
            let mut events: Vec<Event> = Vec::new();
            extend_events(&mut events, &edb.events, 0);
            assert(edb@.skip(0) =~= edb@);
            assert(events@.skip(0) =~= events@);
            self.events = events;
        } else {
            extend_events(&mut self.events, &edb.events, count);
        }
        self.edb_size_bytes = size;
        self.mutation_revision = edb.mutation_revision;
        self.last_mutation = copy_mutation(&edb.last_mutation);
    }
}

/// A snapshot that showed a log and is brought up to it shows it again, whether the log grew or was
/// changed otherwise since.
pub proof fn law_refreshed_snapshot_shows_the_log(
    before: &RuntimeEdbSnapshot,
    after: &RuntimeEdbSnapshot,
    earlier: &EventDataBase,
    later: &EventDataBase,
    count: int,
)
    requires
        earlier.wf(),
        later.wf(),
        before.shows(earlier),
        later.grown(earlier, count) || later.mutation_revision != earlier.mutation_revision,
        after.mutation_revision == later.mutation_revision,
        after.last_mutation == later.last_mutation,
        if before.mutation_revision != later.mutation_revision || prefix_changed(
            before.events@,
            later@,
        ) {
            same_events(after.events@, later@)
        } else {
            &&& after.events@.len() == later@.len()
            &&& after.events@.take(before.events@.len() as int) == before.events@
            &&& same_events(
                after.events@.skip(before.events@.len() as int),
                later@.skip(before.events@.len() as int),
            )
        },
    ensures
        after.shows(later),
{
    if before.mutation_revision != later.mutation_revision || prefix_changed(
        before.events@,
        later@,
    ) {
    } else {
        let known = before.events@.len() as int;
        assert forall|i: int| 0 <= i < after.events@.len() implies same_event(
            #[trigger] after.events@[i],
            later@[i],
        ) by {
            if i < known {
                assert(after.events@.take(known)[i] == after.events@[i]);
                assert(same_event(before.events@[i], earlier@[i]));
                assert(later@.take(earlier@.len() as int)[i] == later@[i]);
            } else {
                assert(after.events@.skip(known)[i - known] == after.events@[i]);
                assert(later@.skip(known)[i - known] == later@[i]);
            }
        }
    }
}

/// What the host knows of an agent that runs.
#[derive(Debug)]
pub struct AgentRuntime {
    pub id: String,
    pub edb_path: String,
    pub orchestrator_name: String,
    pub advancing: bool,
    pub deleting: bool,
    pub snapshot: RuntimeEdbSnapshot,
    pub prompt_submission_revision: u64,
    pub input_draft: InputDraft,
    pub deferred_error: Option<String>,
}

/// What is said where nobody carries out what is asked.
pub const NO_WORKER: &'static str = "Orchestrator worker is not available";

/// What is said once prompts cannot be counted any more.
pub const PROMPTS_EXHAUSTED: &'static str = "prompt submission revision exhausted";

/// What is said of an agent whose history is to be changed while it is busy.
pub const BUSY: &'static str = "Cannot edit conversation history while the Agent is active";

/// What is said of an agent that is being deleted.
pub const DELETING: &'static str = "Agent 正在删除";

/// What is said of an agent that works.
pub const LOOP_RUNS: &'static str = "Agent loop 正在运行";

/// What is said of an agent that is asked something.
pub const INPUT_PENDING: &'static str = "仍有待处理输入";

/// What is said of an agent whose terminals are alive.
pub open spec fn terminals_alive(count: nat) -> Seq<char> {
    "仍有 "@ + decimal(count) + " 个活跃 Terminal 会话"@
}

/// What keeps an agent from being deleted, or why that cannot be said.
pub open spec fn blocker(
    runtime: &AgentRuntime,
    queue: &OrchestratorInputQueue,
    observer: Option<&ToolboxObserver>,
) -> Result<Option<Seq<char>>, Seq<char>> {
    if runtime.deleting {
        Ok(Some(DELETING@))
    } else if runtime.advancing {
        Ok(Some(LOOP_RUNS@))
    } else if queue.pending@.len() > 0 {
        Ok(Some(INPUT_PENDING@))
    } else {
        match live_terminals(observer) {
            Err(error) => Err(error),
            Ok(count) => Ok(
                if count > 0 {
                    Some(terminals_alive(count))
                } else {
                    None
                },
            ),
        }
    }
}

/// What is said of an agent that cannot be deleted.
pub open spec fn cannot_delete(id: Seq<char>, reason: Seq<char>) -> Seq<char> {
    ("Agent "@ + id + " cannot be deleted: "@) + reason + ""@
}

/// Whether a prompt was handed in, or why not. It waits even where nobody is there to carry it out.
pub open spec fn handed_in(
    before: &AgentRuntime,
    after: &AgentRuntime,
    old_queue: &OrchestratorInputQueue,
    new_queue: &OrchestratorInputQueue,
    input: OrchestratorInput,
    awake: bool,
    result: Result<u64, Seq<char>>,
) -> bool {
    &&& new_queue.pending@ == old_queue.pending@.push(input)
    &&& new_queue.abort_target == old_queue.abort_target
    &&& if !awake {
        after.prompt_submission_revision == before.prompt_submission_revision && result == Err::<
            u64,
            Seq<char>,
        >(NO_WORKER@)
    } else if before.prompt_submission_revision == u64::MAX {
        after.prompt_submission_revision == before.prompt_submission_revision && result == Err::<
            u64,
            Seq<char>,
        >(PROMPTS_EXHAUSTED@)
    } else {
        after.prompt_submission_revision == before.prompt_submission_revision + 1 && result == Ok::<
            u64,
            Seq<char>,
        >(after.prompt_submission_revision)
    }
}

/// Whether a setting was handed in.
pub open spec fn setting_handed_in(
    old_queue: &OrchestratorInputQueue,
    new_queue: &OrchestratorInputQueue,
    input: OrchestratorInput,
    awake: bool,
    result: Result<(), Seq<char>>,
) -> bool {
    &&& new_queue.pending@ == old_queue.pending@.push(input)
    &&& new_queue.abort_target == old_queue.abort_target
    &&& result == (if awake {
        Ok::<(), Seq<char>>(())
    } else {
        Err(NO_WORKER@)
    })
}

fn hand_in(queue: &mut OrchestratorInputQueue, input: OrchestratorInput, awake: bool) -> (result:
    Result<(), String>)
    ensures
        setting_handed_in(old(queue), final(queue), input, awake, said(result)),
{
    queue.push(input);
    if awake {
        Ok(())
    } else {
        Err(NO_WORKER.to_owned())
    }
}

/// Hands in another effort. `awake` says whether the agent could be woken.
pub fn submit_effort_change(queue: &mut OrchestratorInputQueue, effort: String, awake: bool) -> (
    result: Result<(), String>)
    ensures
        setting_handed_in(
            old(queue),
            final(queue),
            OrchestratorInput::ChangeEffort(effort),
            awake,
            said(result),
        ),
{
    hand_in(queue, OrchestratorInput::ChangeEffort(effort), awake)
}

/// Hands in another model. `awake` says whether the agent could be woken.
pub fn submit_model_change(queue: &mut OrchestratorInputQueue, model: String, awake: bool) -> (
    result: Result<(), String>)
    ensures
        setting_handed_in(
            old(queue),
            final(queue),
            OrchestratorInput::ChangeModel(model),
            awake,
            said(result),
        ),
{
    hand_in(queue, OrchestratorInput::ChangeModel(model), awake)
}

/// Asks for the context to be cleared. `awake` says whether the agent could be woken.
pub fn submit_context_clear(queue: &mut OrchestratorInputQueue, awake: bool) -> (result: Result<
    (),
    String,
>)
    ensures
        setting_handed_in(
            old(queue),
            final(queue),
            OrchestratorInput::ClearContext,
            awake,
            said(result),
        ),
{
    hand_in(queue, OrchestratorInput::ClearContext, awake)
}

/// Asks to go back to an event. `awake` says whether the agent could be woken.
pub fn submit_context_rewind(
    queue: &mut OrchestratorInputQueue,
    target_event_id: EventId,
    awake: bool,
) -> (result: Result<(), String>)
    ensures
        setting_handed_in(
            old(queue),
            final(queue),
            OrchestratorInput::RewindContext(target_event_id),
            awake,
            said(result),
        ),
{
    hand_in(queue, OrchestratorInput::RewindContext(target_event_id), awake)
}

/// Asks for the end of the active turn, if there is one. `effective` are the events that still
/// count, and `awake` says whether the agent could be woken.
pub fn submit_turn_abort(
    queue: &mut OrchestratorInputQueue,
    effective: &Vec<Event>,
    awake: bool,
) -> (result: Result<bool, String>)
    ensures
        match active_turn(effective@) {
            None => result == Ok::<bool, String>(false) && *final(queue) == *old(queue),
            Some(prompt) => {
                &&& final(queue).pending@ == old(queue).pending@.push(
                    OrchestratorInput::AbortTurn(prompt),
                )
                &&& final(queue).abort_target == prompt
                &&& said(result) == (if awake {
                    Ok::<bool, Seq<char>>(true)
                } else {
                    Err(NO_WORKER@)
                })
            },
        },
{
    match active_user_turn_id(effective) {
        None => Ok(false),
        Some(prompt_id) => {
            queue.request_abort(prompt_id);
            if awake {
                Ok(true)
            } else {
                Err(NO_WORKER.to_owned())
            }
        },
    }
}

/// Whether what is shown of a log has changed.
pub open spec fn shown_anew(runtime: &AgentRuntime, snapshot: &RuntimeEdbSnapshot) -> bool {
    let known = &runtime.snapshot;
    ||| snapshot.mutation_revision != known.mutation_revision
    ||| snapshot.events@.len() != known.events@.len()
    ||| (snapshot.events@.len() > 0 && snapshot.events@.last().id != known.events@.last().id)
    ||| snapshot.edb_size_bytes != known.edb_size_bytes
}

/// The prompt that going back brought back, for the user to change.
pub open spec fn prompt_back(mutation: Option<EdbMutation>) -> Option<Seq<char>> {
    match mutation {
        Some(EdbMutation::Rewind { restored_prompt_content: Some(content), .. }) => Some(content@),
        _ => None,
    }
}

/// What is said of an agent that stopped by itself.
pub const WORKER_STOPPED: &'static str = "Orchestrator worker stopped";

impl AgentRuntime {
    /// Whether all but the draft and what is counted is the same.
    pub open spec fn same_runtime(&self, other: &AgentRuntime) -> bool {
        &&& self.id == other.id
        &&& self.edb_path == other.edb_path
        &&& self.orchestrator_name == other.orchestrator_name
        &&& self.advancing == other.advancing
        &&& self.deleting == other.deleting
        &&& self.snapshot == other.snapshot
        &&& self.deferred_error == other.deferred_error
    }

    /// An agent of an identity that runs from a log.
    pub fn identified(
        id: &str,
        edb_path: &str,
        snapshot: RuntimeEdbSnapshot,
        orchestrator_name: &str,
    ) -> (runtime: AgentRuntime)
        ensures
            runtime.id@ == id@,
            runtime.edb_path@ == edb_path@,
            runtime.orchestrator_name@ == orchestrator_name@,
            !runtime.advancing,
            !runtime.deleting,
            runtime.snapshot == snapshot,
            runtime.prompt_submission_revision == 0,
            runtime.input_draft.content@ == ""@,
            runtime.input_draft.revision == 0,
            runtime.deferred_error is None,
    {
        AgentRuntime {
            id: id.to_owned(),
            edb_path: edb_path.to_owned(),
            orchestrator_name: orchestrator_name.to_owned(),
            advancing: false,
            deleting: false,
            snapshot,
            prompt_submission_revision: 0,
            input_draft: InputDraft::default(),
            deferred_error: None,
        }
    }

    /// The main agent that runs from a log.
    pub fn new(snapshot: RuntimeEdbSnapshot, orchestrator_name: &str) -> (runtime: AgentRuntime)
        ensures
            runtime.id@ == "main"@,
            runtime.edb_path@ == "main.edb"@,
            runtime.orchestrator_name@ == orchestrator_name@,
            !runtime.advancing,
            !runtime.deleting,
            runtime.snapshot == snapshot,
            runtime.prompt_submission_revision == 0,
            runtime.input_draft.content@ == ""@,
            runtime.input_draft.revision == 0,
            runtime.deferred_error is None,
    {
        Self::identified("main", "main.edb", snapshot, orchestrator_name)
    }

    /// The identity of the agent.
    pub fn id(&self) -> (id: &str)
        ensures
            id@ == self.id@,
    {
        self.id.as_str()
    }

    /// Where the log of the agent is kept.
    pub fn edb_path(&self) -> (path: &str)
        ensures
            path@ == self.edb_path@,
    {
        self.edb_path.as_str()
    }

    /// The name of the agent's orchestrator.
    pub fn orchestrator_name(&self) -> (name: &str)
        ensures
            name@ == self.orchestrator_name@,
    {
        self.orchestrator_name.as_str()
    }

    /// The events that are shown.
    pub fn edb_events(&self) -> (events: &Vec<Event>)
        ensures
            *events == self.snapshot.events,
    {
        &self.snapshot.events
    }

    /// How many bytes the log takes where it is kept.
    pub fn edb_size_bytes(&self) -> (size: u64)
        ensures
            size == self.snapshot.edb_size_bytes,
    {
        self.snapshot.edb_size_bytes
    }

    /// How often the log that is shown was changed otherwise than by an addition.
    pub fn edb_mutation_revision(&self) -> (revision: u64)
        ensures
            revision == self.snapshot.mutation_revision,
    {
        self.snapshot.mutation_revision
    }

    /// The last change of the log that is shown that was not an addition.
    pub fn last_edb_mutation(&self) -> (mutation: Option<&EdbMutation>)
        ensures
            match mutation {
                Some(last) => self.snapshot.last_mutation == Some(*last),
                None => self.snapshot.last_mutation is None,
            },
    {
        self.snapshot.last_mutation.as_ref()
    }

    /// How many prompts were handed in.
    pub fn prompt_submission_revision(&self) -> (revision: u64)
        ensures
            revision == self.prompt_submission_revision,
    {
        self.prompt_submission_revision
    }

    /// What the user is writing.
    pub fn input_draft(&self) -> (draft: InputDraft)
        ensures
            draft == self.input_draft,
    {
        InputDraft {
            content: self.input_draft.content.clone(),
            revision: self.input_draft.revision,
        }
    }

    /// Whether the agent works.
    pub fn is_advancing(&self) -> (advancing: bool)
        ensures
            advancing == self.advancing,
    {
        self.advancing
    }

    /// Changes the draft for somebody who knows its latest revision.
    pub fn update_input_draft(&mut self, expected_revision: u64, content: String) -> (result: Result<
        (u64, bool),
        String,
    >)
        ensures
            final(self).same_runtime(old(self)),
            final(self).prompt_submission_revision == old(self).prompt_submission_revision,
            if old(self).input_draft.revision != expected_revision {
                final(self).input_draft == old(self).input_draft && result == Ok::<
                    (u64, bool),
                    String,
                >((old(self).input_draft.revision, false))
            } else if old(self).input_draft.content@ == content@ {
                final(self).input_draft == old(self).input_draft && result == Ok::<
                    (u64, bool),
                    String,
                >((old(self).input_draft.revision, true))
            } else {
                replaced(
                    &old(self).input_draft,
                    &final(self).input_draft,
                    content@,
                    match result {
                        Ok((revision, _)) => Ok(revision),
                        Err(error) => Err(error@),
                    },
                ) && match result {
                    Ok((_, accepted)) => accepted,
                    Err(_) => true,
                }
            },
    {
        self.input_draft.update(expected_revision, content)
    }

    /// How many terminal sessions of the agent are alive.
    pub fn active_terminal_count(&self, observer: Option<&ToolboxObserver>) -> (count: Result<
        usize,
        String,
    >)
        ensures
            match (count, live_terminals(observer)) {
                (Ok(alive), Ok(expected)) => alive == expected,
                (Err(error), Err(text)) => error@ == text,
                _ => false,
            },
    {
        match observer {
            Some(tools) => tools.active_count(),
            None => Ok(0),
        }
    }

    /// Whether the agent works, is asked something, or keeps a terminal session alive.
    pub fn is_active(&self, queue: &OrchestratorInputQueue, observer: Option<&ToolboxObserver>) -> (
    active: Result<bool, String>)
        ensures
            said(active) == (if self.advancing || queue.pending@.len() > 0 {
                Ok::<bool, Seq<char>>(true)
            } else {
                match live_terminals(observer) {
                    Ok(count) => Ok(count > 0),
                    Err(error) => Err(error),
                }
            }),
    {
        if self.advancing || !queue.is_empty() {
            return Ok(true);
        }
        match self.active_terminal_count(observer) {
            Ok(count) => Ok(count > 0),
            Err(error) => Err(error),
        }
    }

    /// What keeps the agent from being deleted.
    pub fn deletion_blocker(
        &self,
        queue: &OrchestratorInputQueue,
        observer: Option<&ToolboxObserver>,
    ) -> (result: Result<Option<String>, String>)
        ensures
            match (result, blocker(self, queue, observer)) {
                (Ok(Some(reason)), Ok(Some(text))) => reason@ == text,
                (Ok(None), Ok(None)) => true,
                (Err(error), Err(text)) => error@ == text,
                _ => false,
            },
    {
        if self.deleting {
            return Ok(Some(DELETING.to_owned()));
        }
        if self.advancing {
            return Ok(Some(LOOP_RUNS.to_owned()));
        }
        if !queue.is_empty() {
            return Ok(Some(INPUT_PENDING.to_owned()));
        }
        match self.active_terminal_count(observer) {
            Ok(count) => if count > 0 {
                Ok(Some(say1("仍有 ", count as u64, " 个活跃 Terminal 会话")))
            } else {
                Ok(None)
            },
            Err(error) => Err(error),
        }
    }

    /// Begins to delete the agent, unless something keeps it from that. Where it is forced, only a
    /// deletion that is under way does.
    pub fn request_edb_deletion(
        &mut self,
        force: bool,
        queue: &OrchestratorInputQueue,
        observer: Option<&ToolboxObserver>,
    ) -> (result: Result<(), String>)
        ensures
            match (force, blocker(old(self), queue, observer)) {
                (false, Err(text)) => *final(self) == *old(self) && said(result) == Err::<
                    (),
                    Seq<char>,
                >(text),
                (false, Ok(Some(reason))) => *final(self) == *old(self) && said(result) == Err::<
                    (),
                    Seq<char>,
                >(cannot_delete(old(self).id@, reason)),
                _ => *final(self) == (AgentRuntime { deleting: true, ..*old(self) }) && said(result)
                    == (if old(self).deleting {
                    Err::<(), Seq<char>>(
                        "Agent "@ + old(self).id@ + " is already being deleted"@,
                    )
                } else {
                    Ok(())
                }),
            },
    {
        if !force {
            match self.deletion_blocker(queue, observer) {
                Err(error) => return Err(error),
                Ok(Some(reason)) => {
                    let start = join3("Agent ", self.id.as_str(), " cannot be deleted: ");
                    return Err(join3(start.as_str(), reason.as_str(), ""));
                },
                Ok(None) => {},
            }
        }
        let before = self.deleting;
        self.deleting = true;
        if before {
            return Err(join3("Agent ", self.id.as_str(), " is already being deleted"));
        }
        Ok(())
    }

    /// Keeps the agent after all.
    pub fn cancel_edb_deletion(&mut self)
        ensures
            *final(self) == (AgentRuntime { deleting: false, ..*old(self) }),
    {
        self.deleting = false;
    }

    fn submit_root_prompt(
        &mut self,
        queue: &mut OrchestratorInputQueue,
        input: OrchestratorInput,
        awake: bool,
    ) -> (result: Result<u64, String>)
        ensures
            final(self).same_runtime(old(self)),
            final(self).input_draft == old(self).input_draft,
            handed_in(
                old(self),
                final(self),
                old(queue),
                final(queue),
                input,
                awake,
                said(result),
            ),
    {
        queue.push(input);
        if !awake {
            return Err(NO_WORKER.to_owned());
        }
        if self.prompt_submission_revision == u64::MAX {
            return Err(PROMPTS_EXHAUSTED.to_owned());
        }
        self.prompt_submission_revision += 1;
        Ok(self.prompt_submission_revision)
    }

    /// Hands in a prompt of a manager. `awake` says whether the agent could be woken.
    pub fn submit_manager_prompt(
        &mut self,
        queue: &mut OrchestratorInputQueue,
        content: String,
        awake: bool,
    ) -> (result: Result<u64, String>)
        ensures
            final(self).same_runtime(old(self)),
            final(self).input_draft == old(self).input_draft,
            handed_in(
                old(self),
                final(self),
                old(queue),
                final(queue),
                OrchestratorInput::ManagerPrompt(content),
                awake,
                said(result),
            ),
    {
        self.submit_root_prompt(queue, OrchestratorInput::ManagerPrompt(content), awake)
    }

    /// Hands in a prompt of a parent agent. `awake` says whether the agent could be woken.
    pub fn submit_parent_agent_prompt(
        &mut self,
        queue: &mut OrchestratorInputQueue,
        content: String,
        awake: bool,
    ) -> (result: Result<u64, String>)
        ensures
            final(self).same_runtime(old(self)),
            final(self).input_draft == old(self).input_draft,
            handed_in(
                old(self),
                final(self),
                old(queue),
                final(queue),
                OrchestratorInput::ParentAgentPrompt(content),
                awake,
                said(result),
            ),
    {
        self.submit_root_prompt(queue, OrchestratorInput::ParentAgentPrompt(content), awake)
    }

    /// Hands in a prompt of the user and empties the draft. Says how many prompts that makes, and
    /// the revision of the draft. `awake` says whether the agent could be woken.
    pub fn submit_user_prompt_with_draft_revision(
        &mut self,
        queue: &mut OrchestratorInputQueue,
        content: String,
        awake: bool,
    ) -> (result: Result<(u64, u64), String>)
        ensures
            final(self).same_runtime(old(self)),
            match said(result) {
                Ok((prompts, draft)) => handed_in(
                    old(self),
                    final(self),
                    old(queue),
                    final(queue),
                    OrchestratorInput::UserPrompt(content),
                    awake,
                    Ok(prompts),
                ) && replaced(
                    &old(self).input_draft,
                    &final(self).input_draft,
                    ""@,
                    Ok(draft),
                ),
                Err(text) => {
                    ||| final(self).input_draft == old(self).input_draft && handed_in(
                        old(self),
                        final(self),
                        old(queue),
                        final(queue),
                        OrchestratorInput::UserPrompt(content),
                        awake,
                        Err(text),
                    )
                    ||| handed_in(
                        old(self),
                        final(self),
                        old(queue),
                        final(queue),
                        OrchestratorInput::UserPrompt(content),
                        awake,
                        Ok(final(self).prompt_submission_revision),
                    ) && replaced(
                        &old(self).input_draft,
                        &final(self).input_draft,
                        ""@,
                        Err(text),
                    )
                },
            },
    {
        let prompts = match self.submit_root_prompt(
            queue,
            OrchestratorInput::UserPrompt(content),
            awake,
        ) {
            Ok(prompts) => prompts,
            Err(error) => return Err(error),
        };
        match self.input_draft.clear() {
            Ok(draft) => Ok((prompts, draft)),
            Err(error) => Err(error),
        }
    }

    /// Hands in a prompt of the user, and says how many prompts that makes.
    pub fn submit_user_prompt(
        &mut self,
        queue: &mut OrchestratorInputQueue,
        content: String,
        awake: bool,
    ) -> (result: Result<u64, String>)
        ensures
            final(self).same_runtime(old(self)),
            final(queue).pending@ == old(queue).pending@.push(
                OrchestratorInput::UserPrompt(content),
            ),
            final(queue).abort_target == old(queue).abort_target,
            said(result) == (if !awake {
                Err::<u64, Seq<char>>(NO_WORKER@)
            } else if old(self).prompt_submission_revision == u64::MAX {
                Err(PROMPTS_EXHAUSTED@)
            } else if old(self).input_draft.revision == u64::MAX {
                Err(DRAFT_EXHAUSTED@)
            } else {
                Ok((old(self).prompt_submission_revision + 1) as u64)
            }),
            result is Ok ==> final(self).prompt_submission_revision == result->Ok_0
                && final(self).input_draft.revision == old(self).input_draft.revision + 1
                && final(self).input_draft.content@ == ""@,
            !awake ==> *final(self) == *old(self),
    {
        match self.submit_user_prompt_with_draft_revision(queue, content, awake) {
            Ok((revision, _)) => Ok(revision),
            Err(error) => Err(error),
        }
    }

    /// Checks that the history can be changed: the agent is not being deleted and rests.
    pub fn ensure_conversation_edit_idle(&self, queue: &OrchestratorInputQueue) -> (result: Result<
        (),
        String,
    >)
        ensures
            said(result) == (if self.deleting {
                Err::<(), Seq<char>>("Agent "@ + self.id@ + " is being deleted"@)
            } else if self.advancing || queue.pending@.len() > 0 {
                Err(BUSY@)
            } else {
                Ok(())
            }),
    {
        if self.deleting {
            return Err(join3("Agent ", self.id.as_str(), " is being deleted"));
        }
        if self.advancing || !queue.is_empty() {
            return Err(BUSY.to_owned());
        }
        Ok(())
    }

    /// After an answer began to be given anew: empties the draft and counts the prompt.
    pub fn answer_regenerated(&mut self) -> (result: Result<(u64, u64), String>)
        ensures
            final(self).same_runtime(old(self)),
            if old(self).input_draft.revision == u64::MAX {
                *final(self) == *old(self) && said(result) == Err::<(u64, u64), Seq<char>>(
                    DRAFT_EXHAUSTED@,
                )
            } else {
                &&& final(self).input_draft.revision == old(self).input_draft.revision + 1
                &&& final(self).input_draft.content@ == ""@
                &&& if old(self).prompt_submission_revision == u64::MAX {
                    final(self).prompt_submission_revision == u64::MAX && said(result) == Err::<
                        (u64, u64),
                        Seq<char>,
                    >(PROMPTS_EXHAUSTED@)
                } else {
                    final(self).prompt_submission_revision == old(
                        self,
                    ).prompt_submission_revision + 1 && said(result) == Ok::<
                        (u64, u64),
                        Seq<char>,
                    >((final(self).prompt_submission_revision, final(self).input_draft.revision))
                }
            },
    {
        let draft = match self.input_draft.clear() {
            Ok(draft) => draft,
            Err(error) => return Err(error),
        };
        if self.prompt_submission_revision == u64::MAX {
            return Err(PROMPTS_EXHAUSTED.to_owned());
        }
        self.prompt_submission_revision += 1;
        Ok((self.prompt_submission_revision, draft))
    }

    /// Looks at what the agent has done. `errors` are those that it reported since, which are only
    /// looked at where none is left to tell; `gone` says whether it has stopped. Says whether what
    /// is shown has changed. Going back brings a prompt back into the draft.
    pub fn poll_edb(&mut self, errors: Vec<String>, gone: bool, snapshot: RuntimeEdbSnapshot) -> (
    result: Result<bool, String>)
        ensures
            match old(self).deferred_error {
                Some(error) => {
                    &&& *final(self) == (AgentRuntime { deferred_error: None, ..*old(self) })
                    &&& result == Err::<bool, String>(error)
                },
                None => {
                    let told = if errors@.len() > 0 {
                        Some(errors@.last())
                    } else {
                        None
                    };
                    let back = prompt_back(snapshot.last_mutation);
                    let changed = shown_anew(old(self), &snapshot);
                    let brings = changed && snapshot.mutation_revision != old(
                        self,
                    ).snapshot.mutation_revision && back is Some;
                    &&& final(self).deferred_error == told
                    &&& final(self).id == old(self).id
                    &&& final(self).edb_path == old(self).edb_path
                    &&& final(self).orchestrator_name == old(self).orchestrator_name
                    &&& final(self).advancing == old(self).advancing
                    &&& final(self).deleting == old(self).deleting
                    &&& final(self).prompt_submission_revision == old(
                        self,
                    ).prompt_submission_revision
                    &&& if gone {
                        &&& final(self).snapshot == old(self).snapshot
                        &&& final(self).input_draft == old(self).input_draft
                        &&& said(result) == (if old(self).deleting {
                            Ok::<bool, Seq<char>>(false)
                        } else {
                            Err(WORKER_STOPPED@)
                        })
                    } else if !changed {
                        &&& final(self).snapshot == old(self).snapshot
                        &&& final(self).input_draft == old(self).input_draft
                        &&& result == Ok::<bool, String>(false)
                    } else {
                        &&& final(self).snapshot == snapshot
                        &&& if brings {
                            replaced(
                                &old(self).input_draft,
                                &final(self).input_draft,
                                back->0,
                                match result {
                                    Ok(_) => Ok(final(self).input_draft.revision),
                                    Err(error) => Err(error@),
                                },
                            ) && match result {
                                Ok(shown) => shown,
                                Err(_) => true,
                            }
                        } else {
                            final(self).input_draft == old(self).input_draft && result == Ok::<
                                bool,
                                String,
                            >(true)
                        }
                    }
                },
            },
    {
        if self.deferred_error.is_some() {
            let mut told: Option<String> = None;
            std::mem::swap(&mut told, &mut self.deferred_error);
            match told {
                Some(error) => return Err(error),
                None => {},
            }
        }
        let mut errors = errors;
        self.deferred_error = errors.pop();
        if gone {
            if self.deleting {
                return Ok(false);
            }
            return Err(WORKER_STOPPED.to_owned());
        }
        let known = self.snapshot.events.len();
        let count = snapshot.events.len();
        let changed = snapshot.mutation_revision != self.snapshot.mutation_revision || count
            != known || (count > 0 && snapshot.events[count - 1].id != self.snapshot.events[known
            - 1].id) || snapshot.edb_size_bytes != self.snapshot.edb_size_bytes;
        if !changed {
            return Ok(false);
        }
        let mutated = snapshot.mutation_revision != self.snapshot.mutation_revision;
        self.snapshot = snapshot;
        if mutated {
            let back = match &self.snapshot.last_mutation {
                Some(EdbMutation::Rewind { restored_prompt_content: Some(content), .. }) => Some(
                    content.clone(),
                ),
                _ => None,
            };
            if let Some(content) = back {
                match self.input_draft.replace(content) {
                    Ok(_) => {},
                    Err(error) => return Err(error),
                }
            }
        }
        Ok(true)
    }
}

/// Writes down that a turn failed, once the agent stopped with an error. `latest` is the latest
/// turn.
pub fn record_failed_turn(edb: &mut EventDataBase, latest: Option<LatestTurn>, error: &str) -> (
    result: Result<(), String>)
    requires
        old(edb).wf(),
    ensures
        final(edb).wf(),
        match latest {
            Some(turn) => if turn.state.terminal() {
                result is Ok && *final(edb) == *old(edb)
            } else {
                crate::tools::written_or_full(
                    old(edb),
                    final(edb),
                    seq![
                        Note::TurnStep {
                            turn: turn.turn_id,
                            prompt: turn.prompt_id,
                            state: AgentTurnState::Failed,
                            detail: error@,
                        },
                    ],
                    said(result),
                )
            },
            None => result is Ok && *final(edb) == *old(edb),
        },
{
    let turn = match latest {
        Some(turn) => turn,
        None => return Ok(()),
    };
    if turn.state.is_terminal() {
        return Ok(());
    }
    let mut bodies: Vec<EventBody> = Vec::new();
    bodies.push(
        EventBody::AgentTurn(
            AgentTurn {
                turn_id: turn.turn_id,
                prompt_id: turn.prompt_id,
                state: AgentTurnState::Failed,
                detail: error.to_owned(),
            },
        ),
    );
    assert(notes_of(bodies@) =~= seq![
        Note::TurnStep {
            turn: turn.turn_id,
            prompt: turn.prompt_id,
            state: AgentTurnState::Failed,
            detail: error@,
        },
    ]);
    append_all(edb, bodies)
}

/// The turn that is to end when the host lets the agent go: the latest one, unless it has ended.
pub fn turn_to_abort(latest: Option<LatestTurn>) -> (prompt: Option<EventId>)
    ensures
        prompt == (match latest {
            Some(turn) => if turn.state.terminal() {
                None
            } else {
                Some(turn.prompt_id)
            },
            None => None,
        }),
{
    match latest {
        Some(turn) => if turn.state.is_terminal() {
            None
        } else {
            Some(turn.prompt_id)
        },
        None => None,
    }
}

/// What is said of a log that is kept nowhere.
pub const NOT_KEPT: &'static str = "in-memory EDB cannot be permanently deleted";

/// What is said of a log that could not be deleted, and perhaps not be opened again.
pub open spec fn deletion_failure(
    path: Seq<char>,
    error: Seq<char>,
    reopening: Option<Seq<char>>,
) -> Seq<char> {
    let failed = ("failed to delete EDB "@ + path + ": "@) + error + ""@;
    match reopening {
        None => failed,
        Some(problem) => failed + "; failed to reopen it: "@ + problem,
    }
}

/// What is answered once a log was to be deleted: nothing where its file is gone. `removal` is what
/// was wrong with removing it, and `reopening` with opening it again after that.
pub fn deletion_reply(
    path: Option<&str>,
    removal: Option<String>,
    reopening: Option<String>,
) -> (result: Result<(), String>)
    ensures
        said(result) == (match (path, removal) {
            (None, _) => Err::<(), Seq<char>>(NOT_KEPT@),
            (Some(_), None) => Ok(()),
            (Some(file), Some(error)) => Err(
                deletion_failure(
                    file@,
                    error@,
                    match reopening {
                        Some(problem) => Some(problem@),
                        None => None,
                    },
                ),
            ),
        }),
{
    let file = match path {
        Some(file) => file,
        None => return Err(NOT_KEPT.to_owned()),
    };
    let error = match removal {
        Some(error) => error,
        None => return Ok(()),
    };
    let start = join3("failed to delete EDB ", file, ": ");
    let failed = join3(start.as_str(), error.as_str(), "");
    match reopening {
        None => Err(failed),
        Some(problem) => Err(
            join3(failed.as_str(), "; failed to reopen it: ", problem.as_str()),
        ),
    }
}

} // verus!
