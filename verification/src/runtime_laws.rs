//! What can be relied on of an agent that runs: what keeps it from being deleted, what becomes of
//! what is handed in, and when its log is shown anew.
use vstd::prelude::*;

use crate::agent_laws::{lemma_mentioned, lemma_mentioned_before, mentions};
use crate::event::{event_with, EdbMutation, Event};
use crate::input_queue::{OrchestratorInput, OrchestratorInputQueue};
use crate::observer::{live_terminals, ToolboxObserver};
use crate::runtime::{
    blocker, cannot_delete, deletion_failure, handed_in, prefix_changed, prompt_back, replaced,
    setting_handed_in, shown_anew, terminals_alive, AgentRuntime, InputDraft, RuntimeEdbSnapshot,
};
use crate::text::decimal;

verus! {

/// An agent can be deleted exactly if it is not being deleted, runs no turn, nothing waits for it
/// and none of its terminals is alive.
pub proof fn law_busy_agents_are_kept(
    runtime: AgentRuntime,
    queue: OrchestratorInputQueue,
    observer: Option<&ToolboxObserver>,
)
    ensures
        blocker(&runtime, &queue, observer) == Ok::<Option<Seq<char>>, Seq<char>>(None)
            <==> !runtime.deleting && !runtime.advancing && queue.pending@.len() == 0
            && live_terminals(observer) == Ok::<nat, Seq<char>>(0),
        runtime.deleting || runtime.advancing || queue.pending@.len() > 0 ==> (blocker(
            &runtime,
            &queue,
            observer,
        ) matches Ok(Some(_))),
        blocker(&runtime, &queue, observer) matches Err(error) ==> live_terminals(observer)
            == Err::<nat, Seq<char>>(error),
{
}

/// The terminals of an agent are counted by what its tools say. Where there are no tools there are
/// no terminals.
pub proof fn law_terminals_are_counted(observer: ToolboxObserver)
    ensures
        live_terminals(None) == Ok::<nat, Seq<char>>(0),
        live_terminals(Some(&observer)) matches Ok(count) ==> (
        observer.terminals matches crate::event::Computed::Value(sessions) && sessions@.len()
            == count),
        live_terminals(Some(&observer)) matches Err(error) ==> (
        observer.terminals matches crate::event::Computed::Failure(text) && text@ == error),
{
}

/// The user reads how many terminals are alive, which agent cannot be deleted and why, and which log
/// could not be deleted.
pub proof fn law_kept_agents_say_why(
    count: nat,
    id: Seq<char>,
    reason: Seq<char>,
    path: Seq<char>,
    error: Seq<char>,
    problem: Seq<char>,
)
    ensures
        mentions(terminals_alive(count), decimal(count)),
        mentions(cannot_delete(id, reason), id),
        mentions(cannot_delete(id, reason), reason),
        mentions(deletion_failure(path, error, None), path),
        mentions(deletion_failure(path, error, None), error),
        mentions(deletion_failure(path, error, Some(problem)), path),
        mentions(deletion_failure(path, error, Some(problem)), error),
        mentions(deletion_failure(path, error, Some(problem)), problem),
{
    lemma_mentioned("仍有 "@, decimal(count));
    lemma_mentioned_before("仍有 "@ + decimal(count), decimal(count), " 个活跃 Terminal 会话"@);
    let named = "Agent "@ + id;
    let kept = named + " cannot be deleted: "@;
    lemma_mentioned("Agent "@, id);
    lemma_mentioned_before(named, id, " cannot be deleted: "@);
    lemma_mentioned_before(kept, id, reason);
    lemma_mentioned_before(kept + reason, id, ""@);
    lemma_mentioned(kept, reason);
    lemma_mentioned_before(kept + reason, reason, ""@);
    let head = "failed to delete EDB "@ + path;
    let front = head + ": "@;
    let failed = front + error + ""@;
    lemma_mentioned("failed to delete EDB "@, path);
    lemma_mentioned_before(head, path, ": "@);
    lemma_mentioned_before(front, path, error);
    lemma_mentioned_before(front + error, path, ""@);
    lemma_mentioned_before(failed, path, "; failed to reopen it: "@);
    lemma_mentioned_before(failed + "; failed to reopen it: "@, path, problem);
    lemma_mentioned(front, error);
    lemma_mentioned_before(front + error, error, ""@);
    lemma_mentioned_before(failed, error, "; failed to reopen it: "@);
    lemma_mentioned_before(failed + "; failed to reopen it: "@, error, problem);
    lemma_mentioned(failed + "; failed to reopen it: "@, problem);
}

/// What is handed in waits behind all that waited, and nothing that waited is lost. A prompt counts
/// only if somebody is there to carry it out.
pub proof fn law_what_is_handed_in_waits(
    before: AgentRuntime,
    after: AgentRuntime,
    old_queue: OrchestratorInputQueue,
    new_queue: OrchestratorInputQueue,
    input: OrchestratorInput,
    awake: bool,
    result: Result<u64, Seq<char>>,
)
    requires
        handed_in(&before, &after, &old_queue, &new_queue, input, awake, result),
    ensures
        new_queue.pending@.len() == old_queue.pending@.len() + 1,
        new_queue.pending@.last() == input,
        forall|i: int|
            0 <= i < old_queue.pending@.len() ==> #[trigger] new_queue.pending@[i]
                == old_queue.pending@[i],
        new_queue.abort_target == old_queue.abort_target,
        result is Ok <==> awake && before.prompt_submission_revision < u64::MAX,
        result matches Ok(count) ==> count == before.prompt_submission_revision + 1 && count
            == after.prompt_submission_revision,
        result is Err ==> after.prompt_submission_revision == before.prompt_submission_revision,
{
}

/// A setting that is handed in waits behind all that waited too. It fails only where nobody is there
/// to carry it out.
pub proof fn law_settings_wait(
    old_queue: OrchestratorInputQueue,
    new_queue: OrchestratorInputQueue,
    input: OrchestratorInput,
    awake: bool,
    result: Result<(), Seq<char>>,
)
    requires
        setting_handed_in(&old_queue, &new_queue, input, awake, result),
    ensures
        new_queue.pending@.len() == old_queue.pending@.len() + 1,
        new_queue.pending@.last() == input,
        forall|i: int|
            0 <= i < old_queue.pending@.len() ==> #[trigger] new_queue.pending@[i]
                == old_queue.pending@[i],
        new_queue.abort_target == old_queue.abort_target,
        result is Ok <==> awake,
{
}

/// A draft that is replaced holds the new text under the next revision; it stays as it was only if
/// there is no next revision.
pub proof fn law_drafts_are_replaced(
    before: InputDraft,
    after: InputDraft,
    content: Seq<char>,
    result: Result<u64, Seq<char>>,
)
    requires
        replaced(&before, &after, content, result),
    ensures
        result is Ok <==> before.revision < u64::MAX,
        result matches Ok(revision) ==> revision == after.revision && after.revision
            == before.revision + 1 && after.content@ == content,
        result is Err ==> after == before,
{
}

/// Events that a log only gained leave what was shown in place; an event that it lost does not.
pub proof fn law_lost_events_are_noticed(shown: Seq<Event>, events: Seq<Event>)
    ensures
        shown.len() == 0 ==> !prefix_changed(shown, events),
        events.len() < shown.len() ==> prefix_changed(shown, events),
        shown.len() > 0 && event_with(events, shown.last().id) is None ==> prefix_changed(
            shown,
            events,
        ),
        !prefix_changed(shown, events) && shown.len() > 0 ==> (event_with(
            events,
            shown.last().id,
        ) is Some) && shown.len() <= events.len(),
{
}

/// A log is shown anew if it has more events or fewer, another last event, another size, or was
/// changed in another way, and stays as it was shown if it is all the same.
pub proof fn law_changes_are_shown(runtime: AgentRuntime, snapshot: RuntimeEdbSnapshot)
    ensures
        snapshot == runtime.snapshot ==> !shown_anew(&runtime, &snapshot),
        snapshot.events@.len() != runtime.snapshot.events@.len() ==> shown_anew(&runtime, &snapshot),
        snapshot.mutation_revision != runtime.snapshot.mutation_revision ==> shown_anew(
            &runtime,
            &snapshot,
        ),
        snapshot.edb_size_bytes != runtime.snapshot.edb_size_bytes ==> shown_anew(
            &runtime,
            &snapshot,
        ),
        snapshot.events@.len() > 0 && snapshot.events@.last().id
            != runtime.snapshot.events@.last().id ==> shown_anew(&runtime, &snapshot),
{
}

/// Going back to a prompt gives the user its text to change. Nothing else does.
pub proof fn law_prompt_comes_back(mutation: Option<EdbMutation>, content: Seq<char>)
    ensures
        prompt_back(mutation) == Some(content) <==> (mutation matches Some(EdbMutation::Rewind {
            restored_prompt_content: Some(text),
            ..
        }) && text@ == content),
        prompt_back(None) is None,
{
}

} // verus!
