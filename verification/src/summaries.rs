//! What a compaction leaves of a log.
use vstd::prelude::*;

use crate::api_calls::{
    api_states, completes_request, request_completed_between, request_event_between, request_of,
    state_of,
};
use crate::batches::{lemma_beginning, lemma_completion, lemma_ends_earlier};
use crate::compact_run::{
    begins, named_stages, not_merged, run_note, run_sections, stage_note, step_of, CompactRun,
    StageOutcome,
};
use crate::compacts::{
    compact_histories, compact_step, compact_with, sections, stage_names, succeeded_before,
    succeeds_before, OpenCompact, StageView, COMPACT_TOOL,
};
use crate::event::{
    event_with, lemma_order_of, order_of, ApiState, CompactState, Event,
    EventDataBase, EventId,
};
use crate::later::{
    in_order, lemma_compacts_kept, lemma_compacts_untouched, lemma_completed_kept, lemma_found,
    lemma_grown_continues, lemma_prefix, lemma_requests_kept, lemma_rules_kept,
    lemma_sessions_untouched, lemma_tools_kept,
};
use crate::notes::{written, Note};
use crate::request::{Attempt, ABORT_DETAIL};
use crate::support::HistoryFacts;
use crate::text::is_blank;
use crate::tool_calls::tool_call_with;
use crate::tries::{left, lemma_same_ends, lemma_written_events, one_more, same_tools};
use crate::upkeep::{goes_on, rules_for, supported, Role};

verus! {

/// A step of a compaction that the rules of compactions accept leaves a log one that the agent can
/// go on from.
proof fn lemma_step(
    early: Seq<Event>,
    late: Seq<Event>,
    role: Role,
    facts: HistoryFacts,
)
    requires
        one_more(early, late),
        goes_on(early, role, facts),
        role is Main,
        late.last().body is CompactStateUpdate,
        compact_step(late, compact_histories(early, early.len() as int)->Ok_0, late.last()) is Ok,
    ensures
        goes_on(late, role, facts),
        compact_histories(late, late.len() as int) == compact_step(
            late,
            compact_histories(early, early.len() as int)->Ok_0,
            late.last(),
        ),
        api_states(late, late.len() as int) == api_states(early, early.len() as int),
        same_tools(early, late),
{
    reveal(goes_on);
    let count = early.len() as int;
    lemma_same_ends(early, late, 0);
    assert(in_order(late, count, rules_for(early, role))) by {
        reveal(in_order);
    }
    lemma_requests_kept(early, late, count);
    lemma_tools_kept(early, late, count);
    lemma_compacts_kept(early, late, count);
    lemma_sessions_untouched(early, late, count + 1);
    if let Role::Main { profile, has_parent_prompt } = role {
        lemma_rules_kept(early, late, profile, has_parent_prompt, facts);
    }
}

/// The stages of a compaction that are done.
pub open spec fn stages_done(run: &CompactRun) -> Seq<StageView> {
    Seq::new(
        run.contents@.len(),
        |i: int|
            StageView { stage: run.plan@[i].stage->Some_0, content: run.contents@[i]@ },
    )
}

/// Whether a compaction runs: it has begun, its last step is the event `since`, and the stages that
/// are done are written.
pub open spec fn compacts(events: Seq<Event>, run: &CompactRun, since: EventId) -> bool {
    &&& compact_histories(events, events.len() as int) matches Ok(history)
    &&& history.1 == Some(
        (
            OpenCompact { compact_id: run.compact_id, previous_event_id: since },
            stages_done(run),
        ),
    )
    &&& compact_with(events, run.compact_id) matches Some(started)
    &&& started.kind == run.kind
    &&& started.total_stages == run.total_stages
    &&& started.tool_call_id == run.tool_call_id
    &&& started.prompt_id == run.prompt_id
    &&& match (started.stages, named_stages(run.plan@)) {
        (Some(stages), Some(named)) => stages@ == named,
        (None, None) => true,
        _ => false,
    }
}

/// Whether no compaction of a log runs.
pub open spec fn no_compaction(events: Seq<Event>) -> bool {
    compact_histories(events, events.len() as int) matches Ok(history) && history.1 is None
}

/// Beginning a compaction that a tool call of the turn asked for, and which succeeded, leaves the log
/// one that the agent can go on from, and the compaction then runs.
pub proof fn law_begun_compaction_runs(
    before: &EventDataBase,
    after: &EventDataBase,
    run: &CompactRun,
    role: Role,
    facts: HistoryFacts,
)
    requires
        supported(before, role, facts),
        role is Main,
        no_compaction(before@),
        tool_call_with(before@, run.tool_call_id) matches Some(call) && call.name@ == COMPACT_TOOL@
            && call.prompt_id == run.prompt_id,
        succeeded_before(before@, run.tool_call_id, before.next_id),
        run.compact_id == before.next_id,
        run.accepted_count,
        run.contents@.len() == 0,
        after.grown(before, 1),
        begins(after.added(before, 0), run),
    ensures
        goes_on(after@, role, facts),
        same_tools(before@, after@),
        compacts(after@, run, run.compact_id),
{
    let early = before@;
    let late = after@;
    let id = run.compact_id;
    lemma_grown_continues(before, after, 1);
    lemma_prefix(early, late);
    lemma_found(early, late, run.tool_call_id);
    assert(after.added(before, 0) == late.last().body);
    assert(late.last().id == id);
    let i = choose|i: int|
        0 <= i < early.len() && succeeds_before(#[trigger] early[i], run.tool_call_id, id);
    assert(succeeds_before(late[i], run.tool_call_id, id));
    reveal_strlit("");
    lemma_step(early, late, role, facts);
    lemma_last_found(early, late);
    assert(stages_done(run) =~= Seq::empty());
}

/// The event that was added is found by its identity.
proof fn lemma_last_found(early: Seq<Event>, late: Seq<Event>)
    requires
        one_more(early, late),
    ensures
        event_with(late, late.last().id) == Some(late.last()),
{
    let place = early.len() as int;
    lemma_order_of(late, late.last().id);
    let order = order_of(late, late.last().id)->0;
    if order < place {
        assert(late[order].id < late[place].id);
    }
}

/// A stage that the model answered leaves the log one that the agent can go on from, and the
/// compaction runs on, where a request for it completed since the step before and the answer is not
/// empty.
pub proof fn law_completed_stage_keeps_the_log_supported(
    before: &EventDataBase,
    after: &EventDataBase,
    run: &CompactRun,
    next: &CompactRun,
    since: EventId,
    content: String,
    role: Role,
    facts: HistoryFacts,
)
    requires
        supported(before, role, facts),
        role is Main,
        compacts(before@, run, since),
        run.wf(),
        run.kind.multi_turn(),
        named_stages(run.plan@) is Some,
        run.contents@.len() < run.plan@.len(),
        content@.len() > 0,
        request_completed_between(before@, run.prompt_id, since, before.next_id),
        after.grown(before, 1),
        step_of(
            after.added(before, 0),
            run,
            stage_note(run, StageOutcome::Completed(content)),
            not_merged(),
        ),
        next.goes_on(run),
        next.contents@ == run.contents@.push(content),
    ensures
        goes_on(after@, role, facts),
        same_tools(before@, after@),
        compacts(after@, next, before.next_id),
{
    let early = before@;
    let late = after@;
    lemma_grown_continues(before, after, 1);
    lemma_prefix(early, late);
    lemma_found(early, late, run.compact_id);
    assert(after.added(before, 0) == late.last().body);
    assert(late.last().id == before.next_id);
    lemma_completed_kept(early, late, run.prompt_id, since, before.next_id);
    reveal_strlit("");
    lemma_step(early, late, role, facts);
    assert(stages_done(next) =~= stages_done(run).push(
        StageView {
            stage: run.plan@[run.contents@.len() as int].stage->Some_0,
            content: content@,
        },
    ));
}

/// Ending a compaction whose stages are done with the summary that they give leaves the log one that
/// the agent can go on from, and no compaction runs.
pub proof fn law_finished_compaction_keeps_the_log_supported(
    before: &EventDataBase,
    after: &EventDataBase,
    run: &CompactRun,
    since: EventId,
    summary: Seq<char>,
    merged: (Seq<Seq<char>>, Seq<char>),
    role: Role,
    facts: HistoryFacts,
)
    requires
        supported(before, role, facts),
        role is Main,
        compacts(before@, run, since),
        !is_blank(summary),
        if run.kind.multi_turn() {
            &&& named_stages(run.plan@) is Some
            &&& run.contents@.len() == run.plan@.len()
            &&& merged == (run_sections(run), summary)
        } else {
            &&& run.contents@.len() == 0
            &&& request_completed_between(
                before@,
                run.prompt_id,
                run.compact_id,
                before.next_id,
            )
        },
        after.grown(before, 1),
        step_of(
            after.added(before, 0),
            run,
            run_note(run, None, CompactState::Completed, summary, ""@),
            merged,
        ),
    ensures
        goes_on(after@, role, facts),
        same_tools(before@, after@),
        no_compaction(after@),
{
    let early = before@;
    let late = after@;
    lemma_grown_continues(before, after, 1);
    lemma_prefix(early, late);
    lemma_found(early, late, run.compact_id);
    assert(after.added(before, 0) == late.last().body);
    assert(late.last().id == before.next_id);
    lemma_completed_kept(early, late, run.prompt_id, run.compact_id, before.next_id);
    reveal_strlit("");
    if run.kind.multi_turn() {
        assert(stage_names(stages_done(run)) =~= named_stages(run.plan@)->Some_0);
        assert(run_sections(run) =~= sections(stages_done(run)));
    }
    lemma_step(early, late, role, facts);
}

/// A compaction that fails, or that the user ends, leaves the log one that the agent can go on from,
/// and no compaction runs.
pub proof fn law_stopped_compaction_keeps_the_log_supported(
    before: &EventDataBase,
    after: &EventDataBase,
    run: &CompactRun,
    since: EventId,
    outcome: StageOutcome,
    role: Role,
    facts: HistoryFacts,
)
    requires
        supported(before, role, facts),
        role is Main,
        compacts(before@, run, since),
        match outcome {
            StageOutcome::Failed(error) => !is_blank(error@),
            StageOutcome::Aborted => true,
            StageOutcome::Completed(_) => false,
        },
        after.grown(before, 1),
        step_of(after.added(before, 0), run, stage_note(run, outcome), not_merged()),
    ensures
        goes_on(after@, role, facts),
        same_tools(before@, after@),
        no_compaction(after@),
{
    let early = before@;
    let late = after@;
    lemma_grown_continues(before, after, 1);
    lemma_found(early, late, run.compact_id);
    assert(after.added(before, 0) == late.last().body);
    reveal_strlit("");
    reveal_strlit("user requested turn abort");
    assert(!is_blank(ABORT_DETAIL@)) by {
        assert(ABORT_DETAIL@[0] == 'u');
    }
    lemma_step(early, late, role, facts);
}

/// What is written of requests and tool calls leaves a compaction running, with the same last step.
pub proof fn law_requests_leave_the_compaction_running(
    before: &EventDataBase,
    after: &EventDataBase,
    run: &CompactRun,
    since: EventId,
    notes: Seq<Note>,
)
    requires
        before.wf(),
        compacts(before@, run, since),
        written(before, after, notes),
        forall|k: int| 0 <= k < notes.len() ==> !(#[trigger] notes[k] is Compacted),
    ensures
        compacts(after@, run, since),
{
    let early = before@;
    let late = after@;
    lemma_written_events(before, after, notes);
    lemma_found(early, late, run.compact_id);
    assert forall|j: int| early.len() <= j < late.len() implies !((#[trigger] late[j]).body
        is CompactStateUpdate) by {
        assert(!(notes[j - early.len()] is Compacted));
    }
    lemma_compacts_untouched(early, late, late.len() as int);
}

/// A request that began after the last step of a compaction, and completed, is a request that
/// completed since.
pub proof fn law_completed_request_counts(edb: &EventDataBase, attempt: Attempt, since: EventId)
    requires
        edb.wf(),
        left(edb@, attempt, ApiState::Completed),
        since < attempt.api_call_id,
    ensures
        request_completed_between(edb@, attempt.prompt_id, since, edb.next_id),
{
    let events = edb@;
    let count = events.len() as int;
    let calls = api_states(events, count)->Ok_0.0;
    let k = calls.len() - 1;
    let begin = lemma_beginning(events, count, k);
    let end = lemma_completion(events, count, k);
    lemma_ends_earlier(events, count, end, attempt.api_call_id);
    assert(begin < end) by {
        if end < begin {
            assert(events[end].id < events[begin].id);
        }
    }
    let prompt = attempt.prompt_id;
    assert(request_event_between(events[begin], prompt, since, edb.next_id));
    assert(request_of(events[begin]) == request_of(events[end]));
    assert(state_of(events[begin]) == ApiState::Requesting);
    assert(completes_request(events, end, prompt, since, edb.next_id));
}

} // verus!
