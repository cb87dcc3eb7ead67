//! A log that was just begun is one that its agent can go on from.
use vstd::prelude::*;

use crate::agent::{begun, AgentDefinition};
use crate::api_calls::api_states;
use crate::compacts::compact_histories;
use crate::context::kind_in;
use crate::event::{
    event_with, first_failure, ids_increase, lemma_no_failure, lemma_order_of_event, AgentKind,
    Event, EventBody, EventDataBase, EventId,
};
use crate::profile::MainAgentProfile;
use crate::sessions::session_histories;
use crate::support::{
    chat_history_problem, chat_kind_check, chat_problem, chat_source_check, is_first_effort,
    is_first_model, late_prompt_check, main_history_problem, main_problem, main_rest_problem,
    main_start_problem, prompt_check, prompt_names, HistoryFacts, CHATBOT,
};
use crate::tool_calls::tool_states;
use crate::turns::abort_check;
use crate::validate::{
    clone_check, estimate_check, follow_up_check, initial_state_check, reminder_check,
    source_check, title_check,
};

verus! {

/// Whether an event only says who the agent is and what it starts with.
pub open spec fn sets_up(event: Event) -> bool {
    event.body is AgentKindDef || event.body is SystemPrompt || event.body is ModelChanged
        || event.body is ReasoningEffortChanged
}

proof fn lemma_nothing_happened(events: Seq<Event>, count: int)
    requires
        0 <= count <= events.len(),
        forall|i: int| 0 <= i < events.len() ==> sets_up(#[trigger] events[i]),
    ensures
        api_states(events, count) is Ok,
        tool_states(events, count) is Ok,
        compact_histories(events, count) is Ok,
        session_histories(events, count) is Ok,
    decreases count,
{
    if count > 0 {
        lemma_nothing_happened(events, count - 1);
        assert(sets_up(events[count - 1]));
    }
}

proof fn lemma_nothing_wrong(events: Seq<Event>, kind: AgentKind, profile: MainAgentProfile)
    requires
        forall|i: int| 0 <= i < events.len() ==> sets_up(#[trigger] events[i]),
    ensures
        first_failure(source_check(events, kind, profile), events.len() as int) is None,
        first_failure(title_check(events), events.len() as int) is None,
        first_failure(clone_check(events), events.len() as int) is None,
        first_failure(reminder_check(events), events.len() as int) is None,
        first_failure(follow_up_check(events), events.len() as int) is None,
        first_failure(abort_check(events), events.len() as int) is None,
        first_failure(estimate_check(events), events.len() as int) is None,
{
    let count = events.len() as int;
    assert forall|i: int| 0 <= i < count implies #[trigger] source_check(events, kind, profile)(
        i,
    ) is None by {
        assert(sets_up(events[i]));
    }
    lemma_no_failure(source_check(events, kind, profile), count);
    assert forall|i: int| 0 <= i < count implies #[trigger] title_check(events)(i) is None by {
        assert(sets_up(events[i]));
    }
    lemma_no_failure(title_check(events), count);
    assert forall|i: int| 0 <= i < count implies #[trigger] clone_check(events)(i) is None by {
        assert(sets_up(events[i]));
    }
    lemma_no_failure(clone_check(events), count);
    assert forall|i: int| 0 <= i < count implies #[trigger] reminder_check(events)(i) is None by {
        assert(sets_up(events[i]));
    }
    lemma_no_failure(reminder_check(events), count);
    assert forall|i: int| 0 <= i < count implies #[trigger] follow_up_check(events)(i) is None by {
        assert(sets_up(events[i]));
    }
    lemma_no_failure(follow_up_check(events), count);
    assert forall|i: int| 0 <= i < count implies #[trigger] abort_check(events)(i) is None by {
        assert(sets_up(events[i]));
    }
    lemma_no_failure(abort_check(events), count);
    assert forall|i: int| 0 <= i < count implies #[trigger] estimate_check(events)(i) is None by {
        assert(sets_up(events[i]));
    }
    lemma_no_failure(estimate_check(events), count);
}

/// What a log that was just begun holds, event by event.
proof fn lemma_first_events(
    before: &EventDataBase,
    after: &EventDataBase,
    definition: AgentDefinition,
    name: Seq<char>,
    prompts: Seq<Seq<char>>,
    model: Seq<char>,
    effort: Seq<char>,
)
    requires
        before.wf(),
        before@.len() == 0,
        before.next_id == 0,
        prompts.len() <= 4,
        begun(before, after, definition, name, prompts, model, effort),
    ensures
        after@.len() == prompts.len() + 3,
        ids_increase(after@),
        forall|i: int| 0 <= i < after@.len() ==> sets_up(#[trigger] after@[i]),
        forall|i: int| 0 <= i < after@.len() ==> (#[trigger] after@[i]).id == i,
        forall|i: int|
            0 <= i < after@.len() ==> #[trigger] event_with(after@, i as EventId) == Some(
                after@[i],
            ),
        kind_in(after@) matches Some(found) && found.orchestrator@ == name && found.kind
            == definition.kind,
        forall|i: int|
            0 <= i < prompts.len() ==> ((#[trigger] after@[1 + i]).body matches EventBody::SystemPrompt(
                written,
            ) && written@ == prompts[i]),
        is_first_model(Some(after@[prompts.len() as int + 1])),
        is_first_effort(Some(after@[prompts.len() as int + 2])),
{
    let count = prompts.len() as int;
    crate::event::lemma_grown_wf(before, after, count + 3);
    assert forall|i: int| 0 <= i < after@.len() implies (#[trigger] after@[i]).id == i by {}
    assert forall|i: int| 0 <= i < count implies ((#[trigger] after@[1 + i]).body matches EventBody::SystemPrompt(
        written,
    ) && written@ == prompts[i]) by {
        assert(after.added(before, 1 + i) == after@[1 + i].body);
    }
    assert(after.added(before, 0) == after@[0].body);
    assert(after.added(before, count + 1) == after@[count + 1].body);
    assert(after.added(before, count + 2) == after@[count + 2].body);
    assert forall|i: int| 0 <= i < after@.len() implies sets_up(#[trigger] after@[i]) by {
        if 1 <= i <= count {
            assert(after@[1 + (i - 1)].body is SystemPrompt);
        }
    }
    assert forall|i: int| 0 <= i < after@.len() implies #[trigger] event_with(
        after@,
        i as EventId,
    ) == Some(after@[i]) by {
        lemma_order_of_event(after@, i);
    }
}

/// An agent can go on from the log that it just began, where no other part of the program finds
/// anything wrong with it.
pub proof fn law_new_log_is_supported(
    before: &EventDataBase,
    after: &EventDataBase,
    definition: AgentDefinition,
    profile: MainAgentProfile,
    has_parent_prompt: bool,
    model: Seq<char>,
    effort: Seq<char>,
    facts: HistoryFacts,
)
    requires
        before.wf(),
        before@.len() == 0,
        before.next_id == 0,
        begun(
            before,
            after,
            definition,
            profile.orchestrator(),
            prompt_names(profile, has_parent_prompt),
            model,
            effort,
        ),
        facts.branches is None,
        facts.turns is None,
        facts.work is None,
    ensures
        main_problem(after@, profile, has_parent_prompt, facts) is None,
{
    let names = prompt_names(profile, has_parent_prompt);
    let events = after@;
    let count = events.len() as int;
    lemma_first_events(before, after, definition, profile.orchestrator(), names, model, effort);
    lemma_nothing_happened(events, count);
    lemma_nothing_wrong(events, definition.kind, profile);
    let first = prompt_check(events, names);
    assert forall|i: int| 0 <= i < names.len() implies #[trigger] first(i) is None by {
        assert(event_with(events, (i + 1) as EventId) == Some(events[i + 1]));
        assert(events[1 + i].body is SystemPrompt);
    }
    lemma_no_failure(first, names.len() as int);
    let first_model = (names.len() + 1) as u64;
    let first_effort = (names.len() + 2) as u64;
    assert(event_with(events, (names.len() as int + 1) as EventId) == Some(events[names.len() as int + 1]));
    assert(event_with(events, (names.len() as int + 2) as EventId) == Some(events[names.len() as int + 2]));
    let state = initial_state_check(events, first_model, first_effort);
    assert forall|i: int| 0 <= i < count implies #[trigger] state(i) is None by {
        if 1 <= i <= names.len() {
            assert(events[1 + (i - 1)].body is SystemPrompt);
        }
    }
    lemma_no_failure(state, count);
    let late = late_prompt_check(events, names.len() as int + 1);
    assert forall|i: int| 0 <= i < count implies #[trigger] late(i) is None by {}
    lemma_no_failure(late, count);
    assert(main_start_problem(events, names) is None);
    assert(main_rest_problem(events, facts) is None);
    assert(main_history_problem(events, definition.kind, profile, facts) is None);
}

/// A chat bot can go on from the log that it just began, where no other part of the program finds
/// anything wrong with it.
pub proof fn law_new_chat_is_supported(
    before: &EventDataBase,
    after: &EventDataBase,
    definition: AgentDefinition,
    model: Seq<char>,
    effort: Seq<char>,
    facts: HistoryFacts,
)
    requires
        before.wf(),
        before@.len() == 0,
        before.next_id == 0,
        begun(before, after, definition, CHATBOT@, Seq::empty(), model, effort),
        facts.branches is None,
        facts.turns is None,
    ensures
        chat_problem(after@, facts) is None,
{
    let events = after@;
    let count = events.len() as int;
    lemma_first_events(before, after, definition, CHATBOT@, Seq::empty(), model, effort);
    lemma_nothing_happened(events, count);
    lemma_nothing_wrong(events, definition.kind, MainAgentProfile::Standard);
    assert(event_with(events, 1int as EventId) == Some(events[1]));
    assert(event_with(events, 2int as EventId) == Some(events[2]));
    assert(after.added(before, 0) == events[0].body);
    let state = initial_state_check(events, 1, 2);
    assert forall|i: int| 0 <= i < count implies #[trigger] state(i) is None by {}
    lemma_no_failure(state, count);
    let kinds = chat_kind_check(events);
    assert forall|i: int| 0 <= i < count implies #[trigger] kinds(i) is None by {}
    lemma_no_failure(kinds, count);
    let sources = chat_source_check(events, definition.kind);
    assert forall|i: int| 0 <= i < count implies #[trigger] sources(i) is None by {
        assert(sets_up(events[i]));
    }
    lemma_no_failure(sources, count);
    assert(chat_history_problem(events, definition.kind, facts) is None);
}

} // verus!
