//! Whether an agent can go on from the log of a conversation.
use vstd::prelude::*;

use crate::api_calls::{api_call_states, api_states};
use crate::compacts::{compact_histories, compact_states};
use crate::context::{agent_kind_definition, kind_in, NO_AGENT_KIND};
use crate::event::{
    event_with, first_failure, lemma_failure_stays, AgentKind, Event, EventBody, EventDataBase,
    EventId, EventKind, ModelChangeCause, ReasoningEffortChangeCause,
};
use crate::profile::MainAgentProfile;
use crate::prompts::{
    BASE_SYSTEM_PROMPT_NAME, MANAGER_SYSTEM_PROMPT_NAME, PARENT_SYSTEM_PROMPT_NAME,
    POLICY_SYSTEM_PROMPT_NAME, TOOL_SYSTEM_PROMPT_NAME, WORKER_SYSTEM_PROMPT_NAME,
};
use crate::sessions::{session_histories, terminal_session_states};
use crate::text::{debug_text, decimal, join3, quoted, same, say1};
use crate::tool_calls::{tool_call_states, tool_states};
use crate::turns::{abort_check, validate_turn_aborts};
use crate::validate::{
    clone_check, estimate_check, follow_up_check, initial_state_check, reminder_check,
    source_check, title_check, validate_agent_title_changes, validate_clone_completed_events,
    validate_context_usage_estimates, validate_follow_up_prompts, validate_initial_state_events,
    validate_prompt_sources, validate_workmap_pending_reminders,
    EventRuleError,
};

verus! {

/// What other parts of the program find wrong with a log: with its branches, with its turns, and
/// with its work map.
#[derive(Debug)]
pub struct HistoryFacts {
    pub branches: Option<String>,
    pub turns: Option<String>,
    pub work: Option<String>,
}

/// A problem that was found elsewhere.
pub open spec fn reported(problem: Option<String>) -> Option<Seq<char>> {
    match problem {
        Some(text) => Some(text@),
        None => None,
    }
}

/// The first of two problems.
pub open spec fn first_of(first: Option<Seq<char>>, second: Option<Seq<char>>) -> Option<Seq<char>> {
    if first is Some {
        first
    } else {
        second
    }
}

/// The names of the prompts with which the log of an agent begins.
pub open spec fn prompt_names(profile: MainAgentProfile, has_parent_prompt: bool) -> Seq<Seq<char>> {
    let start = seq![BASE_SYSTEM_PROMPT_NAME@, POLICY_SYSTEM_PROMPT_NAME@];
    let middle = match profile {
        MainAgentProfile::Standard => if has_parent_prompt {
            start.push(PARENT_SYSTEM_PROMPT_NAME@)
        } else {
            start
        },
        MainAgentProfile::Manager => start.push(MANAGER_SYSTEM_PROMPT_NAME@),
        MainAgentProfile::Worker => start.push(WORKER_SYSTEM_PROMPT_NAME@),
    };
    middle.push(TOOL_SYSTEM_PROMPT_NAME@)
}

/// The names of the prompts with which the log of an agent begins.
pub fn system_prompt_names(profile: MainAgentProfile, has_parent_prompt: bool) -> (names: Vec<
    &'static str,
>)
    ensures
        names@.len() == prompt_names(profile, has_parent_prompt).len(),
        3 <= names@.len() <= 4,
        forall|i: int|
            0 <= i < names@.len() ==> (#[trigger] names@[i])@ == prompt_names(
                profile,
                has_parent_prompt,
            )[i],
{
    let mut names: Vec<&'static str> = Vec::new();
    names.push(BASE_SYSTEM_PROMPT_NAME);
    names.push(POLICY_SYSTEM_PROMPT_NAME);
    match profile {
        MainAgentProfile::Standard => if has_parent_prompt {
            names.push(PARENT_SYSTEM_PROMPT_NAME);
        },
        MainAgentProfile::Manager => names.push(MANAGER_SYSTEM_PROMPT_NAME),
        MainAgentProfile::Worker => names.push(WORKER_SYSTEM_PROMPT_NAME),
    }
    names.push(TOOL_SYSTEM_PROMPT_NAME);
    names
}

/// Whether an event is the prompt of a name.
pub open spec fn is_system_prompt(event: Option<Event>, name: Seq<char>) -> bool {
    event matches Some(found) && found.body matches EventBody::SystemPrompt(named) && named@ == name
}

/// The check that the prompts stand in their places at the beginning.
pub open spec fn prompt_check(events: Seq<Event>, names: Seq<Seq<char>>) -> spec_fn(int) -> Option<
    Seq<char>,
> {
    |place: int|
        if is_system_prompt(event_with(events, (place + 1) as u64), names[place]) {
            None
        } else {
            Some(
                ("MainAgent EDB must begin with system prompt "@ + quoted(names[place])
                    + " at id="@) + decimal((place + 1) as nat) + ""@,
            )
        }
}

/// Whether an event chooses the first model.
pub open spec fn is_first_model(event: Option<Event>) -> bool {
    event matches Some(found) && found.body matches EventBody::ModelChanged(changed)
        && changed.cause == ModelChangeCause::Initial
}

/// Whether an event chooses the first effort.
pub open spec fn is_first_effort(event: Option<Event>) -> bool {
    event matches Some(found) && found.body matches EventBody::ReasoningEffortChanged(changed)
        && changed.cause == ReasoningEffortChangeCause::Initial
}

fn has_first_model(edb: &EventDataBase, id: EventId) -> (result: bool)
    requires
        edb.wf(),
    ensures
        result == is_first_model(event_with(edb@, id)),
{
    match edb.get(id) {
        Some(event) => match &event.body {
            EventBody::ModelChanged(changed) => changed.cause == ModelChangeCause::Initial,
            _ => false,
        },
        None => false,
    }
}

fn has_first_effort(edb: &EventDataBase, id: EventId) -> (result: bool)
    requires
        edb.wf(),
    ensures
        result == is_first_effort(event_with(edb@, id)),
{
    match edb.get(id) {
        Some(event) => match &event.body {
            EventBody::ReasoningEffortChanged(changed) => changed.cause
                == ReasoningEffortChangeCause::Initial,
            _ => false,
        },
        None => false,
    }
}

/// The check that no prompt comes after the beginning, which is so many events long.
pub open spec fn late_prompt_check(events: Seq<Event>, start: int) -> spec_fn(int) -> Option<
    Seq<char>,
> {
    |place: int|
        match events[place].body {
            EventBody::SystemPrompt(name) => if place >= start {
                Some(
                    ("MainAgent system prompt "@ + quoted(name@)
                        + " appears after initialization at id="@) + decimal(
                        events[place].id as nat,
                    ) + ""@,
                )
            } else {
                None
            },
            _ => None,
        }
}

/// What is said of a rule that an event breaks.
pub open spec fn rule_text(found: Option<EventRuleError>) -> Option<Seq<char>> {
    match found {
        Some(error) => Some(error.text()),
        None => None,
    }
}

/// What is said of an agent that belongs to another orchestrator.
pub open spec fn other_orchestrator(defined: Seq<char>, name: Seq<char>) -> Seq<char> {
    ("EDB defines orchestrator "@ + defined + ", not "@) + name + ""@
}

/// What is wrong with the beginning of an agent's log.
pub open spec fn main_start_problem(
    events: Seq<Event>,
    names: Seq<Seq<char>>,
) -> Option<Seq<char>> {
    let model = (names.len() + 1) as u64;
    let effort = (names.len() + 2) as u64;
    let prompts = first_failure(prompt_check(events, names), names.len() as int);
    if prompts is Some {
        prompts
    } else if !is_first_model(event_with(events, model)) {
        Some("MainAgent EDB must define its initial model at id="@ + decimal(model as nat) + ""@)
    } else if !is_first_effort(event_with(events, effort)) {
        Some("MainAgent EDB must define its initial effort at id="@ + decimal(effort as nat) + ""@)
    } else {
        first_of(
            rule_text(first_failure(initial_state_check(events, model, effort), events.len() as int)),
            first_failure(late_prompt_check(events, names.len() as int + 1), events.len() as int),
        )
    }
}

/// What is wrong with the requests of a log.
pub open spec fn requests_problem(events: Seq<Event>) -> Option<Seq<char>> {
    match api_states(events, events.len() as int) {
        Err(error) => Some(error.text()),
        Ok(_) => None,
    }
}

/// What is wrong with the tool calls of a log.
pub open spec fn tools_problem(events: Seq<Event>) -> Option<Seq<char>> {
    match tool_states(events, events.len() as int) {
        Err(error) => Some(error.text()),
        Ok(_) => None,
    }
}

/// What is wrong with the compactions of a log.
pub open spec fn compacts_problem(events: Seq<Event>) -> Option<Seq<char>> {
    match compact_histories(events, events.len() as int) {
        Err(error) => Some(error.text()),
        Ok(_) => None,
    }
}

/// What is wrong with the titles of a log.
pub open spec fn titles_problem(events: Seq<Event>) -> Option<Seq<char>> {
    match first_failure(title_check(events), events.len() as int) {
        Some(error) => Some(error.text()),
        None => None,
    }
}

/// What is wrong with the turns of a log that the user ended.
pub open spec fn aborts_problem(events: Seq<Event>) -> Option<Seq<char>> {
    match first_failure(abort_check(events), events.len() as int) {
        Some(error) => Some(error.text()),
        None => None,
    }
}

/// What is wrong with the terminal sessions of a log.
pub open spec fn sessions_problem(events: Seq<Event>) -> Option<Seq<char>> {
    match session_histories(events, events.len() as int) {
        Err(error) => Some(error.text()),
        Ok(_) => None,
    }
}

/// What is wrong with the conversation in an agent's log.
pub open spec fn main_history_problem(
    events: Seq<Event>,
    kind: AgentKind,
    profile: MainAgentProfile,
    facts: HistoryFacts,
) -> Option<Seq<char>> {
    let count = events.len() as int;
    first_of(
        reported(facts.branches),
        first_of(
            rule_text(first_failure(source_check(events, kind, profile), count)),
            first_of(
                reported(facts.turns),
                first_of(
                    requests_problem(events),
                    first_of(
                        tools_problem(events),
                        first_of(
                            compacts_problem(events),
                            first_of(
                                titles_problem(events),
                                main_rest_problem(events, facts),
                            ),
                        ),
                    ),
                ),
            ),
        ),
    )
}

/// What else is wrong with the conversation in an agent's log.
pub open spec fn main_rest_problem(events: Seq<Event>, facts: HistoryFacts) -> Option<Seq<char>> {
    let count = events.len() as int;
    first_of(
        rule_text(first_failure(clone_check(events), count)),
        first_of(
            reported(facts.work),
            first_of(
                rule_text(first_failure(reminder_check(events), count)),
                first_of(
                    rule_text(first_failure(follow_up_check(events), count)),
                    first_of(
                        aborts_problem(events),
                        first_of(
                            rule_text(first_failure(estimate_check(events), count)),
                            sessions_problem(events),
                        ),
                    ),
                ),
            ),
        ),
    )
}

/// Why an agent cannot go on from a log.
pub open spec fn main_problem(
    events: Seq<Event>,
    profile: MainAgentProfile,
    has_parent_prompt: bool,
    facts: HistoryFacts,
) -> Option<Seq<char>> {
    if events.len() == 0 {
        None
    } else {
        match kind_in(events) {
            None => Some(NO_AGENT_KIND@),
            Some(definition) => if definition.orchestrator@ != profile.orchestrator() {
                Some(other_orchestrator(definition.orchestrator@, profile.orchestrator()))
            } else {
                first_of(
                    main_start_problem(events, prompt_names(profile, has_parent_prompt)),
                    main_history_problem(events, definition.kind, profile, facts),
                )
            },
        }
    }
}

fn check_prompts(edb: &EventDataBase, names: &Vec<&'static str>, expected: Ghost<Seq<Seq<char>>>) -> (
result: Result<(), String>)
    requires
        edb.wf(),
        names@.len() == expected@.len(),
        names@.len() <= 4,
        forall|i: int| 0 <= i < names@.len() ==> (#[trigger] names@[i])@ == expected@[i],
    ensures
        match first_failure(prompt_check(edb@, expected@), expected@.len() as int) {
            Some(text) => match result {
                Ok(_) => false,
                Err(error) => error@ == text,
            },
            None => result is Ok,
        },
{
    let ghost check = prompt_check(edb@, expected@);
    let mut place: usize = 0;
    while place < names.len()
        invariant
            edb.wf(),
            names@.len() == expected@.len(),
            names@.len() <= 4,
            forall|i: int| 0 <= i < names@.len() ==> (#[trigger] names@[i])@ == expected@[i],
            place <= names@.len(),
            check == prompt_check(edb@, expected@),
            first_failure(check, place as int) is None,
        decreases names@.len() - place,
    {
        let id = (place + 1) as EventId;
        let name = names[place];
        assert(name@ == expected@[place as int]);
        let found = match edb.get(id) {
            Some(event) => match &event.body {
                EventBody::SystemPrompt(named) => same(named.as_str(), name),
                _ => false,
            },
            None => false,
        };
        if !found {
            proof {
                lemma_failure_stays(check, place + 1, expected@.len() as int);
            }
            let start = join3(
                "MainAgent EDB must begin with system prompt ",
                debug_text(name).as_str(),
                " at id=",
            );
            return Err(say1(start.as_str(), id, ""));
        }
        place += 1;
    }
    Ok(())
}

fn check_late_prompts(edb: &EventDataBase, start: usize) -> (result: Result<(), String>)
    ensures
        match first_failure(late_prompt_check(edb@, start as int), edb@.len() as int) {
            Some(text) => match result {
                Ok(_) => false,
                Err(error) => error@ == text,
            },
            None => result is Ok,
        },
{
    let ghost check = late_prompt_check(edb@, start as int);
    let mut place: usize = 0;
    while place < edb.events.len()
        invariant
            place <= edb@.len(),
            check == late_prompt_check(edb@, start as int),
            first_failure(check, place as int) is None,
        decreases edb@.len() - place,
    {
        if let EventBody::SystemPrompt(name) = &edb.events[place].body {
            if place >= start {
                proof {
                    lemma_failure_stays(check, place + 1, edb@.len() as int);
                }
                let said = join3(
                    "MainAgent system prompt ",
                    debug_text(name.as_str()).as_str(),
                    " appears after initialization at id=",
                );
                return Err(say1(said.as_str(), edb.events[place].id, ""));
            }
        }
        place += 1;
    }
    Ok(())
}

/// Whether a result is the problem, or there is none.
pub open spec fn says(result: Result<(), String>, problem: Option<Seq<char>>) -> bool {
    match problem {
        Some(text) => match result {
            Ok(_) => false,
            Err(error) => error@ == text,
        },
        None => result is Ok,
    }
}

fn check_main_start(edb: &EventDataBase, names: &Vec<&'static str>, expected: Ghost<Seq<Seq<char>>>) -> (
result: Result<(), String>)
    requires
        edb.wf(),
        names@.len() == expected@.len(),
        names@.len() <= 4,
        forall|i: int| 0 <= i < names@.len() ==> (#[trigger] names@[i])@ == expected@[i],
    ensures
        says(result, main_start_problem(edb@, expected@)),
{
    match check_prompts(edb, names, expected) {
        Ok(()) => {},
        Err(error) => return Err(error),
    }
    let model = (names.len() + 1) as EventId;
    let effort = (names.len() + 2) as EventId;
    if !has_first_model(edb, model) {
        return Err(say1("MainAgent EDB must define its initial model at id=", model, ""));
    }
    if !has_first_effort(edb, effort) {
        return Err(say1("MainAgent EDB must define its initial effort at id=", effort, ""));
    }
    match validate_initial_state_events(edb, model, effort) {
        Ok(()) => {},
        Err(error) => return Err(error.message()),
    }
    check_late_prompts(edb, names.len() + 1)
}

fn check_main_rest(edb: &EventDataBase, facts: &HistoryFacts) -> (result: Result<(), String>)
    ensures
        says(result, main_rest_problem(edb@, *facts)),
{
    match validate_clone_completed_events(edb) {
        Ok(()) => {},
        Err(error) => return Err(error.message()),
    }
    if let Some(problem) = &facts.work {
        return Err(problem.clone());
    }
    match validate_workmap_pending_reminders(edb) {
        Ok(()) => {},
        Err(error) => return Err(error.message()),
    }
    match validate_follow_up_prompts(edb) {
        Ok(()) => {},
        Err(error) => return Err(error.message()),
    }
    match validate_turn_aborts(edb) {
        Ok(()) => {},
        Err(error) => return Err(error.message()),
    }
    match validate_context_usage_estimates(edb) {
        Ok(()) => {},
        Err(error) => return Err(error.message()),
    }
    match terminal_session_states(edb) {
        Ok(_) => Ok(()),
        Err(error) => Err(error.message()),
    }
}

fn check_main_history(
    edb: &EventDataBase,
    kind: AgentKind,
    profile: MainAgentProfile,
    facts: &HistoryFacts,
) -> (result: Result<(), String>)
    ensures
        says(result, main_history_problem(edb@, kind, profile, *facts)),
{
    if let Some(problem) = &facts.branches {
        return Err(problem.clone());
    }
    match validate_prompt_sources(edb, kind, profile) {
        Ok(()) => {},
        Err(error) => return Err(error.message()),
    }
    if let Some(problem) = &facts.turns {
        return Err(problem.clone());
    }
    match api_call_states(edb) {
        Ok(_) => {},
        Err(error) => return Err(error.message()),
    }
    match tool_call_states(edb) {
        Ok(_) => {},
        Err(error) => return Err(error.message()),
    }
    match compact_states(edb) {
        Ok(_) => {},
        Err(error) => return Err(error.message()),
    }
    match validate_agent_title_changes(edb) {
        Ok(()) => {},
        Err(error) => return Err(error.message()),
    }
    check_main_rest(edb, facts)
}

/// Checks that an agent of the profile can go on from the log.
pub fn check_main_log(
    edb: &EventDataBase,
    profile: MainAgentProfile,
    has_parent_prompt: bool,
    facts: &HistoryFacts,
) -> (result: Result<(), String>)
    requires
        edb.wf(),
    ensures
        says(result, main_problem(edb@, profile, has_parent_prompt, *facts)),
{
    if edb.is_empty() {
        return Ok(());
    }
    let definition = match agent_kind_definition(&edb.events) {
        Some(definition) => definition,
        None => return Err(NO_AGENT_KIND.to_owned()),
    };
    if !same(definition.orchestrator.as_str(), profile.name()) {
        let start = join3("EDB defines orchestrator ", definition.orchestrator.as_str(), ", not ");
        return Err(join3(start.as_str(), profile.name(), ""));
    }
    let names = system_prompt_names(profile, has_parent_prompt);
    match check_main_start(edb, &names, Ghost(prompt_names(profile, has_parent_prompt))) {
        Ok(()) => {},
        Err(error) => return Err(error),
    }
    check_main_history(edb, definition.kind, profile, facts)
}

/// The name of the orchestrator of chat bots.
pub const CHATBOT: &'static str = "chatbot";

/// Whether a chat bot knows events of the kind.
pub open spec fn chats(kind: EventKind) -> bool {
    match kind {
        EventKind::AgentKindDef => true,
        EventKind::AgentTurn => true,
        EventKind::ModelChanged => true,
        EventKind::UserPrompt => true,
        EventKind::ParentAgentPrompt => true,
        EventKind::AssistResponse => true,
        EventKind::ApiStateUpdate => true,
        EventKind::ContextUsageEstimate => true,
        EventKind::UserTurnAborted => true,
        EventKind::ModelContextItem => true,
        EventKind::ReasoningEffortChanged => true,
        EventKind::ContextCleared => true,
        EventKind::AgentTitleChanged => true,
        EventKind::CloneCompleted => true,
        _ => false,
    }
}

fn is_chat_kind(kind: EventKind) -> (result: bool)
    ensures
        result == chats(kind),
{
    match kind {
        EventKind::AgentKindDef => true,
        EventKind::AgentTurn => true,
        EventKind::ModelChanged => true,
        EventKind::UserPrompt => true,
        EventKind::ParentAgentPrompt => true,
        EventKind::AssistResponse => true,
        EventKind::ApiStateUpdate => true,
        EventKind::ContextUsageEstimate => true,
        EventKind::UserTurnAborted => true,
        EventKind::ModelContextItem => true,
        EventKind::ReasoningEffortChanged => true,
        EventKind::ContextCleared => true,
        EventKind::AgentTitleChanged => true,
        EventKind::CloneCompleted => true,
        _ => false,
    }
}

/// The check that a chat bot knows every event.
pub open spec fn chat_kind_check(events: Seq<Event>) -> spec_fn(int) -> Option<Seq<char>> {
    |place: int|
        if chats(events[place].kind_of()) {
            None
        } else {
            Some("chatbot does not support "@ + events[place].kind_of().name() + ""@)
        }
}

/// The check that the prompts come from whom the chat bot works for.
pub open spec fn chat_source_check(events: Seq<Event>, kind: AgentKind) -> spec_fn(int) -> Option<
    Seq<char>,
> {
    |place: int|
        if (events[place].body is UserPrompt && kind == AgentKind::SubAgent) || (
        events[place].body is ParentAgentPrompt && kind != AgentKind::SubAgent) {
            Some("chatbot received invalid prompt source "@ + events[place].kind_of().name() + ""@)
        } else {
            None
        }
}

/// What is said of a chat bot's log without a first model.
pub const CHAT_WITHOUT_MODEL: &'static str = "chatbot EDB must define its initial model at id=1";

/// What is said of a chat bot's log without a first effort.
pub const CHAT_WITHOUT_EFFORT: &'static str = "chatbot EDB must define its initial effort at id=2";

/// What is wrong with the conversation in a chat bot's log.
pub open spec fn chat_history_problem(
    events: Seq<Event>,
    kind: AgentKind,
    facts: HistoryFacts,
) -> Option<Seq<char>> {
    let count = events.len() as int;
    first_of(
        rule_text(first_failure(initial_state_check(events, 1, 2), count)),
        first_of(
            first_failure(chat_kind_check(events), count),
            first_of(
                first_failure(chat_source_check(events, kind), count),
                first_of(
                    reported(facts.branches),
                    first_of(
                        reported(facts.turns),
                        first_of(
                            requests_problem(events),
                            first_of(
                                rule_text(first_failure(clone_check(events), count)),
                                first_of(
                                    aborts_problem(events),
                                    rule_text(first_failure(estimate_check(events), count)),
                                ),
                            ),
                        ),
                    ),
                ),
            ),
        ),
    )
}

/// Why a chat bot cannot go on from a log.
pub open spec fn chat_problem(events: Seq<Event>, facts: HistoryFacts) -> Option<Seq<char>> {
    if events.len() == 0 {
        None
    } else {
        match kind_in(events) {
            None => Some(NO_AGENT_KIND@),
            Some(definition) => if definition.orchestrator@ != CHATBOT@ {
                Some(other_orchestrator(definition.orchestrator@, CHATBOT@))
            } else if !is_first_model(event_with(events, 1)) {
                Some(CHAT_WITHOUT_MODEL@)
            } else if !is_first_effort(event_with(events, 2)) {
                Some(CHAT_WITHOUT_EFFORT@)
            } else {
                chat_history_problem(events, definition.kind, facts)
            },
        }
    }
}

fn check_chat_kinds(edb: &EventDataBase) -> (result: Result<(), String>)
    ensures
        says(result, first_failure(chat_kind_check(edb@), edb@.len() as int)),
{
    let ghost check = chat_kind_check(edb@);
    let mut place: usize = 0;
    while place < edb.events.len()
        invariant
            place <= edb@.len(),
            check == chat_kind_check(edb@),
            first_failure(check, place as int) is None,
        decreases edb@.len() - place,
    {
        let kind = edb.events[place].kind();
        if !is_chat_kind(kind) {
            proof {
                lemma_failure_stays(check, place + 1, edb@.len() as int);
            }
            return Err(join3("chatbot does not support ", kind.label(), ""));
        }
        place += 1;
    }
    Ok(())
}

fn check_chat_sources(edb: &EventDataBase, agent_kind: AgentKind) -> (result: Result<(), String>)
    ensures
        says(result, first_failure(chat_source_check(edb@, agent_kind), edb@.len() as int)),
{
    let ghost check = chat_source_check(edb@, agent_kind);
    let mut place: usize = 0;
    while place < edb.events.len()
        invariant
            place <= edb@.len(),
            check == chat_source_check(edb@, agent_kind),
            first_failure(check, place as int) is None,
        decreases edb@.len() - place,
    {
        let valid = match &edb.events[place].body {
            EventBody::UserPrompt(_) => agent_kind != AgentKind::SubAgent,
            EventBody::ParentAgentPrompt(_) => agent_kind == AgentKind::SubAgent,
            _ => true,
        };
        if !valid {
            proof {
                lemma_failure_stays(check, place + 1, edb@.len() as int);
            }
            let kind = edb.events[place].kind();
            return Err(join3("chatbot received invalid prompt source ", kind.label(), ""));
        }
        place += 1;
    }
    Ok(())
}

fn check_chat_history(edb: &EventDataBase, kind: AgentKind, facts: &HistoryFacts) -> (result: Result<
    (),
    String,
>)
    ensures
        says(result, chat_history_problem(edb@, kind, *facts)),
{
    match validate_initial_state_events(edb, 1, 2) {
        Ok(()) => {},
        Err(error) => return Err(error.message()),
    }
    match check_chat_kinds(edb) {
        Ok(()) => {},
        Err(error) => return Err(error),
    }
    match check_chat_sources(edb, kind) {
        Ok(()) => {},
        Err(error) => return Err(error),
    }
    if let Some(problem) = &facts.branches {
        return Err(problem.clone());
    }
    if let Some(problem) = &facts.turns {
        return Err(problem.clone());
    }
    match api_call_states(edb) {
        Ok(_) => {},
        Err(error) => return Err(error.message()),
    }
    match validate_clone_completed_events(edb) {
        Ok(()) => {},
        Err(error) => return Err(error.message()),
    }
    match validate_turn_aborts(edb) {
        Ok(()) => {},
        Err(error) => return Err(error.message()),
    }
    match validate_context_usage_estimates(edb) {
        Ok(()) => Ok(()),
        Err(error) => Err(error.message()),
    }
}

/// Checks that a chat bot can go on from the log.
pub fn check_chat_log(edb: &EventDataBase, facts: &HistoryFacts) -> (result: Result<(), String>)
    requires
        edb.wf(),
    ensures
        says(result, chat_problem(edb@, *facts)),
{
    if edb.is_empty() {
        return Ok(());
    }
    let definition = match agent_kind_definition(&edb.events) {
        Some(definition) => definition,
        None => return Err(NO_AGENT_KIND.to_owned()),
    };
    if !same(definition.orchestrator.as_str(), CHATBOT) {
        let start = join3("EDB defines orchestrator ", definition.orchestrator.as_str(), ", not ");
        return Err(join3(start.as_str(), CHATBOT, ""));
    }
    if !has_first_model(edb, 1) {
        return Err(CHAT_WITHOUT_MODEL.to_owned());
    }
    if !has_first_effort(edb, 2) {
        return Err(CHAT_WITHOUT_EFFORT.to_owned());
    }
    check_chat_history(edb, definition.kind, facts)
}

} // verus!
