//! The agents: how they are made, how their logs begin, and how they take up a log again.
use vstd::prelude::*;

use crate::config::{copy_text, UNSET_EFFORT};
use crate::context::{agent_kind_definition, kind_in, NO_AGENT_KIND};
use crate::event::{
    lemma_grown_twice, AgentKind, AgentKindDef, AgentTurnState, ApiState, CompactKind, Computed,
    Event, EventBody, EventDataBase, EventId, ModelChangeCause, ReasoningEffortChangeCause,
};
use crate::input_queue::{ApiActivity, OrchestratorInputQueue};
use crate::inputs::{
    append_effort_change, append_model_change, current_effort, is_effort_change, is_model_change,
    restore_model_effort, restored, said,
};
use crate::model_api::ModelRuntime;
use crate::notes::{
    append_all, estimate_note, has_room, notes_of, written, Note, NO_IDENTITIES,
};
use crate::observer::{live_terminals, ToolboxObserver};
use crate::profile::MainAgentProfile;
use crate::prompts::{
    build_runtime_environment_prompt, surroundings, ProcessEnvironmentSnapshot,
};
use crate::support::{
    chat_problem, check_chat_log, check_main_log, main_problem, prompt_names, says,
    system_prompt_names, HistoryFacts, CHATBOT,
};
use crate::text::{join3, same};
use crate::tools::written_or_full;
use crate::turns::LatestTurn;

verus! {

/// The name of a workspace's main agent.
pub const MAIN_AGENT_ID: &'static str = "main";

/// Who an agent works for, and what it was told at its birth.
#[derive(Debug)]
pub struct AgentDefinition {
    pub kind: AgentKind,
    pub orchestrator: String,
    pub parent_agent_id: Option<String>,
    pub system_prompt: Option<String>,
}

impl AgentDefinition {
    /// Whether the agent works for the user, and was told nothing.
    pub open spec fn is_interactive(&self) -> bool {
        &&& self.kind == AgentKind::Interactive
        &&& self.orchestrator@ == "main-agent"@
        &&& self.parent_agent_id is None
        &&& self.system_prompt is None
    }

    /// An agent that works for the user.
    pub fn interactive() -> (definition: AgentDefinition)
        ensures
            definition.is_interactive(),
    {
        AgentDefinition {
            kind: AgentKind::Interactive,
            orchestrator: "main-agent".to_owned(),
            parent_agent_id: None,
            system_prompt: None,
        }
    }

    /// An agent that works for another agent.
    pub fn sub_agent(parent: &str, system_prompt: Option<String>) -> (definition: AgentDefinition)
        ensures
            definition.kind == AgentKind::SubAgent,
            definition.orchestrator@ == "main-agent"@,
            match definition.parent_agent_id {
                Some(id) => id@ == parent@,
                None => false,
            },
            definition.system_prompt == system_prompt,
    {
        AgentDefinition {
            kind: AgentKind::SubAgent,
            orchestrator: "main-agent".to_owned(),
            parent_agent_id: Some(parent.to_owned()),
            system_prompt,
        }
    }

    /// Whether the definition is the one that a log gives.
    pub open spec fn is_of(&self, definition: AgentKindDef) -> bool {
        &&& self.kind == definition.kind
        &&& self.orchestrator == definition.orchestrator
        &&& self.parent_agent_id == definition.parent_agent_id
        &&& self.system_prompt == definition.system_prompt
    }

    fn of(definition: &AgentKindDef) -> (copy: AgentDefinition)
        ensures
            copy.is_of(*definition),
    {
        AgentDefinition {
            kind: definition.kind,
            orchestrator: definition.orchestrator.clone(),
            parent_agent_id: copy_text(&definition.parent_agent_id),
            system_prompt: copy_text(&definition.system_prompt),
        }
    }
}

/// The orchestrators that a user can choose.
pub fn available_orchestrators() -> (names: Vec<&'static str>)
    ensures
        names@.len() == 3,
        names@[0]@ == "main-agent"@,
        names@[1]@ == "manager-agent"@,
        names@[2]@ == "chatbot"@,
{
    let mut names: Vec<&'static str> = Vec::new();
    names.push("main-agent");
    names.push("manager-agent");
    names.push("chatbot");
    names
}

/// The effort that is asked for, or none.
pub open spec fn chosen_effort(effort: Option<String>) -> Seq<char> {
    current_effort(effort)
}

/// An agent that works with tools.
#[derive(Debug)]
pub struct MainAgent {
    pub cursor: usize,
    pub effort: Option<String>,
    pub toolboxes: ToolboxObserver,
    pub definition: AgentDefinition,
    pub parent_system_prompt: Option<String>,
    pub input_queue: OrchestratorInputQueue,
    pub api_activity: ApiActivity,
    pub profile: MainAgentProfile,
    pub compact_kind: CompactKind,
    pub manager_family: bool,
    pub environment_prompt: String,
    pub workspace: String,
}

/// A set of tools that can be taken out of what a model is offered.
#[derive(Clone, Copy, Debug, PartialEq, Eq, Structural)]
pub enum ToolSet {
    Agent,
    Image,
    Title,
}

/// What a model is offered of the tools: all that a manager may use, or all but some sets.
#[derive(Debug)]
pub enum CatalogChoice {
    ManagerView,
    Without(Vec<ToolSet>),
}

/// What a model is offered of the tools.
pub open spec fn offered_tools(choice: CatalogChoice, profile: MainAgentProfile, kind: AgentKind) -> bool {
    match profile {
        MainAgentProfile::Manager => choice is ManagerView,
        MainAgentProfile::Worker => choice matches CatalogChoice::Without(sets) && sets@ == seq![
            ToolSet::Agent,
            ToolSet::Image,
            ToolSet::Title,
        ],
        MainAgentProfile::Standard => choice matches CatalogChoice::Without(sets) && sets@ == (
        if kind == AgentKind::SubAgent {
            seq![ToolSet::Agent, ToolSet::Title]
        } else {
            Seq::empty()
        }),
    }
}

/// Whether an event defines the agent.
pub open spec fn defines(body: EventBody, definition: AgentDefinition, name: Seq<char>) -> bool {
    &&& body matches EventBody::AgentKindDef(written)
    &&& written.kind == definition.kind
    &&& written.orchestrator@ == name
    &&& written.parent_agent_id == definition.parent_agent_id
    &&& written.system_prompt == definition.system_prompt
}

/// Whether events begin a log: who the agent is, its prompts, its first model and its first effort.
pub open spec fn begun(
    before: &EventDataBase,
    after: &EventDataBase,
    definition: AgentDefinition,
    name: Seq<char>,
    prompts: Seq<Seq<char>>,
    model: Seq<char>,
    effort: Seq<char>,
) -> bool {
    let count = prompts.len() as int;
    &&& after.grown(before, count + 3)
    &&& defines(after.added(before, 0), definition, name)
    &&& forall|i: int|
        0 <= i < count ==> (#[trigger] after.added(before, 1 + i) matches EventBody::SystemPrompt(
            written,
        ) && written@ == prompts[i])
    &&& is_model_change(after.added(before, count + 1), model, ModelChangeCause::Initial)
    &&& is_effort_change(
        after.added(before, count + 2),
        effort,
        ReasoningEffortChangeCause::Initial,
    )
}

fn definition_event(definition: &AgentDefinition, name: &str) -> (body: EventBody)
    ensures
        defines(body, *definition, name@),
{
    EventBody::AgentKindDef(
        AgentKindDef {
            kind: definition.kind,
            orchestrator: name.to_owned(),
            parent_agent_id: copy_text(&definition.parent_agent_id),
            system_prompt: copy_text(&definition.system_prompt),
        },
    )
}

fn begin_log(
    edb: &mut EventDataBase,
    definition: &AgentDefinition,
    name: &str,
    prompts: &Vec<&'static str>,
    expected: Ghost<Seq<Seq<char>>>,
    model: &str,
    effort: &str,
) -> (result: Result<(), String>)
    requires
        old(edb).wf(),
        prompts@.len() == expected@.len(),
        prompts@.len() <= 4,
        forall|i: int| 0 <= i < prompts@.len() ==> (#[trigger] prompts@[i])@ == expected@[i],
    ensures
        final(edb).wf(),
        if old(edb).room(expected@.len() as int + 3) {
            result is Ok && begun(
                old(edb),
                final(edb),
                *definition,
                name@,
                expected@,
                model@,
                effort@,
            )
        } else {
            *final(edb) == *old(edb) && match result {
                Ok(_) => false,
                Err(error) => error@ == NO_IDENTITIES@,
            }
        },
{
    if !has_room(edb, prompts.len() + 3) {
        return Err(NO_IDENTITIES.to_owned());
    }
    let ghost first = *edb;
    edb.append(definition_event(definition, name));
    let mut place: usize = 0;
    while place < prompts.len()
        invariant
            edb.wf(),
            first.room(expected@.len() as int + 3),
            prompts@.len() == expected@.len(),
            forall|i: int| 0 <= i < prompts@.len() ==> (#[trigger] prompts@[i])@ == expected@[i],
            place <= prompts@.len(),
            edb.grown(&first, 1 + place),
            defines(edb.added(&first, 0), *definition, name@),
            forall|i: int|
                0 <= i < place ==> (#[trigger] edb.added(&first, 1 + i) matches EventBody::SystemPrompt(
                    written,
                ) && written@ == expected@[i]),
        decreases prompts@.len() - place,
    {
        let ghost before = *edb;
        assert(prompts@[place as int]@ == expected@[place as int]);
        edb.append(EventBody::SystemPrompt(prompts[place].to_owned()));
        proof {
            lemma_grown_twice(&first, &before, edb, 1 + place, 1);
            assert(edb.added(&first, 0) == before.added(&first, 0));
            assert(edb.added(&before, 0) == edb.added(&first, 1 + place + 0));
            assert forall|i: int| 0 <= i < place + 1 implies (#[trigger] edb.added(
                &first,
                1 + i,
            ) matches EventBody::SystemPrompt(written) && written@ == expected@[i]) by {
                if i < place {
                    assert(edb.added(&first, 1 + i) == before.added(&first, 1 + i));
                }
            }
        }
        place += 1;
    }
    let ghost third = *edb;
    let ghost count = expected@.len() as int;
    append_model_change(edb, model, ModelChangeCause::Initial);
    let ghost fourth = *edb;
    append_effort_change(edb, effort, ReasoningEffortChangeCause::Initial);
    proof {
        lemma_grown_twice(&first, &third, &fourth, 1 + count, 1);
        lemma_grown_twice(&first, &fourth, edb, 2 + count, 1);
        assert(edb.added(&first, 0) == fourth.added(&first, 0));
        assert(fourth.added(&first, 0) == third.added(&first, 0));
        assert(fourth.added(&third, 0) == fourth.added(&first, 1 + count + 0));
        assert(edb.added(&first, count + 1) == fourth.added(&first, count + 1));
        assert(edb.added(&fourth, 0) == edb.added(&first, 2 + count + 0));
        assert forall|i: int| 0 <= i < count implies (#[trigger] edb.added(
            &first,
            1 + i,
        ) matches EventBody::SystemPrompt(written) && written@ == expected@[i]) by {
            assert(edb.added(&first, 1 + i) == fourth.added(&first, 1 + i));
            assert(fourth.added(&first, 1 + i) == third.added(&first, 1 + i));
        }
    }
    Ok(())
}

impl MainAgent {
    /// Whether the agent was made so and has done nothing yet.
    pub open spec fn is_new(
        &self,
        effort: Option<String>,
        environment: ProcessEnvironmentSnapshot,
        temporary_root: Seq<char>,
        profile: MainAgentProfile,
        manager_family: bool,
    ) -> bool {
        &&& self.cursor == 0
        &&& match self.effort {
            Some(chosen) => chosen@ == chosen_effort(effort),
            None => false,
        }
        &&& live_terminals(Some(&self.toolboxes)) == Ok::<nat, Seq<char>>(0)
        &&& match self.toolboxes.pages {
            Computed::Value(open) => open@.len() == 0,
            Computed::Failure(_) => false,
        }
        &&& self.definition.is_interactive()
        &&& self.parent_system_prompt is None
        &&& self.input_queue.pending@.len() == 0
        &&& self.input_queue.abort_target == crate::event::NO_ABORT_TARGET
        &&& self.api_activity == ApiActivity::idle()
        &&& self.profile == profile
        &&& self.compact_kind == profile.compaction()
        &&& self.manager_family == manager_family
        &&& self.environment_prompt@ == surroundings(environment, "."@, temporary_root, MAIN_AGENT_ID@)
        &&& self.workspace@ == "."@
    }

    /// An agent that works on its own. `environment` is what the program found of its machine when
    /// it started, and `temporary_root` the directory below a workspace that holds the temporary
    /// ones of the agents.
    pub fn new(
        effort: Option<String>,
        environment: &ProcessEnvironmentSnapshot,
        temporary_root: &str,
    ) -> (agent: MainAgent)
        ensures
            agent.is_new(
                effort,
                *environment,
                temporary_root@,
                MainAgentProfile::Standard,
                false,
            ),
    {
        Self::with_profile(effort, environment, temporary_root, MainAgentProfile::Standard, false)
    }

    /// An agent that has workers.
    pub fn new_manager(
        effort: Option<String>,
        environment: &ProcessEnvironmentSnapshot,
        temporary_root: &str,
    ) -> (agent: MainAgent)
        ensures
            agent.is_new(effort, *environment, temporary_root@, MainAgentProfile::Manager, true),
    {
        Self::with_profile(effort, environment, temporary_root, MainAgentProfile::Manager, true)
    }

    /// An agent that works for a manager.
    pub fn new_worker(
        effort: Option<String>,
        environment: &ProcessEnvironmentSnapshot,
        temporary_root: &str,
    ) -> (agent: MainAgent)
        ensures
            agent.is_new(effort, *environment, temporary_root@, MainAgentProfile::Worker, true),
    {
        Self::with_profile(effort, environment, temporary_root, MainAgentProfile::Worker, true)
    }

    fn with_profile(
        effort: Option<String>,
        environment: &ProcessEnvironmentSnapshot,
        temporary_root: &str,
        profile: MainAgentProfile,
        manager_family: bool,
    ) -> (agent: MainAgent)
        ensures
            agent.is_new(effort, *environment, temporary_root@, profile, manager_family),
    {
        let chosen = match effort {
            Some(named) => named,
            None => UNSET_EFFORT.to_owned(),
        };
        MainAgent {
            cursor: 0,
            effort: Some(chosen),
            toolboxes: ToolboxObserver::empty(),
            definition: AgentDefinition::interactive(),
            parent_system_prompt: None,
            input_queue: OrchestratorInputQueue::default(),
            api_activity: ApiActivity::default(),
            profile,
            compact_kind: profile.compact_kind(),
            manager_family,
            environment_prompt: build_runtime_environment_prompt(
                environment,
                ".",
                temporary_root,
                MAIN_AGENT_ID,
            ),
            workspace: ".".to_owned(),
        }
    }

    /// The name of the agent's orchestrator.
    pub fn name(&self) -> (name: &'static str)
        ensures
            name@ == self.profile.orchestrator(),
    {
        self.profile.name()
    }

    /// What the tools of the agent keep running.
    pub fn toolbox_observer(&self) -> (observer: Option<&ToolboxObserver>)
        ensures
            observer == Some(&self.toolboxes),
    {
        Some(&self.toolboxes)
    }

    /// Places the agent in a workspace with the tools that were loaded there, and describes its
    /// surroundings to its model. The agent is the workspace's main one.
    pub fn configure_workspace(
        &mut self,
        workspace: &str,
        toolboxes: ToolboxObserver,
        environment: &ProcessEnvironmentSnapshot,
        temporary_root: &str,
    )
        ensures
            final(self).workspace@ == workspace@,
            final(self).environment_prompt@ == surroundings(
                *environment,
                workspace@,
                temporary_root@,
                MAIN_AGENT_ID@,
            ),
            *final(self) == (MainAgent {
                workspace: final(self).workspace,
                environment_prompt: final(self).environment_prompt,
                toolboxes,
                ..*old(self)
            }),
    {
        self.toolboxes = toolboxes;
        self.workspace = workspace.to_owned();
        self.environment_prompt = build_runtime_environment_prompt(
            environment,
            workspace,
            temporary_root,
            MAIN_AGENT_ID,
        );
    }

    /// Places the agent in a workspace under its own name, and describes its surroundings to its
    /// model.
    pub fn attach_workspace(
        &mut self,
        workspace: &str,
        agent_id: &str,
        environment: &ProcessEnvironmentSnapshot,
        temporary_root: &str,
    )
        ensures
            final(self).workspace@ == workspace@,
            final(self).environment_prompt@ == surroundings(
                *environment,
                workspace@,
                temporary_root@,
                agent_id@,
            ),
            *final(self) == (MainAgent {
                workspace: final(self).workspace,
                environment_prompt: final(self).environment_prompt,
                ..*old(self)
            }),
    {
        self.workspace = workspace.to_owned();
        self.environment_prompt = build_runtime_environment_prompt(
            environment,
            workspace,
            temporary_root,
            agent_id,
        );
    }

    /// Whether what an agent is asked and what its tools keep running is the same.
    pub open spec fn same_agent(&self, other: &MainAgent) -> bool {
        &&& self.toolboxes == other.toolboxes
        &&& self.input_queue == other.input_queue
        &&& self.api_activity == other.api_activity
        &&& self.manager_family == other.manager_family
    }

    /// The part that the agent plays once it is defined so: a manager's sub-agents are workers.
    pub open spec fn profile_for(&self, kind: AgentKind) -> MainAgentProfile {
        if !self.manager_family {
            self.profile
        } else if kind == AgentKind::SubAgent {
            MainAgentProfile::Worker
        } else {
            MainAgentProfile::Manager
        }
    }

    /// Defines who the agent works for.
    pub fn configure_agent(&mut self, definition: AgentDefinition)
        ensures
            final(self).same_agent(old(self)),
            final(self).workspace == old(self).workspace,
            final(self).environment_prompt == old(self).environment_prompt,
            final(self).cursor == old(self).cursor,
            final(self).effort == old(self).effort,
            final(self).definition == definition,
            final(self).parent_system_prompt == definition.system_prompt,
            final(self).profile == old(self).profile_for(definition.kind),
            final(self).compact_kind == (if old(self).manager_family {
                old(self).profile_for(definition.kind).compaction()
            } else {
                old(self).compact_kind
            }),
    {
        if self.manager_family {
            self.profile = if definition.kind == AgentKind::SubAgent {
                MainAgentProfile::Worker
            } else {
                MainAgentProfile::Manager
            };
            self.compact_kind = self.profile.compact_kind();
        }
        self.parent_system_prompt = copy_text(&definition.system_prompt);
        self.definition = definition;
    }

    /// The names of the prompts with which the log of the agent begins.
    pub fn expected_system_prompts(&self) -> (names: Vec<&'static str>)
        ensures
            names@.len() == prompt_names(self.profile, self.parent_system_prompt is Some).len(),
            3 <= names@.len() <= 4,
            forall|i: int|
                0 <= i < names@.len() ==> (#[trigger] names@[i])@ == prompt_names(
                    self.profile,
                    self.parent_system_prompt is Some,
                )[i],
    {
        system_prompt_names(self.profile, self.parent_system_prompt.is_some())
    }

    /// What the model is offered of the tools.
    pub fn visible_catalog(&self) -> (choice: CatalogChoice)
        ensures
            offered_tools(choice, self.profile, self.definition.kind),
    {
        let mut sets: Vec<ToolSet> = Vec::new();
        match self.profile {
            MainAgentProfile::Manager => {
                return CatalogChoice::ManagerView;
            },
            MainAgentProfile::Worker => {
                sets.push(ToolSet::Agent);
                sets.push(ToolSet::Image);
                sets.push(ToolSet::Title);
                assert(sets@ =~= seq![ToolSet::Agent, ToolSet::Image, ToolSet::Title]);
            },
            MainAgentProfile::Standard => {
                if self.definition.kind == AgentKind::SubAgent {
                    sets.push(ToolSet::Agent);
                    sets.push(ToolSet::Title);
                    assert(sets@ =~= seq![ToolSet::Agent, ToolSet::Title]);
                }
            },
        }
        CatalogChoice::Without(sets)
    }

    /// Begins the log of the agent.
    pub fn initialize(&self, edb: &mut EventDataBase, models: &ModelRuntime) -> (result: Result<
        (),
        String,
    >)
        requires
            old(edb).wf(),
        ensures
            final(edb).wf(),
            ({
                let names = prompt_names(self.profile, self.parent_system_prompt is Some);
                if old(edb).room(names.len() as int + 3) {
                    result is Ok && begun(
                        old(edb),
                        final(edb),
                        self.definition,
                        self.profile.orchestrator(),
                        names,
                        models.active.model@.name,
                        current_effort(self.effort),
                    )
                } else {
                    *final(edb) == *old(edb) && match result {
                        Ok(_) => false,
                        Err(error) => error@ == NO_IDENTITIES@,
                    }
                }
            }),
    {
        let names = self.expected_system_prompts();
        let effort = match &self.effort {
            Some(named) => named.as_str(),
            None => UNSET_EFFORT,
        };
        begin_log(
            edb,
            &self.definition,
            self.profile.name(),
            &names,
            Ghost(prompt_names(self.profile, self.parent_system_prompt is Some)),
            models.active.model.name.as_str(),
            effort,
        )
    }

    /// Checks that the agent can go on from the log. `facts` is what other parts of the program
    /// find wrong with it.
    pub fn supports_edb(&self, edb: &EventDataBase, facts: &HistoryFacts) -> (result: Result<
        (),
        String,
    >)
        requires
            edb.wf(),
        ensures
            says(
                result,
                main_problem(edb@, self.profile, self.parent_system_prompt is Some, *facts),
            ),
    {
        check_main_log(edb, self.profile, self.parent_system_prompt.is_some(), facts)
    }

    /// Takes up the log: who the agent is, its model and its effort. Nothing in it is still to do.
    pub fn restore(&mut self, edb: &EventDataBase, models: &mut ModelRuntime) -> (result: Result<
        (),
        String,
    >)
        requires
            old(models).wf(),
        ensures
            final(models).wf(),
            final(models).models == old(models).models,
            final(self).same_agent(old(self)),
            final(self).profile == old(self).profile,
            final(self).compact_kind == old(self).compact_kind,
            final(self).workspace == old(self).workspace,
            final(self).environment_prompt == old(self).environment_prompt,
            if edb@.len() > 0 && kind_in(edb@) is None {
                &&& *final(self) == *old(self)
                &&& *final(models) == *old(models)
                &&& match result {
                    Ok(_) => false,
                    Err(error) => error@ == NO_AGENT_KIND@,
                }
            } else {
                &&& final(self).cursor == edb@.len()
                &&& if edb@.len() > 0 {
                    final(self).definition.is_of(kind_in(edb@)->0)
                        && final(self).parent_system_prompt == kind_in(edb@)->0.system_prompt
                } else {
                    final(self).definition == old(self).definition
                        && final(self).parent_system_prompt == old(self).parent_system_prompt
                }
                &&& restored(
                    edb@,
                    old(self).effort,
                    old(models),
                    final(self).effort,
                    final(models),
                    said(result),
                )
            },
    {
        if !edb.is_empty() {
            let definition = match agent_kind_definition(&edb.events) {
                Some(definition) => definition,
                None => return Err(NO_AGENT_KIND.to_owned()),
            };
            self.definition = AgentDefinition::of(definition);
            self.parent_system_prompt = copy_text(&definition.system_prompt);
        }
        self.cursor = edb.len();
        restore_model_effort(&mut self.effort, edb, models)
    }
}

/// An agent that only talks.
#[derive(Debug)]
pub struct Chatbot {
    pub cursor: usize,
    pub effort: Option<String>,
    pub definition: AgentDefinition,
    pub input_queue: OrchestratorInputQueue,
    pub api_activity: ApiActivity,
}

impl Chatbot {
    /// Whether the chat bot was made so and has done nothing yet.
    pub open spec fn is_new(&self, effort: Option<String>) -> bool {
        &&& self.cursor == 0
        &&& match self.effort {
            Some(chosen) => chosen@ == chosen_effort(effort),
            None => false,
        }
        &&& self.definition.is_interactive()
        &&& self.input_queue.pending@.len() == 0
        &&& self.input_queue.abort_target == crate::event::NO_ABORT_TARGET
        &&& self.api_activity == ApiActivity::idle()
    }

    /// A chat bot.
    pub fn new(effort: Option<String>) -> (agent: Chatbot)
        ensures
            agent.is_new(effort),
    {
        let chosen = match effort {
            Some(named) => named,
            None => UNSET_EFFORT.to_owned(),
        };
        Chatbot {
            cursor: 0,
            effort: Some(chosen),
            definition: AgentDefinition::interactive(),
            input_queue: OrchestratorInputQueue::default(),
            api_activity: ApiActivity::default(),
        }
    }

    /// The name of the chat bot's orchestrator.
    pub fn name(&self) -> (name: &'static str)
        ensures
            name@ == CHATBOT@,
    {
        CHATBOT
    }

    /// A chat bot has no tools that keep anything running.
    pub fn toolbox_observer(&self) -> (observer: Option<&ToolboxObserver>)
        ensures
            observer is None,
    {
        None
    }

    /// Defines who the chat bot works for.
    pub fn configure_agent(&mut self, definition: AgentDefinition)
        ensures
            *final(self) == (Chatbot { definition, ..*old(self) }),
    {
        self.definition = definition;
    }

    /// Begins the log of the chat bot.
    pub fn initialize(&self, edb: &mut EventDataBase, models: &ModelRuntime) -> (result: Result<
        (),
        String,
    >)
        requires
            old(edb).wf(),
        ensures
            final(edb).wf(),
            if old(edb).room(3) {
                result is Ok && begun(
                    old(edb),
                    final(edb),
                    self.definition,
                    CHATBOT@,
                    Seq::empty(),
                    models.active.model@.name,
                    current_effort(self.effort),
                )
            } else {
                *final(edb) == *old(edb) && match result {
                    Ok(_) => false,
                    Err(error) => error@ == NO_IDENTITIES@,
                }
            },
    {
        let names: Vec<&'static str> = Vec::new();
        let effort = match &self.effort {
            Some(named) => named.as_str(),
            None => UNSET_EFFORT,
        };
        begin_log(
            edb,
            &self.definition,
            CHATBOT,
            &names,
            Ghost(Seq::empty()),
            models.active.model.name.as_str(),
            effort,
        )
    }

    /// Checks that the chat bot can go on from the log. `facts` is what other parts of the program
    /// find wrong with it.
    pub fn supports_edb(&self, edb: &EventDataBase, facts: &HistoryFacts) -> (result: Result<
        (),
        String,
    >)
        requires
            edb.wf(),
        ensures
            says(result, chat_problem(edb@, *facts)),
    {
        check_chat_log(edb, facts)
    }

    /// Takes up the log: who the chat bot is, its model and its effort. Nothing in it is still to
    /// do.
    pub fn restore(&mut self, edb: &EventDataBase, models: &mut ModelRuntime) -> (result: Result<
        (),
        String,
    >)
        requires
            old(models).wf(),
        ensures
            final(models).wf(),
            final(models).models == old(models).models,
            final(self).input_queue == old(self).input_queue,
            final(self).api_activity == old(self).api_activity,
            if edb@.len() > 0 && kind_in(edb@) is None {
                &&& *final(self) == *old(self)
                &&& *final(models) == *old(models)
                &&& match result {
                    Ok(_) => false,
                    Err(error) => error@ == NO_AGENT_KIND@,
                }
            } else {
                &&& final(self).cursor == edb@.len()
                &&& if edb@.len() > 0 {
                    final(self).definition.is_of(kind_in(edb@)->0)
                } else {
                    final(self).definition == old(self).definition
                }
                &&& restored(
                    edb@,
                    old(self).effort,
                    old(models),
                    final(self).effort,
                    final(models),
                    said(result),
                )
            },
    {
        if !edb.is_empty() {
            let definition = match agent_kind_definition(&edb.events) {
                Some(definition) => definition,
                None => return Err(NO_AGENT_KIND.to_owned()),
            };
            self.definition = AgentDefinition::of(definition);
        }
        self.cursor = edb.len();
        restore_model_effort(&mut self.effort, edb, models)
    }
}

/// An agent of either kind.
#[derive(Debug)]
pub enum AnyAgent {
    Main(MainAgent),
    Chat(Chatbot),
}

/// The agent that a name stands for, in the surroundings that the program found.
pub open spec fn is_called(
    agent: AnyAgent,
    name: Seq<char>,
    effort: Option<String>,
    environment: ProcessEnvironmentSnapshot,
    temporary_root: Seq<char>,
) -> bool {
    if name == "main-agent"@ {
        agent matches AnyAgent::Main(main) && main.is_new(
            effort,
            environment,
            temporary_root,
            MainAgentProfile::Standard,
            false,
        )
    } else if name == "manager-agent"@ {
        agent matches AnyAgent::Main(main) && main.is_new(
            effort,
            environment,
            temporary_root,
            MainAgentProfile::Manager,
            true,
        )
    } else if name == "worker-agent"@ {
        agent matches AnyAgent::Main(main) && main.is_new(
            effort,
            environment,
            temporary_root,
            MainAgentProfile::Worker,
            true,
        )
    } else {
        agent matches AnyAgent::Chat(chat) && chat.is_new(effort)
    }
}

/// Whether an orchestrator of the name exists.
pub open spec fn orchestrator_exists(name: Seq<char>) -> bool {
    name == "main-agent"@ || name == "manager-agent"@ || name == "worker-agent"@ || name
        == CHATBOT@
}

/// Makes the agent that the name stands for.
pub fn create(
    name: &str,
    effort: Option<String>,
    environment: &ProcessEnvironmentSnapshot,
    temporary_root: &str,
) -> (result: Result<AnyAgent, String>)
    ensures
        match result {
            Ok(agent) => orchestrator_exists(name@) && is_called(
                agent,
                name@,
                effort,
                *environment,
                temporary_root@,
            ),
            Err(error) => !orchestrator_exists(name@) && error@ == "orchestrator "@ + name@
                + " does not exist"@,
        },
{
    if same(name, "main-agent") {
        Ok(AnyAgent::Main(MainAgent::new(effort, environment, temporary_root)))
    } else if same(name, "manager-agent") {
        Ok(AnyAgent::Main(MainAgent::new_manager(effort, environment, temporary_root)))
    } else if same(name, "worker-agent") {
        Ok(AnyAgent::Main(MainAgent::new_worker(effort, environment, temporary_root)))
    } else if same(name, CHATBOT) {
        Ok(AnyAgent::Chat(Chatbot::new(effort)))
    } else {
        Err(join3("orchestrator ", name, " does not exist"))
    }
}

/// Whether the event divides the tokens of the request's end.
pub open spec fn divides(event: Event, api_state: EventId) -> bool {
    event.body matches EventBody::ContextUsageEstimate(estimate) && estimate.api_state_event_id
        == api_state
}

/// The end of a request whose tokens are still to be divided: the latest one that was charged,
/// unless that is done.
pub open spec fn estimate_owed(events: Seq<Event>, boundary: Option<EventId>) -> Option<EventId> {
    match boundary {
        Some(api_state) => if exists|i: int|
            0 <= i < events.len() && divides(#[trigger] events[i], api_state) {
            None
        } else {
            Some(api_state)
        },
        None => None,
    }
}

/// The end of a request whose tokens are still to be divided. `boundary` is the latest one that
/// was charged.
pub fn estimate_due(edb: &EventDataBase, boundary: Option<EventId>) -> (due: Option<EventId>)
    ensures
        due == estimate_owed(edb@, boundary),
{
    let api_state = match boundary {
        Some(api_state) => api_state,
        None => return None,
    };
    let mut place: usize = 0;
    while place < edb.events.len()
        invariant
            place <= edb@.len(),
            boundary == Some(api_state),
            forall|i: int| 0 <= i < place ==> !divides(#[trigger] edb@[i], api_state),
        decreases edb@.len() - place,
    {
        if let EventBody::ContextUsageEstimate(estimate) = &edb.events[place].body {
            if estimate.api_state_event_id == api_state {
                assert(divides(edb@[place as int], api_state));
                return None;
            }
        }
        place += 1;
    }
    Some(api_state)
}

/// Divides the tokens of the latest request that was charged, once. `sum` is what the parts come
/// to.
pub fn ensure_context_usage_estimate(
    edb: &mut EventDataBase,
    boundary: Option<EventId>,
    sum: u64,
) -> (result: Result<(), String>)
    requires
        old(edb).wf(),
    ensures
        final(edb).wf(),
        match estimate_owed(old(edb)@, boundary) {
            None => result is Ok && *final(edb) == *old(edb),
            Some(api_state) => written_or_full(
                old(edb),
                final(edb),
                seq![Note::Estimate { api_state, sum }],
                said(result),
            ),
        },
{
    match estimate_due(edb, boundary) {
        None => Ok(()),
        Some(api_state) => {
            let mut bodies: Vec<EventBody> = Vec::new();
            bodies.push(estimate_note(api_state, sum));
            assert(notes_of(bodies@) =~= seq![Note::Estimate { api_state, sum }]);
            append_all(edb, bodies)
        },
    }
}

/// Whether a part of an answer to the prompt is there.
pub open spec fn has_answer(events: Seq<Event>, prompt: EventId) -> bool {
    exists|i: int| 0 <= i < events.len() && says_to(#[trigger] events[i], prompt)
}

/// Whether the event is a part of an answer to the prompt.
pub open spec fn says_to(event: Event, prompt: EventId) -> bool {
    event.body matches EventBody::AssistResponse(response) && response.prompt_id == prompt
}

fn has_assist_response(edb: &EventDataBase, prompt_id: EventId) -> (found: bool)
    ensures
        found == has_answer(edb@, prompt_id),
{
    let mut place: usize = 0;
    while place < edb.events.len()
        invariant
            place <= edb@.len(),
            forall|i: int| 0 <= i < place ==> !says_to(#[trigger] edb@[i], prompt_id),
        decreases edb@.len() - place,
    {
        if let EventBody::AssistResponse(response) = &edb.events[place].body {
            if response.prompt_id == prompt_id {
                assert(says_to(edb@[place as int], prompt_id));
                return true;
            }
        }
        place += 1;
    }
    false
}

/// Whether the event is a prompt that nobody has begun to answer.
pub open spec fn unanswered(events: Seq<Event>, place: int) -> bool {
    events[place].root_prompt() && !has_answer(events, events[place].id)
}

/// The first prompt from a place on that nobody has begun to answer.
pub open spec fn next_unanswered(events: Seq<Event>, from: int) -> Option<int>
    decreases events.len() - from,
{
    if from >= events.len() {
        None
    } else if unanswered(events, from) {
        Some(from)
    } else {
        next_unanswered(events, from + 1)
    }
}

/// What an agent does next: answer a prompt, go on with a turn, or take what is asked.
#[derive(Clone, Copy, Debug, PartialEq, Eq, Structural)]
pub enum AdvanceStep {
    Answer(EventId),
    Resume(EventId),
    TakeInput,
}

/// The place from which an agent looks for prompts.
pub open spec fn cursor_in(cursor: usize, events: Seq<Event>) -> int {
    if cursor > events.len() {
        events.len() as int
    } else {
        cursor as int
    }
}

/// Finds what the agent does next, and keeps the place up to which it has looked. `latest` is the
/// latest turn, for an agent that goes on with turns.
pub fn next_advance(cursor: &mut usize, edb: &EventDataBase, latest: Option<LatestTurn>) -> (step:
    AdvanceStep)
    ensures
        match next_unanswered(edb@, cursor_in(*old(cursor), edb@)) {
            Some(place) => step == AdvanceStep::Answer(edb@[place].id) && *final(cursor) == place
                + 1,
            None => {
                &&& *final(cursor) == edb@.len()
                &&& step == (match latest {
                    Some(turn) => if turn.state == AgentTurnState::Started {
                        AdvanceStep::Resume(turn.prompt_id)
                    } else {
                        AdvanceStep::TakeInput
                    },
                    None => AdvanceStep::TakeInput,
                })
            },
        },
{
    let ghost begin = cursor_in(*cursor, edb@);
    let mut place: usize = *cursor;
    if place > edb.len() {
        place = edb.len();
    }
    while place < edb.events.len()
        invariant
            place <= edb@.len(),
            begin == cursor_in(*old(cursor), edb@),
            next_unanswered(edb@, place as int) == next_unanswered(edb@, begin),
        decreases edb@.len() - place,
    {
        let id = edb.events[place].id;
        if edb.events[place].is_root_prompt() && !has_assist_response(edb, id) {
            *cursor = place + 1;
            return AdvanceStep::Answer(id);
        }
        place += 1;
    }
    *cursor = place;
    match latest {
        Some(turn) => if turn.state == AgentTurnState::Started {
            AdvanceStep::Resume(turn.prompt_id)
        } else {
            AdvanceStep::TakeInput
        },
        None => AdvanceStep::TakeInput,
    }
}

/// Whether the last word on the prompt in the log is that it was not answered in the end.
pub open spec fn ended_badly(events: Seq<Event>, prompt: EventId) -> bool
    decreases events.len(),
{
    if events.len() == 0 {
        true
    } else {
        match events.last().body {
            EventBody::ApiStateUpdate(update) => if update.prompt_id == prompt {
                update.state == ApiState::Error || update.state == ApiState::Interrupted
            } else {
                ended_badly(events.drop_last(), prompt)
            },
            EventBody::UserTurnAborted(aborted) => if aborted.prompt_id == prompt {
                true
            } else {
                ended_badly(events.drop_last(), prompt)
            },
            _ => ended_badly(events.drop_last(), prompt),
        }
    }
}

/// What is said of a turn of a chat bot that was not answered in the end.
pub const CHAT_TURN_BROKEN: &'static str = "Agent turn did not complete normally";

/// How the turn of a chat bot ends, and what is said of it.
pub fn chat_turn_end(edb: &EventDataBase, prompt_id: EventId) -> (end: (
    AgentTurnState,
    &'static str,
))
    ensures
        if ended_badly(edb@, prompt_id) {
            end.0 == AgentTurnState::Interrupted && end.1@ == CHAT_TURN_BROKEN@
        } else {
            end.0 == AgentTurnState::Completed && end.1@ == ""@
        },
{
    let mut place: usize = edb.events.len();
    let mut interrupted = true;
    let mut found = false;
    assert(edb@.take(edb@.len() as int) =~= edb@);
    while place > 0 && !found
        invariant
            place <= edb@.len(),
            !found ==> ended_badly(edb@.take(place as int), prompt_id) == ended_badly(
                edb@,
                prompt_id,
            ),
            !found ==> interrupted,
            found ==> interrupted == ended_badly(edb@, prompt_id),
        decreases place,
    {
        assert(edb@.take(place as int).drop_last() =~= edb@.take(place - 1));
        place -= 1;
        match &edb.events[place].body {
            EventBody::ApiStateUpdate(update) => {
                if update.prompt_id == prompt_id {
                    found = true;
                    interrupted = update.state == ApiState::Error || update.state
                        == ApiState::Interrupted;
                }
            },
            EventBody::UserTurnAborted(aborted) => {
                if aborted.prompt_id == prompt_id {
                    found = true;
                }
            },
            _ => {},
        }
    }
    if interrupted {
        (AgentTurnState::Interrupted, CHAT_TURN_BROKEN)
    } else {
        (AgentTurnState::Completed, "")
    }
}

} // verus!
