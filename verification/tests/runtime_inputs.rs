#![allow(dead_code, unused_imports)]
use me::agent::{ensure_context_usage_estimate, AgentDefinition, Chatbot, MainAgent};
use me::api_calls::{append_api_state, reconcile_api_states};
use me::compact_run::{begin_compact, StagePlan};
use me::compacts::{append_compact_terminal, reconcile_compact_states};
use me::config::{ModelCapabilities, ModelConfig, ProviderType, UNSET_EFFORT};
use me::event::{
    AgentKind, AgentTurnState, ApiState, ApiStateUpdate, ApiUsage, AssistResponse, CompactKind,
    CompactStage, CompactState, CompactStateUpdate, Computed, EdbMutation, Event, EventBody,
    EventDataBase, EventId, FollowUpPrompt, ModelChangeCause, ReasoningEffortChangeCause,
    ToolCall, ToolCallResult, ToolResultState, ToolTraits, UserTurnAborted,
};
use me::inputs::reconcile_model_effort;
use me::json::{parse_json, write_json, Json};
use me::model_api::{ModelApi, ModelRuntime};
use me::support::HistoryFacts;
use me::tools::{append_tool_text, reconcile_tool_calls, PersistedResult};
use me::turns::{
    active_user_turn_id, append_agent_turn, current_user_turn_state, reconcile_agent_turns,
    LatestTurn, UserTurnState,
};
use me::agent::{chat_turn_end, create, next_advance, AdvanceStep, AnyAgent};
use me::agent_loop::{
    missing_call_message, AgentLoop, CompactOutcome, InputsOutcome, LoopAction, LoopEvent,
    ModelRequestOutcome, TurnEnd,
};
use me::compact_run::{
    compact_active_sessions, end_stage, finish_compact, next_step, stage_context,
    summary_sections, tells_of_sessions, CompactStep, StageOutcome,
};
use me::input_queue::{ApiActivity, OrchestratorInput, OrchestratorInputQueue};
use me::inputs::{
    append_effort_change, append_model_change, append_next_input, apply_model_selection,
    apply_running_inputs, begin_turn_abort_if_requested, latest_effort, latest_model, AgentDesk,
    InputStep, RunningEnd,
};
use me::limits::{desired_soft_limit, prepare_warning, soft_limit_change};
use me::model::ModelContext;
use me::observer::{LiveTerminal, OpenPage, ToolboxObserver};
use me::prompts::ProcessEnvironmentSnapshot;
use me::request::append_api_terminal_with_context_usage;
use me::runtime::{
    deletion_reply, record_failed_turn, submit_context_clear, submit_context_rewind,
    submit_effort_change, submit_model_change, submit_turn_abort, turn_to_abort, AgentRuntime,
    InputDraft, RuntimeEdbSnapshot,
};
use me::tools::{interrupt_tool_batch, ToolExecutionOutcome};
use me::validate::validate_context_usage_estimates;

fn machine() -> ProcessEnvironmentSnapshot {
    ProcessEnvironmentSnapshot {
        os: "Test OS".into(),
        architecture: "test64".into(),
        shell: "sh".into(),
        timezone: "UTC+00:00".into(),
        locale: "C".into(),
        proxy: "none".into(),
        routes: "IPv4 unavailable".into(),
    }
}

fn new_main(effort: Option<String>) -> MainAgent {
    MainAgent::new(effort, &machine(), ".me/tmp")
}

fn called(name: &str, effort: Option<String>) -> Result<AnyAgent, String> {
    create(name, effort, &machine(), ".me/tmp")
}

struct Log {
    edb: EventDataBase,
}

impl Log {
    fn new() -> Log {
        Log { edb: EventDataBase::new() }
    }

    fn len(&self) -> usize {
        self.edb.events.len()
    }

    fn last(&self) -> &EventBody {
        &self.edb.events.last().unwrap().body
    }

    fn body(&self, id: EventId) -> Option<&EventBody> {
        self.edb.get(id).map(|event| &event.body)
    }

    fn effective(&self) -> Vec<Event> {
        let start = self
            .edb
            .events
            .iter()
            .rposition(|event| match &event.body {
                EventBody::ContextCleared => true,
                EventBody::CompactStateUpdate(update) => update.state == CompactState::Completed,
                _ => false,
            })
            .unwrap_or(0);
        let failed: Vec<EventId> = self
            .edb
            .events
            .iter()
            .filter_map(|event| match &event.body {
                EventBody::ApiStateUpdate(update) if update.state == ApiState::Error => {
                    Some(update.api_call_id)
                }
                _ => None,
            })
            .collect();
        let mut request = None;
        let mut kept = Vec::new();
        for event in &self.edb.events[start..] {
            if let EventBody::ApiStateUpdate(update) = &event.body {
                if update.state == ApiState::Requesting {
                    request = Some(update.api_call_id);
                }
            }
            let set_up = matches!(
                event.body,
                EventBody::AgentKindDef(_)
                    | EventBody::SystemPrompt(_)
                    | EventBody::ModelChanged(_)
                    | EventBody::ReasoningEffortChanged(_)
            );
            let rolled_back = matches!(event.body, EventBody::AssistResponse(_))
                && request.is_some_and(|id| failed.contains(&id));
            if !set_up && !rolled_back {
                kept.push(event.copy());
            }
        }
        kept
    }

    fn latest_turn(&self) -> Option<LatestTurn> {
        self.edb.events.iter().rev().find_map(|event| match &event.body {
            EventBody::AgentTurn(step) => Some(LatestTurn {
                turn_id: step.turn_id,
                prompt_id: step.prompt_id,
                state: step.state,
            }),
            _ => None,
        })
    }

    fn user_prompt(&mut self, content: &str) -> EventId {
        self.edb.append(EventBody::UserPrompt(content.into()))
    }

    fn turn(&mut self, prompt: EventId, state: AgentTurnState) -> EventId {
        append_agent_turn(&mut self.edb, prompt, prompt, state, "")
    }

    fn requesting(&mut self, prompt: EventId) -> EventId {
        let id = self.edb.next_id;
        append_api_state(&mut self.edb, id, prompt, ApiState::Requesting, "")
    }

    fn state(&mut self, call: EventId, prompt: EventId, state: ApiState) -> EventId {
        append_api_state(&mut self.edb, call, prompt, state, "")
    }

    fn says(&mut self, prompt: EventId, content: &str, finished: bool) -> EventId {
        self.edb.append(EventBody::AssistResponse(AssistResponse {
            prompt_id: prompt,
            content: content.into(),
            finished,
        }))
    }

    fn call(
        &mut self,
        api: EventId,
        prompt: EventId,
        provider: &str,
        name: &str,
        arguments: &str,
    ) -> EventId {
        self.edb.append(EventBody::ToolCall(ToolCall {
            api_call_id: api,
            prompt_id: prompt,
            provider_call_id: provider.into(),
            name: name.into(),
            arguments: arguments.into(),
            traits: traits_of(name),
        }))
    }

    fn result(&mut self, call: EventId, state: ToolResultState, detail: &str) -> EventId {
        self.edb.append(EventBody::ToolCallResult(ToolCallResult {
            tool_call_id: call,
            state,
            exit_code: None,
            detail: detail.into(),
        }))
    }

    fn follow_up(&mut self, prompt: EventId, content: &str) -> EventId {
        self.edb.append(EventBody::FollowUpPrompt(FollowUpPrompt {
            prompt_id: prompt,
            content: content.into(),
        }))
    }

    fn abort(&mut self, prompt: EventId) -> EventId {
        let active = active_user_turn_id(&self.effective());
        self.edb.append(EventBody::UserTurnAborted(UserTurnAborted {
            prompt_id: prompt,
            active_before: Computed::Value(active),
        }))
    }

    fn compact_started(
        &mut self,
        tool_call: EventId,
        prompt: EventId,
        kind: CompactKind,
    ) -> EventId {
        let plan = match kind {
            CompactKind::WorkerSingleTurn => vec![StagePlan { stage: None, prompt: None }],
            _ => [
                CompactStage::Analysis,
                CompactStage::PrimaryRequest,
                CompactStage::TechnicalContext,
                CompactStage::FilesAndArtifacts,
                CompactStage::Problems,
                CompactStage::CurrentState,
            ]
            .into_iter()
            .map(|stage| StagePlan { stage: Some(stage), prompt: Some("go".into()) })
            .collect(),
        };
        begin_compact(&mut self.edb, tool_call, prompt, kind, plan, true).unwrap().compact_id
    }

    fn completed_response(&mut self, prompt: EventId, content: &str) {
        let api = self.requesting(prompt);
        self.state(api, prompt, ApiState::Streaming);
        self.says(prompt, content, true);
        self.state(api, prompt, ApiState::Completed);
    }

    fn supported_by(&self, agent: &MainAgent) -> Result<(), String> {
        agent.supports_edb(&self.edb, &HistoryFacts { branches: None, turns: None, work: None })
    }

    fn supported_by_chat(&self) -> Result<(), String> {
        Chatbot::new(None)
            .supports_edb(&self.edb, &HistoryFacts { branches: None, turns: None, work: None })
    }
}

fn traits_of(name: &str) -> ToolTraits {
    ToolTraits {
        workmap: name.starts_with("WorkMap."),
        stores_image: name == "Image.View",
        requires_image: name == "Image.View",
    }
}

fn model_config(name: &str, efforts: &[&str]) -> ModelConfig {
    ModelConfig {
        name: name.into(),
        provider: ProviderType::OpenaiCompatible,
        reserve_output_context: true,
        base_url: "https://example.invalid/v1".into(),
        endpoint: "/chat/completions".into(),
        api_key: Some("unused".into()),
        api_key_env: None,
        credential_file: None,
        model: "unused".into(),
        source_url: None,
        timeout_seconds: 1,
        capabilities: ModelCapabilities {
            context_window: 128_000,
            max_output_tokens: None,
            reasoning_efforts: efforts.iter().map(|effort| (*effort).to_owned()).collect(),
            input_modalities: vec!["text".into()],
        },
        parameters: Json::object(),
        effort_parameters: Json::object(),
    }
}

fn unused_models() -> ModelRuntime {
    ModelRuntime::single(
        ModelApi::new(model_config("test", &["unset", "low", "high"])).unwrap(),
    )
}

fn initialized(agent: &MainAgent) -> Log {
    let mut log = Log::new();
    agent.initialize(&mut log.edb, &unused_models()).unwrap();
    log
}

fn chat_log(effort: &str) -> Log {
    let mut log = Log::new();
    Chatbot::new(Some(effort.into())).initialize(&mut log.edb, &unused_models()).unwrap();
    log
}

fn restore(agent: &mut MainAgent, log: &Log) {
    agent.restore(&log.edb, &mut unused_models()).unwrap();
}

fn reconcile_with(
    agent: &mut MainAgent,
    log: &mut Log,
    models: &mut ModelRuntime,
    results: &Vec<PersistedResult>,
) {
    if log.edb.is_empty() {
        agent.initialize(&mut log.edb, models).unwrap();
    }
    reconcile_model_effort(&mut agent.effort, &mut log.edb, models).unwrap();
    reconcile_api_states(&mut log.edb).unwrap();
    reconcile_tool_calls(&mut log.edb, results).unwrap();
    reconcile_compact_states(&mut log.edb).unwrap();
    let (latest, effective) = (log.latest_turn(), log.effective());
    reconcile_agent_turns(&mut log.edb, latest, &effective);
    let boundary = log.edb.events.iter().rev().find_map(|event| match &event.body {
        EventBody::ApiStateUpdate(update) => update.usage.map(|usage| (event.id, usage)),
        _ => None,
    });
    ensure_context_usage_estimate(
        &mut log.edb,
        boundary.map(|(id, _)| id),
        boundary.map_or(0, |(_, usage)| usage.total_tokens),
    )
    .unwrap();
}

fn reconcile(agent: &mut MainAgent, log: &mut Log) {
    reconcile_with(agent, log, &mut unused_models(), &Vec::new());
}

fn pending_tool(name: &str, arguments: &str) -> Log {
    let mut log = initialized(&new_main(None));
    let prompt = log.user_prompt("run it");
    let api = log.requesting(prompt);
    log.state(api, prompt, ApiState::Streaming);
    log.says(prompt, "", true);
    let call = log.call(api, prompt, "call-1", name, arguments);
    log.state(api, prompt, ApiState::Completed);
    assert_eq!(call, 10);
    log
}

fn multi_tool_batch() -> Log {
    let mut log = initialized(&new_main(None));
    let prompt = log.user_prompt("run both");
    let api = log.requesting(prompt);
    log.state(api, prompt, ApiState::Streaming);
    log.says(prompt, "", true);
    assert_eq!(log.call(api, prompt, "call-1", "Terminal.List", "{}"), 10);
    assert_eq!(log.call(api, prompt, "call-2", "Terminal.Status", "{}"), 11);
    log.state(api, prompt, ApiState::Completed);
    log
}

fn tool_history(finished: bool) -> Log {
    let mut log = pending_tool("Terminal.List", "{}");
    append_tool_text(&mut log.edb, 10, "Terminal.List", "stdout", "ok").unwrap();
    if finished {
        log.result(10, ToolResultState::Succeeded, r#"{"sessions":[]}"#);
    }
    log
}

fn desk(log: Log, effort: Option<&str>, models: ModelRuntime) -> AgentDesk {
    AgentDesk { edb: log.edb, effort: effort.map(str::to_owned), models }
}

fn take_next(queue: &mut OrchestratorInputQueue, desk: &mut AgentDesk) -> InputStep {
    append_next_input(queue, desk, false, Computed::Value(false)).unwrap()
}

fn took_one(step: InputStep) -> bool {
    matches!(step, InputStep::Taken { .. })
}

fn snapshot(edb: &EventDataBase) -> RuntimeEdbSnapshot {
    RuntimeEdbSnapshot::from_edb(edb, 0)
}

#[test]
fn submitted_user_prompt_waits_for_the_idle_safe_point() {
    let mut chatbot = Chatbot::new(None);
    let mut runtime = AgentRuntime::new(snapshot(&EventDataBase::new()), chatbot.name());
    let mut desk = desk(Log::new(), None, unused_models());

    runtime.submit_user_prompt(&mut chatbot.input_queue, "hello".into(), true).unwrap();
    assert!(desk.edb.is_empty());
    assert!(took_one(take_next(&mut chatbot.input_queue, &mut desk)));

    assert_eq!(desk.edb.events.len(), 2);
    assert!(matches!(
        &desk.edb.get(0).unwrap().body,
        EventBody::UserPrompt(content) if content == "hello"
    ));
}

#[test]
fn runtime_input_draft_is_in_memory_shared_and_cleared_by_submission() {
    let mut queue = OrchestratorInputQueue::default();
    let edb = EventDataBase::new();
    let mut runtime = AgentRuntime::new(snapshot(&edb), "chatbot");

    assert_eq!(runtime.input_draft(), InputDraft::default());
    let (revision, accepted) = runtime.update_input_draft(0, "unfinished\ntext".into()).unwrap();
    assert!(accepted);
    assert_eq!(revision, 1);
    assert_eq!(runtime.input_draft().content, "unfinished\ntext");
    let (revision, accepted) = runtime.update_input_draft(1, "unfinished\ntext".into()).unwrap();
    assert!(accepted);
    assert_eq!(revision, 1);
    assert_eq!(runtime.submit_user_prompt(&mut queue, "sent".into(), true).unwrap(), 1);
    let cleared = runtime.input_draft();
    assert_eq!(cleared.content, "");
    assert_eq!(cleared.revision, 2);

    let reopened = AgentRuntime::new(snapshot(&edb), "chatbot");
    assert_eq!(reopened.input_draft(), InputDraft::default());
}

#[test]
fn runtime_poll_observes_idle_control_events_without_exposing_writable_edb() {
    let mut queue = OrchestratorInputQueue::default();
    let mut desk = desk(Log::new(), Some("low"), unused_models());
    let mut runtime = AgentRuntime::new(snapshot(&desk.edb), "chatbot");
    submit_effort_change(&mut queue, "high".into(), true).unwrap();
    assert!(took_one(take_next(&mut queue, &mut desk)));
    let shown = snapshot(&desk.edb);
    assert!(runtime.poll_edb(Vec::new(), false, shown).unwrap());
    assert_eq!(runtime.edb_events().len(), 1);
    assert!(matches!(
        &runtime.edb_events()[0].body,
        EventBody::ReasoningEffortChanged(event) if event.effort == "high"
    ));

    submit_context_clear(&mut queue, true).unwrap();
    assert!(took_one(take_next(&mut queue, &mut desk)));
    let shown = snapshot(&desk.edb);
    assert!(runtime.poll_edb(Vec::new(), false, shown).unwrap());
    assert_eq!(runtime.edb_events().len(), 2);
    assert!(matches!(
        runtime.edb_events().last().unwrap().body,
        EventBody::ContextCleared
    ));
    let shown = snapshot(&desk.edb);
    assert!(!runtime.poll_edb(Vec::new(), false, shown).unwrap());
}

#[test]
fn running_clear_stops_draining_the_control_queue() {
    let mut agent = new_main(None);
    let mut log = initialized(&agent);
    let prompt = log.user_prompt("start");
    submit_context_clear(&mut agent.input_queue, true).unwrap();
    agent.input_queue.push(OrchestratorInput::UserPrompt("later".into()));
    let effective = log.effective();
    let mut desk = desk(log, None, unused_models());

    assert!(matches!(
        apply_running_inputs(&mut agent.input_queue, prompt, &mut desk, &effective).unwrap(),
        RunningEnd::Stopped { .. }
    ));
    assert!(matches!(desk.edb.events.last().unwrap().body, EventBody::ContextCleared));
    assert!(took_one(take_next(&mut agent.input_queue, &mut desk)));
    assert!(matches!(
        desk.edb.events.iter().rev().find_map(|event| match &event.body {
            EventBody::UserPrompt(content) => Some(content.as_str()),
            _ => None,
        }),
        Some("later")
    ));
}

#[test]
fn idle_rewind_accepts_a_context_clear_as_its_target() {
    let mut agent = new_main(Some("low".into()));
    let mut log = initialized(&agent);
    let old = log.user_prompt("old");
    log.says(old, "old answer", true);
    let clear = log.edb.append(EventBody::ContextCleared);
    let later = log.user_prompt("later");
    submit_context_rewind(&mut agent.input_queue, clear, true).unwrap();
    let mut desk = desk(log, Some("low"), unused_models());

    assert!(took_one(take_next(&mut agent.input_queue, &mut desk)));
    assert!(desk.edb.get(old).is_some());
    assert!(desk.edb.get(clear).is_none());
    assert!(desk.edb.get(later).is_none());
    assert_eq!(desk.edb.mutation_revision, 1);
    assert_eq!(desk.effort.as_deref(), Some("low"));
}

#[test]
fn abort_loses_final_answer_race_without_writing_events() {
    let mut agent = Chatbot::new(None);
    let mut log = chat_log("unset");
    let prompt = log.user_prompt("already done");
    log.completed_response(prompt, "done");
    let before = log.len();
    agent.input_queue.push(OrchestratorInput::AbortTurn(prompt));
    agent.input_queue.request_abort(prompt);
    let mut desk = desk(log, Some(UNSET_EFFORT), unused_models());

    assert!(took_one(take_next(&mut agent.input_queue, &mut desk)));
    assert_eq!(desk.edb.events.len(), before);
    assert!(desk
        .edb
        .events
        .iter()
        .all(|event| !matches!(event.body, EventBody::UserTurnAborted(_))));
}

fn model_set(names: &[(&str, &[&str])], unsupported: bool) -> Vec<ModelConfig> {
    let mut models: Vec<ModelConfig> =
        names.iter().map(|(name, efforts)| model_config(name, efforts)).collect();
    if unsupported {
        let mut config = model_config("unsupported", &["unset", "low"]);
        config.provider = ProviderType::Anthropic;
        models.push(config);
    }
    models
}

#[test]
fn model_change_is_event_driven_and_falls_back_to_unset_when_needed() {
    let names: [(&str, &[&str]); 3] = [
        ("first", &["unset", "low", "high"]),
        ("second", &["unset", "max"]),
        ("third", &["unset", "low"]),
    ];
    let models = ModelRuntime::new(model_set(&names, true), "first").unwrap();
    let mut agent = new_main(Some("low".into()));
    let mut log = Log::new();
    agent.initialize(&mut log.edb, &models).unwrap();
    let mut desk = desk(log, Some("low"), models);

    apply_model_selection(&mut desk.edb, &mut desk.models, "third", None).unwrap();
    assert_eq!(desk.models.active_model().name, "third");
    assert_eq!(latest_effort(&desk.edb), Some("low"));
    assert_eq!(desk.edb.events.len(), 7);
    assert!(matches!(
        &desk.edb.get(6).unwrap().body,
        EventBody::ModelChanged(event) if event.model == "third"
    ));

    submit_model_change(&mut agent.input_queue, "second".into(), true).unwrap();
    assert!(took_one(take_next(&mut agent.input_queue, &mut desk)));
    assert_eq!(desk.models.active_model().name, "second");
    assert_eq!(desk.effort.as_deref(), Some(UNSET_EFFORT));
    assert!(matches!(
        &desk.edb.get(7).unwrap().body,
        EventBody::ModelChanged(event)
            if event.model == "second" && event.cause == ModelChangeCause::User
    ));
    assert!(matches!(
        &desk.edb.get(8).unwrap().body,
        EventBody::ReasoningEffortChanged(event)
            if event.effort == UNSET_EFFORT
                && event.cause == ReasoningEffortChangeCause::ModelUnsupported
    ));

    apply_model_selection(&mut desk.edb, &mut desk.models, "third", Some("low")).unwrap();
    assert_eq!(desk.models.active_model().name, "third");
    assert_eq!(latest_effort(&desk.edb), Some("low"));
    assert!(matches!(
        &desk.edb.events.last().unwrap().body,
        EventBody::ReasoningEffortChanged(event)
            if event.effort == "low" && event.cause == ReasoningEffortChangeCause::User
    ));

    let before = desk.edb.events.len();
    assert!(apply_model_selection(&mut desk.edb, &mut desk.models, "missing", None).is_err());
    assert_eq!(desk.edb.events.len(), before);
    assert!(apply_model_selection(&mut desk.edb, &mut desk.models, "unsupported", None).is_err());
    assert_eq!(desk.edb.events.len(), before);
    assert_eq!(desk.models.active_model().name, "third");

    let mut restarted_models = ModelRuntime::new(model_set(&names, true), "first").unwrap();
    let mut restarted = new_main(None);
    restarted.restore(&desk.edb, &mut restarted_models).unwrap();
    assert_eq!(restarted_models.active_model().name, "third");
    assert_eq!(restarted.effort.as_deref(), Some("low"));
}

#[test]
fn runtime_model_submission_publishes_model_and_fallback_events() {
    let names: [(&str, &[&str]); 2] = [("first", &["unset", "low"]), ("second", &["unset", "high"])];
    let mut models = ModelRuntime::new(model_set(&names, false), "first").unwrap();
    let mut log = Log::new();
    log.edb.append(EventBody::AgentKindDef(me::event::AgentKindDef {
        kind: AgentKind::Interactive,
        orchestrator: "chatbot".into(),
        parent_agent_id: None,
        system_prompt: None,
    }));
    append_model_change(&mut log.edb, "first", ModelChangeCause::Initial);
    append_effort_change(&mut log.edb, "low", ReasoningEffortChangeCause::Initial);
    let mut chatbot = Chatbot::new(Some("low".into()));
    chatbot.restore(&log.edb, &mut models).unwrap();
    let mut runtime = AgentRuntime::new(snapshot(&log.edb), chatbot.name());
    let mut desk = desk(log, chatbot.effort.as_deref(), models);

    submit_model_change(&mut chatbot.input_queue, "second".into(), true).unwrap();
    assert!(took_one(take_next(&mut chatbot.input_queue, &mut desk)));
    let shown = snapshot(&desk.edb);
    assert!(runtime.poll_edb(Vec::new(), false, shown).unwrap());
    assert_eq!(runtime.edb_events().len(), 5);
    assert!(matches!(
        &runtime.edb_events()[3].body,
        EventBody::ModelChanged(event) if event.model == "second"
    ));
    assert!(matches!(
        &runtime.edb_events()[4].body,
        EventBody::ReasoningEffortChanged(event)
            if event.effort == UNSET_EFFORT
                && event.cause == ReasoningEffortChangeCause::ModelUnsupported
    ));
}

#[test]
fn abort_closes_every_not_started_call_without_entering_another_tool() {
    let mut log = multi_tool_batch();
    let mut agent = new_main(None);
    agent.input_queue.push(OrchestratorInput::AbortTurn(6));
    agent.input_queue.request_abort(6);

    interrupt_tool_batch(&vec![10, 11], 0, &mut log.edb).unwrap();
    let effective = log.effective();
    assert!(begin_turn_abort_if_requested(&mut agent.input_queue, 6, &mut log.edb, &effective));

    assert!(matches!(
        log.body(13),
        Some(EventBody::ToolCallResult(result))
            if result.tool_call_id == 10 && result.state == ToolResultState::Interrupted
    ));
    assert!(matches!(
        log.body(14),
        Some(EventBody::ToolCallResult(result))
            if result.tool_call_id == 11 && result.state == ToolResultState::Interrupted
    ));
    assert!(matches!(
        log.body(15),
        Some(EventBody::UserTurnAborted(aborted)) if aborted.prompt_id == 6
    ));
    assert!(log.supported_by(&agent).is_ok());
}

#[test]
fn terminal_api_usage_appends_one_normalized_context_estimate() {
    let mut log = Log::new();
    let prompt = log.user_prompt("hello");
    let api = log.requesting(prompt);
    let usage = ApiUsage { input_tokens: 9_000, output_tokens: 1_000, total_tokens: 10_000 };
    let completed = append_api_terminal_with_context_usage(
        &mut log.edb,
        api,
        prompt,
        ApiState::Completed,
        Some(usage),
        "",
        10_000,
    )
    .unwrap();

    assert!(matches!(
        log.last(),
        EventBody::ContextUsageEstimate(estimate)
            if estimate.api_state_event_id == completed && estimate.sum == usage.total_tokens
    ));
    assert!(validate_context_usage_estimates(&log.edb).is_ok());
}

#[test]
fn nofile_target_respects_existing_soft_and_hard_limits() {
    assert_eq!(desired_soft_limit(256, libc::RLIM_INFINITY), 65_536);
    assert_eq!(desired_soft_limit(256, 4096), 4096);
    assert_eq!(desired_soft_limit(131_072, libc::RLIM_INFINITY), 131_072);
    assert_eq!(
        desired_soft_limit(libc::RLIM_INFINITY, libc::RLIM_INFINITY),
        libc::RLIM_INFINITY
    );
}

#[test]
fn a_low_limit_is_told_of() {
    assert_eq!(soft_limit_change(65_536, 65_536), None);
    assert_eq!(soft_limit_change(256, 4096), Some(4096));
    assert_eq!(prepare_warning(Ok(65_536)), None);
    assert_eq!(
        prepare_warning(Ok(4096)).as_deref(),
        Some("warning: file descriptor soft limit is 4096; requested 65536, limited by the hard limit")
    );
    assert_eq!(
        prepare_warning(Err("denied".into())).as_deref(),
        Some("warning: unable to raise file descriptor soft limit to 65536: denied")
    );
}

#[test]
fn drafts_keep_the_newest_writer() {
    let mut runtime = AgentRuntime::new(snapshot(&EventDataBase::new()), "chatbot");
    assert_eq!(runtime.update_input_draft(0, "one".into()).unwrap(), (1, true));
    assert_eq!(runtime.update_input_draft(0, "late".into()).unwrap(), (1, false));
    assert_eq!(runtime.input_draft().content, "one");
    let mut draft = InputDraft { content: "x".into(), revision: u64::MAX };
    assert!(draft.replace("y".into()).is_err());
}

#[test]
fn deletion_waits_for_what_is_under_way() {
    let mut queue = OrchestratorInputQueue::default();
    let edb = EventDataBase::new();
    let mut runtime = AgentRuntime::new(snapshot(&edb), "chatbot");
    assert_eq!(runtime.deletion_blocker(&queue, None).unwrap(), None);
    assert!(!runtime.is_active(&queue, None).unwrap());

    runtime.advancing = true;
    assert_eq!(
        runtime.deletion_blocker(&queue, None).unwrap().as_deref(),
        Some("Agent loop 正在运行")
    );
    assert!(runtime.request_edb_deletion(false, &queue, None).is_err());
    assert!(!runtime.deleting);
    assert!(runtime.request_edb_deletion(true, &queue, None).is_ok());
    assert!(runtime.deleting);
    runtime.cancel_edb_deletion();
    assert!(!runtime.deleting);

    runtime.advancing = false;
    queue.push(OrchestratorInput::UserPrompt("wait".into()));
    assert!(runtime.is_active(&queue, None).unwrap());
    queue.clear();
    let observer = ToolboxObserver {
        terminals: Computed::Value(vec![LiveTerminal {
            session_id: "pty-7".into(),
            width: 120,
            height: 40,
        }]),
        pages: Computed::Value(Vec::new()),
    };
    assert_eq!(runtime.active_terminal_count(Some(&observer)).unwrap(), 1);
    assert!(runtime.deletion_blocker(&queue, Some(&observer)).unwrap().is_some());
}

#[test]
fn a_worker_that_is_gone_is_told_of() {
    let edb = EventDataBase::new();
    let mut runtime = AgentRuntime::new(snapshot(&edb), "chatbot");
    assert_eq!(
        runtime.poll_edb(Vec::new(), true, snapshot(&edb)).unwrap_err(),
        "Orchestrator worker stopped"
    );
    assert!(!runtime.poll_edb(vec!["first".into(), "last".into()], false, snapshot(&edb)).unwrap());
    assert_eq!(runtime.poll_edb(Vec::new(), false, snapshot(&edb)).unwrap_err(), "last");
    assert!(!runtime.poll_edb(Vec::new(), false, snapshot(&edb)).unwrap());
    let mut queue = OrchestratorInputQueue::default();
    assert!(submit_effort_change(&mut queue, "low".into(), false).is_err());
}

#[test]
fn deleting_answers_what_came_of_it() {
    assert_eq!(
        deletion_reply(None, None, None).unwrap_err(),
        "in-memory EDB cannot be permanently deleted"
    );
    assert!(deletion_reply(Some("/a.edb"), None, None).is_ok());
    assert!(deletion_reply(Some("/a.edb"), Some("busy".into()), None).is_err());
    assert!(deletion_reply(Some("/a.edb"), Some("busy".into()), Some("gone".into())).is_err());
}

#[test]
fn failures_end_the_turn_that_ran() {
    let mut log = initialized(&new_main(None));
    let prompt = log.user_prompt("work");
    let turn = log.turn(prompt, AgentTurnState::Started);
    let latest = log.latest_turn();
    assert_eq!(turn_to_abort(latest), Some(prompt));
    record_failed_turn(&mut log.edb, latest, "broken").unwrap();
    assert!(matches!(
        log.last(),
        EventBody::AgentTurn(step)
            if step.turn_id == turn - 1 && step.state == AgentTurnState::Failed && step.detail == "broken"
    ));
    let latest = log.latest_turn();
    assert_eq!(turn_to_abort(latest), None);
    let before = log.len();
    record_failed_turn(&mut log.edb, latest, "again").unwrap();
    assert_eq!(log.len(), before);
}

#[test]
fn users_stop_the_turn_that_runs() {
    let mut queue = OrchestratorInputQueue::default();
    let mut log = initialized(&new_main(None));
    assert!(!submit_turn_abort(&mut queue, &log.effective(), true).unwrap());
    let prompt = log.user_prompt("work");
    assert!(submit_turn_abort(&mut queue, &log.effective(), true).unwrap());
    assert!(queue.abort_requested(prompt));
    assert!(queue.consume_abort_signal(prompt));
    assert!(!queue.abort_requested(prompt));
}

#[test]
fn events_of_a_stream_are_counted_while_it_runs() {
    let mut activity = ApiActivity::default();
    activity.begin();
    activity.received_sse();
    activity.received_sse();
    assert_eq!(activity.snapshot().received_sse_events, 2);
    assert!(activity.snapshot().active);
    activity.finish();
    assert!(!activity.snapshot().active);
}

#[test]
fn a_turn_runs_its_calls_in_order_and_then_answers() {
    let log = multi_tool_batch();
    let queue = OrchestratorInputQueue::default();
    let mut turn = AgentLoop::new(6);
    assert_eq!(
        turn.step(LoopEvent::Inputs(InputsOutcome::Done), &queue, &log.edb),
        LoopAction::RequestModel
    );
    let answered = LoopEvent::Answered {
        outcome: ModelRequestOutcome::Completed(vec![10, 11]),
        advised: true,
    };
    assert_eq!(turn.step(answered, &queue, &log.edb), LoopAction::RunTool(10));
    let done = || LoopEvent::ToolDone(ToolExecutionOutcome::Completed);
    assert_eq!(turn.step(done(), &queue, &log.edb), LoopAction::RunTool(11));
    assert_eq!(turn.step(done(), &queue, &log.edb), LoopAction::TakeInputs);
    assert!(turn.compact_warning_latched);
    turn.step(LoopEvent::Inputs(InputsOutcome::Done), &queue, &log.edb);
    let answered = LoopEvent::Answered {
        outcome: ModelRequestOutcome::Completed(Vec::new()),
        advised: false,
    };
    assert_eq!(
        turn.step(answered, &queue, &log.edb),
        LoopAction::Close(TurnEnd::Answered)
    );
    assert_eq!(TurnEnd::Answered.state(), AgentTurnState::Completed);
    assert_eq!(
        turn.step(LoopEvent::Inputs(InputsOutcome::Done), &queue, &log.edb),
        LoopAction::Nothing
    );
}

#[test]
fn a_turn_yields_to_the_user_and_gives_up_when_asked() {
    let log = multi_tool_batch();
    let mut queue = OrchestratorInputQueue::default();
    let begin = |queue: &OrchestratorInputQueue| {
        let mut turn = AgentLoop::new(6);
        turn.step(LoopEvent::Inputs(InputsOutcome::Done), queue, &log.edb);
        turn.step(
            LoopEvent::Answered {
                outcome: ModelRequestOutcome::Completed(vec![10, 11]),
                advised: false,
            },
            queue,
            &log.edb,
        );
        turn
    };
    let mut turn = begin(&queue);
    assert_eq!(
        turn.step(
            LoopEvent::ToolDone(ToolExecutionOutcome::YieldForFollowUp),
            &queue,
            &log.edb
        ),
        LoopAction::Yield { from: 1 }
    );
    assert_eq!(
        turn.step(LoopEvent::Inputs(InputsOutcome::Stopped), &queue, &log.edb),
        LoopAction::Close(TurnEnd::ContextControl)
    );

    let mut turn = begin(&queue);
    queue.request_abort(6);
    assert_eq!(
        turn.step(LoopEvent::ToolDone(ToolExecutionOutcome::Completed), &queue, &log.edb),
        LoopAction::Abandon { from: 1 }
    );

    let mut turn = AgentLoop::new(6);
    turn.step(LoopEvent::Inputs(InputsOutcome::Done), &OrchestratorInputQueue::default(), &log.edb);
    let broken = LoopEvent::Answered {
        outcome: ModelRequestOutcome::Completed(vec![99]),
        advised: false,
    };
    assert_eq!(
        turn.step(broken, &OrchestratorInputQueue::default(), &log.edb),
        LoopAction::MissingCall(99)
    );
    assert!(missing_call_message(99).contains("99"));
}

#[test]
fn a_compaction_that_was_called_follows_its_result() {
    let mut log = pending_tool("Compact", "{}");
    let queue = OrchestratorInputQueue::default();
    let mut turn = AgentLoop::new(6);
    turn.step(LoopEvent::Inputs(InputsOutcome::Done), &queue, &log.edb);
    let answered = LoopEvent::Answered {
        outcome: ModelRequestOutcome::Completed(vec![10]),
        advised: true,
    };
    assert_eq!(turn.step(answered, &queue, &log.edb), LoopAction::RunTool(10));
    log.result(10, ToolResultState::Succeeded, "{}");
    assert_eq!(
        turn.step(LoopEvent::ToolDone(ToolExecutionOutcome::Completed), &queue, &log.edb),
        LoopAction::Compact(10)
    );
    assert_eq!(
        turn.step(LoopEvent::Compacted(CompactOutcome::Completed), &queue, &log.edb),
        LoopAction::TakeInputs
    );
    assert!(!turn.compact_warning_latched);
}

#[test]
fn stages_follow_one_another_to_a_summary() {
    let mut log = initialized(&new_main(None));
    let prompt = log.user_prompt("compact");
    let plan = vec![
        StagePlan { stage: Some(CompactStage::Analysis), prompt: Some("think".into()) },
        StagePlan { stage: Some(CompactStage::PrimaryRequest), prompt: Some("ask".into()) },
    ];
    let mut run =
        begin_compact(&mut log.edb, 9, prompt, CompactKind::MainAgentMultiTurn, plan, true)
            .unwrap();
    assert_eq!(next_step(&run), CompactStep::NextStage);
    assert_eq!(
        end_stage(&mut run, &mut log.edb, StageOutcome::Completed("thought".into())).unwrap(),
        CompactStep::NextStage
    );
    let context = stage_context(ModelContext::user("so far"), &run).unwrap();
    assert!(context.tools.is_empty());
    assert!(write_json(context.messages.last().unwrap()).contains("ask"));
    assert_eq!(
        end_stage(&mut run, &mut log.edb, StageOutcome::Completed("asked".into())).unwrap(),
        CompactStep::Merge
    );
    assert_eq!(summary_sections(&run), vec!["asked".to_owned()]);
    finish_compact(&run, &mut log.edb, "Summary").unwrap();
    assert!(matches!(
        log.last(),
        EventBody::CompactStateUpdate(update)
            if update.state == CompactState::Completed && update.content == "Summary"
    ));
}

#[test]
fn stages_that_fail_or_stop_end_the_compaction() {
    for (outcome, state, step) in [
        (StageOutcome::Failed("no".into()), CompactState::Failed, CompactStep::Failed),
        (StageOutcome::Aborted, CompactState::Interrupted, CompactStep::Aborted),
    ] {
        let mut log = initialized(&new_main(None));
        let prompt = log.user_prompt("compact");
        let plan = vec![StagePlan { stage: None, prompt: Some("all".into()) }];
        let mut run =
            begin_compact(&mut log.edb, 9, prompt, CompactKind::WorkerSingleTurn, plan, true)
                .unwrap();
        assert_eq!(end_stage(&mut run, &mut log.edb, outcome).unwrap(), step);
        assert!(matches!(
            log.last(),
            EventBody::CompactStateUpdate(update) if update.state == state
        ));
    }
}

#[test]
fn compactions_hear_of_what_runs() {
    let observer = ToolboxObserver {
        terminals: Computed::Value(vec![LiveTerminal {
            session_id: "pty-live-7".into(),
            width: 120,
            height: 40,
        }]),
        pages: Computed::Failure("closed".into()),
    };
    let sessions = compact_active_sessions(&observer);
    assert!(sessions.has_sessions);
    let told: serde_json::Value = serde_json::from_str(&sessions.json).unwrap();
    assert_eq!(told["terminal_sessions"][0]["session_id"], "pty-live-7");
    assert_eq!(told["observation_errors"][0], "WebBrowser inventory unavailable: closed");
    assert!(tells_of_sessions(CompactKind::MainAgentMultiTurn, &sessions));
    assert!(!tells_of_sessions(CompactKind::WorkerSingleTurn, &sessions));
}

#[test]
fn prompts_are_answered_in_their_order() {
    let mut log = initialized(&new_main(None));
    let first = log.user_prompt("one");
    let mut cursor: usize = 0;
    assert_eq!(next_advance(&mut cursor, &log.edb, None), AdvanceStep::Answer(first));
    log.turn(first, AgentTurnState::Started);
    let latest = log.latest_turn();
    assert_eq!(next_advance(&mut cursor, &log.edb, latest), AdvanceStep::Resume(first));
    log.completed_response(first, "done");
    assert_eq!(chat_turn_end(&log.edb, first), (AgentTurnState::Completed, ""));
    log.turn(first, AgentTurnState::Completed);
    let latest = log.latest_turn();
    assert_eq!(next_advance(&mut cursor, &log.edb, latest), AdvanceStep::TakeInput);
}

#[test]
fn agents_are_made_by_their_names() {
    assert!(matches!(called("chatbot", None), Ok(AnyAgent::Chat(_))));
    assert!(matches!(called("main-agent", None), Ok(AnyAgent::Main(_))));
    assert!(called("nobody", None).is_err());
    assert_eq!(
        me::agent::available_orchestrators().first().copied(),
        Some(new_main(None).name())
    );
}

#[test]
fn a_model_change_keeps_the_list_of_models() {
    let names: [(&str, &[&str]); 2] = [("first", &["unset"]), ("second", &["unset"])];
    let models = ModelRuntime::new(model_set(&names, false), "first").unwrap();
    let mut agent = new_main(None);
    let mut log = Log::new();
    agent.initialize(&mut log.edb, &models).unwrap();
    let mut desk = desk(log, None, models);
    submit_model_change(&mut agent.input_queue, "second".into(), true).unwrap();
    assert!(took_one(take_next(&mut agent.input_queue, &mut desk)));
    assert_eq!(desk.models.active_model().name, "second");
    let listed: Vec<&str> = desk.models.models.iter().map(|model| model.name.as_str()).collect();
    assert_eq!(listed, vec!["first", "second"]);
    submit_model_change(&mut agent.input_queue, "first".into(), true).unwrap();
    assert!(took_one(take_next(&mut agent.input_queue, &mut desk)));
    assert_eq!(desk.models.active_model().name, "first");
}
