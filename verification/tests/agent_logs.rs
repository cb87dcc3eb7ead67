#![allow(dead_code, unused_imports)]
use me::agent::{ensure_context_usage_estimate, AgentDefinition, Chatbot, MainAgent};
use me::api_calls::{append_api_state, reconcile_api_states};
use me::compact_run::{begin_compact, StagePlan};
use me::compacts::{append_compact_terminal, reconcile_compact_states};
use me::config::{ModelCapabilities, ModelConfig, ProviderType, UNSET_EFFORT};
use me::event::{
    AgentKind, AgentTurnState, ApiState, ApiStateUpdate, ApiUsage, AssistResponse, CompactKind,
    CompactStage, CompactState, CompactStateUpdate, Computed, EdbMutation, Event, EventBody,
    EventDataBase, EventId, FollowUpPrompt, ModelChangeCause, ReasoningEffortChangeCause,
    ToolCall, ToolCallResult, ToolResultState, ToolTraits, UserTurnAborted,
};
use me::inputs::reconcile_model_effort;
use me::json::{parse_json, write_json, Json};
use me::model_api::{ModelApi, ModelRuntime};
use me::observer::ToolboxObserver;
use me::support::HistoryFacts;
use me::tools::{append_tool_text, reconcile_tool_calls, PersistedResult};
use me::turns::{
    active_user_turn_id, append_agent_turn, current_user_turn_state, reconcile_agent_turns,
    LatestTurn, UserTurnState,
};
use me::agent::{available_orchestrators, create, AnyAgent, CatalogChoice, ToolSet};
use me::event::{
    AgentTitleChanged, ImageContent, ModelContextItem, TerminalSessionCreated,
    TerminalSessionState, TerminalSessionUpdate, WorkMapMutation,
};
use me::prompts::{
    build_runtime_environment_prompt, ProcessEnvironmentSnapshot, BASE_SYSTEM_PROMPT_NAME,
    MANAGER_SYSTEM_PROMPT_NAME, PARENT_SYSTEM_PROMPT_NAME, POLICY_SYSTEM_PROMPT_NAME,
    TOOL_SYSTEM_PROMPT_NAME, WORKER_SYSTEM_PROMPT_NAME,
};
use me::validate::validate_context_usage_estimates;

fn machine() -> ProcessEnvironmentSnapshot {
    ProcessEnvironmentSnapshot {
        os: "Test OS".into(),
        architecture: "test64".into(),
        shell: "sh".into(),
        timezone: "UTC+00:00".into(),
        locale: "C".into(),
        proxy: "none".into(),
        routes: "IPv4 unavailable".into(),
    }
}

fn new_main(effort: Option<String>) -> MainAgent {
    MainAgent::new(effort, &machine(), ".me/tmp")
}

fn new_manager(effort: Option<String>) -> MainAgent {
    MainAgent::new_manager(effort, &machine(), ".me/tmp")
}

fn new_worker(effort: Option<String>) -> MainAgent {
    MainAgent::new_worker(effort, &machine(), ".me/tmp")
}

fn called(name: &str, effort: Option<String>) -> Result<AnyAgent, String> {
    create(name, effort, &machine(), ".me/tmp")
}

struct Log {
    edb: EventDataBase,
}

impl Log {
    fn new() -> Log {
        Log { edb: EventDataBase::new() }
    }

    fn len(&self) -> usize {
        self.edb.events.len()
    }

    fn last(&self) -> &EventBody {
        &self.edb.events.last().unwrap().body
    }

    fn body(&self, id: EventId) -> Option<&EventBody> {
        self.edb.get(id).map(|event| &event.body)
    }

    fn effective(&self) -> Vec<Event> {
        let start = self
            .edb
            .events
            .iter()
            .rposition(|event| match &event.body {
                EventBody::ContextCleared => true,
                EventBody::CompactStateUpdate(update) => update.state == CompactState::Completed,
                _ => false,
            })
            .unwrap_or(0);
        let failed: Vec<EventId> = self
            .edb
            .events
            .iter()
            .filter_map(|event| match &event.body {
                EventBody::ApiStateUpdate(update) if update.state == ApiState::Error => {
                    Some(update.api_call_id)
                }
                _ => None,
            })
            .collect();
        let mut request = None;
        let mut kept = Vec::new();
        for event in &self.edb.events[start..] {
            if let EventBody::ApiStateUpdate(update) = &event.body {
                if update.state == ApiState::Requesting {
                    request = Some(update.api_call_id);
                }
            }
            let set_up = matches!(
                event.body,
                EventBody::AgentKindDef(_)
                    | EventBody::SystemPrompt(_)
                    | EventBody::ModelChanged(_)
                    | EventBody::ReasoningEffortChanged(_)
            );
            let rolled_back = matches!(event.body, EventBody::AssistResponse(_))
                && request.is_some_and(|id| failed.contains(&id));
            if !set_up && !rolled_back {
                kept.push(event.copy());
            }
        }
        kept
    }

    fn latest_turn(&self) -> Option<LatestTurn> {
        self.edb.events.iter().rev().find_map(|event| match &event.body {
            EventBody::AgentTurn(step) => Some(LatestTurn {
                turn_id: step.turn_id,
                prompt_id: step.prompt_id,
                state: step.state,
            }),
            _ => None,
        })
    }

    fn user_prompt(&mut self, content: &str) -> EventId {
        self.edb.append(EventBody::UserPrompt(content.into()))
    }

    fn turn(&mut self, prompt: EventId, state: AgentTurnState) -> EventId {
        append_agent_turn(&mut self.edb, prompt, prompt, state, "")
    }

    fn requesting(&mut self, prompt: EventId) -> EventId {
        let id = self.edb.next_id;
        append_api_state(&mut self.edb, id, prompt, ApiState::Requesting, "")
    }

    fn state(&mut self, call: EventId, prompt: EventId, state: ApiState) -> EventId {
        append_api_state(&mut self.edb, call, prompt, state, "")
    }

    fn says(&mut self, prompt: EventId, content: &str, finished: bool) -> EventId {
        self.edb.append(EventBody::AssistResponse(AssistResponse {
            prompt_id: prompt,
            content: content.into(),
            finished,
        }))
    }

    fn call(
        &mut self,
        api: EventId,
        prompt: EventId,
        provider: &str,
        name: &str,
        arguments: &str,
    ) -> EventId {
        self.edb.append(EventBody::ToolCall(ToolCall {
            api_call_id: api,
            prompt_id: prompt,
            provider_call_id: provider.into(),
            name: name.into(),
            arguments: arguments.into(),
            traits: traits_of(name),
        }))
    }

    fn result(&mut self, call: EventId, state: ToolResultState, detail: &str) -> EventId {
        self.edb.append(EventBody::ToolCallResult(ToolCallResult {
            tool_call_id: call,
            state,
            exit_code: None,
            detail: detail.into(),
        }))
    }

    fn follow_up(&mut self, prompt: EventId, content: &str) -> EventId {
        self.edb.append(EventBody::FollowUpPrompt(FollowUpPrompt {
            prompt_id: prompt,
            content: content.into(),
        }))
    }

    fn abort(&mut self, prompt: EventId) -> EventId {
        let active = active_user_turn_id(&self.effective());
        self.edb.append(EventBody::UserTurnAborted(UserTurnAborted {
            prompt_id: prompt,
            active_before: Computed::Value(active),
        }))
    }

    fn compact_started(
        &mut self,
        tool_call: EventId,
        prompt: EventId,
        kind: CompactKind,
    ) -> EventId {
        let plan = match kind {
            CompactKind::WorkerSingleTurn => vec![StagePlan { stage: None, prompt: None }],
            _ => [
                CompactStage::Analysis,
                CompactStage::PrimaryRequest,
                CompactStage::TechnicalContext,
                CompactStage::FilesAndArtifacts,
                CompactStage::Problems,
                CompactStage::CurrentState,
            ]
            .into_iter()
            .map(|stage| StagePlan { stage: Some(stage), prompt: Some("go".into()) })
            .collect(),
        };
        begin_compact(&mut self.edb, tool_call, prompt, kind, plan, true).unwrap().compact_id
    }

    fn completed_response(&mut self, prompt: EventId, content: &str) {
        let api = self.requesting(prompt);
        self.state(api, prompt, ApiState::Streaming);
        self.says(prompt, content, true);
        self.state(api, prompt, ApiState::Completed);
    }

    fn supported_by(&self, agent: &MainAgent) -> Result<(), String> {
        agent.supports_edb(&self.edb, &HistoryFacts { branches: None, turns: None, work: None })
    }

    fn supported_by_chat(&self) -> Result<(), String> {
        Chatbot::new(None)
            .supports_edb(&self.edb, &HistoryFacts { branches: None, turns: None, work: None })
    }
}

fn traits_of(name: &str) -> ToolTraits {
    ToolTraits {
        workmap: name.starts_with("WorkMap."),
        stores_image: name == "Image.View",
        requires_image: name == "Image.View",
    }
}

fn model_config(name: &str, efforts: &[&str]) -> ModelConfig {
    ModelConfig {
        name: name.into(),
        provider: ProviderType::OpenaiCompatible,
        reserve_output_context: true,
        base_url: "https://example.invalid/v1".into(),
        endpoint: "/chat/completions".into(),
        api_key: Some("unused".into()),
        api_key_env: None,
        credential_file: None,
        model: "unused".into(),
        source_url: None,
        timeout_seconds: 1,
        capabilities: ModelCapabilities {
            context_window: 128_000,
            max_output_tokens: None,
            reasoning_efforts: efforts.iter().map(|effort| (*effort).to_owned()).collect(),
            input_modalities: vec!["text".into()],
        },
        parameters: Json::object(),
        effort_parameters: Json::object(),
    }
}

fn unused_models() -> ModelRuntime {
    ModelRuntime::single(
        ModelApi::new(model_config("test", &["unset", "low", "high"])).unwrap(),
    )
}

fn initialized(agent: &MainAgent) -> Log {
    let mut log = Log::new();
    agent.initialize(&mut log.edb, &unused_models()).unwrap();
    log
}

fn chat_log(effort: &str) -> Log {
    let mut log = Log::new();
    Chatbot::new(Some(effort.into())).initialize(&mut log.edb, &unused_models()).unwrap();
    log
}

fn restore(agent: &mut MainAgent, log: &Log) {
    agent.restore(&log.edb, &mut unused_models()).unwrap();
}

fn reconcile_with(
    agent: &mut MainAgent,
    log: &mut Log,
    models: &mut ModelRuntime,
    results: &Vec<PersistedResult>,
) {
    if log.edb.is_empty() {
        agent.initialize(&mut log.edb, models).unwrap();
    }
    reconcile_model_effort(&mut agent.effort, &mut log.edb, models).unwrap();
    reconcile_api_states(&mut log.edb).unwrap();
    reconcile_tool_calls(&mut log.edb, results).unwrap();
    reconcile_compact_states(&mut log.edb).unwrap();
    let (latest, effective) = (log.latest_turn(), log.effective());
    reconcile_agent_turns(&mut log.edb, latest, &effective);
    let boundary = log.edb.events.iter().rev().find_map(|event| match &event.body {
        EventBody::ApiStateUpdate(update) => update.usage.map(|usage| (event.id, usage)),
        _ => None,
    });
    ensure_context_usage_estimate(
        &mut log.edb,
        boundary.map(|(id, _)| id),
        boundary.map_or(0, |(_, usage)| usage.total_tokens),
    )
    .unwrap();
}

fn reconcile(agent: &mut MainAgent, log: &mut Log) {
    reconcile_with(agent, log, &mut unused_models(), &Vec::new());
}

fn pending_tool(name: &str, arguments: &str) -> Log {
    let mut log = initialized(&new_main(None));
    let prompt = log.user_prompt("run it");
    let api = log.requesting(prompt);
    log.state(api, prompt, ApiState::Streaming);
    log.says(prompt, "", true);
    let call = log.call(api, prompt, "call-1", name, arguments);
    log.state(api, prompt, ApiState::Completed);
    assert_eq!(call, 10);
    log
}

fn multi_tool_batch() -> Log {
    let mut log = initialized(&new_main(None));
    let prompt = log.user_prompt("run both");
    let api = log.requesting(prompt);
    log.state(api, prompt, ApiState::Streaming);
    log.says(prompt, "", true);
    assert_eq!(log.call(api, prompt, "call-1", "Terminal.List", "{}"), 10);
    assert_eq!(log.call(api, prompt, "call-2", "Terminal.Status", "{}"), 11);
    log.state(api, prompt, ApiState::Completed);
    log
}

fn tool_history(finished: bool) -> Log {
    let mut log = pending_tool("Terminal.List", "{}");
    append_tool_text(&mut log.edb, 10, "Terminal.List", "stdout", "ok").unwrap();
    if finished {
        log.result(10, ToolResultState::Succeeded, r#"{"sessions":[]}"#);
    }
    log
}

#[test]
fn only_main_agent_exposes_toolbox_resource_observation() {
    let main = new_main(None);
    let observer = main.toolbox_observer().expect("MainAgent must expose toolbox observation");
    assert_eq!(observer.active_count().unwrap(), 0);
    assert!(Chatbot::new(None).toolbox_observer().is_none());
}

#[test]
fn main_agent_rejects_follow_up_after_final_answer() {
    let agent = new_main(None);
    let mut log = initialized(&agent);
    let prompt = log.user_prompt("start");
    let api = log.requesting(prompt);
    log.state(api, prompt, ApiState::Streaming);
    log.says(prompt, "final", true);
    log.state(api, prompt, ApiState::Completed);
    log.follow_up(prompt, "too late");

    let error = log.supported_by(&agent).unwrap_err();
    assert!(error.contains("after turn"));
}

#[test]
fn follow_up_after_completed_compact_remains_in_open_agent_turn() {
    let agent = new_main(None);
    let mut log = initialized(&agent);
    let prompt = log.user_prompt("start a long task");
    log.turn(prompt, AgentTurnState::Started);

    let api = log.requesting(prompt);
    log.state(api, prompt, ApiState::Streaming);
    log.says(prompt, "", true);
    let compact_call = log.call(api, prompt, "provider-compact", "Compact", "{}");
    log.state(api, prompt, ApiState::Completed);
    log.result(compact_call, ToolResultState::Succeeded, "{}");

    let compact = log.compact_started(compact_call, prompt, CompactKind::WorkerSingleTurn);
    let compact_api = log.requesting(prompt);
    log.state(compact_api, prompt, ApiState::Streaming);
    log.state(compact_api, prompt, ApiState::Completed);
    append_compact_terminal(
        &mut log.edb,
        compact,
        CompactState::Completed,
        "Summary:\ncontinue the open turn",
        "",
        Vec::new(),
        "",
    )
    .unwrap();

    log.follow_up(prompt, "also inspect the other branch");
    log.turn(prompt, AgentTurnState::Completed);

    log.supported_by(&agent).unwrap();
}

#[test]
fn main_agent_rejects_follow_up_after_explicit_agent_turn_terminal() {
    let agent = new_main(None);
    let mut log = initialized(&agent);
    let prompt = log.user_prompt("start");
    log.turn(prompt, AgentTurnState::Started);
    let api = log.requesting(prompt);
    log.state(api, prompt, ApiState::Streaming);
    log.says(prompt, "final", true);
    log.state(api, prompt, ApiState::Completed);
    log.turn(prompt, AgentTurnState::Completed);
    log.follow_up(prompt, "too late");

    let error = log.supported_by(&agent).unwrap_err();
    assert!(error.contains("after turn"));
}

#[test]
fn follow_up_requires_a_closed_tool_call_safe_point() {
    let mut unsafe_log = pending_tool("Terminal.List", "{}");
    unsafe_log.follow_up(6, "too early");
    let error = unsafe_log.supported_by(&new_main(None)).unwrap_err();
    assert!(error.contains("before its result"));

    let mut safe_log = pending_tool("Terminal.List", "{}");
    safe_log.result(10, ToolResultState::Succeeded, "listed");
    safe_log.follow_up(6, "continue");
    assert!(safe_log.supported_by(&new_main(None)).is_ok());
}

#[test]
fn active_turn_projection_distinguishes_streaming_tools_and_final_answers() {
    let mut log = chat_log("unset");
    let prompt = log.user_prompt("work");
    assert_eq!(active_user_turn_id(&log.effective()), Some(prompt));

    let api = log.requesting(prompt);
    log.state(api, prompt, ApiState::Streaming);
    log.says(prompt, "working\n", false);
    assert_eq!(active_user_turn_id(&log.effective()), Some(prompt));

    log.says(prompt, "", true);
    let call = log.call(api, prompt, "call-1", "Terminal.List", "{}");
    log.state(api, prompt, ApiState::Completed);
    assert_eq!(active_user_turn_id(&log.effective()), Some(prompt));
    log.result(call, ToolResultState::Succeeded, "listed");
    assert_eq!(active_user_turn_id(&log.effective()), Some(prompt));

    let last = log.requesting(prompt);
    log.state(last, prompt, ApiState::Streaming);
    log.says(prompt, "done", true);
    assert_eq!(active_user_turn_id(&log.effective()), None);
    assert_eq!(
        current_user_turn_state(&log.effective()),
        Some(UserTurnState::Completed(prompt))
    );
    log.state(last, prompt, ApiState::Completed);
    assert_eq!(active_user_turn_id(&log.effective()), None);
}

#[test]
fn aborted_turns_can_form_a_rewind_chain_on_the_effective_branch() {
    let agent = new_main(None);
    let mut log = initialized(&agent);
    let first = log.user_prompt("first");
    log.abort(first);
    let second = log.user_prompt("second");
    log.abort(second);
    assert_eq!(
        current_user_turn_state(&log.effective()),
        Some(UserTurnState::Aborted(second))
    );
    assert!(log.supported_by(&agent).is_ok());

    assert!(log.edb.rewind_to_event(second));
    assert_eq!(current_user_turn_state(&log.effective()), Some(UserTurnState::Aborted(first)));
    assert!(log.supported_by(&agent).is_ok());

    assert!(log.edb.rewind_to_event(first));
    assert_eq!(current_user_turn_state(&log.effective()), None);
    assert!(log.supported_by(&agent).is_ok());
}

#[test]
fn aborted_turn_rejects_later_generation_for_the_same_prompt() {
    let agent = new_main(None);
    let mut log = initialized(&agent);
    let prompt = log.user_prompt("stop");
    log.abort(prompt);
    log.follow_up(prompt, "too late");

    let error = log.supported_by(&agent).unwrap_err();
    assert!(error.contains("after turn"));
    assert!(error.contains("was aborted"));
}

#[test]
fn startup_finishes_abort_lifecycle_without_automatically_rewinding() {
    let mut agent = new_main(None);
    let mut log = initialized(&agent);
    let prompt = log.user_prompt("interrupt me");
    let api = log.requesting(prompt);
    log.state(api, prompt, ApiState::Streaming);
    log.abort(prompt);
    assert!(log.supported_by(&agent).is_ok());

    restore(&mut agent, &log);
    reconcile(&mut agent, &mut log);
    assert!(matches!(
        log.body(10),
        Some(EventBody::ApiStateUpdate(update))
            if update.api_call_id == api && update.state == ApiState::Interrupted
    ));
    assert_eq!(log.len(), 11);
    assert_eq!(current_user_turn_state(&log.effective()), Some(UserTurnState::Aborted(prompt)));
    assert!(log.supported_by(&agent).is_ok());
    let reconciled = log.len();

    reconcile(&mut agent, &mut log);
    assert_eq!(log.len(), reconciled);
}

fn reconcile_chat(log: &mut Log) {
    reconcile_api_states(&mut log.edb).unwrap();
    let (latest, effective) = (log.latest_turn(), log.effective());
    reconcile_agent_turns(&mut log.edb, latest, &effective);
}

#[test]
fn startup_marks_unfinished_api_call_interrupted_once() {
    let mut log = chat_log("unset");
    let prompt = log.user_prompt("hello");
    let api = log.requesting(prompt);
    log.state(api, prompt, ApiState::Streaming);

    let mut chatbot = Chatbot::new(None);
    chatbot.restore(&log.edb, &mut unused_models()).unwrap();
    reconcile_chat(&mut log);
    assert_eq!(log.len(), 7);
    assert!(matches!(
        log.body(6),
        Some(EventBody::ApiStateUpdate(update))
            if update.api_call_id == api && update.state == ApiState::Interrupted
    ));

    reconcile_chat(&mut log);
    assert_eq!(log.len(), 7);
    assert!(log.supported_by_chat().is_ok());
}

#[test]
fn startup_closes_an_unfinished_retry_sequence_after_api_error() {
    let mut log = Log::new();
    log.user_prompt("hello");
    let api = log.requesting(0);
    append_api_state(&mut log.edb, api, 0, ApiState::Error, "network");
    reconcile_api_states(&mut log.edb).unwrap();
    assert_eq!(log.len(), 4);
    assert!(matches!(
        log.body(3),
        Some(EventBody::ApiStateUpdate(update))
            if update.api_call_id == api
                && update.state == ApiState::Interrupted
                && update.detail.contains("retry sequence")
    ));
}

#[test]
fn rejects_api_state_after_terminal_state() {
    let mut log = chat_log("unset");
    let prompt = log.user_prompt("hello");
    let api = log.requesting(prompt);
    log.state(api, prompt, ApiState::Streaming);
    log.says(prompt, "done", true);
    log.state(api, prompt, ApiState::Completed);
    append_api_state(&mut log.edb, api, prompt, ApiState::Error, "late");
    assert!(log.supported_by_chat().is_err());
}

fn retrying(log: &mut Log, call: EventId, prompt: EventId, count: u8, limit: u8) {
    log.edb.append(EventBody::ApiStateUpdate(ApiStateUpdate {
        api_call_id: call,
        prompt_id: prompt,
        state: ApiState::Retrying,
        retry_count: count,
        retry_limit: limit,
        usage: None,
        detail: "network".into(),
    }));
}

#[test]
fn accepts_historical_retry_limits_and_rejects_inconsistent_metadata() {
    let mut missing = chat_log("unset");
    let prompt = missing.user_prompt("hello");
    let failed = missing.requesting(prompt);
    missing.state(failed, prompt, ApiState::Error);
    missing.requesting(prompt);
    assert!(missing.supported_by_chat().unwrap_err().contains("without a retry event"));

    let mut inconsistent = chat_log("unset");
    let prompt = inconsistent.user_prompt("hello");
    let failed = inconsistent.requesting(prompt);
    inconsistent.state(failed, prompt, ApiState::Error);
    retrying(&mut inconsistent, failed, prompt, 1, 10);
    let next = inconsistent.requesting(prompt);
    inconsistent.state(next, prompt, ApiState::Error);
    retrying(&mut inconsistent, next, prompt, 2, 9);
    assert!(inconsistent.supported_by_chat().unwrap_err().contains("invalid retry"));

    let mut historical = chat_log("unset");
    let prompt = historical.user_prompt("hello");
    let failed = historical.requesting(prompt);
    historical.state(failed, prompt, ApiState::Error);
    retrying(&mut historical, failed, prompt, 1, 10);
    let next = historical.requesting(prompt);
    append_api_state(&mut historical.edb, next, prompt, ApiState::Interrupted, "stopped");
    assert!(historical.supported_by_chat().is_ok());
}

#[test]
fn rejects_model_context_item_outside_active_streaming_call() {
    let mut log = chat_log("unset");
    let prompt = log.user_prompt("hello");
    let api = log.requesting(prompt);
    log.edb.append(EventBody::ModelContextItem(ModelContextItem {
        api_call_id: api,
        prompt_id: prompt,
        provider: "codex-oauth".into(),
        content: r#"{"type":"reasoning","encrypted_content":"opaque","summary":[]}"#.into(),
    }));
    let error = log.supported_by_chat().unwrap_err();
    assert!(error.contains("active streaming"));
}

#[test]
fn startup_recovers_a_committed_title_change_as_succeeded() {
    let agent = new_main(None);
    let mut log = initialized(&agent);
    let prompt = log.user_prompt("rename this agent");
    let api = log.requesting(prompt);
    log.state(api, prompt, ApiState::Streaming);
    log.says(prompt, "", true);
    let call = log.call(
        api,
        prompt,
        "provider-title-recovery",
        "SetTitle",
        r#"{"title":"恢复标题"}"#,
    );
    log.state(api, prompt, ApiState::Completed);
    log.edb.append(EventBody::AgentTitleChanged(AgentTitleChanged {
        tool_call_id: Some(call),
        title: "恢复标题".into(),
        normalized: Computed::Value("恢复标题".into()),
        requested: Computed::Value("恢复标题".into()),
    }));

    let results =
        vec![PersistedResult { tool_call_id: call, output: Json::text("Title was set.") }];
    reconcile_tool_calls(&mut log.edb, &results).unwrap();
    assert!(matches!(
        log.last(),
        EventBody::ToolCallResult(result)
            if result.tool_call_id == call
                && result.state == ToolResultState::Succeeded
                && result.detail.contains("Title was set.")
    ));
    log.supported_by(&agent).unwrap();
}

#[test]
fn main_profiles_reject_prompt_sources_from_the_wrong_actor() {
    let mut worker = new_manager(None);
    worker.configure_agent(AgentDefinition::sub_agent("manager", None));
    let mut worker_log = Log::new();
    reconcile(&mut worker, &mut worker_log);
    worker_log.user_prompt("pretend user");
    assert!(worker_log.supported_by(&worker).is_err());

    let mut child = new_main(None);
    child.configure_agent(AgentDefinition::sub_agent("main", None));
    let mut child_log = Log::new();
    reconcile(&mut child, &mut child_log);
    child_log.edb.append(EventBody::ManagerPrompt("wrong parent kind".into()));
    assert!(child_log.supported_by(&child).is_err());

    let mut main = new_main(None);
    let mut main_log = Log::new();
    reconcile(&mut main, &mut main_log);
    main_log.edb.append(EventBody::ParentAgentPrompt("not from the user".into()));
    assert!(main_log.supported_by(&main).is_err());
}

#[test]
fn orchestrators_reject_initial_state_causes_after_initialization() {
    let main = new_main(None);
    let mut main_log = initialized(&main);
    me::inputs::append_model_change(&mut main_log.edb, "test", ModelChangeCause::Initial);
    assert!(main_log.supported_by(&main).unwrap_err().contains("initial model state appears"));

    let mut chat = chat_log("unset");
    me::inputs::append_effort_change(
        &mut chat.edb,
        UNSET_EFFORT,
        ReasoningEffortChangeCause::Initial,
    );
    assert!(chat
        .supported_by_chat()
        .unwrap_err()
        .contains("initial reasoning effort state appears"));
}

#[test]
fn startup_reconciles_an_incomplete_model_switch_once() {
    let first = model_config("first", &["unset", "low"]);
    let second = model_config("second", &["unset", "high"]);
    let mut models = ModelRuntime::new(vec![first, second], "first").unwrap();
    let mut log = Log::new();
    let mut agent = new_main(Some("low".into()));
    agent.initialize(&mut log.edb, &models).unwrap();
    me::inputs::append_model_change(&mut log.edb, "second", ModelChangeCause::User);

    agent.restore(&log.edb, &mut models).unwrap();
    reconcile_with(&mut agent, &mut log, &mut models, &Vec::new());
    assert_eq!(me::inputs::latest_model(&log.edb), Some("second"));
    assert_eq!(me::inputs::latest_effort(&log.edb), Some(UNSET_EFFORT));
    assert!(matches!(
        log.last(),
        EventBody::ReasoningEffortChanged(event)
            if event.cause == ReasoningEffortChangeCause::ModelUnsupported
    ));
    let reconciled = log.len();

    agent.restore(&log.edb, &mut models).unwrap();
    reconcile_with(&mut agent, &mut log, &mut models, &Vec::new());
    assert_eq!(log.len(), reconciled);
}

#[test]
fn startup_backfills_the_latest_legacy_usage_estimate_once() {
    let mut agent = new_main(None);
    let mut log = initialized(&agent);
    let prompt = log.user_prompt("legacy request");
    let api = log.requesting(prompt);
    log.state(api, prompt, ApiState::Streaming);
    log.says(prompt, "legacy answer", true);
    let completed = log.edb.append(EventBody::ApiStateUpdate(ApiStateUpdate {
        api_call_id: api,
        prompt_id: prompt,
        state: ApiState::Completed,
        retry_count: 0,
        retry_limit: 0,
        usage: Some(ApiUsage {
            input_tokens: 9_000,
            output_tokens: 1_000,
            total_tokens: 10_000,
        }),
        detail: String::new(),
    }));
    let estimates = |log: &Log| {
        log.edb
            .events
            .iter()
            .filter(|event| matches!(event.body, EventBody::ContextUsageEstimate(_)))
            .count()
    };
    assert_eq!(estimates(&log), 0);

    reconcile(&mut agent, &mut log);
    assert_eq!(estimates(&log), 1);
    assert!(matches!(
        log.last(),
        EventBody::ContextUsageEstimate(estimate)
            if estimate.api_state_event_id == completed && estimate.sum == 10_000
    ));
    assert!(validate_context_usage_estimates(&log.edb).is_ok());

    reconcile(&mut agent, &mut log);
    assert_eq!(estimates(&log), 1);
}

#[test]
fn main_agent_rejects_chatbot_history() {
    let mut log = Log::new();
    log.user_prompt("hello");
    let reason = log.supported_by(&new_main(None)).unwrap_err();
    assert!(reason.contains("must begin"));
}

#[test]
fn main_agent_recovers_unfinished_tool_once() {
    let mut log = tool_history(false);
    let mut agent = new_main(None);
    assert!(log.supported_by(&agent).is_ok());

    reconcile(&mut agent, &mut log);
    assert_eq!(log.len(), 14);
    assert!(matches!(
        log.body(13),
        Some(EventBody::ToolCallResult(result))
            if result.tool_call_id == 10
                && result.state == ToolResultState::Interrupted
                && result.detail.is_empty()
    ));

    reconcile(&mut agent, &mut log);
    assert_eq!(log.len(), 14);
    assert!(log.supported_by(&agent).is_ok());
}

#[test]
fn main_agent_recovers_committed_workmap_mutation_as_succeeded() {
    let arguments = r#"{"objective":{"title":"Persist the route"},"plans":[{"title":"persist"}]}"#;
    let mut log = pending_tool("WorkMap.Start", arguments);
    log.edb.append(EventBody::WorkMapMutation(WorkMapMutation {
        tool_call_id: 10,
        operation: "start".into(),
        operation_tool: "WorkMap.Start".into(),
    }));
    assert!(log.supported_by(&new_main(None)).is_ok());

    let mut agent = new_main(None);
    let results =
        vec![PersistedResult { tool_call_id: 10, output: parse_json(arguments).unwrap() }];
    reconcile_with(&mut agent, &mut log, &mut unused_models(), &results);
    assert!(matches!(
        log.last(),
        EventBody::ToolCallResult(result)
            if result.tool_call_id == 10
                && result.state == ToolResultState::Succeeded
                && result.detail.contains("persist")
    ));
    let count = log.len();
    reconcile_with(&mut agent, &mut log, &mut unused_models(), &results);
    assert_eq!(log.len(), count);
    assert!(log.supported_by(&agent).is_ok());
}

#[test]
fn main_agent_interrupts_tool_when_api_was_unfinished() {
    let mut log = initialized(&new_main(None));
    let prompt = log.user_prompt("run it");
    let api = log.requesting(prompt);
    log.state(api, prompt, ApiState::Streaming);
    log.says(prompt, "", true);
    let call = log.call(api, prompt, "call-1", "Terminal.List", "{}");

    let mut agent = new_main(None);
    assert!(log.supported_by(&agent).is_ok());
    reconcile(&mut agent, &mut log);
    assert!(matches!(
        log.body(11),
        Some(EventBody::ApiStateUpdate(update)) if update.state == ApiState::Interrupted
    ));
    assert!(matches!(
        log.body(12),
        Some(EventBody::ToolCallResult(result))
            if result.tool_call_id == call
                && result.state == ToolResultState::Interrupted
                && result.detail.is_empty()
    ));
    assert!(log.supported_by(&agent).is_ok());
}

#[test]
fn multi_tool_batch_rejects_out_of_order_execution_and_follow_up() {
    let agent = new_main(None);
    let mut out_of_order = multi_tool_batch();
    out_of_order.result(11, ToolResultState::Succeeded, "second");
    assert!(out_of_order.supported_by(&agent).unwrap_err().contains("out of order"));

    let mut premature = multi_tool_batch();
    premature.requesting(6);
    assert!(premature.supported_by(&agent).unwrap_err().contains("before tool call"));

    let mut pending = multi_tool_batch();
    pending.result(10, ToolResultState::Failed, "first");
    pending.follow_up(6, "too early");
    assert!(pending.supported_by(&agent).unwrap_err().contains("before its result"));

    let mut safe = multi_tool_batch();
    safe.result(10, ToolResultState::Failed, "first");
    safe.result(11, ToolResultState::Succeeded, "second");
    safe.follow_up(6, "continue");
    assert!(safe.supported_by(&agent).is_ok());
}

#[test]
fn startup_interrupts_every_unclosed_call_in_a_multi_tool_batch_in_order() {
    let mut log = multi_tool_batch();
    let mut agent = new_main(None);
    reconcile(&mut agent, &mut log);

    assert!(matches!(
        log.body(13),
        Some(EventBody::ToolCallResult(result))
            if result.tool_call_id == 10 && result.state == ToolResultState::Interrupted
    ));
    assert!(matches!(
        log.body(14),
        Some(EventBody::ToolCallResult(result))
            if result.tool_call_id == 11 && result.state == ToolResultState::Interrupted
    ));
    assert!(log.supported_by(&agent).is_ok());
}

#[test]
fn completed_compact_requires_a_successful_summary_api_request() {
    let mut log = initialized(&new_main(None));
    let prompt = log.user_prompt("invalid compact");
    log.turn(prompt, AgentTurnState::Started);
    let api = log.requesting(prompt);
    log.state(api, prompt, ApiState::Streaming);
    log.says(prompt, "", true);
    let tool = log.call(api, prompt, "compact-call", "Compact", "{}");
    log.state(api, prompt, ApiState::Completed);
    log.result(tool, ToolResultState::Succeeded, "{}");
    let compact = log.compact_started(tool, prompt, CompactKind::WorkerSingleTurn);
    append_compact_terminal(
        &mut log.edb,
        compact,
        CompactState::Completed,
        "Summary:\nnot actually requested",
        "",
        Vec::new(),
        "",
    )
    .unwrap();

    let error = log.supported_by(&new_main(None)).unwrap_err();
    assert!(error.contains("without a successful summary API request"), "{error}");
}

#[test]
fn orchestrators_are_made_by_name() {
    assert_eq!(available_orchestrators(), vec!["main-agent", "manager-agent", "chatbot"]);
    for name in ["main-agent", "manager-agent", "worker-agent"] {
        match called(name, Some("low".into())).unwrap() {
            AnyAgent::Main(agent) => {
                assert_eq!(agent.name(), name);
                assert_eq!(agent.effort.as_deref(), Some("low"));
            }
            AnyAgent::Chat(_) => panic!("{name} is no chat bot"),
        }
    }
    assert!(matches!(called("chatbot", None).unwrap(), AnyAgent::Chat(_)));
    assert_eq!(called("nobody", None).unwrap_err(), "orchestrator nobody does not exist");
}

#[test]
fn agents_know_their_surroundings_from_the_start() {
    let here = build_runtime_environment_prompt(&machine(), ".", ".me/tmp", "main");
    for agent in [new_main(None), new_manager(None), new_worker(None)] {
        assert_eq!(agent.environment_prompt, here);
        assert!(agent.environment_prompt.contains("- Operating system: \"Test OS\"\n"));
        assert!(agent.environment_prompt.contains("- Workspace: \".\"\n"));
        assert!(agent.environment_prompt.contains("- Writable path: \"./.me/tmp/main\"\n"));
        assert_eq!(agent.workspace, ".");
        assert_eq!(agent.definition.orchestrator, "main-agent");
        assert!(!agent.api_activity.active);
        assert_eq!(agent.api_activity.received_sse_events, 0);
    }
}

#[test]
fn a_workspace_changes_what_an_agent_is_told() {
    let mut agent = new_main(Some("low".into()));
    agent.configure_workspace("/work", ToolboxObserver::empty(), &machine(), ".me/tmp");
    assert_eq!(agent.workspace, "/work");
    assert!(agent.environment_prompt.contains("- Writable path: \"/work/.me/tmp/main\"\n"));
    agent.attach_workspace("/other", "agent-7", &machine(), ".me/tmp");
    assert_eq!(agent.workspace, "/other");
    assert!(agent.environment_prompt.contains("- Workspace: \"/other\"\n"));
    assert!(agent.environment_prompt.contains("- Writable path: \"/other/.me/tmp/agent-7\"\n"));
    assert_eq!(agent.effort.as_deref(), Some("low"));
}

#[test]
fn a_chat_bot_is_made_fresh() {
    match called("chatbot", Some("high".into())).unwrap() {
        AnyAgent::Chat(chat) => {
            assert_eq!(chat.cursor, 0);
            assert_eq!(chat.effort.as_deref(), Some("high"));
            assert_eq!(chat.definition.kind, AgentKind::Interactive);
            assert_eq!(chat.definition.orchestrator, "main-agent");
            assert!(chat.definition.parent_agent_id.is_none());
            assert!(chat.input_queue.pending.is_empty());
            assert!(!chat.api_activity.active);
            assert_eq!(chat.api_activity.received_sse_events, 0);
        }
        AnyAgent::Main(_) => panic!("a chat bot has no tools"),
    }
}

#[test]
fn agents_are_offered_the_tools_of_their_part() {
    assert!(matches!(
        new_manager(None).visible_catalog(),
        CatalogChoice::ManagerView
    ));
    match new_worker(None).visible_catalog() {
        CatalogChoice::Without(sets) => {
            assert_eq!(sets, vec![ToolSet::Agent, ToolSet::Image, ToolSet::Title])
        }
        CatalogChoice::ManagerView => panic!("a worker is no manager"),
    }
    let mut child = new_main(None);
    child.configure_agent(AgentDefinition::sub_agent("main", None));
    match child.visible_catalog() {
        CatalogChoice::Without(sets) => assert_eq!(sets, vec![ToolSet::Agent, ToolSet::Title]),
        CatalogChoice::ManagerView => panic!("a child is no manager"),
    }
    match new_main(None).visible_catalog() {
        CatalogChoice::Without(sets) => assert!(sets.is_empty()),
        CatalogChoice::ManagerView => panic!("an agent of its own is no manager"),
    }
}

#[test]
fn logs_of_other_agents_and_broken_beginnings_are_refused() {
    let log = initialized(&new_main(None));
    assert_eq!(
        log.supported_by(&new_manager(None)).unwrap_err(),
        "EDB defines orchestrator main-agent, not manager-agent"
    );
    assert_eq!(
        log.supported_by_chat().unwrap_err(),
        "EDB defines orchestrator main-agent, not chatbot"
    );

    let mut chat = chat_log("unset");
    chat.edb.append(EventBody::ManagerPrompt("x".into()));
    assert_eq!(chat.supported_by_chat().unwrap_err(), "chatbot does not support ManagerPrompt");

    let mut foreign = chat_log("unset");
    foreign.edb.append(EventBody::ParentAgentPrompt("x".into()));
    assert_eq!(
        foreign.supported_by_chat().unwrap_err(),
        "chatbot received invalid prompt source ParentAgentPrompt"
    );

    let facts = HistoryFacts { branches: Some("no branch".into()), turns: None, work: None };
    assert_eq!(
        new_main(None).supports_edb(&log.edb, &facts).unwrap_err(),
        "no branch"
    );
    let facts = HistoryFacts { branches: None, turns: None, work: Some("no work".into()) };
    assert_eq!(new_main(None).supports_edb(&log.edb, &facts).unwrap_err(), "no work");
}

#[test]
fn a_new_log_is_supported_by_every_kind_of_agent() {
    for agent in
        [new_main(None), new_manager(None), new_worker(Some("x".into()))]
    {
        let log = initialized(&agent);
        assert!(log.supported_by(&agent).is_ok());
    }
    let mut child = new_main(None);
    child.configure_agent(AgentDefinition::sub_agent("main", Some("be brief".into())));
    assert!(initialized(&child).supported_by(&child).is_ok());
    assert!(chat_log("unset").supported_by_chat().is_ok());
}

#[test]
fn terminal_sessions_follow_their_calls() {
    let mut log = pending_tool("Terminal.Create", "{}");
    let created = |session: &str| {
        EventBody::TerminalSessionCreated(TerminalSessionCreated {
            tool_call_id: 10,
            session_id: session.into(),
            shell: "sh".into(),
            cwd: "/workspace".into(),
            width: 80,
            height: 24,
        })
    };
    log.edb.append(created("pty-10"));
    assert!(log.supported_by(&new_main(None)).is_ok());
    log.edb.append(EventBody::TerminalSessionState(TerminalSessionUpdate {
        session_id: "pty-2".into(),
        state: TerminalSessionState::Exited,
        exit_code: Some(0),
    }));
    assert!(log.supported_by(&new_main(None)).is_err());
}

#[test]
fn prompt_names_stand_where_the_log_begins() {
    let agent = new_worker(None);
    assert_eq!(
        agent.expected_system_prompts(),
        vec![
            BASE_SYSTEM_PROMPT_NAME,
            POLICY_SYSTEM_PROMPT_NAME,
            WORKER_SYSTEM_PROMPT_NAME,
            TOOL_SYSTEM_PROMPT_NAME
        ]
    );
    let mut log = Log::new();
    log.edb.append(EventBody::AgentKindDef(me::event::AgentKindDef {
        kind: AgentKind::Interactive,
        orchestrator: "main-agent".into(),
        parent_agent_id: None,
        system_prompt: None,
    }));
    assert_eq!(
        log.supported_by(&new_main(None)).unwrap_err(),
        "MainAgent EDB must begin with system prompt \"base\" at id=1"
    );
}

#[test]
fn a_restore_without_effort_still_takes_the_model_up() {
    let models = || {
        let first = model_config("first", &["unset", "low"]);
        let second = model_config("second", &["unset", "high"]);
        ModelRuntime::new(vec![first, second], "first").unwrap()
    };
    let mut log = Log::new();
    log.edb.append(EventBody::AgentKindDef(me::event::AgentKindDef {
        kind: AgentKind::Interactive,
        orchestrator: "main-agent".into(),
        parent_agent_id: None,
        system_prompt: None,
    }));
    let mut agent = new_main(Some("low".into()));
    let mut unnamed = models();
    assert!(agent.restore(&log.edb, &mut unnamed).is_err());
    assert_eq!(unnamed.active_model().name, "first");

    me::inputs::append_model_change(&mut log.edb, "second", ModelChangeCause::Initial);
    let mut taken = models();
    assert!(agent.restore(&log.edb, &mut taken).is_err());
    assert_eq!(taken.active_model().name, "second");
    assert_eq!(taken.models.len(), 2);
    assert_eq!(agent.effort.as_deref(), Some("low"));

    me::inputs::append_model_change(&mut log.edb, "missing", ModelChangeCause::User);
    let mut refused = models();
    assert!(agent.restore(&log.edb, &mut refused).is_err());
    assert_eq!(refused.active_model().name, "first");
}
