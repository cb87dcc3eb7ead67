use me::agent::{Chatbot, MainAgent};
use me::buffers::{AssistResponseBuffer, CompactResponseBuffer, MainResponseBuffer};
use me::catalog::{ToolName, ToolboxCatalog};
use me::compact_run::{
    begin_compact, end_stage, finish_compact, summary_sections, CompactRun, CompactStep,
    StageOutcome, StagePlan,
};
use me::compacts::append_compact_terminal;
use me::config::{ModelCapabilities, ModelConfig, ProviderType};
use me::event::{
    AgentTurnState, ApiState, CompactKind, CompactStage, CompactState, CompactStateUpdate, Event, EventBody, EventDataBase, EventId,
    ToolCallResult, ToolResultState, ToolTraits,
};
use me::input_queue::{OrchestratorInput, OrchestratorInputQueue};
use me::json::Json;
use me::model_api::{ModelApi, ModelRuntime};
use me::prompts::ProcessEnvironmentSnapshot;
use me::request::{
    begin_attempt, end_chat_attempt, end_compact_attempt, end_main_attempt, on_chat_line,
    on_compact_line, on_main_line,
    next_try, record_answer, record_api_failure, Attempt, AttemptEnd,
};
use me::support::HistoryFacts;
use me::tool_calls::{require_api_terminal_before, ToolHistoryError};
use me::tools::{append_tool_text, interrupt_tool_batch};
use me::turns::append_agent_turn;

fn machine() -> ProcessEnvironmentSnapshot {
    ProcessEnvironmentSnapshot {
        os: "Test OS".into(),
        architecture: "test64".into(),
        shell: "sh".into(),
        timezone: "UTC+00:00".into(),
        locale: "C".into(),
        proxy: "none".into(),
        routes: "IPv4 unavailable".into(),
    }
}

fn new_main(effort: Option<String>) -> MainAgent {
    MainAgent::new(effort, &machine(), ".me/tmp")
}

/// A log that is looked at after every step.
struct Turn {
    edb: EventDataBase,
    queue: OrchestratorInputQueue,
    prompt: EventId,
}

fn tool(full: &str) -> ToolName {
    ToolName { full: full.into(), api: full.replace('.', "_") }
}

fn catalog() -> ToolboxCatalog {
    ToolboxCatalog {
        prompt: String::new(),
        definitions: Vec::new(),
        tools: ["Terminal.List", "Compact"].iter().map(|name| tool(name)).collect(),
        disabled: Vec::new(),
    }
}

fn models() -> ModelRuntime {
    let config = ModelConfig {
        name: "test".into(),
        provider: ProviderType::OpenaiCompatible,
        reserve_output_context: true,
        base_url: "https://example.invalid/v1".into(),
        endpoint: "/chat/completions".into(),
        api_key: Some("unused".into()),
        api_key_env: None,
        credential_file: None,
        model: "unused".into(),
        source_url: None,
        timeout_seconds: 1,
        capabilities: ModelCapabilities {
            context_window: 128_000,
            max_output_tokens: None,
            reasoning_efforts: vec!["unset".into()],
            input_modalities: vec!["text".into()],
        },
        parameters: Json::object(),
        effort_parameters: Json::object(),
    };
    ModelRuntime::single(ModelApi::new(config).unwrap())
}

fn said(text: &str) -> String {
    format!(r#"data: {{"choices":[{{"delta":{{"content":"{text}"}}}}]}}"#)
}

fn called(calls: &[(&str, &str)]) -> String {
    let list: Vec<String> = calls
        .iter()
        .enumerate()
        .map(|(index, (id, name))| {
            format!(
                r#"{{"index":{index},"id":"{id}","function":{{"name":"{name}","arguments":"{{}}"}}}}"#
            )
        })
        .collect();
    format!(r#"data: {{"choices":[{{"delta":{{"tool_calls":[{}]}}}}]}}"#, list.join(","))
}

const USAGE: &str = r#"data: {"choices":[],"usage":{"prompt_tokens":7,"completion_tokens":2,"total_tokens":9}}"#;

impl Turn {
    fn new() -> Turn {
        let mut edb = EventDataBase::new();
        new_main(None).initialize(&mut edb, &models()).unwrap();
        let prompt = edb.append(EventBody::UserPrompt("go".into()));
        append_agent_turn(&mut edb, prompt, prompt, AgentTurnState::Started, "");
        let turn = Turn { edb, queue: OrchestratorInputQueue::default(), prompt };
        turn.supported();
        turn
    }

    fn support(&self) -> Result<(), String> {
        let facts = HistoryFacts { branches: None, turns: None, work: None };
        new_main(None).supports_edb(&self.edb, &facts)
    }

    fn supported(&self) {
        assert_eq!(self.support(), Ok(()));
    }

    fn effective(&self) -> Vec<Event> {
        self.edb
            .events
            .iter()
            .filter(|event| {
                !matches!(
                    event.body,
                    EventBody::AgentKindDef(_)
                        | EventBody::SystemPrompt(_)
                        | EventBody::ModelChanged(_)
                        | EventBody::ReasoningEffortChanged(_)
                )
            })
            .map(Event::copy)
            .collect()
    }

    fn begin(&mut self, retry_count: u8) -> Attempt {
        let attempt = begin_attempt(&mut self.edb, self.prompt, retry_count).unwrap();
        self.supported();
        attempt
    }

    fn line(
        &mut self,
        attempt: &mut Attempt,
        response: &mut MainResponseBuffer,
        line: &str,
    ) -> Result<(), String> {
        let effective = self.effective();
        let result =
            on_main_line(attempt, response, &mut self.queue, &mut self.edb, &effective, line);
        self.supported();
        result
    }

    fn end(
        &mut self,
        attempt: &Attempt,
        response: &mut MainResponseBuffer,
        outcome: Result<(), String>,
        sum: u64,
    ) -> (AttemptEnd, Vec<me::buffers::CompletedToolCall>) {
        let effective = self.effective();
        let (end, calls) = end_main_attempt(
            attempt,
            response,
            &catalog(),
            &mut self.queue,
            &mut self.edb,
            &effective,
            outcome,
            sum,
        );
        self.supported();
        (end.unwrap(), calls)
    }

    /// Asks a request that is answered by these tool calls. Their identities are the result.
    fn answered(&mut self, text: &str, calls: &[(&str, &str)]) -> Vec<EventId> {
        let mut attempt = self.begin(0);
        let mut response = MainResponseBuffer::new();
        self.line(&mut attempt, &mut response, &said(text)).unwrap();
        if !calls.is_empty() {
            self.line(&mut attempt, &mut response, &called(calls)).unwrap();
        }
        self.line(&mut attempt, &mut response, USAGE).unwrap();
        self.line(&mut attempt, &mut response, "data: [DONE]").unwrap();
        let (end, asked) = self.end(&attempt, &mut response, Ok(()), 9);
        assert_eq!(end, AttemptEnd::Answered);
        assert_eq!(response.usage.map(|usage| usage.total_tokens), Some(9));
        let traits: Vec<ToolTraits> = asked
            .iter()
            .map(|_| ToolTraits { workmap: false, stores_image: false, requires_image: false })
            .collect();
        let ids =
            record_answer(&attempt, &asked, &traits, response.usage, &mut self.edb, 9).unwrap();
        self.supported();
        ids
    }

    fn succeed(&mut self, tool_call_id: EventId) {
        self.edb.append(EventBody::ToolCallResult(ToolCallResult {
            tool_call_id,
            state: ToolResultState::Succeeded,
            exit_code: None,
            detail: "{}".into(),
        }));
        self.supported();
    }

    fn summary(&mut self, text: &str) -> String {
        let mut attempt = self.begin(0);
        let mut response = CompactResponseBuffer::new();
        let effective = self.effective();
        on_compact_line(
            &mut attempt,
            &mut response,
            &mut self.queue,
            &mut self.edb,
            &effective,
            &said(text),
        )
        .unwrap();
        self.supported();
        let end = end_compact_attempt(
            &attempt,
            &response,
            &mut self.queue,
            &mut self.edb,
            &effective,
            Ok(()),
            0,
        );
        assert_eq!(end, Ok(AttemptEnd::Completed));
        self.supported();
        response.content
    }
}

#[test]
fn a_turn_with_tool_calls_is_supported_at_every_step() {
    let mut turn = Turn::new();
    let ids = turn.answered("one\\ntwo", &[("a", "Terminal_List"), ("b", "Terminal_List")]);
    assert_eq!(ids.len(), 2);
    append_tool_text(&mut turn.edb, ids[0], "Terminal.List", "stdout", "x\n\ny\n").unwrap();
    turn.supported();
    turn.succeed(ids[0]);
    interrupt_tool_batch(&ids, 1, &mut turn.edb).unwrap();
    turn.supported();
    assert!(turn.answered("done", &[]).is_empty());
}

#[test]
fn a_request_that_is_tried_again_is_supported_at_every_step() {
    let mut turn = Turn::new();
    for retry_count in 0..5u8 {
        let mut attempt = turn.begin(retry_count);
        let mut response = MainResponseBuffer::new();
        turn.line(&mut attempt, &mut response, &said("part\\n")).unwrap();
        let (end, _) = turn.end(&attempt, &mut response, Err("broken".into()), 0);
        assert_eq!(end, AttemptEnd::Retry);
        assert_eq!(next_try(&attempt, end), Some(retry_count + 1));
    }
    let attempt = turn.begin(5);
    let mut response = MainResponseBuffer::new();
    let (end, _) = turn.end(&attempt, &mut response, Ok(()), 0);
    assert_eq!(end, AttemptEnd::Interrupted);
    assert_eq!(next_try(&attempt, end), None);
    assert!(turn.answered("after all", &[]).is_empty());
}

#[test]
fn a_turn_that_the_user_ends_is_supported_at_every_step() {
    let mut turn = Turn::new();
    let mut attempt = turn.begin(0);
    let mut response = MainResponseBuffer::new();
    turn.line(&mut attempt, &mut response, USAGE).unwrap();
    turn.queue.push(OrchestratorInput::AbortTurn(turn.prompt));
    turn.queue.request_abort(turn.prompt);
    assert!(turn.line(&mut attempt, &mut response, &said("x")).is_err());
    let (end, _) = turn.end(&attempt, &mut response, Err("user turn aborted".into()), 9);
    assert_eq!(end, AttemptEnd::Aborted);
}

fn planned(stages: &[CompactStage]) -> Vec<StagePlan> {
    stages
        .iter()
        .map(|stage| StagePlan { stage: Some(*stage), prompt: Some("Sum up.".into()) })
        .collect()
}

#[test]
fn a_compaction_is_supported_at_every_step() {
    let mut turn = Turn::new();
    let ids = turn.answered("", &[("a", "Compact")]);
    turn.succeed(ids[0]);
    let plan = planned(&[CompactStage::Analysis, CompactStage::CurrentState]);
    let kind = CompactKind::MainAgentMultiTurn;
    let mut run =
        begin_compact(&mut turn.edb, ids[0], turn.prompt, kind, plan, true).unwrap();
    turn.supported();
    for step in [CompactStep::NextStage, CompactStep::Merge] {
        let content = turn.summary("all is well");
        let next = end_stage(&mut run, &mut turn.edb, StageOutcome::Completed(content));
        assert_eq!(next, Ok(step));
        turn.supported();
    }
    finish_compact(&run, &mut turn.edb, "all is well").unwrap();
    turn.supported();
}

#[test]
fn a_compaction_that_stops_is_supported() {
    let mut turn = Turn::new();
    let ids = turn.answered("", &[("a", "Compact")]);
    turn.succeed(ids[0]);
    let plan = planned(&[CompactStage::Analysis]);
    let kind = CompactKind::MainAgentMultiTurn;
    let mut run =
        begin_compact(&mut turn.edb, ids[0], turn.prompt, kind, plan, true).unwrap();
    let next = end_stage(&mut run, &mut turn.edb, StageOutcome::Failed("no answer".into()));
    assert_eq!(next, Ok(CompactStep::Failed));
    turn.supported();
}

#[test]
fn a_failure_is_written_with_what_follows_it() {
    let mut turn = Turn::new();
    let attempt = turn.begin(0);
    let call = attempt.api_call_id;
    let again = record_api_failure(&mut turn.edb, call, turn.prompt, 0, None, "broken", true);
    assert_eq!(again, Ok(true));
    turn.supported();
    let attempt = turn.begin(1);
    let call = attempt.api_call_id;
    let open = require_api_terminal_before(&turn.edb.events, call, turn.edb.next_id, None);
    assert!(matches!(open, Err(ToolHistoryError::ApiNotEnded { api_call, .. }) if api_call == call));
    let again = record_api_failure(&mut turn.edb, call, turn.prompt, 1, None, "refused", false);
    assert_eq!(again, Ok(false));
    turn.supported();
    let next = turn.edb.next_id;
    assert!(require_api_terminal_before(&turn.edb.events, call, next, None).is_ok());
    let completed =
        require_api_terminal_before(&turn.edb.events, call, next, Some(ApiState::Completed));
    assert!(completed.is_err());
}

#[test]
fn a_chat_is_supported_at_every_step() {
    let supported = |edb: &EventDataBase| {
        let facts = HistoryFacts { branches: None, turns: None, work: None };
        assert_eq!(Chatbot::new(None).supports_edb(edb, &facts), Ok(()));
    };
    let mut edb = EventDataBase::new();
    Chatbot::new(None).initialize(&mut edb, &models()).unwrap();
    let prompt = edb.append(EventBody::UserPrompt("hello".into()));
    append_agent_turn(&mut edb, prompt, prompt, AgentTurnState::Started, "");
    supported(&edb);
    let mut queue = OrchestratorInputQueue::default();
    let mut attempt = begin_attempt(&mut edb, prompt, 0).unwrap();
    supported(&edb);
    let mut response = AssistResponseBuffer::new();
    let effective: Vec<Event> = edb.events.iter().skip(3).map(Event::copy).collect();
    for line in [said("one\\ntwo"), USAGE.to_owned(), "data: [DONE]".to_owned()] {
        on_chat_line(&mut attempt, &mut response, &mut queue, &mut edb, &effective, &line)
            .unwrap();
        supported(&edb);
    }
    let end =
        end_chat_attempt(&attempt, &mut response, &mut queue, &mut edb, &effective, Ok(()), 9);
    assert_eq!(end, Ok(AttemptEnd::Completed));
    supported(&edb);
}

/// A compaction whose two sections are written, and its analysis before them.
fn summed_up() -> (Turn, CompactRun) {
    let mut turn = Turn::new();
    let ids = turn.answered("", &[("a", "Compact")]);
    turn.succeed(ids[0]);
    let plan = planned(&[
        CompactStage::Analysis,
        CompactStage::PrimaryRequest,
        CompactStage::CurrentState,
    ]);
    let kind = CompactKind::MainAgentMultiTurn;
    let mut run = begin_compact(&mut turn.edb, ids[0], turn.prompt, kind, plan, true).unwrap();
    for text in ["analysis", "one", "two"] {
        let content = turn.summary(text);
        end_stage(&mut run, &mut turn.edb, StageOutcome::Completed(content)).unwrap();
    }
    assert_eq!(summary_sections(&run), ["one", "two"]);
    (turn, run)
}

#[test]
fn a_summary_is_that_of_its_sections() {
    let (mut turn, run) = summed_up();
    finish_compact(&run, &mut turn.edb, "one\n\ntwo").unwrap();
    turn.supported();

    for (content, sections, merged) in [
        ("another text", vec!["one", "two"], "one\n\ntwo"),
        ("analysis\n\none\n\ntwo", vec!["analysis", "one", "two"], "analysis\n\none\n\ntwo"),
        ("one", vec!["one"], "one"),
        ("two\n\none", vec!["two", "one"], "two\n\none"),
    ] {
        let (mut turn, run) = summed_up();
        append_compact_terminal(
            &mut turn.edb,
            run.compact_id,
            CompactState::Completed,
            content,
            "",
            sections.into_iter().map(str::to_owned).collect(),
            merged,
        )
        .unwrap();
        assert_eq!(
            turn.support(),
            Err(format!(
                "Compact {} final summary does not match its sections",
                run.compact_id
            ))
        );
    }
}

#[test]
fn a_stage_without_a_name_is_refused() {
    let unnamed = |run: &CompactRun| {
        EventBody::CompactStateUpdate(CompactStateUpdate {
            compact_id: run.compact_id,
            tool_call_id: run.tool_call_id,
            prompt_id: run.prompt_id,
            kind: run.kind,
            total_stages: run.total_stages,
            stage: None,
            state: CompactState::StageCompleted,
            content: "text".into(),
            detail: String::new(),
            accepted_count: true,
            stages: None,
            merged_sections: Vec::new(),
            merged_summary: String::new(),
        })
    };
    let mut turn = Turn::new();
    let ids = turn.answered("", &[("a", "Compact")]);
    turn.succeed(ids[0]);
    let kind = CompactKind::MainAgentMultiTurn;
    let plan = planned(&[CompactStage::Analysis]);
    let run = begin_compact(&mut turn.edb, ids[0], turn.prompt, kind, plan, true).unwrap();
    turn.summary("text");
    let id = turn.edb.append(unnamed(&run));
    assert_eq!(turn.support(), Err(format!("invalid Compact stage event {id}")));

    let (mut turn, run) = summed_up();
    let id = turn.edb.append(unnamed(&run));
    assert_eq!(
        turn.support(),
        Err(format!("Compact stage event {id} has no successful API request"))
    );
    let (mut turn, run) = summed_up();
    turn.summary("text");
    let id = turn.edb.append(unnamed(&run));
    assert_eq!(turn.support(), Err(format!("invalid Compact stage event {id}")));
}
