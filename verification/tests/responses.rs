use me::buffers::{
    completed_response_is_empty, event_usage, AssistResponseBuffer, AssistResponseChunk,
    CompactResponseBuffer, MainResponseBuffer, EMPTY_MODEL_RESPONSE_ERROR,
};
use me::catalog::{ToolName, ToolboxCatalog};
use me::event::{
    ApiState, ApiUsage, Event, EventBody, EventDataBase, EventId, ToolTraits,
};
use me::input_queue::{OrchestratorInput, OrchestratorInputQueue};
use me::json::write_json;
use me::request::{
    begin_attempt, end_chat_attempt, end_compact_attempt, end_main_attempt,
    model_request_error_is_retryable, on_chat_line, on_compact_line, on_main_line, record_answer,
    Attempt, AttemptEnd,
};

fn tool(full: &str) -> ToolName {
    ToolName { full: full.into(), api: full.replace('.', "_") }
}

fn catalog() -> ToolboxCatalog {
    ToolboxCatalog {
        prompt: String::new(),
        definitions: Vec::new(),
        tools: ["Terminal.List", "Terminal.Status", "Compact"].iter().map(|name| tool(name)).collect(),
        disabled: vec![tool("File.ApplyPatch")],
    }
}

fn chunk(content: &str, finished: bool) -> AssistResponseChunk {
    AssistResponseChunk { content: content.into(), finished }
}

#[test]
fn buffers_tokens_until_text_line_or_stream_end() {
    let mut response = AssistResponseBuffer::new();
    assert!(response
        .push(r#"data: {"choices":[{"delta":{"content":"你"}}]}"#)
        .unwrap()
        .is_empty());
    assert!(response
        .push(r#"data: {"choices":[{"delta":{"content":"好"}}]}"#)
        .unwrap()
        .is_empty());
    assert_eq!(response.push("data: [DONE]").unwrap(), vec![chunk("你好", true)]);
    assert!(response.finish().is_empty());

    let mut response = AssistResponseBuffer::new();
    assert!(response
        .push(
            r#"data: {"type":"response.output_item.done","item":{"type":"reasoning","encrypted_content":"opaque","summary":[]}}"#
        )
        .unwrap()
        .is_empty());
    let items = response.take_provider_context_items();
    assert_eq!(items.len(), 1);
    assert_eq!(items[0].0, "codex-oauth");
    let item: serde_json::Value = serde_json::from_str(&write_json(&items[0].1)).unwrap();
    let expected: serde_json::Value = serde_json::from_str(
        r#"{"type": "reasoning", "encrypted_content": "opaque", "summary": []}"#,
    )
    .unwrap();
    assert_eq!(item, expected);

    let mut response = AssistResponseBuffer::new();
    assert_eq!(
        response.push(r#"data: {"choices":[{"delta":{"content":"a\nb\nc"}}]}"#).unwrap(),
        vec![chunk("a\n", false), chunk("b\n", false)]
    );
    assert_eq!(response.finish(), vec![chunk("c", true)]);
}

#[test]
fn response_buffers_track_any_character_across_lines_and_empty_finish() {
    assert!(completed_response_is_empty(false, false));
    assert!(!completed_response_is_empty(true, false));
    assert!(!completed_response_is_empty(false, true));

    let mut empty = MainResponseBuffer::new();
    assert!(empty
        .push(r#"data: {"choices":[{"delta":{"content":""}}]}"#)
        .unwrap()
        .is_empty());
    assert!(empty
        .push(
            r#"data: {"type":"response.output_item.done","item":{"type":"reasoning","encrypted_content":"opaque","summary":[]}}"#
        )
        .unwrap()
        .is_empty());
    assert_eq!(
        empty.push(r#"data: {"type":"response.completed"}"#).unwrap(),
        vec![chunk("", true)]
    );
    assert!(!empty.assistant.has_characters);

    for content in [" ", "\t", "\n", "\0", "\u{200b}"] {
        let mut response = MainResponseBuffer::new();
        let line = format!(
            r#"data: {{"choices":[{{"delta":{{"content":{}}}}}]}}"#,
            serde_json::to_string(content).unwrap()
        );
        response.push(&line).unwrap();
        assert!(
            response.assistant.has_characters,
            "{content:?} must count as assistant text"
        );
        response.push("data: [DONE]").unwrap();
        assert!(response.assistant.has_characters);
    }

    let mut flushed = MainResponseBuffer::new();
    assert_eq!(
        flushed.push(r#"data: {"choices":[{"delta":{"content":"line\n"}}]}"#).unwrap(),
        vec![chunk("line\n", false)]
    );
    assert!(flushed.assistant.has_characters);
    assert_eq!(flushed.push("data: [DONE]").unwrap(), vec![chunk("", true)]);
    assert!(flushed.assistant.has_characters);
}

#[test]
fn response_buffers_keep_the_latest_real_stream_usage() {
    let chat_usage = r#"data: {"choices":[],"usage":{"prompt_tokens":8,"completion_tokens":2,"total_tokens":10}}"#;
    let mut chat = AssistResponseBuffer::new();
    assert!(chat.push(chat_usage).unwrap().is_empty());
    assert_eq!(
        event_usage(chat.usage),
        Some(ApiUsage { input_tokens: 8, output_tokens: 2, total_tokens: 10 })
    );

    let responses_usage = r#"data: {"type":"response.completed","response":{"usage":{"input_tokens":11,"output_tokens":3,"total_tokens":14}}}"#;
    let mut main = MainResponseBuffer::new();
    assert_eq!(main.push(responses_usage).unwrap(), vec![chunk("", true)]);
    assert_eq!(
        event_usage(main.usage),
        Some(ApiUsage { input_tokens: 11, output_tokens: 3, total_tokens: 14 })
    );
}

#[test]
fn main_response_aggregates_streamed_tool_call() {
    let mut response = MainResponseBuffer::new();
    response
        .push(
            r#"data: {"choices":[{"delta":{"tool_calls":[{"index":0,"id":"call-1","function":{"name":"Terminal_","arguments":"{"}}]}}]}"#,
        )
        .unwrap();
    response
        .push(
            r#"data: {"choices":[{"delta":{"tool_calls":[{"index":0,"function":{"name":"List","arguments":"}"}}]}}]}"#,
        )
        .unwrap();
    response.push("data: [DONE]").unwrap();
    let tools = response.complete_tools(&catalog()).unwrap();
    assert_eq!(tools.len(), 1);
    assert_eq!(tools[0].provider_call_id, "call-1");
    assert_eq!(tools[0].name, "Terminal.List");
    assert_eq!(tools[0].arguments, "{}");
}

#[test]
fn main_response_preserves_disabled_apply_patch_for_a_tool_error() {
    let mut response = MainResponseBuffer::new();
    response
        .push(
            r#"data: {"choices":[{"delta":{"tool_calls":[{"index":0,"id":"call-disabled","function":{"name":"File_ApplyPatch","arguments":"{}"}}]}}]}"#,
        )
        .unwrap();
    response.push("data: [DONE]").unwrap();

    let tools = response.complete_tools(&catalog()).unwrap();
    assert_eq!(tools.len(), 1);
    assert_eq!(tools[0].name, "File.ApplyPatch");
    assert_eq!(tools[0].arguments, "{}");
}

#[test]
fn main_response_aggregates_multiple_tool_calls_in_provider_index_order() {
    let mut response = MainResponseBuffer::new();
    response
        .push(
            r#"data: {"choices":[{"delta":{"tool_calls":[{"index":1,"id":"call-2","function":{"name":"Terminal_Sta","arguments":"{"}},{"index":0,"id":"call-1","function":{"name":"Terminal_Li","arguments":"{"}}]}}]}"#,
        )
        .unwrap();
    response
        .push(
            r#"data: {"choices":[{"delta":{"tool_calls":[{"index":0,"function":{"name":"st","arguments":"}"}},{"index":1,"function":{"name":"tus","arguments":"}"}}]}}]}"#,
        )
        .unwrap();
    response.push("data: [DONE]").unwrap();

    let tools = response.complete_tools(&catalog()).unwrap();
    assert_eq!(tools.len(), 2);
    assert_eq!(tools[0].provider_call_id, "call-1");
    assert_eq!(tools[0].name, "Terminal.List");
    assert_eq!(tools[1].provider_call_id, "call-2");
    assert_eq!(tools[1].name, "Terminal.Status");
}

struct Exchange {
    edb: EventDataBase,
    queue: OrchestratorInputQueue,
    prompt: EventId,
    attempt: Attempt,
}

impl Exchange {
    fn new(retry_count: u8) -> Exchange {
        let mut edb = EventDataBase::new();
        let prompt = edb.append(EventBody::UserPrompt("ask".into()));
        let attempt = begin_attempt(&mut edb, prompt, retry_count).unwrap();
        Exchange { edb, queue: OrchestratorInputQueue::default(), prompt, attempt }
    }

    fn effective(&self) -> Vec<Event> {
        self.edb.events.iter().map(Event::copy).collect()
    }

    fn chat(&mut self, response: &mut AssistResponseBuffer, line: &str) -> Result<(), String> {
        let effective = self.effective();
        on_chat_line(
            &mut self.attempt,
            response,
            &mut self.queue,
            &mut self.edb,
            &effective,
            line,
        )
    }

    fn main(&mut self, response: &mut MainResponseBuffer, line: &str) -> Result<(), String> {
        let effective = self.effective();
        on_main_line(
            &mut self.attempt,
            response,
            &mut self.queue,
            &mut self.edb,
            &effective,
            line,
        )
    }

    fn states(&self) -> Vec<ApiState> {
        self.edb
            .events
            .iter()
            .filter_map(|event| match &event.body {
                EventBody::ApiStateUpdate(update) => Some(update.state),
                _ => None,
            })
            .collect()
    }

    fn end_chat(
        &mut self,
        response: &mut AssistResponseBuffer,
        outcome: Result<(), String>,
    ) -> AttemptEnd {
        let effective = self.effective();
        end_chat_attempt(
            &self.attempt,
            response,
            &mut self.queue,
            &mut self.edb,
            &effective,
            outcome,
            0,
        )
        .unwrap()
    }
}

#[test]
fn an_answer_is_written_as_it_comes() {
    let mut exchange = Exchange::new(0);
    let mut response = AssistResponseBuffer::new();
    exchange.chat(&mut response, r#"data: {"choices":[{"delta":{"content":"one\ntwo"}}]}"#).unwrap();
    assert_eq!(exchange.states(), vec![ApiState::Requesting, ApiState::Streaming]);
    exchange.chat(&mut response, "data: [DONE]").unwrap();
    assert_eq!(exchange.end_chat(&mut response, Ok(())), AttemptEnd::Completed);
    assert_eq!(exchange.states().last(), Some(&ApiState::Completed));
    let said: Vec<(&str, bool)> = exchange
        .edb
        .events
        .iter()
        .filter_map(|event| match &event.body {
            EventBody::AssistResponse(part) => Some((part.content.as_str(), part.finished)),
            _ => None,
        })
        .collect();
    assert_eq!(said, vec![("one\n", false), ("two", true)]);
}

#[test]
fn failures_are_tried_again_until_the_limit() {
    assert!(model_request_error_is_retryable("connection reset"));
    assert!(!model_request_error_is_retryable("model m returned 400 Bad Request: no"));

    let mut exchange = Exchange::new(0);
    let mut response = AssistResponseBuffer::new();
    assert_eq!(
        exchange.end_chat(&mut response, Err("connection reset".into())),
        AttemptEnd::Retry
    );
    assert_eq!(
        exchange.states(),
        vec![ApiState::Requesting, ApiState::Error, ApiState::Retrying]
    );

    let mut exchange = Exchange::new(5);
    assert_eq!(
        exchange.end_chat(&mut response, Err("connection reset".into())),
        AttemptEnd::Interrupted
    );
    assert_eq!(exchange.states().last(), Some(&ApiState::Interrupted));

    let mut exchange = Exchange::new(0);
    assert_eq!(
        exchange.end_chat(&mut response, Err("model m returned 400 Bad Request: no".into())),
        AttemptEnd::Interrupted
    );
}

#[test]
fn an_answer_without_a_character_is_a_failure() {
    let mut exchange = Exchange::new(0);
    let mut response = AssistResponseBuffer::new();
    exchange.chat(&mut response, "data: [DONE]").unwrap();
    assert_eq!(exchange.end_chat(&mut response, Ok(())), AttemptEnd::Retry);
    assert!(exchange.edb.events.iter().any(|event| matches!(
        &event.body,
        EventBody::ApiStateUpdate(update)
            if update.state == ApiState::Error && update.detail == EMPTY_MODEL_RESPONSE_ERROR
    )));
}

#[test]
fn stopping_a_stream_keeps_what_came() {
    let mut exchange = Exchange::new(0);
    let mut response = AssistResponseBuffer::new();
    exchange.chat(&mut response, r#"data: {"choices":[{"delta":{"content":"part"}}]}"#).unwrap();
    let prompt = exchange.prompt;
    exchange.queue.push(OrchestratorInput::AbortTurn(prompt));
    exchange.queue.request_abort(prompt);
    let stopped =
        exchange.chat(&mut response, r#"data: {"choices":[{"delta":{"content":"more"}}]}"#);
    assert_eq!(stopped.unwrap_err(), "user turn aborted");
    assert!(exchange.attempt.aborted);
    assert_eq!(
        exchange.end_chat(&mut response, Err("user turn aborted".into())),
        AttemptEnd::Aborted
    );
    assert_eq!(exchange.states().last(), Some(&ApiState::Interrupted));
    assert!(exchange
        .edb
        .events
        .iter()
        .any(|event| matches!(event.body, EventBody::UserTurnAborted(_))));
}

#[test]
fn tool_calls_are_written_with_the_answer() {
    let mut exchange = Exchange::new(0);
    let mut response = MainResponseBuffer::new();
    for line in [
        r#"data: {"choices":[{"delta":{"tool_calls":[{"index":0,"id":"call-1","function":{"name":"Terminal_List","arguments":"{}"}}]}}]}"#,
        "data: [DONE]",
    ] {
        exchange.main(&mut response, line).unwrap();
    }
    let effective = exchange.effective();
    let (end, calls) = end_main_attempt(
        &exchange.attempt,
        &mut response,
        &catalog(),
        &mut exchange.queue,
        &mut exchange.edb,
        &effective,
        Ok(()),
        0,
    );
    assert_eq!(end.unwrap(), AttemptEnd::Answered);
    assert_eq!(calls.len(), 1);
    let traits = vec![ToolTraits { workmap: false, stores_image: false, requires_image: false }];
    let ids =
        record_answer(&exchange.attempt, &calls, &traits, response.usage, &mut exchange.edb, 0)
            .unwrap();
    assert_eq!(ids.len(), 1);
    assert!(matches!(
        &exchange.edb.get(ids[0]).unwrap().body,
        EventBody::ToolCall(call) if call.name == "Terminal.List"
    ));
    assert_eq!(exchange.states().last(), Some(&ApiState::Completed));
}

#[test]
fn a_compaction_call_stands_alone() {
    let mut exchange = Exchange::new(0);
    let mut response = MainResponseBuffer::new();
    for line in [
        r#"data: {"choices":[{"delta":{"tool_calls":[{"index":0,"id":"a","function":{"name":"Terminal_List","arguments":"{}"}},{"index":1,"id":"b","function":{"name":"Compact","arguments":"{}"}}]}}]}"#,
        "data: [DONE]",
    ] {
        exchange.main(&mut response, line).unwrap();
    }
    let effective = exchange.effective();
    let (end, _) = end_main_attempt(
        &exchange.attempt,
        &mut response,
        &catalog(),
        &mut exchange.queue,
        &mut exchange.edb,
        &effective,
        Ok(()),
        0,
    );
    assert_eq!(end.unwrap(), AttemptEnd::Retry);
}

#[test]
fn a_summary_calls_no_tool() {
    let mut exchange = Exchange::new(5);
    let mut response = CompactResponseBuffer::new();
    let effective = exchange.effective();
    on_compact_line(
        &mut exchange.attempt,
        &mut response,
        &mut exchange.queue,
        &mut exchange.edb,
        &effective,
        r#"data: {"choices":[{"delta":{"tool_calls":[{"index":0,"id":"a","function":{"name":"Compact","arguments":"{}"}}]}}]}"#,
    )
    .unwrap();
    assert!(response.called_tool);
    let effective = exchange.effective();
    let end = end_compact_attempt(
        &exchange.attempt,
        &response,
        &mut exchange.queue,
        &mut exchange.edb,
        &effective,
        Ok(()),
        0,
    )
    .unwrap();
    assert_eq!(end, AttemptEnd::Interrupted);
}

fn streamed(content: &str) -> String {
    let text = serde_json::Value::String(content.into());
    format!(r#"data: {{"choices":[{{"delta":{{"content":{text}}}}}]}}"#)
}

#[test]
fn the_pieces_joined_are_the_text_joined() {
    let pieces = ["on", "e\ntw", "", "o\n\nthr", "ee\n", "four"];
    let mut by_text = AssistResponseBuffer::new();
    let mut by_line = AssistResponseBuffer::new();
    let mut with_tools = MainResponseBuffer::new();
    let mut out: Vec<AssistResponseChunk> = Vec::new();
    for piece in pieces {
        let given = by_text.push_content(piece);
        assert_eq!(by_line.push(&streamed(piece)).unwrap(), given);
        assert_eq!(with_tools.push(&streamed(piece)).unwrap(), given);
        out.extend(given);
    }
    assert_eq!(out.len(), 4);
    let last = by_text.finish();
    assert_eq!(by_line.push("data: [DONE]").unwrap(), last);
    assert_eq!(with_tools.push("data: [DONE]").unwrap(), last);
    assert_eq!(last, vec![chunk("four", true)]);
    out.extend(last);
    let joined: String = out.iter().map(|chunk| chunk.content.as_str()).collect();
    assert_eq!(joined, pieces.concat());
}
