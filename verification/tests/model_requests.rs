use me::config::{ModelCapabilities, ModelConfig, ProviderType, UNSET_EFFORT};
use me::json::{parse_json, write_json, Json};
use me::model::{clamp_output_limit, responses_input, responses_tools, ModelContext};
use me::model_api::{
    codex_reply, parameters_of, toml_table_to_json, validate_effort, CodexReply, ModelApi,
    ModelRuntime, StreamWatch,
};
use me::stream::{
    openai_stream_event, openai_stream_usage, ModelUsage, OpenAiStreamEvent, OpenAiToolCallDelta,
};

fn value(json: &Json) -> serde_json::Value {
    serde_json::from_str(&write_json(json)).unwrap()
}

fn json(text: &str) -> Json {
    parse_json(text).unwrap()
}

fn parameters(text: &str) -> Json {
    let table: toml::Table = toml::from_str(text).unwrap();
    toml_table_to_json(&table).unwrap()
}

fn config() -> ModelConfig {
    ModelConfig {
        name: "test".into(),
        provider: ProviderType::OpenaiCompatible,
        reserve_output_context: true,
        base_url: "https://example.com/v1".into(),
        endpoint: "/chat/completions".into(),
        api_key: Some("key".into()),
        api_key_env: None,
        credential_file: None,
        model: "api-model".into(),
        source_url: None,
        timeout_seconds: 1,
        capabilities: ModelCapabilities {
            context_window: 128_000,
            max_output_tokens: None,
            reasoning_efforts: vec!["high".into()],
            input_modalities: vec!["text".into()],
        },
        parameters: parameters("max_tokens = 32"),
        effort_parameters: Json::object().with("high", parameters("reasoning_effort = \"high\"")),
    }
}

fn codex_config() -> ModelConfig {
    ModelConfig {
        name: "gpt-5.6-sol".into(),
        provider: ProviderType::CodexOauth,
        reserve_output_context: false,
        base_url: "https://chatgpt.com/backend-api/codex".into(),
        endpoint: "/responses".into(),
        api_key: None,
        api_key_env: None,
        credential_file: Some("/config/me/codex/auth.json".into()),
        model: "gpt-5.6-sol".into(),
        source_url: None,
        timeout_seconds: 1,
        capabilities: ModelCapabilities {
            context_window: 512_000,
            max_output_tokens: Some(128_000),
            reasoning_efforts: vec!["high".into()],
            input_modalities: vec!["text".into()],
        },
        parameters: Json::object(),
        effort_parameters: Json::object(),
    }
}

fn content_of(event: OpenAiStreamEvent) -> (Option<String>, Vec<OpenAiToolCallDelta>) {
    match event {
        OpenAiStreamEvent::Delta { content, tool_calls } => (content, tool_calls),
        other => panic!("unexpected event {other:?}"),
    }
}

#[test]
fn request_body_merges_parameters() {
    let api = ModelApi::new(config()).unwrap();
    let body = value(&api.request_body(&ModelContext::user("hello"), Some("high"), true).unwrap());
    assert_eq!(body["model"], "api-model");
    assert_eq!(body["max_tokens"], 32);
    assert_eq!(body["reasoning_effort"], "high");
    assert_eq!(body["stream"], true);
    assert_eq!(body["stream_options"]["include_usage"], true);
    assert!(body.get("tools").is_none());
}

#[test]
fn output_reservation_uses_the_actual_request_parameter_and_explicit_policy() {
    let mut configured = config();
    configured.effort_parameters.insert("high", parameters("max_tokens = 16"));
    let api = ModelApi::new(configured).unwrap();
    assert_eq!(api.output_token_reservation(None), 32);
    assert_eq!(api.output_token_reservation(Some("high")), 16);

    let codex = codex_config();
    assert_eq!(ModelApi::new(codex).unwrap().output_token_reservation(Some("high")), 0);

    let mut capability_reserved = codex_config();
    capability_reserved.reserve_output_context = true;
    assert_eq!(
        ModelApi::new(capability_reserved).unwrap().output_token_reservation(Some("high")),
        128_000
    );

    let mut explicitly_reserved = codex_config();
    explicitly_reserved.reserve_output_context = true;
    explicitly_reserved.parameters = parameters("max_output_tokens = 999");
    assert_eq!(
        ModelApi::new(explicitly_reserved).unwrap().output_token_reservation(Some("high")),
        999
    );
}

#[test]
fn output_limit_only_clamps_existing_request_parameters() {
    let mut body = json(r#"{"max_tokens": 393216, "temperature": 0.2}"#);
    clamp_output_limit(&mut body, 233_221).unwrap();
    let body = value(&body);
    assert_eq!(body["max_tokens"], 233_221);
    assert_eq!(body["temperature"], 0.2);

    let mut body = json(r#"{"temperature": 0.2}"#);
    clamp_output_limit(&mut body, 100).unwrap();
    assert!(value(&body).get("max_tokens").is_none());
}

#[test]
fn multimodal_messages_translate_to_codex_responses() {
    let data_url = format!("data:image/png;base64,{}", "A".repeat(200_000));
    let mut context = ModelContext::default();
    context.push_value(json(&format!(
        r#"{{"role":"user","content":[{{"type":"text","text":"inspect"}},{{"type":"image_url","image_url":{{"url":"{data_url}"}}}}]}}"#
    )));
    let (_, input) = responses_input(&context.messages).unwrap();
    let first = value(&input[0]);
    assert_eq!(first["content"][0]["type"], "input_text");
    assert_eq!(first["content"][1]["type"], "input_image");
    assert!(first["content"][1]["image_url"]
        .as_str()
        .unwrap()
        .starts_with("data:image/png;base64,"));
}

#[test]
fn openai_compatible_allows_multiple_tool_calls_per_response() {
    let api = ModelApi::new(config()).unwrap();
    let mut context = ModelContext::user("run both");
    context.tools.push(json(
        r#"{"type":"function","function":{"name":"First","description":"first","parameters":{"type":"object"}}}"#,
    ));

    let body = value(&api.request_body(&context, None, true).unwrap());
    assert_eq!(body["parallel_tool_calls"], true);
}

#[test]
fn streaming_usage_option_preserves_other_configured_options() {
    let mut config = config();
    config.parameters.insert("stream_options", parameters("vendor_flag = true"));
    let api = ModelApi::new(config).unwrap();
    let body = value(&api.request_body(&ModelContext::user("hello"), None, true).unwrap());
    assert_eq!(body["stream_options"]["include_usage"], true);
    assert_eq!(body["stream_options"]["vendor_flag"], true);
}

#[test]
fn non_streaming_request_does_not_request_stream_usage() {
    let api = ModelApi::new(config()).unwrap();
    let body = value(&api.request_body(&ModelContext::user("hello"), None, false).unwrap());
    assert!(body.get("stream_options").is_none());
}

#[test]
fn unset_effort_omits_provider_reasoning_parameters() {
    let api = ModelApi::new(config()).unwrap();
    let body =
        value(&api.request_body(&ModelContext::user("hello"), Some(UNSET_EFFORT), true).unwrap());
    assert!(body.get("reasoning_effort").is_none());
    assert_eq!(body["max_tokens"], 32);

    let api = ModelApi::new(codex_config()).unwrap();
    let body =
        value(&api.request_body(&ModelContext::user("hello"), Some(UNSET_EFFORT), true).unwrap());
    assert!(body.get("reasoning").is_none());
    assert_eq!(body["model"], "gpt-5.6-sol");
}

#[test]
fn model_runtime_switches_only_to_catalog_models() {
    let mut second = config();
    second.name = "second".into();
    second.model = "api-second".into();
    let mut runtime = ModelRuntime::new(vec![config(), second], "test").unwrap();
    assert_eq!(runtime.active_model().name, "test");
    runtime.activate("second").unwrap();
    assert_eq!(runtime.active_model().model, "api-second");
    assert!(runtime.activate("missing").is_err());
    assert_eq!(runtime.active_model().name, "second");
}

#[test]
fn parses_openai_stream_event() {
    let line = r#"data: {"choices":[{"delta":{"content":"ok"}}]}"#;
    let (content, tool_calls) = content_of(openai_stream_event(line).unwrap());
    assert_eq!(content, Some("ok".to_owned()));
    assert_eq!(tool_calls, Vec::new());
    assert!(matches!(openai_stream_event("data: [DONE]").unwrap(), OpenAiStreamEvent::Done));
    let error = openai_stream_event(r#"data: {"choices":[{"delta":{},"finish_reason":"length"}]}"#)
        .unwrap_err();
    assert_eq!(error, "model response was truncated at the output token limit");
}

#[test]
fn parses_chat_and_responses_stream_usage() {
    assert_eq!(
        openai_stream_usage(
            r#"data: {"choices":[],"usage":{"prompt_tokens":8,"completion_tokens":2,"total_tokens":10}}"#
        )
        .unwrap(),
        Some(ModelUsage { input_tokens: 8, output_tokens: 2, total_tokens: 10 })
    );
    assert_eq!(
        openai_stream_usage(
            r#"data: {"type":"response.completed","response":{"usage":{"input_tokens":11,"output_tokens":3,"total_tokens":14}}}"#
        )
        .unwrap(),
        Some(ModelUsage { input_tokens: 11, output_tokens: 3, total_tokens: 14 })
    );
    assert_eq!(
        openai_stream_usage(r#"data: {"usage":{"input_tokens":5,"output_tokens":1}}"#).unwrap(),
        Some(ModelUsage { input_tokens: 5, output_tokens: 1, total_tokens: 6 })
    );
    assert_eq!(openai_stream_usage("data: [DONE]").unwrap(), None);
    assert_eq!(
        openai_stream_usage(r#"data: {"choices":[{"delta":{"content":"OK"}}]}"#).unwrap(),
        None
    );
}

#[test]
fn parses_streamed_tool_call_delta() {
    let line = r#"data: {"choices":[{"delta":{"tool_calls":[{"index":0,"id":"call-1","function":{"name":"Terminal_Interact","arguments":"{\"session_id\":"}}]}}]}"#;
    let (content, tool_calls) = content_of(openai_stream_event(line).unwrap());
    assert_eq!(content, None);
    assert_eq!(
        tool_calls,
        vec![OpenAiToolCallDelta {
            index: 0,
            id: Some("call-1".into()),
            name: Some("Terminal_Interact".into()),
            arguments: Some("{\"session_id\":".into()),
        }]
    );
}

#[test]
fn codex_request_translates_messages_tools_and_effort_to_responses() {
    let api = ModelApi::new(codex_config()).unwrap();
    let mut context = ModelContext::default();
    context.push("system", "system");
    context.push("user", "run it");
    context.push_value(json(
        r#"{"role":"assistant","content":"working","tool_calls":[{"id":"call-1","type":"function","function":{"name":"Terminal_Interact","arguments":"{\"input\":\"pwd\"}"}}]}"#,
    ));
    context.push_value(json(
        r#"{"role":"tool","tool_call_id":"call-1","content":"/workspace"}"#,
    ));
    context.tools.push(json(
        r#"{"type":"function","function":{"name":"Terminal_Interact","description":"Interact with a terminal","parameters":{"type":"object"}}}"#,
    ));

    let body = value(&api.request_body(&context, Some("high"), true).unwrap());
    assert_eq!(body["model"], "gpt-5.6-sol");
    assert_eq!(body["instructions"], "system");
    assert_eq!(body["stream"], true);
    assert_eq!(body["store"], false);
    assert!(body.get("max_output_tokens").is_none());
    assert_eq!(body["include"][0], "reasoning.encrypted_content");
    assert_eq!(body["reasoning"]["effort"], "high");
    assert_eq!(body["input"][0]["content"][0]["type"], "input_text");
    assert_eq!(body["input"][1]["content"][0]["type"], "output_text");
    assert_eq!(body["input"][2]["type"], "function_call");
    assert_eq!(body["input"][2]["call_id"], "call-1");
    assert_eq!(body["input"][3]["type"], "function_call_output");
    assert_eq!(body["tools"][0]["type"], "function");
    assert_eq!(body["tools"][0]["name"], "Terminal_Interact");
    assert_eq!(body["parallel_tool_calls"], true);
}

#[test]
fn parses_codex_responses_text_tool_completion_and_failure() {
    let (content, tool_calls) = content_of(
        openai_stream_event(r#"data: {"type":"response.output_text.delta","delta":"hello"}"#)
            .unwrap(),
    );
    assert_eq!(content, Some("hello".to_owned()));
    assert_eq!(tool_calls, Vec::new());

    let (content, tool_calls) = content_of(
        openai_stream_event(
            r#"data: {"type":"response.output_item.done","output_index":2,"item":{"type":"function_call","call_id":"call-9","name":"Terminal_Create","arguments":"{\"command\":\"pwd\"}"}}"#,
        )
        .unwrap(),
    );
    assert_eq!(content, None);
    assert_eq!(
        tool_calls,
        vec![OpenAiToolCallDelta {
            index: 2,
            id: Some("call-9".into()),
            name: Some("Terminal_Create".into()),
            arguments: Some(r#"{"command":"pwd"}"#.into()),
        }]
    );
    assert!(matches!(
        openai_stream_event(r#"data: {"type":"response.completed","response":{"id":"r"}}"#)
            .unwrap(),
        OpenAiStreamEvent::Done
    ));
    match openai_stream_event(
        r#"data: {"type":"response.output_item.done","item":{"type":"reasoning","encrypted_content":"opaque","summary":[]}}"#,
    )
    .unwrap()
    {
        OpenAiStreamEvent::ProviderContextItem { provider, item } => {
            assert_eq!(provider, "codex-oauth");
            assert_eq!(
                value(&item),
                value(&json(r#"{"type":"reasoning","encrypted_content":"opaque","summary":[]}"#))
            );
        }
        other => panic!("unexpected event {other:?}"),
    }
    let error = openai_stream_event(
        r#"data: {"type":"response.failed","response":{"error":{"message":"denied"}}}"#,
    )
    .unwrap_err();
    assert_eq!(error, "denied");
}

#[test]
fn codex_context_keeps_system_only_in_instructions() {
    let api = ModelApi::new(codex_config()).unwrap();
    let mut context = ModelContext::default();
    context.push("system", "one");
    context.push("system", "two");
    context.push("user", "hello");
    let body = value(&api.request_body(&context, None, true).unwrap());
    assert_eq!(body["instructions"], "one\n\ntwo");
    assert!(body["input"].as_array().unwrap().iter().all(|item| item["role"] != "system"));
}

#[test]
fn openai_compatible_filters_codex_provider_context_items() {
    let api = ModelApi::new(config()).unwrap();
    let mut context = ModelContext::user("hello");
    context.push_value(json(
        r#"{"_me_provider":"codex-oauth","item":{"type":"reasoning","encrypted_content":"opaque","summary":[]}}"#,
    ));
    let body = value(&api.request_body(&context, None, true).unwrap());
    assert_eq!(body["messages"].as_array().unwrap().len(), 1);
    assert_eq!(body["messages"][0]["content"], "hello");
}

#[test]
fn efforts_that_a_model_does_not_take_are_refused() {
    assert!(validate_effort(&config(), "high").is_ok());
    assert!(validate_effort(&config(), UNSET_EFFORT).is_ok());
    assert!(validate_effort(&config(), "extreme").is_err());
    let api = ModelApi::new(config()).unwrap();
    assert!(api.request_body(&ModelContext::user("hello"), Some("extreme"), true).is_err());
}

#[test]
fn tables_of_parameters_keep_their_values() {
    let table: toml::Table =
        toml::from_str("a = 1\nb = [true, \"x\"]\n[c]\nd = -2\n").unwrap();
    let held = value(&toml_table_to_json(&table).unwrap());
    assert_eq!(held["a"], 1);
    assert_eq!(held["b"][0], true);
    assert_eq!(held["b"][1], "x");
    assert_eq!(held["c"]["d"], -2);
    assert_eq!(parameters_of(json("[1]")).unwrap_err(), "model parameters must be a table");
    assert_eq!(value(&parameters_of(json(r#"{"a":1}"#)).unwrap())["a"], 1);
}

#[test]
fn request_bodies_that_are_no_objects_cannot_be_clamped() {
    let mut body = json("3");
    assert_eq!(
        clamp_output_limit(&mut body, 1).unwrap_err(),
        "model request body must be an object"
    );
}

#[test]
fn a_limit_lowers_every_bound_and_raises_none() {
    let mut body = json(r#"{"max_tokens":10,"max_completion_tokens":500,"max_output_tokens":200}"#);
    clamp_output_limit(&mut body, 100).unwrap();
    let body = value(&body);
    assert_eq!(body["max_tokens"], 10);
    assert_eq!(body["max_completion_tokens"], 100);
    assert_eq!(body["max_output_tokens"], 100);
}

#[test]
fn tools_without_a_name_do_not_translate() {
    assert!(responses_tools(&vec![json(r#"{"type":"function","function":{}}"#)]).is_err());
    let tools = responses_tools(&vec![json(
        r#"{"type":"function","function":{"name":"A","description":"b","parameters":{"type":"object"}}}"#,
    )])
    .unwrap();
    assert_eq!(value(&tools[0])["name"], "A");
    assert_eq!(value(&tools[0])["parameters"]["type"], "object");
}

#[test]
fn a_codex_stream_must_come_to_its_end() {
    let mut watch = StreamWatch::new(ProviderType::CodexOauth);
    assert_eq!(watch.on_line("").unwrap(), false);
    assert_eq!(
        watch.on_line(r#"data: {"type":"response.output_text.delta","delta":"x"}"#).unwrap(),
        true
    );
    assert_eq!(
        watch.finish().unwrap_err(),
        "Codex Responses stream closed before response.completed"
    );
    watch.on_line(r#"data: {"type":"response.completed","response":{}}"#).unwrap();
    assert!(watch.finish().is_ok());
    assert!(StreamWatch::new(ProviderType::OpenaiCompatible).finish().is_ok());
}

#[test]
fn a_codex_login_is_refreshed_once() {
    assert_eq!(codex_reply(401, false), CodexReply::Refresh);
    assert_eq!(codex_reply(401, true), CodexReply::Refused);
    assert_eq!(codex_reply(200, false), CodexReply::Accepted);
    assert_eq!(codex_reply(500, false), CodexReply::Refused);
}

#[test]
fn unimplemented_providers_and_missing_models_are_refused() {
    let mut anthropic = config();
    anthropic.name = "other".into();
    anthropic.provider = ProviderType::Anthropic;
    assert!(ModelApi::new(anthropic.copy()).is_err());
    let runtime = ModelRuntime::new(vec![config(), anthropic], "test").unwrap();
    assert!(runtime.validate_activation("other").is_err());
    assert!(runtime.validate_activation("test").is_ok());
    assert!(runtime.model("nobody").is_none());
    assert_eq!(runtime.api().model_name(), "test");
    assert_eq!(runtime.api().endpoint(), "https://example.com/v1/chat/completions");
}

#[test]
fn a_second_limit_of_the_same_height_changes_nothing() {
    let mut body = json(
        r#"{"max_tokens": 500, "max_completion_tokens": 90, "max_output_tokens": 101, "stream": true}"#,
    );
    clamp_output_limit(&mut body, 100).unwrap();
    let once = value(&body);
    assert_eq!(once["max_tokens"], 100);
    assert_eq!(once["max_completion_tokens"], 90);
    assert_eq!(once["max_output_tokens"], 100);
    clamp_output_limit(&mut body, 100).unwrap();
    assert_eq!(value(&body), once);
}
