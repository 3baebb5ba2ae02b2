use codex_mp::bridge::{
    bind_chat_request, bind_chat_response, chat_sse_model, chat_to_responses,
    chat_to_responses_with_request, error_response, inject_openai_stream_include_usage,
    is_openai_o_series, portable_request, record_portable_response, responses_to_chat,
    supports_reasoning_effort, BridgeContext, BridgeError, RouteDomain,
};
use codex_mp::json::{Json, Number};
use codex_mp::json_text::parse_json;
use codex_mp::routes::bridge_error_response;

fn json(text: &str) -> Json {
    parse_json(text.as_bytes()).expect("valid JSON")
}

fn context() -> BridgeContext {
    BridgeContext {
        route_id: "custom:test".into(),
        generation: 7,
        domain: RouteDomain::Custom,
        account_fingerprint: None,
        upstream_model: "provider-model".into(),
    }
}

fn done<T>(result: Result<T, BridgeError>) -> T {
    match result {
        Ok(value) => value,
        Err(error) => panic!("{}", error.message()),
    }
}

fn refused<T>(result: Result<T, BridgeError>) -> BridgeError {
    match result {
        Ok(_) => panic!("the operation was accepted"),
        Err(error) => error,
    }
}

fn items<'a>(value: &'a Json, key: &str) -> &'a Vec<Json> {
    value.field(key).expect("a field").items().expect("an array")
}

#[test]
fn bridge_preserves_tool_context_and_changes_only_upstream_model() {
    let request = json(
        r#"{"model": "custom/logical", "instructions": "be precise",
            "input": [{"type":"message","role":"user","content":[{"type":"input_text","text":"hi"}]}],
            "tools": [{"type":"function","name":"shell","parameters":{"type":"object"}}],
            "stream": true}"#,
    );
    let bound = done(bind_chat_request(request.copy(), &context()));
    assert_eq!(bound.text_field("model"), Some("provider-model"));
    assert_eq!(bound.text_field("instructions"), Some("be precise"));
    assert_eq!(items(&bound, "tools")[0].text_field("name"), Some("shell"));
    assert_eq!(bound.field("stream").unwrap().as_truth(), Some(true));

    let converted = json(r#"{"model": "provider-model", "messages": []}"#);
    let output = done(responses_to_chat(request.copy(), &context(), Ok(converted)));
    assert_eq!(output.text_field("model"), Some("provider-model"));
    let failed = refused(responses_to_chat(request, &context(), Err("no".into())));
    assert_eq!(failed.message(), "context boundary: no");
}

#[test]
fn chat_to_responses_echoes_logical_model_instead_of_upstream_model() {
    let context = context();
    let request = json(r#"{"model": "custom/logical"}"#);
    let response = json(
        r#"{"id": "chatcmpl_1", "object": "chat.completion", "model": "provider-model",
            "choices": [{"index": 0, "message": {"role": "assistant", "content": "hi"}, "finish_reason": "stop"}]}"#,
    );
    let bound = done(bind_chat_response(response.copy(), &context, &request));
    assert_eq!(
        bound.text_field("model"),
        Some("custom/logical"),
        "Codex correlates on the logical model id it requested"
    );
    let output = done(chat_to_responses_with_request(response, &context, &request, Ok(bound)));
    assert_eq!(output.text_field("model"), Some("custom/logical"));
}

#[test]
fn streaming_responses_echo_logical_model_instead_of_upstream_model() {
    let model = done(chat_sse_model(&context(), &json(r#"{"model": "custom/logical"}"#)));
    assert_eq!(model.as_deref(), Some("custom/logical"));
    assert!(done(chat_sse_model(&context(), &json(r#"{"model": ""}"#))).is_none());
}

#[test]
fn portable_request_rejects_hosted_tool_and_removes_private_id() {
    let request = json(
        r#"{"previous_response_id": "resp_private", "input": [{"type":"web_search_call","id":"call_private"}]}"#,
    );
    let error = refused(portable_request(&request)).message();
    assert!(error.contains("hosted tool"));
    assert!(!error.contains("resp_private"));
}

#[test]
fn portable_requests_lose_their_private_ids() {
    let request = json(
        r#"{"model": "m", "previous_response_id": "p", "conversation": "c", "encrypted_content": "e",
            "prompt_cache_key": "k", "safety_identifier": "s",
            "input": [{"type": "reasoning", "id": "r", "encrypted_content": "x", "summary": ["s"]},
                      {"type": "function_call", "id": "f", "status": "done", "call_id": "c1"},
                      {"type": "message", "id": "m1"}]}"#,
    );
    let output = done(portable_request(&request));
    for key in
        ["previous_response_id", "conversation", "encrypted_content", "prompt_cache_key", "safety_identifier"]
    {
        assert!(output.field(key).is_none(), "{key}");
    }
    let input = items(&output, "input");
    assert!(input[0].field("id").is_none() && input[0].field("encrypted_content").is_none());
    assert!(input[1].field("id").is_none() && input[1].field("status").is_none());
    assert_eq!(input[1].text_field("call_id"), Some("c1"));
    assert_eq!(input[2].text_field("id"), Some("m1"));

    let opaque = json(r#"{"input": [{"type": "reasoning", "summary": []}]}"#);
    assert!(refused(portable_request(&opaque)).message().contains("no portable summary"));
    assert!(matches!(refused(portable_request(&json("3"))), BridgeError::NotObject));
}

#[test]
fn recorded_responses_are_scrubbed() {
    let response = json(
        r#"{"id": "resp", "output": [{"type": "web_search_call"}, {"type": "reasoning", "id": "r", "encrypted_content": "x"},
            {"type": "tool_search_call", "id": "t", "status": "s"}, {"type": "message", "id": "m"}]}"#,
    );
    let kept = record_portable_response(&response);
    let output = items(&kept, "output");
    assert_eq!(output.len(), 3);
    assert!(output[0].field("id").is_none() && output[0].field("encrypted_content").is_none());
    assert!(output[1].field("id").is_none() && output[1].field("status").is_none());
    assert_eq!(output[2].text_field("id"), Some("m"));
    assert_eq!(kept.text_field("id"), Some("resp"));
    assert_eq!(record_portable_response(&json("7")).as_unsigned(), Some(7));
}

#[test]
fn incomplete_and_official_contexts_are_refused() {
    let mut blank = context();
    blank.route_id = "  ".into();
    assert!(blank.validate().is_err());
    assert!(context().validate().is_ok());
    let mut official = context();
    official.domain = RouteDomain::Official;
    let error = refused(bind_chat_request(json("{}"), &official));
    assert_eq!(
        error.message(),
        "context boundary: official requests cannot enter the Chat adapter"
    );
    let error = refused(bind_chat_response(json("{}"), &official, &json("{}")));
    assert_eq!(
        error.message(),
        "context boundary: official responses cannot be decoded as Chat"
    );
    assert!(refused(chat_sse_model(&official, &json("{}"))).message().contains("official"));
    assert!(matches!(
        refused(bind_chat_request(json("[]"), &context())),
        BridgeError::NotObject
    ));
    let error = refused(bind_chat_response(json("[]"), &context(), &json("{}")));
    assert_eq!(error.message(), "invalid upstream response: Chat response must be an object");
    let error = refused(chat_to_responses(json("{}"), &context(), Err("bad".into())));
    assert_eq!(error.message(), "invalid upstream response: bad");
}

#[test]
fn without_a_requested_model_the_upstream_name_is_used() {
    let bound = done(bind_chat_response(json("{}"), &context(), &Json::Null));
    assert_eq!(bound.text_field("model"), Some("provider-model"));
}

#[test]
fn reasoning_models_are_known_by_their_names() {
    assert!(is_openai_o_series("o3-mini"));
    assert!(!is_openai_o_series("o"));
    assert!(!is_openai_o_series("omni"));
    for model in ["o1", "O4-mini", "GPT-5", "gpt-9x", "grok-4.5-fast", "grok-build-1"] {
        assert!(supports_reasoning_effort(model), "{model}");
    }
    for model in ["gpt-4o", "gpt-", "gpt-x", "grok-4", "mistral"] {
        assert!(!supports_reasoning_effort(model), "{model}");
    }
}

#[test]
fn streams_ask_for_usage() {
    let mut value = json(r#"{"stream": true, "stream_options": {"a": 1}}"#);
    inject_openai_stream_include_usage(&mut value);
    let options = value.field("stream_options").unwrap();
    assert_eq!(options.field("include_usage").unwrap().as_truth(), Some(true));
    assert_eq!(options.field("a").unwrap().as_unsigned(), Some(1));
    let mut value = json(r#"{"stream": true}"#);
    inject_openai_stream_include_usage(&mut value);
    assert!(value.field("stream_options").is_some());
    let mut value = json(r#"{"stream": false}"#);
    inject_openai_stream_include_usage(&mut value);
    assert!(value.field("stream_options").is_none());
    let mut value = json(r#"{"stream": true, "stream_options": 3}"#);
    inject_openai_stream_include_usage(&mut value);
    assert_eq!(value.field("stream_options").unwrap().as_unsigned(), Some(3));
}

#[test]
fn bridge_errors_have_their_statuses_and_messages() {
    let cases = vec![
        (BridgeError::NotObject, 400, "request must be a JSON object"),
        (BridgeError::ContextBoundary("x".into()), 400, "context boundary: x"),
        (BridgeError::InvalidResponse("x".into()), 502, "invalid upstream response: x"),
        (BridgeError::InvalidSse("x".into()), 502, "invalid SSE stream: x"),
        (BridgeError::MissingChoice, 502, "missing Chat Completions choice"),
        (BridgeError::Unsupported("x".into()), 400, "unsupported protocol bridge operation: x"),
        (BridgeError::TransformError("x".into()), 502, "protocol transformation failed: x"),
    ];
    for (error, status, message) in cases {
        assert_eq!(error.message(), message);
        assert_eq!(bridge_error_response(error).status, status);
    }
    let object = error_response("kind", "text");
    assert_eq!(object.field("error").unwrap().text_field("type"), Some("kind"));
    assert_eq!(object.field("error").unwrap().text_field("message"), Some("text"));
}

#[test]
fn json_is_read_as_it_is_written() {
    let value = json(r#"{"a": [1, -2, 1.5, null, true, "xé"], "b": {"c": 18446744073709551615}}"#);
    let list = items(&value, "a");
    assert_eq!(list[0].as_unsigned(), Some(1));
    assert_eq!(list[1].as_signed(), Some(-2));
    assert!(matches!(&list[2], Json::Number(Number::Other(s)) if s == "1.5"));
    assert!(matches!(list[3], Json::Null));
    assert_eq!(list[4].as_truth(), Some(true));
    assert_eq!(list[5].text(), Some("x\u{e9}"));
    assert_eq!(value.field("b").unwrap().field("c").unwrap().as_unsigned(), Some(u64::MAX));
    assert!(parse_json(b"{\"accounts\": [broken").unwrap_err().contains("expected value"));
    let changed = value.with("a", Json::Null).without("b").with("a", Json::Bool(false));
    assert_eq!(changed.field("a").unwrap().as_truth(), Some(false));
    assert!(changed.field("b").is_none());
}
