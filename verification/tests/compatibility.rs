use codex_mp::compatibility::{
    chat_to_responses_request, prepare_chat_request, prepare_responses_request,
    prepare_with_report, responses_to_chat_request, CompatibilityError,
};
use codex_mp::json::Json;
use codex_mp::json_text::parse_json;
use codex_mp::registry::CustomModel;

fn json(text: &str) -> Json {
    parse_json(text.as_bytes()).expect("valid JSON")
}

fn model() -> CustomModel {
    CustomModel::new("qwen", "qwen3.8", "Qwen / Qwen3.8")
}

fn items<'a>(value: &'a Json, key: &str) -> &'a Vec<Json> {
    value.field(key).expect("a field").items().expect("an array")
}

fn refused(result: Result<Json, CompatibilityError>) -> String {
    match result {
        Ok(_) => panic!("the request was accepted"),
        Err(error) => error.message(),
    }
}

fn accepted(result: Result<Json, CompatibilityError>) -> Json {
    match result {
        Ok(value) => value,
        Err(error) => panic!("{}", error.message()),
    }
}

#[test]
fn preserves_visible_history_and_drops_encrypted_reasoning() {
    let mut request = json(
        r#"{
            "model": "qwen/qwen3.8",
            "previous_response_id": "resp_official",
            "input": [
                {"type": "message", "role": "user", "content": [{"type": "input_text", "text": "continue"}]},
                {"type": "reasoning", "id": "rs_1", "encrypted_content": "secret", "summary": [{"type": "summary_text", "text": "looked at files"}]}
            ],
            "tools": [{"type": "function", "name": "shell"}]
        }"#,
    );
    let output = accepted(prepare_responses_request(&mut request, &model()));
    assert_eq!(output.text_field("model"), Some("qwen3.8"));
    assert!(output.field("previous_response_id").is_none());
    let input = items(&output, "input");
    assert_eq!(input.len(), 2);
    assert!(input.iter().all(|item| item.field("encrypted_content").is_none()));
    assert_eq!(items(&output, "tools").len(), 1);
}

#[test]
fn hosted_tool_history_is_rejected_instead_of_silently_dropped() {
    let mut request = json(
        r#"{"model": "qwen/qwen3.8", "input": [{"type": "web_search_call", "output": "search result"}]}"#,
    );
    let error = refused(prepare_responses_request(&mut request, &model()));
    assert!(error.contains("hosted tool"));
}

#[test]
fn unsupported_images_are_rejected_at_the_context_boundary() {
    let mut request = json(
        r#"{"model": "qwen/qwen3.8", "input": [{"type": "message", "role": "user", "content": [{"type": "input_image", "image_url": "data:image/png;base64,secret"}]}]}"#,
    );
    let error = refused(prepare_responses_request(&mut request, &model()));
    assert!(error.contains("image input"));
    assert!(!error.contains("secret"));
}

#[test]
fn chat_request_adapter_rewrites_model_without_responses_fields() {
    let request = json(
        r#"{"model": "qwen/qwen3.8", "messages": [{"role": "user", "content": "hello"}],
            "previous_response_id": "resp_official", "tools": [{"type": "function", "name": "shell"}]}"#,
    );
    let output = accepted(prepare_chat_request(&request, &model()));
    assert_eq!(output.text_field("model"), Some("qwen3.8"));
    assert!(output.field("previous_response_id").is_none());
    assert_eq!(items(&output, "tools").len(), 1);
}

#[test]
fn chat_to_responses_adapter_keeps_message_semantics() {
    let request = json(
        r#"{"model": "qwen/qwen3.8", "messages": [{"role": "user", "content": "hello"}], "stream": false}"#,
    );
    let output = accepted(chat_to_responses_request(&request, &model()));
    assert_eq!(output.text_field("model"), Some("qwen3.8"));
    assert_eq!(items(&output, "input")[0].text_field("type"), Some("message"));
    assert_eq!(items(&output, "input")[0].text_field("content"), Some("hello"));
    assert_eq!(output.field("stream").unwrap().as_truth(), Some(false));
}

#[test]
fn chat_to_responses_rejects_streaming_protocol_conversion() {
    let request = json(
        r#"{"model": "qwen/qwen3.8", "messages": [{"role": "user", "content": "hello"}], "stream": true}"#,
    );
    assert!(matches!(
        chat_to_responses_request(&request, &model()),
        Err(CompatibilityError::StreamingProtocolConversion)
    ));
}

#[test]
fn streaming_chat_requests_are_refused_whatever_their_messages_hold() {
    let request = json(r#"{"model": "qwen/qwen3.8", "messages": ["hi"], "stream": true}"#);
    assert!(matches!(
        chat_to_responses_request(&request, &model()),
        Err(CompatibilityError::StreamingProtocolConversion)
    ));
    let request = json(r#"{"model": "qwen/qwen3.8", "messages": ["hi"], "stream": false}"#);
    assert!(matches!(
        chat_to_responses_request(&request, &model()),
        Err(CompatibilityError::ContextBoundary(_))
    ));
    assert!(matches!(
        chat_to_responses_request(&json("[]"), &model()),
        Err(CompatibilityError::NotObject)
    ));
}

#[test]
fn chat_adapter_uses_provider_model_and_text_messages() {
    let request = json(
        r#"{"model": "qwen/qwen3.8", "instructions": "be concise", "input": [{"role": "user", "content": "hello"}]}"#,
    );
    let output = accepted(responses_to_chat_request(&request, &model()));
    assert_eq!(output.text_field("model"), Some("qwen3.8"));
    assert_eq!(items(&output, "messages")[0].text_field("role"), Some("system"));
    assert_eq!(items(&output, "messages")[1].text_field("content"), Some("hello"));
}

#[test]
fn responses_to_chat_rejects_non_message_history() {
    let request = json(
        r#"{"model": "qwen/qwen3.8", "input": [{"type": "function_call", "call_id": "call_1"}]}"#,
    );
    let error = refused(responses_to_chat_request(&request, &model()));
    assert!(error.contains("non-message"));
}

#[test]
fn opaque_reasoning_is_refused() {
    let mut request = json(
        r#"{"model": "qwen/qwen3.8", "conversation": "c", "input": [{"type": "reasoning", "id": "rs_1", "encrypted_content": "secret", "summary": []}]}"#,
    );
    let error = refused(prepare_responses_request(&mut request, &model()));
    assert_eq!(error, "context boundary: opaque reasoning has no portable summary");
    assert_eq!(request.text_field("model"), Some("qwen3.8"));
    assert!(request.field("conversation").is_none());
    assert_eq!(items(&request, "input").len(), 0);
}

#[test]
fn requests_that_are_no_objects_are_refused() {
    let mut list = json("[1]");
    assert_eq!(
        refused(prepare_responses_request(&mut list, &model())),
        "request must be a JSON object"
    );
    assert!(list.is_array());
    assert!(matches!(prepare_chat_request(&list, &model()), Err(CompatibilityError::NotObject)));
    assert!(matches!(
        chat_to_responses_request(&list, &model()),
        Err(CompatibilityError::NotObject)
    ));
    assert!(matches!(
        responses_to_chat_request(&list, &model()),
        Err(CompatibilityError::NotObject)
    ));
}

#[test]
fn preparation_reports_what_it_changed() {
    let mut request = json(
        r#"{"model": "m", "previous_response_id": "r", "safety_identifier": "s", "reasoning": {"effort": "low"},
            "tools": [{"type": "web_search"}, {"type": "custom", "name": "c"}],
            "input": [{"type": "reasoning", "summary": ["x"]}, {"type": "function_call", "id": "f"}, 7]}"#,
    );
    let (output, report) = match prepare_with_report(&mut request, &model()) {
        Ok(done) => done,
        Err(error) => panic!("{}", error.message()),
    };
    assert_eq!(
        report.removed_fields,
        vec!["previous_response_id", "safety_identifier", "reasoning"]
    );
    assert_eq!(report.converted_items, 1);
    assert_eq!(report.dropped_items, 0);
    assert_eq!(items(&output, "input").len(), 3);
    assert_eq!(items(&output, "tools").len(), 1);
    assert!(output.field("reasoning").is_none());
}

#[test]
fn capabilities_decide_what_is_kept() {
    let mut plain = model();
    plain.capabilities.tools = false;
    plain.capabilities.streaming = false;
    plain.capabilities.files = false;
    let mut request = json(r#"{"tools": [{"type": "function"}], "stream": true, "input": "hi"}"#);
    let output = accepted(prepare_responses_request(&mut request, &plain));
    assert_eq!(items(&output, "tools").len(), 0);
    assert_eq!(output.field("stream").unwrap().as_truth(), Some(false));
    assert_eq!(output.text_field("input"), Some("hi"));

    let with_tools = json(r#"{"messages": [], "tools": []}"#);
    assert_eq!(
        refused(prepare_chat_request(&with_tools, &plain)),
        "context boundary: custom model does not support tools"
    );
    let without = json(r#"{"messages": [], "tool_choice": "auto", "reasoning_effort": "high"}"#);
    let output = accepted(prepare_chat_request(&without, &plain));
    assert!(output.field("tool_choice").is_none());
    assert!(output.field("reasoning_effort").is_none());

    let mut file = json(
        r#"{"input": [{"type": "message", "content": [{"type": "input_text"}, {"type": "input_file"}]}]}"#,
    );
    assert!(refused(prepare_responses_request(&mut file, &plain)).contains("file input"));
}

#[test]
fn chat_messages_that_are_no_objects_are_refused() {
    let request = json(r#"{"messages": [{"role": "user"}, "text"]}"#);
    assert!(refused(chat_to_responses_request(&request, &model())).contains("no object"));
    let request = json(r#"{"input": ["text"]}"#);
    assert!(refused(responses_to_chat_request(&request, &model())).contains("non-message"));
}

#[test]
fn chat_adapter_passes_streams_and_portable_tools() {
    let request = json(
        r#"{"input": "hi", "stream": true, "tools": [{"type": "function", "name": "f"}, {"type": "web_search"}]}"#,
    );
    let output = accepted(responses_to_chat_request(&request, &model()));
    assert_eq!(items(&output, "messages")[0].text_field("role"), Some("user"));
    assert_eq!(output.field("stream").unwrap().as_truth(), Some(true));
    assert_eq!(items(&output, "tools").len(), 1);
}
