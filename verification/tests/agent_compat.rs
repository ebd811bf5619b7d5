use peer::agent_compat::request::{
    apply_ollama_body_defaults_with_default, ensure_ollama_ctx_options_with_default,
    ensure_ollama_predict_options_with_default, normalize_chat_request, AgentResponseFormat,
};
use peer::agent_compat::response::{
    chat_completion_to_responses, chat_response_content_type, parse_chat_response_body,
    rewrite_chat_response, sse_bytes_to_completion, text_or,
};
use peer::agent_compat::sse::SseTransformState;
use peer::agent_compat::AgentDebugSnapshot;
use peer::gpu::readings::point;
use peer::json::{parse, print, Json};

fn value(text: &str) -> Json {
    parse(text).expect("JSON")
}

fn str_at<'a>(j: &'a Json, pointer: &str) -> Option<&'a str> {
    point(j, pointer).and_then(|v| v.as_str())
}

fn u64_at(j: &Json, pointer: &str) -> Option<u64> {
    point(j, pointer).and_then(|v| v.as_u64())
}

fn data(text: &str) -> String {
    format!("data: {}", print(&value(text)))
}

fn text_tool_response() -> Json {
    value(
        r#"{"choices": [{"message": {"role": "assistant", "content": "{\"name\": \"run_in_terminal\", \"arguments\": {\"command\": \"docker-compose up -d\"}}"}, "finish_reason": "stop"}]}"#,
    )
}

fn cursor_style_request() -> Json {
    value(
        r#"{"model": "llama3.2", "input": [{"role": "user", "content": "start containers"}], "stream": false, "store": true, "tools": [{"type": "function", "name": "run_in_terminal", "description": "Run command", "parameters": {"type": "object", "properties": {"command": {"type": "string"}}, "required": ["command"], "additionalProperties": false}}]}"#,
    )
}

#[test]
fn ensure_ollama_predict_applies_default() {
    let mut body = value(r#"{"model": "gemma4:e2b", "messages": []}"#);
    assert!(ensure_ollama_predict_options_with_default(&mut body, Some(8192)));
    assert_eq!(u64_at(&body, "/options/num_predict"), Some(8192));
}

#[test]
fn ensure_ollama_predict_respects_existing() {
    let mut body = value(r#"{"model": "gemma4:e2b", "options": {"num_predict": 2048}}"#);
    assert!(ensure_ollama_predict_options_with_default(&mut body, Some(8192)));
    assert_eq!(u64_at(&body, "/options/num_predict"), Some(8192));
}

#[test]
fn ensure_ollama_predict_keeps_high_existing() {
    let mut body = value(r#"{"model": "gemma4:e2b", "options": {"num_predict": 16384}}"#);
    assert!(!ensure_ollama_predict_options_with_default(&mut body, Some(8192)));
    assert_eq!(u64_at(&body, "/options/num_predict"), Some(16384));
}

#[test]
fn ensure_ollama_predict_preserves_unlimited() {
    let mut body = value(r#"{"model": "gemma4:e2b", "options": {"num_predict": -1}}"#);
    assert!(!ensure_ollama_predict_options_with_default(&mut body, Some(8192)));
    assert_eq!(point(&body, "/options/num_predict").and_then(|v| v.as_i64()), Some(-1));
}

#[test]
fn ensure_ollama_predict_maps_max_tokens() {
    let mut body = value(r#"{"model": "gemma4:e2b", "max_tokens": 512}"#);
    assert!(ensure_ollama_predict_options_with_default(&mut body, Some(8192)));
    assert_eq!(u64_at(&body, "/options/num_predict"), Some(512));
}

#[test]
fn ensure_ollama_ctx_applies_default() {
    let mut body = value(r#"{"model": "gemma4:e2b", "messages": []}"#);
    assert!(ensure_ollama_ctx_options_with_default(&mut body, Some(16384)));
    assert_eq!(u64_at(&body, "/options/num_ctx"), Some(16384));
}

#[test]
fn ensure_ollama_ctx_keeps_high_existing() {
    let mut body = value(r#"{"model": "gemma4:e2b", "options": {"num_ctx": 32768}}"#);
    assert!(!ensure_ollama_ctx_options_with_default(&mut body, Some(16384)));
    assert_eq!(u64_at(&body, "/options/num_ctx"), Some(32768));
}

#[test]
fn ensure_ollama_ctx_bumps_low_existing() {
    let mut body = value(r#"{"model": "gemma4:e2b", "options": {"num_ctx": 4096}}"#);
    assert!(ensure_ollama_ctx_options_with_default(&mut body, Some(16384)));
    assert_eq!(u64_at(&body, "/options/num_ctx"), Some(16384));
}

#[test]
fn apply_ollama_body_defaults_sets_predict_and_ctx() {
    let body = apply_ollama_body_defaults_with_default(
        r#"{"model":"gemma4:e2b","messages":[]}"#.to_string(),
        Some(8192),
        Some(16384),
    );
    let parsed = value(&body);
    assert_eq!(u64_at(&parsed, "/options/num_predict"), Some(8192));
    assert_eq!(u64_at(&parsed, "/options/num_ctx"), Some(16384));
}

#[test]
fn converts_input_to_messages() {
    let body = value(
        r#"{"model": "llama3", "input": [{"role": "user", "content": "hi"}], "tools": [{"type": "function", "name": "run_in_terminal", "parameters": {"type": "object", "properties": {}}}]}"#,
    );
    let (out, summary) = normalize_chat_request(body, None, None);
    assert!(summary.normalized);
    assert!(out.get("input").is_none());
    assert_eq!(str_at(&out, "/messages/0/role"), Some("user"));
    assert!(point(&out, "/tools/0/function").expect("function").is_object());
}

#[test]
fn agent_compat_converts_input_to_messages() {
    let body = value(
        r#"{"model": "llama3", "input": [{"role": "user", "content": "hi"}], "tools": [{"type": "function", "name": "run_in_terminal", "parameters": {"type": "object", "properties": {}}}]}"#,
    );
    let (out, summary) = normalize_chat_request(body, None, None);
    assert!(summary.normalized);
    assert!(summary.had_input_field);
    assert_eq!(summary.message_count, 1);
    assert_eq!(summary.tool_count, 1);
    assert!(out.get("input").is_none());
    assert_eq!(str_at(&out, "/messages/0/role"), Some("user"));
    assert!(point(&out, "/tools/0/function").expect("function").is_object());
}

#[test]
fn strips_responses_only_fields() {
    let body = value(
        r#"{"model": "x", "messages": [], "store": true, "previous_response_id": "resp_123"}"#,
    );
    let (out, _) = normalize_chat_request(body, None, None);
    assert!(out.get("store").is_none());
    assert!(out.get("previous_response_id").is_none());
}

#[test]
fn rewrites_prose_prefixed_text_tool_call() {
    let body = value(
        r#"{"choices": [{"message": {"role": "assistant", "content": "I'll run cargo build in the project and verify the build is successful? | {\"name\": \"run_in_terminal\", \"arguments\": {\"command\": \"cargo build\", \"explanation\": \"Builds the project using Cargo.\"}}"}, "finish_reason": "stop"}]}"#,
    );
    let (out, summary) = rewrite_chat_response(body);
    assert!(summary.rewrote_text_tool_call);
    assert_eq!(
        str_at(&out, "/choices/0/message/tool_calls/0/function/name"),
        Some("run_in_terminal")
    );
    assert_eq!(str_at(&out, "/choices/0/finish_reason"), Some("tool_calls"));
}

#[test]
fn streaming_chunks_include_openai_metadata() {
    let mut state = SseTransformState::default();
    state.process_line(&data(
        r#"{"id": "chatcmpl-test", "object": "chat.completion.chunk", "created": 12345, "model": "llama3", "choices": [{"delta": {"content": "{\""}, "finish_reason": null}]}"#,
    ));
    state.process_line(&data(
        r#"{"choices": [{"delta": {"content": "\"name\": \"run_in_terminal\", \"arguments\": {\"command\": \"ls\"}}"}, "finish_reason": null}]}"#,
    ));
    let out = state.process_line(r#"data: {"choices":[{"delta":{},"finish_reason":"stop"}]}"#);
    assert!(out.iter().any(|line| line.contains("chat.completion.chunk")));
    assert!(out.iter().any(|line| line.contains("chatcmpl-test")));
}

#[test]
fn converts_rewritten_chat_completion_to_responses_api() {
    let chat = value(
        r#"{"model": "llama3", "choices": [{"message": {"role": "assistant", "content": null, "tool_calls": [{"id": "call_abc", "type": "function", "function": {"name": "run_in_terminal", "arguments": "{\"command\": \"cargo build\"}"}}]}, "finish_reason": "tool_calls"}]}"#,
    );
    let responses = chat_completion_to_responses(&chat);
    assert_eq!(str_at(&responses, "/output/0/type"), Some("function_call"));
    assert_eq!(str_at(&responses, "/output/0/name"), Some("run_in_terminal"));
    assert_eq!(str_at(&responses, "/output/0/call_id"), Some("call_abc"));
    // The identifier and the moment come from outside.
    let id = str_at(&responses, "/id").expect("id");
    assert!(id.starts_with("resp_"));
    assert_eq!(id.len(), 5 + 32);
    assert!(u64_at(&responses, "/created_at").expect("moment") > 1_600_000_000);
}

#[test]
fn streaming_rewrites_bare_json_sse_lines() {
    let mut state = SseTransformState::default();
    let chunk1 = r#"{"choices": [{"delta": {"content": "{\"name\": \"run_in_terminal\", \"arguments\": {\"command\": \"ls\"}}"}, "finish_reason": null}]}"#;
    assert!(state.process_line(chunk1).is_empty());

    let chunk2 = r#"{"choices": [{"delta": {}, "finish_reason": "stop"}]}"#;
    let out = state.process_line(chunk2);
    assert!(out.len() >= 2);
    assert!(out.iter().any(|line| line.contains("run_in_terminal")));
    assert!(state.take_summary().unwrap().rewrote_text_tool_call);
}

#[test]
fn streaming_prose_prefix_flushes_on_done_without_stop() {
    let mut state = SseTransformState::default();
    let _ = state.process_line(&data(
        r#"{"choices": [{"delta": {"content": "run cargo build | {\"name\": \"run_in_terminal\", \"arguments\": {\"command\": \"ls\"}}"}, "finish_reason": null}]}"#,
    ));
    let out = state.process_line("data: [DONE]");
    assert!(out.iter().any(|line| line.contains("tool_calls")));
    assert!(state.take_summary().unwrap().rewrote_text_tool_call);
}

#[test]
fn finalize_stream_emits_done_when_upstream_omits_it() {
    let mut state = SseTransformState::default();
    let _ = state.process_line(&data(
        r#"{"choices": [{"delta": {"content": "hello"}, "finish_reason": null}]}"#,
    ));
    let _ = state.process_line(&data(r#"{"choices": [{"delta": {}, "finish_reason": "stop"}]}"#));

    let out = state.finalize_stream(false);
    assert_eq!(out.last().map(String::as_str), Some("data: [DONE]"));
}

#[test]
fn finalize_stream_does_not_duplicate_done() {
    let mut state = SseTransformState::default();
    let out = state.finalize_stream(true);
    assert!(!out.iter().any(|line| line.trim() == "data: [DONE]"));
}

#[test]
fn finalize_stream_after_suppressed_tool_call_without_upstream_done() {
    let mut state = SseTransformState::default();
    let partial = state.process_line(&data(
        r#"{"choices": [{"delta": {"content": "run cargo build | {\"name\": \"run_in_terminal\", \"arguments\": {\"command\": \"ls\"}}"}, "finish_reason": null}]}"#,
    ));
    assert!(partial.iter().any(|line| line.contains("run cargo build")));

    let out = state.finalize_stream(false);
    assert!(out.iter().any(|line| line.contains("tool_calls")));
    assert_eq!(out.last().map(String::as_str), Some("data: [DONE]"));
    assert!(state.take_summary().unwrap().rewrote_text_tool_call);
}

#[test]
fn a_stream_that_has_ended_ends_again_with_nothing() {
    let mut state = SseTransformState::default();
    assert!(state.finalize_stream(true).is_empty());
    let _ = state.process_line(&data(
        r#"{"choices": [{"delta": {"content": "{\"name\": \"ls\", \"arguments\": {}}"}, "finish_reason": null}]}"#,
    ));
    let out = state.finalize_stream(false);
    assert_eq!(out.iter().filter(|line| line.trim() == "data: [DONE]").count(), 1);
    assert_eq!(out.last().map(String::as_str), Some("data: [DONE]"));
    assert!(state.finalize_stream(true).is_empty());
    let _ = state.process_line(&data(
        r#"{"choices": [{"delta": {"content": "{\"name\": \"ls\", \"arguments\": {}}"}, "finish_reason": null}]}"#,
    ));
    let out = state.finalize_stream(true);
    assert!(!out.is_empty());
    assert!(out.iter().all(|line| line.starts_with("data: {")));
}

#[test]
fn streaming_prose_prefix_before_json() {
    let mut state = SseTransformState::default();
    let out1 = state.process_line(&data(
        r#"{"choices": [{"delta": {"content": "run cargo build | {"}, "finish_reason": null}]}"#,
    ));
    assert_eq!(out1.len(), 1);
    let parsed1 = value(out1[0].trim_start_matches("data:").trim());
    assert_eq!(str_at(&parsed1, "/choices/0/delta/content"), Some("run cargo build | "));

    assert!(state
        .process_line(&data(
            r#"{"choices": [{"delta": {"content": "\"name\": \"run_in_terminal\", \"arguments\": {\"command\": \"ls\"}}"}, "finish_reason": null}]}"#,
        ))
        .is_empty());

    let out3 = state.process_line(&data(r#"{"choices": [{"delta": {}, "finish_reason": "stop"}]}"#));
    assert!(out3.len() >= 2);
    assert!(out3.iter().any(|line| line.contains("run_in_terminal")));
    assert!(out3.iter().any(|line| line.contains("tool_calls")));
    assert!(state.take_summary().unwrap().rewrote_text_tool_call);
}

#[test]
fn rewrites_text_tool_call_in_response() {
    let (out, summary) = rewrite_chat_response(text_tool_response());
    assert!(summary.rewrote_text_tool_call);
    assert_eq!(
        str_at(&out, "/choices/0/message/tool_calls/0/function/name"),
        Some("run_in_terminal")
    );
    assert_eq!(str_at(&out, "/choices/0/finish_reason"), Some("tool_calls"));
}

#[test]
fn agent_compat_rewrites_text_tool_call_in_response() {
    let (out, summary) = rewrite_chat_response(text_tool_response());
    assert!(summary.rewrote_text_tool_call);
    assert_eq!(
        str_at(&out, "/choices/0/message/tool_calls/0/function/name"),
        Some("run_in_terminal")
    );
    assert_eq!(str_at(&out, "/choices/0/finish_reason"), Some("tool_calls"));
    let arguments = str_at(&out, "/choices/0/message/tool_calls/0/function/arguments").unwrap();
    assert_eq!(str_at(&value(arguments), "/command"), Some("docker-compose up -d"));
}

#[test]
fn preserves_existing_tool_calls() {
    let body = value(
        r#"{"choices": [{"message": {"role": "assistant", "content": null, "tool_calls": [{"id": "call_1", "type": "function", "function": {"name": "read_file", "arguments": "{}"}}]}, "finish_reason": "tool_calls"}]}"#,
    );
    let (_, summary) = rewrite_chat_response(body);
    assert!(summary.had_structured_tool_calls);
    assert!(!summary.rewrote_text_tool_call);
}

#[test]
fn streaming_suppresses_json_content_until_finish() {
    let mut state = SseTransformState::default();
    assert!(state
        .process_line(&data(
            r#"{"choices": [{"delta": {"content": "{\""}, "finish_reason": null}]}"#,
        ))
        .is_empty());
    assert!(state
        .process_line(&data(
            r#"{"choices": [{"delta": {"content": "name\": \"run_in_terminal\", \"arguments\": {\"command\": \"ls\"}}"}, "finish_reason": null}]}"#,
        ))
        .is_empty());
    let out = state.process_line(&data(r#"{"choices": [{"delta": {}, "finish_reason": "stop"}]}"#));
    assert!(out.len() >= 2);
    assert!(out.iter().any(|line| line.contains("run_in_terminal")));
    assert!(state.take_summary().unwrap().rewrote_text_tool_call);
}

#[test]
fn agent_compat_streaming_suppresses_json_content_until_finish() {
    let mut state = SseTransformState::new();
    assert!(state
        .process_line(&data(
            r#"{"choices": [{"delta": {"content": "{\""}, "finish_reason": null}]}"#,
        ))
        .is_empty());
    assert!(state
        .process_line(&data(
            r#"{"choices": [{"delta": {"content": "name\": \"run_in_terminal\", \"arguments\": {\"command\": \"ls\"}}"}, "finish_reason": null}]}"#,
        ))
        .is_empty());
    let out = state.process_line(&data(r#"{"choices": [{"delta": {}, "finish_reason": "stop"}]}"#));
    assert!(out.len() >= 2);
    assert!(out.iter().any(|line| line.contains("run_in_terminal")));
    assert!(state.take_summary().unwrap().rewrote_text_tool_call);
    assert!(state.take_summary().is_none());
}

#[test]
fn end_to_end_cursor_style_request_and_text_tool_response() {
    let (normalized, req_summary) = normalize_chat_request(cursor_style_request(), None, None);
    assert!(req_summary.normalized);
    assert_eq!(str_at(&normalized, "/tools/0/function/name"), Some("run_in_terminal"));
    assert!(point(&normalized, "/tools/0/function/parameters")
        .expect("parameters")
        .get("additionalProperties")
        .is_none());

    let (final_response, resp_summary) = rewrite_chat_response(text_tool_response());
    assert!(resp_summary.rewrote_text_tool_call);
    assert_eq!(
        str_at(&final_response, "/choices/0/message/tool_calls/0/function/name"),
        Some("run_in_terminal")
    );
    assert_eq!(str_at(&final_response, "/choices/0/finish_reason"), Some("tool_calls"));
}

#[test]
fn agent_compat_end_to_end_cursor_style_request_and_text_tool_response() {
    let (normalized, req_summary) = normalize_chat_request(cursor_style_request(), None, None);
    assert!(req_summary.normalized);
    assert_eq!(str_at(&normalized, "/tools/0/function/name"), Some("run_in_terminal"));

    let (final_response, resp_summary) = rewrite_chat_response(text_tool_response());
    assert!(resp_summary.rewrote_text_tool_call);
    assert_eq!(
        str_at(&final_response, "/choices/0/message/tool_calls/0/function/name"),
        Some("run_in_terminal")
    );
}

const TOOL_STREAM: &str = "data: {\"choices\":[{\"delta\":{\"content\":\"{\\\"name\\\": \\\"run_in_terminal\\\"\"},\"finish_reason\":null}]}\n\n\
    data: {\"choices\":[{\"delta\":{\"content\": \", \\\"arguments\\\": {\\\"command\\\": \\\"ls\\\"}}\"},\"finish_reason\":null}]}\n\n\
    data: {\"choices\":[{\"delta\":{},\"finish_reason\":\"stop\"}]}\n\n\
    data: [DONE]\n\n";

#[test]
fn parses_sse_stream_into_completion() {
    let completion = sse_bytes_to_completion(TOOL_STREAM);
    let (_, summary) = rewrite_chat_response(completion);
    assert!(summary.rewrote_text_tool_call);
}

#[test]
fn agent_compat_parses_sse_stream_into_completion() {
    let completion = parse_chat_response_body(TOOL_STREAM);
    let (_, summary) = rewrite_chat_response(completion);
    assert!(summary.rewrote_text_tool_call);
}

#[test]
fn a_body_that_is_no_json_is_null() {
    assert!(parse_chat_response_body("not json").is_null());
    assert_eq!(
        apply_ollama_body_defaults_with_default("not json".to_string(), Some(1), Some(1)),
        "not json"
    );
}

#[test]
fn a_request_in_order_is_not_changed() {
    let body = value(r#"{"model": "x", "messages": [{"role": "user", "content": "hi"}]}"#);
    let (out, summary) = normalize_chat_request(body, None, None);
    assert!(!summary.normalized);
    assert_eq!(summary.model.as_deref(), Some("x"));
    assert_eq!(print(&out), r#"{"messages":[{"content":"hi","role":"user"}],"model":"x"}"#);
}

#[test]
fn settings_of_the_defaults_count_when_they_are_positive() {
    let body = value(r#"{"model": "x", "messages": []}"#);
    let (out, summary) = normalize_chat_request(body, Some("256"), Some("0"));
    assert!(summary.normalized);
    assert_eq!(u64_at(&out, "/options/num_predict"), Some(256));
    assert!(point(&out, "/options/num_ctx").is_none());
}

#[test]
fn content_type_follows_the_client() {
    assert_eq!(chat_response_content_type(true, Some("application/json")), "text/event-stream");
    assert_eq!(chat_response_content_type(false, Some("text/event-stream")), "application/json");
}

#[test]
fn text_or_takes_the_default() {
    assert_eq!(text_or(None, "d"), "d");
    assert_eq!(text_or(Some("a"), "d"), "a");
}

#[test]
fn responses_clients_get_their_events() {
    let mut state = SseTransformState::with_response_format(AgentResponseFormat::ResponsesApi);
    assert!(state
        .process_line(&data(
            r#"{"choices": [{"delta": {"content": "{\"name\": \"ls\", \"arguments\": {}}"}, "finish_reason": null}]}"#,
        ))
        .is_empty());
    let out = state.finalize_stream(false);
    assert!(out[0].contains("response.output_item.added"));
    assert!(out.iter().any(|l| l.contains("response.function_call_arguments.done")));
    assert!(out.iter().any(|l| l.contains("response.completed")));
    assert_eq!(out.last().map(String::as_str), Some("data: [DONE]"));
}

#[test]
fn snapshot_forgets_the_answer_to_an_older_request() {
    let (_, request) = normalize_chat_request(value("{}"), None, None);
    let (_, again) = normalize_chat_request(value("{}"), None, None);
    let (_, response) = rewrite_chat_response(value("{}"));
    let mut snapshot = AgentDebugSnapshot::default();
    assert!(snapshot.request.is_none());
    snapshot.asked(request);
    snapshot.answered(response);
    assert!(snapshot.response.is_some());
    snapshot.asked(again);
    assert!(snapshot.request.is_some());
    assert!(snapshot.response.is_none());
}
