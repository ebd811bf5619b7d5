use peer::agent_compat::AgentResponseFormat;
use peer::json::{parse, print, Json};
use peer::llm_proxy::listing::{
    merge_tags, merge_v1_models, network_tags, network_v1_models, remote_v1_model,
};
use peer::llm_proxy::requests::{
    agent_reply_local, agent_reply_remote, bare_model, chat_completion, embeddings_path,
    endpoint_request, forward_chat_stream, forward_ollama_chat_via_openai, forward_translation,
    choose_backend, forward_backend, generate, handle_agent_chat_request, handle_proxy_request, health_check, is_success,
    model_in_body, not_ollama_backend, proxy_content_type, require_backend,
    require_backend_for_model, show_local_model, show_model_info, shown_model, translation,
    unreachable_backend, unreadable_backend, upstream_error, upstream_failure, version_info,
    ChatRoute, HealthQuery, OllamaEndpoint, Translation,
};
use peer::llm_proxy::routing::{
    cluster_id_for_model, network_scope_for_model, remote_route, swarm_id_for_model, NetworkScope,
};
use peer::llm_proxy::stream::{
    error_event, error_object, ollama_reply, AgentStream, LineBuffer, OllamaStream,
};
use peer::shared::NetworkMode;

fn value(text: &str) -> Json {
    parse(text).expect("JSON")
}

fn strings(v: &[&str]) -> Vec<String> {
    v.iter().map(|s| s.to_string()).collect()
}

#[test]
fn networks_of_a_model_are_found() {
    let models = vec![
        value(r#"{"name":"direct","_cluster_id":"c1","_swarm_id":"s1"}"#),
        value(
            r#"{"name":"listed","_clusters":[{"cluster_id":"a","peer_count":2},{"cluster_id":"b","peer_count":5},{"cluster_id":"c","peer_count":5}]}"#,
        ),
        value(r#"{"name":"room","_room_id":"r"}"#),
        value(r#"{"name":"odd","_cluster_id":7,"_room_id":"r"}"#),
    ];
    assert_eq!(cluster_id_for_model(&models, "direct").as_deref(), Some("c1"));
    assert_eq!(swarm_id_for_model(&models, "direct").as_deref(), Some("s1"));
    // Of several largest networks the last counts.
    assert_eq!(cluster_id_for_model(&models, "listed").as_deref(), Some("c"));
    assert_eq!(cluster_id_for_model(&models, "room").as_deref(), Some("r"));
    assert_eq!(cluster_id_for_model(&models, "odd"), None);
    assert_eq!(cluster_id_for_model(&models, "none"), None);
    let scope = |m: &str, mode| network_scope_for_model(&models, m, mode);
    assert_eq!(scope("direct", NetworkMode::Both), Some(NetworkScope::Swarm));
    assert_eq!(scope("direct", NetworkMode::Cluster), Some(NetworkScope::Cluster));
    assert_eq!(scope("room", NetworkMode::Both), Some(NetworkScope::Cluster));
    assert_eq!(scope("room", NetworkMode::Swarm), None);
    let route = remote_route(&models, "room", NetworkMode::Both).unwrap();
    assert_eq!(route.cluster_id.as_deref(), Some("r"));
    assert_eq!(route.swarm_id, None);
    assert_eq!(
        remote_route(&models, "none", NetworkMode::Swarm).unwrap_err(),
        "No network advertises model none for p2p_mode Swarm"
    );
}

fn network() -> Vec<(Json, Json)> {
    vec![
        (value(r#"{"name":"n1"}"#), value(r#"{"name":"n1","id":"n1"}"#)),
        (value(r#"{"name":"l1"}"#), value(r#"{"name":"l1","id":"l1"}"#)),
        (value(r#"{}"#), value(r#"{"name":"x"}"#)),
        (value(r#"{"name":"h"}"#), value(r#"{"name":"h","id":"h"}"#)),
    ]
}

#[test]
fn lists_hold_what_is_here_and_in_the_network() {
    let hidden = strings(&["h"]);
    assert_eq!(
        print(&network_tags(&network(), &hidden)),
        r#"{"models":[{"id":"n1","name":"n1"},{"id":"l1","name":"l1"}]}"#
    );
    assert_eq!(
        print(&network_v1_models(&network(), &strings(&["h", "n1", "l1"]))),
        r#"{"data":[],"object":"list"}"#
    );
    let full = vec![value(r#"{"name":"l1","_status":{"loaded":true}}"#)];
    let tags = merge_tags(
        value(r#"{"models":[{"name":"l1"},{"name":"h"},{"size":1}]}"#),
        &network(),
        &strings(&["l1"]),
        &full,
        &hidden,
    );
    assert_eq!(
        print(&tags),
        r#"{"models":[{"_status":{"loaded":true},"name":"l1"},{"size":1},{"id":"n1","name":"n1"}]}"#
    );
    let v1 = merge_v1_models(
        value(r#"{"data":[{"id":"l1"},{"name":"h"}]}"#),
        &network(),
        &strings(&["l1"]),
        &full,
        &hidden,
    );
    assert_eq!(
        print(&v1),
        r#"{"data":[{"_status":{"loaded":true},"id":"l1"},{"id":"n1","name":"n1"}]}"#
    );
    assert_eq!(print(&merge_tags(value("[]"), &vec![], &vec![], &vec![], &vec![])), "[]");
    let owner = |s| remote_v1_model("m", s).get_str("owned_by").unwrap().to_string();
    assert_eq!(owner(Some("swarm")), "swarm");
    assert_eq!(owner(Some("both")), "network");
    assert_eq!(owner(None), "community");
}

#[test]
fn lines_do_not_depend_on_the_pieces() {
    let mut whole = LineBuffer::new();
    let all = whole.feed("a\nbc\n\nd");
    assert_eq!(all, strings(&["a", "bc", ""]));
    assert_eq!(whole.rest, "d");
    let mut cut = LineBuffer::new();
    let mut lines = cut.feed("a\nb");
    lines.extend(cut.feed("c\n"));
    lines.extend(cut.feed("\nd"));
    assert_eq!(lines, all);
    assert_eq!(cut.rest, whole.rest);
}

#[test]
fn ollama_clients_get_their_lines() {
    let sse = "data: {\"choices\":[{\"delta\":{\"content\":\"Hi\"}}]}\n: note\ndata: {\"choices\":[{\"delta\":{}}]}\ndata: [DONE]\ndata: {\"choices\":[{\"delta\":{\"content\":\"late\"}}]}\n";
    let mut stream = OllamaStream::new("m");
    let lines = stream.feed(sse);
    assert_eq!(
        lines,
        strings(&[
            "{\"done\":false,\"message\":{\"content\":\"Hi\",\"role\":\"assistant\"},\"model\":\"m\"}\n",
            "{\"done\":true,\"model\":\"m\"}\n",
        ])
    );
    assert!(stream.ended);
    assert!(stream.feed("data: x\n").is_empty());
    assert!(stream.end().is_empty());
    let mut cut = OllamaStream::new("m");
    let mut pieces = Vec::new();
    for c in sse.chars() {
        pieces.extend(cut.feed(&c.to_string()));
    }
    assert_eq!(pieces, lines);
    let mut open = OllamaStream::new("m");
    assert_eq!(open.end(), strings(&["{\"done\":true,\"model\":\"m\"}\n"]));
    let reply = ollama_reply(
        "m",
        "2024-01-01T00:00:00+00:00",
        &value(r#"{"choices":[{"message":{"content":"Hi"}}]}"#),
    );
    assert_eq!(
        print(&reply),
        r#"{"created_at":"2024-01-01T00:00:00+00:00","done":true,"message":{"content":"Hi","role":"assistant"},"model":"m"}"#
    );
}

#[test]
fn agent_streams_end_with_one_end_mark() {
    let mut stream = AgentStream::new(AgentResponseFormat::ChatCompletions, true);
    let first = stream.feed("data: {\"choices\":[{\"delta\":{\"content\":\"Hi\"}}]}\r\nda");
    assert_eq!(first.len(), 1);
    let second = stream.feed("ta: [DONE]\n");
    assert_eq!(second, strings(&["data: [DONE]"]));
    assert!(stream.done_sent);
    assert!(stream.end().is_empty());
    let mut cut_off = AgentStream::new(AgentResponseFormat::ChatCompletions, false);
    assert_eq!(cut_off.feed("data: {\"choices\":[{\"delta\":{\"content\":\"Hi\"}}]}\n").len(), 1);
    assert_eq!(cut_off.end(), strings(&["data: [DONE]"]));
    // An end mark without a line end counts where the stream comes from a peer.
    let mut tail = AgentStream::new(AgentResponseFormat::ChatCompletions, true);
    assert!(tail.feed("data: [DONE]").is_empty());
    assert_eq!(tail.end(), strings(&["data: [DONE]"]));
    assert!(tail.take_summary().is_none());
    assert_eq!(error_event("e"), "data: {\"error\":\"e\"}\n\n");
    assert_eq!(error_object("e"), "{\"error\":\"e\"}");
}

#[test]
fn a_tool_call_in_a_stream_is_rewritten() {
    let mut stream = AgentStream::new(AgentResponseFormat::ChatCompletions, false);
    let sse = "{\"choices\":[{\"delta\":{\"content\":\"run | {\\\"name\\\": \\\"run_in_terminal\\\", \\\"arguments\\\": {\\\"command\\\": \\\"ls\\\"}}\"},\"finish_reason\":null}]}\n{\"choices\":[{\"delta\":{},\"finish_reason\":\"stop\"}]}";
    let mut text = stream.feed(sse).join("\n");
    text.push_str(&stream.end().join("\n"));
    assert!(text.contains("tool_calls"));
    assert!(text.contains("\"function\""));
    assert!(stream.take_summary().unwrap().rewrote_text_tool_call);
}

#[test]
fn servers_are_asked_for() {
    assert_eq!(require_backend_for_model(true, Some("m"), Some(1), None), Ok(1));
    assert_eq!(choose_backend(Some(1), Some(2)), Some(1));
    assert_eq!(choose_backend(None, Some(2)), Some(2));
    assert_eq!(forward_backend(None, Some(2)), Ok(2));
    assert_eq!(forward_backend::<u8>(None, None), Err("backend not configured".to_string()));
    let e = require_backend_for_model(true, Some("m"), None, Some(1)).unwrap_err();
    assert_eq!((e.status, e.message.as_str()), (404, "No attached server hosts model 'm'"));
    let e = require_backend::<u8>(true, None).unwrap_err();
    assert_eq!((e.status, e.message.as_str()), (503, "No LLM servers attached"));
    let e = require_backend(false, Some(1)).unwrap_err();
    assert_eq!(e.status, 503);
    assert!(e.message.starts_with("Setup not complete"));
    assert_eq!(not_ollama_backend().status, 501);
    assert_eq!(unreachable_backend("x").message, "Failed to reach LLM backend: x");
    assert_eq!(unreadable_backend("x").status, 502);
}

#[test]
fn requests_name_their_models() {
    assert_eq!(model_in_body(r#"{"model":"a"}"#, "name", "model").as_deref(), Some("a"));
    let (path, model) =
        endpoint_request(OllamaEndpoint::Pull, r#"{"name":"n","model":"m"}"#);
    assert_eq!((path, model.as_deref()), ("/api/pull", Some("n")));
    let (path, model) =
        endpoint_request(OllamaEndpoint::Delete, r#"{"name":"n","model":"m"}"#);
    assert_eq!((path, model.as_deref()), ("/api/delete", Some("m")));
    assert_eq!(endpoint_request(OllamaEndpoint::Push, "no json").1, None);
    assert_eq!(embeddings_path(true), "/api/embeddings");
    assert_eq!(embeddings_path(false), "/v1/embeddings");
    assert_eq!(shown_model("{}"), "");
    assert_eq!(bare_model("llama.gguf"), "llama");
    assert_eq!(bare_model("llama"), "llama");
}

#[test]
fn agent_requests_are_planned() {
    let local = strings(&["here"]);
    let plan = handle_agent_chat_request(
        r#"{"model":"there","messages":[],"stream":true}"#,
        Some(9),
        None,
        AgentResponseFormat::ResponsesApi,
        &local,
    );
    assert!(plan.remote && plan.stream);
    assert_eq!(plan.model, "there");
    assert_eq!(plan.summary.response_format, AgentResponseFormat::ResponsesApi);
    assert_eq!(print(&plan.body), plan.text);
    assert!(plan.text.contains(r#""num_predict":9"#));
    let plan = handle_agent_chat_request(
        "no json",
        None,
        None,
        AgentResponseFormat::ChatCompletions,
        &local,
    );
    assert!(!plan.remote);
    assert_eq!(plan.model, "");
    let tool = r#"{"choices":[{"message":{"content":"{\"name\":\"ls\",\"arguments\":{}}"},"finish_reason":"stop"}]}"#;
    let (out, summary) = agent_reply_local(tool, AgentResponseFormat::ChatCompletions);
    assert!(summary.rewrote_text_tool_call);
    assert!(print(&out).contains("tool_calls"));
    let (out, _) = agent_reply_remote(tool, AgentResponseFormat::ResponsesApi);
    assert!(print(&out).contains("function_call"));
}

#[test]
fn ollama_requests_are_planned() {
    let plan = handle_proxy_request(
        r#"{"model":"there"}"#.to_string(),
        None,
        Some(5),
        &strings(&["here"]),
    );
    assert!(plan.remote && !plan.stream);
    assert_eq!(plan.model.as_deref(), Some("there"));
    assert_eq!(plan.text, r#"{"model":"there","options":{"num_ctx":5}}"#);
    assert!(is_success(204) && !is_success(304));
    assert_eq!(proxy_content_type(false, "application/json; x"), "application/json");
    assert_eq!(proxy_content_type(true, "application/json"), "application/x-ndjson");
}

#[test]
fn chats_are_forwarded_or_translated() {
    assert_eq!(chat_completion(true, Some("m"), None, None), Ok(ChatRoute::Forward));
    assert_eq!(chat_completion(true, Some("m"), Some(true), None), Ok(ChatRoute::Forward));
    assert_eq!(chat_completion(true, None, None, Some(false)), Ok(ChatRoute::Translate));
    assert_eq!(chat_completion(true, None, None, None).unwrap_err().status, 503);
    let body = forward_ollama_chat_via_openai(
        &value(r#"{"model":"a.gguf","messages":[]}"#),
        None,
        None,
        Some("a.gguf"),
        true,
    )
    .unwrap();
    assert_eq!(print(&body), r#"{"messages":[],"model":"a","stream":true}"#);
    let null = forward_ollama_chat_via_openai(&Json::Null, None, None, None, false).unwrap();
    assert_eq!(print(&null), r#"{"stream":false}"#);
    assert_eq!(
        print(&upstream_error("x")),
        r#"{"error":{"message":"x","type":"upstream_error"}}"#
    );
    assert_eq!(translation(false, "x"), Translation::Whole);
    assert_eq!(translation(true, "text/event-stream"), Translation::Stream);
    assert_eq!(translation(true, "x"), Translation::AsIs);
    let f = forward_chat_stream(false, "/api/chat", &value("{}"), "a.gguf");
    assert_eq!((f.path.as_str(), f.model.as_str()), ("/v1/chat/completions", "a"));
    assert_eq!(print(&f.body), r#"{"model":"a"}"#);
    let f = forward_chat_stream(true, "/api/chat", &value("{}"), "a.gguf");
    assert!(!f.translated);
    assert_eq!(forward_translation(true, "x"), Translation::Whole);
    assert_eq!(upstream_failure("500", &"x".repeat(600)).len(), "upstream 500: ".len() + 500);
}

#[test]
fn generation_takes_an_ollama_server() {
    let local = strings(&["here"]);
    assert!(generate(true, Some("there"), &local, None).is_ok());
    assert!(generate(true, Some("here"), &local, Some(true)).is_ok());
    assert_eq!(generate(true, Some("here"), &local, Some(false)).unwrap_err().status, 501);
    assert_eq!(generate(true, None, &local, None).unwrap_err().status, 503);
    assert_eq!(generate(false, Some("there"), &local, None).unwrap_err().status, 503);
}

#[test]
fn models_are_shown() {
    let network = vec![value(r#"{"name":"there","_show_info":{"details":{"format":"gguf"}}}"#)];
    let info = show_model_info("there", &vec![], &network, Json::Null).unwrap();
    assert_eq!(print(&info), r#"{"details":{"format":"remote"}}"#);
    assert!(show_model_info("there", &strings(&["there"]), &network, Json::Null).is_none());
    let plain = vec![value(r#"{"name":"there","_show_info":null}"#)];
    let info = show_model_info("there", &vec![], &plain, value(r#"{"a":1}"#)).unwrap();
    assert_eq!(print(&info), r#"{"a":1}"#);
    let e = show_local_model("x", &vec![]).unwrap_err();
    assert_eq!((e.status, e.message.as_str()), (404, "Model x not found"));
    assert_eq!(print(&version_info("vllm")), r#"{"version":"vllm"}"#);
}

#[test]
fn health_is_told() {
    let q = |c: Option<&str>| HealthQuery { check: c.map(str::to_string) };
    let backend = Some(("http://u".to_string(), "ollama".to_string()));
    let r = health_check(&q(None), 1, backend, Some(3), true, false);
    assert_eq!(r.status, "ok");
    assert_eq!(r.models_count, Some(3));
    assert_eq!(r.llm_url.as_deref(), Some("http://u"));
    let r = health_check(&q(Some("x")), 0, None, None, false, false);
    assert_eq!(r.models_count, Some(0));
    let r = health_check(&q(Some("llm")), 0, None, None, false, false);
    assert_eq!(r.models_count, None);
}
