use peer::agent_compat::request::AgentResponseFormat;
use peer::agent_compat::response::{chunks_to_completion, sse_bytes_to_completion};
use peer::agent_compat::sse::SseTransformState;
use peer::gpu::intel::{device_ids_in, top_status, xpu_status};
use peer::inference_cell_run::{
    poll_pull_job, run_inference_cell_task, CellAction, CellEvent, CellMove, PullJobStatus, PullStep,
};
use peer::json::{parse, print, Json};
use peer::llm_discovery::replied_server;
use peer::llm_proxy::requests::{
    forward_ollama_chat_via_openai, handle_agent_chat_request, handle_proxy_request,
    in_openai_form, model_in_body, model_named, plan_agent_request, plan_proxy_request,
    takes_keys,
};
use peer::llm_proxy::stream::{ollama_reply_to, read_chunk, AgentStream, OllamaStream, Passage};

fn value(text: &str) -> Json {
    parse(text).expect("JSON")
}

#[test]
fn a_request_names_its_model() {
    let j = value(r#"{"name":"n"}"#);
    assert_eq!(model_named(&j, "model", "name").as_deref(), Some("n"));
    assert_eq!(model_named(&j, "model", "id"), None);
    assert_eq!(model_in_body(r#"{"model":"m","name":"n"}"#, "model", "name").as_deref(), Some("m"));
    assert_eq!(model_in_body("no json", "model", "name"), None);
}

#[test]
fn a_request_of_an_agent_is_planned() {
    let local = vec!["here".to_string()];
    let format = AgentResponseFormat::ChatCompletions;
    let j = value(r#"{"model":"here","messages":[],"stream":true}"#);
    let p = plan_agent_request(j, Some(7), None, format, &local);
    assert!(p.stream && !p.remote);
    assert_eq!(p.model, "here");
    assert_eq!(p.text, print(&p.body));
    let p = plan_agent_request(value(r#"{"model":"far"}"#), None, None, format, &local);
    assert!(!p.stream && p.remote);
    let p = handle_agent_chat_request("no json", None, None, format, &local);
    assert_eq!((p.model.as_str(), p.stream), ("", false));
}

#[test]
fn a_request_of_an_ollama_client_is_planned() {
    let local = vec!["here".to_string()];
    let j = value(r#"{"model":"far","stream":true}"#);
    let p = plan_proxy_request("t".to_string(), j, &local);
    assert_eq!((p.text.as_str(), p.model.as_deref()), ("t", Some("far")));
    assert!(p.stream && p.remote);
    let p = handle_proxy_request("no json".to_string(), None, None, &local);
    assert_eq!((p.text.as_str(), p.model), ("no json", None));
}

#[test]
fn a_chat_is_put_in_openai_form() {
    let j = in_openai_form(value(r#"{"messages":[]}"#), Some("m.gguf"), true);
    assert_eq!(j.get_str("model"), Some("m"));
    assert!(print(&j).contains(r#""stream":true"#));
    assert_eq!(print(&in_openai_form(Json::Null, None, false)), r#"{"stream":false}"#);
    let body = value(r#"{"model":"a"}"#);
    let j = forward_ollama_chat_via_openai(&body, None, None, None, false).unwrap();
    assert_eq!(j.get_str("model"), Some("a"));
    assert!(forward_ollama_chat_via_openai(&value("[]"), None, None, None, false).is_none());
    assert!(takes_keys(&Json::Null) && !takes_keys(&value("[]")));
}

#[test]
fn a_chunk_is_a_piece_of_the_answer() {
    let text = r#"{"choices":[{"delta":{"content":"hi"}}]}"#;
    assert!(matches!(read_chunk(&value(text)), Passage::Piece(p) if p == "hi"));
    assert!(matches!(read_chunk(&value("{}")), Passage::Nothing));
}

#[test]
fn a_reply_tells_of_a_server() {
    let kinds = vec!["vllm".to_string()];
    let s = replied_server(&value(r#"{"models":[{}]}"#), "http://h", &kinds, None, 4);
    assert_eq!((s.kind.as_str(), s.model_count, s.url.as_str()), ("ollama", 1, "http://h"));
    let s = replied_server(&value("{}"), "http://h", &kinds, None, 4);
    assert_eq!((s.kind.as_str(), s.model_count, s.latency_ms), ("vllm", 0, 4));
}

#[test]
fn chunks_make_a_completion() {
    let one = r#"{"choices":[{"delta":{"content":"a"}}]}"#;
    let two = r#"{"choices":[{"delta":{"content":"b"},"finish_reason":"length"}]}"#;
    let whole = chunks_to_completion(&vec![value(one), value(two)]);
    assert_eq!(
        print(&whole),
        r#"{"choices":[{"finish_reason":"length","message":{"content":"ab","role":"assistant"}}]}"#
    );
    let sse = format!("data: {one}\n\ndata: {two}\n\ndata: [DONE]\n");
    assert_eq!(print(&sse_bytes_to_completion(&sse)), print(&whole));
}

#[test]
fn a_chunk_is_held_back_where_a_call_begins() {
    let mut state = SseTransformState::new();
    let line = r#"data: {"choices":[{"delta":{"content":"hi"}}]}"#;
    let sent = state.process_chunk(line, value(&line[6..])).unwrap();
    assert_eq!(sent, vec![line.to_string()]);
    let line = r#"data: {"choices":[{"delta":{"content":"{\"a\""}}]}"#;
    assert!(state.process_chunk(line, value(&line[6..])).unwrap().is_empty());
    let line = r#"data: {"choices":[{"delta":{},"finish_reason":"stop"}]}"#;
    assert!(state.process_chunk(line, value(&line[6..])).is_none());
}

#[test]
fn intel_cards_are_read() {
    let found = value(
        r#"{"device_list":[{"device_id":3,"device_name":"Max","memory_physical_size_byte":2097152}]}"#,
    );
    assert_eq!(device_ids_in(&found), Some(vec![3]));
    assert_eq!(device_ids_in(&value("{}")), None);
    let s = xpu_status(&found, &vec![value("{}")]).unwrap();
    assert_eq!((s.source.as_deref(), s.memory_total_mb), (Some("xpu-smi"), 2));
    assert!(xpu_status(&value("{}"), &vec![]).is_none());
    let s = top_status(&value(r#"{"power":{"GPU":25.5}}"#), Some(17));
    assert_eq!((s.utilization_pct, s.power_draw_w), (17, Some(26)));
}

#[test]
fn a_run_on_a_cell_goes_step_by_step() {
    let go = |event| run_inference_cell_task(event, "a/b", "Q4");
    let shown = |m: &CellMove| {
        m.report.as_ref().map(|r| (r.status.clone(), r.progress_pct, r.message.clone()))
    };
    let say = |s: &str, p, m: &str| Some((s.to_string(), p, m.to_string()));
    let m = go(CellEvent::Asked);
    assert_eq!(shown(&m), say("queued", Some(0), "Starting Hugging Face download"));
    assert_eq!(m.action, CellAction::Resolve);
    let m = go(CellEvent::Resolved(Ok("http://c".to_string())));
    assert_eq!(shown(&m), say("downloading", Some(10), "Pulling a/b (Q4)"));
    assert_eq!(m.action, CellAction::StartPull("http://c".to_string()));
    let m = go(CellEvent::PullStarted(Ok("j".to_string())));
    assert!(m.report.is_none());
    assert_eq!(m.action, CellAction::Poll("j".to_string()));
    let running = PullJobStatus { status: "running".to_string(), error: None };
    let step = poll_pull_job(200, "", Some(running));
    let m = go(CellEvent::Polled { job: "j".to_string(), step });
    assert_eq!(shown(&m), say("downloading", Some(60), "Downloading from Hugging Face"));
    assert_eq!(m.action, CellAction::Poll("j".to_string()));
    let m = go(CellEvent::Polled { job: "j".to_string(), step: PullStep::Done });
    assert_eq!(shown(&m), say("loading", Some(95), "Loading model into inference cell"));
    assert_eq!(m.action, CellAction::Reload);
    let m = go(CellEvent::Reloaded);
    assert_eq!(shown(&m), say("ready", Some(100), "Model is ready on inference cell"));
    assert_eq!(m.action, CellAction::End);
    let failed = || "x".to_string();
    for event in [
        CellEvent::Resolved(Err(failed())),
        CellEvent::PullStarted(Err(failed())),
        CellEvent::Polled { job: "j".to_string(), step: PullStep::Fail(failed()) },
        CellEvent::Unanswered(failed()),
    ] {
        let m = go(event);
        assert_eq!(shown(&m), say("failed", None, "x"));
        assert_eq!(m.action, CellAction::End);
    }
}

#[test]
fn a_completion_is_answered_as_ollama_does() {
    let j = ollama_reply_to("m", br#"{"choices":[{"message":{"content":"hi"}}]}"#);
    assert_eq!(j.get_str("model"), Some("m"));
    assert_eq!(j.get("message").and_then(|m| m.get_str("content")), Some("hi"));
    assert!(j.get_str("created_at").unwrap().starts_with("20"));
    let j = ollama_reply_to("m", b"no json");
    assert_eq!(j.get("message").and_then(|m| m.get_str("content")), Some(""));
}

#[test]
fn bytes_that_are_no_text_are_repaired() {
    let mut lines = OllamaStream::new("m");
    let mut piece = br#"data: {"choices":[{"delta":{"content":"a"#.to_vec();
    piece.push(0xff);
    piece.extend_from_slice(b"\"}}]}\n");
    let sent = lines.feed_bytes(&piece);
    assert_eq!(sent.len(), 1);
    assert!(sent[0].contains("a\u{fffd}"));
    let mut agent = AgentStream::new(AgentResponseFormat::ChatCompletions, true);
    assert_eq!(agent.feed_bytes(b": \xfe\n"), vec![": \u{fffd}".to_string()]);
}
