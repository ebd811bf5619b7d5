use peer::client_config::{ClientConfig, CustomModelEntry, LlmServerEntry};
use peer::gpu::GpuProbeMode;
use peer::inference_cell_run::{
    find_inference_cell_server, poll_pull_job, pull_body, pull_message, pull_reply,
    pull_status_url, pull_url, resolve_inference_cell_server, upsert_local_run, PullJobStatus,
    PullStep,
};
use peer::json::{parse, print, Json};
use peer::llm_backend::{
    authorization, backend_help, delete_body, delete_fallback_body, ensure_backend,
    normalize_backend_label, openai_models, parse_kind,
    probe_inference_cell_engine, synthesize_tags, synthesize_v1_models, InferenceCellInfo, LlmBackend,
    LlmBackendKind,
};
use peer::llm_discovery::{classify_openai_compat, port_probes, probe_url, scan_local_servers, DiscoveredServer};
use reqwest::Client;

fn value(text: &str) -> Json {
    parse(text).expect("JSON")
}

fn server(kind: &str, attached: bool) -> LlmServerEntry {
    LlmServerEntry {
        id: "s1".to_string(),
        kind: kind.to_string(),
        url: "https://127.0.0.1:8443/".to_string(),
        label: None,
        attached,
        order: 0,
        source: "manual".to_string(),
        api_type: None,
        models: vec![],
        advertise_to_cluster: true,
    }
}

fn config(servers: Vec<LlmServerEntry>) -> ClientConfig {
    ClientConfig { llm_servers: servers, ..Default::default() }
}

#[test]
fn parse_kind_recognizes_backends() {
    assert_eq!(parse_kind("ollama"), LlmBackendKind::Ollama);
    assert_eq!(parse_kind("Ollama"), LlmBackendKind::Ollama);
    assert_eq!(parse_kind("vllm"), LlmBackendKind::OpenAiCompat);
    assert_eq!(parse_kind("localai"), LlmBackendKind::LocalAi);
    assert_eq!(parse_kind("unknown"), LlmBackendKind::Ollama);
}

#[test]
fn normalize_backend_label_maps_aliases() {
    assert_eq!(normalize_backend_label("vllm"), "vllm");
    assert_eq!(normalize_backend_label("llama.cpp"), "llamacpp");
    assert_eq!(normalize_backend_label("lm-studio"), "lmstudio");
    assert_eq!(normalize_backend_label("openai"), "openai");
    assert_eq!(normalize_backend_label("something-else"), "ollama");
}

#[test]
fn inference_cell_kind_is_openai_compat() {
    assert_eq!(parse_kind("inference-cell"), LlmBackendKind::OpenAiCompat);
    assert_eq!(normalize_backend_label("inference_cell"), "inference-cell");
}

#[test]
fn both_ways_to_a_backend_are_the_same() {
    let config = ClientConfig {
        llm_url: Some("http://127.0.0.1:11434/".to_string()),
        ..Default::default()
    };
    let a = ensure_backend(&config, Client::new()).unwrap();
    let b = peer::llm_backend::ensure_backend_from_config(&config, Client::new()).unwrap();
    assert_eq!(a.kind_str(), b.kind_str());
    assert_eq!(a.base_url(), b.base_url());
}

#[test]
fn ensure_backend_from_config() {
    let config = ClientConfig {
        llm_backend: Some("ollama".to_string()),
        llm_url: Some("http://127.0.0.1:11434".to_string()),
        ..Default::default()
    };
    let backend = ensure_backend(&config, Client::new()).unwrap();
    assert_eq!(backend.kind_str(), "ollama");
    assert_eq!(backend.base_url(), "http://127.0.0.1:11434");
    assert!(backend.supports_ollama_native());
}

#[test]
fn ensure_backend_requires_url() {
    let config = ClientConfig::default();
    let err = match ensure_backend(&config, Client::new()) {
        Ok(_) => panic!("no address"),
        Err(e) => e,
    };
    assert!(err.contains("LLM URL not configured"));
}

#[test]
fn parses_inference_cell_info_json() {
    let raw = r#"{"engine":"ollama","inference_api":"ollama","admin_api":"mtrxai/v1","version":"0.1.0"}"#;
    let info = InferenceCellInfo { engine: value(raw).get_str("engine").unwrap().to_string() };
    assert_eq!(info.engine, "ollama");
    assert_eq!(probe_inference_cell_engine(Some(info), false, true).as_deref(), Some("ollama"));
}

#[test]
fn find_inference_cell_server_requires_kind_and_attach() {
    let cfg = ClientConfig {
        llm_servers: vec![LlmServerEntry {
            id: "s1".to_string(),
            kind: "inference-cell".to_string(),
            url: "https://127.0.0.1:8443".to_string(),
            label: None,
            attached: false,
            order: 0,
            source: "manual".to_string(),
            api_type: None,
            models: vec![],
            advertise_to_cluster: true,
        }],
        ..Default::default()
    };
    assert!(find_inference_cell_server(&cfg, "s1").is_err());
    assert!(find_inference_cell_server(&cfg, "missing").is_err());
}

#[test]
fn inference_cell_servers_are_resolved() {
    let cfg = config(vec![server("inference-cell", true)]);
    assert_eq!(resolve_inference_cell_server(&cfg, "s1").unwrap(), "https://127.0.0.1:8443");
    assert_eq!(find_inference_cell_server(&cfg, "x").unwrap_err(), "server not found");
    let cfg = config(vec![server("inference-cell", false)]);
    assert_eq!(find_inference_cell_server(&cfg, "s1").unwrap_err(), "server is not attached");
    let cfg = config(vec![server("ollama", true)]);
    assert_eq!(
        find_inference_cell_server(&cfg, "s1").unwrap_err(),
        "server is not an inference-cell backend"
    );
}

#[test]
fn pulls_are_asked_for_and_followed() {
    assert_eq!(pull_url("http://c"), "http://c/mtrxai/v1/models/pull");
    assert_eq!(pull_status_url("http://c", "j"), "http://c/mtrxai/v1/models/pull/j");
    assert_eq!(print(&pull_body("o/r", "Q8_0")), r#"{"quant":"Q8_0","repo":"o/r"}"#);
    assert_eq!(pull_message("o/r", "Q8_0"), "Pulling o/r (Q8_0)");
    assert_eq!(pull_reply(200, "", Some("j".into())).unwrap(), "j");
    assert!(pull_reply(401, "", None).unwrap_err().contains("admin token required"));
    assert_eq!(pull_reply(500, "no", None).unwrap_err(), "inference-cell pull failed: no");
    assert_eq!(pull_reply(200, "", None).unwrap_err(), "parse pull response");
    let job = |s: &str| {
        Some(PullJobStatus { status: s.to_string(), error: None })
    };
    match poll_pull_job(200, "", job("running")) {
        PullStep::Report { status, progress_pct, .. } => {
            assert_eq!(status, "downloading");
            assert_eq!(progress_pct, 60);
        }
        other => panic!("{other:?}"),
    }
    match poll_pull_job(200, "", job("odd")) {
        PullStep::Fail(m) => assert_eq!(m, "unexpected inference-cell pull status: odd"),
        other => panic!("{other:?}"),
    }
    match poll_pull_job(503, "busy", None) {
        PullStep::Fail(m) => assert_eq!(m, "inference-cell pull status failed: busy"),
        other => panic!("{other:?}"),
    }
}

#[test]
fn a_run_keeps_its_model() {
    let mut runs = Vec::new();
    upsert_local_run(&mut runs, "j", "llama", "queued", None, None, 1);
    upsert_local_run(&mut runs, "j", "other", "running", Some(60), Some("m".into()), 2);
    assert_eq!(runs.len(), 1);
    assert_eq!(runs[0].model, "llama");
    assert_eq!(runs[0].status, "running");
    assert_eq!(runs[0].progress_pct, Some(60));
    assert_eq!(runs[0].updated_at_unix, 2);
}

#[test]
fn classify_ollama_shape_not_used_for_openai() {
    let json = value(r#"{ "data": [{ "id": "llama3" }] }"#);
    let kind = classify_openai_compat(&json, &vec!["vllm".to_string()], None);
    assert_eq!(kind, "vllm");
}

#[test]
fn classify_tgi_from_server_header() {
    let json = value(r#"{ "data": [] }"#);
    let kind = classify_openai_compat(&json, &vec!["llamacpp".to_string()], Some("tgi"));
    assert_eq!(kind, "tgi");
}

fn found(kind: &str, ms: u64) -> DiscoveredServer {
    DiscoveredServer {
        kind: kind.to_string(),
        url: format!("http://127.0.0.1/{kind}"),
        model_count: 1,
        latency_ms: ms,
        healthy: true,
    }
}

#[test]
fn servers_are_sorted_by_latency() {
    let servers = scan_local_servers(&vec![found("a", 30), found("b", 10), found("c", 20)]);
    let order: Vec<u64> = servers.iter().map(|s| s.latency_ms).collect();
    assert_eq!(order, vec![10, 20, 30]);
    assert_eq!(port_probes().len(), 5);
    assert_eq!(probe_url("http://127.0.0.1:1/", "/api/tags"), "http://127.0.0.1:1/api/tags");
}

#[test]
fn custom_endpoints_forward_by_their_models() {
    let mut entry = server("custom", true);
    entry.url = "https://api.example.com".to_string();
    entry.models = vec![
        CustomModelEntry {
            id: "m1".into(),
            name: Some("Model One".into()),
            url: None,
            tool_calling: Some(true),
            vision: None,
            max_input_tokens: Some(10),
            max_output_tokens: None,
        },
        CustomModelEntry {
            id: "m2".into(),
            name: None,
            url: Some("https://other.example.com/v2/chat".into()),
            tool_calling: None,
            vision: None,
            max_input_tokens: None,
            max_output_tokens: None,
        },
    ];
    let backend =
        LlmBackend::from_server_entry(&entry, Some("key".to_string()), Client::new());
    assert_eq!(backend.kind(), LlmBackendKind::Custom);
    assert!(!backend.is_full_url_path("m1"));
    assert!(backend.is_full_url_path("m2"));
    assert_eq!(backend.chat_path_for_model("m2"), "https://other.example.com/v2/chat");
    assert_eq!(backend.target_url("/v1/models"), "https://api.example.com/v1/models");
    assert_eq!(backend.api_key(), Some("key"));
    assert_eq!(authorization(Some("key")).as_deref(), Some("Bearer key"));
    assert_eq!(authorization(Some("")), None);
}

#[test]
fn listed_models_come_in_both_forms() {
    let snapshot = openai_models(&value(r#"{"data":[{"id":"a"},{"id":"b"},{}]}"#), None);
    assert_eq!(snapshot.model_names, vec!["a", "b"]);
    let v1 = synthesize_v1_models(&snapshot);
    assert_eq!(v1.get("data").unwrap().as_array().unwrap().len(), 2);
    let tags = synthesize_tags(snapshot);
    assert_eq!(tags.get("models").unwrap().as_array().unwrap().len(), 2);
}

#[test]
fn engines_are_found_out() {
    let info = InferenceCellInfo { engine: "vllm".to_string() };
    assert_eq!(probe_inference_cell_engine(Some(info), true, true).as_deref(), Some("vllm"));
    assert_eq!(probe_inference_cell_engine(None, true, true).as_deref(), Some("ollama"));
    assert!(parse_kind("custom") == LlmBackendKind::Custom);
    assert_eq!(print(&value(&delete_body("m"))), r#"{"model":"m"}"#);
    assert_eq!(print(&value(&delete_fallback_body("m"))), r#"{"model":"m","name":"m"}"#);
    assert_eq!(backend_help(LlmBackendKind::Ollama), "Make sure Ollama is running: ollama serve");
    assert_eq!(probe_inference_cell_engine(None, false, true).as_deref(), Some("llamacpp"));
    assert_eq!(probe_inference_cell_engine(None, false, false), None);
    assert_eq!(peer::llm_backend::default_gpu_probe(None), GpuProbeMode::Auto);
}
