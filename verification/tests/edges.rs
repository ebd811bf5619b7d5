use peer::api::models::{
    post_model_request, post_model_respond, ModelStartAction, StartChannel,
};
use peer::client_config::{CustomModelEntry, LlmServerEntry};
use peer::cluster_dc_e2ee::dispatch::proxy_error;
use peer::gpu::command::{
    amd_smi_candidates, intel_gpu_top_candidates, rocm_smi_candidates, xpu_smi_candidates,
};
use peer::gpu::registry::{
    detect_gpu_probes, gpu_probe_registry, native_probes, GpuProbeRegistry, Probe, VendorFilter,
};
use peer::inference_ipc::inference_ipc_listen_tcp_addr;
use peer::inference_sidecar::sidecar_upstream_error;
use peer::json::{parse, print, Json};
use peer::llm_backend::{LlmBackend, LlmBackendKind};
use peer::p2p_protocol::StreamMessage;

fn all_tools() -> GpuProbeRegistry {
    let path = |name: &str| Some(format!("/bin/{name}"));
    GpuProbeRegistry {
        nvidia_smi: path("nvidia-smi"),
        amd_smi: path("amd-smi"),
        rocm_smi: path("rocm-smi"),
        xpu_smi: path("xpu-smi"),
        intel_gpu_top: path("intel_gpu_top"),
        apple: false,
        apple_ioreg: path("ioreg"),
        apple_sysctl: path("sysctl"),
    }
}

#[test]
fn tools_are_chosen() {
    assert!(!amd_smi_candidates().is_empty() && !rocm_smi_candidates().is_empty());
    assert!(!xpu_smi_candidates().is_empty() && !intel_gpu_top_candidates().is_empty());
    let every = VendorFilter { nvidia: true, amd: true, intel: true, apple: true };
    let reg = detect_gpu_probes(every, all_tools(), true, false);
    assert!(reg.rocm_smi.is_none() && reg.intel_gpu_top.is_none() && !reg.apple);
    let probes = native_probes(&reg);
    assert_eq!(probes.len(), 3);
    assert!(matches!(&probes[0], Probe::Nvidia(p) if p == "/bin/nvidia-smi"));
    assert!(matches!(&probes[1], Probe::Amd(p) if p == "/bin/amd-smi"));
    assert!(matches!(&probes[2], Probe::Xpu(p) if p == "/bin/xpu-smi"));
    let mut some = all_tools();
    some.amd_smi = None;
    some.xpu_smi = None;
    let few = VendorFilter { nvidia: false, amd: true, intel: true, apple: true };
    let probes = native_probes(&detect_gpu_probes(few, some, true, true));
    assert!(matches!(&probes[0], Probe::Rocm(p) if p == "/bin/rocm-smi"));
    assert!(matches!(&probes[1], Probe::IntelGpuTop(p) if p == "/bin/intel_gpu_top"));
    assert!(matches!(&probes[2], Probe::Apple(a, b) if a == "/bin/ioreg" && b == "/bin/sysctl"));
}

#[test]
fn failures_are_told() {
    for (m, expected) in [
        (proxy_error("r".to_string(), 1, "x"), "Proxy Error: x"),
        (sidecar_upstream_error("r".to_string(), 1, "x"), "Upstream error: x"),
    ] {
        match m {
            StreamMessage::EncryptedProxyResponse { req_id, error, .. } => {
                assert_eq!((req_id.as_str(), error.as_deref()), ("r", Some(expected)))
            }
            other => panic!("{other:?}"),
        }
    }
    assert_eq!(inference_ipc_listen_tcp_addr("h", Some("1")), "h:1");
}

fn entry(kind: &str) -> LlmServerEntry {
    LlmServerEntry {
        id: "s".to_string(),
        kind: kind.to_string(),
        url: "http://h/".to_string(),
        label: None,
        attached: true,
        order: 0,
        source: "manual".to_string(),
        api_type: None,
        models: vec![CustomModelEntry {
            id: " m ".to_string(),
            name: None,
            url: None,
            tool_calling: None,
            vision: None,
            max_input_tokens: None,
            max_output_tokens: None,
        }],
        advertise_to_cluster: true,
    }
}

#[test]
fn servers_are_described() {
    let client = || reqwest::Client::new();
    let b = LlmBackend::from_server_entry_probed(
        &entry("inference-cell"),
        None,
        client(),
        Some("ollama"),
    );
    assert_eq!(b.kind(), LlmBackendKind::Ollama);
    let b = LlmBackend::from_server_entry_probed(&entry("inference-cell"), None, client(), None);
    assert_ne!(b.kind(), LlmBackendKind::Ollama);
    match LlmBackend::from_server_entry(&entry("custom"), None, client()) {
        LlmBackend::Custom(c) => {
            let catalog = c.list_models(None);
            assert_eq!(catalog.model_names, vec!["m".to_string()]);
            assert_eq!(catalog.models[0].get_str("name"), Some("m"));
        }
        _ => panic!("no custom endpoint"),
    }
}

#[test]
fn numbers_keep_their_text() {
    for text in ["1.5", "0.0", "-2.5", "12.25"] {
        match parse(text) {
            Some(Json::Float(n)) => assert_eq!(n.to_text(), text),
            other => panic!("{other:?}"),
        }
    }
    for text in ["1e300", "18446744073709551616"] {
        match parse(text) {
            Some(Json::Float(n)) => assert!(n.to_text().contains('e') || n.to_text().contains('.')),
            other => panic!("{other:?}"),
        }
    }
    assert!(matches!(parse("7"), Some(Json::UInt(7))));
    assert!(matches!(parse("-7"), Some(Json::NegInt(-7))));
}

#[test]
fn what_is_printed_is_read_back() {
    let text = r#"{"a":[1,-2,null,true,{"b":"\u0000 \"x\" ü"}],"c":18446744073709551615}"#;
    let j = parse(text).unwrap();
    assert_eq!(parse(&print(&j)), Some(j));
    let nested = |n: usize| format!("{}{}", "[".repeat(n), "]".repeat(n));
    assert_eq!(parse(&nested(127)).map(|j| print(&j)), Some(nested(127)));
    assert_eq!(parse(&nested(128)), None);
}

#[test]
fn networks_hear_of_models_to_start() {
    let (action, channel, id) =
        post_model_request("m".to_string(), Some("c".to_string()), None);
    assert_eq!((channel, id.len()), (StartChannel::Clusters, 36));
    assert!(matches!(action, ModelStartAction::Request { req_id, model, .. }
        if req_id == id && model == "m"));
    let (action, channel) =
        post_model_respond("r".to_string(), true, None, Some("s".to_string()));
    assert_eq!(channel, StartChannel::Swarms);
    assert!(matches!(action, ModelStartAction::Respond { accept: true, .. }));
}

#[test]
fn tools_are_looked_for_once() {
    let every = VendorFilter { nvidia: true, amd: true, intel: true, apple: true };
    let none = VendorFilter { nvidia: false, amd: false, intel: false, apple: false };
    let first = gpu_probe_registry(None, every, all_tools(), true, true);
    assert!(first.amd_smi.is_some() && first.rocm_smi.is_none());
    assert!(first.xpu_smi.is_some() && first.intel_gpu_top.is_none());
    assert!(first.apple && first.apple_ioreg.is_some() && first.apple_sysctl.is_some());
    let later = gpu_probe_registry(Some(first.clone()), none, all_tools(), true, true);
    assert_eq!(later.amd_smi, first.amd_smi);
    assert_eq!(later.nvidia_smi, first.nvidia_smi);
}
