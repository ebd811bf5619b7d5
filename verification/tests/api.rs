use peer::api::alias::alias_api_peer_to_client;
use peer::api::chat::{
    auto_chat_title, get_chat_models, post_chat_session, put_chat_session, ChatMessage, KeptChat,
};
use peer::api::models::{
    action_failed, catalog_limit, cell_source, collect_unified_model_names,
    get_hf_model_quants, get_models_catalog_entry, inference_cell_model_action, local_model_action,
    patch_model_visibility, post_model_run_local, post_model_visibility_bulk,
    require_hf_inference_cell_server, set_model_hidden, Abilities, LocalModelAction,
    ModelRunLocalBody, ModelStep, RunPlan,
};
use peer::api::networks::{
    enter_swarm, post_cluster_create, post_cluster_join, post_cluster_maintenance, post_swarm_join,
    put_cluster_schedule, put_swarm_schedule, remember_cluster, resolved_swarm,
    set_cluster_connected, set_swarm_connected, CreateClusterBody, JoinClusterBody, JoinPlan,
    JoinSwarmBody, ScheduleBody, SwarmJoin,
};
use peer::api::servers::{
    health_check_failed, patch_llm_server, post_llm_select, post_llm_server,
    put_llm_server_admin_token, put_llm_server_api_key, AddLlmServerBody, SecretAction,
    ServerProbe,
};
use peer::api::settings::{
    default_tx_limit, get_settings, post_block_peer, post_report_peer, put_settings,
    transactions_limit, SettingsUpdateBody,
};
use peer::api::setup::{
    beta_signup_pending, finish_register, first_cluster, get_setup, lobby_gateway_err,
    post_beta_signup, post_register, remember_registration, update_setup_complete, BetaSignupBody,
    RegisterBody,
};
use peer::api::status::{
    client_display_url, credits_after, get_status, LlmServerView, RunningState, Surroundings,
};
use peer::chat_models::ChatModelEntry;
use peer::client_config::{
    ClientConfig, ClusterResponse, LlmServerEntry, RegisterPeerResponse, SwarmMembership,
};
use peer::cluster_manager::{peer_connection_view, ConnectedPeer, PeerDirection};
use peer::desktop::{
    client_env, default_attestation_skip, is_production_lobby, lobby_probe_url, next_delay,
    normalize_lobby_host, persist_lobby, resolve_lobby_host, resolve_proxy_port, setup_defaults,
    submit_lobby_setup, wait_step, wait_timed_out, BootstrapState, DesktopSettings, WaitStep,
};
use peer::inference_ipc::{
    falls_back_to_tcp, frame, frame_len, inference_ipc_port, inference_ipc_tcp_addr,
};
use peer::json::{parse, print, Json};
use peer::llm_chat::{available_models, chosen_model, read_input, ChatInput, LLMChat};
use peer::shared::{GpuHistory, GpuThermalGuardStatus, NetworkMode};
use peer::startup::{
    asks_lobby, check_servers, lobby_server_host, proxy_port, spawn_manager, starts_by_itself,
    starts_servers, Network,
};

fn value(text: &str) -> Json {
    parse(text).expect("JSON")
}

fn strings(v: &[&str]) -> Vec<String> {
    v.iter().map(|s| s.to_string()).collect()
}

fn some(s: &str) -> Option<String> {
    Some(s.to_string())
}

fn cluster(id: &str) -> ClusterResponse {
    ClusterResponse {
        cluster_id: id.to_string(),
        name: some("n"),
        visibility: some("private"),
        continent: None,
        require_e2ee: None,
        required_attestation_flags: None,
    }
}

fn server(id: &str, kind: &str, attached: bool) -> LlmServerEntry {
    let mut s = post_llm_select(kind, "http://u/");
    s.id = id.to_string();
    s.attached = attached;
    s
}

#[test]
fn both_names_of_a_path_are_one() {
    assert_eq!(alias_api_peer_to_client("/api/peer/status", None), some("/api/client/status"));
    assert_eq!(
        alias_api_peer_to_client("/api/peer/transactions", Some("limit=1")),
        some("/api/client/transactions?limit=1")
    );
    assert_eq!(alias_api_peer_to_client("/api/client/status", None), None);
}

fn register(name: &str, password: &str, email: Option<&str>, terms: bool) -> RegisterBody {
    RegisterBody {
        registered: false,
        has_existing_service: false,
        service_name: some(name),
        service_password: some(password),
        peer_id: some(" p "),
        cluster_name: None,
        contact_email: email.map(str::to_string),
        terms_accepted: terms,
    }
}

#[test]
fn registrations_are_checked() {
    let ok = post_register(&register(" s ", "pw", Some(" e "), true), false).unwrap();
    assert!(ok.create_new_service);
    assert_eq!(ok.service_name, "s");
    assert_eq!(ok.contact_email.as_deref(), Some("e"));
    assert_eq!(ok.peer_id.as_deref(), Some(" p "));
    let message = |b: RegisterBody| post_register(&b, false).unwrap_err().message;
    assert_eq!(message(register("s", "pw", Some("e"), false)), "terms acceptance required");
    assert_eq!(message(register(" ", "pw", Some("e"), true)), "service name required");
    assert_eq!(message(register("s", "", Some("e"), true)), "service password required");
    assert_eq!(message(register("s", "pw", None, true)), "contact email required");
    let invited = post_register(&register("s", "pw", None, false), true).unwrap();
    assert!(!invited.create_new_service);
    assert_eq!(invited.contact_email, None);
    assert_eq!(invited.peer_id.as_deref(), Some("p"));
    let mut existing = register("s", "pw", None, false);
    existing.has_existing_service = true;
    assert!(!post_register(&existing, false).unwrap().create_new_service);
    assert_eq!(first_cluster(&existing), "europe");
}

#[test]
fn setup_goes_step_by_step() {
    let mut cfg = ClientConfig::default();
    assert_eq!(get_setup(&cfg).step, 1);
    let reg = RegisterPeerResponse {
        peer_id: "p".into(),
        service_id: "s".into(),
        service_name: "n".into(),
        credit_balance: 7,
        ice_servers: None,
    };
    remember_registration(&mut cfg, &reg, "lobby:1");
    assert_eq!(cfg.lobby_host, "lobby:1");
    assert_eq!(get_setup(&cfg).step, 2);
    let r = finish_register(&mut cfg, &reg, &cluster("c"), "europe", true);
    assert_eq!((r.credit_balance, r.created_new_service), (7, true));
    assert_eq!(get_setup(&cfg).step, 3);
    assert!(!update_setup_complete(&mut cfg));
    cfg.llm_servers.push(server("s", "ollama", true));
    assert!(update_setup_complete(&mut cfg));
    assert_eq!(get_setup(&cfg).step, 4);
    assert!(get_setup(&cfg).has_llm);
    let e = lobby_gateway_err("Join", "x");
    assert_eq!((e.status, e.message.as_str()), (502, r#"{"error":"Join: x"}"#));
    assert!(lobby_gateway_err("Join", "build_id not on allowlist")
        .message
        .contains("register-allowed-build.sh"));
    let beta = |terms| BetaSignupBody {
        email: " e ".into(),
        service_name: "s".into(),
        service_password: "p".into(),
        terms_accepted: terms,
    };
    assert_eq!(post_beta_signup(&beta(true)).unwrap().0, "e");
    assert_eq!(post_beta_signup(&beta(false)).unwrap_err().status, 400);
    assert_eq!(beta_signup_pending().status, "pending");
}

#[test]
fn clusters_are_made_and_joined() {
    let mut cfg = ClientConfig::default();
    let body = |v: Option<&str>| CreateClusterBody {
        name: None,
        visibility: v.map(str::to_string),
        password: None,
        required_attestation_flags: None,
    };
    assert_eq!(post_cluster_create(&cfg, &body(None)).unwrap_err().message, "peer not registered");
    cfg.peer_id = some("p");
    assert_eq!(post_cluster_create(&cfg, &body(Some("PUBLIC"))).unwrap_err().status, 403);
    assert_eq!(
        post_cluster_create(&cfg, &body(None)).unwrap(),
        ("p".to_string(), "private".to_string())
    );
    let join = |id: Option<&str>, name: Option<&str>| {
        post_cluster_join(&JoinClusterBody {
            cluster_id: id.map(str::to_string),
            name: name.map(str::to_string),
            password: None,
        })
    };
    assert!(matches!(join(Some("i"), Some("n")), Ok(JoinPlan::Private(_, _))));
    assert!(matches!(join(Some("i"), Some(" ")), Ok(JoinPlan::ById(_))));
    assert!(matches!(join(None, Some("n")), Ok(JoinPlan::ByName(_))));
    assert_eq!(join(None, None).unwrap_err().status, 400);
    let told = remember_cluster(&mut cfg, &cluster("c"), some("pw"));
    assert_eq!(told.cluster_id, "c");
    assert_eq!(cfg.clusters[0].room_secret.as_deref(), Some("pw"));
    set_cluster_connected(&mut cfg, "c", true).unwrap();
    set_cluster_connected(&mut cfg, "c", false).unwrap();
    assert_eq!(cfg.clusters[0].connected, Some(false));
    post_cluster_maintenance(&mut cfg, "c", true).unwrap();
    assert_eq!(cfg.clusters[0].accepting_jobs, Some(false));
    let hours = ScheduleBody { enabled: Some(true), start: some("08:00"), end: None };
    put_cluster_schedule(&mut cfg, "c", hours).unwrap();
    assert_eq!(cfg.clusters[0].schedule_start.as_deref(), Some("08:00"));
    assert_eq!(cfg.clusters[0].schedule_end, None);
    let e = set_cluster_connected(&mut cfg, "x", true).unwrap_err();
    assert_eq!((e.status, e.message.as_str()), (404, "cluster not found"));
}

fn join_swarm(cfg: &mut ClientConfig, token: &str, nodes: &[&str]) -> SwarmJoin {
    let body = JoinSwarmBody {
        p2p_token: token.to_string(),
        name: some("n"),
        bootnodes: strings(nodes),
    };
    post_swarm_join(cfg, &body).unwrap()
}

#[test]
fn swarms_are_joined_once() {
    let mut cfg = ClientConfig::default();
    let swarm: SwarmMembership = match join_swarm(&mut cfg, " t ", &[]) {
        SwarmJoin::Resolve(s) => resolved_swarm(s, strings(&["/found"])),
        _ => panic!("to be resolved"),
    };
    assert_eq!(swarm.p2p_token, "t");
    let told = enter_swarm(&mut cfg, swarm);
    assert_eq!(cfg.p2p_mode, NetworkMode::Swarm);
    assert_eq!(cfg.swarms[0].bootnodes, strings(&["/found"]));
    set_swarm_connected(&mut cfg, &told.swarm_id, false).unwrap();
    match join_swarm(&mut cfg, "t", &["/given"]) {
        SwarmJoin::Entered(again) => assert_eq!(again.swarm_id, told.swarm_id),
        _ => panic!("already there"),
    }
    assert_eq!(cfg.swarms.len(), 1);
    assert_eq!(cfg.swarms[0].connected, Some(true));
    assert_eq!(cfg.swarms[0].bootnodes, strings(&["/given"]));
    assert!(matches!(join_swarm(&mut cfg, "other", &["/n"]), SwarmJoin::Enter(_)));
    let empty = JoinSwarmBody { p2p_token: " ".into(), name: None, bootnodes: vec![] };
    assert_eq!(post_swarm_join(&mut cfg, &empty).unwrap_err().message, "p2p_token required");
    let hours = ScheduleBody { enabled: None, start: None, end: some("18:00") };
    put_swarm_schedule(&mut cfg, &told.swarm_id, hours).unwrap();
    assert_eq!(cfg.swarms[0].schedule_end.as_deref(), Some("18:00"));
    assert_eq!(set_swarm_connected(&mut cfg, "x", true).unwrap_err().message, "swarm not found");
}

fn add(kind: &str) -> AddLlmServerBody {
    AddLlmServerBody {
        kind: kind.to_string(),
        url: "http://u//".to_string(),
        label: None,
        api_key: None,
        api_type: None,
        models: None,
    }
}

#[test]
fn servers_are_added_and_changed() {
    let (entry, probe) = post_llm_server(add("llama.cpp")).unwrap();
    assert_eq!((entry.kind.as_str(), entry.url.as_str()), ("llamacpp", "http://u"));
    assert_eq!(probe, ServerProbe::Plain);
    assert_eq!(post_llm_server(add("inference_cell")).unwrap().1, ServerProbe::Cell);
    assert_eq!(post_llm_server(add("custom")).unwrap_err().status, 400);
    let mut cfg = ClientConfig::default();
    cfg.llm_servers.push(server("a", "ollama", false));
    cfg.llm_servers.push(server("b", "inference-cell", true));
    assert!(matches!(
        put_llm_server_api_key(&cfg, "a", &some("k")).unwrap(),
        SecretAction::Put(k) if k == "k"
    ));
    assert!(matches!(put_llm_server_api_key(&cfg, "a", &some("")).unwrap(), SecretAction::Delete));
    assert_eq!(put_llm_server_api_key(&cfg, "x", &None).unwrap_err().status, 404);
    assert!(put_llm_server_admin_token(&cfg, "b", &some("t")).is_ok());
    assert_eq!(put_llm_server_admin_token(&cfg, "a", &None).unwrap_err().status, 400);
    assert_eq!(put_llm_server_admin_token(&cfg, "x", &None).unwrap_err().status, 404);
    assert_eq!(patch_llm_server(&mut cfg, "b", Some(false)), Ok(true));
    assert!(!cfg.llm_servers[1].advertise_to_cluster);
    assert_eq!(patch_llm_server(&mut cfg, "a", None), Ok(false));
    assert_eq!(patch_llm_server(&mut cfg, "x", None).unwrap_err().message, "Server not found");
    assert_eq!(health_check_failed("x").message, "Health check failed: x");
}

fn can(embed_only: bool, embed: bool, generate: bool) -> Abilities {
    Abilities { embed_only, embed, generate }
}

fn post(step: ModelStep) -> (String, String, String) {
    match step {
        ModelStep::Post(path, body, what) => (path.to_string(), print(&body), what.to_string()),
        _ => panic!("a request"),
    }
}

#[test]
fn models_are_loaded_unloaded_and_deleted() {
    let all = vec![value(r#"{"name":"c","_source_kind":"inference-cell"}"#), value(r#"{"name":"m"}"#)];
    let act = |n: &str, a, native, k| local_model_action(n, a, &all, native, k);
    let chat = can(false, false, true);
    assert!(matches!(
        act("c", LocalModelAction::Load, None, chat),
        Ok(ModelStep::Cell)
    ));
    assert!(matches!(
        act("m", LocalModelAction::Delete, Some(true), chat),
        Ok(ModelStep::Delete)
    ));
    let (path, body, what) = post(act("m", LocalModelAction::Load, Some(true), chat).unwrap());
    assert_eq!((path.as_str(), what.as_str()), ("/api/generate", "Ollama load"));
    assert_eq!(body, r#"{"keep_alive":"30m","model":"m","prompt":".","stream":false}"#);
    let (path, body, what) = post(act("m", LocalModelAction::Unload, Some(true), chat).unwrap());
    assert_eq!((path.as_str(), what.as_str()), ("/api/generate", "Ollama unload"));
    assert_eq!(body, r#"{"keep_alive":0,"model":"m","prompt":".","stream":false}"#);
    let embed = can(true, true, false);
    let (path, body, _) = post(act("m", LocalModelAction::Load, Some(true), embed).unwrap());
    assert_eq!(path, "/api/embed");
    assert_eq!(body, r#"{"input":".","keep_alive":"30m","model":"m"}"#);
    let both = can(false, true, false);
    let (_, _, what) = post(act("m", LocalModelAction::Unload, Some(true), both).unwrap());
    assert_eq!(what, "Ollama embed unload");
    let e = act("m", LocalModelAction::Load, Some(true), both).unwrap_err();
    assert!(e.message.starts_with("m is an embedding model"));
    let none = can(false, false, false);
    let e = act("m", LocalModelAction::Unload, Some(true), none).unwrap_err();
    assert_eq!(e.message, "m does not support generate unload");
    let e = act("m", LocalModelAction::Load, None, chat).unwrap_err();
    assert_eq!(e.message, "No Ollama backend available for this model");
    let e = act("m", LocalModelAction::Load, Some(false), chat).unwrap_err();
    assert!(e.message.contains("only supported for Ollama models"));
    assert_eq!(action_failed("Ollama load", "500", "x").message, "Ollama load failed: 500 x");
}

#[test]
fn inference_cells_are_asked() {
    let m = value(r#"{"_source_server":"s","_source_url":"http://c/"}"#);
    assert_eq!(cell_source(Some(&m)).unwrap(), ("s".to_string(), "http://c".to_string()));
    assert!(cell_source(None).unwrap_err().message.contains("server id"));
    let half = value(r#"{"_source_server":"s"}"#);
    assert!(cell_source(Some(&half)).unwrap_err().message.contains("URL"));
    let r = inference_cell_model_action("http://c", "m", LocalModelAction::Delete, Some("t"));
    assert_eq!(r.url, "http://c/mtrxai/v1/models/delete");
    assert_eq!(print(&r.body.unwrap()), r#"{"filename":"m"}"#);
    assert_eq!(r.authorization.as_deref(), Some("Bearer t"));
    let r = inference_cell_model_action("http://c", "m", LocalModelAction::Unload, None);
    assert!(r.body.is_none() && r.authorization.is_none());
}

fn run(model: &str, server: Option<&str>, repo: Option<&str>) -> ModelRunLocalBody {
    ModelRunLocalBody {
        model: model.to_string(),
        server_id: server.map(str::to_string),
        hf_repo: repo.map(str::to_string),
        quant: None,
    }
}

#[test]
fn models_are_run_here() {
    let mut cfg = ClientConfig::default();
    cfg.llm_servers.push(server("cell", "inference-cell", true));
    cfg.llm_servers.push(server("off", "inference-cell", false));
    cfg.llm_servers.push(server("o", "ollama", true));
    let plan = |b: ModelRunLocalBody, n: usize, e: Option<&str>| {
        post_model_run_local(&cfg, n, &b, e, false)
    };
    assert_eq!(plan(run("m", None, None), 0, None).unwrap_err().status, 503);
    assert!(matches!(plan(run(" m ", None, None), 1, None), Ok(RunPlan::Ollama(m, None)) if m == "m"));
    assert_eq!(plan(run(" ", None, None), 1, None).unwrap_err().message, "model required");
    match plan(run("m", Some("cell"), Some("org/repo")), 1, Some("llamacpp")).unwrap() {
        RunPlan::Cell { server_id, hf_repo, quant, display_name } => {
            assert_eq!((server_id.as_str(), hf_repo.as_str()), ("cell", "org/repo"));
            assert_eq!((quant.as_str(), display_name.as_str()), ("Q4_K_M", "m"));
        }
        _ => panic!("on the cell"),
    }
    assert!(matches!(
        plan(run("m", Some("cell"), None), 1, Some("ollama")),
        Ok(RunPlan::Ollama(_, Some(s))) if s == "cell"
    ));
    let e = |b, k| plan(b, 1, k).unwrap_err().message;
    assert_eq!(e(run("", Some("cell"), None), Some("llamacpp")), "hf_repo required");
    assert_eq!(e(run("m", Some("x"), None), None), "server not found");
    assert!(e(run("m", Some("o"), None), None).contains("only valid for inference-cell"));
    assert_eq!(e(run("m", Some("off"), None), Some("x")), "server is not attached");
    assert!(require_hf_inference_cell_server(&cfg, "cell", Some("llamacpp"), false).is_ok());
    let fault = |id: &str, k: Option<&str>| {
        require_hf_inference_cell_server(&cfg, id, k, false).unwrap_err().message
    };
    assert!(fault("cell", Some("ollama")).contains("Ollama library catalog"));
    assert!(fault("o", None).contains("requires a llama.cpp"));
    assert_eq!(get_hf_model_quants(" ").unwrap_err().message, "repo required");
    assert_eq!(catalog_limit(None), 50);
    assert_eq!(catalog_limit(Some(-3)), 1);
    assert_eq!(catalog_limit(Some(900)), 200);
    assert_eq!(
        get_models_catalog_entry("llama3:8b/x\u{e9}"),
        "/api/public/models/catalog/llama3%3A8b%2Fx%E9"
    );
}

#[test]
fn models_are_hidden_and_shown() {
    let mut hidden = strings(&["a"]);
    set_model_hidden(&mut hidden, " b ", true);
    set_model_hidden(&mut hidden, "b", true);
    set_model_hidden(&mut hidden, " ", true);
    assert_eq!(hidden, strings(&["a", "b"]));
    set_model_hidden(&mut hidden, "a", false);
    assert_eq!(hidden, strings(&["b"]));
    let mut cfg = ClientConfig::default();
    assert_eq!(patch_model_visibility(&mut cfg, "m", false).unwrap(), strings(&["m"]));
    assert_eq!(patch_model_visibility(&mut cfg, " ", false).unwrap_err().status, 400);
    let local = vec![value(r#"{"name":"z"}"#), value(r#"{"name":""}"#), value("{}")];
    let network = vec![value(r#"{"name":"a"}"#), value(r#"{"name":"z"}"#)];
    assert_eq!(collect_unified_model_names(&local, &network), strings(&["a", "z"]));
    let all = post_model_visibility_bulk(&mut cfg, false, &local, &network);
    assert_eq!(all, strings(&["a", "z"]));
    assert_eq!(cfg.hidden_models, all);
    assert!(post_model_visibility_bulk(&mut cfg, true, &local, &network).is_empty());
}

fn update() -> SettingsUpdateBody {
    SettingsUpdateBody {
        auto_approve_run_model_request: None,
        auto_approve_inference_connections: None,
        allow_unattested_peers: None,
        ollama_tls_insecure: None,
        default_num_predict: None,
        default_num_ctx: None,
        default_schedule_enabled: None,
        default_schedule_start: None,
        default_schedule_end: None,
        gpu_thermal_guard_enabled: None,
        gpu_thermal_threshold_c: None,
        gpu_thermal_duration_secs: None,
        gpu_thermal_cooldown_c: None,
        gpu_thermal_auto_resume: None,
    }
}

#[test]
fn settings_are_changed_as_far_as_they_are_given() {
    let mut cfg = ClientConfig::default();
    let before = cfg.copy();
    assert!(!put_settings(&mut cfg, update()));
    assert_eq!(cfg, before);
    let mut body = update();
    body.ollama_tls_insecure = Some(false);
    body.default_num_predict = Some(Some(5));
    body.default_num_ctx = Some(Some(0));
    body.gpu_thermal_threshold_c = Some(80);
    body.default_schedule_start = some("08:00");
    assert!(put_settings(&mut cfg, body));
    let shown = get_settings(&cfg);
    assert!(!shown.ollama_tls_insecure);
    assert_eq!(shown.default_num_predict, Some(5));
    assert_eq!(shown.default_num_ctx, None);
    assert_eq!(shown.gpu_thermal_threshold_c, Some(80));
    assert_eq!(shown.default_schedule_start.as_deref(), Some("08:00"));
    let mut again = update();
    again.ollama_tls_insecure = Some(false);
    again.default_num_predict = Some(None);
    assert!(!put_settings(&mut cfg, again));
    assert_eq!(cfg.default_num_predict, None);
    assert_eq!(post_block_peer("me", "me"), Err(400));
    assert_eq!(post_block_peer("me", "you"), Ok(()));
    assert_eq!(post_report_peer("me", "you", Some(" why ")).unwrap(), "why");
    assert_eq!(post_report_peer("me", "you", Some(" ")), Err(400));
    assert_eq!(default_tx_limit(), 50);
    assert_eq!(transactions_limit(0), 1);
    assert_eq!(transactions_limit(501), 500);
}

fn message(role: &str, content: &str) -> ChatMessage {
    ChatMessage { role: role.to_string(), content: content.to_string() }
}

#[test]
fn chats_get_titles() {
    let long = "x".repeat(60);
    let said = vec![message("assistant", "hello"), message("user", &long)];
    assert_eq!(auto_chat_title(&said, "New chat"), format!("{}\u{2026}", "x".repeat(48)));
    assert_eq!(auto_chat_title(&said, "Mine"), "Mine");
    assert_eq!(auto_chat_title(&vec![], " "), "New chat");
    assert_eq!(auto_chat_title(&vec![message("user", " hi ")], ""), "hi");
    assert_eq!(post_chat_session(some(" "), None), ("New chat".to_string(), String::new()));
    let kept = KeptChat { title: "T".into(), model: "m".into(), created_at_unix: 9 };
    assert_eq!(
        put_chat_session(Some(kept), None, some(""), &said),
        ("T".to_string(), "m".to_string(), Some(9))
    );
    assert_eq!(put_chat_session(None, None, some("n"), &vec![]).1, "n");
}

#[test]
fn chat_models_go_by_the_names_of_their_networks() {
    let entry = |kind: &str, label: &str| ChatModelEntry {
        name: "m".into(),
        location: "remote".into(),
        source_kind: kind.into(),
        source_label: label.into(),
        loaded: None,
    };
    let list = get_chat_models(
        vec![entry("cluster", "c1"), entry("swarm", "s1"), entry("cluster", "c2")],
        &vec![("c1".to_string(), some("Europe")), ("c2".to_string(), some(""))],
        &vec![("s1".to_string(), some("Swarm"))],
    );
    let labels: Vec<&str> = list.iter().map(|m| m.source_label.as_str()).collect();
    assert_eq!(labels, vec!["Europe", "Swarm", "c2"]);
}

#[test]
fn the_state_is_told() {
    let mut cfg = ClientConfig::default();
    cfg.service_name = some("svc");
    cfg.hidden_models = strings(&["h"]);
    let peer = |d| ConnectedPeer {
        peer_id: "p".into(),
        cluster_id: None,
        swarm_id: None,
        direction: d,
        since_secs: 0,
        data_channel_open: true,
        attestation_flags: 0,
    };
    let connections = vec![
        peer_connection_view(&peer(PeerDirection::Inbound), &vec![], None),
        peer_connection_view(&peer(PeerDirection::Outbound), &vec![], None),
        peer_connection_view(&peer(PeerDirection::Inbound), &vec![], None),
    ];
    let app = RunningState {
        peer_id: "p".into(),
        service_id: "s".into(),
        clusters: vec![],
        swarms: vec![],
        credit_balance: 5,
        lobby_connected: true,
        local_models: vec![],
        network_models: vec![],
        gpu_host: None,
        gpu_history: GpuHistory { short: vec![], long: vec![] },
        peer_connections: connections,
        outgoing_model_requests: vec![],
        incoming_model_offers: vec![],
        incoming_connection_offers: vec![],
        local_model_runs: vec![],
        local_model_collisions: vec![],
        gpu_thermal_guard: GpuThermalGuardStatus::default(),
    };
    let view = |attached| LlmServerView {
        id: "a".into(),
        kind: "ollama".into(),
        label: None,
        attached,
        details: Json::Null,
    };
    let here = Surroundings {
        lobby_api_url: "http://lobby".into(),
        proxy_port: 11345,
        proxy_bind: "0.0.0.0".into(),
        network_paused: false,
        network_disconnected: true,
    };
    let s = get_status(&cfg, app, vec![view(true), view(false)], here);
    assert_eq!(s.client_url, "http://127.0.0.1:11345");
    assert_eq!(s.attached_server_count, 1);
    assert_eq!((s.connections.inbound_count, s.connections.outbound_count), (2, 1));
    assert_eq!(s.service_name, "svc");
    assert_eq!(s.hidden_models, strings(&["h"]));
    assert!(s.network_disconnected);
    assert_eq!(client_display_url("10.0.0.1", 1), "http://10.0.0.1:1");
    assert_eq!(credits_after("s", 1, Some(2)), 2);
    assert_eq!(credits_after("", 1, Some(2)), 1);
}

#[test]
fn a_peer_starts_with_its_settings() {
    assert_eq!(proxy_port(Some("80"), Some("81")), 80);
    assert_eq!(proxy_port(Some("x"), Some("81")), 81);
    assert_eq!(proxy_port(None, Some("99999")), 11345);
    assert_eq!(lobby_server_host(None, Some("l")), "l");
    assert_eq!(lobby_server_host(None, None), "127.0.0.1:8080");
    assert!(starts_by_itself(Some("c"), None, None));
    assert!(!starts_by_itself(Some(" "), Some("r"), None));
    assert!(starts_by_itself(None, None, Some("g")));
    let mut cfg = ClientConfig::default();
    assert!(!asks_lobby(&cfg) && !starts_servers(&cfg));
    cfg.peer_id = some("p");
    assert_eq!(spawn_manager(&cfg, Network::Clusters, false, true), None);
    cfg.setup_complete = true;
    assert!(asks_lobby(&cfg));
    assert_eq!(spawn_manager(&cfg, Network::Clusters, false, true).as_deref(), Some("p"));
    assert_eq!(spawn_manager(&cfg, Network::Clusters, true, true), None);
    assert_eq!(spawn_manager(&cfg, Network::Swarms, false, true), None);
    let c = check_servers(1, true, false);
    assert!(c.ready && c.rebuild);
    assert!(!check_servers(1, true, true).rebuild);
    assert!(!check_servers(0, true, false).ready);
}

#[test]
fn the_desktop_normalizes_its_lobby() {
    assert_eq!(normalize_lobby_host(" https://api.mtrxai.net/ ").unwrap(), "api.mtrxai.net:443");
    assert_eq!(normalize_lobby_host("10.0.0.1:8080").unwrap(), "10.0.0.1:8080");
    assert!(normalize_lobby_host(" ").is_err());
    assert!(is_production_lobby("api.mtrxai.net:443"));
    assert!(!is_production_lobby("10.0.0.1:8080"));
    assert_eq!(default_attestation_skip("10.0.0.1:8080", false), "1");
    let saved = DesktopSettings { lobby_host: "".into(), proxy_port: 0 };
    assert_eq!(setup_defaults(&saved).proxy_port, 11345);
    assert_eq!(resolve_proxy_port(&saved, Some("80")), 80);
    assert!(resolve_lobby_host(Some(&saved), Some("h:1")).unwrap().contains("h:1"));
    let mut kept = DesktopSettings { lobby_host: "old:1".into(), proxy_port: 9 };
    assert_eq!(
        submit_lobby_setup(&mut kept, "h:1", 0).unwrap_err(),
        "Client port must be between 1 and 65535."
    );
    for blank in [" ", "http://", "http://http:// /"] {
        assert_eq!(
            submit_lobby_setup(&mut kept, blank, 80).unwrap_err(),
            "Lobby server address is required."
        );
    }
    assert_eq!(kept, DesktopSettings { lobby_host: "old:1".into(), proxy_port: 9 });
    assert_eq!(submit_lobby_setup(&mut kept, "http://http://x:1", 80).unwrap(), "http://x:1");
    assert_eq!(kept, DesktopSettings { lobby_host: "x:1".into(), proxy_port: 80 });
    assert!(persist_lobby(&mut kept, "/", 81).is_err());
    assert!(persist_lobby(&mut kept, "api.mtrxai.net", 81).is_ok());
    assert_eq!(kept, DesktopSettings { lobby_host: "api.mtrxai.net:443".into(), proxy_port: 81 });
    assert_eq!(wait_step(29_999, true, 200), WaitStep::Done);
    assert_eq!(wait_step(29_999, false, 200), WaitStep::Wait { delay_ms: 200, next_ms: 400 });
    assert_eq!(wait_step(0, false, 1600), WaitStep::Wait { delay_ms: 1600, next_ms: 2000 });
    assert_eq!(wait_step(30_000, true, 200), WaitStep::GiveUp);
    assert_eq!(wait_timed_out(80), "timed out waiting for client at http://127.0.0.1:80/health");
    assert_eq!(client_env("h:1", 80, false).unwrap().proxy_port, "80");
    assert_eq!(lobby_probe_url("h:1").unwrap(), "http://h:1/api/public/clusters");
    assert_eq!(next_delay(250), 500);
    assert_eq!(next_delay(1500), 2000);
    let mut b = BootstrapState::new();
    assert!(b.begin().is_ok());
    assert_eq!(b.begin().unwrap_err(), "client startup already in progress");
    b.end();
    assert!(b.begin().is_ok());
}

#[test]
fn frames_keep_their_length() {
    let f = frame(&vec![7u8; 300]);
    assert_eq!(f[..4], [44, 1, 0, 0]);
    assert_eq!(frame_len(&[44, 1, 0, 0]), Ok(300));
    assert_eq!(frame_len(&[1, 0, 0, 1]).unwrap_err(), "IPC frame too large");
    assert_eq!(inference_ipc_port(None), 12745);
    assert_eq!(inference_ipc_tcp_addr("h", Some("9")), "h:9");
    assert!(falls_back_to_tcp("h") && !falls_back_to_tcp("127.0.0.1"));
}

#[test]
fn chats_on_the_console_remember_what_was_said() {
    let names = available_models(&value(r#"{"models":[{"name":"a"},{"name":"b"}]}"#)).unwrap();
    assert_eq!(chosen_model(&names, " 2 ").as_deref(), Some("b"));
    assert_eq!(chosen_model(&names, "3"), None);
    let mut chat = LLMChat::new("h", 11434, "a", Some(&names)).unwrap();
    let request = chat.request("hi");
    assert!(print(&request).contains("hi"));
    let reply = chat
        .take_reply("hi", 200, Ok(&value(r#"{"message":{"content":"hello"}}"#)))
        .unwrap();
    assert_eq!(reply, "hello");
    assert_eq!(chat.take_reply("hi", 200, Err("no JSON")), Err("no JSON".to_string()));
    assert_eq!(
        chat.take_reply("hi", 200, Ok(&value("{}"))),
        Err("Invalid response from Ollama".to_string())
    );
    assert_eq!(
        chat.take_reply("hi", 500, Err("no JSON")),
        Err("Ollama server error: 500".to_string())
    );
    assert_eq!(chat.get_history().len(), 1);
    chat.clear_history();
    assert!(chat.get_history().is_empty());
    assert!(LLMChat::new("h", 1, "zzz", Some(&names)).is_err());
    assert!(matches!(read_input(" EXIT "), ChatInput::Exit));
    assert!(matches!(read_input(" "), ChatInput::Nothing));
}
