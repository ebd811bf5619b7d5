use peer::agent_compat::request::{
    apply_ollama_body_defaults, clean_schema, ensure_ollama_ctx_options,
    ensure_ollama_predict_options, ensure_stream_usage, parse_positive_setting,
};
use peer::agent_compat::response::{
    agent_debug_enabled, message_text_content, sse_payload_from_line,
};
use peer::agent_compat::tool_calls::{
    extract_balanced_json_object, text_content_to_calls, text_content_to_tool_calls, value_to_calls,
};
use peer::api::networks::{post_swarm_create, post_swarm_maintenance};
use peer::client_config::lobby::{
    apply_env_identity, beta_signup_body, bootstrap_keeps_clusters, bootstrap_registers,
    default_google_stun_servers, has_setup, ice_step_from_peer_reply, is_invite_only_registration,
    is_register_mode, join_by_name_body, proves_identity, IceStep,
};
use peer::client_config::memberships::{
    cluster_accepts_jobs, cluster_is_connected, find_swarm, swarm_accepts_jobs, swarm_is_connected,
};
use peer::client_config::servers::{is_custom_server_kind, is_inference_cell_kind};
use peer::client_config::settings::{effective_default_num_ctx, env_non_empty};
use peer::client_config::{ClientConfig, ClusterMembership, ClusterResponse, LobbyConfigResponse};
use peer::cluster_manager::{
    attach_cluster_models, cluster_membership_from_response, cluster_status, clusters_to_stop,
    find_cluster_for_model, moderation_targets, reconcile_clusters, record_cluster_error, route_action,
    route_proxy_cmd, starts_cluster, survives_stop, sync_cluster_status_list,
    sync_peer_connections, ConnectedPeer, PeerDirection, Route,
    ScheduleFields,
};
use peer::decimal::decimal_number;
use peer::gpu::util::{
    amd_architecture_label, avg_optional_u8, infer_producer, mb_from_bytes, parse_optional_u32,
    parse_optional_u8, pct_from_used_total, unavailable_gpu_status,
};
use peer::json::{keys_of, object, parse, parse_or_message, print, string, to_value, Json};
use peer::llm_discovery::{port_probes, probe_reply, probe_url};
use peer::shared::NetworkMode;
use peer::strmap::StrMap;
use peer::text::{
    dec_u64, eq_ignore_ascii_case, fields, find, is_before, lines, parse_up_to, rest_after, rows,
    split, strip_prefix, trim, trim_end_char, trim_end_matches, trim_start_matches,
    truncate_preview, word,
};

fn value(text: &str) -> Json {
    parse(text).expect("JSON")
}

fn strings(v: &[&str]) -> Vec<String> {
    v.iter().map(|s| s.to_string()).collect()
}

#[test]
fn texts_are_cut() {
    assert_eq!(trim(" \u{a0}a b\t\n"), "a b");
    assert_eq!(split("a,b,,", ','), strings(&["a", "b", "", ""]));
    assert_eq!(lines("a\r\nb\n"), strings(&["a", "b"]));
    assert_eq!(rows(" a \n\n b"), strings(&["a", "b"]));
    assert_eq!(fields(" a , b", ','), strings(&["a", "b"]));
    assert_eq!(trim_end_char("a//", '/'), "a");
    assert_eq!(trim_end_matches("abcc", "c"), "ab");
    assert_eq!(trim_start_matches("data:data: x", "data:"), " x");
    assert_eq!(strip_prefix("ab", "a").as_deref(), Some("b"));
    assert_eq!(strip_prefix("ab", "b"), None);
    assert_eq!(rest_after("key: v", ": ").as_deref(), Some("v"));
    assert_eq!(word("  ab cd").as_deref(), Some("ab"));
    assert_eq!(word("  "), None);
    assert_eq!(find("abcb", "b"), Some(1));
    assert!(eq_ignore_ascii_case("ExIt", "exit") && !eq_ignore_ascii_case("\u{c9}", "\u{e9}"));
    assert!(is_before("a", "b") && is_before("a", "ab") && !is_before("b", "a"));
}

#[test]
fn texts_are_numbers() {
    assert_eq!(dec_u64(0), "0");
    assert_eq!(dec_u64(u64::MAX), u64::MAX.to_string());
    assert_eq!(parse_up_to("65535", 65535), Some(65535));
    assert_eq!(parse_up_to("65536", 65535), None);
    assert_eq!(parse_up_to("+7", 255), Some(7));
    assert_eq!(parse_up_to("", 255), None);
    assert_eq!(decimal_number("12.5", true), Some(13));
    assert_eq!(decimal_number("12.5", false), Some(12));
    assert_eq!(decimal_number("1e3", false), Some(1000));
    assert_eq!(decimal_number("x", false), None);
    assert_eq!(truncate_preview("abc", 2).chars().take(2).collect::<String>(), "ab");
    assert_eq!(truncate_preview("abc", 3), "abc");
}

#[test]
fn json_is_read_and_written() {
    let j = value(r#"{"b":[1,-2,2.5,null,true],"a":"x","a":"y"}"#);
    assert_eq!(print(&j), r#"{"a":"y","b":[1,-2,2.5,null,true]}"#);
    assert_eq!(to_value(&j).to_string(), print(&j));
    assert!(parse_or_message("{").unwrap_err().contains("EOF"));
    let mut made = object().with("k", string("v"));
    made.set("k", Json::UInt(1));
    made.set("l", Json::Null);
    assert_eq!(keys_of(&made).len(), 2);
    assert_eq!(print(&made), r#"{"k":1,"l":null}"#);
    assert_eq!(made.get("k").and_then(|v| v.as_u64()), Some(1));
}

#[test]
fn requests_are_completed_from_settings() {
    let mut body = value(r#"{"stream":true}"#);
    assert!(ensure_stream_usage(&mut body));
    assert_eq!(print(&body), r#"{"stream":true,"stream_options":{"include_usage":true}}"#);
    let mut body = value("{}");
    assert!(ensure_ollama_predict_options(&mut body, Some("7")));
    assert!(ensure_ollama_ctx_options(&mut body, Some("9")));
    assert_eq!(print(&body), r#"{"options":{"num_ctx":9,"num_predict":7}}"#);
    assert_eq!(apply_ollama_body_defaults("no json".to_string(), Some("7"), None), "no json");
    assert_eq!(parse_positive_setting(Some("0")), None);
    assert_eq!(parse_positive_setting(Some("12")), Some(12));
    let schema = value(r#"{"$schema":"x","type":"object"}"#);
    assert_eq!(print(&clean_schema(&schema)), r#"{"type":"object"}"#);
    assert!(agent_debug_enabled(Some("1")) && !agent_debug_enabled(Some("0")));
    assert_eq!(sse_payload_from_line("data: {}").as_deref(), Some("{}"));
    assert_eq!(message_text_content(&value(r#"{"content":"hi"}"#)), "hi");
}

#[test]
fn tool_calls_are_found_in_texts() {
    assert_eq!(
        extract_balanced_json_object(r#" {"b":"}"} c"#).as_deref(),
        Some(r#"{"b":"}"}"#)
    );
    assert_eq!(extract_balanced_json_object("a {}"), None);
    assert_eq!(extract_balanced_json_object("{"), None);
    let calls = value_to_calls(&value(r#"{"name":"ls","arguments":{"a":1}}"#)).unwrap();
    assert_eq!((calls[0].name.as_str(), calls[0].arguments.as_str()), ("ls", r#"{"a":1}"#));
    assert!(value_to_calls(&value(r#"{"arguments":{}}"#)).is_none());
    let calls = text_content_to_calls(r#"I run {"name":"ls","arguments":{}}"#).unwrap();
    assert_eq!(calls[0].name, "ls");
    assert!(text_content_to_calls("nothing").is_none());
    let made = print(&text_content_to_tool_calls(r#"{"name":"ls","arguments":{}}"#).unwrap());
    assert!(made.contains(r#""name":"ls""#) && made.contains(r#""id":"call_"#));
}

fn lobby(mode: &str) -> LobbyConfigResponse {
    LobbyConfigResponse { peer_registration: mode.to_string() }
}

#[test]
fn the_lobby_is_asked() {
    assert!(is_invite_only_registration(&lobby("invitation")));
    assert!(is_invite_only_registration(&lobby("invite_only")));
    assert!(is_register_mode(&lobby("register")) && !is_register_mode(&lobby("open")));
    assert!(proves_identity(Some("p")) && !proves_identity(Some(" ")) && !proves_identity(None));
    assert_eq!(
        print(&beta_signup_body("e", "s", "p", true)),
        r#"{"email":"e","service_name":"s","service_password":"p","terms_accepted":true}"#
    );
    assert_eq!(print(&join_by_name_body(" n ", Some(" "))), r#"{"name":"n","password":null}"#);
    let stun = default_google_stun_servers();
    assert_eq!(stun[0].urls, strings(&["stun:stun.l.google.com:19302"]));
    assert_eq!(ice_step_from_peer_reply(vec![]), IceStep::AskPublicly);
    assert_eq!(ice_step_from_peer_reply(stun.clone()), IceStep::Use(stun));
    let mut cfg = ClientConfig::default();
    apply_env_identity(&mut cfg, Some(" p "), Some(" "), None);
    assert_eq!((cfg.peer_id.as_deref(), cfg.service_id.as_deref()), (Some("p"), None));
    apply_env_identity(&mut cfg, Some("q"), Some("s"), None);
    assert_eq!((cfg.peer_id.as_deref(), cfg.service_id.as_deref()), (Some("p"), Some("s")));
    let mut fresh = ClientConfig::default();
    assert!(bootstrap_registers(&fresh, None, false));
    assert!(!bootstrap_registers(&fresh, Some(&lobby("register")), false));
    assert!(bootstrap_registers(&fresh, Some(&lobby("register")), true));
    assert!(!has_setup(&fresh));
    fresh.clusters.push(cluster("c"));
    fresh.setup_complete = true;
    assert!(bootstrap_keeps_clusters(&fresh, None, None));
    assert!(!bootstrap_keeps_clusters(&fresh, Some("1"), None));
}

fn cluster(id: &str) -> ClusterMembership {
    let response = ClusterResponse {
        cluster_id: id.to_string(),
        name: Some("n".to_string()),
        visibility: None,
        continent: None,
        require_e2ee: None,
        required_attestation_flags: None,
    };
    cluster_membership_from_response(&response, Some("s".to_string()))
}

#[test]
fn memberships_start_connected() {
    let c = cluster("c");
    assert_eq!(c.visibility.as_deref(), Some("public"));
    assert_eq!(c.room_secret, c.cluster_password);
    assert!(cluster_accepts_jobs(&c) && cluster_is_connected(&c));
    let mut cfg = ClientConfig::default();
    cfg.clusters.push(c);
    let made = post_swarm_create(&mut cfg, None, Some("t".to_string()), Some("/a, /b"));
    assert_eq!(made.p2p_token, "t");
    assert_eq!(cfg.p2p_mode, NetworkMode::Both);
    let swarm = find_swarm(&cfg, &made.swarm_id).unwrap();
    assert_eq!(swarm.bootnodes, strings(&["/a", "/b"]));
    assert!(swarm_accepts_jobs(swarm) && swarm_is_connected(swarm));
    post_swarm_maintenance(&mut cfg, &made.swarm_id, true).unwrap();
    assert!(!swarm_accepts_jobs(&cfg.swarms[0]));
    assert!(post_swarm_maintenance(&mut cfg, "x", true).is_err());
    assert!(is_custom_server_kind("CustomEndpoint") && is_inference_cell_kind("INFERENCE_CELL"));
    cfg.default_num_ctx = Some(5);
    assert_eq!(effective_default_num_ctx(&cfg, Some("9")), Some(5));
    assert_eq!(env_non_empty(Some(" x ")).as_deref(), Some("x"));
    assert_eq!(env_non_empty(Some("  ")), None);
}

fn peer_in(cluster: &str, direction: PeerDirection) -> ConnectedPeer {
    ConnectedPeer {
        peer_id: "p".into(),
        cluster_id: Some(cluster.to_string()),
        swarm_id: None,
        direction,
        since_secs: 0,
        data_channel_open: true,
        attestation_flags: 0,
    }
}

fn schedule() -> ScheduleFields {
    ScheduleFields {
        schedule_enabled: false,
        schedule_start: None,
        schedule_end: None,
        schedule_next_transition_at: None,
        schedule_inside_window: true,
    }
}

#[test]
fn clusters_have_a_status() {
    let peers = vec![
        peer_in("c", PeerDirection::Inbound),
        peer_in("c", PeerDirection::Outbound),
        peer_in("d", PeerDirection::Outbound),
    ];
    let mut connected = StrMap::new();
    connected.insert("c".to_string(), true);
    let s = cluster_status(&cluster("c"), &peers, &connected, schedule(), false, &vec![]);
    assert!(s.lobby_connected && s.accepting_jobs && s.connected && !s.thermal_paused);
    assert_eq!((s.inbound_peers, s.outbound_peers), (1, 1));
    let mut cfg = ClientConfig::default();
    cfg.clusters.push(cluster("c"));
    cfg.clusters.push(cluster("d"));
    let schedules = vec![schedule(), schedule()];
    let list = sync_cluster_status_list(&cfg, &peers, &connected, schedules, false, &vec![]);
    assert_eq!((list.len(), list[0].inbound_peers, list[1].outbound_peers), (2, 1, 1));
    assert!(list[0].lobby_connected && !list[1].lobby_connected);
    let views = sync_peer_connections(&peers, &strings(&["p"]), vec![None, None, None]);
    assert_eq!((views.len(), views[0].direction.as_str()), (3, "inbound"));
    assert!(views[2].blocked && views[2].direction == "outbound");
    let mut all = vec![s];
    record_cluster_error(&mut all, "c", "late");
    assert_eq!(all[0].last_error.as_deref(), Some("late"));
    let mut models = StrMap::new();
    models.insert("c".to_string(), vec![value(r#"{"name":"m"}"#)]);
    attach_cluster_models(&mut all, &models);
    assert_eq!(all[0].network_models.len(), 1);
    assert!(!survives_stop(&peers[0], "c") && survives_stop(&peers[2], "c"));
}

#[test]
fn clusters_are_started_and_stopped() {
    let mut cfg = ClientConfig::default();
    cfg.clusters.push(cluster("a"));
    let mut off = cluster("b");
    off.connected = Some(false);
    cfg.clusters.push(off);
    assert_eq!(clusters_to_stop(&strings(&["a", "b", "c"]), &cfg), strings(&["b", "c"]));
    assert!(starts_cluster(&cfg.clusters[0], &vec![]));
    assert!(!starts_cluster(&cfg.clusters[0], &strings(&["a"])));
    assert!(!starts_cluster(&cfg.clusters[1], &vec![]));
    let catalog = vec![
        ("a".to_string(), vec![value(r#"{"name":"m","_peer_count":1}"#)]),
        ("b".to_string(), vec![value(r#"{"name":"m","_peer_count":4}"#)]),
    ];
    assert_eq!(find_cluster_for_model("m", &catalog).as_deref(), Some("b"));
    let active = strings(&["b"]);
    let to = |blocked, id, model: &str| route_proxy_cmd(blocked, id, model, &catalog, &active);
    assert_eq!(to(None, None, "m"), Route::Forward("b".to_string()));
    assert_eq!(to(Some("p"), None, "m"), Route::Refuse("Peer p is blocked".to_string()));
    assert_eq!(to(None, None, "x"), Route::Refuse("No cluster advertises model x".to_string()));
    assert_eq!(
        to(None, Some("a"), "m"),
        Route::Refuse("Not connected to cluster a".to_string())
    );
    let plan = reconcile_clusters(&strings(&["b", "c"]), &cfg);
    assert_eq!((plan.stop, plan.start), (strings(&["b", "c"]), strings(&["a"])));
    let plan = reconcile_clusters(&strings(&["a"]), &cfg);
    assert!(plan.stop.is_empty() && plan.start.is_empty());
    assert_eq!(route_action(None, &active), None);
    assert_eq!(route_action(Some("b"), &active), Some(Route::Forward("b".to_string())));
    let two = strings(&["a", "b"]);
    assert_eq!(moderation_targets(true, &two), two);
    assert_eq!(moderation_targets(false, &two), strings(&["a"]));
}

#[test]
fn gpu_numbers_are_read() {
    assert_eq!(parse_optional_u8(" 45 "), Some(45));
    assert_eq!(parse_optional_u8("[N/A]"), None);
    assert_eq!(parse_optional_u32("120"), Some(120));
    assert_eq!(parse_optional_u32("120.4"), None);
    assert_eq!(avg_optional_u8(&vec![10, 21]), Some(15));
    assert_eq!(avg_optional_u8(&vec![]), None);
    assert_eq!(mb_from_bytes(3 * 1024 * 1024), 3);
    assert_eq!(pct_from_used_total(1, 4), 25);
    assert_eq!(pct_from_used_total(1, 0), 0);
    assert_eq!(infer_producer("nvidia GeForce", None).as_deref(), Some("NVIDIA"));
    assert!(amd_architecture_label("AMD Radeon RX 7900 XTX", Some("gfx1100")).is_some());
    let none = unavailable_gpu_status();
    assert!(!none.available && none.sampled_at_unix.unwrap_or(0) > 0);
}

#[test]
fn servers_on_this_host_are_found() {
    assert!(port_probes().iter().any(|p| p.url.ends_with(":11434") && p.path == "/api/tags"));
    assert_eq!(probe_url("http://h/", "/v1/models"), "http://h/v1/models");
    let kinds = strings(&["vllm", "llamacpp"]);
    let s = probe_reply(r#"{"models":[{},{}]}"#, "http://h", &kinds, None, 3).unwrap();
    assert_eq!((s.kind.as_str(), s.model_count, s.latency_ms), ("ollama", 2, 3));
    let s = probe_reply(r#"{"data":[{}]}"#, "http://h", &kinds, None, 3).unwrap();
    assert_eq!(s.model_count, 1);
    assert!(probe_reply("no json", "http://h", &kinds, None, 3).is_none());
}
