use peer::attestation::{
    attestation_key_embedded, attestation_skip_enabled, attestation_step, build_claims, build_id,
    build_proof, hash_current_binary, library_candidates, library_fault, platform_string,
    startup_line, startup_note, AttestationChallenge, AttestationClaims, AttestationStep, BuildFacts,
};
use peer::chat_models::{build_chat_models, is_hosted_remote_kind};
use peer::client_config::lobby::{
    complete_bootstrap, create_cluster_body, credits_path,
    ice_servers_from_public_reply, ice_step_from_setting, join_cluster_body, join_private_body,
    lobby_failure, registration_body, setup_port, IceStep,
};
use peer::client_config::settings::{is_yes, legacy_config};
use peer::client_config::{
    apply_cli_overrides, client_config_path, create_swarm_membership, default_bootnodes_from_env,
    default_public_cluster_name, effective_default_num_predict, effective_gpu_thermal_settings,
    effective_ollama_tls_insecure, ensure_p2p_mode_for_swarms, find_cluster, find_swarm_by_token,
    invalidate_local_peer_identity, list_public_clusters, membership_from_response,
    network_mode_from_env, parse_network_mode, public_continents, remove_cluster, remove_swarm,
    requires_credentials_registration, resolve_swarm_bootnodes,
    service_credentials_for_registration, upsert_cluster, upsert_inference_cell_server,
    upsert_swarm, validate_custom_server_entry, ClientConfig, ClusterListView, ClusterResponse,
    CustomModelEntry, LlmServerEntry, LobbyConfigResponse,
};
use peer::cluster_manager::{
    clusters_to_stop, find_cluster_for_model, moderation_targets, peer_connection_view,
    route_action, route_proxy_cmd, starts_cluster, survives_stop, ConnectedPeer, PeerDirection,
    Route,
};
use peer::connect_allowance::ConnectionAllowanceStore;
use peer::hf_catalog::{
    catalog_entry, default_quant_for, effective_hf_token, extract_quants_from_gguf_names,
    gguf_filenames, repo_of, search_goes_on, search_limit, search_query, validate_repo,
};
use peer::json::{parse, print, Json};
use peer::shared::NetworkMode;

fn value(text: &str) -> Json {
    parse(text).expect("JSON")
}

const ID: &str = "67e55044-10b1-426f-9247-bb680e5fe0c8";

fn response(id: &str) -> ClusterResponse {
    ClusterResponse {
        cluster_id: id.to_string(),
        name: Some("n".to_string()),
        visibility: None,
        continent: None,
        require_e2ee: Some(true),
        required_attestation_flags: None,
    }
}

#[test]
fn client_config_defaults_disallow_unattested_peers() {
    let cfg = ClientConfig::default();
    assert!(!cfg.allow_unattested_peers);
}

#[test]
fn hosted_kinds_are_remote() {
    assert!(is_hosted_remote_kind("openai"));
    assert!(is_hosted_remote_kind("OpenAI"));
    assert!(is_hosted_remote_kind("custom"));
    assert!(is_hosted_remote_kind("customendpoint"));
    assert!(!is_hosted_remote_kind("ollama"));
    assert!(!is_hosted_remote_kind("vllm"));
    assert!(!is_hosted_remote_kind("inference-cell"));
    assert!(!is_hosted_remote_kind("lmstudio"));
}

#[test]
fn local_ollama_is_local() {
    let local = vec![value(
        r#"{"name": "llama3.2:latest", "_source_kind": "ollama", "_source_server": "srv1", "_status": { "loaded": true }}"#,
    )];
    let servers = vec![("srv1".to_string(), "ollama".to_string(), Some("Ollama".to_string()))];
    let list = build_chat_models(&local, &vec![], &servers);
    assert_eq!(list.len(), 1);
    assert_eq!(list[0].location, "local");
    assert_eq!(list[0].source_kind, "ollama");
    assert_eq!(list[0].source_label, "Ollama");
    assert_eq!(list[0].loaded, Some(true));
}

#[test]
fn openai_attached_is_remote() {
    let local = vec![value(
        r#"{"name": "gpt-4o", "_source_kind": "openai", "_source_server": "oa1"}"#,
    )];
    let servers = vec![("oa1".to_string(), "openai".to_string(), None)];
    let list = build_chat_models(&local, &vec![], &servers);
    assert_eq!(list.len(), 1);
    assert_eq!(list[0].location, "remote");
    assert_eq!(list[0].source_kind, "openai");
}

#[test]
fn custom_attached_is_remote() {
    let local =
        vec![value(r#"{"name": "my-api", "_source_kind": "custom", "_source_server": "c1"}"#)];
    let list = build_chat_models(&local, &vec![], &vec![]);
    assert_eq!(list[0].location, "remote");
}

#[test]
fn network_only_is_remote() {
    let network = vec![value(
        r#"{"name": "qwen2.5:32b", "_clusters": [{ "cluster_id": "abc", "name": "europe" }]}"#,
    )];
    let list = build_chat_models(&vec![], &network, &vec![]);
    assert_eq!(list.len(), 1);
    assert_eq!(list[0].location, "remote");
    assert_eq!(list[0].source_kind, "cluster");
    assert_eq!(list[0].source_label, "europe");
}

#[test]
fn local_wins_over_network_same_name() {
    let local =
        vec![value(r#"{"name": "shared", "_source_kind": "ollama", "_source_server": "s1"}"#)];
    let network = vec![value(r#"{"name": "shared", "_swarm_id": "sw1"}"#)];
    let list = build_chat_models(&local, &network, &vec![]);
    assert_eq!(list.len(), 1);
    assert_eq!(list[0].location, "local");
    assert_eq!(list[0].source_kind, "ollama");
}

#[test]
fn embed_only_omitted() {
    let local = vec![
        value(
            r#"{"name": "nomic-embed", "_source_kind": "ollama", "_show_info": { "capabilities": ["embedding"] }}"#,
        ),
        value(
            r#"{"name": "chatty", "_source_kind": "ollama", "_show_info": { "capabilities": ["completion"] }}"#,
        ),
    ];
    let list = build_chat_models(&local, &vec![], &vec![]);
    assert_eq!(list.len(), 1);
    assert_eq!(list[0].name, "chatty");
}

#[test]
fn sorted_by_name() {
    let local = vec![
        value(r#"{ "name": "zeta", "_source_kind": "ollama" }"#),
        value(r#"{ "name": "alpha", "_source_kind": "vllm" }"#),
    ];
    let list = build_chat_models(&local, &vec![], &vec![]);
    assert_eq!(list[0].name, "alpha");
    assert_eq!(list[1].name, "zeta");
}

#[test]
fn grant_validate_and_consume() {
    let mut store = ConnectionAllowanceStore::new(60_000);
    store.grant("req1".to_string(), "peer-a".to_string(), "llama3".to_string(), 0);
    let model = store.validate_and_consume("req1", "peer-a", 1);
    assert_eq!(model.as_deref(), Some("llama3"));
    assert!(store.validate_and_consume("req1", "peer-a", 2).is_none());
}

#[test]
fn reject_wrong_requester() {
    let mut store = ConnectionAllowanceStore::new(60_000);
    store.grant("req1".to_string(), "peer-a".to_string(), "llama3".to_string(), 0);
    assert!(store.validate_and_consume("req1", "peer-b", 1).is_none());
}

#[test]
fn reject_expired() {
    let mut store = ConnectionAllowanceStore::new(1);
    store.grant("req1".to_string(), "peer-a".to_string(), "llama3".to_string(), 0);
    assert!(store.validate_and_consume("req1", "peer-a", 5).is_none());
}

#[test]
fn purging_changes_no_answer() {
    let mut store = ConnectionAllowanceStore::new(10);
    store.grant("old".to_string(), "p".to_string(), "m".to_string(), 0);
    store.grant("new".to_string(), "p".to_string(), "m".to_string(), 8);
    store.purge_expired(12);
    assert!(store.validate_and_consume("old", "p", 12).is_none());
    assert_eq!(store.validate_and_consume("new", "p", 12).as_deref(), Some("m"));
}

#[test]
fn searches_take_a_query_and_find_repositories() {
    assert_eq!(search_query(" llama 3 ").as_deref(), Some("llama 3"));
    assert_eq!(search_query(" \t "), None);
    assert_eq!(repo_of(Some("org/m".into()), "id".into()), "org/m");
    assert_eq!(repo_of(None, "id".into()), "id");
}

#[test]
fn forms_come_in_order_and_once() {
    let names = |list: &[&str]| -> Vec<String> { list.iter().map(|n| n.to_string()).collect() };
    let some = names(&["m-Q8_0.gguf", "m-f16-x.gguf", "m-Q4_K_M.gguf", "mmproj-F32.gguf"]);
    let again = names(&["m-Q4_K_M.gguf", "m-Q8_0.gguf", "m-f16-x.gguf", "m-Q8_0.gguf"]);
    let forms = extract_quants_from_gguf_names(&some);
    assert_eq!(forms, vec!["F16", "Q4_K_M", "Q8_0"]);
    assert_eq!(extract_quants_from_gguf_names(&again), forms);
}

#[test]
fn extract_quants_from_names() {
    let names = vec![
        "Meta-Llama-3-8B-Instruct.Q4_K_M.gguf".to_string(),
        "Meta-Llama-3-8B-Instruct.Q8_0.gguf".to_string(),
    ];
    let quants = extract_quants_from_gguf_names(&names);
    assert!(quants.contains(&"Q4_K_M".to_string()));
    assert!(quants.contains(&"Q8_0".to_string()));
}

#[test]
fn default_quant_prefers_q4_k_m() {
    let quants = vec!["Q8_0".to_string(), "Q4_K_M".to_string()];
    assert_eq!(default_quant_for(&quants), "Q4_K_M");
}

#[test]
fn validate_repo_rejects_invalid() {
    assert!(validate_repo("not-a-repo").is_err());
    assert!(validate_repo("org/repo").is_ok());
}

#[test]
fn catalog_entries_are_made_of_model_files() {
    let files = gguf_filenames(vec!["a.Q8_0.gguf".into(), "README.md".into()]);
    assert_eq!(files, vec!["a.Q8_0.gguf"]);
    let e = catalog_entry("org/repo", &files, None).expect("entry");
    assert_eq!(e.repo, "org/repo");
    assert_eq!(e.quants, vec!["Q8_0"]);
    assert_eq!(e.default_quant, "Q8_0");
    assert_eq!(search_limit(0), 1);
    assert_eq!(search_limit(99), 50);
    assert!(search_goes_on(0, 0, 1));
    assert!(!search_goes_on(0, 1, 1));
    assert_eq!(effective_hf_token(Some(" ")), None);
}

#[test]
fn service_credentials_for_registration_requires_both_env_vars() {
    assert_eq!(service_credentials_for_registration(None, None), (None, None));
    assert_eq!(service_credentials_for_registration(Some("svc-only"), None), (None, None));
    let (name, password) = service_credentials_for_registration(Some("svc-only"), Some("secret"));
    assert_eq!(name.as_deref(), Some("svc-only"));
    assert_eq!(password.as_deref(), Some("secret"));
}

#[test]
fn platform_string_is_non_empty() {
    assert!(!platform_string("linux", "x86_64").is_empty());
    assert_eq!(platform_string("linux", "x86_64"), "linux/x86_64");
}

#[test]
fn attestation_skip_defaults_false_without_env() {
    assert!(!attestation_skip_enabled(None));
    assert!(attestation_skip_enabled(Some("1")));
    assert!(attestation_skip_enabled(Some("TRUE")));
}

#[test]
fn builds_prove_themselves_where_they_can() {
    assert!(matches!(attestation_step(Some("1"), ""), AttestationStep::Skip));
    assert!(matches!(attestation_step(None, "s"), AttestationStep::AskChallenge));
    match attestation_step(None, " ") {
        AttestationStep::Refuse(m) => assert!(m.contains("no embedded attestation key")),
        _ => panic!("refused"),
    }
    assert!(!attestation_key_embedded(" "));
    assert_eq!(build_id(&ID.to_uppercase()), ID);
    assert_eq!(build_id("no id"), "00000000-0000-0000-0000-000000000000");
    assert_eq!(
        startup_line(true, false, ID),
        format!(" Attestation: skip=true embedded_key=false build_id={ID}")
    );
    let claims = build_claims("key", None, &challenge(), Ok("b".into()), &facts(), 7);
    assert_eq!(
        claims,
        Ok(AttestationClaims {
            challenge_id: "c".into(),
            nonce: "n".into(),
            binary_sha256: "b".into(),
            build_id: ID.into(),
            version: "1".into(),
            git_sha: "g".into(),
            platform: "linux/x86_64".into(),
            issued_at: 7,
        })
    );
    let proof = build_proof(claims, Ok("sig".into())).unwrap();
    assert_eq!(proof.signature, "sig");
    assert_eq!(proof.issued_at, 7);
    let claims = build_claims("key", None, &challenge(), Ok("b".into()), &facts(), 7);
    assert_eq!(
        build_proof(claims, Err("x".into())).unwrap_err(),
        "failed to sign attestation claims: x"
    );
    assert_eq!(
        build_claims("key", Some("odd"), &challenge(), Ok("b".into()), &facts(), 7).unwrap_err(),
        "invalid embedded attestation key: odd"
    );
    assert_eq!(
        build_claims("key", None, &challenge(), Err("gone".into()), &facts(), 7).unwrap_err(),
        "gone"
    );
}

fn challenge() -> AttestationChallenge {
    AttestationChallenge { challenge_id: "c".into(), nonce: "n".into(), expires_at: 9 }
}

fn facts() -> BuildFacts {
    BuildFacts {
        embedded_id: ID.into(),
        version: "1".into(),
        git_sha: "g".into(),
        os: "linux".into(),
        arch: "x86_64".into(),
    }
}

#[test]
fn a_start_tells_of_the_proof() {
    assert!(startup_note(true, true, ID).contains("MTRXAI_ATTESTATION_SKIP=1"));
    assert!(startup_note(false, true, ID).ends_with(&format!("(build_id={ID})")));
    assert!(startup_note(false, false, ID).contains("cannot attest"));
}

#[test]
fn builds_are_named_in_any_form() {
    let simple = ID.replace('-', "");
    for form in [ID.to_uppercase(), simple, format!("{{{ID}}}"), format!("URN:uuid:{ID}")] {
        assert_eq!(build_id(&form), ID);
    }
    let none = "00000000-0000-0000-0000-000000000000";
    for form in [format!("{{{ID}"), format!("uuid:{ID}"), format!("{ID}0"), "é".repeat(16)] {
        assert_eq!(build_id(&form), none);
    }
}

#[test]
fn build_proof_errors_without_embedded_secret_in_dev_build() {
    let challenge = AttestationChallenge {
        challenge_id: uuid::Uuid::new_v4().to_string(),
        nonce: "BwcHBwcHBwcHBwcHBwcHBwcHBwcHBwcHBwcHBwcHBwc=".into(),
        expires_at: 1_900_000_000,
    };
    let digest = Ok(hash_current_binary(b"program"));
    let claims = build_claims("", None, &challenge, digest, &facts(), 1_899_999_999);
    let err = build_proof(claims, Ok("sig".into())).expect_err("dev builds lack embedded secret");
    assert!(err.to_string().contains("MTRXAI_ATTESTATION_SECRET"));
}

#[test]
fn hash_current_binary_matches_file_sha256() {
    let hash = hash_current_binary(b"abc");
    assert_eq!(hash.len(), 64);
    assert_eq!(hash, "ba7816bf8f01cfea414140de5dae2223b00361a396177a9cb410ff61f20015ad");
}

#[test]
fn hash_current_binary_succeeds() {
    assert_eq!(hash_current_binary(b"").len(), 64);
}

#[test]
fn the_library_of_an_app_is_found_in_its_maps() {
    let maps = "7f00-7f01 r-xp 00000000 00:00 1 /data/app/lib/arm64/libmtrxai_tauri.so\n7f02 x";
    assert_eq!(library_candidates(maps), vec!["/data/app/lib/arm64/libmtrxai_tauri.so"]);
    assert!(library_fault("/a/libmtrxai_tauri.so", true, Some("libmtrxai_tauri.so")).is_none());
    assert!(library_fault("/a/base.apk!/lib.so", true, Some("lib.so")).is_some());
    assert!(library_fault("/a/x.so", true, Some("x.so")).unwrap().contains("expected"));
}

#[test]
fn clusters_are_put_and_taken_out() {
    let mut cfg = ClientConfig::default();
    upsert_cluster(&mut cfg, membership_from_response(&response("c1"), Some("pw".into())));
    upsert_cluster(&mut cfg, membership_from_response(&response("c2"), None));
    upsert_cluster(&mut cfg, membership_from_response(&response("c1"), None));
    assert_eq!(cfg.clusters.len(), 2);
    assert_eq!(cfg.clusters[0].room_secret.as_deref(), Some("pw"));
    assert_eq!(cfg.clusters[1].room_secret.as_deref(), Some(""));
    assert_eq!(cfg.clusters[0].visibility.as_deref(), Some("public"));
    assert!(find_cluster(&cfg, "c2").is_some());
    cfg.cluster = Some("n".into());
    remove_cluster(&mut cfg, "c2");
    assert!(find_cluster(&cfg, "c2").is_none());
    assert!(cfg.cluster.is_some());
    remove_cluster(&mut cfg, "c1");
    assert!(cfg.cluster.is_none());
}

#[test]
fn swarms_are_put_and_taken_out() {
    let mut cfg = ClientConfig::default();
    let a = create_swarm_membership(Some("a".into()), Some("t".into()), Some("/x, ,/y"));
    assert_eq!(a.bootnodes, vec!["/x", "/y"]);
    assert_eq!(a.swarm_id.len(), 36);
    let b = create_swarm_membership(None, None, None);
    assert_ne!(a.swarm_id, b.swarm_id);
    assert_eq!(b.p2p_token.len(), 36);
    let id = a.swarm_id.clone();
    upsert_swarm(&mut cfg, a);
    upsert_swarm(&mut cfg, b);
    ensure_p2p_mode_for_swarms(&mut cfg);
    assert_eq!(cfg.p2p_mode, NetworkMode::Swarm);
    assert_eq!(find_swarm_by_token(&cfg, "t").unwrap().swarm_id, id);
    remove_swarm(&mut cfg, &id);
    assert!(find_swarm_by_token(&cfg, "t").is_none());
    assert_eq!(cfg.swarms.len(), 1);
    let _ = resolve_swarm_bootnodes(&cfg.swarms[0], Some("/z"));
    assert_eq!(default_bootnodes_from_env(None).len(), 0);
    assert_eq!(network_mode_from_env(None), NetworkMode::Cluster);
    assert_eq!(network_mode_from_env(Some(" BOTH ")), NetworkMode::Both);
}

#[test]
fn servers_of_the_command_line_are_attached() {
    let mut cfg = ClientConfig::default();
    let id = upsert_inference_cell_server(&mut cfg, "http://cell");
    assert_eq!(cfg.llm_servers.len(), 1);
    assert!(cfg.llm_servers[0].attached);
    assert_eq!(cfg.llm_servers[0].id, id);
    let _ = upsert_inference_cell_server(&mut cfg, "http://other");
    assert_eq!(cfg.llm_servers.len(), 1);
    assert_eq!(cfg.llm_servers[0].id, id);
    assert_eq!(cfg.llm_servers[0].url, "http://other");
    let _ = apply_cli_overrides(&mut cfg, "lobby:1", None, Some("both"), None);
    assert_eq!(cfg.lobby_host, "lobby:1");
    assert_eq!(cfg.p2p_mode, NetworkMode::Both);
}

fn custom(models: Vec<&str>, api_type: Option<&str>) -> LlmServerEntry {
    LlmServerEntry {
        id: "s".into(),
        kind: "custom".into(),
        url: "http://u".into(),
        label: None,
        attached: true,
        order: 0,
        source: "manual".into(),
        api_type: api_type.map(str::to_string),
        models: models
            .into_iter()
            .map(|id| CustomModelEntry {
                id: id.into(),
                name: None,
                url: None,
                tool_calling: None,
                vision: None,
                max_input_tokens: None,
                max_output_tokens: None,
            })
            .collect(),
        advertise_to_cluster: true,
    }
}

#[test]
fn custom_servers_name_their_models() {
    assert!(validate_custom_server_entry(&custom(vec!["m"], Some("chat-completions"))).is_ok());
    assert_eq!(
        validate_custom_server_entry(&custom(vec![], None)).unwrap_err(),
        "custom endpoint requires at least one model"
    );
    assert_eq!(
        validate_custom_server_entry(&custom(vec![" "], None)).unwrap_err(),
        "each custom model must have a non-empty id"
    );
    assert!(validate_custom_server_entry(&custom(vec!["m"], Some("x")))
        .unwrap_err()
        .contains("unsupported apiType 'x'"));
}

#[test]
fn settings_count_over_the_configuration() {
    let mut cfg = ClientConfig::default();
    assert_eq!(effective_gpu_thermal_settings(&cfg).duration_secs, 60);
    cfg.default_num_predict = Some(7);
    assert_eq!(effective_default_num_predict(&cfg, None), Some(7));
    assert!(effective_ollama_tls_insecure(&cfg, Some("1")));
    assert!(is_yes("1") && !is_yes("no"));
    assert_eq!(client_config_path(None), "client_config.json");
    assert_eq!(client_config_path(Some("/x")), "/x");
    assert_eq!(default_public_cluster_name(&cfg, Some("asia"), None), "asia");
    assert_eq!(default_public_cluster_name(&cfg, Some(" "), Some("room")), "room");
    assert_eq!(default_public_cluster_name(&cfg, None, None), "europe");
    assert!(public_continents().contains(&"europe"));
    assert_eq!(parse_network_mode("swarm"), NetworkMode::Swarm);
    assert_eq!(parse_network_mode("?"), NetworkMode::Cluster);
    let old = legacy_config("p".into(), "s".into());
    assert_eq!(old.peer_id.as_deref(), Some("p"));
}

#[test]
fn the_lobby_is_asked_with_what_is_known() {
    let modes = |m: &str| LobbyConfigResponse { peer_registration: m.to_string() };
    assert!(requires_credentials_registration(&modes("invite_only")));
    assert!(requires_credentials_registration(&modes("register")));
    assert!(!requires_credentials_registration(&modes("open")));
    assert_eq!(lobby_failure("Join", "500", "no"), "Join failed (500): no");
    let body = create_cluster_body(Some("n"), "private", None, None, None);
    assert_eq!(body.get_str("visibility"), Some("private"));
    assert!(join_cluster_body("no id", None).is_none());
    assert!(join_cluster_body(ID, Some("pw")).is_some());
    assert!(join_private_body(ID, "n", None).is_some());
    assert!(credits_path("no id").is_none());
    assert!(credits_path(ID).unwrap().contains(ID));
    let r = registration_body(None, Some("s"), Some("p"), true, Some("e"), None, "pk", None);
    assert_eq!(r.get_str("service_name"), Some("s"));
    match ice_step_from_setting(vec![], Some("p"), true) {
        IceStep::AskAsPeer => {}
        _ => panic!("asks as a peer"),
    }
    assert_eq!(
        ice_servers_from_public_reply(vec![])[0].urls,
        vec!["stun:stun.l.google.com:19302"]
    );
    assert_eq!(setup_port(None), 11345);
    assert_eq!(setup_port(Some("80")), 80);
}

#[test]
fn a_peer_that_starts_by_itself_joins_a_cluster() {
    let mut cfg = ClientConfig::default();
    cfg.peer_id = Some("p".into());
    cfg.service_id = Some("s".into());
    let _ = upsert_inference_cell_server(&mut cfg, "http://cell");
    complete_bootstrap(&mut cfg, &response("c1"), "europe");
    assert!(cfg.setup_complete);
    assert_eq!(cfg.cluster.as_deref(), Some("europe"));
    assert_eq!(cfg.llm_backend.as_deref(), Some("ollama"));
    invalidate_local_peer_identity(&mut cfg);
    assert!(!cfg.setup_complete);
    assert!(cfg.peer_id.is_none() && cfg.clusters.is_empty());
    let listed = ClusterListView {
        cluster_id: "c".into(),
        name: Some("n".into()),
        visibility: "public".into(),
        continent: Some("eu".into()),
        password_protected: false,
        required_attestation_flags: 0,
    };
    let shown = list_public_clusters(&vec![listed]);
    assert_eq!(shown[0].continent.as_deref(), Some("eu"));
}

#[test]
fn clusters_are_stopped_and_started_as_the_user_wants() {
    let mut cfg = ClientConfig::default();
    upsert_cluster(&mut cfg, membership_from_response(&response("on"), None));
    upsert_cluster(&mut cfg, membership_from_response(&response("off"), None));
    cfg.clusters[1].connected = Some(false);
    let active = vec!["off".to_string(), "gone".to_string()];
    assert_eq!(clusters_to_stop(&active, &cfg), vec!["off", "gone"]);
    assert!(starts_cluster(&cfg.clusters[0], &active));
    assert!(!starts_cluster(&cfg.clusters[1], &vec![]));
}

#[test]
fn requests_go_to_the_cluster_with_the_most_peers() {
    let models = |n: u64| vec![value(&format!(r#"{{"name":"m","_peer_count":{n}}}"#))];
    let clusters = vec![("a".to_string(), models(1)), ("b".to_string(), models(3))];
    assert_eq!(find_cluster_for_model("m", &clusters).as_deref(), Some("b"));
    assert_eq!(find_cluster_for_model("x", &clusters), None);
    match route_proxy_cmd(None, None, "m", &clusters, &vec!["b".to_string()]) {
        Route::Forward(id) => assert_eq!(id, "b"),
        _ => panic!("forwarded"),
    }
    match route_action(Some("z"), &vec![]) {
        Some(Route::Refuse(m)) => assert_eq!(m, "Not connected to cluster z"),
        _ => panic!("refused"),
    }
    assert_eq!(moderation_targets(true, &vec!["a".into(), "b".into()]).len(), 2);
    assert_eq!(moderation_targets(false, &vec!["a".into(), "b".into()]), vec!["a"]);
}

#[test]
fn connections_are_shown() {
    let p = ConnectedPeer {
        peer_id: "p".into(),
        cluster_id: Some("c".into()),
        swarm_id: None,
        direction: PeerDirection::Inbound,
        since_secs: 5,
        data_channel_open: true,
        attestation_flags: 3,
    };
    let v = peer_connection_view(&p, &vec!["p".to_string()], None);
    assert_eq!(v.direction, "inbound");
    assert!(v.blocked);
    assert!(!survives_stop(&p, "c"));
    assert!(survives_stop(&p, "d"));
    assert_eq!(print(&value("[1,2]")), "[1,2]");
}
