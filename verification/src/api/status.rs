//! The state of the peer, as the user sees it.

use crate::client_config::settings;
use crate::client_config::types::ClientConfig;
use crate::cluster_manager::{ClusterStatus, PeerConnectionView};
use crate::json::Json;
use crate::shared::{
    GpuHistory, GpuHostStatus, GpuThermalGuardStatus, LocalModelRunState, NetworkMode,
};
use crate::text;
use vstd::prelude::*;

verus! {

/// A server, as the user sees it.
#[derive(Debug)]
pub struct LlmServerView {
    pub id: String,
    pub kind: String,
    pub label: Option<String>,
    pub attached: bool,
    /// All that the user is told of it.
    pub details: Json,
}

/// How many servers are attached.
pub open spec fn attached_in(v: Seq<LlmServerView>) -> nat
    decreases v.len(),
{
    if v.len() == 0 {
        0
    } else {
        attached_in(v.drop_last()) + if v.last().attached {
            1nat
        } else {
            0nat
        }
    }
}

fn count_attached(v: &Vec<LlmServerView>) -> (r: usize)
    ensures
        r == attached_in(v@),
{
    let mut n: usize = 0;
    for i in 0..v.len()
        invariant
            n == attached_in(v@.take(i as int)),
            n <= i,
    {
        assert(v@.take(i as int + 1).drop_last() =~= v@.take(i as int));
        if v[i].attached {
            n += 1;
        }
    }
    assert(v@.take(v@.len() as int) =~= v@);
    n
}

/// How many connections have the direction `d`.
pub open spec fn going(v: Seq<PeerConnectionView>, d: Seq<char>) -> nat
    decreases v.len(),
{
    if v.len() == 0 {
        0
    } else {
        going(v.drop_last(), d) + if v.last().direction@ == d {
            1nat
        } else {
            0nat
        }
    }
}

fn count_going(v: &Vec<PeerConnectionView>, d: &str) -> (r: usize)
    ensures
        r == going(v@, d@),
{
    let mut n: usize = 0;
    for i in 0..v.len()
        invariant
            n == going(v@.take(i as int), d@),
            n <= i,
    {
        assert(v@.take(i as int + 1).drop_last() =~= v@.take(i as int));
        if text::str_eq(&v[i].direction, d) {
            n += 1;
        }
    }
    assert(v@.take(v@.len() as int) =~= v@);
    n
}

/// The host under which the user reaches a peer that listens at `bind`.
pub open spec fn shown_host(bind: Seq<char>) -> Seq<char> {
    if bind == "0.0.0.0"@ || bind == "::"@ || bind == "[::]"@ {
        "127.0.0.1"@
    } else {
        bind
    }
}

/// The address of the user's page.
pub fn client_display_url(proxy_bind: &str, proxy_port: u16) -> (r: String)
    ensures
        r@ == "http://"@ + shown_host(proxy_bind@) + ":"@ + text::dec(proxy_port as nat),
{
    let any = text::str_eq(proxy_bind, "0.0.0.0") || text::str_eq(proxy_bind, "::")
        || text::str_eq(proxy_bind, "[::]");
    let host = if any {
        "127.0.0.1"
    } else {
        proxy_bind
    };
    let front = text::concat3("http://", host, ":");
    text::concat2(&front, &text::dec_u64(proxy_port as u64))
}

/// What the running peer knows of itself and of others.
#[derive(Debug)]
pub struct RunningState {
    pub peer_id: String,
    pub service_id: String,
    pub clusters: Vec<ClusterStatus>,
    pub swarms: Vec<Json>,
    pub credit_balance: i64,
    pub lobby_connected: bool,
    pub local_models: Vec<Json>,
    pub network_models: Vec<Json>,
    pub gpu_host: Option<GpuHostStatus>,
    pub gpu_history: GpuHistory,
    pub peer_connections: Vec<PeerConnectionView>,
    pub outgoing_model_requests: Vec<Json>,
    pub incoming_model_offers: Vec<Json>,
    pub incoming_connection_offers: Vec<Json>,
    pub local_model_runs: Vec<LocalModelRunState>,
    pub local_model_collisions: Vec<Json>,
    pub gpu_thermal_guard: GpuThermalGuardStatus,
}

/// Where the peer is, and where its lobby is.
#[derive(Debug)]
pub struct Surroundings {
    pub lobby_api_url: String,
    pub proxy_port: u16,
    pub proxy_bind: String,
    pub network_paused: bool,
    pub network_disconnected: bool,
}

/// The connections to other peers, as the user sees them.
#[derive(Debug)]
pub struct ConnectionsView {
    pub outbound_count: usize,
    pub inbound_count: usize,
    pub peers: Vec<PeerConnectionView>,
}

/// The state of the peer, as the user sees it.
#[derive(Debug)]
pub struct StatusResponse {
    pub peer_id: String,
    pub service_id: String,
    pub service_name: String,
    pub lobby_host: String,
    pub lobby_api_url: String,
    pub proxy_port: u16,
    pub proxy_bind: String,
    pub client_url: String,
    pub clusters: Vec<ClusterStatus>,
    pub swarms: Vec<Json>,
    pub p2p_mode: NetworkMode,
    pub credit_balance: i64,
    pub lobby_connected: bool,
    pub setup_complete: bool,
    pub llm_servers: Vec<LlmServerView>,
    pub attached_server_count: usize,
    pub local_model_collisions: Vec<Json>,
    pub local_models: Vec<Json>,
    pub network_models: Vec<Json>,
    pub hidden_models: Vec<String>,
    pub gpu_host: Option<GpuHostStatus>,
    pub gpu_history: GpuHistory,
    pub connections: ConnectionsView,
    pub model_start_requests: Vec<Json>,
    pub incoming_model_offers: Vec<Json>,
    pub incoming_connection_offers: Vec<Json>,
    pub local_model_runs: Vec<LocalModelRunState>,
    pub auto_approve_run_model_request: bool,
    pub auto_approve_inference_connections: bool,
    pub allow_unattested_peers: bool,
    pub ollama_tls_insecure: bool,
    pub default_num_predict: Option<u64>,
    pub default_num_ctx: Option<u64>,
    pub network_paused: bool,
    pub network_disconnected: bool,
    pub gpu_thermal_guard: GpuThermalGuardStatus,
    pub default_schedule_enabled: Option<bool>,
    pub default_schedule_start: Option<String>,
    pub default_schedule_end: Option<String>,
    pub gpu_thermal_guard_enabled: Option<bool>,
    pub gpu_thermal_threshold_c: Option<u8>,
    pub gpu_thermal_duration_secs: Option<u64>,
    pub gpu_thermal_cooldown_c: Option<u8>,
    pub gpu_thermal_auto_resume: Option<bool>,
}

/// The balance of the peer's service, after the lobby was asked for it: what the
/// lobby says, or what was known.
pub fn credits_after(service_id: &str, known: i64, fresh: Option<i64>) -> (r: i64)
    ensures
        r == match fresh {
            Some(f) => if service_id@.len() > 0 {
                f
            } else {
                known
            },
            None => known,
        },
{
    match fresh {
        Some(f) => if service_id.is_empty() {
            known
        } else {
            f
        },
        None => known,
    }
}

/// The state of the peer, as the user sees it.
pub fn get_status(
    config: &ClientConfig,
    app: RunningState,
    llm_servers: Vec<LlmServerView>,
    here: Surroundings,
) -> (r: StatusResponse)
    ensures
        r.peer_id == app.peer_id,
        r.service_id == app.service_id,
        r.service_name@ == settings::or_value(config@.service_name, Seq::empty()),
        r.lobby_host@ == config@.lobby_host,
        r.lobby_api_url == here.lobby_api_url,
        r.proxy_port == here.proxy_port,
        r.proxy_bind == here.proxy_bind,
        r.client_url@ == "http://"@ + shown_host(here.proxy_bind@) + ":"@ + text::dec(
            here.proxy_port as nat,
        ),
        r.clusters == app.clusters,
        r.swarms == app.swarms,
        r.p2p_mode == config@.p2p_mode,
        r.credit_balance == app.credit_balance,
        r.lobby_connected == app.lobby_connected,
        r.setup_complete == config@.setup_complete,
        r.llm_servers == llm_servers,
        r.attached_server_count == attached_in(llm_servers@),
        r.local_model_collisions == app.local_model_collisions,
        r.local_models == app.local_models,
        r.network_models == app.network_models,
        text::views(r.hidden_models@) == config@.hidden_models,
        r.gpu_host == app.gpu_host,
        r.gpu_history == app.gpu_history,
        r.connections.outbound_count == going(app.peer_connections@, "outbound"@),
        r.connections.inbound_count == going(app.peer_connections@, "inbound"@),
        r.connections.peers == app.peer_connections,
        r.model_start_requests == app.outgoing_model_requests,
        r.incoming_model_offers == app.incoming_model_offers,
        r.incoming_connection_offers == app.incoming_connection_offers,
        r.local_model_runs == app.local_model_runs,
        r.auto_approve_run_model_request == config@.auto_approve_run_model_request,
        r.auto_approve_inference_connections == config@.auto_approve_inference_connections,
        r.allow_unattested_peers == config@.allow_unattested_peers,
        r.ollama_tls_insecure == config@.ollama_tls_insecure,
        r.default_num_predict == config@.default_num_predict,
        r.default_num_ctx == config@.default_num_ctx,
        r.network_paused == here.network_paused,
        r.network_disconnected == here.network_disconnected,
        r.gpu_thermal_guard == app.gpu_thermal_guard,
        r.default_schedule_enabled == config@.default_schedule_enabled,
        text::opt_view(r.default_schedule_start) == config@.default_schedule_start,
        text::opt_view(r.default_schedule_end) == config@.default_schedule_end,
        r.gpu_thermal_guard_enabled == config@.gpu_thermal_guard_enabled,
        r.gpu_thermal_threshold_c == config@.gpu_thermal_threshold_c,
        r.gpu_thermal_duration_secs == config@.gpu_thermal_duration_secs,
        r.gpu_thermal_cooldown_c == config@.gpu_thermal_cooldown_c,
        r.gpu_thermal_auto_resume == config@.gpu_thermal_auto_resume,
{
    let service_name = match &config.service_name {
        Some(s) => text::copy(s),
        None => String::new(),
    };
    let client_url = client_display_url(&here.proxy_bind, here.proxy_port);
    let attached_server_count: usize = count_attached(&llm_servers);
    let outbound_count: usize = count_going(&app.peer_connections, "outbound");
    let inbound_count: usize = count_going(&app.peer_connections, "inbound");
    StatusResponse {
        peer_id: app.peer_id,
        service_id: app.service_id,
        service_name,
        lobby_host: text::copy(&config.lobby_host),
        lobby_api_url: here.lobby_api_url,
        proxy_port: here.proxy_port,
        proxy_bind: here.proxy_bind,
        client_url,
        clusters: app.clusters,
        swarms: app.swarms,
        p2p_mode: config.p2p_mode,
        credit_balance: app.credit_balance,
        lobby_connected: app.lobby_connected,
        setup_complete: config.setup_complete,
        llm_servers,
        attached_server_count,
        local_model_collisions: app.local_model_collisions,
        local_models: app.local_models,
        network_models: app.network_models,
        hidden_models: text::copy_list(&config.hidden_models),
        gpu_host: app.gpu_host,
        gpu_history: app.gpu_history,
        connections: ConnectionsView { outbound_count, inbound_count, peers: app.peer_connections },
        model_start_requests: app.outgoing_model_requests,
        incoming_model_offers: app.incoming_model_offers,
        incoming_connection_offers: app.incoming_connection_offers,
        local_model_runs: app.local_model_runs,
        auto_approve_run_model_request: config.auto_approve_run_model_request,
        auto_approve_inference_connections: config.auto_approve_inference_connections,
        allow_unattested_peers: config.allow_unattested_peers,
        ollama_tls_insecure: config.ollama_tls_insecure,
        default_num_predict: config.default_num_predict,
        default_num_ctx: config.default_num_ctx,
        network_paused: here.network_paused,
        network_disconnected: here.network_disconnected,
        gpu_thermal_guard: app.gpu_thermal_guard,
        default_schedule_enabled: config.default_schedule_enabled,
        default_schedule_start: text::copy_opt(&config.default_schedule_start),
        default_schedule_end: text::copy_opt(&config.default_schedule_end),
        gpu_thermal_guard_enabled: config.gpu_thermal_guard_enabled,
        gpu_thermal_threshold_c: config.gpu_thermal_threshold_c,
        gpu_thermal_duration_secs: config.gpu_thermal_duration_secs,
        gpu_thermal_cooldown_c: config.gpu_thermal_cooldown_c,
        gpu_thermal_auto_resume: config.gpu_thermal_auto_resume,
    }
}

/// A server counts as attached where it is, and a connection counts for its direction.
pub proof fn law_status_counts(
    servers: Seq<LlmServerView>,
    s: LlmServerView,
    peers: Seq<PeerConnectionView>,
    p: PeerConnectionView,
    d: Seq<char>,
)
    ensures
        attached_in(Seq::<LlmServerView>::empty()) == 0,
        going(Seq::<PeerConnectionView>::empty(), d) == 0,
        s.attached ==> attached_in(servers.push(s)) == attached_in(servers) + 1,
        !s.attached ==> attached_in(servers.push(s)) == attached_in(servers),
        p.direction@ == d ==> going(peers.push(p), d) == going(peers, d) + 1,
        p.direction@ != d ==> going(peers.push(p), d) == going(peers, d),
{
    assert(servers.push(s).drop_last() =~= servers);
    assert(peers.push(p).drop_last() =~= peers);
}

/// A peer that listens on every address is shown at the host's own; any other address is
/// shown as it is.
pub proof fn law_page_is_reachable(bind: Seq<char>)
    ensures
        bind == seq!['0', '.', '0', '.', '0', '.', '0'] ==> shown_host(bind) == "127.0.0.1"@,
        bind == seq![':', ':'] || bind == seq!['[', ':', ':', ']'] ==> shown_host(bind)
            == "127.0.0.1"@,
        bind.len() > 7 ==> shown_host(bind) == bind,
        shown_host(shown_host(bind)) == shown_host(bind),
{
    reveal_strlit("0.0.0.0");
    reveal_strlit("::");
    reveal_strlit("[::]");
    reveal_strlit("127.0.0.1");
    assert("0.0.0.0"@ =~= seq!['0', '.', '0', '.', '0', '.', '0']);
    assert("::"@ =~= seq![':', ':']);
    assert("[::]"@ =~= seq!['[', ':', ':', ']']);
    assert("127.0.0.1"@.len() == 9);
}

} // verus!
