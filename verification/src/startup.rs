//! How a peer starts.

use crate::client_config::servers;
use crate::client_config::settings;
use crate::client_config::types::{ClientConfig, ConfigV};
use crate::json;
use crate::shared::NetworkMode;
use crate::text;
use vstd::prelude::*;

verus! {

/// A text as a port.
pub open spec fn port_in(s: Option<Seq<char>>) -> Option<nat> {
    match s {
        Some(t) => text::parsed(t, 65535),
        None => None,
    }
}

fn parse_port(s: Option<&str>) -> (r: Option<u16>)
    ensures
        match port_in(json::opt_str(s)) {
            Some(p) => r == Some(p as u16),
            None => r is None,
        },
{
    match s {
        Some(t) => match text::parse_up_to(t, 65535) {
            Some(p) => Some(p as u16),
            None => None,
        },
        None => None,
    }
}

/// The port at which the peer listens: the setting, or else the first argument, or
/// else 11345. A text that is no port does not count.
pub fn proxy_port(setting: Option<&str>, arg: Option<&str>) -> (r: u16)
    ensures
        r == match port_in(json::opt_str(setting)) {
            Some(p) => p,
            None => match port_in(json::opt_str(arg)) {
                Some(p) => p,
                None => 11345,
            },
        },
{
    match parse_port(setting) {
        Some(p) => p,
        None => match parse_port(arg) {
            Some(p) => p,
            None => 11345,
        },
    }
}

/// The lobby that the peer talks to: the setting, or else the second argument, or
/// else one on this machine.
pub fn lobby_server_host(setting: Option<&str>, arg: Option<&str>) -> (r: String)
    ensures
        r@ == match setting {
            Some(s) => s@,
            None => match arg {
                Some(a) => a@,
                None => "127.0.0.1:8080"@,
            },
        },
{
    match setting {
        Some(s) => text::copy(s),
        None => match arg {
            Some(a) => text::copy(a),
            None => text::copy("127.0.0.1:8080"),
        },
    }
}

/// Whether the peer registers by itself: a cluster is named in the settings, or a
/// room, or a group. Of the names of a cluster and of a room the first that is
/// there counts, unless it is blank.
pub fn starts_by_itself(cluster: Option<&str>, room: Option<&str>, group: Option<&str>) -> (r: bool)
    ensures
        r == (settings::unless_blank(
            match cluster {
                Some(c) => Some(c@),
                None => json::opt_str(room),
            },
        ) is Some || group is Some),
{
    let named = match cluster {
        Some(c) => settings::is_filled(Some(c)),
        None => settings::is_filled(room),
    };
    named || group.is_some()
}

/// Whether the lobby is asked whether it still knows the peer.
pub fn asks_lobby(config: &ClientConfig) -> (r: bool)
    ensures
        r == (config@.setup_complete && config@.peer_id is Some),
{
    config.setup_complete && config.peer_id.is_some()
}

/// Whether the servers are connected and the graphics cards are watched.
pub fn starts_servers(config: &ClientConfig) -> (r: bool)
    ensures
        r == (config@.setup_complete && servers::any_attached(config@.llm_servers)),
{
    config.setup_complete && servers::has_attached_llm_servers(config)
}

/// The networks that a peer can work for.
#[derive(Debug, Clone, Copy, PartialEq, Eq, Structural)]
pub enum Network {
    Clusters,
    Swarms,
}

/// Whether a peer takes part in a network.
pub open spec fn takes_part(mode: NetworkMode, n: Network) -> bool {
    match n {
        Network::Clusters => mode != NetworkMode::Swarm,
        Network::Swarms => mode != NetworkMode::Cluster,
    }
}

/// Whether the work for a network starts: it is not running, its queues are free,
/// and a peer that is set up takes part in it.
pub open spec fn starts(c: ConfigV, n: Network, running: bool, queues_free: bool) -> bool {
    !running && queues_free && c.setup_complete && takes_part(c.p2p_mode, n) && (c.peer_id matches Some(
        p,
    ) && p.len() > 0)
}

/// The id of the peer, where the work for a network starts.
pub fn spawn_manager(config: &ClientConfig, n: Network, running: bool, queues_free: bool) -> (r:
    Option<String>)
    ensures
        text::opt_view(r) == if starts(config@, n, running, queues_free) {
            config@.peer_id
        } else {
            None
        },
{
    if running || !queues_free || !config.setup_complete {
        return None;
    }
    let part = match n {
        Network::Clusters => config.p2p_mode != NetworkMode::Swarm,
        Network::Swarms => config.p2p_mode != NetworkMode::Cluster,
    };
    if !part {
        return None;
    }
    match &config.peer_id {
        Some(p) => if p.as_str().is_empty() {
            None
        } else {
            Some(text::copy(p))
        },
        None => None,
    }
}

/// The state of the servers after they were looked at.
#[derive(Debug, Clone, Copy, PartialEq, Eq, Structural)]
pub struct ServerCheck {
    /// Whether they answer.
    pub ready: bool,
    /// Whether the list of their models is made anew.
    pub rebuild: bool,
}

/// The state of the servers: they answer where one is attached and all are well,
/// and where they did not before, the list of their models is made anew.
pub fn check_servers(attached: usize, healthy: bool, was_ready: bool) -> (r: ServerCheck)
    ensures
        r.ready == (attached > 0 && healthy),
        r.rebuild == (r.ready && !was_ready),
{
    let ready = attached > 0 && healthy;
    ServerCheck { ready, rebuild: ready && !was_ready }
}

/// The work for a network is never started twice.
pub proof fn law_started_once(c: ConfigV, n: Network, queues_free: bool)
    ensures
        !starts(c, n, true, queues_free),
{
}

/// A peer that is not set up works for no network.
pub proof fn law_nothing_starts_before_setup(c: ConfigV, n: Network, running: bool, queues_free: bool)
    requires
        !c.setup_complete,
    ensures
        !starts(c, n, running, queues_free),
{
}

/// A network is started as soon as it can be: where the peer is set up, has an identity,
/// takes part in networks of the kind, and the network is not running yet. A peer that
/// takes part in both kinds starts both, and any other only its own.
pub proof fn law_network_is_started(c: ConfigV, n: Network, p: Seq<char>)
    requires
        c.setup_complete,
        c.peer_id == Some(p),
        p.len() > 0,
    ensures
        c.p2p_mode == NetworkMode::Both ==> starts(c, n, false, true),
        c.p2p_mode == NetworkMode::Cluster ==> starts(c, n, false, true) == (n is Clusters),
        c.p2p_mode == NetworkMode::Swarm ==> starts(c, n, false, true) == (n is Swarms),
        !starts(c, n, false, false),
{
}

/// A port is read as it is written.
pub proof fn law_port_is_read(port: u16)
    ensures
        port_in(Some(text::dec(port as nat))) == Some(port as nat),
        port_in(None) is None,
{
    text::law_number_is_read_back(port as nat, 65535);
}

} // verus!
