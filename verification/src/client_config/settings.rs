//! The settings of a peer, and what they are where it has none.

use crate::agent_compat::request;
use crate::client_config::types;
use crate::client_config::types::{ClientConfig, ConfigV};
use crate::json;
use crate::shared::NetworkMode;
use crate::text;
use vstd::prelude::*;

verus! {

/// Where the configuration stands, unless a setting says otherwise.
pub const CLIENT_CONFIG_PATH: &'static str = "client_config.json";

/// Where a configuration of an older form may stand.
pub const LEGACY_PEER_CONFIG_PATH: &'static str = "peer_config.json";

/// The public cluster that a peer joins, unless a setting says otherwise.
pub const DEFAULT_PUBLIC_CLUSTER: &'static str = "europe";

/// The names of the public clusters.
pub fn public_continents() -> (r: Vec<&'static str>)
    ensures
        r@.map_values(|s: &str| s@) == seq![
            "africa"@,
            "americas"@,
            "antarctica"@,
            "asia"@,
            "europe"@,
            "oceania"@,
        ],
{
    let v = vec!["africa", "americas", "antarctica", "asia", "europe", "oceania"];
    v
}

/// The configuration of a peer that remembers nothing.
pub open spec fn default_config() -> ConfigV {
    ConfigV {
        peer_id: None,
        service_id: None,
        service_name: None,
        clusters: Seq::empty(),
        swarms: Seq::empty(),
        p2p_mode: NetworkMode::Cluster,
        cluster: None,
        lobby_host: "127.0.0.1:8080"@,
        setup_complete: false,
        llm_backend: None,
        llm_url: None,
        llm_servers: Seq::empty(),
        hidden_models: Seq::empty(),
        auto_approve_run_model_request: false,
        auto_approve_inference_connections: true,
        allow_unattested_peers: false,
        ollama_tls_insecure: true,
        default_num_predict: None,
        default_num_ctx: None,
        proxy_token: None,
        require_tee_for_inference: None,
        gpu_cc_mode: None,
        default_schedule_enabled: None,
        default_schedule_start: None,
        default_schedule_end: None,
        gpu_thermal_guard_enabled: None,
        gpu_thermal_threshold_c: None,
        gpu_thermal_duration_secs: None,
        gpu_thermal_cooldown_c: None,
        gpu_thermal_auto_resume: None,
    }
}

impl Default for ClientConfig {
    fn default() -> (r: Self)
        ensures
            r@ == default_config(),
    {
        let r = ClientConfig {
            peer_id: None,
            service_id: None,
            service_name: None,
            clusters: Vec::new(),
            swarms: Vec::new(),
            p2p_mode: NetworkMode::Cluster,
            cluster: None,
            lobby_host: text::copy("127.0.0.1:8080"),
            setup_complete: false,
            llm_backend: None,
            llm_url: None,
            llm_servers: Vec::new(),
            hidden_models: Vec::new(),
            auto_approve_run_model_request: false,
            auto_approve_inference_connections: true,
            allow_unattested_peers: false,
            ollama_tls_insecure: true,
            default_num_predict: None,
            default_num_ctx: None,
            proxy_token: None,
            require_tee_for_inference: None,
            gpu_cc_mode: None,
            default_schedule_enabled: None,
            default_schedule_start: None,
            default_schedule_end: None,
            gpu_thermal_guard_enabled: None,
            gpu_thermal_threshold_c: None,
            gpu_thermal_duration_secs: None,
            gpu_thermal_cooldown_c: None,
            gpu_thermal_auto_resume: None,
        };
        proof {
            assert(r@.clusters =~= Seq::<types::MembershipV>::empty());
            assert(r@.swarms =~= Seq::<types::SwarmV>::empty());
            assert(r@.llm_servers =~= Seq::<types::ServerV>::empty());
            assert(r@.hidden_models =~= Seq::<Seq<char>>::empty());
        }
        r
    }
}

/// The configuration that one of an older form, with only the two ids, stands
/// for.
pub fn legacy_config(peer_id: String, service_id: String) -> (r: ClientConfig)
    ensures
        r@ == (ConfigV {
            peer_id: Some(peer_id@),
            service_id: Some(service_id@),
            setup_complete: service_id@.len() > 0 && peer_id@.len() > 0,
            llm_backend: Some("ollama"@),
            llm_url: Some("http://127.0.0.1:11434"@),
            ..default_config()
        }),
{
    let mut c = ClientConfig::default();
    c.setup_complete = !service_id.as_str().is_empty() && !peer_id.as_str().is_empty();
    c.peer_id = Some(peer_id);
    c.service_id = Some(service_id);
    c.llm_backend = Some(text::copy("ollama"));
    c.llm_url = Some(text::copy("http://127.0.0.1:11434"));
    c
}

/// Where the configuration stands.
pub fn client_config_path(setting: Option<&str>) -> (r: String)
    ensures
        r@ == match setting {
            Some(p) => p@,
            None => CLIENT_CONFIG_PATH@,
        },
{
    match setting {
        Some(p) => text::copy(p),
        None => text::copy(CLIENT_CONFIG_PATH),
    }
}

/// When a hot GPU stops the work of a peer.
#[derive(Debug, Clone, Copy, PartialEq, Eq, Structural)]
pub struct GpuThermalSettings {
    pub enabled: bool,
    pub threshold_c: u8,
    pub duration_secs: u64,
    pub cooldown_c: u8,
    pub auto_resume: bool,
}

/// The value, or else `d`.
pub open spec fn or_value<T>(v: Option<T>, d: T) -> T {
    match v {
        Some(x) => x,
        None => d,
    }
}

/// When a hot GPU stops the work of the peer `c`.
pub open spec fn thermal_settings(c: ConfigV) -> GpuThermalSettings {
    GpuThermalSettings {
        enabled: or_value(c.gpu_thermal_guard_enabled, true),
        threshold_c: or_value(c.gpu_thermal_threshold_c, 85),
        duration_secs: or_value(c.gpu_thermal_duration_secs, 60),
        cooldown_c: or_value(c.gpu_thermal_cooldown_c, 75),
        auto_resume: or_value(c.gpu_thermal_auto_resume, true),
    }
}

/// When a hot GPU stops the work of a peer.
pub fn effective_gpu_thermal_settings(cfg: &ClientConfig) -> (r: GpuThermalSettings)
    ensures
        r == thermal_settings(cfg@),
{
    GpuThermalSettings {
        enabled: match cfg.gpu_thermal_guard_enabled {
            Some(b) => b,
            None => true,
        },
        threshold_c: match cfg.gpu_thermal_threshold_c {
            Some(n) => n,
            None => 85,
        },
        duration_secs: match cfg.gpu_thermal_duration_secs {
            Some(n) => n,
            None => 60,
        },
        cooldown_c: match cfg.gpu_thermal_cooldown_c {
            Some(n) => n,
            None => 75,
        },
        auto_resume: match cfg.gpu_thermal_auto_resume {
            Some(b) => b,
            None => true,
        },
    }
}

/// Whether a setting says yes.
pub open spec fn says_yes(s: Seq<char>) -> bool {
    s == "1"@ || s == "true"@ || s == "TRUE"@ || s == "yes"@ || s == "YES"@
}

/// Whether a setting says yes.
pub fn is_yes(s: &str) -> (r: bool)
    ensures
        r == says_yes(s@),
{
    text::str_eq(s, "1") || text::str_eq(s, "true") || text::str_eq(s, "TRUE") || text::str_eq(
        s,
        "yes",
    ) || text::str_eq(s, "YES")
}

/// Whether local servers may show a certificate that nobody signed: where the
/// configuration or a setting allows it.
pub fn effective_ollama_tls_insecure(cfg: &ClientConfig, setting: Option<&str>) -> (r: bool)
    ensures
        r == (cfg.ollama_tls_insecure || (setting is Some && says_yes(setting->0@))),
{
    if cfg.ollama_tls_insecure {
        return true;
    }
    match setting {
        Some(v) => is_yes(v),
        None => false,
    }
}

/// The cap on what a model writes: of the configuration, or else of a setting.
pub fn effective_default_num_predict(cfg: &ClientConfig, setting: Option<&str>) -> (r: Option<u64>)
    ensures
        r == if cfg.default_num_predict is Some {
            cfg.default_num_predict
        } else {
            request::positive_setting(json::opt_str(setting))
        },
{
    if cfg.default_num_predict.is_some() {
        cfg.default_num_predict
    } else {
        request::parse_positive_setting(setting)
    }
}

/// The window of a model: of the configuration, or else of a setting.
pub fn effective_default_num_ctx(cfg: &ClientConfig, setting: Option<&str>) -> (r: Option<u64>)
    ensures
        r == if cfg.default_num_ctx is Some {
            cfg.default_num_ctx
        } else {
            request::positive_setting(json::opt_str(setting))
        },
{
    if cfg.default_num_ctx.is_some() {
        cfg.default_num_ctx
    } else {
        request::parse_positive_setting(setting)
    }
}

/// A setting without white space around it, where it is not blank.
pub open spec fn filled(setting: Option<Seq<char>>) -> Option<Seq<char>> {
    match setting {
        Some(s) => if text::trimmed(s).len() > 0 {
            Some(text::trimmed(s))
        } else {
            None
        },
        None => None,
    }
}

/// A setting without white space around it, where it is not blank.
pub fn env_non_empty(setting: Option<&str>) -> (r: Option<String>)
    ensures
        text::opt_view(r) == filled(json::opt_str(setting)),
{
    match setting {
        Some(s) => {
            let t = text::trim(s);
            if t.as_str().is_empty() {
                None
            } else {
                Some(t)
            }
        },
        None => None,
    }
}

/// A text, where it is not blank.
pub open spec fn unless_blank(s: Option<Seq<char>>) -> Option<Seq<char>> {
    match s {
        Some(t) => if text::trimmed(t).len() > 0 {
            Some(t)
        } else {
            None
        },
        None => None,
    }
}

/// Whether a text is there and not blank.
pub fn is_filled(s: Option<&str>) -> (r: bool)
    ensures
        r == (unless_blank(json::opt_str(s)) is Some),
{
    match s {
        Some(t) => !text::trim(t).as_str().is_empty(),
        None => false,
    }
}

/// The name of the public cluster that a peer joins: the first of two settings
/// that is not blank, or else the one of the configuration, or else the default.
pub fn default_public_cluster_name(
    config: &ClientConfig,
    cluster_setting: Option<&str>,
    room_setting: Option<&str>,
) -> (r: String)
    ensures
        r@ == cluster_name(
            config@.cluster,
            json::opt_str(cluster_setting),
            json::opt_str(room_setting),
        ),
{
    if let Some(s) = cluster_setting {
        if is_filled(cluster_setting) {
            return text::copy(s);
        }
    }
    if let Some(s) = room_setting {
        if is_filled(room_setting) {
            return text::copy(s);
        }
    }
    match &config.cluster {
        Some(c) => text::copy(c),
        None => text::copy(DEFAULT_PUBLIC_CLUSTER),
    }
}

/// The name of the public cluster that a peer joins.
pub open spec fn cluster_name(
    remembered: Option<Seq<char>>,
    cluster_setting: Option<Seq<char>>,
    room_setting: Option<Seq<char>>,
) -> Seq<char> {
    match (unless_blank(cluster_setting), unless_blank(room_setting), remembered) {
        (Some(s), _, _) => s,
        (None, Some(s), _) => s,
        (None, None, Some(s)) => s,
        (None, None, None) => DEFAULT_PUBLIC_CLUSTER@,
    }
}

/// A setting of the thermal guard counts as it was given; where none was given, the
/// guard is on, at the same temperatures for every peer, and cools down below the
/// threshold.
pub proof fn law_given_thermal_settings_count(c: ConfigV)
    ensures
        c.gpu_thermal_guard_enabled matches Some(b) ==> thermal_settings(c).enabled == b,
        c.gpu_thermal_threshold_c matches Some(t) ==> thermal_settings(c).threshold_c == t,
        c.gpu_thermal_duration_secs matches Some(s) ==> thermal_settings(c).duration_secs == s,
        c.gpu_thermal_cooldown_c matches Some(t) ==> thermal_settings(c).cooldown_c == t,
        c.gpu_thermal_auto_resume matches Some(b) ==> thermal_settings(c).auto_resume == b,
        c.gpu_thermal_guard_enabled is None ==> thermal_settings(c).enabled,
        c.gpu_thermal_threshold_c is None && c.gpu_thermal_cooldown_c is None ==> thermal_settings(
            c,
        ).cooldown_c < thermal_settings(c).threshold_c,
{
}

/// The name of the cluster is what is set, without regard to blank settings, or else what
/// was remembered, or else the public one.
pub proof fn law_set_name_counts(
    remembered: Option<Seq<char>>,
    cluster_setting: Option<Seq<char>>,
    room_setting: Option<Seq<char>>,
    s: Seq<char>,
)
    requires
        text::is_tight(s),
    ensures
        cluster_setting == Some(s) ==> cluster_name(remembered, cluster_setting, room_setting) == s,
        cluster_setting is None && room_setting == Some(s) ==> cluster_name(
            remembered,
            cluster_setting,
            room_setting,
        ) == s,
        cluster_setting is None && room_setting is None && remembered == Some(s) ==> cluster_name(
            remembered,
            cluster_setting,
            room_setting,
        ) == s,
{
    text::lemma_tight_stays(s);
}

} // verus!
