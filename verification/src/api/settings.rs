//! The settings that the user changes, and what the user does with other peers.

use crate::client_config::memberships;
use crate::client_config::settings;
use crate::client_config::types::{ClientConfig, ConfigV};
use crate::json;
use crate::text;
use vstd::prelude::*;

verus! {

/// The settings, as the user sees them.
#[derive(Debug)]
pub struct SettingsResponse {
    pub auto_approve_run_model_request: bool,
    pub auto_approve_inference_connections: bool,
    pub allow_unattested_peers: bool,
    pub ollama_tls_insecure: bool,
    pub default_num_predict: Option<u64>,
    pub default_num_ctx: Option<u64>,
    pub default_schedule_enabled: Option<bool>,
    pub default_schedule_start: Option<String>,
    pub default_schedule_end: Option<String>,
    pub gpu_thermal_guard_enabled: Option<bool>,
    pub gpu_thermal_threshold_c: Option<u8>,
    pub gpu_thermal_duration_secs: Option<u64>,
    pub gpu_thermal_cooldown_c: Option<u8>,
    pub gpu_thermal_auto_resume: Option<bool>,
}

/// Whether `r` shows the settings of the peer `c`.
pub open spec fn shows(r: SettingsResponse, c: ConfigV) -> bool {
    &&& r.auto_approve_run_model_request == c.auto_approve_run_model_request
    &&& r.auto_approve_inference_connections == c.auto_approve_inference_connections
    &&& r.allow_unattested_peers == c.allow_unattested_peers
    &&& r.ollama_tls_insecure == c.ollama_tls_insecure
    &&& r.default_num_predict == c.default_num_predict
    &&& r.default_num_ctx == c.default_num_ctx
    &&& r.default_schedule_enabled == c.default_schedule_enabled
    &&& text::opt_view(r.default_schedule_start) == c.default_schedule_start
    &&& text::opt_view(r.default_schedule_end) == c.default_schedule_end
    &&& r.gpu_thermal_guard_enabled == c.gpu_thermal_guard_enabled
    &&& r.gpu_thermal_threshold_c == c.gpu_thermal_threshold_c
    &&& r.gpu_thermal_duration_secs == c.gpu_thermal_duration_secs
    &&& r.gpu_thermal_cooldown_c == c.gpu_thermal_cooldown_c
    &&& r.gpu_thermal_auto_resume == c.gpu_thermal_auto_resume
}

/// The settings, as the user sees them.
pub fn get_settings(config: &ClientConfig) -> (r: SettingsResponse)
    ensures
        shows(r, config@),
{
    SettingsResponse {
        auto_approve_run_model_request: config.auto_approve_run_model_request,
        auto_approve_inference_connections: config.auto_approve_inference_connections,
        allow_unattested_peers: config.allow_unattested_peers,
        ollama_tls_insecure: config.ollama_tls_insecure,
        default_num_predict: config.default_num_predict,
        default_num_ctx: config.default_num_ctx,
        default_schedule_enabled: config.default_schedule_enabled,
        default_schedule_start: text::copy_opt(&config.default_schedule_start),
        default_schedule_end: text::copy_opt(&config.default_schedule_end),
        gpu_thermal_guard_enabled: config.gpu_thermal_guard_enabled,
        gpu_thermal_threshold_c: config.gpu_thermal_threshold_c,
        gpu_thermal_duration_secs: config.gpu_thermal_duration_secs,
        gpu_thermal_cooldown_c: config.gpu_thermal_cooldown_c,
        gpu_thermal_auto_resume: config.gpu_thermal_auto_resume,
    }
}

/// The settings that the user changes.
#[derive(Debug)]
pub struct SettingsUpdateBody {
    pub auto_approve_run_model_request: Option<bool>,
    pub auto_approve_inference_connections: Option<bool>,
    pub allow_unattested_peers: Option<bool>,
    pub ollama_tls_insecure: Option<bool>,
    pub default_num_predict: Option<Option<u64>>,
    pub default_num_ctx: Option<Option<u64>>,
    pub default_schedule_enabled: Option<bool>,
    pub default_schedule_start: Option<String>,
    pub default_schedule_end: Option<String>,
    pub gpu_thermal_guard_enabled: Option<bool>,
    pub gpu_thermal_threshold_c: Option<u8>,
    pub gpu_thermal_duration_secs: Option<u64>,
    pub gpu_thermal_cooldown_c: Option<u8>,
    pub gpu_thermal_auto_resume: Option<bool>,
}

/// A number that the user gives, or takes away: zero is none.
pub open spec fn number_after(given: Option<Option<u64>>, before: Option<u64>) -> Option<u64> {
    match given {
        Some(Some(n)) => if n > 0 {
            Some(n)
        } else {
            None
        },
        Some(None) => None,
        None => before,
    }
}

/// The peer `c` after the user changed the settings: those that are not given
/// stay.
pub open spec fn changed(c: ConfigV, b: SettingsUpdateBody) -> ConfigV {
    ConfigV {
        auto_approve_run_model_request: settings::or_value(
            b.auto_approve_run_model_request,
            c.auto_approve_run_model_request,
        ),
        auto_approve_inference_connections: settings::or_value(
            b.auto_approve_inference_connections,
            c.auto_approve_inference_connections,
        ),
        allow_unattested_peers: settings::or_value(
            b.allow_unattested_peers,
            c.allow_unattested_peers,
        ),
        ollama_tls_insecure: settings::or_value(b.ollama_tls_insecure, c.ollama_tls_insecure),
        default_num_predict: number_after(b.default_num_predict, c.default_num_predict),
        default_num_ctx: number_after(b.default_num_ctx, c.default_num_ctx),
        default_schedule_enabled: memberships::or_else(
            b.default_schedule_enabled,
            c.default_schedule_enabled,
        ),
        default_schedule_start: memberships::or_else(
            text::opt_view(b.default_schedule_start),
            c.default_schedule_start,
        ),
        default_schedule_end: memberships::or_else(
            text::opt_view(b.default_schedule_end),
            c.default_schedule_end,
        ),
        gpu_thermal_guard_enabled: memberships::or_else(
            b.gpu_thermal_guard_enabled,
            c.gpu_thermal_guard_enabled,
        ),
        gpu_thermal_threshold_c: memberships::or_else(
            b.gpu_thermal_threshold_c,
            c.gpu_thermal_threshold_c,
        ),
        gpu_thermal_duration_secs: memberships::or_else(
            b.gpu_thermal_duration_secs,
            c.gpu_thermal_duration_secs,
        ),
        gpu_thermal_cooldown_c: memberships::or_else(
            b.gpu_thermal_cooldown_c,
            c.gpu_thermal_cooldown_c,
        ),
        gpu_thermal_auto_resume: memberships::or_else(
            b.gpu_thermal_auto_resume,
            c.gpu_thermal_auto_resume,
        ),
        ..c
    }
}

fn number_given(given: Option<Option<u64>>, before: Option<u64>) -> (r: Option<u64>)
    ensures
        r == number_after(given, before),
{
    match given {
        Some(v) => match v {
            Some(n) => if n > 0 {
                Some(n)
            } else {
                None
            },
            None => None,
        },
        None => before,
    }
}

fn value_or(given: Option<bool>, before: bool) -> (r: bool)
    ensures
        r == settings::or_value(given, before),
{
    match given {
        Some(v) => v,
        None => before,
    }
}

fn some_or<T>(given: Option<T>, before: Option<T>) -> (r: Option<T>)
    ensures
        r == memberships::or_else(given, before),
{
    match given {
        Some(v) => Some(v),
        None => before,
    }
}

fn replace_text(kept: &mut Option<String>, given: Option<String>)
    ensures
        text::opt_view(*final(kept)) == memberships::or_else(
            text::opt_view(given),
            text::opt_view(*old(kept)),
        ),
{
    if given.is_some() {
        *kept = given;
    }
}

/// Changes the settings that the user gives. Tells whether the connections to
/// local servers have to be made anew.
pub fn put_settings(config: &mut ClientConfig, body: SettingsUpdateBody) -> (r: bool)
    ensures
        final(config)@ == changed(old(config)@, body),
        r == (final(config)@.ollama_tls_insecure != old(config)@.ollama_tls_insecure),
{
    let insecure: bool = config.ollama_tls_insecure;
    config.auto_approve_run_model_request = value_or(
        body.auto_approve_run_model_request,
        config.auto_approve_run_model_request,
    );
    config.auto_approve_inference_connections = value_or(
        body.auto_approve_inference_connections,
        config.auto_approve_inference_connections,
    );
    config.allow_unattested_peers = value_or(
        body.allow_unattested_peers,
        config.allow_unattested_peers,
    );
    config.ollama_tls_insecure = value_or(body.ollama_tls_insecure, config.ollama_tls_insecure);
    config.default_num_predict = number_given(body.default_num_predict, config.default_num_predict);
    config.default_num_ctx = number_given(body.default_num_ctx, config.default_num_ctx);
    config.default_schedule_enabled = some_or(
        body.default_schedule_enabled,
        config.default_schedule_enabled,
    );
    replace_text(&mut config.default_schedule_start, body.default_schedule_start);
    replace_text(&mut config.default_schedule_end, body.default_schedule_end);
    config.gpu_thermal_guard_enabled = some_or(
        body.gpu_thermal_guard_enabled,
        config.gpu_thermal_guard_enabled,
    );
    config.gpu_thermal_threshold_c = some_or(
        body.gpu_thermal_threshold_c,
        config.gpu_thermal_threshold_c,
    );
    config.gpu_thermal_duration_secs = some_or(
        body.gpu_thermal_duration_secs,
        config.gpu_thermal_duration_secs,
    );
    config.gpu_thermal_cooldown_c = some_or(
        body.gpu_thermal_cooldown_c,
        config.gpu_thermal_cooldown_c,
    );
    config.gpu_thermal_auto_resume = some_or(
        body.gpu_thermal_auto_resume,
        config.gpu_thermal_auto_resume,
    );
    config.ollama_tls_insecure != insecure
}

/// Whether the user may block a peer, or else the status of the answer: no peer
/// blocks itself.
pub fn post_block_peer(local_peer_id: &str, peer_id: &str) -> (r: Result<(), u16>)
    ensures
        r == if peer_id@ == local_peer_id@ {
            Err::<(), u16>(400)
        } else {
            Ok::<(), u16>(())
        },
{
    if text::str_eq(peer_id, local_peer_id) {
        Err(400)
    } else {
        Ok(())
    }
}

/// The reason for which the user reports a peer, or else the status of the answer:
/// no peer reports itself, and a report takes a reason.
pub fn post_report_peer(local_peer_id: &str, peer_id: &str, reason: Option<&str>) -> (r: Result<
    String,
    u16,
>)
    ensures
        if peer_id@ == local_peer_id@ {
            r == Err::<String, u16>(400)
        } else {
            match settings::filled(json::opt_str(reason)) {
                Some(t) => r matches Ok(s) && s@ == t,
                None => r == Err::<String, u16>(400),
            }
        },
{
    if text::str_eq(peer_id, local_peer_id) {
        return Err(400);
    }
    match settings::env_non_empty(reason) {
        Some(t) => Ok(t),
        None => Err(400),
    }
}

/// How many transactions are listed where the user does not say.
pub fn default_tx_limit() -> (r: usize)
    ensures
        r == 50,
{
    50
}

/// How many transactions are listed: at least one, at most 500.
pub fn transactions_limit(limit: usize) -> (r: usize)
    ensures
        r == if limit < 1 {
            1
        } else if limit > 500 {
            500
        } else {
            limit as int
        },
{
    if limit < 1 {
        1
    } else if limit > 500 {
        500
    } else {
        limit
    }
}

/// To change nothing leaves the settings as they are.
pub proof fn law_no_change_keeps_settings(c: ConfigV, b: SettingsUpdateBody)
    requires
        b.auto_approve_run_model_request is None,
        b.auto_approve_inference_connections is None,
        b.allow_unattested_peers is None,
        b.ollama_tls_insecure is None,
        b.default_num_predict is None,
        b.default_num_ctx is None,
        b.default_schedule_enabled is None,
        b.default_schedule_start is None,
        b.default_schedule_end is None,
        b.gpu_thermal_guard_enabled is None,
        b.gpu_thermal_threshold_c is None,
        b.gpu_thermal_duration_secs is None,
        b.gpu_thermal_cooldown_c is None,
        b.gpu_thermal_auto_resume is None,
    ensures
        changed(c, b) == c,
{
}

/// To change the settings again in the same way changes nothing.
pub proof fn law_same_change_again_changes_nothing(c: ConfigV, b: SettingsUpdateBody)
    ensures
        changed(changed(c, b), b) == changed(c, b),
{
}

/// A setting that is given is what is set afterwards, and one that is not given stays; a
/// limit of 0 is none. Nothing but settings changes.
pub proof fn law_given_settings_are_set(c: ConfigV, b: SettingsUpdateBody, n: u64)
    requires
        n > 0,
    ensures
        ({
            let after = changed(c, b);
            &&& b.auto_approve_run_model_request matches Some(v)
                ==> after.auto_approve_run_model_request == v
            &&& b.auto_approve_inference_connections matches Some(v)
                ==> after.auto_approve_inference_connections == v
            &&& b.allow_unattested_peers matches Some(v) ==> after.allow_unattested_peers == v
            &&& b.ollama_tls_insecure matches Some(v) ==> after.ollama_tls_insecure == v
            &&& b.default_num_predict == Some(Some(0u64)) ==> after.default_num_predict is None
            &&& b.default_num_predict == Some(None::<u64>) ==> after.default_num_predict is None
            &&& b.default_num_predict == Some(Some(n)) ==> after.default_num_predict == Some(n)
            &&& b.default_num_ctx == Some(Some(n)) ==> after.default_num_ctx == Some(n)
            &&& b.default_num_ctx == Some(Some(0u64)) ==> after.default_num_ctx is None
            &&& b.default_schedule_enabled matches Some(v) ==> after.default_schedule_enabled
                == Some(v)
            &&& b.default_schedule_start matches Some(v) ==> after.default_schedule_start == Some(v@)
            &&& b.default_schedule_end matches Some(v) ==> after.default_schedule_end == Some(v@)
            &&& b.gpu_thermal_guard_enabled matches Some(v) ==> after.gpu_thermal_guard_enabled
                == Some(v)
            &&& b.gpu_thermal_threshold_c matches Some(v) ==> after.gpu_thermal_threshold_c
                == Some(v)
            &&& b.gpu_thermal_duration_secs matches Some(v) ==> after.gpu_thermal_duration_secs
                == Some(v)
            &&& b.gpu_thermal_cooldown_c matches Some(v) ==> after.gpu_thermal_cooldown_c == Some(v)
            &&& b.gpu_thermal_auto_resume matches Some(v) ==> after.gpu_thermal_auto_resume
                == Some(v)
            &&& b.gpu_thermal_guard_enabled is None ==> after.gpu_thermal_guard_enabled
                == c.gpu_thermal_guard_enabled
            &&& b.gpu_thermal_threshold_c is None ==> after.gpu_thermal_threshold_c
                == c.gpu_thermal_threshold_c
            &&& b.default_num_predict is None ==> after.default_num_predict == c.default_num_predict
            &&& b.default_num_ctx is None ==> after.default_num_ctx == c.default_num_ctx
            &&& after.peer_id == c.peer_id
            &&& after.clusters == c.clusters
            &&& after.swarms == c.swarms
            &&& after.llm_servers == c.llm_servers
            &&& after.hidden_models == c.hidden_models
            &&& after.proxy_token == c.proxy_token
            &&& after.setup_complete == c.setup_complete
        }),
{
}

} // verus!
