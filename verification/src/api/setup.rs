//! How a peer is set up: it registers, joins a cluster and attaches a server.

use crate::client_config::lobby;
use crate::client_config::lobby::{ClusterResponse, RegisterPeerResponse};
use crate::client_config::memberships;
use crate::client_config::servers;
use crate::client_config::settings;
use crate::client_config::types::{ClientConfig, ConfigV};
use crate::json;
use crate::json::{Json, JsonV};
use crate::llm_proxy::requests::{Refusal, RefusalV};
use crate::shared::NetworkMode;
use crate::text;
use vstd::prelude::*;

verus! {

/// How far the setup of a peer has come.
#[derive(Debug, PartialEq)]
pub struct SetupResponse {
    pub complete: bool,
    pub step: u8,
    pub has_peer: bool,
    pub has_clusters: bool,
    pub has_swarms: bool,
    pub p2p_mode: NetworkMode,
    pub has_llm: bool,
}

/// The step of the setup that comes next: to register, to join a network, to
/// attach a server; after these, the fourth.
pub open spec fn setup_step(c: ConfigV) -> u8 {
    if c.peer_id is None || c.service_id is None {
        1
    } else if c.clusters.len() == 0 && c.swarms.len() == 0 {
        2
    } else if !c.setup_complete {
        3
    } else {
        4
    }
}

/// How far the setup of a peer has come.
pub fn get_setup(config: &ClientConfig) -> (r: SetupResponse)
    ensures
        r.complete == config@.setup_complete,
        r.step == setup_step(config@),
        r.has_peer == (config@.peer_id is Some && config@.service_id is Some),
        r.has_clusters == (config@.clusters.len() > 0),
        r.has_swarms == (config@.swarms.len() > 0),
        r.p2p_mode == config@.p2p_mode,
        r.has_llm == servers::any_attached(config@.llm_servers),
{
    assert(config@.clusters.len() == config.clusters@.len());
    assert(config@.swarms.len() == config.swarms@.len());
    let has_peer = config.peer_id.is_some() && config.service_id.is_some();
    let has_clusters = config.clusters.len() > 0;
    let has_swarms = config.swarms.len() > 0;
    let step: u8 = if !has_peer {
        1
    } else if !has_clusters && !has_swarms {
        2
    } else if !config.setup_complete {
        3
    } else {
        4
    };
    SetupResponse {
        complete: config.setup_complete,
        step,
        has_peer,
        has_clusters,
        has_swarms,
        p2p_mode: config.p2p_mode,
        has_llm: servers::has_attached_llm_servers(config),
    }
}

/// Remembers whether the peer has all that it needs to start, and tells it.
pub fn update_setup_complete(config: &mut ClientConfig) -> (r: bool)
    ensures
        r == lobby::is_set_up(old(config)@),
        final(config)@ == (ConfigV { setup_complete: r, ..old(config)@ }),
{
    config.setup_complete = lobby::has_setup(config);
    config.setup_complete
}

/// What the user is told where the lobby refused: `err` in the context `context`,
/// with a hint where the build of the peer is not known to it.
pub open spec fn gateway_message(context: Seq<char>, err: Seq<char>) -> Seq<char> {
    let msg = context + ": "@ + err;
    if text::has(err, "build_id not on allowlist"@) {
        msg
            + ". Register this client binary on the lobby: export MTRXAI_ADMIN_KEY=... && scripts/register-allowed-build.sh release/docker/allowed_build.json"@
    } else {
        msg
    }
}

/// What the user is told where the lobby refused.
pub open spec fn gateway_error(context: Seq<char>, err: Seq<char>) -> JsonV {
    JsonV::Obj(
        Map::<Seq<char>, JsonV>::empty().insert(
            "error"@,
            JsonV::Str(gateway_message(context, err)),
        ),
    )
}

/// The answer where the lobby refused.
pub fn lobby_gateway_err(context: &str, err: &str) -> (r: Refusal)
    ensures
        r@ == (RefusalV {
            status: 502,
            message: json::json_print(gateway_error(context@, err@)),
        }),
        json::reads_as(r.message@, gateway_error(context@, err@)),
{
    let mut msg = text::concat3(context, ": ", err);
    if text::contains(err, "build_id not on allowlist") {
        msg = text::concat2(
            &msg,
            ". Register this client binary on the lobby: export MTRXAI_ADMIN_KEY=... && scripts/register-allowed-build.sh release/docker/allowed_build.json",
        );
    }
    let body = json::object().with("error", Json::Str(msg));
    proof {
        reveal_strlit("error");
        reveal_strlit("$serde_json::private::RawValue");
        assert("error"@.len() != "$serde_json::private::RawValue"@.len());
        assert(json::is_plain(gateway_error(context@, err@), 127)) by {
            reveal_with_fuel(json::is_plain, 2);
        }
    }
    Refusal { status: 502, message: json::print(&body) }
}

/// What the user gives to register.
#[derive(Debug)]
pub struct RegisterBody {
    pub registered: bool,
    pub has_existing_service: bool,
    pub service_name: Option<String>,
    pub service_password: Option<String>,
    pub peer_id: Option<String>,
    pub cluster_name: Option<String>,
    pub contact_email: Option<String>,
    pub terms_accepted: bool,
}

/// An answer to a request that lacks something.
pub open spec fn bad_request(message: Seq<char>) -> RefusalV {
    RefusalV { status: 400, message }
}

/// The answer to a request that lacks something.
pub fn refuse_bad(message: &str) -> (r: Refusal)
    ensures
        r@ == bad_request(message@),
{
    Refusal { status: 400, message: text::copy(message) }
}

/// The name and the password of a service, or what is wrong with them.
pub open spec fn credentials(body: RegisterBody) -> Result<(Seq<char>, Seq<char>), RefusalV> {
    match settings::filled(text::opt_view(body.service_name)) {
        None => Err(bad_request("service name required"@)),
        Some(name) => match settings::filled(text::opt_view(body.service_password)) {
            None => Err(bad_request("service password required"@)),
            Some(password) => Ok((name, password)),
        },
    }
}

fn trimmed_or_none(o: &Option<String>) -> (r: Option<String>)
    ensures
        text::opt_view(r) == settings::filled(text::opt_view(*o)),
{
    match o {
        Some(s) => settings::env_non_empty(Some(s.as_str())),
        None => None,
    }
}

/// The name and the password of a service that the user gave.
pub fn parse_service_credentials(body: &RegisterBody) -> (r: Result<(String, String), Refusal>)
    ensures
        match credentials(*body) {
            Ok(c) => r matches Ok(v) && v.0@ == c.0 && v.1@ == c.1,
            Err(e) => r matches Err(f) && f@ == e,
        },
{
    match trimmed_or_none(&body.service_name) {
        None => Err(refuse_bad("service name required")),
        Some(name) => match trimmed_or_none(&body.service_password) {
            None => Err(refuse_bad("service password required")),
            Some(password) => Ok((name, password)),
        },
    }
}

/// The address of the user.
pub fn parse_contact_email(body: &RegisterBody) -> (r: Result<String, Refusal>)
    ensures
        match settings::filled(text::opt_view(body.contact_email)) {
            Some(e) => r matches Ok(v) && v@ == e,
            None => r matches Err(f) && f@ == bad_request("contact email required"@),
        },
{
    match trimmed_or_none(&body.contact_email) {
        Some(e) => Ok(e),
        None => Err(refuse_bad("contact email required")),
    }
}

/// What is asked of the lobby to register a peer.
#[derive(Debug)]
pub struct Registration {
    pub peer_id: Option<String>,
    pub service_name: String,
    pub service_password: String,
    pub create_new_service: bool,
    pub contact_email: Option<String>,
}

/// What is asked of the lobby to register a peer.
#[verifier::ext_equal]
pub struct RegistrationV {
    pub peer_id: Option<Seq<char>>,
    pub service_name: Seq<char>,
    pub service_password: Seq<char>,
    pub create_new_service: bool,
    pub contact_email: Option<Seq<char>>,
}

impl View for Registration {
    type V = RegistrationV;

    open spec fn view(&self) -> RegistrationV {
        RegistrationV {
            peer_id: text::opt_view(self.peer_id),
            service_name: self.service_name@,
            service_password: self.service_password@,
            create_new_service: self.create_new_service,
            contact_email: text::opt_view(self.contact_email),
        }
    }
}

/// Whether the user asks for a new service.
pub open spec fn asks_for_service(body: RegisterBody) -> bool {
    !body.has_existing_service && !body.registered
}

/// What is asked of the lobby for the user's request, or what the request lacks.
/// A lobby that asks for credentials makes no services; else a new service takes
/// the user's consent and address.
pub open spec fn registration_of(body: RegisterBody, needs_credentials: bool) -> Result<
    RegistrationV,
    RefusalV,
> {
    let new_service = !needs_credentials && asks_for_service(body);
    if new_service && !body.terms_accepted {
        Err(bad_request("terms acceptance required"@))
    } else {
        match credentials(body) {
            Err(e) => Err(e),
            Ok(c) => {
                let email = settings::filled(text::opt_view(body.contact_email));
                if new_service && email is None {
                    Err(bad_request("contact email required"@))
                } else {
                    Ok(
                        RegistrationV {
                            peer_id: if needs_credentials {
                                settings::filled(text::opt_view(body.peer_id))
                            } else {
                                settings::unless_blank(text::opt_view(body.peer_id))
                            },
                            service_name: c.0,
                            service_password: c.1,
                            create_new_service: new_service,
                            contact_email: if new_service {
                                email
                            } else {
                                None
                            },
                        },
                    )
                }
            },
        }
    }
}

/// What is asked of the lobby for the user's request to register.
pub fn post_register(body: &RegisterBody, needs_credentials: bool) -> (r: Result<
    Registration,
    Refusal,
>)
    ensures
        match registration_of(*body, needs_credentials) {
            Ok(v) => r matches Ok(reg) && reg@ == v,
            Err(e) => r matches Err(f) && f@ == e,
        },
{
    let new_service = !needs_credentials && !body.has_existing_service && !body.registered;
    if new_service && !body.terms_accepted {
        return Err(refuse_bad("terms acceptance required"));
    }
    let (service_name, service_password) = match parse_service_credentials(body) {
        Ok(c) => c,
        Err(e) => {
            return Err(e);
        },
    };
    let contact_email = if new_service {
        match parse_contact_email(body) {
            Ok(e) => Some(e),
            Err(e) => {
                return Err(e);
            },
        }
    } else {
        None
    };
    let peer_id = if needs_credentials {
        trimmed_or_none(&body.peer_id)
    } else {
        match &body.peer_id {
            Some(p) => if settings::is_filled(Some(p.as_str())) {
                Some(text::copy(p))
            } else {
                None
            },
            None => None,
        }
    };
    Ok(
        Registration {
            peer_id,
            service_name,
            service_password,
            create_new_service: new_service,
            contact_email,
        },
    )
}

/// Remembers who the peer is and which lobby knows it.
pub fn remember_registration(config: &mut ClientConfig, reg: &RegisterPeerResponse, lobby_host: &str)
    ensures
        final(config)@ == (ConfigV {
            peer_id: Some(reg.peer_id@),
            service_id: Some(reg.service_id@),
            service_name: Some(reg.service_name@),
            lobby_host: lobby_host@,
            ..old(config)@
        }),
{
    lobby::apply_register_response(config, reg);
    config.lobby_host = text::copy(lobby_host);
}

/// The cluster that a registered peer joins first: the one that the user named, or
/// the default.
pub fn first_cluster(body: &RegisterBody) -> (r: String)
    ensures
        r@ == settings::or_value(
            settings::filled(text::opt_view(body.cluster_name)),
            settings::DEFAULT_PUBLIC_CLUSTER@,
        ),
{
    match trimmed_or_none(&body.cluster_name) {
        Some(n) => n,
        None => text::copy(settings::DEFAULT_PUBLIC_CLUSTER),
    }
}

/// The peer `c` after it registered and joined the cluster `name`, of which the
/// lobby said `join`.
pub open spec fn registered(c: ConfigV, join: ClusterResponse, name: Seq<char>) -> ConfigV {
    let joined = ConfigV {
        clusters: memberships::with_cluster(
            c.clusters,
            lobby::joined_cluster(join, Some(Seq::empty())),
        ),
        cluster: Some(name),
        ..c
    };
    ConfigV { setup_complete: lobby::is_set_up(joined), ..joined }
}

/// What the user is told after the peer registered.
#[derive(Debug)]
pub struct RegisterResponse {
    pub peer_id: String,
    pub service_id: String,
    pub service_name: String,
    pub credit_balance: i64,
    pub created_new_service: bool,
}

/// Remembers the cluster that a registered peer joined, and tells the user.
pub fn finish_register(
    config: &mut ClientConfig,
    reg: &RegisterPeerResponse,
    join: &ClusterResponse,
    cluster_name: &str,
    created_new_service: bool,
) -> (r: RegisterResponse)
    ensures
        final(config)@ == registered(old(config)@, *join, cluster_name@),
        r.peer_id@ == reg.peer_id@,
        r.service_id@ == reg.service_id@,
        r.service_name@ == reg.service_name@,
        r.credit_balance == reg.credit_balance,
        r.created_new_service == created_new_service,
{
    proof {
        reveal_strlit("");
        assert(""@ =~= Seq::<char>::empty());
    }
    memberships::upsert_cluster(
        config,
        lobby::membership_from_response(join, Some(text::copy(""))),
    );
    config.cluster = Some(text::copy(cluster_name));
    update_setup_complete(config);
    RegisterResponse {
        peer_id: text::copy(&reg.peer_id),
        service_id: text::copy(&reg.service_id),
        service_name: text::copy(&reg.service_name),
        credit_balance: reg.credit_balance,
        created_new_service,
    }
}

/// What the user gives to be told of the beta.
#[derive(Debug)]
pub struct BetaSignupBody {
    pub email: String,
    pub service_name: String,
    pub service_password: String,
    pub terms_accepted: bool,
}

/// What the user is told of the request.
#[derive(Debug)]
pub struct BetaSignupResponse {
    pub status: String,
    pub message: String,
}

/// What goes to the lobby: the user's address, and the name and the password of
/// the service, without white space around them.
pub fn post_beta_signup(body: &BetaSignupBody) -> (r: Result<(String, String, String), Refusal>)
    ensures
        if body.terms_accepted {
            r matches Ok(v) && v.0@ == text::trimmed(body.email@) && v.1@ == text::trimmed(
                body.service_name@,
            ) && v.2@ == text::trimmed(body.service_password@)
        } else {
            r matches Err(e) && e@ == bad_request("terms acceptance required"@)
        },
{
    if !body.terms_accepted {
        return Err(refuse_bad("terms acceptance required"));
    }
    Ok(
        (
            text::trim(&body.email),
            text::trim(&body.service_name),
            text::trim(&body.service_password),
        ),
    )
}

/// What the user is told after the lobby took the request.
pub fn beta_signup_pending() -> (r: BetaSignupResponse)
    ensures
        r.status@ == "pending"@,
        r.message@ == "Your request will be reviewed and you will be contacted soon."@,
{
    BetaSignupResponse {
        status: text::copy("pending"),
        message: text::copy("Your request will be reviewed and you will be contacted soon."),
    }
}

/// A peer that registered and joined a cluster only lacks a server: with one
/// attached, its setup is complete.
pub proof fn law_registered_peer_lacks_only_a_server(
    c: ConfigV,
    join: ClusterResponse,
    name: Seq<char>,
)
    requires
        c.peer_id is Some,
        c.service_id is Some,
    ensures
        registered(c, join, name).setup_complete == servers::any_attached(c.llm_servers),
        registered(c, join, name).clusters.len() > 0,
{
    let m = lobby::joined_cluster(join, Some(Seq::empty()));
    text::lemma_position(memberships::cluster_ids(c.clusters), m.cluster_id);
}

/// No service is made without the user's consent.
pub proof fn law_new_service_takes_consent(body: RegisterBody, needs_credentials: bool)
    requires
        registration_of(body, needs_credentials) matches Ok(r) && r.create_new_service,
    ensures
        body.terms_accepted,
        !needs_credentials,
        settings::filled(text::opt_view(body.contact_email)) is Some,
{
}

/// The step of the setup is the fourth exactly where the peer is registered, has
/// a network and its setup is complete.
pub proof fn law_fourth_step_is_done(c: ConfigV)
    ensures
        (setup_step(c) == 4) == (c.peer_id is Some && c.service_id is Some && (c.clusters.len() > 0
            || c.swarms.len() > 0) && c.setup_complete),
{
}

/// A registration with a name and a password is taken: for a service that there is, as it
/// is; for a new one, where the terms are accepted and there is an address to write to.
pub proof fn law_complete_registration_is_taken(
    body: RegisterBody,
    needs_credentials: bool,
    name: Seq<char>,
    password: Seq<char>,
    email: Seq<char>,
)
    requires
        text::is_tight(name),
        text::is_tight(password),
        text::is_tight(email),
        text::opt_view(body.service_name) == Some(name),
        text::opt_view(body.service_password) == Some(password),
    ensures
        needs_credentials || body.has_existing_service || body.registered ==> (registration_of(
            body,
            needs_credentials,
        ) matches Ok(r) && r.service_name == name && r.service_password == password
            && !r.create_new_service && r.contact_email is None),
        !needs_credentials && !body.has_existing_service && !body.registered && body.terms_accepted
            && text::opt_view(body.contact_email) == Some(email) ==> (registration_of(
            body,
            needs_credentials,
        ) matches Ok(r) && r.service_name == name && r.service_password == password
            && r.create_new_service && r.contact_email == Some(email)),
        !needs_credentials && !body.has_existing_service && !body.registered && !body.terms_accepted
            ==> registration_of(body, needs_credentials) is Err,
{
    text::lemma_tight_stays(name);
    text::lemma_tight_stays(password);
    text::lemma_tight_stays(email);
}

/// Setting up goes step by step: first the identity, then a network, then the end.
pub proof fn law_setup_goes_step_by_step(c: ConfigV)
    ensures
        c.peer_id is None || c.service_id is None ==> setup_step(c) == 1,
        c.peer_id is Some && c.service_id is Some && c.clusters.len() == 0 && c.swarms.len() == 0
            ==> setup_step(c) == 2,
        c.peer_id is Some && c.service_id is Some && (c.clusters.len() > 0 || c.swarms.len() > 0)
            && !c.setup_complete ==> setup_step(c) == 3,
{
}

/// What a gateway failed with is told, with where it failed.
pub proof fn law_failure_is_told(context: Seq<char>, err: Seq<char>)
    ensures
        json::field(gateway_error(context, err), "error"@) matches Some(JsonV::Str(m))
            && text::starts(m, context) && text::has(m, err),
{
    let rest = if text::has(err, "build_id not on allowlist"@) {
        ". Register this client binary on the lobby: export MTRXAI_ADMIN_KEY=... && scripts/register-allowed-build.sh release/docker/allowed_build.json"@
    } else {
        Seq::<char>::empty()
    };
    let m = gateway_message(context, err);
    text::law_prefix_is_taken_off(err, context + ": "@, rest);
    assert(m =~= context + ": "@ + err + rest);
    text::law_prefix_is_taken_off(context, ": "@ + err + rest, rest);
    assert(m =~= context + (": "@ + err + rest));
}

} // verus!
