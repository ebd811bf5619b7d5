//! What a peer and the lobby say to each other.

use crate::client_config::memberships;
use crate::client_config::servers;
use crate::client_config::settings;
use crate::client_config::types;
use crate::client_config::types::{ClientConfig, ClusterMembership, ConfigV, MembershipV};
use crate::json;
use crate::json::{Json, JsonV};
use crate::outside;
use crate::shared::NetworkMode;
use crate::text;
use vstd::prelude::*;

verus! {

/// Forgets who the peer is, after the lobby refused it.
pub fn invalidate_local_peer_identity(config: &mut ClientConfig)
    ensures
        final(config)@ == (ConfigV {
            peer_id: None,
            service_id: None,
            service_name: None,
            setup_complete: false,
            clusters: Seq::empty(),
            swarms: Seq::empty(),
            cluster: None,
            ..old(config)@
        }),
{
    config.peer_id = None;
    config.service_id = None;
    config.service_name = None;
    config.setup_complete = false;
    config.clusters.clear();
    config.swarms.clear();
    config.cluster = None;
    assert(config@.clusters =~= Seq::<MembershipV>::empty());
    assert(config@.swarms =~= Seq::<types::SwarmV>::empty());
}

/// How the lobby takes peers in.
#[derive(Debug, Clone, PartialEq)]
pub struct LobbyConfigResponse {
    pub peer_registration: String,
}

/// Whether the lobby takes in only those that it invited.
pub open spec fn invite_only(mode: Seq<char>) -> bool {
    mode == "invite_only"@ || mode == "invitation"@
}

/// Whether the lobby takes in only those that it invited.
pub fn is_invite_only_registration(config: &LobbyConfigResponse) -> (r: bool)
    ensures
        r == invite_only(config.peer_registration@),
{
    text::str_eq(&config.peer_registration, "invite_only") || text::str_eq(
        &config.peer_registration,
        "invitation",
    )
}

/// Whether the lobby takes in those that register a service.
pub fn is_register_mode(config: &LobbyConfigResponse) -> (r: bool)
    ensures
        r == (config.peer_registration@ == "register"@),
{
    text::str_eq(&config.peer_registration, "register")
}

/// Whether the lobby asks for the name and password of a service.
pub open spec fn needs_credentials(mode: Seq<char>) -> bool {
    invite_only(mode) || mode == "register"@
}

/// Whether the lobby asks for the name and password of a service.
pub fn requires_credentials_registration(config: &LobbyConfigResponse) -> (r: bool)
    ensures
        r == needs_credentials(config.peer_registration@),
{
    is_invite_only_registration(config) || is_register_mode(config)
}

/// A server that helps peers to reach each other.
#[derive(Debug, Clone, PartialEq)]
pub struct IceServerConfig {
    pub urls: Vec<String>,
    pub username: Option<String>,
    pub credential: Option<String>,
}

/// The public servers that help where no others are known.
pub fn default_google_stun_servers() -> (r: Vec<IceServerConfig>)
    ensures
        r@.len() == 1,
        text::views(r@[0].urls@) == seq!["stun:stun.l.google.com:19302"@],
        r@[0].username is None,
        r@[0].credential is None,
{
    let mut urls: Vec<String> = Vec::new();
    urls.push(text::copy("stun:stun.l.google.com:19302"));
    assert(text::views(urls@) =~= seq!["stun:stun.l.google.com:19302"@]);
    let mut out: Vec<IceServerConfig> = Vec::new();
    out.push(IceServerConfig { urls, username: None, credential: None });
    out
}

/// Whom to ask next for servers that help peers to reach each other.
#[derive(Debug, Clone, PartialEq)]
pub enum IceStep {
    Use(Vec<IceServerConfig>),
    AskAsPeer,
    AskPublicly,
}

/// What to do with the servers that a setting gives: use them where there are
/// any, or else ask the lobby, as a peer where the peer has an id and a key.
pub fn ice_step_from_setting(
    from_setting: Vec<IceServerConfig>,
    peer_id: Option<&str>,
    has_key: bool,
) -> (r: IceStep)
    ensures
        r == if from_setting@.len() > 0 {
            IceStep::Use(from_setting)
        } else if settings::unless_blank(json::opt_str(peer_id)) is Some && has_key {
            IceStep::AskAsPeer
        } else {
            IceStep::AskPublicly
        },
{
    if from_setting.len() > 0 {
        IceStep::Use(from_setting)
    } else if settings::is_filled(peer_id) && has_key {
        IceStep::AskAsPeer
    } else {
        IceStep::AskPublicly
    }
}

/// What to do with the servers that the lobby gave the peer.
pub fn ice_step_from_peer_reply(reply: Vec<IceServerConfig>) -> (r: IceStep)
    ensures
        r == if reply@.len() > 0 {
            IceStep::Use(reply)
        } else {
            IceStep::AskPublicly
        },
{
    if reply.len() > 0 {
        IceStep::Use(reply)
    } else {
        IceStep::AskPublicly
    }
}

/// What to do with the servers that the lobby gives to anyone: where there are
/// none, the default ones help.
pub fn ice_servers_from_public_reply(reply: Vec<IceServerConfig>) -> (r: Vec<IceServerConfig>)
    ensures
        reply@.len() > 0 ==> r == reply,
        reply@.len() == 0 ==> r@.len() == 1 && text::views(r@[0].urls@) == seq![
            "stun:stun.l.google.com:19302"@,
        ] && r@[0].username is None && r@[0].credential is None,
{
    if reply.len() > 0 {
        reply
    } else {
        default_google_stun_servers()
    }
}

/// What the lobby says of a peer that it took in.
#[derive(Debug, Clone, PartialEq)]
pub struct RegisterPeerResponse {
    pub peer_id: String,
    pub service_id: String,
    pub service_name: String,
    pub credit_balance: i64,
    pub ice_servers: Option<Vec<IceServerConfig>>,
}

/// Remembers who the peer is.
pub fn apply_register_response(config: &mut ClientConfig, reg: &RegisterPeerResponse)
    ensures
        final(config)@ == (ConfigV {
            peer_id: Some(reg.peer_id@),
            service_id: Some(reg.service_id@),
            service_name: Some(reg.service_name@),
            ..old(config)@
        }),
{
    config.peer_id = Some(text::copy(&reg.peer_id));
    config.service_id = Some(text::copy(&reg.service_id));
    config.service_name = Some(text::copy(&reg.service_name));
}

/// A text as JSON, or null.
pub open spec fn text_or_null(s: Option<Seq<char>>) -> JsonV {
    match s {
        Some(t) => JsonV::Str(t),
        None => JsonV::Null,
    }
}

fn filled_json(s: Option<&str>) -> (r: Json)
    ensures
        r@ == text_or_null(settings::unless_blank(json::opt_str(s))),
{
    match s {
        Some(t) => if settings::is_filled(s) {
            json::string(t)
        } else {
            Json::Null
        },
        None => Json::Null,
    }
}

/// The id that a text writes, in its form with hyphens.
pub open spec fn id_in(s: Option<Seq<char>>) -> Option<Seq<char>> {
    match s {
        Some(t) => outside::uuid_of(t),
        None => None,
    }
}

fn id_json(s: Option<&str>) -> (r: Json)
    ensures
        r@ == text_or_null(id_in(json::opt_str(s))),
{
    match s {
        Some(t) => match outside::parse_uuid(t) {
            Some(u) => Json::Str(u),
            None => Json::Null,
        },
        None => Json::Null,
    }
}

/// Whether a peer proves who it was: where it has an id that is not blank.
pub fn proves_identity(peer_id: Option<&str>) -> (r: bool)
    ensures
        r == (settings::unless_blank(json::opt_str(peer_id)) is Some),
{
    settings::is_filled(peer_id)
}

/// What a peer asks the lobby to take it in with.
pub open spec fn registration(
    peer_id: Option<Seq<char>>,
    service_name: Option<Seq<char>>,
    service_password: Option<Seq<char>>,
    create_new_service: bool,
    contact_email: Option<Seq<char>>,
    attestation: Option<JsonV>,
    public_key: Seq<char>,
    peer_auth: Option<JsonV>,
) -> JsonV {
    let base = Map::<Seq<char>, JsonV>::empty().insert("peer_id"@, text_or_null(id_in(peer_id)))
        .insert("service_name"@, text_or_null(settings::unless_blank(service_name))).insert(
        "service_password"@,
        text_or_null(settings::unless_blank(service_password)),
    ).insert("create_new_service"@, JsonV::Bool(create_new_service)).insert(
        "contact_email"@,
        text_or_null(settings::unless_blank(contact_email)),
    );
    let proven = match attestation {
        Some(a) => base.insert("attestation"@, a),
        None => base,
    };
    let keyed = proven.insert("public_key"@, JsonV::Str(public_key));
    JsonV::Obj(
        match peer_auth {
            Some(a) => keyed.insert("peer_auth"@, a),
            None => keyed,
        },
    )
}

/// What a peer asks the lobby to take it in with. Blank texts count as none, and
/// so does an id that is none.
pub fn registration_body(
    peer_id: Option<&str>,
    service_name: Option<&str>,
    service_password: Option<&str>,
    create_new_service: bool,
    contact_email: Option<&str>,
    attestation: Option<Json>,
    public_key: &str,
    peer_auth: Option<Json>,
) -> (r: Json)
    ensures
        r@ == registration(
            json::opt_str(peer_id),
            json::opt_str(service_name),
            json::opt_str(service_password),
            create_new_service,
            json::opt_str(contact_email),
            json::opt_owned(attestation),
            public_key@,
            json::opt_owned(peer_auth),
        ),
{
    let mut body = json::object();
    body.set("peer_id", id_json(peer_id));
    body.set("service_name", filled_json(service_name));
    body.set("service_password", filled_json(service_password));
    body.set("create_new_service", Json::Bool(create_new_service));
    body.set("contact_email", filled_json(contact_email));
    if let Some(a) = attestation {
        body.set("attestation", a);
    }
    body.set("public_key", json::string(public_key));
    if let Some(a) = peer_auth {
        body.set("peer_auth", a);
    }
    body
}

/// What asks the lobby for a place in its trial.
pub fn beta_signup_body(
    email: &str,
    service_name: &str,
    service_password: &str,
    terms_accepted: bool,
) -> (r: Json)
    ensures
        r@ == JsonV::Obj(
            Map::<Seq<char>, JsonV>::empty().insert("email"@, JsonV::Str(email@)).insert(
                "service_name"@,
                JsonV::Str(service_name@),
            ).insert("service_password"@, JsonV::Str(service_password@)).insert(
                "terms_accepted"@,
                JsonV::Bool(terms_accepted),
            ),
        ),
{
    json::object().with("email", json::string(email)).with(
        "service_name",
        json::string(service_name),
    ).with("service_password", json::string(service_password)).with(
        "terms_accepted",
        Json::Bool(terms_accepted),
    )
}

/// What asks the lobby for a new cluster.
pub fn create_cluster_body(
    name: Option<&str>,
    visibility: &str,
    created_by_peer_id: Option<&str>,
    password: Option<&str>,
    required_attestation_flags: Option<u64>,
) -> (r: Json)
    ensures
        r@ == ({
            let base = Map::<Seq<char>, JsonV>::empty().insert(
                "name"@,
                text_or_null(settings::unless_blank(json::opt_str(name))),
            ).insert("visibility"@, JsonV::Str(visibility@)).insert(
                "created_by_peer_id"@,
                text_or_null(id_in(json::opt_str(created_by_peer_id))),
            ).insert(
                "password"@,
                text_or_null(settings::unless_blank(json::opt_str(password))),
            );
            JsonV::Obj(
                match required_attestation_flags {
                    Some(f) => base.insert("required_attestation_flags"@, JsonV::Int(f as int)),
                    None => base,
                },
            )
        }),
{
    let mut body = json::object().with("name", filled_json(name)).with(
        "visibility",
        json::string(visibility),
    ).with("created_by_peer_id", id_json(created_by_peer_id)).with(
        "password",
        filled_json(password),
    );
    if let Some(f) = required_attestation_flags {
        body.set("required_attestation_flags", Json::UInt(f));
    }
    body
}

/// What asks the lobby to join the public cluster `name`.
pub fn join_by_name_body(name: &str, password: Option<&str>) -> (r: Json)
    ensures
        r@ == JsonV::Obj(
            Map::<Seq<char>, JsonV>::empty().insert(
                "name"@,
                JsonV::Str(text::trimmed(name@)),
            ).insert(
                "password"@,
                text_or_null(settings::unless_blank(json::opt_str(password))),
            ),
        ),
{
    json::object().with("name", Json::Str(text::trim(name))).with(
        "password",
        filled_json(password),
    )
}

/// What asks the lobby to join the private cluster `cluster_id` by its name;
/// none where the id is none.
pub fn join_private_body(cluster_id: &str, name: &str, password: Option<&str>) -> (r: Option<Json>)
    ensures
        json::opt_owned(r) == match outside::uuid_of(cluster_id@) {
            Some(id) => Some(
                JsonV::Obj(
                    Map::<Seq<char>, JsonV>::empty().insert("cluster_id"@, JsonV::Str(id)).insert(
                        "name"@,
                        JsonV::Str(text::trimmed(name@)),
                    ).insert(
                        "password"@,
                        text_or_null(settings::unless_blank(json::opt_str(password))),
                    ),
                ),
            ),
            None => None,
        },
{
    match outside::parse_uuid(cluster_id) {
        Some(id) => Some(
            json::object().with("cluster_id", Json::Str(id)).with(
                "name",
                Json::Str(text::trim(name)),
            ).with("password", filled_json(password)),
        ),
        None => None,
    }
}

/// What asks the lobby to join the cluster `cluster_id`; none where the id is
/// none.
pub fn join_cluster_body(cluster_id: &str, password: Option<&str>) -> (r: Option<Json>)
    ensures
        json::opt_owned(r) == match outside::uuid_of(cluster_id@) {
            Some(id) => Some(
                JsonV::Obj(
                    Map::<Seq<char>, JsonV>::empty().insert("cluster_id"@, JsonV::Str(id)).insert(
                        "password"@,
                        text_or_null(settings::unless_blank(json::opt_str(password))),
                    ),
                ),
            ),
            None => None,
        },
{
    match outside::parse_uuid(cluster_id) {
        Some(id) => Some(
            json::object().with("cluster_id", Json::Str(id)).with(
                "password",
                filled_json(password),
            ),
        ),
        None => None,
    }
}

/// Where the lobby tells the credits of a service; none where its id is none.
pub fn credits_path(service_id: &str) -> (r: Option<String>)
    ensures
        text::opt_view(r) == match outside::uuid_of(service_id@) {
            Some(id) => Some("/api/public/services/"@ + id + "/credits"@),
            None => None,
        },
{
    match outside::parse_uuid(service_id) {
        Some(id) => Some(text::concat3("/api/public/services/", &id, "/credits")),
        None => None,
    }
}

/// What is told of a request that the lobby refused with `status` and `body`.
pub fn lobby_failure(what: &str, status: &str, body: &str) -> (r: String)
    ensures
        r@ == what@ + " failed ("@ + status@ + "): "@ + body@,
{
    let front = text::concat3(what, " failed (", status);
    let r = text::concat3(&front, "): ", body);
    assert(r@ =~= what@ + " failed ("@ + status@ + "): "@ + body@);
    r
}

/// A cluster, as the lobby lists it.
#[derive(Debug, Clone, PartialEq)]
pub struct ClusterListView {
    pub cluster_id: String,
    pub name: Option<String>,
    pub visibility: String,
    pub continent: Option<String>,
    pub password_protected: bool,
    pub required_attestation_flags: u64,
}

/// A cluster, as the user is told of it.
#[derive(Debug, Clone, PartialEq)]
pub struct PublicClusterView {
    pub cluster_id: String,
    pub name: Option<String>,
    pub continent: Option<String>,
}

/// Whether `p` tells the user of the cluster `c`.
pub open spec fn lists(p: PublicClusterView, c: ClusterListView) -> bool {
    p.cluster_id@ == c.cluster_id@ && text::opt_view(p.name) == text::opt_view(c.name)
        && text::opt_view(p.continent) == text::opt_view(c.continent)
}

/// The clusters that the lobby lists, as the user is told of them.
pub fn list_public_clusters(clusters: &Vec<ClusterListView>) -> (r: Vec<PublicClusterView>)
    ensures
        r@.len() == clusters@.len(),
        forall|i: int| 0 <= i < r@.len() ==> lists(#[trigger] r@[i], clusters@[i]),
{
    let mut out: Vec<PublicClusterView> = Vec::new();
    for i in 0..clusters.len()
        invariant
            out@.len() == i,
            forall|k: int| 0 <= k < i ==> lists(#[trigger] out@[k], clusters@[k]),
    {
        let c = &clusters[i];
        out.push(
            PublicClusterView {
                cluster_id: text::copy(&c.cluster_id),
                name: text::copy_opt(&c.name),
                continent: text::copy_opt(&c.continent),
            },
        );
    }
    out
}

/// What the lobby says of a cluster.
#[derive(Debug, Clone, PartialEq)]
pub struct ClusterResponse {
    pub cluster_id: String,
    pub name: Option<String>,
    pub visibility: Option<String>,
    pub continent: Option<String>,
    pub require_e2ee: Option<bool>,
    pub required_attestation_flags: Option<u64>,
}

/// The cluster that a peer takes part in, after the lobby said `resp` of it.
pub open spec fn joined_cluster(resp: ClusterResponse, room_secret: Option<Seq<char>>) -> MembershipV {
    let secret = settings::or_value(room_secret, Seq::empty());
    MembershipV {
        cluster_id: resp.cluster_id@,
        name: text::opt_view(resp.name),
        visibility: match resp.visibility {
            Some(v) => Some(v@),
            None => Some("public"@),
        },
        accepting_jobs: Some(true),
        connected: Some(true),
        room_secret: Some(secret),
        cluster_password: Some(secret),
        require_e2ee: resp.require_e2ee,
        require_tee: None,
        required_attestation_flags: resp.required_attestation_flags,
        schedule_enabled: None,
        schedule_start: None,
        schedule_end: None,
    }
}

/// The cluster that a peer takes part in, after the lobby said `resp` of it. The
/// secret is empty where there is none.
pub fn membership_from_response(resp: &ClusterResponse, room_secret: Option<String>) -> (r:
    ClusterMembership)
    ensures
        r@ == joined_cluster(*resp, text::opt_view(room_secret)),
{
    let stored = match room_secret {
        Some(s) => s,
        None => {
            proof {
                reveal_strlit("");
                assert(""@ =~= Seq::<char>::empty());
            }
            text::copy("")
        },
    };
    ClusterMembership {
        cluster_id: text::copy(&resp.cluster_id),
        name: text::copy_opt(&resp.name),
        visibility: match &resp.visibility {
            Some(v) => Some(text::copy(v)),
            None => Some(text::copy("public")),
        },
        accepting_jobs: Some(true),
        connected: Some(true),
        room_secret: Some(text::copy(&stored)),
        cluster_password: Some(stored),
        require_e2ee: resp.require_e2ee,
        require_tee: None,
        required_attestation_flags: resp.required_attestation_flags,
        schedule_enabled: None,
        schedule_start: None,
        schedule_end: None,
    }
}

/// Gives the peer the ids and the name that settings give, where it has none.
pub fn apply_env_identity(
    config: &mut ClientConfig,
    peer_id: Option<&str>,
    service_id: Option<&str>,
    service_name: Option<&str>,
)
    ensures
        final(config)@ == with_identity(
            old(config)@,
            json::opt_str(peer_id),
            json::opt_str(service_id),
            json::opt_str(service_name),
        ),
{
    if config.peer_id.is_none() {
        config.peer_id = settings::env_non_empty(peer_id);
    }
    if config.service_id.is_none() {
        config.service_id = settings::env_non_empty(service_id);
    }
    if config.service_name.is_none() {
        config.service_name = settings::env_non_empty(service_name);
    }
}

/// The peer `c` with the ids and the name that settings give, where it has none.
pub open spec fn with_identity(
    c: ConfigV,
    peer_id: Option<Seq<char>>,
    service_id: Option<Seq<char>>,
    service_name: Option<Seq<char>>,
) -> ConfigV {
    ConfigV {
        peer_id: memberships::or_else(c.peer_id, settings::filled(peer_id)),
        service_id: memberships::or_else(c.service_id, settings::filled(service_id)),
        service_name: memberships::or_else(c.service_name, settings::filled(service_name)),
        ..c
    }
}

/// The name and password of the service that settings give: both, or none.
pub fn service_credentials_for_registration(name: Option<&str>, password: Option<&str>) -> (r: (
    Option<String>,
    Option<String>,
))
    ensures
        ({
            let n = settings::filled(json::opt_str(name));
            let p = settings::filled(json::opt_str(password));
            (text::opt_view(r.0), text::opt_view(r.1)) == if n is Some && p is Some {
                (n, p)
            } else {
                (None::<Seq<char>>, None::<Seq<char>>)
            }
        }),
{
    match (settings::env_non_empty(name), settings::env_non_empty(password)) {
        (Some(n), Some(p)) => (Some(n), Some(p)),
        _ => (None, None),
    }
}

/// Whether a peer that starts by itself asks the lobby to take it in: always,
/// but where the lobby asks for the name and password of a service and the peer
/// has neither those nor an id.
pub fn bootstrap_registers(
    config: &ClientConfig,
    lobby: Option<&LobbyConfigResponse>,
    has_credentials: bool,
) -> (r: bool)
    ensures
        r == !(lobby is Some && needs_credentials(lobby->0.peer_registration@)
            && config.peer_id is None && !has_credentials),
{
    let requires_creds = match lobby {
        Some(l) => requires_credentials_registration(l),
        None => false,
    };
    !(requires_creds && config.peer_id.is_none() && !has_credentials)
}

/// Whether a peer that starts by itself keeps the clusters that it has.
pub fn bootstrap_keeps_clusters(
    config: &ClientConfig,
    force_room: Option<&str>,
    force_cluster: Option<&str>,
) -> (r: bool)
    ensures
        r == (!(force_room is Some && force_room->0@ == "1"@) && !(force_cluster is Some
            && force_cluster->0@ == "1"@) && config@.clusters.len() > 0 && config.setup_complete),
{
    let force = match force_room {
        Some(s) => text::str_eq(s, "1"),
        None => false,
    } || match force_cluster {
        Some(s) => text::str_eq(s, "1"),
        None => false,
    };
    assert(config@.clusters.len() == config.clusters@.len());
    !force && config.clusters.len() > 0 && config.setup_complete
}

/// Whether a peer has all that it needs to start.
pub open spec fn is_set_up(c: ConfigV) -> bool {
    c.peer_id is Some && c.service_id is Some && c.clusters.len() > 0 && servers::any_attached(
        c.llm_servers,
    )
}

/// Whether a peer has all that it needs to start: an id, a service, a cluster and
/// a server that is attached.
pub fn has_setup(config: &ClientConfig) -> (r: bool)
    ensures
        r == is_set_up(config@),
{
    assert(config@.clusters.len() == config.clusters@.len());
    config.peer_id.is_some() && config.service_id.is_some() && config.clusters.len() > 0
        && servers::has_attached_llm_servers(config)
}

/// The backend of the peer, or else `kind`.
pub open spec fn backend_or(c: ConfigV, kind: Seq<char>) -> Option<Seq<char>> {
    if c.llm_backend is Some {
        c.llm_backend
    } else {
        Some(kind)
    }
}

/// The peer `c` after it joined the cluster `name`, of which the lobby said
/// `join`.
pub open spec fn bootstrapped(c: ConfigV, join: ClusterResponse, name: Seq<char>) -> ConfigV {
    let joined = ConfigV {
        clusters: memberships::with_cluster(
            c.clusters,
            joined_cluster(join, Some(Seq::empty())),
        ),
        cluster: Some(name),
        llm_backend: backend_or(c, "ollama"@),
        ..c
    };
    ConfigV { setup_complete: is_set_up(joined), ..joined }
}

/// Remembers the cluster `cluster_name`, of which the lobby said `join`, after a
/// peer that starts by itself joined it.
pub fn complete_bootstrap(config: &mut ClientConfig, join: &ClusterResponse, cluster_name: &str)
    ensures
        final(config)@ == bootstrapped(old(config)@, *join, cluster_name@),
{
    proof {
        reveal_strlit("");
        assert(""@ =~= Seq::<char>::empty());
    }
    memberships::upsert_cluster(config, membership_from_response(join, Some(text::copy(""))));
    config.cluster = Some(text::copy(cluster_name));
    if config.llm_backend.is_none() {
        config.llm_backend = Some(text::copy("ollama"));
    }
    config.setup_complete = has_setup(config);
}

/// The port of the page on which a peer is set up.
pub fn setup_port(setting: Option<&str>) -> (r: u16)
    ensures
        r as nat == match settings::filled(json::opt_str(setting)) {
            Some(p) => match text::parsed(p, u16::MAX as nat) {
                Some(n) => n,
                None => 11345,
            },
            None => 11345,
        },
{
    match settings::env_non_empty(setting) {
        Some(p) => match text::parse_up_to(&p, 65535) {
            Some(n) => n as u16,
            None => 11345,
        },
        None => 11345,
    }
}

/// What the command line and the settings change in the configuration `c`: the
/// lobby at `lobby_host`; the networks that a setting names, where the peer took
/// part in clusters alone; and a server, either the inference cell at the address
/// that a setting gives, or else the one at the host that the command line gives.
/// A server that is new has the id `id`.
pub open spec fn overridden(
    c: ConfigV,
    lobby_host: Seq<char>,
    llm_host: Option<Seq<char>>,
    mode: Option<Seq<char>>,
    cell_url: Option<Seq<char>>,
    id: Seq<char>,
) -> ConfigV {
    let base = ConfigV {
        lobby_host,
        p2p_mode: if c.p2p_mode == NetworkMode::Cluster {
            match mode {
                Some(m) => memberships::named_mode(m),
                None => NetworkMode::Cluster,
            }
        } else {
            c.p2p_mode
        },
        ..c
    };
    match cell_address(cell_url) {
        Some(url) => {
            let celled = ConfigV {
                llm_servers: servers::with_cell(c.llm_servers, url, id),
                llm_url: Some(url),
                llm_backend: backend_or(c, "inference-cell"@),
                ..base
            };
            ConfigV { setup_complete: c.setup_complete || is_set_up(celled), ..celled }
        },
        None => match llm_host {
            Some(host) => {
                let url = "http://"@ + host;
                ConfigV {
                    llm_servers: if c.llm_servers.len() == 0 {
                        seq![servers::cli_server(id, "ollama"@, url)]
                    } else {
                        c.llm_servers
                    },
                    llm_url: Some(url),
                    llm_backend: backend_or(c, "ollama"@),
                    setup_complete: c.setup_complete || (c.peer_id is Some && c.service_id is Some
                        && c.clusters.len() > 0),
                    ..base
                }
            },
            None => base,
        },
    }
}

/// The address of the inference cell in a setting.
pub open spec fn cell_address(setting: Option<Seq<char>>) -> Option<Seq<char>> {
    match setting {
        Some(s) => {
            let url = text::strip_trailing(text::trimmed(s), '/');
            if url.len() > 0 {
                Some(url)
            } else {
                None
            }
        },
        None => None,
    }
}

/// Applies what the command line and the settings change. Returns the id that a
/// new server has.
pub fn apply_cli_overrides(
    config: &mut ClientConfig,
    lobby_host: &str,
    llm_host: Option<&str>,
    mode: Option<&str>,
    cell_url: Option<&str>,
) -> (id: String)
    ensures
        outside::is_uuid(id@),
        final(config)@ == overridden(
            old(config)@,
            lobby_host@,
            json::opt_str(llm_host),
            json::opt_str(mode),
            json::opt_str(cell_url),
            id@,
        ),
{
    config.lobby_host = text::copy(lobby_host);
    if config.p2p_mode == NetworkMode::Cluster {
        config.p2p_mode = memberships::network_mode_from_env(mode);
    }
    if let Some(s) = cell_url {
        let url = text::trim_end_char(&text::trim(s), '/');
        if !url.as_str().is_empty() {
            let id = servers::upsert_inference_cell_server(config, &url);
            config.llm_url = Some(url);
            if config.llm_backend.is_none() {
                config.llm_backend = Some(text::copy("inference-cell"));
            }
            if has_setup(config) {
                config.setup_complete = true;
            }
            return id;
        }
    }
    let id = outside::new_uuid();
    if let Some(host) = llm_host {
        let url = text::concat2("http://", host);
        let ghost before = config@.llm_servers;
        assert(before.len() == config.llm_servers@.len());
        if config.llm_servers.len() == 0 {
            config.llm_servers.push(servers::new_cli_server(text::copy(&id), "ollama", &url));
            assert(config@.llm_servers =~= seq![
                servers::cli_server(id@, "ollama"@, url@),
            ]);
        }
        config.llm_url = Some(url);
        if config.llm_backend.is_none() {
            config.llm_backend = Some(text::copy("ollama"));
        }
        assert(config@.clusters.len() == config.clusters@.len());
        if config.peer_id.is_some() && config.service_id.is_some() && config.clusters.len() > 0 {
            config.setup_complete = true;
        }
    }
    id
}

/// A registration says who registers: the identifier, the service and its password where
/// they are given, whether the service is new, the key, and the proofs that there are.
pub proof fn law_registration_says_who(
    peer_id: Option<Seq<char>>,
    name: Seq<char>,
    password: Seq<char>,
    create: bool,
    email: Option<Seq<char>>,
    attestation: Option<JsonV>,
    public_key: Seq<char>,
    peer_auth: Option<JsonV>,
)
    requires
        text::is_tight(name),
        text::is_tight(password),
    ensures
        ({
            let r = registration(
                peer_id,
                Some(name),
                Some(password),
                create,
                email,
                attestation,
                public_key,
                peer_auth,
            );
            &&& json::field(r, "service_name"@) == Some(JsonV::Str(name))
            &&& json::field(r, "service_password"@) == Some(JsonV::Str(password))
            &&& json::field(r, "create_new_service"@) == Some(JsonV::Bool(create))
            &&& json::field(r, "public_key"@) == Some(JsonV::Str(public_key))
            &&& json::field(r, "attestation"@) == attestation
            &&& json::field(r, "peer_auth"@) == peer_auth
            &&& email is None ==> json::field(r, "contact_email"@) == Some(JsonV::Null)
            &&& peer_id is None ==> json::field(r, "peer_id"@) == Some(JsonV::Null)
            &&& peer_id matches Some(p) ==> (outside::uuid_of(p) matches Some(id) ==> json::field(
                r,
                "peer_id"@,
            ) == Some(JsonV::Str(id)))
        }),
{
    text::lemma_tight_stays(name);
    text::lemma_tight_stays(password);
    reveal_strlit("peer_id");
    reveal_strlit("service_name");
    reveal_strlit("service_password");
    reveal_strlit("create_new_service");
    reveal_strlit("contact_email");
    reveal_strlit("attestation");
    reveal_strlit("public_key");
    reveal_strlit("peer_auth");
    assert("peer_id"@.len() == 7 && "service_name"@.len() == 12 && "service_password"@.len() == 16
        && "create_new_service"@.len() == 18 && "contact_email"@.len() == 13 && "attestation"@.len()
        == 11 && "public_key"@.len() == 10 && "peer_auth"@.len() == 9);
}

/// Joining a cluster remembers it: connected, taking jobs, with the name that the lobby
/// gives and the secret that it was joined with.
pub proof fn law_joined_cluster_is_remembered(
    resp: ClusterResponse,
    secret: Seq<char>,
    v: Seq<MembershipV>,
)
    ensures
        ({
            let c = joined_cluster(resp, Some(secret));
            &&& c.cluster_id == resp.cluster_id@
            &&& c.name == text::opt_view(resp.name)
            &&& resp.visibility matches Some(s) ==> c.visibility == Some(s@)
            &&& resp.visibility is None ==> c.visibility == Some("public"@)
            &&& c.accepting_jobs == Some(true)
            &&& c.connected == Some(true)
            &&& c.room_secret == Some(secret)
            &&& c.cluster_password == Some(secret)
            &&& c.require_e2ee == resp.require_e2ee
            &&& c.required_attestation_flags == resp.required_attestation_flags
            &&& memberships::cluster_at(memberships::with_cluster(v, c), resp.cluster_id@) is Some
        }),
{
    memberships::law_upserted_cluster_is_found(v, joined_cluster(resp, Some(secret)));
}

/// A peer keeps the identity that it has; what it lacks it takes from what is given, but
/// for blanks. Nothing else changes.
pub proof fn law_identity_is_kept(
    c: ConfigV,
    peer_id: Seq<char>,
    service_id: Option<Seq<char>>,
    service_name: Option<Seq<char>>,
)
    requires
        text::is_tight(peer_id),
    ensures
        ({
            let after = with_identity(c, Some(peer_id), service_id, service_name);
            &&& c.peer_id is Some ==> after.peer_id == c.peer_id
            &&& c.peer_id is None ==> after.peer_id == Some(peer_id)
            &&& c.service_id is Some ==> after.service_id == c.service_id
            &&& c.service_name is Some ==> after.service_name == c.service_name
            &&& service_id is None ==> after.service_id == c.service_id
            &&& service_name is None ==> after.service_name == c.service_name
            &&& after == (ConfigV {
                peer_id: after.peer_id,
                service_id: after.service_id,
                service_name: after.service_name,
                ..c
            })
        }),
{
    text::lemma_tight_stays(peer_id);
}

/// A peer that joins its first cluster is in it, and is set up where it has an identity
/// and a server.
pub proof fn law_first_cluster_is_joined(c: ConfigV, join: ClusterResponse, name: Seq<char>)
    ensures
        ({
            let after = bootstrapped(c, join, name);
            &&& memberships::cluster_at(after.clusters, join.cluster_id@) is Some
            &&& after.cluster == Some(name)
            &&& after.setup_complete == (c.peer_id is Some && c.service_id is Some
                && servers::any_attached(c.llm_servers))
            &&& c.llm_backend is Some ==> after.llm_backend == c.llm_backend
            &&& after.llm_servers == c.llm_servers
            &&& after.peer_id == c.peer_id
            &&& after.swarms == c.swarms
        }),
{
    let m = joined_cluster(join, Some(Seq::empty()));
    memberships::law_upserted_cluster_is_found(c.clusters, m);
    memberships::law_upsert_touches_one_cluster(c.clusters, m);
    text::lemma_position(memberships::cluster_ids(memberships::with_cluster(c.clusters, m)), m.cluster_id);
}

/// What is set for a start counts: the lobby always, the kind of networks where the peer
/// has not chosen one, and a server where its address is given. A start without settings
/// changes nothing but the lobby.
pub proof fn law_settings_of_a_start(
    c: ConfigV,
    lobby_host: Seq<char>,
    host: Seq<char>,
    url: Seq<char>,
    mode: Option<Seq<char>>,
    id: Seq<char>,
)
    requires
        text::is_tight(url),
        url.last() != '/',
    ensures
        overridden(c, lobby_host, None, None, None, id) == (ConfigV { lobby_host, ..c }),
        c.p2p_mode != NetworkMode::Cluster ==> overridden(c, lobby_host, None, mode, None, id).p2p_mode
            == c.p2p_mode,
        ({
            let after = overridden(c, lobby_host, Some(host), mode, Some(url), id);
            &&& after.lobby_host == lobby_host
            &&& after.llm_url == Some(url)
            &&& after.llm_servers == servers::with_cell(c.llm_servers, url, id)
            &&& c.setup_complete ==> after.setup_complete
        }),
        ({
            let after = overridden(c, lobby_host, Some(host), mode, None, id);
            &&& after.llm_url == Some("http://"@ + host)
            &&& c.llm_servers.len() > 0 ==> after.llm_servers == c.llm_servers
            &&& c.llm_servers.len() == 0 ==> after.llm_servers.len() == 1
                && after.llm_servers[0].url == "http://"@ + host && after.llm_servers[0].attached
            &&& c.setup_complete ==> after.setup_complete
        }),
{
    text::lemma_tight_stays(url);
    let none = Seq::<char>::empty();
    text::law_trailing_is_taken_off(url, '/', none);
    assert(url + none =~= url);
}

/// A peer has all that it needs to start just where it is known to the lobby, serves, is
/// in a cluster, and has a server of models.
pub proof fn law_set_up_peer_can_start(c: ConfigV, i: int)
    requires
        0 <= i < c.llm_servers.len(),
        c.llm_servers[i].attached,
    ensures
        c.peer_id is Some && c.service_id is Some && c.clusters.len() > 0 ==> is_set_up(c),
        c.peer_id is None || c.service_id is None || c.clusters.len() == 0 ==> !is_set_up(c),
{
}

/// The address of a cell is taken from its setting without the space around it and the
/// slash behind it; a blank setting names none.
pub proof fn law_cell_is_found(a: Seq<char>, url: Seq<char>, b: Seq<char>)
    requires
        text::is_blank(a),
        text::is_blank(b),
        text::is_tight(url),
        url.last() != '/',
    ensures
        cell_address(Some(a + url + b)) == Some(url),
        cell_address(Some(a + (url + seq!['/']) + b)) == Some(url),
        cell_address(Some(a)) is None,
        cell_address(None) is None,
{
    let none = Seq::<char>::empty();
    text::law_trimming_takes_off_space(a, url, b);
    text::law_trailing_is_taken_off(url, '/', none);
    assert(url + none =~= url);
    let slashed = url + seq!['/'];
    assert(slashed[0] == url[0]);
    assert(slashed.last() == '/');
    text::law_trimming_takes_off_space(a, slashed, b);
    text::law_trailing_is_taken_off(url, '/', seq!['/']);
    text::law_trimming_takes_off_space(a, none, none);
    assert(a + none + none =~= a);
}

} // verus!
