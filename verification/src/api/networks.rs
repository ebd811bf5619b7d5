//! What the user does with clusters and swarms.

use crate::api::setup;
use crate::client_config::lobby;
use crate::client_config::lobby::ClusterResponse;
use crate::client_config::memberships;
use crate::client_config::settings;
use crate::client_config::types::{
    ClientConfig, ConfigV, MembershipV, SwarmMembership, SwarmV,
};
use crate::cluster_manager;
use crate::json;
use crate::llm_proxy::requests::{Refusal, RefusalV};
use crate::outside;
use crate::text;
use vstd::prelude::*;

verus! {

/// The answer where a cluster or a swarm is not there.
pub open spec fn missing(what: Seq<char>) -> RefusalV {
    RefusalV { status: 404, message: what }
}

fn refuse_missing(what: &str) -> (r: Refusal)
    ensures
        r@ == missing(what@),
{
    Refusal { status: 404, message: text::copy(what) }
}

/// What the user gives to make a cluster.
#[derive(Debug)]
pub struct CreateClusterBody {
    pub name: Option<String>,
    pub visibility: Option<String>,
    pub password: Option<String>,
    pub required_attestation_flags: Option<u64>,
}

/// The peer and the visibility under which a cluster is made: only a registered
/// peer makes one, and none that is public.
pub fn post_cluster_create(config: &ClientConfig, body: &CreateClusterBody) -> (r: Result<
    (String, String),
    Refusal,
>)
    ensures
        ({
            let visibility = settings::or_value(text::opt_view(body.visibility), "private"@);
            match config@.peer_id {
                None => r matches Err(e) && e@ == setup::bad_request("peer not registered"@),
                Some(p) => if text::ascii_lower(visibility) == text::ascii_lower("public"@) {
                    r matches Err(e) && e@ == (RefusalV {
                        status: 403,
                        message: "public clusters can only be created via admin API"@,
                    })
                } else {
                    r matches Ok(v) && v.0@ == p && v.1@ == visibility
                },
            }
        }),
{
    let peer_id = match &config.peer_id {
        Some(p) => text::copy(p),
        None => {
            return Err(setup::refuse_bad("peer not registered"));
        },
    };
    let visibility = match &body.visibility {
        Some(v) => text::copy(v),
        None => text::copy("private"),
    };
    if text::eq_ignore_ascii_case(&visibility, "public") {
        let message = text::copy("public clusters can only be created via admin API");
        return Err(Refusal { status: 403, message });
    }
    Ok((peer_id, visibility))
}

/// What the user gives to join a cluster.
#[derive(Debug)]
pub struct JoinClusterBody {
    pub cluster_id: Option<String>,
    pub name: Option<String>,
    pub password: Option<String>,
}

/// How a cluster is joined.
#[derive(Debug)]
pub enum JoinPlan {
    /// A private one, by its id and its name.
    Private(String, String),
    /// By its id.
    ById(String),
    /// A public one, by its name.
    ByName(String),
}

/// How a cluster is joined.
#[verifier::ext_equal]
pub enum JoinV {
    Private(Seq<char>, Seq<char>),
    ById(Seq<char>),
    ByName(Seq<char>),
}

impl View for JoinPlan {
    type V = JoinV;

    open spec fn view(&self) -> JoinV {
        match *self {
            JoinPlan::Private(id, name) => JoinV::Private(id@, name@),
            JoinPlan::ById(id) => JoinV::ById(id@),
            JoinPlan::ByName(name) => JoinV::ByName(name@),
        }
    }
}

/// How a cluster is joined: blank texts do not count.
pub fn post_cluster_join(body: &JoinClusterBody) -> (r: Result<JoinPlan, Refusal>)
    ensures
        match (
            settings::filled(text::opt_view(body.cluster_id)),
            settings::filled(text::opt_view(body.name)),
        ) {
            (Some(id), Some(name)) => r matches Ok(p) && p@ == JoinV::Private(id, name),
            (Some(id), None) => r matches Ok(p) && p@ == JoinV::ById(id),
            (None, Some(name)) => r matches Ok(p) && p@ == JoinV::ByName(name),
            (None, None) => r matches Err(e) && e@ == setup::bad_request(
                "cluster_id or name required (private clusters need both)"@,
            ),
        },
{
    let id = match &body.cluster_id {
        Some(s) => settings::env_non_empty(Some(s.as_str())),
        None => None,
    };
    let name = match &body.name {
        Some(s) => settings::env_non_empty(Some(s.as_str())),
        None => None,
    };
    match (id, name) {
        (Some(i), Some(n)) => Ok(JoinPlan::Private(i, n)),
        (Some(i), None) => Ok(JoinPlan::ById(i)),
        (None, Some(n)) => Ok(JoinPlan::ByName(n)),
        (None, None) => Err(
            setup::refuse_bad("cluster_id or name required (private clusters need both)"),
        ),
    }
}

/// What the user is told of a cluster.
#[derive(Debug)]
pub struct ClusterActionResponse {
    pub cluster_id: String,
    pub name: Option<String>,
    pub visibility: Option<String>,
}

/// Remembers a cluster that the peer made or joined, of which the lobby said
/// `resp`, and tells the user.
pub fn remember_cluster(config: &mut ClientConfig, resp: &ClusterResponse, password: Option<String>) -> (r:
    ClusterActionResponse)
    ensures
        ({
            let m = lobby::joined_cluster(*resp, text::opt_view(password));
            &&& final(config)@ == (ConfigV {
                clusters: memberships::with_cluster(old(config)@.clusters, m),
                ..old(config)@
            })
            &&& r.cluster_id@ == m.cluster_id
            &&& text::opt_view(r.name) == m.name
            &&& text::opt_view(r.visibility) == m.visibility
        }),
{
    let m = cluster_manager::cluster_membership_from_response(resp, password);
    let r = ClusterActionResponse {
        cluster_id: text::copy(&m.cluster_id),
        name: text::copy_opt(&m.name),
        visibility: text::copy_opt(&m.visibility),
    };
    memberships::upsert_cluster(config, m);
    r
}

/// The peer `c` with the cluster `id` as `m` has it; `m` takes the cluster as it
/// was.
pub open spec fn cluster_changed(
    c: ConfigV,
    id: Seq<char>,
    change: spec_fn(MembershipV) -> MembershipV,
) -> Option<ConfigV> {
    match memberships::cluster_at(c.clusters, id) {
        Some(i) => Some(
            ConfigV { clusters: c.clusters.update(i, change(c.clusters[i])), ..c },
        ),
        None => None,
    }
}

/// The peer `c` with the swarm `id` as `change` makes it.
pub open spec fn swarm_changed(
    c: ConfigV,
    id: Seq<char>,
    change: spec_fn(SwarmV) -> SwarmV,
) -> Option<ConfigV> {
    match memberships::swarm_at(c.swarms, id) {
        Some(i) => Some(ConfigV { swarms: c.swarms.update(i, change(c.swarms[i])), ..c }),
        None => None,
    }
}

/// Whether a change came to pass: the peer is `after`, or nothing changed and
/// what was to be changed was not there.
pub open spec fn changed_or_missing(
    before: ConfigV,
    after: ConfigV,
    changed: Option<ConfigV>,
    r: Result<(), Refusal>,
    what: Seq<char>,
) -> bool {
    match changed {
        Some(c) => r is Ok && after == c,
        None => after == before && (r matches Err(e) && e@ == missing(what)),
    }
}

/// Connects a cluster, or disconnects it.
pub fn set_cluster_connected(config: &mut ClientConfig, cluster_id: &str, connected: bool) -> (r:
    Result<(), Refusal>)
    ensures
        changed_or_missing(
            old(config)@,
            final(config)@,
            cluster_changed(
                old(config)@,
                cluster_id@,
                |m: MembershipV| MembershipV { connected: Some(connected), ..m },
            ),
            r,
            "cluster not found"@,
        ),
{
    proof {
        text::lemma_position(memberships::cluster_ids(config@.clusters), cluster_id@);
    }
    match memberships::find_cluster_mut(config, cluster_id) {
        Some(c) => {
            c.connected = Some(connected);
            Ok(())
        },
        None => Err(refuse_missing("cluster not found")),
    }
}

/// Lets a peer take the jobs of a cluster, or not while it is being maintained.
pub fn post_cluster_maintenance(config: &mut ClientConfig, cluster_id: &str, enabled: bool) -> (r:
    Result<(), Refusal>)
    ensures
        changed_or_missing(
            old(config)@,
            final(config)@,
            cluster_changed(
                old(config)@,
                cluster_id@,
                |m: MembershipV| MembershipV { accepting_jobs: Some(!enabled), ..m },
            ),
            r,
            "cluster not found"@,
        ),
{
    proof {
        text::lemma_position(memberships::cluster_ids(config@.clusters), cluster_id@);
    }
    match memberships::find_cluster_mut(config, cluster_id) {
        Some(c) => {
            c.accepting_jobs = Some(!enabled);
            Ok(())
        },
        None => Err(refuse_missing("cluster not found")),
    }
}

/// The hours in which a network is served, as far as the user changes them.
#[derive(Debug)]
pub struct ScheduleBody {
    pub enabled: Option<bool>,
    pub start: Option<String>,
    pub end: Option<String>,
}

/// Changes the hours in which a cluster is served.
pub fn put_cluster_schedule(config: &mut ClientConfig, cluster_id: &str, body: ScheduleBody) -> (r:
    Result<(), Refusal>)
    ensures
        changed_or_missing(
            old(config)@,
            final(config)@,
            cluster_changed(
                old(config)@,
                cluster_id@,
                |m: MembershipV|
                    MembershipV {
                        schedule_enabled: memberships::or_else(body.enabled, m.schedule_enabled),
                        schedule_start: memberships::or_else(
                            text::opt_view(body.start),
                            m.schedule_start,
                        ),
                        schedule_end: memberships::or_else(
                            text::opt_view(body.end),
                            m.schedule_end,
                        ),
                        ..m
                    },
            ),
            r,
            "cluster not found"@,
        ),
{
    proof {
        text::lemma_position(memberships::cluster_ids(config@.clusters), cluster_id@);
    }
    match memberships::find_cluster_mut(config, cluster_id) {
        Some(c) => {
            if body.enabled.is_some() {
                c.schedule_enabled = body.enabled;
            }
            if body.start.is_some() {
                c.schedule_start = body.start;
            }
            if body.end.is_some() {
                c.schedule_end = body.end;
            }
            Ok(())
        },
        None => Err(refuse_missing("cluster not found")),
    }
}

/// Connects a swarm, or disconnects it.
pub fn set_swarm_connected(config: &mut ClientConfig, swarm_id: &str, connected: bool) -> (r: Result<
    (),
    Refusal,
>)
    ensures
        changed_or_missing(
            old(config)@,
            final(config)@,
            swarm_changed(
                old(config)@,
                swarm_id@,
                |s: SwarmV| SwarmV { connected: Some(connected), ..s },
            ),
            r,
            "swarm not found"@,
        ),
{
    proof {
        text::lemma_position(memberships::swarm_ids(config@.swarms), swarm_id@);
    }
    match memberships::find_swarm_mut(config, swarm_id) {
        Some(s) => {
            s.connected = Some(connected);
            Ok(())
        },
        None => Err(refuse_missing("swarm not found")),
    }
}

/// Lets a peer take the jobs of a swarm, or not while it is being maintained.
pub fn post_swarm_maintenance(config: &mut ClientConfig, swarm_id: &str, enabled: bool) -> (r:
    Result<(), Refusal>)
    ensures
        changed_or_missing(
            old(config)@,
            final(config)@,
            swarm_changed(
                old(config)@,
                swarm_id@,
                |s: SwarmV| SwarmV { accepting_jobs: Some(!enabled), ..s },
            ),
            r,
            "swarm not found"@,
        ),
{
    proof {
        text::lemma_position(memberships::swarm_ids(config@.swarms), swarm_id@);
    }
    match memberships::find_swarm_mut(config, swarm_id) {
        Some(s) => {
            s.accepting_jobs = Some(!enabled);
            Ok(())
        },
        None => Err(refuse_missing("swarm not found")),
    }
}

/// Changes the hours in which a swarm is served.
pub fn put_swarm_schedule(config: &mut ClientConfig, swarm_id: &str, body: ScheduleBody) -> (r:
    Result<(), Refusal>)
    ensures
        changed_or_missing(
            old(config)@,
            final(config)@,
            swarm_changed(
                old(config)@,
                swarm_id@,
                |s: SwarmV|
                    SwarmV {
                        schedule_enabled: memberships::or_else(body.enabled, s.schedule_enabled),
                        schedule_start: memberships::or_else(
                            text::opt_view(body.start),
                            s.schedule_start,
                        ),
                        schedule_end: memberships::or_else(
                            text::opt_view(body.end),
                            s.schedule_end,
                        ),
                        ..s
                    },
            ),
            r,
            "swarm not found"@,
        ),
{
    proof {
        text::lemma_position(memberships::swarm_ids(config@.swarms), swarm_id@);
    }
    match memberships::find_swarm_mut(config, swarm_id) {
        Some(s) => {
            if body.enabled.is_some() {
                s.schedule_enabled = body.enabled;
            }
            if body.start.is_some() {
                s.schedule_start = body.start;
            }
            if body.end.is_some() {
                s.schedule_end = body.end;
            }
            Ok(())
        },
        None => Err(refuse_missing("swarm not found")),
    }
}

/// What the user is told of a swarm.
#[derive(Debug)]
pub struct SwarmActionResponse {
    pub swarm_id: String,
    pub name: Option<String>,
    pub p2p_token: String,
}

/// Whether `r` tells of the swarm `s`.
pub open spec fn tells_of(r: SwarmActionResponse, s: SwarmV) -> bool {
    r.swarm_id@ == s.swarm_id && text::opt_view(r.name) == s.name && r.p2p_token@ == s.p2p_token
}

fn tell(s: &SwarmMembership) -> (r: SwarmActionResponse)
    ensures
        tells_of(r, s@),
{
    SwarmActionResponse {
        swarm_id: text::copy(&s.swarm_id),
        name: text::copy_opt(&s.name),
        p2p_token: text::copy(&s.p2p_token),
    }
}

/// The peer `c` with the swarm `s`, and taking part in swarms.
pub open spec fn with_new_swarm(c: ConfigV, s: SwarmV) -> ConfigV {
    let more = ConfigV { swarms: memberships::with_swarm(c.swarms, s), ..c };
    ConfigV { p2p_mode: memberships::mode_with_swarms(more), ..more }
}

/// Takes the peer into the swarm `s`.
pub fn enter_swarm(config: &mut ClientConfig, s: SwarmMembership) -> (r: SwarmActionResponse)
    ensures
        final(config)@ == with_new_swarm(old(config)@, s@),
        tells_of(r, s@),
{
    let r = tell(&s);
    memberships::upsert_swarm(config, s);
    memberships::ensure_p2p_mode_for_swarms(config);
    r
}

/// Makes a new swarm, with an id of its own, and with a token of its own where none
/// is given, and takes the peer into it. Its boot nodes are those that `bootnodes`
/// lists.
pub fn post_swarm_create(
    config: &mut ClientConfig,
    name: Option<String>,
    p2p_token: Option<String>,
    bootnodes: Option<&str>,
) -> (r: SwarmActionResponse)
    ensures
        outside::is_uuid(r.swarm_id@),
        match p2p_token {
            Some(t) => r.p2p_token@ == t@,
            None => outside::is_uuid(r.p2p_token@),
        },
        text::opt_view(r.name) == text::opt_view(name),
        final(config)@ == with_new_swarm(
            old(config)@,
            memberships::new_swarm(
                r.swarm_id@,
                text::opt_view(name),
                r.p2p_token@,
                memberships::listed(json::opt_str(bootnodes)),
            ),
        ),
{
    let s = memberships::create_swarm_membership(name, p2p_token, bootnodes);
    enter_swarm(config, s)
}

/// What the user gives to join a swarm.
#[derive(Debug)]
pub struct JoinSwarmBody {
    pub p2p_token: String,
    pub name: Option<String>,
    pub bootnodes: Vec<String>,
}

/// What is done to join a swarm.
#[derive(Debug)]
pub enum SwarmJoin {
    /// The peer is in it already.
    Entered(SwarmActionResponse),
    /// The peer enters this one, which has boot nodes.
    Enter(SwarmMembership),
    /// The peer enters this one, whose boot nodes have to be found.
    Resolve(SwarmMembership),
}

/// The swarm `s` as the user who joins it again has it.
pub open spec fn rejoined(s: SwarmV, body: JoinSwarmBody) -> SwarmV {
    SwarmV {
        name: memberships::or_else(text::opt_view(body.name), s.name),
        connected: Some(true),
        bootnodes: if body.bootnodes@.len() > 0 {
            text::views(body.bootnodes@)
        } else {
            s.bootnodes
        },
        ..s
    }
}

/// Where the swarm with the token `token` stands: of those that have its id, the
/// first.
pub open spec fn swarm_by_token(v: Seq<SwarmV>, token: Seq<char>) -> Option<int> {
    match text::position(memberships::swarm_tokens(v), token) {
        Some(i) => memberships::swarm_at(v, v[i].swarm_id),
        None => None,
    }
}

/// Takes the peer into a swarm that it is in already, or tells which swarm it
/// enters. The boot nodes of a new one are those that the user gave; where the user
/// gave none, they are still to be looked up.
pub fn post_swarm_join(config: &mut ClientConfig, body: &JoinSwarmBody) -> (r: Result<
    SwarmJoin,
    Refusal,
>)
    ensures
        ({
            let token = text::trimmed(body.p2p_token@);
            let c = old(config)@;
            if token.len() == 0 {
                final(config)@ == c && (r matches Err(e) && e@ == setup::bad_request(
                    "p2p_token required"@,
                ))
            } else {
                match swarm_by_token(c.swarms, token) {
                    Some(i) => {
                        let s = rejoined(c.swarms[i], *body);
                        let more = ConfigV { swarms: c.swarms.update(i, s), ..c };
                        &&& final(config)@ == (ConfigV {
                            p2p_mode: memberships::mode_with_swarms(more),
                            ..more
                        })
                        &&& r matches Ok(SwarmJoin::Entered(t)) && tells_of(t, s)
                    },
                    None => {
                        &&& final(config)@ == c
                        &&& if body.bootnodes@.len() > 0 {
                            r matches Ok(SwarmJoin::Enter(s)) && outside::is_uuid(s@.swarm_id)
                                && s@ == memberships::new_swarm(
                                s@.swarm_id,
                                text::opt_view(body.name),
                                token,
                                text::views(body.bootnodes@),
                            )
                        } else {
                            r matches Ok(SwarmJoin::Resolve(s)) && outside::is_uuid(s@.swarm_id)
                                && s@ == memberships::new_swarm(
                                s@.swarm_id,
                                text::opt_view(body.name),
                                token,
                                Seq::empty(),
                            )
                        }
                    },
                }
            }
        }),
{
    let token = text::trim(&body.p2p_token);
    if token.as_str().is_empty() {
        return Err(setup::refuse_bad("p2p_token required"));
    }
    assert(text::views(body.bootnodes@).len() == body.bootnodes@.len());
    let ghost c = config@;
    let existing = memberships::find_swarm_by_token(config, &token);
    proof {
        text::lemma_position(memberships::swarm_tokens(c.swarms), token@);
    }
    if let Some(e) = existing {
        proof {
            let ids = memberships::swarm_ids(c.swarms);
            text::lemma_position(ids, e@.swarm_id);
            match text::position(memberships::swarm_tokens(c.swarms), token@) {
                Some(k) => {
                    assert(ids[k] == e@.swarm_id);
                },
                None => {},
            }
        }
        let entered = match memberships::find_swarm_mut(config, &e.swarm_id) {
            Some(s) => {
                if body.name.is_some() {
                    s.name = text::copy_opt(&body.name);
                }
                s.connected = Some(true);
                if body.bootnodes.len() > 0 {
                    s.bootnodes = text::copy_list(&body.bootnodes);
                }
                tell(s)
            },
            None => {
                return Err(Refusal { status: 500, message: text::copy("swarm lookup failed") });
            },
        };
        memberships::ensure_p2p_mode_for_swarms(config);
        return Ok(SwarmJoin::Entered(entered));
    }
    let mut s = memberships::create_swarm_membership(
        text::copy_opt(&body.name),
        Some(token),
        None,
    );
    s.bootnodes = text::copy_list(&body.bootnodes);
    assert(text::views(s.bootnodes@).len() == s.bootnodes@.len());
    if s.bootnodes.len() > 0 {
        Ok(SwarmJoin::Enter(s))
    } else {
        assert(text::views(s.bootnodes@) =~= Seq::<Seq<char>>::empty());
        Ok(SwarmJoin::Resolve(s))
    }
}

/// A swarm with the boot nodes that were found.
pub fn resolved_swarm(s: SwarmMembership, bootnodes: Vec<String>) -> (r: SwarmMembership)
    ensures
        r@ == (SwarmV { bootnodes: text::views(bootnodes@), ..s@ }),
{
    let mut s = s;
    s.bootnodes = bootnodes;
    s
}

/// To connect a cluster and then to disconnect it leaves it disconnected, and all
/// else as it was before.
pub proof fn law_disconnect_undoes_connect(c: ConfigV, id: Seq<char>)
    requires
        memberships::cluster_at(c.clusters, id) is Some,
    ensures
        ({
            let on = |m: MembershipV| MembershipV { connected: Some(true), ..m };
            let off = |m: MembershipV| MembershipV { connected: Some(false), ..m };
            match cluster_changed(c, id, on) {
                Some(d) => cluster_changed(d, id, off) == cluster_changed(c, id, off),
                None => false,
            }
        }),
{
    let on = |m: MembershipV| MembershipV { connected: Some(true), ..m };
    let off = |m: MembershipV| MembershipV { connected: Some(false), ..m };
    let ids = memberships::cluster_ids(c.clusters);
    text::lemma_position(ids, id);
    match memberships::cluster_at(c.clusters, id) {
        Some(i) => {
            let d = c.clusters.update(i, on(c.clusters[i]));
            assert(memberships::cluster_ids(d) =~= ids);
            assert(d.update(i, off(d[i])) =~= c.clusters.update(i, off(c.clusters[i])));
        },
        None => {},
    }
}

/// A peer that enters a swarm takes part in swarms.
pub proof fn law_swarm_is_taken_part_in(c: ConfigV, s: SwarmV)
    ensures
        with_new_swarm(c, s).p2p_mode != crate::shared::NetworkMode::Cluster,
{
    text::lemma_position(memberships::swarm_ids(c.swarms), s.swarm_id);
}

/// A change of a cluster changes that cluster, the first under its identifier, and
/// nothing else; where the peer is not in it, there is nothing to change.
pub proof fn law_change_touches_one_cluster(
    c: ConfigV,
    id: Seq<char>,
    change: spec_fn(MembershipV) -> MembershipV,
)
    ensures
        cluster_changed(c, id, change) is None <==> (forall|i: int|
            0 <= i < c.clusters.len() ==> (#[trigger] c.clusters[i]).cluster_id != id),
        cluster_changed(c, id, change) matches Some(d) ==> {
            &&& d == (ConfigV { clusters: d.clusters, ..c })
            &&& d.clusters.len() == c.clusters.len()
            &&& forall|i: int|
                0 <= i < c.clusters.len() && (#[trigger] c.clusters[i]).cluster_id != id
                    ==> d.clusters[i] == c.clusters[i]
            &&& forall|i: int|
                0 <= i < c.clusters.len() && (#[trigger] c.clusters[i]).cluster_id == id && (forall|
                    j: int,
                |
                    0 <= j < i ==> (#[trigger] c.clusters[j]).cluster_id != id) ==> d.clusters[i]
                    == change(c.clusters[i])
        },
{
    let ids = memberships::cluster_ids(c.clusters);
    text::lemma_position(ids, id);
    assert forall|i: int| 0 <= i < c.clusters.len() implies ids[i] == (
    #[trigger] c.clusters[i]).cluster_id by {}
    if let Some(at) = memberships::cluster_at(c.clusters, id) {
        assert(c.clusters[at].cluster_id == id);
        assert forall|i: int|
            0 <= i < c.clusters.len() && (#[trigger] c.clusters[i]).cluster_id == id && (forall|
                j: int,
            |
                0 <= j < i ==> (#[trigger] c.clusters[j]).cluster_id != id) implies i == at by {
            if at < i {
                assert(c.clusters[at].cluster_id != id);
            }
            if i < at {
                assert(ids[i] != id);
            }
        }
    } else {
        assert forall|i: int| 0 <= i < c.clusters.len() implies (
        #[trigger] c.clusters[i]).cluster_id != id by {
            assert(ids[i] != id);
        }
    }
}

/// A change of a swarm changes that swarm and nothing else; where the peer is not in it,
/// there is nothing to change.
pub proof fn law_change_touches_one_swarm(
    c: ConfigV,
    id: Seq<char>,
    change: spec_fn(SwarmV) -> SwarmV,
)
    ensures
        swarm_changed(c, id, change) is None <==> (forall|i: int|
            0 <= i < c.swarms.len() ==> (#[trigger] c.swarms[i]).swarm_id != id),
        swarm_changed(c, id, change) matches Some(d) ==> {
            &&& d == (ConfigV { swarms: d.swarms, ..c })
            &&& d.swarms.len() == c.swarms.len()
            &&& forall|i: int|
                0 <= i < c.swarms.len() && (#[trigger] c.swarms[i]).swarm_id != id ==> d.swarms[i]
                    == c.swarms[i]
            &&& forall|i: int|
                0 <= i < c.swarms.len() && (#[trigger] c.swarms[i]).swarm_id == id && (forall|
                    j: int,
                |
                    0 <= j < i ==> (#[trigger] c.swarms[j]).swarm_id != id) ==> d.swarms[i]
                    == change(c.swarms[i])
        },
{
    let ids = memberships::swarm_ids(c.swarms);
    text::lemma_position(ids, id);
    assert forall|i: int| 0 <= i < c.swarms.len() implies ids[i] == (
    #[trigger] c.swarms[i]).swarm_id by {}
    if let Some(at) = memberships::swarm_at(c.swarms, id) {
        assert(c.swarms[at].swarm_id == id);
        assert forall|i: int|
            0 <= i < c.swarms.len() && (#[trigger] c.swarms[i]).swarm_id == id && (forall|j: int|
                0 <= j < i ==> (#[trigger] c.swarms[j]).swarm_id != id) implies i == at by {
            if at < i {
                assert(c.swarms[at].swarm_id != id);
            }
            if i < at {
                assert(ids[i] != id);
            }
        }
    } else {
        assert forall|i: int| 0 <= i < c.swarms.len() implies (#[trigger] c.swarms[i]).swarm_id
            != id by {
            assert(ids[i] != id);
        }
    }
}

/// A new swarm is remembered with its token, and the peer keeps its clusters.
pub proof fn law_new_swarm_is_remembered(c: ConfigV, s: SwarmV)
    requires
        forall|i: int| 0 <= i < c.swarms.len() ==> (#[trigger] c.swarms[i]).swarm_id != s.swarm_id,
    ensures
        with_new_swarm(c, s).swarms == c.swarms.push(s),
        with_new_swarm(c, s).clusters == c.clusters,
        with_new_swarm(c, s) == (ConfigV {
            swarms: with_new_swarm(c, s).swarms,
            p2p_mode: with_new_swarm(c, s).p2p_mode,
            ..c
        }),
        c.clusters.len() > 0 && c.p2p_mode != crate::shared::NetworkMode::Swarm ==> with_new_swarm(
            c,
            s,
        ).p2p_mode == crate::shared::NetworkMode::Both,
{
    memberships::law_upsert_touches_one_swarm(c.swarms, s);
}

/// Who joins a swarm again keeps its id and its token, is connected to it, and changes of
/// it only what is given.
pub proof fn law_swarm_is_joined_again(s: SwarmV, body: JoinSwarmBody)
    ensures
        ({
            let again = rejoined(s, body);
            &&& again.swarm_id == s.swarm_id
            &&& again.p2p_token == s.p2p_token
            &&& again.connected == Some(true)
            &&& body.name is None ==> again.name == s.name
            &&& body.name is Some ==> again.name == text::opt_view(body.name)
            &&& body.bootnodes@.len() == 0 ==> again.bootnodes == s.bootnodes
            &&& body.bootnodes@.len() > 0 ==> again.bootnodes.len() == body.bootnodes@.len()
            &&& forall|i: int|
                0 <= i < body.bootnodes@.len() ==> #[trigger] again.bootnodes[i] == body.bootnodes@[i]@
            &&& again == SwarmV {
                name: again.name,
                connected: again.connected,
                bootnodes: again.bootnodes,
                ..s
            }
        }),
{
}

/// A swarm is found by its token, where no two swarms have one id.
pub proof fn law_swarm_is_found_by_its_token(v: Seq<SwarmV>, i: int)
    requires
        0 <= i < v.len(),
        forall|a: int, b: int|
            0 <= a < b < v.len() ==> (#[trigger] v[a]).swarm_id != (#[trigger] v[b]).swarm_id,
    ensures
        swarm_by_token(v, v[i].p2p_token) matches Some(k) && 0 <= k <= i && v[k].p2p_token
            == v[i].p2p_token,
        forall|t: Seq<char>|
            (forall|k: int| 0 <= k < v.len() ==> (#[trigger] v[k]).p2p_token != t)
                ==> #[trigger] swarm_by_token(v, t) is None,
{
    let token = v[i].p2p_token;
    let tokens = memberships::swarm_tokens(v);
    let ids = memberships::swarm_ids(v);
    text::lemma_position(tokens, token);
    assert(tokens[i] == token);
    let k = text::position(tokens, token)->0;
    assert(tokens[k] == v[k].p2p_token);
    text::lemma_position(ids, v[k].swarm_id);
    assert(ids[k] == v[k].swarm_id);
    let n = text::position(ids, v[k].swarm_id)->0;
    assert(ids[n] == v[n].swarm_id);
    assert forall|t: Seq<char>|
        (forall|k: int| 0 <= k < v.len() ==> (#[trigger] v[k]).p2p_token != t) implies (
    #[trigger] swarm_by_token(v, t)) is None by {
        text::lemma_position(tokens, t);
        if text::position(tokens, t) is Some {
            let j = text::position(tokens, t)->0;
            assert(tokens[j] == v[j].p2p_token);
        }
    }
}

/// A change that finds what it changes comes to pass; one that does not changes nothing
/// and is refused.
pub proof fn law_change_comes_to_pass_or_is_refused(
    before: ConfigV,
    after: ConfigV,
    changed: Option<ConfigV>,
    r: Result<(), Refusal>,
    what: Seq<char>,
)
    requires
        changed_or_missing(before, after, changed, r, what),
    ensures
        r is Ok <==> changed is Some,
        r is Ok ==> changed == Some(after),
        r is Err ==> after == before,
{
}

/// What the user is told of a swarm is its id, its name and its token.
pub proof fn law_swarm_is_told(r: SwarmActionResponse, s: SwarmV)
    requires
        tells_of(r, s),
    ensures
        r.swarm_id@ == s.swarm_id,
        text::opt_view(r.name) == s.name,
        r.p2p_token@ == s.p2p_token,
{
}

} // verus!
