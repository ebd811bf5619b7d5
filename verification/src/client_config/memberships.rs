//! The clusters and swarms that a peer takes part in.

use crate::client_config::types;
use crate::client_config::types::{
    ClientConfig, ClusterMembership, ConfigV, MembershipV, SwarmMembership, SwarmV,
};
use crate::outside;
use crate::shared::NetworkMode;
use crate::text;
use vstd::prelude::*;

verus! {

/// Whether a peer takes jobs of a cluster.
pub fn cluster_accepts_jobs(cluster: &ClusterMembership) -> (r: bool)
    ensures
        r == (cluster.accepting_jobs != Some(false)),
{
    match cluster.accepting_jobs {
        Some(b) => b,
        None => true,
    }
}

/// Whether a peer wants to be connected to a cluster.
pub fn cluster_is_connected(cluster: &ClusterMembership) -> (r: bool)
    ensures
        r == (cluster.connected != Some(false)),
{
    match cluster.connected {
        Some(b) => b,
        None => true,
    }
}

/// Whether a peer takes jobs of a swarm.
pub fn swarm_accepts_jobs(swarm: &SwarmMembership) -> (r: bool)
    ensures
        r == (swarm.accepting_jobs != Some(false)),
{
    match swarm.accepting_jobs {
        Some(b) => b,
        None => true,
    }
}

/// Whether a peer wants to be connected to a swarm.
pub fn swarm_is_connected(swarm: &SwarmMembership) -> (r: bool)
    ensures
        r == (swarm.connected != Some(false)),
{
    match swarm.connected {
        Some(b) => b,
        None => true,
    }
}

/// The ids of clusters.
pub open spec fn cluster_ids(v: Seq<MembershipV>) -> Seq<Seq<char>> {
    v.map_values(|c: MembershipV| c.cluster_id)
}

/// The ids of swarms.
pub open spec fn swarm_ids(v: Seq<SwarmV>) -> Seq<Seq<char>> {
    v.map_values(|s: SwarmV| s.swarm_id)
}

/// The tokens of swarms.
pub open spec fn swarm_tokens(v: Seq<SwarmV>) -> Seq<Seq<char>> {
    v.map_values(|s: SwarmV| s.p2p_token)
}

/// Where the cluster `id` stands.
pub open spec fn cluster_at(v: Seq<MembershipV>, id: Seq<char>) -> Option<int> {
    text::position(cluster_ids(v), id)
}

/// Where the swarm `id` stands.
pub open spec fn swarm_at(v: Seq<SwarmV>, id: Seq<char>) -> Option<int> {
    text::position(swarm_ids(v), id)
}

fn cluster_index(v: &Vec<ClusterMembership>, id: &str) -> (r: Option<usize>)
    ensures
        match r {
            Some(i) => cluster_at(types::clusters_view(v@), id@) == Some(i as int) && i < v@.len(),
            None => cluster_at(types::clusters_view(v@), id@) is None,
        },
{
    let ghost ids = cluster_ids(types::clusters_view(v@));
    proof {
        text::lemma_position(ids, id@);
    }
    for i in 0..v.len()
        invariant
            ids == cluster_ids(types::clusters_view(v@)),
            forall|j: int| 0 <= j < i ==> #[trigger] ids[j] != id@,
            match text::position(ids, id@) {
                Some(i) => 0 <= i < ids.len() && ids[i] == id@ && forall|j: int|
                    0 <= j < i ==> #[trigger] ids[j] != id@,
                None => forall|j: int| 0 <= j < ids.len() ==> #[trigger] ids[j] != id@,
            },
    {
        assert(ids[i as int] == v@[i as int].cluster_id@);
        if text::str_eq(&v[i].cluster_id, id) {
            return Some(i);
        }
    }
    None
}

fn swarm_index(v: &Vec<SwarmMembership>, id: &str) -> (r: Option<usize>)
    ensures
        match r {
            Some(i) => swarm_at(types::swarms_view(v@), id@) == Some(i as int) && i < v@.len(),
            None => swarm_at(types::swarms_view(v@), id@) is None,
        },
{
    let ghost ids = swarm_ids(types::swarms_view(v@));
    proof {
        text::lemma_position(ids, id@);
    }
    for i in 0..v.len()
        invariant
            ids == swarm_ids(types::swarms_view(v@)),
            forall|j: int| 0 <= j < i ==> #[trigger] ids[j] != id@,
            match text::position(ids, id@) {
                Some(i) => 0 <= i < ids.len() && ids[i] == id@ && forall|j: int|
                    0 <= j < i ==> #[trigger] ids[j] != id@,
                None => forall|j: int| 0 <= j < ids.len() ==> #[trigger] ids[j] != id@,
            },
    {
        assert(ids[i as int] == v@[i as int].swarm_id@);
        if text::str_eq(&v[i].swarm_id, id) {
            return Some(i);
        }
    }
    None
}

/// The first value, or else the second.
pub open spec fn or_else<T>(a: Option<T>, b: Option<T>) -> Option<T> {
    if a is Some {
        a
    } else {
        b
    }
}

/// The clusters `v` with `c` among them: what `c` says of the name and the
/// visibility of a cluster that is already there goes into it, all else of it
/// stays.
pub open spec fn with_cluster(v: Seq<MembershipV>, c: MembershipV) -> Seq<MembershipV> {
    match cluster_at(v, c.cluster_id) {
        Some(i) => v.update(
            i,
            MembershipV {
                name: or_else(c.name, v[i].name),
                visibility: or_else(c.visibility, v[i].visibility),
                ..v[i]
            },
        ),
        None => v.push(c),
    }
}

/// Puts `cluster` among the clusters.
pub fn upsert_cluster(config: &mut ClientConfig, cluster: ClusterMembership)
    ensures
        final(config)@ == (ConfigV {
            clusters: with_cluster(old(config)@.clusters, cluster@),
            ..old(config)@
        }),
{
    let ghost before = config.clusters@;
    match cluster_index(&config.clusters, &cluster.cluster_id) {
        Some(i) => {
            if cluster.name.is_some() {
                config.clusters[i].name = cluster.name;
            }
            if cluster.visibility.is_some() {
                config.clusters[i].visibility = cluster.visibility;
            }
            assert(types::clusters_view(config.clusters@) =~= with_cluster(
                types::clusters_view(before),
                cluster@,
            ));
        },
        None => {
            config.clusters.push(cluster);
            assert(types::clusters_view(config.clusters@) =~= types::clusters_view(before).push(
                cluster@,
            ));
        },
    }
}

/// The clusters `v` but for those with the id `id`.
pub open spec fn without_cluster(v: Seq<MembershipV>, id: Seq<char>) -> Seq<MembershipV> {
    v.filter(|c: MembershipV| c.cluster_id != id)
}

/// Takes the cluster `cluster_id` out. Without any cluster there is no preferred
/// one either.
pub fn remove_cluster(config: &mut ClientConfig, cluster_id: &str)
    ensures
        ({
            let left = without_cluster(old(config)@.clusters, cluster_id@);
            final(config)@ == (ConfigV {
                clusters: left,
                cluster: if left.len() == 0 {
                    None
                } else {
                    old(config)@.cluster
                },
                ..old(config)@
            })
        }),
{
    let ghost all = types::clusters_view(config.clusters@);
    let ghost keep = |c: MembershipV| c.cluster_id != cluster_id@;
    let ghost mut seen: int = 0;
    let mut i: usize = 0;
    reveal(Seq::filter);
    while i < config.clusters.len()
        invariant
            all == old(config)@.clusters,
            keep == (|c: MembershipV| c.cluster_id != cluster_id@),
            0 <= seen <= all.len(),
            i <= config.clusters@.len(),
            config@ == (ConfigV { clusters: config@.clusters, ..old(config)@ }),
            config@.clusters == all.take(seen).filter(keep) + all.skip(seen),
            i == all.take(seen).filter(keep).len(),
        decreases config.clusters.len() - i,
    {
        reveal(Seq::filter);
        let ghost cv = config@.clusters;
        proof {
            assert(all.take(seen + 1).drop_last() =~= all.take(seen));
            assert(cv[i as int] == all[seen]);
            assert(all.skip(seen) =~= seq![all[seen]] + all.skip(seen + 1));
        }
        if text::str_eq(&config.clusters[i].cluster_id, cluster_id) {
            config.clusters.remove(i);
            assert(config@.clusters =~= cv.remove(i as int));
            assert(cv.remove(i as int) =~= all.take(seen + 1).filter(keep) + all.skip(seen + 1));
        } else {
            i += 1;
            assert(cv =~= all.take(seen + 1).filter(keep) + all.skip(seen + 1));
        }
        proof {
            seen = seen + 1;
        }
    }
    proof {
        assert(all.skip(seen).len() == 0);
        assert(all.take(seen) =~= all);
        assert(config@.clusters =~= all.filter(keep));
        assert(config@.clusters.len() == config.clusters@.len());
    }
    if config.clusters.len() == 0 {
        config.cluster = None;
    }
}

/// The cluster `cluster_id`.
pub fn find_cluster<'a>(config: &'a ClientConfig, cluster_id: &str) -> (r: Option<
    &'a ClusterMembership,
>)
    ensures
        match cluster_at(config@.clusters, cluster_id@) {
            Some(i) => r matches Some(c) && *c == config.clusters@[i],
            None => r is None,
        },
{
    match cluster_index(&config.clusters, cluster_id) {
        Some(i) => Some(&config.clusters[i]),
        None => None,
    }
}

/// The cluster `cluster_id`, to be changed.
pub fn find_cluster_mut<'a>(config: &'a mut ClientConfig, cluster_id: &str) -> (r: Option<
    &'a mut ClusterMembership,
>)
    ensures
        match cluster_at(old(config)@.clusters, cluster_id@) {
            Some(i) => r matches Some(c) && *c == old(config).clusters@[i] && final(config)@ == (
            ConfigV {
                clusters: old(config)@.clusters.update(i, final(c)@),
                ..old(config)@
            }),
            None => r is None && final(config)@ == old(config)@,
        },
{
    let ghost before = config.clusters@;
    match cluster_index(&config.clusters, cluster_id) {
        Some(i) => {
            proof {
                lemma_clusters_update(before, i as int);
            }
            Some(&mut config.clusters[i])
        },
        None => None,
    }
}

proof fn lemma_clusters_update(v: Seq<ClusterMembership>, i: int)
    requires
        0 <= i < v.len(),
    ensures
        forall|c: ClusterMembership|
            types::clusters_view(#[trigger] v.update(i, c)) == types::clusters_view(v).update(
                i,
                c@,
            ),
{
    assert forall|c: ClusterMembership|
        types::clusters_view(#[trigger] v.update(i, c)) == types::clusters_view(v).update(
            i,
            c@,
        ) by {
        assert(types::clusters_view(v.update(i, c)) =~= types::clusters_view(v).update(i, c@));
    }
}

/// The swarms `v` with `s` among them: the name, the token and the boot nodes of
/// `s`, where it gives them, go into a swarm that is already there, all else of
/// it stays.
pub open spec fn with_swarm(v: Seq<SwarmV>, s: SwarmV) -> Seq<SwarmV> {
    match swarm_at(v, s.swarm_id) {
        Some(i) => v.update(
            i,
            SwarmV {
                name: or_else(s.name, v[i].name),
                p2p_token: if s.p2p_token.len() > 0 {
                    s.p2p_token
                } else {
                    v[i].p2p_token
                },
                bootnodes: if s.bootnodes.len() > 0 {
                    s.bootnodes
                } else {
                    v[i].bootnodes
                },
                ..v[i]
            },
        ),
        None => v.push(s),
    }
}

/// Puts `swarm` among the swarms.
pub fn upsert_swarm(config: &mut ClientConfig, swarm: SwarmMembership)
    ensures
        final(config)@ == (ConfigV {
            swarms: with_swarm(old(config)@.swarms, swarm@),
            ..old(config)@
        }),
{
    let ghost before = config.swarms@;
    match swarm_index(&config.swarms, &swarm.swarm_id) {
        Some(i) => {
            assert(text::views(swarm.bootnodes@).len() == swarm.bootnodes@.len());
            if swarm.name.is_some() {
                config.swarms[i].name = swarm.name;
            }
            if !swarm.p2p_token.as_str().is_empty() {
                config.swarms[i].p2p_token = swarm.p2p_token;
            }
            if swarm.bootnodes.len() > 0 {
                config.swarms[i].bootnodes = swarm.bootnodes;
            }
            assert(types::swarms_view(config.swarms@) =~= with_swarm(
                types::swarms_view(before),
                swarm@,
            ));
        },
        None => {
            config.swarms.push(swarm);
            assert(types::swarms_view(config.swarms@) =~= types::swarms_view(before).push(swarm@));
        },
    }
}

/// The swarms `v` but for those with the id `id`.
pub open spec fn without_swarm(v: Seq<SwarmV>, id: Seq<char>) -> Seq<SwarmV> {
    v.filter(|s: SwarmV| s.swarm_id != id)
}

/// Takes the swarm `swarm_id` out.
pub fn remove_swarm(config: &mut ClientConfig, swarm_id: &str)
    ensures
        final(config)@ == (ConfigV {
            swarms: without_swarm(old(config)@.swarms, swarm_id@),
            ..old(config)@
        }),
{
    let ghost all = types::swarms_view(config.swarms@);
    let ghost keep = |s: SwarmV| s.swarm_id != swarm_id@;
    let ghost mut seen: int = 0;
    let mut i: usize = 0;
    reveal(Seq::filter);
    while i < config.swarms.len()
        invariant
            all == old(config)@.swarms,
            keep == (|s: SwarmV| s.swarm_id != swarm_id@),
            0 <= seen <= all.len(),
            i <= config.swarms@.len(),
            config@ == (ConfigV { swarms: config@.swarms, ..old(config)@ }),
            config@.swarms == all.take(seen).filter(keep) + all.skip(seen),
            i == all.take(seen).filter(keep).len(),
        decreases config.swarms.len() - i,
    {
        reveal(Seq::filter);
        let ghost sv = config@.swarms;
        proof {
            assert(all.take(seen + 1).drop_last() =~= all.take(seen));
            assert(sv[i as int] == all[seen]);
            assert(all.skip(seen) =~= seq![all[seen]] + all.skip(seen + 1));
        }
        if text::str_eq(&config.swarms[i].swarm_id, swarm_id) {
            config.swarms.remove(i);
            assert(config@.swarms =~= sv.remove(i as int));
            assert(sv.remove(i as int) =~= all.take(seen + 1).filter(keep) + all.skip(seen + 1));
        } else {
            i += 1;
            assert(sv =~= all.take(seen + 1).filter(keep) + all.skip(seen + 1));
        }
        proof {
            seen = seen + 1;
        }
    }
    proof {
        assert(all.skip(seen).len() == 0);
        assert(all.take(seen) =~= all);
        assert(config@.swarms =~= all.filter(keep));
    }
}

/// The swarm `swarm_id`.
pub fn find_swarm<'a>(config: &'a ClientConfig, swarm_id: &str) -> (r: Option<&'a SwarmMembership>)
    ensures
        match swarm_at(config@.swarms, swarm_id@) {
            Some(i) => r matches Some(s) && *s == config.swarms@[i],
            None => r is None,
        },
{
    match swarm_index(&config.swarms, swarm_id) {
        Some(i) => Some(&config.swarms[i]),
        None => None,
    }
}

/// A copy of the first swarm with the token `token`.
pub fn find_swarm_by_token(config: &ClientConfig, token: &str) -> (r: Option<SwarmMembership>)
    ensures
        match text::position(swarm_tokens(config@.swarms), token@) {
            Some(i) => r matches Some(s) && s@ == config@.swarms[i],
            None => r is None,
        },
{
    let ghost tokens = swarm_tokens(config@.swarms);
    proof {
        text::lemma_position(tokens, token@);
    }
    for i in 0..config.swarms.len()
        invariant
            tokens == swarm_tokens(config@.swarms),
            forall|j: int| 0 <= j < i ==> #[trigger] tokens[j] != token@,
            match text::position(tokens, token@) {
                Some(i) => 0 <= i < tokens.len() && tokens[i] == token@ && forall|j: int|
                    0 <= j < i ==> #[trigger] tokens[j] != token@,
                None => forall|j: int| 0 <= j < tokens.len() ==> #[trigger] tokens[j] != token@,
            },
    {
        assert(tokens[i as int] == config.swarms@[i as int].p2p_token@);
        if text::str_eq(&config.swarms[i].p2p_token, token) {
            return Some(config.swarms[i].copy());
        }
    }
    None
}

/// The swarm `swarm_id`, to be changed.
pub fn find_swarm_mut<'a>(config: &'a mut ClientConfig, swarm_id: &str) -> (r: Option<
    &'a mut SwarmMembership,
>)
    ensures
        match swarm_at(old(config)@.swarms, swarm_id@) {
            Some(i) => r matches Some(s) && *s == old(config).swarms@[i] && final(config)@ == (
            ConfigV { swarms: old(config)@.swarms.update(i, final(s)@), ..old(config)@ }),
            None => r is None && final(config)@ == old(config)@,
        },
{
    let ghost before = config.swarms@;
    match swarm_index(&config.swarms, swarm_id) {
        Some(i) => {
            proof {
                lemma_swarms_update(before, i as int);
            }
            Some(&mut config.swarms[i])
        },
        None => None,
    }
}

proof fn lemma_swarms_update(v: Seq<SwarmMembership>, i: int)
    requires
        0 <= i < v.len(),
    ensures
        forall|s: SwarmMembership|
            types::swarms_view(#[trigger] v.update(i, s)) == types::swarms_view(v).update(i, s@),
{
    assert forall|s: SwarmMembership|
        types::swarms_view(#[trigger] v.update(i, s)) == types::swarms_view(v).update(i, s@) by {
        assert(types::swarms_view(v.update(i, s)) =~= types::swarms_view(v).update(i, s@));
    }
}

/// The networks that a peer with swarms takes part in, where it took part in
/// clusters alone.
pub open spec fn mode_with_swarms(c: ConfigV) -> NetworkMode {
    if c.swarms.len() == 0 || c.p2p_mode != NetworkMode::Cluster {
        c.p2p_mode
    } else if c.clusters.len() == 0 {
        NetworkMode::Swarm
    } else {
        NetworkMode::Both
    }
}

/// Lets a peer that has swarms take part in them.
pub fn ensure_p2p_mode_for_swarms(config: &mut ClientConfig)
    ensures
        final(config)@ == (ConfigV { p2p_mode: mode_with_swarms(old(config)@), ..old(config)@ }),
{
    assert(config@.swarms.len() == config.swarms@.len());
    assert(config@.clusters.len() == config.clusters@.len());
    if config.swarms.len() == 0 {
        return;
    }
    if config.p2p_mode == NetworkMode::Cluster {
        config.p2p_mode = if config.clusters.len() == 0 {
            NetworkMode::Swarm
        } else {
            NetworkMode::Both
        };
    }
}

/// A swarm with the id `id`.
pub open spec fn new_swarm(
    id: Seq<char>,
    name: Option<Seq<char>>,
    token: Seq<char>,
    bootnodes: Seq<Seq<char>>,
) -> SwarmV {
    SwarmV {
        swarm_id: id,
        name,
        p2p_token: token,
        bootnodes,
        accepting_jobs: Some(true),
        connected: Some(true),
        require_e2ee: None,
        require_tee: None,
        required_attestation_flags: None,
        schedule_enabled: None,
        schedule_start: None,
        schedule_end: None,
    }
}

/// A new swarm, with an id of its own, and with a token of its own where none is
/// given. Its boot nodes are those that `bootnodes` lists.
pub fn create_swarm_membership(
    name: Option<String>,
    p2p_token: Option<String>,
    bootnodes: Option<&str>,
) -> (r: SwarmMembership)
    ensures
        outside::is_uuid(r.swarm_id@),
        p2p_token is None ==> outside::is_uuid(r.p2p_token@),
        r@ == new_swarm(
            r.swarm_id@,
            text::opt_view(name),
            match p2p_token {
                Some(t) => t@,
                None => r.p2p_token@,
            },
            listed(
                match bootnodes {
                    Some(b) => Some(b@),
                    None => None,
                },
            ),
        ),
{
    let swarm_id = outside::new_uuid();
    let token = match p2p_token {
        Some(t) => t,
        None => outside::new_uuid(),
    };
    SwarmMembership {
        swarm_id,
        name,
        p2p_token: token,
        bootnodes: default_bootnodes_from_env(bootnodes),
        accepting_jobs: Some(true),
        connected: Some(true),
        require_e2ee: None,
        require_tee: None,
        required_attestation_flags: None,
        schedule_enabled: None,
        schedule_start: None,
        schedule_end: None,
    }
}

/// The pieces that are not empty.
pub open spec fn not_empty(v: Seq<Seq<char>>) -> Seq<Seq<char>> {
    v.filter(|s: Seq<char>| s.len() > 0)
}

/// The entries of a list with commas between them.
pub open spec fn listed(setting: Option<Seq<char>>) -> Seq<Seq<char>> {
    match setting {
        Some(s) => not_empty(text::fields_of(s, ',')),
        None => Seq::empty(),
    }
}

/// The boot nodes that a setting lists.
pub fn default_bootnodes_from_env(setting: Option<&str>) -> (r: Vec<String>)
    ensures
        text::views(r@) == listed(
            match setting {
                Some(s) => Some(s@),
                None => None,
            },
        ),
{
    let mut out: Vec<String> = Vec::new();
    let s = match setting {
        Some(s) => s,
        None => {
            assert(text::views(out@) =~= Seq::empty());
            return out;
        },
    };
    let parts = text::fields(s, ',');
    let ghost pv = text::fields_of(s@, ',');
    let ghost keep = |s: Seq<char>| s.len() > 0;
    reveal(Seq::filter);
    assert(text::views(out@) =~= pv.take(0).filter(keep));
    for i in 0..parts.len()
        invariant
            text::views(parts@) == pv,
            keep == (|s: Seq<char>| s.len() > 0),
            text::views(out@) == pv.take(i as int).filter(keep),
    {
        reveal(Seq::filter);
        proof {
            assert(pv.take(i as int + 1).drop_last() =~= pv.take(i as int));
            assert(pv[i as int] == parts@[i as int]@);
        }
        if !parts[i].as_str().is_empty() {
            let item = text::copy(&parts[i]);
            proof {
                text::lemma_views_push(out@, item);
            }
            out.push(item);
        }
    }
    assert(pv.take(pv.len() as int) =~= pv);
    out
}

/// What the boot nodes of a swarm are still to come from.
#[derive(Debug, PartialEq)]
pub enum Bootnodes {
    Known(Vec<String>),
    AskLobby,
}

/// The boot nodes of a swarm: its own, or else those that `setting` lists, or
/// else those of the lobby.
pub fn resolve_swarm_bootnodes(membership: &SwarmMembership, setting: Option<&str>) -> (r:
    Bootnodes)
    ensures
        ({
            let own = membership@.bootnodes;
            let set = listed(
                match setting {
                    Some(s) => Some(s@),
                    None => None,
                },
            );
            match r {
                Bootnodes::Known(v) => text::views(v@) == (if own.len() > 0 {
                    own
                } else {
                    set
                }) && v@.len() > 0,
                Bootnodes::AskLobby => own.len() == 0 && set.len() == 0,
            }
        }),
{
    assert(membership@.bootnodes.len() == membership.bootnodes@.len());
    if membership.bootnodes.len() > 0 {
        return Bootnodes::Known(text::copy_list(&membership.bootnodes));
    }
    let set = default_bootnodes_from_env(setting);
    assert(text::views(set@).len() == set@.len());
    if set.len() > 0 {
        return Bootnodes::Known(set);
    }
    Bootnodes::AskLobby
}

/// The networks that `raw` names: clusters, where it names none.
pub open spec fn named_mode(raw: Seq<char>) -> NetworkMode {
    let word = text::ascii_lower(text::trimmed(raw));
    if word == "swarm"@ {
        NetworkMode::Swarm
    } else if word == "both"@ {
        NetworkMode::Both
    } else {
        NetworkMode::Cluster
    }
}

/// The networks that `raw` names: clusters, where it names none.
pub fn parse_network_mode(raw: &str) -> (r: NetworkMode)
    ensures
        r == named_mode(raw@),
{
    let word = text::to_ascii_lower(&text::trim(raw));
    if text::str_eq(&word, "swarm") {
        NetworkMode::Swarm
    } else if text::str_eq(&word, "both") {
        NetworkMode::Both
    } else {
        NetworkMode::Cluster
    }
}

/// The networks that a setting names: clusters, where it names none.
pub fn network_mode_from_env(setting: Option<&str>) -> (r: NetworkMode)
    ensures
        r == match setting {
            Some(s) => named_mode(s@),
            None => NetworkMode::Cluster,
        },
{
    match setting {
        Some(s) => parse_network_mode(s),
        None => NetworkMode::Cluster,
    }
}

/// Whether no two clusters have the same id.
pub open spec fn clusters_apart(v: Seq<MembershipV>) -> bool {
    cluster_ids(v).no_duplicates()
}

/// Putting a cluster among others that differ in their ids leaves all ids
/// different.
pub proof fn law_upsert_keeps_clusters_apart(v: Seq<MembershipV>, c: MembershipV)
    requires
        clusters_apart(v),
    ensures
        clusters_apart(with_cluster(v, c)),
{
    let ids = cluster_ids(v);
    text::lemma_position(ids, c.cluster_id);
    let now = cluster_ids(with_cluster(v, c));
    match cluster_at(v, c.cluster_id) {
        Some(i) => {
            assert(now =~= ids);
        },
        None => {
            assert(now =~= ids.push(c.cluster_id));
        },
    }
}

/// A cluster that was put among others is found, at the place of the one with
/// its id, or else at the end.
pub proof fn law_upserted_cluster_is_found(v: Seq<MembershipV>, c: MembershipV)
    ensures
        cluster_at(with_cluster(v, c), c.cluster_id) == Some(
            match cluster_at(v, c.cluster_id) {
                Some(i) => i,
                None => v.len() as int,
            },
        ),
{
    let ids = cluster_ids(v);
    text::lemma_position(ids, c.cluster_id);
    let now = cluster_ids(with_cluster(v, c));
    text::lemma_position(now, c.cluster_id);
    match cluster_at(v, c.cluster_id) {
        Some(i) => {
            assert(now =~= ids);
        },
        None => {
            assert(now =~= ids.push(c.cluster_id));
            assert(now[v.len() as int] == c.cluster_id);
        },
    }
}

/// Putting the same cluster there a second time changes nothing.
pub proof fn law_upsert_twice(v: Seq<MembershipV>, c: MembershipV)
    ensures
        with_cluster(with_cluster(v, c), c) == with_cluster(v, c),
{
    law_upserted_cluster_is_found(v, c);
    text::lemma_position(cluster_ids(v), c.cluster_id);
    assert(with_cluster(with_cluster(v, c), c) =~= with_cluster(v, c));
}

/// A cluster that was taken out is not found; every other one is still there.
pub proof fn law_removed_cluster_is_gone(v: Seq<MembershipV>, id: Seq<char>)
    ensures
        cluster_at(without_cluster(v, id), id) is None,
        forall|c: MembershipV|
            #[trigger] without_cluster(v, id).contains(c) <==> v.contains(c) && c.cluster_id != id,
{
    let keep = |c: MembershipV| c.cluster_id != id;
    let left = without_cluster(v, id);
    broadcast use vstd::seq_lib::group_filter_ensures;

    text::lemma_position(cluster_ids(left), id);
    assert forall|j: int| 0 <= j < left.len() implies cluster_ids(left)[j] != id by {
        assert(keep(left[j]));
    }
    assert forall|c: MembershipV|
        left.contains(c) <==> v.contains(c) && c.cluster_id != id by {
        if left.contains(c) {
            let j = choose|j: int| 0 <= j < left.len() && left[j] == c;
            assert(keep(left[j]));
            v.lemma_filter_contains_rev(keep, c);
        }
        if v.contains(c) && c.cluster_id != id {
            let j = choose|j: int| 0 <= j < v.len() && v[j] == c;
            assert(keep(v[j]));
            assert(left.contains(v[j]));
        }
    }
}

/// Whether no two swarms have the same id.
pub open spec fn swarms_apart(v: Seq<SwarmV>) -> bool {
    swarm_ids(v).no_duplicates()
}

/// Putting a swarm among others that differ in their ids leaves all ids
/// different.
pub proof fn law_upsert_keeps_swarms_apart(v: Seq<SwarmV>, c: SwarmV)
    requires
        swarms_apart(v),
    ensures
        swarms_apart(with_swarm(v, c)),
{
    let ids = swarm_ids(v);
    text::lemma_position(ids, c.swarm_id);
    let now = swarm_ids(with_swarm(v, c));
    match swarm_at(v, c.swarm_id) {
        Some(i) => {
            assert(now =~= ids);
        },
        None => {
            assert(now =~= ids.push(c.swarm_id));
        },
    }
}

/// A swarm that was put among others is found, at the place of the one with
/// its id, or else at the end.
pub proof fn law_upserted_swarm_is_found(v: Seq<SwarmV>, c: SwarmV)
    ensures
        swarm_at(with_swarm(v, c), c.swarm_id) == Some(
            match swarm_at(v, c.swarm_id) {
                Some(i) => i,
                None => v.len() as int,
            },
        ),
{
    let ids = swarm_ids(v);
    text::lemma_position(ids, c.swarm_id);
    let now = swarm_ids(with_swarm(v, c));
    text::lemma_position(now, c.swarm_id);
    match swarm_at(v, c.swarm_id) {
        Some(i) => {
            assert(now =~= ids);
        },
        None => {
            assert(now =~= ids.push(c.swarm_id));
            assert(now[v.len() as int] == c.swarm_id);
        },
    }
}

/// Putting the same swarm there a second time changes nothing.
pub proof fn law_swarm_upsert_twice(v: Seq<SwarmV>, c: SwarmV)
    ensures
        with_swarm(with_swarm(v, c), c) == with_swarm(v, c),
{
    law_upserted_swarm_is_found(v, c);
    text::lemma_position(swarm_ids(v), c.swarm_id);
    assert(with_swarm(with_swarm(v, c), c) =~= with_swarm(v, c));
}

/// A swarm that was taken out is not found; every other one is still there.
pub proof fn law_removed_swarm_is_gone(v: Seq<SwarmV>, id: Seq<char>)
    ensures
        swarm_at(without_swarm(v, id), id) is None,
        forall|c: SwarmV|
            #[trigger] without_swarm(v, id).contains(c) <==> v.contains(c) && c.swarm_id != id,
{
    let keep = |c: SwarmV| c.swarm_id != id;
    let left = without_swarm(v, id);
    broadcast use vstd::seq_lib::group_filter_ensures;

    text::lemma_position(swarm_ids(left), id);
    assert forall|j: int| 0 <= j < left.len() implies swarm_ids(left)[j] != id by {
        assert(keep(left[j]));
    }
    assert forall|c: SwarmV|
        left.contains(c) <==> v.contains(c) && c.swarm_id != id by {
        if left.contains(c) {
            let j = choose|j: int| 0 <= j < left.len() && left[j] == c;
            assert(keep(left[j]));
            v.lemma_filter_contains_rev(keep, c);
        }
        if v.contains(c) && c.swarm_id != id {
            let j = choose|j: int| 0 <= j < v.len() && v[j] == c;
            assert(keep(v[j]));
            assert(left.contains(v[j]));
        }
    }
}

/// Taking a cluster in touches no other: the others stay where they are. A new one is
/// remembered as it is; one that is known takes the name and the visibility that it is
/// given, and keeps everything else.
pub proof fn law_upsert_touches_one_cluster(v: Seq<MembershipV>, c: MembershipV)
    ensures
        ({
            let now = with_cluster(v, c);
            &&& now.len() >= v.len()
            &&& forall|i: int|
                0 <= i < v.len() && (#[trigger] v[i]).cluster_id != c.cluster_id ==> now[i] == v[i]
            &&& (forall|i: int| 0 <= i < v.len() ==> (#[trigger] v[i]).cluster_id != c.cluster_id)
                ==> now == v.push(c)
            &&& forall|i: int|
                0 <= i < v.len() && (#[trigger] v[i]).cluster_id == c.cluster_id && (forall|j: int|
                    0 <= j < i ==> (#[trigger] v[j]).cluster_id != c.cluster_id) ==> now.len()
                    == v.len() && now[i].cluster_id == v[i].cluster_id && (c.name is Some
                    ==> now[i].name == c.name) && (c.name is None ==> now[i].name == v[i].name) && (
                c.visibility is Some ==> now[i].visibility == c.visibility) && (c.visibility is None
                    ==> now[i].visibility == v[i].visibility) && now[i] == (MembershipV {
                    name: now[i].name,
                    visibility: now[i].visibility,
                    ..v[i]
                })
        }),
{
    let ids = cluster_ids(v);
    text::lemma_position(ids, c.cluster_id);
    assert forall|i: int| 0 <= i < v.len() implies ids[i] == (#[trigger] v[i]).cluster_id by {}
    if let Some(at) = cluster_at(v, c.cluster_id) {
        assert(v[at].cluster_id == c.cluster_id);
        assert forall|i: int|
            0 <= i < v.len() && (#[trigger] v[i]).cluster_id == c.cluster_id && (forall|j: int|
                0 <= j < i ==> (#[trigger] v[j]).cluster_id != c.cluster_id) implies i == at by {
            if at < i {
                assert(v[at].cluster_id != c.cluster_id);
            }
            if i < at {
                assert(ids[i] != c.cluster_id);
            }
        }
    }
}

/// Taking a swarm in touches no other. A new one is remembered as it is; one that is
/// known takes the name, the token and the boot nodes that it is given, and keeps
/// everything else.
pub proof fn law_upsert_touches_one_swarm(v: Seq<SwarmV>, s: SwarmV)
    ensures
        ({
            let now = with_swarm(v, s);
            &&& now.len() >= v.len()
            &&& forall|i: int|
                0 <= i < v.len() && (#[trigger] v[i]).swarm_id != s.swarm_id ==> now[i] == v[i]
            &&& (forall|i: int| 0 <= i < v.len() ==> (#[trigger] v[i]).swarm_id != s.swarm_id) ==> now
                == v.push(s)
            &&& forall|i: int|
                0 <= i < v.len() && (#[trigger] v[i]).swarm_id == s.swarm_id && (forall|j: int|
                    0 <= j < i ==> (#[trigger] v[j]).swarm_id != s.swarm_id) ==> now.len() == v.len()
                    && (s.p2p_token.len() > 0 ==> now[i].p2p_token == s.p2p_token) && (
                s.p2p_token.len() == 0 ==> now[i].p2p_token == v[i].p2p_token) && (s.bootnodes.len()
                    > 0 ==> now[i].bootnodes == s.bootnodes) && (s.bootnodes.len() == 0
                    ==> now[i].bootnodes == v[i].bootnodes) && (s.name is Some ==> now[i].name
                    == s.name) && (s.name is None ==> now[i].name == v[i].name) && now[i] == (SwarmV {
                    name: now[i].name,
                    p2p_token: now[i].p2p_token,
                    bootnodes: now[i].bootnodes,
                    ..v[i]
                })
        }),
{
    let ids = swarm_ids(v);
    text::lemma_position(ids, s.swarm_id);
    assert forall|i: int| 0 <= i < v.len() implies ids[i] == (#[trigger] v[i]).swarm_id by {}
    if let Some(at) = swarm_at(v, s.swarm_id) {
        assert(v[at].swarm_id == s.swarm_id);
        assert forall|i: int|
            0 <= i < v.len() && (#[trigger] v[i]).swarm_id == s.swarm_id && (forall|j: int|
                0 <= j < i ==> (#[trigger] v[j]).swarm_id != s.swarm_id) implies i == at by {
            if at < i {
                assert(v[at].swarm_id != s.swarm_id);
            }
            if i < at {
                assert(ids[i] != s.swarm_id);
            }
        }
    }
}

/// A peer that is in a swarm takes part in swarms, and goes on taking part in clusters
/// where it is in one; a peer without swarms stays as it is.
pub proof fn law_swarms_are_taken_part_in(c: ConfigV)
    ensures
        c.swarms.len() > 0 ==> mode_with_swarms(c) != NetworkMode::Cluster,
        c.swarms.len() > 0 && c.clusters.len() > 0 && c.p2p_mode == NetworkMode::Cluster
            ==> mode_with_swarms(c) == NetworkMode::Both,
        c.swarms.len() == 0 ==> mode_with_swarms(c) == c.p2p_mode,
        c.p2p_mode != NetworkMode::Cluster ==> mode_with_swarms(c) == c.p2p_mode,
{
}

/// A new swarm has the id, the name, the token and the boot nodes that it was given; the
/// peer is connected to it, takes jobs from it, and asks nothing else of it.
pub proof fn law_new_swarm_is_as_given(
    id: Seq<char>,
    name: Option<Seq<char>>,
    token: Seq<char>,
    bootnodes: Seq<Seq<char>>,
)
    ensures
        ({
            let s = new_swarm(id, name, token, bootnodes);
            &&& s.swarm_id == id
            &&& s.name == name
            &&& s.p2p_token == token
            &&& s.bootnodes == bootnodes
            &&& s.connected == Some(true)
            &&& s.accepting_jobs == Some(true)
            &&& s.require_e2ee is None
            &&& s.require_tee is None
            &&& s.required_attestation_flags is None
            &&& s.schedule_enabled is None
        }),
{
}

} // verus!
