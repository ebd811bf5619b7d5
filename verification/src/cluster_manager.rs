//! The clusters that a peer is connected to.

use crate::client_config::lobby;
use crate::client_config::lobby::ClusterResponse;
use crate::client_config::memberships;
use crate::client_config::types::{ClientConfig, ClusterMembership, MembershipV};
use crate::json;
use crate::json::{Json, JsonV};
use crate::strmap::StrMap;
use crate::text;
use vstd::prelude::*;

verus! {

/// Who opened a connection.
#[derive(Debug, Clone, Copy, PartialEq, Eq, Structural)]
pub enum PeerDirection {
    Inbound,
    Outbound,
}

/// A peer that is connected.
#[derive(Debug)]
pub struct ConnectedPeer {
    pub peer_id: String,
    pub cluster_id: Option<String>,
    pub swarm_id: Option<String>,
    pub direction: PeerDirection,
    pub since_secs: u64,
    pub data_channel_open: bool,
    pub attestation_flags: u64,
}

/// When a cluster is worked for.
#[derive(Debug)]
pub struct ScheduleFields {
    pub schedule_enabled: bool,
    pub schedule_start: Option<String>,
    pub schedule_end: Option<String>,
    pub schedule_next_transition_at: Option<String>,
    pub schedule_inside_window: bool,
}

/// What is shown of a cluster.
#[derive(Debug)]
pub struct ClusterStatus {
    pub cluster_id: String,
    pub name: Option<String>,
    pub visibility: Option<String>,
    pub lobby_connected: bool,
    pub outbound_peers: usize,
    pub inbound_peers: usize,
    pub accepting_jobs: bool,
    pub connected: bool,
    pub network_models: Vec<Json>,
    pub schedule: ScheduleFields,
    pub thermal_paused: bool,
    pub last_error: Option<String>,
}

/// Whether `p` is a peer of the cluster `id` whose connection was opened as `d`
/// says.
pub open spec fn is_peer_of(p: ConnectedPeer, id: Seq<char>, d: PeerDirection) -> bool {
    text::opt_view(p.cluster_id) == Some(id) && p.direction == d
}

/// How many peers of the cluster `id` there are whose connections were opened as
/// `d` says.
pub open spec fn peers_of(v: Seq<ConnectedPeer>, id: Seq<char>, d: PeerDirection) -> nat
    decreases v.len(),
{
    if v.len() == 0 {
        0
    } else {
        peers_of(v.drop_last(), id, d) + if is_peer_of(v.last(), id, d) {
            1nat
        } else {
            0
        }
    }
}

fn count_peers(v: &Vec<ConnectedPeer>, id: &str, d: PeerDirection) -> (r: usize)
    ensures
        r == peers_of(v@, id@, d),
{
    let mut n: usize = 0;
    for i in 0..v.len()
        invariant
            n <= i,
            n == peers_of(v@.take(i as int), id@, d),
    {
        assert(v@.take(i as int + 1).drop_last() =~= v@.take(i as int));
        assert(v@.take(i as int + 1).last() == v@[i as int]);
        if let Some(c) = &v[i].cluster_id {
            if text::str_eq(c, id) && v[i].direction == d {
                n += 1;
            }
        }
    }
    assert(v@.take(v@.len() as int) =~= v@);
    n
}

/// The last fault of the cluster `id` that was shown: of several entries, the one
/// of the last.
pub open spec fn last_fault(v: Seq<ClusterStatus>, id: Seq<char>) -> Option<Seq<char>>
    decreases v.len(),
{
    if v.len() == 0 {
        None
    } else if v.last().cluster_id@ == id {
        text::opt_view(v.last().last_error)
    } else {
        last_fault(v.drop_last(), id)
    }
}

fn fault_of(v: &Vec<ClusterStatus>, id: &str) -> (r: Option<String>)
    ensures
        text::opt_view(r) == last_fault(v@, id@),
{
    let mut i: usize = v.len();
    assert(v@.take(i as int) =~= v@);
    while i > 0
        invariant
            i <= v@.len(),
            last_fault(v@, id@) == last_fault(v@.take(i as int), id@),
        decreases i,
    {
        assert(v@.take(i as int).drop_last() =~= v@.take(i - 1));
        i -= 1;
        if text::str_eq(&v[i].cluster_id, id) {
            return text::copy_opt(&v[i].last_error);
        }
    }
    None
}

/// Whether a peer takes jobs of the cluster `c`.
pub open spec fn accepts(c: MembershipV) -> bool {
    c.accepting_jobs != Some(false)
}

/// Whether a peer wants to be connected to the cluster `c`.
pub open spec fn wanted(c: MembershipV) -> bool {
    c.connected != Some(false)
}

/// Whether the lobby is connected for the cluster `id`.
pub open spec fn is_connected(connected: Map<Seq<char>, bool>, id: Seq<char>) -> bool {
    connected.dom().contains(id) && connected[id]
}

/// Whether `s` shows the cluster `c`.
pub open spec fn shows(
    s: ClusterStatus,
    c: MembershipV,
    peers: Seq<ConnectedPeer>,
    connected: Map<Seq<char>, bool>,
    schedule: ScheduleFields,
    thermal: bool,
    before: Seq<ClusterStatus>,
) -> bool {
    &&& s.cluster_id@ == c.cluster_id
    &&& text::opt_view(s.name) == c.name
    &&& text::opt_view(s.visibility) == c.visibility
    &&& s.lobby_connected == is_connected(connected, c.cluster_id)
    &&& s.outbound_peers == peers_of(peers, c.cluster_id, PeerDirection::Outbound)
    &&& s.inbound_peers == peers_of(peers, c.cluster_id, PeerDirection::Inbound)
    &&& s.accepting_jobs == accepts(c)
    &&& s.connected == wanted(c)
    &&& s.network_models@.len() == 0
    &&& s.schedule == schedule
    &&& s.thermal_paused == (thermal && !accepts(c))
    &&& text::opt_view(s.last_error) == if is_connected(connected, c.cluster_id) {
        None
    } else {
        last_fault(before, c.cluster_id)
    }
}

/// What is shown of the cluster `c`: its connection and its peers, and the last
/// fault that was shown of it, until it is connected.
pub fn cluster_status(
    c: &ClusterMembership,
    peers: &Vec<ConnectedPeer>,
    connected: &StrMap<bool>,
    schedule: ScheduleFields,
    thermal_active: bool,
    before: &Vec<ClusterStatus>,
) -> (r: ClusterStatus)
    requires
        connected.wf(),
    ensures
        shows(r, c@, peers@, connected@, schedule, thermal_active, before@),
{
    let lobby_connected = match connected.get(&c.cluster_id) {
        Some(b) => *b,
        None => false,
    };
    let accepting_jobs = memberships::cluster_accepts_jobs(c);
    ClusterStatus {
        cluster_id: text::copy(&c.cluster_id),
        name: text::copy_opt(&c.name),
        visibility: text::copy_opt(&c.visibility),
        lobby_connected,
        outbound_peers: count_peers(peers, &c.cluster_id, PeerDirection::Outbound),
        inbound_peers: count_peers(peers, &c.cluster_id, PeerDirection::Inbound),
        accepting_jobs,
        connected: memberships::cluster_is_connected(c),
        network_models: Vec::new(),
        schedule,
        thermal_paused: thermal_active && !accepting_jobs,
        last_error: if lobby_connected {
            None
        } else {
            fault_of(before, &c.cluster_id)
        },
    }
}

/// What is shown of all clusters of `config`, in their order; `schedules` says of
/// each when it is worked for.
pub fn sync_cluster_status_list(
    config: &ClientConfig,
    peers: &Vec<ConnectedPeer>,
    connected: &StrMap<bool>,
    schedules: Vec<ScheduleFields>,
    thermal_active: bool,
    before: &Vec<ClusterStatus>,
) -> (r: Vec<ClusterStatus>)
    requires
        connected.wf(),
        schedules@.len() == config.clusters@.len(),
    ensures
        r@.len() == config@.clusters.len(),
        forall|i: int|
            0 <= i < r@.len() ==> shows(
                #[trigger] r@[i],
                config@.clusters[i],
                peers@,
                connected@,
                schedules@[i],
                thermal_active,
                before@,
            ),
{
    let ghost all = schedules@;
    let mut left = schedules;
    let mut out: Vec<ClusterStatus> = Vec::new();
    let n: usize = config.clusters.len();
    assert(all.skip(0) =~= all);
    for i in 0..n
        invariant
            n == config.clusters@.len(),
            all.len() == n,
            left@ == all.skip(i as int),
            out@.len() == i,
            connected.wf(),
            forall|k: int|
                0 <= k < i ==> shows(
                    #[trigger] out@[k],
                    config@.clusters[k],
                    peers@,
                    connected@,
                    all[k],
                    thermal_active,
                    before@,
                ),
    {
        let schedule = left.remove(0);
        assert(left@ =~= all.skip(i as int + 1));
        out.push(
            cluster_status(
                &config.clusters[i],
                peers,
                connected,
                schedule,
                thermal_active,
                before,
            ),
        );
    }
    out
}

/// The ids of what is shown.
pub open spec fn status_ids(v: Seq<ClusterStatus>) -> Seq<Seq<char>> {
    v.map_values(|s: ClusterStatus| s.cluster_id@)
}

/// Remembers the fault `error` of the cluster `cluster_id`, where it is shown.
pub fn record_cluster_error(statuses: &mut Vec<ClusterStatus>, cluster_id: &str, error: &str)
    ensures
        final(statuses)@.len() == old(statuses)@.len(),
        match text::position(status_ids(old(statuses)@), cluster_id@) {
            Some(i) => {
                let s = final(statuses)@[i];
                &&& final(statuses)@ == old(statuses)@.update(i, s)
                &&& text::opt_view(s.last_error) == Some(error@)
                &&& s == (ClusterStatus { last_error: s.last_error, ..old(statuses)@[i] })
            },
            None => final(statuses)@ == old(statuses)@,
        },
{
    let ghost ids = status_ids(statuses@);
    proof {
        text::lemma_position(ids, cluster_id@);
    }
    let n: usize = statuses.len();
    for i in 0..n
        invariant
            n == statuses@.len(),
            statuses@ == old(statuses)@,
            ids == status_ids(statuses@),
            forall|j: int| 0 <= j < i ==> #[trigger] ids[j] != cluster_id@,
            match text::position(ids, cluster_id@) {
                Some(i) => 0 <= i < ids.len() && ids[i] == cluster_id@ && forall|j: int|
                    0 <= j < i ==> #[trigger] ids[j] != cluster_id@,
                None => forall|j: int| 0 <= j < ids.len() ==> #[trigger] ids[j] != cluster_id@,
            },
    {
        assert(ids[i as int] == statuses@[i as int].cluster_id@);
        if text::str_eq(&statuses[i].cluster_id, cluster_id) {
            statuses[i].last_error = Some(text::copy(error));
            return;
        }
    }
}

/// The models of the cluster `id` on the network.
pub open spec fn models_of(m: Map<Seq<char>, Vec<Json>>, id: Seq<char>) -> Seq<JsonV> {
    if m.dom().contains(id) {
        json::items_view(m[id]@)
    } else {
        Seq::empty()
    }
}

fn copy_models(v: &Vec<Json>) -> (r: Vec<Json>)
    ensures
        json::items_view(r@) == json::items_view(v@),
{
    let mut out: Vec<Json> = Vec::new();
    for i in 0..v.len()
        invariant
            out@.len() == i,
            forall|k: int| 0 <= k < i ==> (#[trigger] out@[k])@ == v@[k]@,
    {
        out.push(json::copy(&v[i]));
    }
    assert(json::items_view(out@) =~= json::items_view(v@));
    out
}

/// Shows with each cluster its models on the network.
pub fn attach_cluster_models(
    statuses: &mut Vec<ClusterStatus>,
    models: &StrMap<Vec<Json>>,
)
    requires
        models.wf(),
    ensures
        final(statuses)@.len() == old(statuses)@.len(),
        forall|i: int|
            0 <= i < final(statuses)@.len() ==> {
                let s = #[trigger] final(statuses)@[i];
                &&& json::items_view(s.network_models@) == models_of(models@, s.cluster_id@)
                &&& s == (ClusterStatus {
                    network_models: s.network_models,
                    ..old(statuses)@[i]
                })
            },
{
    let ghost before = statuses@;
    let n: usize = statuses.len();
    for i in 0..n
        invariant
            n == statuses@.len(),
            statuses@.len() == before.len(),
            models.wf(),
            forall|k: int| i <= k < n ==> #[trigger] statuses@[k] == before[k],
            forall|k: int|
                0 <= k < i ==> {
                    let s = #[trigger] statuses@[k];
                    &&& json::items_view(s.network_models@) == models_of(models@, s.cluster_id@)
                    &&& s == (ClusterStatus { network_models: s.network_models, ..before[k] })
                },
    {
        let found = match models.get(&statuses[i].cluster_id) {
            Some(v) => copy_models(v),
            None => Vec::new(),
        };
        proof {
            assert(json::items_view(found@) =~= models_of(models@, before[i as int].cluster_id@));
        }
        statuses[i].network_models = found;
    }
}

/// Whether the connection to the cluster `id` is to end: the peer does not want it
/// any more.
pub open spec fn is_to_stop(id: Seq<char>, desired: Seq<MembershipV>) -> bool {
    match memberships::cluster_at(desired, id) {
        Some(i) => !wanted(desired[i]),
        None => true,
    }
}

fn ends(id: &str, desired: &ClientConfig) -> (r: bool)
    ensures
        r == is_to_stop(id@, desired@.clusters),
{
    proof {
        text::lemma_position(memberships::cluster_ids(desired@.clusters), id@);
    }
    match memberships::find_cluster(desired, id) {
        Some(c) => !memberships::cluster_is_connected(c),
        None => true,
    }
}

/// The connections of `active` that are to end.
pub fn clusters_to_stop(active: &Vec<String>, desired: &ClientConfig) -> (r: Vec<String>)
    ensures
        text::views(r@) == text::views(active@).filter(
            |id: Seq<char>| is_to_stop(id, desired@.clusters),
        ),
{
    let ghost av = text::views(active@);
    let ghost stop = |id: Seq<char>| is_to_stop(id, desired@.clusters);
    let mut out: Vec<String> = Vec::new();
    reveal(Seq::filter);
    assert(text::views(out@) =~= av.take(0).filter(stop));
    for i in 0..active.len()
        invariant
            av == text::views(active@),
            stop == (|id: Seq<char>| is_to_stop(id, desired@.clusters)),
            text::views(out@) == av.take(i as int).filter(stop),
    {
        reveal(Seq::filter);
        proof {
            assert(av.take(i as int + 1).drop_last() =~= av.take(i as int));
            assert(av[i as int] == active@[i as int]@);
        }
        if ends(&active[i], desired) {
            let id = text::copy(&active[i]);
            proof {
                text::lemma_views_push(out@, id);
            }
            out.push(id);
        }
    }
    assert(av.take(av.len() as int) =~= av);
    out
}

/// Whether the cluster `c` is to be connected: the peer wants it, and it is not
/// connected yet.
pub fn starts_cluster(c: &ClusterMembership, active: &Vec<String>) -> (r: bool)
    ensures
        r == (wanted(c@) && !text::views(active@).contains(c@.cluster_id)),
{
    memberships::cluster_is_connected(c) && !text::list_has(active, &c.cluster_id)
}

/// The connections of `active` that stay.
pub open spec fn kept(active: Seq<Seq<char>>, desired: Seq<MembershipV>) -> Seq<Seq<char>> {
    active.filter(|id: Seq<char>| !is_to_stop(id, desired))
}

/// The clusters of `desired` that are to be connected where `active` are.
pub open spec fn to_start(active: Seq<Seq<char>>, desired: Seq<MembershipV>) -> Seq<Seq<char>>
    decreases desired.len(),
{
    if desired.len() == 0 {
        Seq::empty()
    } else {
        let before = to_start(active, desired.drop_last());
        let c = desired.last();
        if wanted(c) && !active.contains(c.cluster_id) {
            before.push(c.cluster_id)
        } else {
            before
        }
    }
}

/// The connections that are to end, and then the clusters that are to be
/// connected.
#[derive(Debug)]
pub struct Reconciliation {
    pub stop: Vec<String>,
    pub start: Vec<String>,
}

fn kept_of(active: &Vec<String>, desired: &ClientConfig) -> (r: Vec<String>)
    ensures
        text::views(r@) == kept(text::views(active@), desired@.clusters),
{
    let ghost av = text::views(active@);
    let ghost stay = |id: Seq<char>| !is_to_stop(id, desired@.clusters);
    let mut out: Vec<String> = Vec::new();
    reveal(Seq::filter);
    assert(text::views(out@) =~= av.take(0).filter(stay));
    for i in 0..active.len()
        invariant
            av == text::views(active@),
            stay == (|id: Seq<char>| !is_to_stop(id, desired@.clusters)),
            text::views(out@) == av.take(i as int).filter(stay),
    {
        reveal(Seq::filter);
        proof {
            assert(av.take(i as int + 1).drop_last() =~= av.take(i as int));
            assert(av[i as int] == active@[i as int]@);
        }
        if !ends(&active[i], desired) {
            let id = text::copy(&active[i]);
            proof {
                text::lemma_views_push(out@, id);
            }
            out.push(id);
        }
    }
    assert(av.take(av.len() as int) =~= av);
    out
}

/// Which of the connections `active` are to end, and which clusters are then to
/// be connected, so that the peer takes part where it wants to.
pub fn reconcile_clusters(active: &Vec<String>, desired: &ClientConfig) -> (r: Reconciliation)
    ensures
        text::views(r.stop@) == text::views(active@).filter(
            |id: Seq<char>| is_to_stop(id, desired@.clusters),
        ),
        text::views(r.start@) == to_start(
            kept(text::views(active@), desired@.clusters),
            desired@.clusters,
        ),
{
    let stop = clusters_to_stop(active, desired);
    let rest = kept_of(active, desired);
    let ghost rv = text::views(rest@);
    let ghost cv = desired@.clusters;
    let mut start: Vec<String> = Vec::new();
    assert(text::views(start@) =~= to_start(rv, cv.take(0)));
    for i in 0..desired.clusters.len()
        invariant
            rv == text::views(rest@),
            cv == desired@.clusters,
            cv.len() == desired.clusters@.len(),
            text::views(start@) == to_start(rv, cv.take(i as int)),
    {
        proof {
            assert(cv.take(i as int + 1).drop_last() =~= cv.take(i as int));
            assert(cv.take(i as int + 1).last() == desired.clusters@[i as int]@);
        }
        if starts_cluster(&desired.clusters[i], &rest) {
            let id = text::copy(&desired.clusters[i].cluster_id);
            proof {
                text::lemma_views_push(start@, id);
            }
            start.push(id);
        }
    }
    assert(cv.take(cv.len() as int) =~= cv);
    Reconciliation { stop, start }
}

/// Whether the peer wants to be connected to the cluster `id` of `desired`.
pub open spec fn wants(desired: Seq<MembershipV>, id: Seq<char>) -> bool {
    exists|i: int|
        0 <= i < desired.len() && (#[trigger] desired[i]).cluster_id == id && wanted(desired[i])
}

proof fn lemma_to_start(active: Seq<Seq<char>>, desired: Seq<MembershipV>, id: Seq<char>)
    ensures
        to_start(active, desired).contains(id) <==> wants(desired, id) && !active.contains(id),
    decreases desired.len(),
{
    if desired.len() > 0 {
        let front = desired.drop_last();
        let c = desired.last();
        let before = to_start(active, front);
        lemma_to_start(active, front, id);
        if wants(desired, id) {
            let i = choose|i: int|
                0 <= i < desired.len() && (#[trigger] desired[i]).cluster_id == id && wanted(
                    desired[i],
                );
            if i < front.len() {
                assert(front[i] == desired[i]);
            }
        }
        if wants(front, id) {
            let i = choose|i: int|
                0 <= i < front.len() && (#[trigger] front[i]).cluster_id == id && wanted(front[i]);
            assert(desired[i] == front[i]);
        }
        if wanted(c) && !active.contains(c.cluster_id) {
            let now = before.push(c.cluster_id);
            assert(now[before.len() as int] == c.cluster_id);
            if before.contains(id) {
                let j = choose|j: int| 0 <= j < before.len() && before[j] == id;
                assert(now[j] == id);
            }
            if now.contains(id) && !before.contains(id) {
                let j = choose|j: int| 0 <= j < now.len() && now[j] == id;
                if j < before.len() {
                    assert(before[j] == id);
                }
                assert(desired[desired.len() - 1] == c);
            }
        }
    }
}

/// Once what is to end has ended and what is to start has started, a peer is
/// connected to exactly the clusters that it wants.
pub proof fn law_reconciled(active: Seq<Seq<char>>, desired: Seq<MembershipV>, id: Seq<char>)
    requires
        memberships::clusters_apart(desired),
    ensures
        kept(active, desired).contains(id) || to_start(kept(active, desired), desired).contains(id)
            <==> wants(desired, id),
{
    let stay = |x: Seq<char>| !is_to_stop(x, desired);
    let rest = active.filter(stay);
    lemma_to_start(rest, desired, id);
    if rest.contains(id) {
        active.lemma_filter_contains_rev(stay, id);
        let j = choose|j: int| 0 <= j < rest.len() && rest[j] == id;
        active.filter_lemma(stay);
        assert(stay(rest[j]));
        let ids = memberships::cluster_ids(desired);
        text::lemma_position(ids, id);
        let i = memberships::cluster_at(desired, id)->0;
        assert(ids[i] == id);
        assert(desired[i].cluster_id == id);
    }
}

/// No connection that is to end is one that would be started again.
pub proof fn law_stopped_is_not_started(desired: Seq<MembershipV>, id: Seq<char>, i: int)
    requires
        memberships::clusters_apart(desired),
        is_to_stop(id, desired),
        0 <= i < desired.len(),
        desired[i].cluster_id == id,
    ensures
        !wanted(desired[i]),
{
    let ids = memberships::cluster_ids(desired);
    text::lemma_position(ids, id);
    assert(ids[i] == id);
    match memberships::cluster_at(desired, id) {
        Some(j) => {
            assert(ids[j] == id);
            assert(i == j);
        },
        None => {},
    }
}

/// How many peers have a model that a cluster advertises: one, where the cluster
/// does not say.
pub open spec fn peer_count(m: JsonV) -> u64 {
    match json::u64_in(json::field(m, "_peer_count"@)) {
        Some(n) => n,
        None => 1,
    }
}

/// The better of the cluster that was found so far and the cluster `id` with its
/// models: the one in which more peers have the model.
pub open spec fn better(
    best: Option<(Seq<char>, u64)>,
    id: Seq<char>,
    models: Seq<JsonV>,
    model: Seq<char>,
) -> Option<(Seq<char>, u64)>
    decreases models.len(),
{
    if models.len() == 0 {
        best
    } else {
        let b = better(best, id, models.drop_last(), model);
        let m = models.last();
        if json::str_field(m, "name"@) != Some(model) {
            b
        } else {
            match b {
                Some((_, n)) => if n >= peer_count(m) {
                    b
                } else {
                    Some((id, peer_count(m)))
                },
                None => Some((id, peer_count(m))),
            }
        }
    }
}

/// The best of clusters and their models, in their order.
pub open spec fn best_cluster(
    v: Seq<(String, Vec<Json>)>,
    model: Seq<char>,
) -> Option<(Seq<char>, u64)>
    decreases v.len(),
{
    if v.len() == 0 {
        None
    } else {
        better(
            best_cluster(v.drop_last(), model),
            v.last().0@,
            json::items_view(v.last().1@),
            model,
        )
    }
}

/// What is known of the best cluster.
pub open spec fn best_view(o: Option<(String, u64)>) -> Option<(Seq<char>, u64)> {
    match o {
        Some((id, n)) => Some((id@, n)),
        None => None,
    }
}

fn better_of(best: Option<(String, u64)>, id: &str, models: &Vec<Json>, model: &str) -> (r: Option<
    (String, u64),
>)
    ensures
        best_view(r) == better(best_view(best), id@, json::items_view(models@), model@),
{
    let ghost mv = json::items_view(models@);
    let ghost b0 = best_view(best);
    let mut b = best;
    assert(better(b0, id@, mv.take(0), model@) == b0);
    for i in 0..models.len()
        invariant
            mv == json::items_view(models@),
            best_view(b) == better(b0, id@, mv.take(i as int), model@),
    {
        proof {
            assert(mv.take(i as int + 1).drop_last() =~= mv.take(i as int));
            assert(mv.take(i as int + 1).last() == models@[i as int]@);
        }
        let same = match models[i].get_str("name") {
            Some(n) => text::str_eq(n, model),
            None => false,
        };
        if same {
            let listed: Option<u64> = match models[i].get("_peer_count") {
                Some(v) => v.as_u64(),
                None => None,
            };
            let count: u64 = match listed {
                Some(n) => n,
                None => 1,
            };
            let keep = match &b {
                Some((_, n)) => *n >= count,
                None => false,
            };
            if !keep {
                b = Some((text::copy(id), count));
            }
        }
    }
    assert(mv.take(mv.len() as int) =~= mv);
    b
}

/// The cluster in which most peers have the model `model`; of several, the first.
pub fn find_cluster_for_model(model: &str, clusters: &Vec<(String, Vec<Json>)>) -> (r: Option<
    String,
>)
    ensures
        text::opt_view(r) == match best_cluster(clusters@, model@) {
            Some((id, _)) => Some(id),
            None => None,
        },
{
    let mut best: Option<(String, u64)> = None;
    for i in 0..clusters.len()
        invariant
            best_view(best) == best_cluster(clusters@.take(i as int), model@),
    {
        proof {
            assert(clusters@.take(i as int + 1).drop_last() =~= clusters@.take(i as int));
            assert(clusters@.take(i as int + 1).last() == clusters@[i as int]);
        }
        best = better_of(best, &clusters[i].0, &clusters[i].1, model);
    }
    assert(clusters@.take(clusters@.len() as int) =~= clusters@);
    match best {
        Some((id, _)) => Some(id),
        None => None,
    }
}

proof fn lemma_better(
    best: Option<(Seq<char>, u64)>,
    id: Seq<char>,
    models: Seq<JsonV>,
    model: Seq<char>,
)
    ensures
        best matches Some((_, n)) ==> (better(best, id, models, model) matches Some((_, k)) && k
            >= n),
        forall|i: int|
            0 <= i < models.len() && json::str_field(#[trigger] models[i], "name"@) == Some(model)
                ==> (better(best, id, models, model) matches Some((_, k)) && k >= peer_count(
                models[i],
            )),
    decreases models.len(),
{
    if models.len() > 0 {
        let front = models.drop_last();
        lemma_better(best, id, front, model);
        assert forall|i: int|
            0 <= i < models.len() && json::str_field(#[trigger] models[i], "name"@) == Some(
                model,
            ) implies (better(best, id, models, model) matches Some((_, k)) && k >= peer_count(
            models[i],
        )) by {
            if i < front.len() {
                assert(front[i] == models[i]);
            }
        }
    }
}

/// No cluster has a model at more peers than the one that is chosen for it.
pub proof fn law_best_cluster_has_most_peers(
    v: Seq<(String, Vec<Json>)>,
    model: Seq<char>,
    c: int,
    i: int,
)
    requires
        0 <= c < v.len(),
        0 <= i < v[c].1@.len(),
        json::str_field(v[c].1@[i]@, "name"@) == Some(model),
    ensures
        best_cluster(v, model) matches Some((_, n)) && n >= peer_count(v[c].1@[i]@),
    decreases v.len(),
{
    let front = v.drop_last();
    let models = json::items_view(v.last().1@);
    lemma_better(best_cluster(front, model), v.last().0@, models, model);
    if c < front.len() {
        law_best_cluster_has_most_peers(front, model, c, i);
    } else {
        assert(models[i] == v[c].1@[i]@);
    }
}

/// Where a request goes.
#[derive(Debug, PartialEq)]
pub enum Route {
    Refuse(String),
    Forward(String),
}

/// What a [`Route`] says.
pub enum RouteV {
    Refuse(Seq<char>),
    Forward(Seq<char>),
}

impl View for Route {
    type V = RouteV;

    open spec fn view(&self) -> RouteV {
        match self {
            Route::Refuse(m) => RouteV::Refuse(m@),
            Route::Forward(id) => RouteV::Forward(id@),
        }
    }
}

/// The cluster that a request for `model` goes to.
pub open spec fn chosen_cluster(
    cluster: Option<Seq<char>>,
    model: Seq<char>,
    clusters: Seq<(String, Vec<Json>)>,
) -> Option<Seq<char>> {
    match cluster {
        Some(id) => Some(id),
        None => match best_cluster(clusters, model) {
            Some((id, _)) => Some(id),
            None => None,
        },
    }
}

/// Where a request goes.
pub open spec fn routed(
    blocked: Option<Seq<char>>,
    cluster: Option<Seq<char>>,
    model: Seq<char>,
    clusters: Seq<(String, Vec<Json>)>,
    active: Seq<Seq<char>>,
) -> RouteV {
    match blocked {
        Some(p) => RouteV::Refuse("Peer "@ + p + " is blocked"@),
        None => match chosen_cluster(cluster, model, clusters) {
            Some(id) => if active.contains(id) {
                RouteV::Forward(id)
            } else {
                RouteV::Refuse("Not connected to cluster "@ + id)
            },
            None => RouteV::Refuse("No cluster advertises model "@ + model),
        },
    }
}

/// Where a request for `model` goes: to the cluster that it names, or else to the
/// one in which most peers have the model. A request to a peer that is blocked,
/// `blocked_target`, goes nowhere, and neither does one to a cluster that is not
/// in `active`.
pub fn route_proxy_cmd(
    blocked_target: Option<&str>,
    cluster_id: Option<&str>,
    model: &str,
    clusters: &Vec<(String, Vec<Json>)>,
    active: &Vec<String>,
) -> (r: Route)
    ensures
        r@ == routed(
            json::opt_str(blocked_target),
            json::opt_str(cluster_id),
            model@,
            clusters@,
            text::views(active@),
        ),
{
    if let Some(p) = blocked_target {
        return Route::Refuse(text::concat3("Peer ", p, " is blocked"));
    }
    let id = match cluster_id {
        Some(id) => text::copy(id),
        None => match find_cluster_for_model(model, clusters) {
            Some(id) => id,
            None => {
                return Route::Refuse(text::concat2("No cluster advertises model ", model));
            },
        },
    };
    if text::list_has(active, &id) {
        Route::Forward(id)
    } else {
        Route::Refuse(text::concat2("Not connected to cluster ", &id))
    }
}

/// Where what is done about a model or a connection goes: to the cluster that it
/// names; nowhere, where it names none.
pub fn route_action(cluster_id: Option<&str>, active: &Vec<String>) -> (r: Option<Route>)
    ensures
        match r {
            None => cluster_id is None,
            Some(route) => cluster_id matches Some(id) && route@ == (if text::views(
                active@,
            ).contains(id@) {
                RouteV::Forward(id@)
            } else {
                RouteV::Refuse("Not connected to cluster "@ + id@)
            }),
        },
{
    match cluster_id {
        Some(id) => if text::list_has(active, id) {
            Some(Route::Forward(text::copy(id)))
        } else {
            Some(Route::Refuse(text::concat2("Not connected to cluster ", id)))
        },
        None => None,
    }
}

/// The clusters that hear of what is done about a peer: all of them where its
/// connections end, the first one where it is reported.
pub fn moderation_targets(close: bool, active: &Vec<String>) -> (r: Vec<String>)
    ensures
        text::views(r@) == if close {
            text::views(active@)
        } else {
            text::views(active@).take(
                if active@.len() > 0 {
                    1
                } else {
                    0
                },
            )
        },
{
    if close {
        text::copy_list(active)
    } else {
        let mut out: Vec<String> = Vec::new();
        if active.len() > 0 {
            out.push(text::copy(&active[0]));
            assert(text::views(out@) =~= text::views(active@).take(1));
        } else {
            assert(text::views(out@) =~= text::views(active@).take(0));
        }
        out
    }
}

/// What is shown of a connection.
#[derive(Debug)]
pub struct PeerConnectionView {
    pub peer_id: String,
    pub cluster_id: Option<String>,
    pub swarm_id: Option<String>,
    pub direction: String,
    pub since_secs: u64,
    pub data_channel_open: bool,
    pub blocked: bool,
    pub attestation_flags: u64,
    pub stats: Option<Json>,
}

/// Whether `v` shows the connection to `p`.
pub open spec fn shows_peer(
    v: PeerConnectionView,
    p: ConnectedPeer,
    blocked: Seq<Seq<char>>,
    stats: Option<JsonV>,
) -> bool {
    &&& v.peer_id@ == p.peer_id@
    &&& text::opt_view(v.cluster_id) == text::opt_view(p.cluster_id)
    &&& text::opt_view(v.swarm_id) == text::opt_view(p.swarm_id)
    &&& v.direction@ == (match p.direction {
        PeerDirection::Inbound => "inbound"@,
        PeerDirection::Outbound => "outbound"@,
    })
    &&& v.since_secs == p.since_secs
    &&& v.data_channel_open == p.data_channel_open
    &&& v.blocked == blocked.contains(p.peer_id@)
    &&& v.attestation_flags == p.attestation_flags
    &&& json::opt_owned(v.stats) == stats
}

/// What is shown of the connection to `p`, with what is known of its work.
pub fn peer_connection_view(p: &ConnectedPeer, blocked: &Vec<String>, stats: Option<Json>) -> (r:
    PeerConnectionView)
    ensures
        shows_peer(r, *p, text::views(blocked@), json::opt_owned(stats)),
{
    PeerConnectionView {
        peer_id: text::copy(&p.peer_id),
        cluster_id: text::copy_opt(&p.cluster_id),
        swarm_id: text::copy_opt(&p.swarm_id),
        direction: match p.direction {
            PeerDirection::Inbound => text::copy("inbound"),
            PeerDirection::Outbound => text::copy("outbound"),
        },
        since_secs: p.since_secs,
        data_channel_open: p.data_channel_open,
        blocked: text::list_has(blocked, &p.peer_id),
        attestation_flags: p.attestation_flags,
        stats,
    }
}

/// What is shown of the connections to `peers`, with what is known of their work.
pub fn sync_peer_connections(
    peers: &Vec<ConnectedPeer>,
    blocked: &Vec<String>,
    stats: Vec<Option<Json>>,
) -> (r: Vec<PeerConnectionView>)
    requires
        stats@.len() == peers@.len(),
    ensures
        r@.len() == peers@.len(),
        forall|i: int|
            0 <= i < r@.len() ==> shows_peer(
                #[trigger] r@[i],
                peers@[i],
                text::views(blocked@),
                json::opt_owned(stats@[i]),
            ),
{
    let ghost all = stats@;
    let mut left = stats;
    let mut out: Vec<PeerConnectionView> = Vec::new();
    let n: usize = peers.len();
    assert(all.skip(0) =~= all);
    for i in 0..n
        invariant
            n == peers@.len(),
            all.len() == n,
            left@ == all.skip(i as int),
            out@.len() == i,
            forall|k: int|
                0 <= k < i ==> shows_peer(
                    #[trigger] out@[k],
                    peers@[k],
                    text::views(blocked@),
                    json::opt_owned(all[k]),
                ),
    {
        let known = left.remove(0);
        assert(left@ =~= all.skip(i as int + 1));
        out.push(peer_connection_view(&peers[i], blocked, known));
    }
    out
}

/// Whether a peer stays known when the connection to the cluster `cluster_id`
/// ends.
pub fn survives_stop(p: &ConnectedPeer, cluster_id: &str) -> (r: bool)
    ensures
        r == (text::opt_view(p.cluster_id) != Some(cluster_id@)),
{
    match &p.cluster_id {
        Some(c) => !text::str_eq(c, cluster_id),
        None => true,
    }
}

/// The cluster that a peer takes part in, after the lobby said `resp` of it.
pub fn cluster_membership_from_response(resp: &ClusterResponse, room_secret: Option<String>) -> (r:
    ClusterMembership)
    ensures
        r@ == lobby::joined_cluster(*resp, text::opt_view(room_secret)),
{
    lobby::membership_from_response(resp, room_secret)
}

/// A request reaches its cluster: one that names a cluster goes there, and one that names
/// none to the best that has the model. It is refused only where its peer is blocked, the
/// cluster is not connected, or no cluster has the model.
pub proof fn law_request_reaches_its_cluster(
    cluster: Seq<char>,
    peer: Seq<char>,
    model: Seq<char>,
    clusters: Seq<(String, Vec<Json>)>,
    active: Seq<Seq<char>>,
)
    ensures
        active.contains(cluster) ==> routed(None, Some(cluster), model, clusters, active)
            == RouteV::Forward(cluster),
        !active.contains(cluster) ==> (routed(None, Some(cluster), model, clusters, active) matches RouteV::Refuse(
            m,
        ) && text::has(m, cluster)),
        best_cluster(clusters, model) matches Some((id, _)) ==> (active.contains(id) ==> routed(
            None,
            None,
            model,
            clusters,
            active,
        ) == RouteV::Forward(id)),
        best_cluster(clusters, model) is None ==> (routed(None, None, model, clusters, active) matches RouteV::Refuse(
            m,
        ) && text::has(m, model)),
        routed(Some(peer), Some(cluster), model, clusters, active) matches RouteV::Refuse(m)
            && text::has(m, peer),
        routed(Some(peer), None, model, clusters, active) is Refuse,
{
    let none = Seq::<char>::empty();
    text::law_prefix_is_taken_off(cluster, "Not connected to cluster "@, none);
    assert("Not connected to cluster "@ + cluster + none =~= "Not connected to cluster "@ + cluster);
    text::law_prefix_is_taken_off(model, "No cluster advertises model "@, none);
    assert("No cluster advertises model "@ + model + none =~= "No cluster advertises model "@
        + model);
    text::law_prefix_is_taken_off(peer, "Peer "@, " is blocked"@);
}

proof fn lemma_better_is_listed(
    best: Option<(Seq<char>, u64)>,
    id: Seq<char>,
    models: Seq<JsonV>,
    model: Seq<char>,
)
    ensures
        better(best, id, models, model) == best || (exists|i: int|
            0 <= i < models.len() && json::str_field(#[trigger] models[i], "name"@) == Some(model)
                && better(best, id, models, model) == Some((id, peer_count(models[i])))),
    decreases models.len(),
{
    if models.len() > 0 {
        let front = models.drop_last();
        lemma_better_is_listed(best, id, front, model);
        let b = better(best, id, front, model);
        let all = better(best, id, models, model);
        if all == b {
            if b != best {
                let i = choose|i: int|
                    0 <= i < front.len() && json::str_field(#[trigger] front[i], "name"@) == Some(
                        model,
                    ) && b == Some((id, peer_count(front[i])));
                assert(models[i] == front[i]);
            }
        } else {
            assert(models[models.len() - 1] == models.last());
        }
    }
}

/// The best cluster for a model is one that has the model, with as many peers as are
/// told of it; and there is one as soon as any cluster has the model.
pub proof fn law_best_cluster_has_the_model(v: Seq<(String, Vec<Json>)>, model: Seq<char>)
    ensures
        best_cluster(v, model) matches Some((id, n)) ==> exists|c: int, i: int|
            0 <= c < v.len() && (#[trigger] v[c]).0@ == id && 0 <= i < v[c].1@.len()
                && json::str_field((#[trigger] v[c].1@[i])@, "name"@) == Some(model) && peer_count(
                v[c].1@[i]@,
            ) == n,
        forall|c: int, i: int|
            0 <= c < v.len() && 0 <= i < v[c].1@.len() && json::str_field(
                (#[trigger] v[c].1@[i])@,
                "name"@,
            ) == Some(model) ==> best_cluster(v, model) is Some,
    decreases v.len(),
{
    if v.len() > 0 {
        let front = v.drop_last();
        law_best_cluster_has_the_model(front, model);
        let models = json::items_view(v.last().1@);
        let before = best_cluster(front, model);
        lemma_better_is_listed(before, v.last().0@, models, model);
        if let Some((id, n)) = best_cluster(v, model) {
            if best_cluster(v, model) == before {
                let (c, i) = choose|c: int, i: int|
                    0 <= c < front.len() && (#[trigger] front[c]).0@ == id && 0 <= i
                        < front[c].1@.len() && json::str_field(
                        (#[trigger] front[c].1@[i])@,
                        "name"@,
                    ) == Some(model) && peer_count(front[c].1@[i]@) == n;
                assert(v[c] == front[c]);
                assert(v[c].1@[i] == front[c].1@[i]);
            } else {
                let i = choose|i: int|
                    0 <= i < models.len() && json::str_field(#[trigger] models[i], "name"@) == Some(
                        model,
                    ) && best_cluster(v, model) == Some((v.last().0@, peer_count(models[i])));
                let c = v.len() - 1;
                assert(v[c].1@[i]@ == models[i]);
            }
        }
        assert forall|c: int, i: int|
            0 <= c < v.len() && 0 <= i < v[c].1@.len() && json::str_field(
                (#[trigger] v[c].1@[i])@,
                "name"@,
            ) == Some(model) implies best_cluster(v, model) is Some by {
            law_best_cluster_has_most_peers(v, model, c, i);
        }
    }
}

/// A cluster shows as many peers as are connected to it in each direction: one more
/// counts where it is in that cluster and direction, and nowhere else.
pub proof fn law_peers_are_counted(
    v: Seq<ConnectedPeer>,
    p: ConnectedPeer,
    id: Seq<char>,
    d: PeerDirection,
)
    ensures
        peers_of(Seq::<ConnectedPeer>::empty(), id, d) == 0,
        text::opt_view(p.cluster_id) == Some(id) && p.direction == d ==> peers_of(v.push(p), id, d)
            == peers_of(v, id, d) + 1,
        text::opt_view(p.cluster_id) != Some(id) || p.direction != d ==> peers_of(v.push(p), id, d)
            == peers_of(v, id, d),
{
    assert(v.push(p).drop_last() =~= v);
}

/// A peer takes jobs of a cluster, and wants to be connected to it, unless it said no.
pub proof fn law_membership_is_on_by_default(c: MembershipV)
    ensures
        c.accepting_jobs is None ==> accepts(c),
        c.accepting_jobs matches Some(b) ==> accepts(c) == b,
        c.connected is None ==> wanted(c),
        c.connected matches Some(b) ==> wanted(c) == b,
{
}

/// The last fault that was shown of a cluster is the one of its latest entry; entries of
/// other clusters do not count.
pub proof fn law_latest_fault_counts(v: Seq<ClusterStatus>, s: ClusterStatus, id: Seq<char>)
    ensures
        s.cluster_id@ == id ==> last_fault(v.push(s), id) == text::opt_view(s.last_error),
        s.cluster_id@ != id ==> last_fault(v.push(s), id) == last_fault(v, id),
        (forall|i: int| 0 <= i < v.len() ==> (#[trigger] v[i]).cluster_id@ != id) ==> last_fault(
            v,
            id,
        ) is None,
    decreases v.len(),
{
    assert(v.push(s).drop_last() =~= v);
    if v.len() > 0 {
        law_latest_fault_counts(v.drop_last(), v.last(), id);
        assert forall|i: int| 0 <= i < v.drop_last().len() implies (forall|k: int|
            0 <= k < v.len() ==> (#[trigger] v[k]).cluster_id@ != id) ==> (
        #[trigger] v.drop_last()[i]).cluster_id@ != id by {
            assert(v.drop_last()[i] == v[i]);
        }
        assert(v.drop_last().push(v.last()) =~= v);
    }
}

/// A cluster is shown with the peers on either side of it, as accepting jobs or paused by
/// heat but never both, and with a fault only while it is not connected.
pub proof fn law_cluster_is_shown(
    s: ClusterStatus,
    c: MembershipV,
    peers: Seq<ConnectedPeer>,
    connected: Map<Seq<char>, bool>,
    schedule: ScheduleFields,
    thermal: bool,
    before: Seq<ClusterStatus>,
)
    requires
        shows(s, c, peers, connected, schedule, thermal, before),
    ensures
        s.cluster_id@ == c.cluster_id,
        text::opt_view(s.name) == c.name,
        text::opt_view(s.visibility) == c.visibility,
        s.schedule == schedule,
        s.lobby_connected <==> connected.dom().contains(c.cluster_id) && connected[c.cluster_id],
        s.lobby_connected ==> s.last_error is None,
        !s.lobby_connected ==> text::opt_view(s.last_error) == last_fault(before, c.cluster_id),
        !(s.accepting_jobs && s.thermal_paused),
        thermal ==> s.accepting_jobs || s.thermal_paused,
        !thermal ==> !s.thermal_paused,
        s.accepting_jobs <==> c.accepting_jobs != Some(false),
        s.connected <==> c.connected != Some(false),
{
}

/// A connection is shown with the peer that it leads to, its direction in words, and
/// whether the peer is blocked.
pub proof fn law_connection_is_shown(
    v: PeerConnectionView,
    p: ConnectedPeer,
    blocked: Seq<Seq<char>>,
    stats: Option<JsonV>,
)
    requires
        shows_peer(v, p, blocked, stats),
    ensures
        v.peer_id@ == p.peer_id@,
        text::opt_view(v.cluster_id) == text::opt_view(p.cluster_id),
        text::opt_view(v.swarm_id) == text::opt_view(p.swarm_id),
        p.direction is Inbound ==> v.direction@ == "inbound"@,
        p.direction is Outbound ==> v.direction@ == "outbound"@,
        v.since_secs == p.since_secs,
        v.data_channel_open == p.data_channel_open,
        v.blocked <==> exists|i: int| 0 <= i < blocked.len() && blocked[i] == p.peer_id@,
        v.attestation_flags == p.attestation_flags,
        json::opt_owned(v.stats) == stats,
{
}

/// A model has as many peers as its cluster says, and one where the cluster says nothing.
pub proof fn law_peers_of_a_model(m: JsonV, n: u64)
    ensures
        json::field(m, "_peer_count"@) == Some(JsonV::Int(n as int)) ==> peer_count(m) == n,
        json::field(m, "_peer_count"@) is None ==> peer_count(m) == 1,
{
}

} // verus!
