//! Where a request for a model goes.

use crate::gpu::readings;
use crate::json;
use crate::json::{Json, JsonV};
use crate::shared::NetworkMode;
use crate::text;
use vstd::prelude::*;

verus! {

/// The first model with the name `name`.
pub open spec fn named_model(models: Seq<JsonV>, name: Seq<char>) -> Option<JsonV>
    decreases models.len(),
{
    if models.len() == 0 {
        None
    } else if json::str_field(models[0], "name"@) == Some(name) {
        Some(models[0])
    } else {
        named_model(models.skip(1), name)
    }
}

/// The first model with the name `name`.
pub fn find_model<'a>(models: &'a Vec<Json>, name: &str) -> (r: Option<&'a Json>)
    ensures
        json::opt(r) == named_model(json::items_view(models@), name@),
{
    let ghost mv = json::items_view(models@);
    assert(mv.skip(0) =~= mv);
    for i in 0..models.len()
        invariant
            mv == json::items_view(models@),
            named_model(mv, name@) == named_model(mv.skip(i as int), name@),
    {
        assert(mv.skip(i as int)[0] == models@[i as int]@);
        assert(mv.skip(i as int).skip(1) =~= mv.skip(i as int + 1));
        if let Some(n) = models[i].get_str("name") {
            if text::str_eq(n, name) {
                return Some(&models[i]);
            }
        }
    }
    None
}

/// How many peers a network has.
pub open spec fn peers_in(c: JsonV) -> u64 {
    match json::u64_in(json::field(c, "peer_count"@)) {
        Some(n) => n,
        None => 0,
    }
}

fn peers_of(c: &Json) -> (r: u64)
    ensures
        r == peers_in(c@),
{
    match c.get("peer_count") {
        Some(v) => match v.as_u64() {
            Some(n) => n,
            None => 0,
        },
        None => 0,
    }
}

/// The network with the most peers; of several, the last.
pub open spec fn largest(v: Seq<JsonV>) -> Option<JsonV>
    decreases v.len(),
{
    if v.len() == 0 {
        None
    } else {
        match largest(v.drop_last()) {
            Some(b) => if peers_in(v.last()) >= peers_in(b) {
                Some(v.last())
            } else {
                Some(b)
            },
            None => Some(v.last()),
        }
    }
}

fn largest_of<'a>(v: &'a Vec<Json>) -> (r: Option<&'a Json>)
    ensures
        json::opt(r) == largest(json::items_view(v@)),
{
    let ghost vv = json::items_view(v@);
    let mut best: Option<&'a Json> = None;
    for i in 0..v.len()
        invariant
            vv == json::items_view(v@),
            json::opt(best) == largest(vv.take(i as int)),
    {
        proof {
            assert(vv.take(i as int + 1).drop_last() =~= vv.take(i as int));
            assert(vv.take(i as int + 1).last() == v@[i as int]@);
        }
        let take = match best {
            Some(b) => peers_of(&v[i]) >= peers_of(b),
            None => true,
        };
        if take {
            best = Some(&v[i]);
        }
    }
    assert(vv.take(vv.len() as int) =~= vv);
    best
}

/// What the largest network in the list under `list` has under `k`.
pub open spec fn in_largest(m: JsonV, list: Seq<char>, k: Seq<char>) -> Option<JsonV> {
    match json::arr_in(json::field(m, list)) {
        Some(v) => match largest(v) {
            Some(c) => json::field(c, k),
            None => None,
        },
        None => None,
    }
}

fn of_largest<'a>(m: &'a Json, list: &str, k: &str) -> (r: Option<&'a Json>)
    ensures
        json::opt(r) == in_largest(m@, list@, k@),
{
    let items = match m.get(list) {
        Some(v) => v.as_array(),
        None => None,
    };
    match items {
        Some(v) => match largest_of(v) {
            Some(c) => c.get(k),
            None => None,
        },
        None => None,
    }
}

/// The cluster of a model of the network: the one that it names, or else the
/// largest that it lists, or else the room that it names.
pub open spec fn cluster_of(models: Seq<JsonV>, model: Seq<char>) -> Option<Seq<char>> {
    match named_model(models, model) {
        Some(m) => json::str_in(
            readings::either(
                json::field(m, "_cluster_id"@),
                readings::either(
                    in_largest(m, "_clusters"@, "cluster_id"@),
                    json::field(m, "_room_id"@),
                ),
            ),
        ),
        None => None,
    }
}

/// The cluster of a model of the network.
pub fn cluster_id_for_model(network_models: &Vec<Json>, model: &str) -> (r: Option<String>)
    ensures
        text::opt_view(r) == cluster_of(json::items_view(network_models@), model@),
{
    match find_model(network_models, model) {
        Some(m) => readings::text_of(
            readings::first2(
                m.get("_cluster_id"),
                readings::first2(of_largest(m, "_clusters", "cluster_id"), m.get("_room_id")),
            ),
        ),
        None => None,
    }
}

/// The swarm of a model of the network: the one that it names, or else the
/// largest that it lists.
pub open spec fn swarm_of(models: Seq<JsonV>, model: Seq<char>) -> Option<Seq<char>> {
    match named_model(models, model) {
        Some(m) => json::str_in(
            readings::either(
                json::field(m, "_swarm_id"@),
                in_largest(m, "_swarms"@, "swarm_id"@),
            ),
        ),
        None => None,
    }
}

/// The swarm of a model of the network.
pub fn swarm_id_for_model(network_models: &Vec<Json>, model: &str) -> (r: Option<String>)
    ensures
        text::opt_view(r) == swarm_of(json::items_view(network_models@), model@),
{
    match find_model(network_models, model) {
        Some(m) => readings::text_of(
            readings::first2(m.get("_swarm_id"), of_largest(m, "_swarms", "swarm_id")),
        ),
        None => None,
    }
}

/// The kind of network that a request goes to.
#[derive(Debug, Clone, Copy, PartialEq, Eq, Structural)]
pub enum NetworkScope {
    Cluster,
    Swarm,
}

/// The kind of network that a request for `model` goes to: to a swarm, where the
/// peer takes part in both and both have the model.
pub open spec fn scope_of(models: Seq<JsonV>, model: Seq<char>, mode: NetworkMode) -> Option<
    NetworkScope,
> {
    let cluster = cluster_of(models, model) is Some;
    let swarm = swarm_of(models, model) is Some;
    if swarm && mode != NetworkMode::Cluster {
        Some(NetworkScope::Swarm)
    } else if cluster && mode != NetworkMode::Swarm {
        Some(NetworkScope::Cluster)
    } else {
        None
    }
}

/// The kind of network that a request for `model` goes to.
pub fn network_scope_for_model(network_models: &Vec<Json>, model: &str, p2p_mode: NetworkMode) -> (r:
    Option<NetworkScope>)
    ensures
        r == scope_of(json::items_view(network_models@), model@, p2p_mode),
{
    let cluster = cluster_id_for_model(network_models, model).is_some();
    let swarm = swarm_id_for_model(network_models, model).is_some();
    match p2p_mode {
        NetworkMode::Cluster => if cluster {
            Some(NetworkScope::Cluster)
        } else {
            None
        },
        NetworkMode::Swarm => if swarm {
            Some(NetworkScope::Swarm)
        } else {
            None
        },
        NetworkMode::Both => if swarm {
            Some(NetworkScope::Swarm)
        } else if cluster {
            Some(NetworkScope::Cluster)
        } else {
            None
        },
    }
}

/// The name of the networks that a peer takes part in.
pub open spec fn mode_name(mode: NetworkMode) -> Seq<char> {
    match mode {
        NetworkMode::Cluster => "Cluster"@,
        NetworkMode::Swarm => "Swarm"@,
        NetworkMode::Both => "Both"@,
    }
}

/// Where a request for a model that is not here goes.
#[derive(Debug, PartialEq)]
pub struct RemoteRoute {
    pub scope: NetworkScope,
    pub cluster_id: Option<String>,
    pub swarm_id: Option<String>,
}

/// Whether `r` is where a request for `model`, which is not here, goes: to its
/// cluster or to its swarm, or nowhere.
pub open spec fn routes(
    ms: Seq<JsonV>,
    model: Seq<char>,
    mode: NetworkMode,
    r: Result<RemoteRoute, String>,
) -> bool {
    match scope_of(ms, model, mode) {
        Some(s) => r matches Ok(route) && route.scope == s && text::opt_view(route.cluster_id) == (
        if s == NetworkScope::Cluster {
            cluster_of(ms, model)
        } else {
            None
        }) && text::opt_view(route.swarm_id) == (if s == NetworkScope::Swarm {
            swarm_of(ms, model)
        } else {
            None
        }),
        None => r matches Err(m) && m@ == "No network advertises model "@ + model
            + " for p2p_mode "@ + mode_name(mode),
    }
}

/// Where a request for `model`, which is not here, goes: to its cluster or to its
/// swarm.
pub fn remote_route(network_models: &Vec<Json>, model: &str, p2p_mode: NetworkMode) -> (r: Result<
    RemoteRoute,
    String,
>)
    ensures
        routes(json::items_view(network_models@), model@, p2p_mode, r),
{
    match network_scope_for_model(network_models, model, p2p_mode) {
        Some(scope) => {
            let cluster_id = match scope {
                NetworkScope::Cluster => cluster_id_for_model(network_models, model),
                NetworkScope::Swarm => None,
            };
            let swarm_id = match scope {
                NetworkScope::Swarm => swarm_id_for_model(network_models, model),
                NetworkScope::Cluster => None,
            };
            Ok(RemoteRoute { scope, cluster_id, swarm_id })
        },
        None => {
            let name = match p2p_mode {
                NetworkMode::Cluster => "Cluster",
                NetworkMode::Swarm => "Swarm",
                NetworkMode::Both => "Both",
            };
            let front = text::concat3("No network advertises model ", model, " for p2p_mode ");
            Err(text::concat2(&front, name))
        },
    }
}

/// A route always names the network that it goes to.
pub proof fn law_route_names_its_network(models: Seq<JsonV>, model: Seq<char>, mode: NetworkMode)
    requires
        scope_of(models, model, mode) is Some,
    ensures
        scope_of(models, model, mode) == Some(NetworkScope::Cluster) ==> cluster_of(models, model) is Some
            && mode != NetworkMode::Swarm,
        scope_of(models, model, mode) == Some(NetworkScope::Swarm) ==> swarm_of(models, model) is Some
            && mode != NetworkMode::Cluster,
{
}

proof fn lemma_largest(v: Seq<JsonV>)
    ensures
        v.len() > 0 ==> largest(v) is Some,
        forall|i: int|
            0 <= i < v.len() ==> (largest(v) matches Some(b) && peers_in(b) >= peers_in(
                #[trigger] v[i],
            )),
    decreases v.len(),
{
    if v.len() > 0 {
        let front = v.drop_last();
        lemma_largest(front);
        assert forall|i: int| 0 <= i < v.len() implies (largest(v) matches Some(b) && peers_in(b)
            >= peers_in(#[trigger] v[i])) by {
            if i < front.len() {
                assert(front[i] == v[i]);
            }
        }
    }
}

/// No network in a list has more peers than the largest.
pub proof fn law_largest_has_most_peers(v: Seq<JsonV>, i: int)
    requires
        0 <= i < v.len(),
    ensures
        largest(v) matches Some(b) && peers_in(b) >= peers_in(v[i]),
{
    lemma_largest(v);
}

/// A request is routed wherever it can be. With a swarm for the model, a peer
/// that takes part in swarms sends to that swarm. With a cluster, a peer that
/// takes part in clusters alone, or in both where no swarm has the model, sends to
/// that cluster. Only where no network of a kind that the peer takes part in has
/// the model, there is no route.
pub proof fn law_route_is_found(models: Seq<JsonV>, model: Seq<char>, mode: NetworkMode)
    ensures
        swarm_of(models, model) is Some && (mode == NetworkMode::Swarm || mode
            == NetworkMode::Both) ==> scope_of(models, model, mode) == Some(NetworkScope::Swarm),
        cluster_of(models, model) is Some && (mode == NetworkMode::Cluster || (mode
            == NetworkMode::Both && swarm_of(models, model) is None)) ==> scope_of(
            models,
            model,
            mode,
        ) == Some(NetworkScope::Cluster),
        scope_of(models, model, mode) is None ==> (mode == NetworkMode::Cluster || swarm_of(
            models,
            model,
        ) is None) && (mode == NetworkMode::Swarm || cluster_of(models, model) is None),
{
}

proof fn lemma_named_model(models: Seq<JsonV>, i: int, name: Seq<char>)
    requires
        0 <= i < models.len(),
        json::field(models[i], "name"@) == Some(JsonV::Str(name)),
        forall|j: int|
            0 <= j < i ==> json::field(#[trigger] models[j], "name"@) != Some(JsonV::Str(name)),
    ensures
        named_model(models, name) == Some(models[i]),
    decreases i,
{
    if i > 0 {
        let rest = models.skip(1);
        assert(rest[i - 1] == models[i]);
        assert forall|j: int| 0 <= j < i - 1 implies json::field(#[trigger] rest[j], "name"@)
            != Some(JsonV::Str(name)) by {
            assert(rest[j] == models[j + 1]);
        }
        assert(json::field(models[0], "name"@) != Some(JsonV::Str(name)));
        lemma_named_model(rest, i - 1, name);
    }
}

proof fn lemma_named_model_is_listed(models: Seq<JsonV>, name: Seq<char>)
    ensures
        named_model(models, name) matches Some(m) ==> models.contains(m) && json::field(
            m,
            "name"@,
        ) == Some(JsonV::Str(name)),
    decreases models.len(),
{
    if models.len() > 0 {
        if json::str_field(models[0], "name"@) == Some(name) {
            assert(models.contains(models[0]));
        } else {
            let rest = models.skip(1);
            lemma_named_model_is_listed(rest, name);
            if let Some(m) = named_model(rest, name) {
                let k = choose|k: int| 0 <= k < rest.len() && rest[k] == m;
                assert(models[k + 1] == m);
            }
        }
    }
}

/// A model's networks are those that its own entry names, the first entry with
/// its name: `_swarm_id` is its swarm and `_cluster_id` its cluster, whatever else
/// the entry lists.
pub proof fn law_entry_names_the_networks(
    models: Seq<JsonV>,
    i: int,
    model: Seq<char>,
    id: Seq<char>,
)
    requires
        0 <= i < models.len(),
        json::field(models[i], "name"@) == Some(JsonV::Str(model)),
        forall|j: int|
            0 <= j < i ==> json::field(#[trigger] models[j], "name"@) != Some(JsonV::Str(model)),
    ensures
        json::field(models[i], "_swarm_id"@) == Some(JsonV::Str(id)) ==> swarm_of(models, model)
            == Some(id),
        json::field(models[i], "_cluster_id"@) == Some(JsonV::Str(id)) ==> cluster_of(
            models,
            model,
        ) == Some(id),
        json::field(models[i], "_cluster_id"@) is None && json::field(models[i], "_clusters"@)
            is None && json::field(models[i], "_room_id"@) == Some(JsonV::Str(id)) ==> cluster_of(
            models,
            model,
        ) == Some(id),
{
    lemma_named_model(models, i, model);
}

/// A model that no entry names has no network.
pub proof fn law_unlisted_model_has_no_network(models: Seq<JsonV>, model: Seq<char>)
    requires
        forall|j: int|
            0 <= j < models.len() ==> json::field(#[trigger] models[j], "name"@) != Some(
                JsonV::Str(model),
            ),
    ensures
        swarm_of(models, model) is None,
        cluster_of(models, model) is None,
{
    lemma_named_model_is_listed(models, model);
}

proof fn lemma_largest_at(v: Seq<JsonV>, k: int)
    requires
        0 <= k < v.len(),
        forall|j: int| 0 <= j < k ==> peers_in(#[trigger] v[j]) <= peers_in(v[k]),
        forall|j: int| k < j < v.len() ==> peers_in(#[trigger] v[j]) < peers_in(v[k]),
    ensures
        largest(v) == Some(v[k]),
    decreases v.len(),
{
    let front = v.drop_last();
    lemma_largest_is_listed(front);
    if k < front.len() {
        assert(front[k] == v[k]);
        assert(peers_in(v[v.len() - 1]) < peers_in(v[k]));
        lemma_largest_at(front, k);
    } else if front.len() > 0 {
        let i = choose|i: int| 0 <= i < front.len() && largest(front) == Some(front[i]);
        assert(front[i] == v[i]);
    }
}

proof fn lemma_largest_is_listed(v: Seq<JsonV>)
    ensures
        v.len() > 0 ==> exists|i: int| 0 <= i < v.len() && largest(v) == Some(#[trigger] v[i]),
    decreases v.len(),
{
    if v.len() > 0 {
        let front = v.drop_last();
        lemma_largest_is_listed(front);
        if largest(v) == Some(v.last()) {
            assert(largest(v) == Some(v[v.len() - 1]));
        } else {
            let i = choose|i: int| 0 <= i < front.len() && largest(front) == Some(front[i]);
            assert(v[i] == front[i]);
        }
    }
}

/// An entry that names no swarm or cluster of its own, but lists some with their
/// numbers of peers, stands for the one with the most peers; of several, for the
/// last.
pub proof fn law_entry_lists_the_networks(
    models: Seq<JsonV>,
    i: int,
    model: Seq<char>,
    listed: Seq<JsonV>,
    counts: Seq<int>,
    k: int,
    id: Seq<char>,
)
    requires
        0 <= i < models.len(),
        json::field(models[i], "name"@) == Some(JsonV::Str(model)),
        forall|j: int|
            0 <= j < i ==> json::field(#[trigger] models[j], "name"@) != Some(JsonV::Str(model)),
        counts.len() == listed.len(),
        0 <= k < listed.len(),
        forall|j: int|
            0 <= j < listed.len() ==> json::field(#[trigger] listed[j], "peer_count"@) == Some(
                JsonV::Int(counts[j]),
            ) && 0 <= counts[j] <= u64::MAX,
        forall|j: int| 0 <= j < k ==> #[trigger] counts[j] <= counts[k],
        forall|j: int| k < j < listed.len() ==> #[trigger] counts[j] < counts[k],
    ensures
        json::field(models[i], "_swarm_id"@) is None && json::field(models[i], "_swarms"@) == Some(
            JsonV::Arr(listed),
        ) && json::field(listed[k], "swarm_id"@) == Some(JsonV::Str(id)) ==> swarm_of(models, model)
            == Some(id),
        json::field(models[i], "_cluster_id"@) is None && json::field(models[i], "_clusters"@)
            == Some(JsonV::Arr(listed)) && json::field(listed[k], "cluster_id"@) == Some(
            JsonV::Str(id),
        ) ==> cluster_of(models, model) == Some(id),
{
    lemma_named_model(models, i, model);
    assert forall|j: int| 0 <= j < listed.len() implies peers_in(#[trigger] listed[j])
        == counts[j] by {}
    lemma_largest_at(listed, k);
}

/// A request for a model that is not here goes to the swarm or the cluster that has it,
/// as the peer takes part in: to a swarm first, under the swarm's identifier, and to a
/// cluster under the cluster's. It is refused, with the name of the model, only where
/// neither can take it.
pub proof fn law_request_reaches_its_network(
    ms: Seq<JsonV>,
    model: Seq<char>,
    mode: NetworkMode,
    r: Result<RemoteRoute, String>,
    id: Seq<char>,
)
    requires
        routes(ms, model, mode, r),
    ensures
        swarm_of(ms, model) == Some(id) && (mode == NetworkMode::Swarm || mode == NetworkMode::Both)
            ==> (r matches Ok(route) && route.scope == NetworkScope::Swarm && text::opt_view(
            route.swarm_id,
        ) == Some(id) && route.cluster_id is None),
        cluster_of(ms, model) == Some(id) && (mode == NetworkMode::Cluster || (mode
            == NetworkMode::Both && swarm_of(ms, model) is None)) ==> (r matches Ok(route)
            && route.scope == NetworkScope::Cluster && text::opt_view(route.cluster_id) == Some(id)
            && route.swarm_id is None),
        cluster_of(ms, model) is None && swarm_of(ms, model) is None ==> (r matches Err(m)
            && text::has(m@, model)),
        r is Err ==> (mode == NetworkMode::Cluster || swarm_of(ms, model) is None) && (mode
            == NetworkMode::Swarm || cluster_of(ms, model) is None),
{
    let a = "No network advertises model "@;
    let b = " for p2p_mode "@;
    text::law_prefix_is_taken_off(model, a, b + mode_name(mode));
    assert(a + model + b + mode_name(mode) =~= a + model + (b + mode_name(mode)));
}

} // verus!
