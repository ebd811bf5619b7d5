//! The lists of models that a peer gives to its clients.

use crate::json;
use crate::json::{Json, JsonV};
use crate::text;
use vstd::prelude::*;

verus! {

/// A model of the network, and the entry that it has in a list.
pub struct NetworkModelV {
    pub model: JsonV,
    pub entry: JsonV,
}

/// What a list of models of the network says.
pub open spec fn network_view(v: Seq<(Json, Json)>) -> Seq<NetworkModelV> {
    v.map_values(|p: (Json, Json)| NetworkModelV { model: p.0@, entry: p.1@ })
}

/// The entries of the models of the network that have a name which is not one of
/// `except`.
pub open spec fn entries_but(v: Seq<NetworkModelV>, except: Seq<Seq<char>>) -> Seq<JsonV>
    decreases v.len(),
{
    if v.len() == 0 {
        Seq::empty()
    } else {
        let before = entries_but(v.drop_last(), except);
        match json::str_field(v.last().model, "name"@) {
            Some(n) => if except.contains(n) {
                before
            } else {
                before.push(v.last().entry)
            },
            None => before,
        }
    }
}

/// Puts the entries of the models of the network whose names are not in `except`
/// behind `out`.
fn push_entries(out: &mut Vec<Json>, network: &Vec<(Json, Json)>, except: &Vec<String>)
    ensures
        json::items_view(final(out)@) == json::items_view(old(out)@) + entries_but(
            network_view(network@),
            text::views(except@),
        ),
{
    let ghost nv = network_view(network@);
    let ghost ex = text::views(except@);
    let ghost base = json::items_view(out@);
    assert(json::items_view(out@) =~= base + entries_but(nv.take(0), ex));
    for i in 0..network.len()
        invariant
            nv == network_view(network@),
            ex == text::views(except@),
            json::items_view(out@) == base + entries_but(nv.take(i as int), ex),
    {
        proof {
            assert(nv.take(i as int + 1).drop_last() =~= nv.take(i as int));
            assert(nv.take(i as int + 1).last() == (NetworkModelV {
                model: network@[i as int].0@,
                entry: network@[i as int].1@,
            }));
        }
        if let Some(n) = network[i].0.get_str("name") {
            if !text::list_has(except, n) {
                let e = json::copy(&network[i].1);
                proof {
                    json::lemma_items_push(out@, e);
                    assert((base + entries_but(nv.take(i as int), ex)).push(e@) =~= base
                        + entries_but(nv.take(i as int), ex).push(e@));
                }
                out.push(e);
            }
        }
    }
    assert(nv.take(nv.len() as int) =~= nv);
}

/// The list of a peer that has no server: the models of the network that are not
/// hidden. Each comes with its entry.
pub fn network_tags(network: &Vec<(Json, Json)>, hidden: &Vec<String>) -> (r: Json)
    ensures
        r@ == JsonV::Obj(
            Map::<Seq<char>, JsonV>::empty().insert(
                "models"@,
                JsonV::Arr(entries_but(network_view(network@), text::views(hidden@))),
            ),
        ),
{
    let mut out: Vec<Json> = Vec::new();
    let ghost e = entries_but(network_view(network@), text::views(hidden@));
    push_entries(&mut out, network, hidden);
    assert(json::items_view(out@) =~= e);
    json::object().with("models", json::array(out))
}

/// The list of a peer that has no server, as OpenAI gives it.
pub fn network_v1_models(network: &Vec<(Json, Json)>, hidden: &Vec<String>) -> (r: Json)
    ensures
        r@ == JsonV::Obj(
            Map::<Seq<char>, JsonV>::empty().insert("object"@, JsonV::Str("list"@)).insert(
                "data"@,
                JsonV::Arr(entries_but(network_view(network@), text::views(hidden@))),
            ),
        ),
{
    let mut out: Vec<Json> = Vec::new();
    let ghost e = entries_but(network_view(network@), text::views(hidden@));
    push_entries(&mut out, network, hidden);
    assert(json::items_view(out@) =~= e);
    json::object().with("object", json::string("list")).with("data", json::array(out))
}

/// The last model of `full` with the name `name`.
pub open spec fn last_named(full: Seq<JsonV>, name: Seq<char>) -> Option<JsonV>
    decreases full.len(),
{
    if full.len() == 0 {
        None
    } else if json::str_field(full.last(), "name"@) == Some(name) {
        Some(full.last())
    } else {
        last_named(full.drop_last(), name)
    }
}

fn find_last<'a>(full: &'a Vec<Json>, name: &str) -> (r: Option<&'a Json>)
    ensures
        json::opt(r) == last_named(json::items_view(full@), name@),
{
    let ghost fv = json::items_view(full@);
    let mut i: usize = full.len();
    assert(fv.take(i as int) =~= fv);
    while i > 0
        invariant
            i <= full@.len(),
            fv == json::items_view(full@),
            last_named(fv, name@) == last_named(fv.take(i as int), name@),
        decreases i,
    {
        assert(fv.take(i as int).drop_last() =~= fv.take(i - 1));
        assert(fv.take(i as int).last() == full@[i - 1]@);
        i -= 1;
        if let Some(n) = full[i].get_str("name") {
            if text::str_eq(n, name) {
                return Some(&full[i]);
            }
        }
    }
    None
}

/// A model of the list, with all that is known of it.
pub open spec fn enriched(m: JsonV, full: Seq<JsonV>) -> JsonV {
    match json::str_field(m, "name"@) {
        Some(n) => match last_named(full, n) {
            Some(e) => e,
            None => m,
        },
        None => m,
    }
}

/// Whether a model of the list is shown: where its name is not hidden.
pub open spec fn tag_shown(m: JsonV, hidden: Seq<Seq<char>>) -> bool {
    match json::str_field(m, "name"@) {
        Some(n) => !hidden.contains(n),
        None => true,
    }
}

/// The list of a peer with servers: their models with all that is known of them,
/// and the models of the network that are not here, but for those that are hidden.
pub open spec fn merged_tags(
    models: Seq<JsonV>,
    network: Seq<NetworkModelV>,
    local_names: Seq<Seq<char>>,
    full: Seq<JsonV>,
    hidden: Seq<Seq<char>>,
) -> Seq<JsonV> {
    (models.map_values(|m: JsonV| enriched(m, full)) + entries_but(network, local_names)).filter(
        |m: JsonV| tag_shown(m, hidden),
    )
}

fn is_tag_shown(m: &Json, hidden: &Vec<String>) -> (r: bool)
    ensures
        r == tag_shown(m@, text::views(hidden@)),
{
    match m.get_str("name") {
        Some(n) => !text::list_has(hidden, n),
        None => true,
    }
}

/// The list of a peer with servers. `tags` is the list of the servers.
pub fn merge_tags(
    tags: Json,
    network: &Vec<(Json, Json)>,
    local_names: &Vec<String>,
    local_full: &Vec<Json>,
    hidden: &Vec<String>,
) -> (r: Json)
    ensures
        r@ == match json::arr_in(json::field(tags@, "models"@)) {
            Some(models) => json::with_field(
                tags@,
                "models"@,
                JsonV::Arr(
                    merged_tags(
                        models,
                        network_view(network@),
                        text::views(local_names@),
                        json::items_view(local_full@),
                        text::views(hidden@),
                    ),
                ),
            ),
            None => tags@,
        },
{
    let models = match tags.get("models") {
        Some(m) => m.as_array(),
        None => None,
    };
    let models = match models {
        Some(m) => m,
        None => {
            return tags;
        },
    };
    let ghost mv = json::items_view(models@);
    let ghost fv = json::items_view(local_full@);
    let ghost hv = text::views(hidden@);
    let mut all: Vec<Json> = Vec::new();
    for i in 0..models.len()
        invariant
            mv == json::items_view(models@),
            fv == json::items_view(local_full@),
            all@.len() == i,
            forall|k: int| 0 <= k < i ==> (#[trigger] all@[k])@ == enriched(mv[k], fv),
    {
        let known = match models[i].get_str("name") {
            Some(n) => find_last(local_full, n),
            None => None,
        };
        let e = match known {
            Some(k) => json::copy(k),
            None => json::copy(&models[i]),
        };
        all.push(e);
    }
    assert(json::items_view(all@) =~= mv.map_values(|m: JsonV| enriched(m, fv)));
    push_entries(&mut all, network, local_names);
    let ghost av = json::items_view(all@);
    let ghost keep = |m: JsonV| tag_shown(m, hv);
    let mut out: Vec<Json> = Vec::new();
    reveal(Seq::filter);
    assert(json::items_view(out@) =~= av.take(0).filter(keep));
    for i in 0..all.len()
        invariant
            av == json::items_view(all@),
            hv == text::views(hidden@),
            keep == (|m: JsonV| tag_shown(m, hv)),
            json::items_view(out@) == av.take(i as int).filter(keep),
    {
        reveal(Seq::filter);
        proof {
            assert(av.take(i as int + 1).drop_last() =~= av.take(i as int));
            assert(av[i as int] == all@[i as int]@);
        }
        if is_tag_shown(&all[i], hidden) {
            let e = json::copy(&all[i]);
            proof {
                json::lemma_items_push(out@, e);
            }
            out.push(e);
        }
    }
    assert(av.take(av.len() as int) =~= av);
    let mut tags = tags;
    tags.set("models", json::array(out));
    tags
}

/// Whom a model of the network belongs to, by the networks that have it.
pub open spec fn owner(scope: Option<Seq<char>>) -> Seq<char> {
    match scope {
        Some(s) => if s == "swarm"@ {
            "swarm"@
        } else if s == "cluster"@ {
            "cluster"@
        } else if s == "both"@ {
            "network"@
        } else {
            "community"@
        },
        None => "community"@,
    }
}

/// A model of the network as OpenAI lists it.
pub fn remote_v1_model(name: &str, scope: Option<&str>) -> (r: Json)
    ensures
        r@ == JsonV::Obj(
            Map::<Seq<char>, JsonV>::empty().insert("id"@, JsonV::Str(name@)).insert(
                "name"@,
                JsonV::Str(name@),
            ).insert("object"@, JsonV::Str("model"@)).insert("created"@, JsonV::Int(0)).insert(
                "owned_by"@,
                JsonV::Str(owner(json::opt_str(scope))),
            ),
        ),
{
    let owned_by = match scope {
        Some(s) => if text::str_eq(s, "swarm") {
            "swarm"
        } else if text::str_eq(s, "cluster") {
            "cluster"
        } else if text::str_eq(s, "both") {
            "network"
        } else {
            "community"
        },
        None => "community",
    };
    json::object().with("id", json::string(name)).with("name", json::string(name)).with(
        "object",
        json::string("model"),
    ).with("created", Json::UInt(0)).with("owned_by", json::string(owned_by))
}

/// The first entry with the id `id`.
pub open spec fn entry_at(data: Seq<JsonV>, id: Seq<char>) -> Option<int>
    decreases data.len(),
{
    if data.len() == 0 {
        None
    } else if json::str_field(data[0], "id"@) == Some(id) {
        Some(0)
    } else {
        match entry_at(data.skip(1), id) {
            Some(i) => Some(i + 1),
            None => None,
        }
    }
}

/// The entries `data` with what the model `m` says of its state.
pub open spec fn with_status(data: Seq<JsonV>, m: JsonV) -> Seq<JsonV> {
    match json::str_field(m, "name"@) {
        Some(n) => match (entry_at(data, n), json::field(m, "_status"@)) {
            (Some(i), Some(s)) => data.update(i, json::with_field(data[i], "_status"@, s)),
            _ => data,
        },
        None => data,
    }
}

/// The entries `data` with what the models of `full` say of their states.
pub open spec fn with_statuses(data: Seq<JsonV>, full: Seq<JsonV>) -> Seq<JsonV>
    decreases full.len(),
{
    if full.len() == 0 {
        data
    } else {
        with_status(with_statuses(data, full.drop_last()), full.last())
    }
}

/// Whether an entry is shown: where its id, or else its name, is not hidden.
pub open spec fn entry_shown(e: JsonV, hidden: Seq<Seq<char>>) -> bool {
    let id = json::str_field(e, "id"@);
    let name = if id is Some {
        id
    } else {
        json::str_field(e, "name"@)
    };
    match name {
        Some(n) => !hidden.contains(n),
        None => true,
    }
}

/// The list of a peer with servers, as OpenAI gives it.
pub open spec fn merged_v1(
    data: Seq<JsonV>,
    network: Seq<NetworkModelV>,
    local_names: Seq<Seq<char>>,
    full: Seq<JsonV>,
    hidden: Seq<Seq<char>>,
) -> Seq<JsonV> {
    with_statuses(data + entries_but(network, local_names), full).filter(
        |e: JsonV| entry_shown(e, hidden),
    )
}

fn find_entry(data: &Vec<Json>, id: &str) -> (r: Option<usize>)
    ensures
        match r {
            Some(i) => entry_at(json::items_view(data@), id@) == Some(i as int) && i < data@.len(),
            None => entry_at(json::items_view(data@), id@) is None,
        },
{
    let ghost dv = json::items_view(data@);
    assert(dv.skip(0) =~= dv);
    for i in 0..data.len()
        invariant
            dv == json::items_view(data@),
            match entry_at(dv.skip(i as int), id@) {
                Some(k) => entry_at(dv, id@) == Some(i + k),
                None => entry_at(dv, id@) is None,
            },
    {
        assert(dv.skip(i as int)[0] == data@[i as int]@);
        assert(dv.skip(i as int).skip(1) =~= dv.skip(i as int + 1));
        if let Some(n) = data[i].get_str("id") {
            if text::str_eq(n, id) {
                return Some(i);
            }
        }
    }
    None
}

fn put_status(data: &mut Vec<Json>, m: &Json)
    ensures
        json::items_view(final(data)@) == with_status(json::items_view(old(data)@), m@),
{
    if let Some(n) = m.get_str("name") {
        if let Some(i) = find_entry(data, n) {
            if let Some(s) = m.get("_status") {
                let ghost before = data@;
                let status = json::copy(s);
                let e = json::copy(&data[i]).with("_status", status);
                data.set(i, e);
                assert(json::items_view(data@) =~= json::items_view(before).update(i as int, e@));
            }
        }
    }
}

fn is_entry_shown(e: &Json, hidden: &Vec<String>) -> (r: bool)
    ensures
        r == entry_shown(e@, text::views(hidden@)),
{
    if let Some(n) = e.get_str("id") {
        return !text::list_has(hidden, n);
    }
    match e.get_str("name") {
        Some(n) => !text::list_has(hidden, n),
        None => true,
    }
}

/// The list of a peer with servers, as OpenAI gives it. `list` is the list of the
/// servers.
pub fn merge_v1_models(
    list: Json,
    network: &Vec<(Json, Json)>,
    local_names: &Vec<String>,
    local_full: &Vec<Json>,
    hidden: &Vec<String>,
) -> (r: Json)
    ensures
        r@ == match json::arr_in(json::field(list@, "data"@)) {
            Some(data) => json::with_field(
                list@,
                "data"@,
                JsonV::Arr(
                    merged_v1(
                        data,
                        network_view(network@),
                        text::views(local_names@),
                        json::items_view(local_full@),
                        text::views(hidden@),
                    ),
                ),
            ),
            None => list@,
        },
{
    let data = match list.get("data") {
        Some(d) => d.as_array(),
        None => None,
    };
    let data = match data {
        Some(d) => d,
        None => {
            return list;
        },
    };
    let ghost dv = json::items_view(data@);
    let ghost fv = json::items_view(local_full@);
    let ghost hv = text::views(hidden@);
    let mut all: Vec<Json> = Vec::new();
    for i in 0..data.len()
        invariant
            all@.len() == i,
            forall|k: int| 0 <= k < i ==> (#[trigger] all@[k])@ == data@[k]@,
    {
        all.push(json::copy(&data[i]));
    }
    assert(json::items_view(all@) =~= dv);
    push_entries(&mut all, network, local_names);
    let ghost base = json::items_view(all@);
    assert(with_statuses(base, fv.take(0)) == base);
    for i in 0..local_full.len()
        invariant
            fv == json::items_view(local_full@),
            json::items_view(all@) == with_statuses(base, fv.take(i as int)),
    {
        proof {
            assert(fv.take(i as int + 1).drop_last() =~= fv.take(i as int));
            assert(fv.take(i as int + 1).last() == local_full@[i as int]@);
        }
        put_status(&mut all, &local_full[i]);
    }
    assert(fv.take(fv.len() as int) =~= fv);
    let ghost av = json::items_view(all@);
    let ghost keep = |e: JsonV| entry_shown(e, hv);
    let mut out: Vec<Json> = Vec::new();
    reveal(Seq::filter);
    assert(json::items_view(out@) =~= av.take(0).filter(keep));
    for i in 0..all.len()
        invariant
            av == json::items_view(all@),
            hv == text::views(hidden@),
            keep == (|e: JsonV| entry_shown(e, hv)),
            json::items_view(out@) == av.take(i as int).filter(keep),
    {
        reveal(Seq::filter);
        proof {
            assert(av.take(i as int + 1).drop_last() =~= av.take(i as int));
            assert(av[i as int] == all@[i as int]@);
        }
        if is_entry_shown(&all[i], hidden) {
            let e = json::copy(&all[i]);
            proof {
                json::lemma_items_push(out@, e);
            }
            out.push(e);
        }
    }
    assert(av.take(av.len() as int) =~= av);
    let mut list = list;
    list.set("data", json::array(out));
    list
}

/// No model whose name is hidden is in the list.
pub proof fn law_hidden_is_not_listed(
    models: Seq<JsonV>,
    network: Seq<NetworkModelV>,
    local_names: Seq<Seq<char>>,
    full: Seq<JsonV>,
    hidden: Seq<Seq<char>>,
    i: int,
)
    requires
        0 <= i < merged_tags(models, network, local_names, full, hidden).len(),
    ensures
        ({
            let name = json::str_field(
                merged_tags(models, network, local_names, full, hidden)[i],
                "name"@,
            );
            name matches Some(n) ==> !hidden.contains(n)
        }),
{
    broadcast use vstd::seq_lib::group_filter_ensures;

    let keep = |m: JsonV| tag_shown(m, hidden);
    let all = models.map_values(|m: JsonV| enriched(m, full)) + entries_but(network, local_names);
    assert(keep(all.filter(keep)[i]));
}

/// No model whose id is hidden is in the list as OpenAI gives it.
pub proof fn law_hidden_is_not_listed_v1(
    data: Seq<JsonV>,
    network: Seq<NetworkModelV>,
    local_names: Seq<Seq<char>>,
    full: Seq<JsonV>,
    hidden: Seq<Seq<char>>,
    i: int,
)
    requires
        0 <= i < merged_v1(data, network, local_names, full, hidden).len(),
    ensures
        ({
            let id = json::str_field(
                merged_v1(data, network, local_names, full, hidden)[i],
                "id"@,
            );
            id matches Some(n) ==> !hidden.contains(n)
        }),
{
    broadcast use vstd::seq_lib::group_filter_ensures;

    let keep = |e: JsonV| entry_shown(e, hidden);
    let all = with_statuses(data + entries_but(network, local_names), full);
    assert(keep(all.filter(keep)[i]));
}

proof fn lemma_entries_but(v: Seq<NetworkModelV>, except: Seq<Seq<char>>)
    ensures
        forall|i: int|
            0 <= i < v.len() ==> (json::str_field((#[trigger] v[i]).model, "name"@) matches Some(n)
                ==> (!except.contains(n) ==> entries_but(v, except).contains(v[i].entry))),
        forall|k: int|
            0 <= k < entries_but(v, except).len() ==> exists|i: int|
                0 <= i < v.len() && (#[trigger] v[i]).entry == #[trigger] entries_but(v, except)[k]
                    && (json::str_field(v[i].model, "name"@) matches Some(n) && !except.contains(
                    n,
                )),
    decreases v.len(),
{
    if v.len() > 0 {
        let front = v.drop_last();
        lemma_entries_but(front, except);
        let before = entries_but(front, except);
        let all = entries_but(v, except);
        assert forall|i: int| 0 <= i < v.len() implies (json::str_field(
            (#[trigger] v[i]).model,
            "name"@,
        ) matches Some(n) ==> (!except.contains(n) ==> all.contains(v[i].entry))) by {
            if let Some(n) = json::str_field(v[i].model, "name"@) {
                if !except.contains(n) {
                    if i < front.len() {
                        assert(front[i] == v[i]);
                        let k = choose|k: int| 0 <= k < before.len() && before[k] == v[i].entry;
                        assert(all[k] == v[i].entry);
                    } else {
                        assert(all[all.len() - 1] == v[i].entry);
                    }
                }
            }
        }
        assert forall|k: int| 0 <= k < all.len() implies exists|i: int|
            0 <= i < v.len() && (#[trigger] v[i]).entry == #[trigger] all[k] && (json::str_field(
                v[i].model,
                "name"@,
            ) matches Some(n) && !except.contains(n)) by {
            if k < before.len() {
                assert(all[k] == before[k]);
                let i = choose|i: int|
                    0 <= i < front.len() && (#[trigger] front[i]).entry == before[k] && (
                    json::str_field(front[i].model, "name"@) matches Some(n) && !except.contains(
                        n,
                    ));
                assert(v[i] == front[i]);
            } else {
                assert(v[v.len() - 1].entry == all[k]);
            }
        }
    }
}

proof fn lemma_last_named(full: Seq<JsonV>, name: Seq<char>)
    ensures
        last_named(full, name) matches Some(e) ==> json::field(e, "name"@) == Some(
            JsonV::Str(name),
        ) && full.contains(e),
        last_named(full, name) is None ==> forall|i: int|
            0 <= i < full.len() ==> json::field(#[trigger] full[i], "name"@) != Some(
                JsonV::Str(name),
            ),
    decreases full.len(),
{
    if full.len() > 0 {
        let front = full.drop_last();
        lemma_last_named(front, name);
        if json::str_field(full.last(), "name"@) == Some(name) {
            assert(full[full.len() - 1] == full.last());
        } else {
            if let Some(e) = last_named(front, name) {
                let k = choose|k: int| 0 <= k < front.len() && front[k] == e;
                assert(full[k] == e);
            } else {
                assert forall|i: int| 0 <= i < full.len() implies json::field(
                    #[trigger] full[i],
                    "name"@,
                ) != Some(JsonV::Str(name)) by {
                    if i < front.len() {
                        assert(front[i] == full[i]);
                    }
                }
            }
        }
    }
}

/// A model of the peer's own servers is listed unless it is hidden: with what is known
/// of it in full, or else as the server lists it.
pub proof fn law_own_model_is_listed(
    models: Seq<JsonV>,
    network: Seq<NetworkModelV>,
    local_names: Seq<Seq<char>>,
    full: Seq<JsonV>,
    hidden: Seq<Seq<char>>,
    i: int,
    name: Seq<char>,
)
    requires
        0 <= i < models.len(),
        json::field(models[i], "name"@) == Some(JsonV::Str(name)),
        !hidden.contains(name),
    ensures
        exists|e: JsonV| #[trigger]
            merged_tags(models, network, local_names, full, hidden).contains(e) && json::field(
                e,
                "name"@,
            ) == Some(JsonV::Str(name)),
        (forall|k: int|
            0 <= k < full.len() ==> json::field(#[trigger] full[k], "name"@) != Some(
                JsonV::Str(name),
            )) ==> merged_tags(models, network, local_names, full, hidden).contains(models[i]),
{
    broadcast use vstd::seq_lib::group_filter_ensures;

    let keep = |m: JsonV| tag_shown(m, hidden);
    let own = models.map_values(|m: JsonV| enriched(m, full));
    let all = own + entries_but(network, local_names);
    lemma_last_named(full, name);
    let e = enriched(models[i], full);
    assert(all[i] == own[i]);
    assert(own[i] == e);
    assert(json::field(e, "name"@) == Some(JsonV::Str(name)));
    assert(keep(all[i]));
    assert(all.filter(keep).contains(all[i]));
    assert(merged_tags(models, network, local_names, full, hidden).contains(e));
    if forall|k: int|
        0 <= k < full.len() ==> json::field(#[trigger] full[k], "name"@) != Some(JsonV::Str(name)) {
        if let Some(other) = last_named(full, name) {
            let k = choose|k: int| 0 <= k < full.len() && full[k] == other;
            assert(json::field(full[k], "name"@) == Some(JsonV::Str(name)));
        }
        assert(e == models[i]);
    }
}

/// A model that only the network has is listed unless it is hidden, and one that the
/// peer has itself is not listed a second time for the network: every entry of the list
/// is one of its own servers or a network model that it does not have.
pub proof fn law_network_model_is_listed_once(
    models: Seq<JsonV>,
    network: Seq<NetworkModelV>,
    local_names: Seq<Seq<char>>,
    full: Seq<JsonV>,
    hidden: Seq<Seq<char>>,
    i: int,
    name: Seq<char>,
)
    requires
        0 <= i < network.len(),
        json::field(network[i].model, "name"@) == Some(JsonV::Str(name)),
        json::field(network[i].entry, "name"@) == Some(JsonV::Str(name)),
        !local_names.contains(name),
        !hidden.contains(name),
    ensures
        merged_tags(models, network, local_names, full, hidden).contains(network[i].entry),
        forall|k: int|
            0 <= k < merged_tags(models, network, local_names, full, hidden).len() ==> {
                let e = #[trigger] merged_tags(models, network, local_names, full, hidden)[k];
                ||| exists|j: int|
                    0 <= j < models.len() && e == enriched(#[trigger] models[j], full)
                ||| exists|j: int|
                    0 <= j < network.len() && e == (#[trigger] network[j]).entry && (
                    json::str_field(network[j].model, "name"@) matches Some(n)
                        && !local_names.contains(n))
            },
{
    broadcast use vstd::seq_lib::group_filter_ensures;

    let keep = |m: JsonV| tag_shown(m, hidden);
    let own = models.map_values(|m: JsonV| enriched(m, full));
    let others = entries_but(network, local_names);
    let all = own + others;
    lemma_entries_but(network, local_names);
    let k = choose|k: int| 0 <= k < others.len() && others[k] == network[i].entry;
    assert(all[own.len() + k] == others[k]);
    assert(keep(all[own.len() + k]));
    assert(all.filter(keep).contains(all[own.len() + k]));
    let listed = all.filter(keep);
    assert forall|k: int| 0 <= k < listed.len() implies {
        let e = #[trigger] listed[k];
        ||| exists|j: int| 0 <= j < models.len() && e == enriched(#[trigger] models[j], full)
        ||| exists|j: int|
            0 <= j < network.len() && e == (#[trigger] network[j]).entry && (json::str_field(
                network[j].model,
                "name"@,
            ) matches Some(n) && !local_names.contains(n))
    } by {
        lemma_filter_from(all, keep);
        let m = choose|m: int| 0 <= m < all.len() && #[trigger] all[m] == listed[k];
        if m < own.len() {
            assert(all[m] == own[m]);
            assert(own[m] == enriched(models[m], full));
        } else {
            assert(all[m] == others[m - own.len()]);
            let j = choose|j: int|
                0 <= j < network.len() && (#[trigger] network[j]).entry == others[m - own.len()]
                    && (json::str_field(network[j].model, "name"@) matches Some(n)
                    && !local_names.contains(n));
            assert(network[j].entry == listed[k]);
        }
    }
}

proof fn lemma_filter_from(s: Seq<JsonV>, keep: spec_fn(JsonV) -> bool)
    ensures
        forall|k: int|
            0 <= k < s.filter(keep).len() ==> exists|m: int|
                0 <= m < s.len() && #[trigger] s[m] == #[trigger] s.filter(keep)[k],
    decreases s.len(),
{
    reveal(Seq::filter);
    if s.len() > 0 {
        let front = s.drop_last();
        lemma_filter_from(front, keep);
        let f = s.filter(keep);
        assert forall|k: int| 0 <= k < f.len() implies exists|m: int|
            0 <= m < s.len() && #[trigger] s[m] == #[trigger] f[k] by {
            if k < front.filter(keep).len() {
                assert(f[k] == front.filter(keep)[k]);
                let m = choose|m: int| 0 <= m < front.len() && #[trigger] front[m] == f[k];
                assert(s[m] == f[k]);
            } else {
                assert(s[s.len() - 1] == f[k]);
            }
        }
    }
}

/// A list is that of the peer's own servers, and behind it that of the network: each is
/// as it is without the other.
pub proof fn law_own_models_come_first(
    models: Seq<JsonV>,
    network: Seq<NetworkModelV>,
    local_names: Seq<Seq<char>>,
    full: Seq<JsonV>,
    hidden: Seq<Seq<char>>,
)
    ensures
        merged_tags(models, network, local_names, full, hidden) == merged_tags(
            models,
            Seq::empty(),
            local_names,
            full,
            hidden,
        ) + merged_tags(Seq::empty(), network, local_names, full, hidden),
{
    let keep = |m: JsonV| tag_shown(m, hidden);
    let own = models.map_values(|m: JsonV| enriched(m, full));
    let others = entries_but(network, local_names);
    Seq::filter_distributes_over_add(own, others, keep);
    assert(own + entries_but(Seq::empty(), local_names) =~= own);
    let none = Seq::<JsonV>::empty().map_values(|m: JsonV| enriched(m, full));
    assert(none + others =~= others);
}

proof fn lemma_entry_at(data: Seq<JsonV>, id: Seq<char>)
    ensures
        match entry_at(data, id) {
            Some(i) => 0 <= i < data.len() && json::field(data[i], "id"@) == Some(JsonV::Str(id))
                && forall|j: int|
                0 <= j < i ==> json::field(#[trigger] data[j], "id"@) != Some(JsonV::Str(id)),
            None => forall|j: int|
                0 <= j < data.len() ==> json::field(#[trigger] data[j], "id"@) != Some(
                    JsonV::Str(id),
                ),
        },
    decreases data.len(),
{
    if data.len() > 0 && json::str_field(data[0], "id"@) != Some(id) {
        let rest = data.skip(1);
        lemma_entry_at(rest, id);
        assert forall|j: int|
            0 <= j < data.len() && (entry_at(rest, id) matches Some(i) ==> j < i + 1) implies
            json::field(#[trigger] data[j], "id"@) != Some(JsonV::Str(id)) by {
            if j > 0 {
                assert(rest[j - 1] == data[j]);
            }
        }
    }
}

proof fn lemma_statuses_keep(data: Seq<JsonV>, full: Seq<JsonV>)
    ensures
        with_statuses(data, full).len() == data.len(),
        forall|i: int, k: Seq<char>|
            0 <= i < data.len() && k != "_status"@ ==> #[trigger] json::field(
                with_statuses(data, full)[i],
                k,
            ) == json::field(data[i], k),
    decreases full.len(),
{
    if full.len() > 0 {
        let before = with_statuses(data, full.drop_last());
        lemma_statuses_keep(data, full.drop_last());
        let m = full.last();
        if let Some(n) = json::str_field(m, "name"@) {
            lemma_entry_at(before, n);
        }
        let after = with_statuses(data, full);
        assert forall|i: int, k: Seq<char>|
            0 <= i < data.len() && k != "_status"@ implies #[trigger] json::field(after[i], k)
            == json::field(data[i], k) by {
            assert(json::field(before[i], k) == json::field(data[i], k));
            assert(json::field(after[i], k) == json::field(before[i], k));
        }
    }
}

/// What a server lists stays: with statuses put in, each entry is where it was and says
/// everything else as before.
pub proof fn law_statuses_change_nothing_else(data: Seq<JsonV>, full: Seq<JsonV>)
    ensures
        with_statuses(data, full).len() == data.len(),
        forall|i: int, k: Seq<char>|
            0 <= i < data.len() && k != "_status"@ ==> #[trigger] json::field(
                with_statuses(data, full)[i],
                k,
            ) == json::field(data[i], k),
{
    lemma_statuses_keep(data, full);
}

/// A model's status is shown at its entry, the first under its name: the last that is
/// known of it counts.
pub proof fn law_status_is_shown(
    data: Seq<JsonV>,
    full: Seq<JsonV>,
    m: JsonV,
    i: int,
    entry: Map<Seq<char>, JsonV>,
    name: Seq<char>,
    status: JsonV,
)
    requires
        0 <= i < data.len(),
        data[i] == JsonV::Obj(entry),
        json::field(data[i], "id"@) == Some(JsonV::Str(name)),
        forall|j: int|
            0 <= j < i ==> json::field(#[trigger] data[j], "id"@) != Some(JsonV::Str(name)),
        json::field(m, "name"@) == Some(JsonV::Str(name)),
        json::field(m, "_status"@) == Some(status),
    ensures
        json::field(with_statuses(data, full.push(m))[i], "_status"@) == Some(status),
{
    let before = with_statuses(data, full);
    lemma_statuses_keep(data, full);
    assert(full.push(m).drop_last() =~= full);
    lemma_entry_at(before, name);
    assert("id"@ != "_status"@) by {
        reveal_strlit("id");
        reveal_strlit("_status");
        assert("id"@.len() != "_status"@.len());
    }
    assert(json::field(before[i], "id"@) == json::field(data[i], "id"@));
    let at = entry_at(before, name)->0;
    assert(at == i) by {
        if at < i {
            assert(json::field(before[at], "id"@) == json::field(data[at], "id"@));
        }
    }
    assert(before[i] is Obj);
}

/// An entry of a server is in OpenAI's list unless it is hidden, and so is that of a
/// network model that the peer does not have.
pub proof fn law_shown_entry_is_listed_v1(
    data: Seq<JsonV>,
    network: Seq<NetworkModelV>,
    local_names: Seq<Seq<char>>,
    full: Seq<JsonV>,
    hidden: Seq<Seq<char>>,
    e: JsonV,
    id: Seq<char>,
)
    requires
        json::field(e, "id"@) == Some(JsonV::Str(id)),
        !hidden.contains(id),
        data.contains(e) || exists|i: int|
            0 <= i < network.len() && (#[trigger] network[i]).entry == e && (json::str_field(
                network[i].model,
                "name"@,
            ) matches Some(n) && !local_names.contains(n)),
    ensures
        exists|shown: JsonV| #[trigger]
            merged_v1(data, network, local_names, full, hidden).contains(shown) && (forall|
                k: Seq<char>,
            |
                k != "_status"@ ==> #[trigger] json::field(shown, k) == json::field(e, k)),
{
    broadcast use vstd::seq_lib::group_filter_ensures;

    let keep = |x: JsonV| entry_shown(x, hidden);
    let others = entries_but(network, local_names);
    let joined = data + others;
    lemma_entries_but(network, local_names);
    let k = if data.contains(e) {
        choose|k: int| 0 <= k < data.len() && data[k] == e
    } else {
        let i = choose|i: int|
            0 <= i < network.len() && (#[trigger] network[i]).entry == e && (json::str_field(
                network[i].model,
                "name"@,
            ) matches Some(n) && !local_names.contains(n));
        let j = choose|j: int| 0 <= j < others.len() && others[j] == network[i].entry;
        data.len() + j
    };
    assert(joined[k] == e);
    lemma_statuses_keep(joined, full);
    let all = with_statuses(joined, full);
    let shown = all[k];
    assert("id"@ != "_status"@) by {
        reveal_strlit("id");
        reveal_strlit("_status");
        assert("id"@.len() != "_status"@.len());
    }
    assert(json::field(shown, "id"@) == json::field(joined[k], "id"@));
    assert(keep(all[k]));
    assert(all.filter(keep).contains(all[k]));
    assert forall|key: Seq<char>| key != "_status"@ implies #[trigger] json::field(shown, key)
        == json::field(e, key) by {
        assert(json::field(all[k], key) == json::field(joined[k], key));
    }
    assert(merged_v1(data, network, local_names, full, hidden).contains(shown));
}

/// An entry is hidden by its id, and where it has none by its name; an entry that has
/// neither is shown.
pub proof fn law_entry_is_hidden_by_its_name(e: JsonV, hidden: Seq<Seq<char>>, n: Seq<char>)
    ensures
        json::field(e, "id"@) == Some(JsonV::Str(n)) ==> (entry_shown(e, hidden)
            <==> !hidden.contains(n)),
        json::field(e, "id"@) is None && json::field(e, "name"@) == Some(JsonV::Str(n)) ==> (
        entry_shown(e, hidden) <==> !hidden.contains(n)),
        json::field(e, "id"@) is None && json::field(e, "name"@) is None ==> entry_shown(e, hidden),
{
}

} // verus!
