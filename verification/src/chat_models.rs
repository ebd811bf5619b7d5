//! The models that a user can chat with.

use crate::client_config::servers;
use crate::json;
use crate::json::{Json, JsonV};
use crate::text;
use vstd::prelude::*;

verus! {

/// Whether a server of the kind `kind` stands elsewhere, though it is attached
/// here.
pub open spec fn is_hosted(kind: Seq<char>) -> bool {
    let k = text::lower(kind);
    k == "openai"@ || servers::is_custom(k)
}

/// Whether a server of the kind `kind` stands elsewhere, though it is attached
/// here.
pub fn is_hosted_remote_kind(kind: &str) -> (r: bool)
    ensures
        r == is_hosted(kind@),
{
    let k = text::to_lower(kind);
    text::str_eq(&k, "openai") || servers::is_custom_server_kind(&k)
}

/// A model that a user can chat with.
#[derive(Debug, Clone, PartialEq, Eq)]
pub struct ChatModelEntry {
    pub name: String,
    /// `local` or `remote`.
    pub location: String,
    pub source_kind: String,
    pub source_label: String,
    pub loaded: Option<bool>,
}

/// What a [`ChatModelEntry`] says.
pub struct ChatModelV {
    pub name: Seq<char>,
    pub location: Seq<char>,
    pub source_kind: Seq<char>,
    pub source_label: Seq<char>,
    pub loaded: Option<bool>,
}

impl View for ChatModelEntry {
    type V = ChatModelV;

    open spec fn view(&self) -> ChatModelV {
        ChatModelV {
            name: self.name@,
            location: self.location@,
            source_kind: self.source_kind@,
            source_label: self.source_label@,
            loaded: self.loaded,
        }
    }
}

/// The name of a model, where it is not empty.
pub open spec fn name_of(m: JsonV) -> Option<Seq<char>> {
    match json::str_field(m, "name"@) {
        Some(n) => if n.len() > 0 {
            Some(n)
        } else {
            None
        },
        None => None,
    }
}

/// Whether a list has the text `s`.
pub open spec fn has_text(v: Seq<JsonV>, s: Seq<char>) -> bool {
    v.contains(JsonV::Str(s))
}

fn list_has_text(v: &Vec<Json>, s: &str) -> (r: bool)
    ensures
        r == has_text(json::items_view(v@), s@),
{
    let ghost vv = json::items_view(v@);
    for i in 0..v.len()
        invariant
            vv == json::items_view(v@),
            forall|k: int| 0 <= k < i ==> #[trigger] vv[k] != JsonV::Str(s@),
    {
        assert(vv[i as int] == v@[i as int]@);
        if let Some(t) = v[i].as_str() {
            if text::str_eq(t, s) {
                assert(vv[i as int] == JsonV::Str(s@));
                return true;
            }
        }
    }
    false
}

/// Whether a model only makes embeddings, by what it says that it can do.
pub open spec fn embeds_only(info: JsonV) -> bool {
    match json::arr_in(json::field(info, "capabilities"@)) {
        Some(c) => has_text(c, "embedding"@) && !has_text(c, "completion"@),
        None => false,
    }
}

/// Whether a model only makes embeddings, by what it says that it can do.
pub fn is_embed_only(info: &Json) -> (r: bool)
    ensures
        r == embeds_only(info@),
{
    let caps = match info.get("capabilities") {
        Some(c) => c.as_array(),
        None => None,
    };
    match caps {
        Some(c) => list_has_text(c, "embedding") && !list_has_text(c, "completion"),
        None => false,
    }
}

/// Whether a user can chat with a model: where it does not say otherwise.
pub open spec fn can_chat(m: JsonV) -> bool {
    match json::field(m, "_show_info"@) {
        Some(s) => if json::field(s, "capabilities"@) is Some {
            !embeds_only(s)
        } else {
            !embeds_only(m)
        },
        None => !embeds_only(m),
    }
}

fn is_chat_capable(m: &Json) -> (r: bool)
    ensures
        r == can_chat(m@),
{
    if let Some(s) = m.get("_show_info") {
        if s.get("capabilities").is_some() {
            return !is_embed_only(s);
        }
    }
    !is_embed_only(m)
}

/// Whether a model says that it is loaded.
pub open spec fn loaded_in(m: JsonV) -> Option<bool> {
    match json::field(m, "_status"@) {
        Some(s) => json::bool_in(json::field(s, "loaded"@)),
        None => None,
    }
}

fn loaded_flag(m: &Json) -> (r: Option<bool>)
    ensures
        r == loaded_in(m@),
{
    match m.get("_status") {
        Some(s) => match s.get("loaded") {
            Some(b) => b.as_bool(),
            None => None,
        },
        None => None,
    }
}

/// A server: its id, its kind and its label.
pub struct ServerNameV {
    pub id: Seq<char>,
    pub kind: Seq<char>,
    pub label: Option<Seq<char>>,
}

/// What a list of servers says.
pub open spec fn server_names(v: Seq<(String, String, Option<String>)>) -> Seq<ServerNameV> {
    v.map_values(
        |s: (String, String, Option<String>)|
            ServerNameV { id: s.0@, kind: s.1@, label: text::opt_view(s.2) },
    )
}

/// The first server with the id `id`.
pub open spec fn server_with(v: Seq<ServerNameV>, id: Seq<char>) -> Option<ServerNameV>
    decreases v.len(),
{
    if v.len() == 0 {
        None
    } else if v[0].id == id {
        Some(v[0])
    } else {
        server_with(v.skip(1), id)
    }
}

/// The text `s`, or else `d`.
pub open spec fn text_or(s: Option<Seq<char>>, d: Seq<char>) -> Seq<char> {
    match s {
        Some(t) => t,
        None => d,
    }
}

/// What the source of a local model is called: by the label of its server, or
/// else by its kind.
pub open spec fn label_for(m: JsonV, v: Seq<ServerNameV>) -> Seq<char> {
    let kind = text_or(json::str_field(m, "_source_kind"@), "local"@);
    match server_with(v, text_or(json::str_field(m, "_source_server"@), Seq::empty())) {
        Some(s) => match s.label {
            Some(l) => if l.len() > 0 {
                l
            } else if s.kind.len() > 0 {
                s.kind
            } else {
                kind
            },
            None => if s.kind.len() > 0 {
                s.kind
            } else {
                kind
            },
        },
        None => kind,
    }
}

fn server_label_for(m: &Json, servers: &Vec<(String, String, Option<String>)>) -> (r: String)
    ensures
        r@ == label_for(m@, server_names(servers@)),
{
    let kind = match m.get_str("_source_kind") {
        Some(k) => text::copy(k),
        None => text::copy("local"),
    };
    let id = match m.get_str("_source_server") {
        Some(s) => text::copy(s),
        None => String::new(),
    };
    assert(id@ == text_or(json::str_field(m@, "_source_server"@), Seq::empty()));
    let ghost v = server_names(servers@);
    assert(v.skip(0) =~= v);
    for i in 0..servers.len()
        invariant
            v == server_names(servers@),
            kind@ == text_or(json::str_field(m@, "_source_kind"@), "local"@),
            id@ == text_or(json::str_field(m@, "_source_server"@), Seq::empty()),
            server_with(v, id@) == server_with(v.skip(i as int), id@),
    {
        proof {
            let s = servers@[i as int];
            assert(v.skip(i as int)[0] == (ServerNameV {
                id: s.0@,
                kind: s.1@,
                label: text::opt_view(s.2),
            }));
            assert(v.skip(i as int).skip(1) =~= v.skip(i as int + 1));
        }
        if text::str_eq(&servers[i].0, &id) {
            if let Some(l) = &servers[i].2 {
                if !l.as_str().is_empty() {
                    return text::copy(l);
                }
            }
            if !servers[i].1.as_str().is_empty() {
                return text::copy(&servers[i].1);
            }
            return kind;
        }
    }
    kind
}

/// The name under `name`, where it is not empty, or else the id under `id`, or
/// else `d`.
pub open spec fn named(j: JsonV, id: Seq<char>, d: Seq<char>) -> Seq<char> {
    match json::str_field(j, "name"@) {
        Some(n) => if n.len() > 0 {
            n
        } else {
            text_or(json::str_field(j, id), d)
        },
        None => text_or(json::str_field(j, id), d),
    }
}

fn named_of(j: &Json, id: &str, d: &str) -> (r: String)
    ensures
        r@ == named(j@, id@, d@),
{
    if let Some(n) = j.get_str("name") {
        if !n.is_empty() {
            return text::copy(n);
        }
    }
    match j.get_str(id) {
        Some(s) => text::copy(s),
        None => text::copy(d),
    }
}

/// The first item of the list under `k`.
pub open spec fn first_under(m: JsonV, k: Seq<char>) -> Option<JsonV> {
    match json::field(m, k) {
        Some(v) => json::item_at(v, 0),
        None => None,
    }
}

fn first_item<'a>(m: &'a Json, k: &str) -> (r: Option<&'a Json>)
    ensures
        json::opt(r) == first_under(m@, k@),
{
    match m.get(k) {
        Some(v) => v.item(0),
        None => None,
    }
}

/// Where a model of the network comes from: the kind and the name of its source.
pub open spec fn network_source_of(m: JsonV) -> (Seq<char>, Seq<char>) {
    match (
        first_under(m, "_clusters"@),
        json::str_field(m, "_cluster_id"@),
        first_under(m, "_swarms"@),
        json::str_field(m, "_swarm_id"@),
    ) {
        (Some(c), _, _, _) => ("cluster"@, named(c, "cluster_id"@, "cluster"@)),
        (None, Some(id), _, _) => ("cluster"@, id),
        (None, None, Some(s), _) => ("swarm"@, named(s, "swarm_id"@, "swarm"@)),
        (None, None, None, Some(id)) => ("swarm"@, id),
        (None, None, None, None) => ("network"@, "Network"@),
    }
}

fn network_source(m: &Json) -> (r: (String, String))
    ensures
        (r.0@, r.1@) == network_source_of(m@),
{
    if let Some(c) = first_item(m, "_clusters") {
        return (text::copy("cluster"), named_of(c, "cluster_id", "cluster"));
    }
    if let Some(id) = m.get_str("_cluster_id") {
        return (text::copy("cluster"), text::copy(id));
    }
    if let Some(s) = first_item(m, "_swarms") {
        return (text::copy("swarm"), named_of(s, "swarm_id", "swarm"));
    }
    if let Some(id) = m.get_str("_swarm_id") {
        return (text::copy("swarm"), text::copy(id));
    }
    (text::copy("network"), text::copy("Network"))
}

/// The local model `m` with the name `name`.
pub open spec fn local_entry(m: JsonV, name: Seq<char>, v: Seq<ServerNameV>) -> ChatModelV {
    let kind = text_or(json::str_field(m, "_source_kind"@), "local"@);
    ChatModelV {
        name,
        location: if is_hosted(kind) {
            "remote"@
        } else {
            "local"@
        },
        source_kind: kind,
        source_label: label_for(m, v),
        loaded: loaded_in(m),
    }
}

/// The model `m` of the network with the name `name`.
pub open spec fn network_entry(m: JsonV, name: Seq<char>) -> ChatModelV {
    let (kind, label) = network_source_of(m);
    ChatModelV {
        name,
        location: "remote"@,
        source_kind: kind,
        source_label: label,
        loaded: loaded_in(m),
    }
}

/// The local models by their names: of two with the same name, the later one.
pub open spec fn local_by_name(ms: Seq<JsonV>, v: Seq<ServerNameV>) -> Map<Seq<char>, ChatModelV>
    decreases ms.len(),
{
    if ms.len() == 0 {
        Map::empty()
    } else {
        let before = local_by_name(ms.drop_last(), v);
        match name_of(ms.last()) {
            Some(n) => if can_chat(ms.last()) {
                before.insert(n, local_entry(ms.last(), n, v))
            } else {
                before
            },
            None => before,
        }
    }
}

/// The models `base` and those of the network by their names: what is there
/// already stays.
pub open spec fn with_network(
    base: Map<Seq<char>, ChatModelV>,
    ms: Seq<JsonV>,
) -> Map<Seq<char>, ChatModelV>
    decreases ms.len(),
{
    if ms.len() == 0 {
        base
    } else {
        let before = with_network(base, ms.drop_last());
        match name_of(ms.last()) {
            Some(n) => if can_chat(ms.last()) && !before.dom().contains(n) {
                before.insert(n, network_entry(ms.last(), n))
            } else {
                before
            },
            None => before,
        }
    }
}

/// What a list of models says.
pub open spec fn models_view(v: Seq<ChatModelEntry>) -> Seq<ChatModelV> {
    v.map_values(|e: ChatModelEntry| e@)
}

/// Whether the names of the models rise.
pub open spec fn rising(v: Seq<ChatModelV>) -> bool {
    forall|i: int, j: int|
        0 <= i < j < v.len() ==> text::before((#[trigger] v[i]).name, (#[trigger] v[j]).name)
}

/// Whether `v` lists the models of `m`, in the order of their names.
pub open spec fn lists(v: Seq<ChatModelV>, m: Map<Seq<char>, ChatModelV>) -> bool {
    &&& rising(v)
    &&& forall|i: int|
        0 <= i < v.len() ==> m.dom().contains((#[trigger] v[i]).name) && m[v[i].name] == v[i]
    &&& forall|k: Seq<char>| #[trigger] m.dom().contains(k) ==> names_model(v, k)
}

/// Whether a model of `v` has the name `k`.
pub open spec fn names_model(v: Seq<ChatModelV>, k: Seq<char>) -> bool {
    exists|i: int| 0 <= i < v.len() && (#[trigger] v[i]).name == k
}

/// Where the name `k` belongs among the models `v`.
fn place_of(v: &Vec<ChatModelEntry>, k: &str) -> (r: usize)
    requires
        rising(models_view(v@)),
    ensures
        r <= v@.len(),
        forall|i: int| 0 <= i < r ==> text::before((#[trigger] models_view(v@)[i]).name, k@),
        r < v@.len() ==> !text::before(models_view(v@)[r as int].name, k@),
{
    let ghost vv = models_view(v@);
    for i in 0..v.len()
        invariant
            vv == models_view(v@),
            forall|a: int| 0 <= a < i ==> text::before((#[trigger] vv[a]).name, k@),
    {
        assert(vv[i as int] == v@[i as int]@);
        if !text::is_before(&v[i].name, k) {
            return i;
        }
    }
    v.len()
}

proof fn lemma_place(v: Seq<ChatModelV>, m: Map<Seq<char>, ChatModelV>, e: ChatModelV, p: int)
    requires
        lists(v, m),
        0 <= p <= v.len(),
        forall|i: int| 0 <= i < p ==> text::before((#[trigger] v[i]).name, e.name),
        p < v.len() ==> !text::before(v[p].name, e.name),
    ensures
        p < v.len() && v[p].name == e.name ==> lists(v.update(p, e), m.insert(e.name, e)),
        !(p < v.len() && v[p].name == e.name) ==> lists(v.insert(p, e), m.insert(e.name, e))
            && !m.dom().contains(e.name),
{
    let m2 = m.insert(e.name, e);
    if p < v.len() && v[p].name == e.name {
        let v2 = v.update(p, e);
        assert forall|i: int, j: int| 0 <= i < j < v2.len() implies text::before(
            (#[trigger] v2[i]).name,
            (#[trigger] v2[j]).name,
        ) by {
            assert(v2[i].name == v[i].name && v2[j].name == v[j].name);
        }
        assert forall|i: int| 0 <= i < v2.len() implies m2.dom().contains(
            (#[trigger] v2[i]).name,
        ) && m2[v2[i].name] == v2[i] by {
            if i != p {
                assert(m.dom().contains(v[i].name));
                text::lemma_before_self(e.name);
                if i < p {
                    assert(text::before(v[i].name, v[p].name));
                } else {
                    assert(text::before(v[p].name, v[i].name));
                }
            }
        }
        assert forall|k: Seq<char>| #[trigger] m2.dom().contains(k) implies names_model(v2, k) by {
            if k == e.name {
                assert(v2[p].name == k);
            } else {
                assert(names_model(v, k));
                let i = choose|i: int| 0 <= i < v.len() && (#[trigger] v[i]).name == k;
                assert(v2[i].name == k);
            }
        }
    } else {
        let v2 = v.insert(p, e);
        assert forall|i: int| p <= i < v.len() implies text::before(
            e.name,
            (#[trigger] v[i]).name,
        ) by {
            if !text::before(e.name, v[p].name) {
                text::lemma_before_total(e.name, v[p].name);
            }
            if i > p {
                text::lemma_before_chain(e.name, v[p].name, v[i].name);
            }
        }
        assert forall|k: int| 0 <= k < v.len() implies (#[trigger] v[k]).name != e.name by {
            text::lemma_before_self(e.name);
        }
        assert forall|i: int, j: int| 0 <= i < j < v2.len() implies text::before(
            (#[trigger] v2[i]).name,
            (#[trigger] v2[j]).name,
        ) by {
            if i < p && j > p {
                assert(v2[i] == v[i] && v2[j] == v[j - 1]);
            } else if i < p && j < p {
                assert(v2[i] == v[i] && v2[j] == v[j]);
            } else if i < p {
                assert(v2[i] == v[i] && v2[j] == e);
            } else if i == p {
                assert(v2[i] == e && v2[j] == v[j - 1]);
            } else {
                assert(v2[i] == v[i - 1] && v2[j] == v[j - 1]);
            }
        }
        if m.dom().contains(e.name) {
            assert(names_model(v, e.name));
        }
        assert forall|i: int| 0 <= i < v2.len() implies m2.dom().contains(
            (#[trigger] v2[i]).name,
        ) && m2[v2[i].name] == v2[i] by {
            if i < p {
                assert(v2[i] == v[i]);
            } else if i > p {
                assert(v2[i] == v[i - 1]);
            }
        }
        assert forall|k: Seq<char>| #[trigger] m2.dom().contains(k) implies names_model(v2, k) by {
            if k == e.name {
                assert(v2[p].name == k);
            } else {
                assert(names_model(v, k));
                let i = choose|i: int| 0 <= i < v.len() && (#[trigger] v[i]).name == k;
                if i < p {
                    assert(v2[i].name == k);
                } else {
                    assert(v2[i + 1].name == k);
                }
            }
        }
    }
}

/// Puts `e` among the models, in place of the one with its name, or only where
/// there is none.
fn put_model(
    v: &mut Vec<ChatModelEntry>,
    e: ChatModelEntry,
    replace: bool,
    Ghost(m): Ghost<Map<Seq<char>, ChatModelV>>,
)
    requires
        lists(models_view(old(v)@), m),
    ensures
        lists(
            models_view(final(v)@),
            if replace || !m.dom().contains(e@.name) {
                m.insert(e@.name, e@)
            } else {
                m
            },
        ),
{
    let p: usize = place_of(v, &e.name);
    let ghost vv = models_view(v@);
    proof {
        lemma_place(vv, m, e@, p as int);
    }
    if p < v.len() && text::str_eq(&v[p].name, &e.name) {
        assert(vv[p as int] == v@[p as int]@);
        assert(m.dom().contains(e@.name));
        if replace {
            let ghost ev = e@;
            v.set(p, e);
            assert(models_view(v@) =~= vv.update(p as int, ev));
        }
    } else {
        let ghost ev = e@;
        v.insert(p, e);
        assert(models_view(v@) =~= vv.insert(p as int, ev));
    }
}

/// The models that a user can chat with, each name once, in the order of the
/// names. A local model wins over one of the network. A server is its id, its
/// kind and its label.
pub fn build_chat_models(
    local_models: &Vec<Json>,
    network_models: &Vec<Json>,
    servers: &Vec<(String, String, Option<String>)>,
) -> (r: Vec<ChatModelEntry>)
    ensures
        lists(
            models_view(r@),
            with_network(
                local_by_name(json::items_view(local_models@), server_names(servers@)),
                json::items_view(network_models@),
            ),
        ),
{
    let mut out: Vec<ChatModelEntry> = Vec::new();
    let ghost lv = json::items_view(local_models@);
    let ghost nv = json::items_view(network_models@);
    let ghost sv = server_names(servers@);
    assert(lists(models_view(out@), local_by_name(lv.take(0), sv)));
    for i in 0..local_models.len()
        invariant
            lv == json::items_view(local_models@),
            sv == server_names(servers@),
            lists(models_view(out@), local_by_name(lv.take(i as int), sv)),
    {
        proof {
            assert(lv.take(i as int + 1).drop_last() =~= lv.take(i as int));
            assert(lv.take(i as int + 1).last() == local_models@[i as int]@);
        }
        let m = &local_models[i];
        if let Some(name) = m.get_str("name") {
            if !name.is_empty() && is_chat_capable(m) {
                let source_kind = match m.get_str("_source_kind") {
                    Some(k) => text::copy(k),
                    None => text::copy("local"),
                };
                let location = if is_hosted_remote_kind(&source_kind) {
                    text::copy("remote")
                } else {
                    text::copy("local")
                };
                let e = ChatModelEntry {
                    name: text::copy(name),
                    location,
                    source_kind,
                    source_label: server_label_for(m, servers),
                    loaded: loaded_flag(m),
                };
                put_model(&mut out, e, true, Ghost(local_by_name(lv.take(i as int), sv)));
            }
        }
    }
    assert(lv.take(lv.len() as int) =~= lv);
    let ghost base = local_by_name(lv, sv);
    assert(with_network(base, nv.take(0)) == base);
    for i in 0..network_models.len()
        invariant
            nv == json::items_view(network_models@),
            lists(models_view(out@), with_network(base, nv.take(i as int))),
    {
        proof {
            assert(nv.take(i as int + 1).drop_last() =~= nv.take(i as int));
            assert(nv.take(i as int + 1).last() == network_models@[i as int]@);
        }
        let m = &network_models[i];
        if let Some(name) = m.get_str("name") {
            if !name.is_empty() && is_chat_capable(m) {
                let (source_kind, source_label) = network_source(m);
                let e = ChatModelEntry {
                    name: text::copy(name),
                    location: text::copy("remote"),
                    source_kind,
                    source_label,
                    loaded: loaded_flag(m),
                };
                put_model(&mut out, e, false, Ghost(with_network(base, nv.take(i as int))));
            }
        }
    }
    assert(nv.take(nv.len() as int) =~= nv);
    out
}

/// A model that stands here is listed as it stands here, whatever the network
/// offers under its name.
pub proof fn law_local_wins(base: Map<Seq<char>, ChatModelV>, ms: Seq<JsonV>, k: Seq<char>)
    requires
        base.dom().contains(k),
    ensures
        with_network(base, ms).dom().contains(k),
        with_network(base, ms)[k] == base[k],
    decreases ms.len(),
{
    if ms.len() > 0 {
        law_local_wins(base, ms.drop_last(), k);
    }
}

proof fn lemma_local_by_name(ms: Seq<JsonV>, v: Seq<ServerNameV>)
    ensures
        forall|i: int|
            0 <= i < ms.len() && can_chat(#[trigger] ms[i]) ==> (name_of(ms[i]) matches Some(n)
                ==> local_by_name(ms, v).dom().contains(n)),
        forall|n: Seq<char>| #[trigger]
            local_by_name(ms, v).dom().contains(n) ==> exists|i: int|
                0 <= i < ms.len() && can_chat(#[trigger] ms[i]) && name_of(ms[i]) == Some(n)
                    && local_by_name(ms, v)[n] == local_entry(ms[i], n, v),
    decreases ms.len(),
{
    if ms.len() > 0 {
        let front = ms.drop_last();
        lemma_local_by_name(front, v);
        let before = local_by_name(front, v);
        let all = local_by_name(ms, v);
        assert forall|i: int| 0 <= i < ms.len() && can_chat(#[trigger] ms[i]) implies (name_of(
            ms[i],
        ) matches Some(n) ==> all.dom().contains(n)) by {
            if i < front.len() {
                assert(front[i] == ms[i]);
            }
        }
        assert forall|n: Seq<char>| #[trigger] all.dom().contains(n) implies exists|i: int|
            0 <= i < ms.len() && can_chat(#[trigger] ms[i]) && name_of(ms[i]) == Some(n) && all[n]
                == local_entry(ms[i], n, v) by {
            if name_of(ms.last()) == Some(n) && can_chat(ms.last()) {
                assert(ms[ms.len() - 1] == ms.last());
            } else {
                let i = choose|i: int|
                    0 <= i < front.len() && can_chat(#[trigger] front[i]) && name_of(front[i])
                        == Some(n) && before[n] == local_entry(front[i], n, v);
                assert(ms[i] == front[i]);
            }
        }
    }
}

proof fn lemma_with_network(base: Map<Seq<char>, ChatModelV>, ms: Seq<JsonV>)
    ensures
        forall|i: int|
            0 <= i < ms.len() && can_chat(#[trigger] ms[i]) ==> (name_of(ms[i]) matches Some(n)
                ==> with_network(base, ms).dom().contains(n)),
        forall|n: Seq<char>| #[trigger]
            with_network(base, ms).dom().contains(n) && !base.dom().contains(n) ==> exists|i: int|
                0 <= i < ms.len() && can_chat(#[trigger] ms[i]) && name_of(ms[i]) == Some(n)
                    && with_network(base, ms)[n] == network_entry(ms[i], n),
    decreases ms.len(),
{
    if ms.len() > 0 {
        let front = ms.drop_last();
        lemma_with_network(base, front);
        let before = with_network(base, front);
        let all = with_network(base, ms);
        assert forall|i: int| 0 <= i < ms.len() && can_chat(#[trigger] ms[i]) implies (name_of(
            ms[i],
        ) matches Some(n) ==> all.dom().contains(n)) by {
            if i < front.len() {
                assert(front[i] == ms[i]);
            }
        }
        assert forall|n: Seq<char>| #[trigger]
            all.dom().contains(n) && !base.dom().contains(n) implies exists|i: int|
            0 <= i < ms.len() && can_chat(#[trigger] ms[i]) && name_of(ms[i]) == Some(n) && all[n]
                == network_entry(ms[i], n) by {
            if before.dom().contains(n) {
                let i = choose|i: int|
                    0 <= i < front.len() && can_chat(#[trigger] front[i]) && name_of(front[i])
                        == Some(n) && before[n] == network_entry(front[i], n);
                assert(ms[i] == front[i]);
            } else {
                assert(ms[ms.len() - 1] == ms.last());
            }
        }
    }
}

/// Every model with a name that can chat is offered, the peer's own and those of the
/// network, and nothing else is.
pub proof fn law_chat_models_are_offered(
    own: Seq<JsonV>,
    network: Seq<JsonV>,
    v: Seq<ServerNameV>,
    n: Seq<char>,
)
    requires
        n.len() > 0,
    ensures
        with_network(local_by_name(own, v), network).dom().contains(n) <==> (exists|i: int|
            0 <= i < own.len() && can_chat(#[trigger] own[i]) && json::field(own[i], "name"@)
                == Some(JsonV::Str(n))) || (exists|i: int|
            0 <= i < network.len() && can_chat(#[trigger] network[i]) && json::field(
                network[i],
                "name"@,
            ) == Some(JsonV::Str(n))),
{
    let base = local_by_name(own, v);
    let all = with_network(base, network);
    lemma_local_by_name(own, v);
    lemma_with_network(base, network);
    if exists|i: int|
        0 <= i < own.len() && can_chat(#[trigger] own[i]) && json::field(own[i], "name"@) == Some(
            JsonV::Str(n),
        ) {
        let i = choose|i: int|
            0 <= i < own.len() && can_chat(#[trigger] own[i]) && json::field(own[i], "name"@)
                == Some(JsonV::Str(n));
        assert(name_of(own[i]) == Some(n));
        law_local_wins(base, network, n);
    }
    if exists|i: int|
        0 <= i < network.len() && can_chat(#[trigger] network[i]) && json::field(
            network[i],
            "name"@,
        ) == Some(JsonV::Str(n)) {
        let i = choose|i: int|
            0 <= i < network.len() && can_chat(#[trigger] network[i]) && json::field(
                network[i],
                "name"@,
            ) == Some(JsonV::Str(n));
        assert(name_of(network[i]) == Some(n));
    }
    if all.dom().contains(n) {
        if base.dom().contains(n) {
            let i = choose|i: int|
                0 <= i < own.len() && can_chat(#[trigger] own[i]) && name_of(own[i]) == Some(n)
                    && base[n] == local_entry(own[i], n, v);
            assert(json::field(own[i], "name"@) == Some(JsonV::Str(n)));
        } else {
            let i = choose|i: int|
                0 <= i < network.len() && can_chat(#[trigger] network[i]) && name_of(network[i])
                    == Some(n) && all[n] == network_entry(network[i], n);
            assert(json::field(network[i], "name"@) == Some(JsonV::Str(n)));
        }
    }
}

/// A model is offered for chats unless it says that it embeds and does not say that it
/// completes; what it shows of itself counts before what it is listed with.
pub proof fn law_only_embedding_models_are_left_out(m: JsonV, shown: JsonV, c: Seq<JsonV>)
    ensures
        json::field(m, "_show_info"@) is None && json::field(m, "capabilities"@) is None ==> can_chat(
            m,
        ),
        json::field(m, "_show_info"@) is None && json::field(m, "capabilities"@) == Some(
            JsonV::Arr(c),
        ) ==> can_chat(m) == (c.contains(JsonV::Str("completion"@)) || !c.contains(
            JsonV::Str("embedding"@),
        )),
        json::field(m, "_show_info"@) == Some(shown) && json::field(shown, "capabilities"@) == Some(
            JsonV::Arr(c),
        ) ==> can_chat(m) == (c.contains(JsonV::Str("completion"@)) || !c.contains(
            JsonV::Str("embedding"@),
        )),
{
}

/// What is offered says whether the model is loaded, as its status says, and where it
/// runs: a model of the network elsewhere, and one of a server here, under the name that
/// the server was given.
pub proof fn law_entry_says_where_a_model_runs(
    m: JsonV,
    name: Seq<char>,
    v: Seq<ServerNameV>,
    i: int,
    status: JsonV,
    b: bool,
    label: Seq<char>,
    id: Seq<char>,
)
    ensures
        local_entry(m, name, v).name == name,
        network_entry(m, name).name == name,
        network_entry(m, name).location == "remote"@,
        json::field(m, "_status"@) == Some(status) && json::field(status, "loaded"@) == Some(
            JsonV::Bool(b),
        ) ==> local_entry(m, name, v).loaded == Some(b) && network_entry(m, name).loaded == Some(b),
        json::field(m, "_status"@) is None ==> local_entry(m, name, v).loaded is None,
        json::field(m, "_source_server"@) == Some(JsonV::Str(id)) && 0 <= i < v.len() && v[i].id
            == id && (forall|j: int| 0 <= j < i ==> (#[trigger] v[j]).id != id) && v[i].label
            == Some(label) && label.len() > 0 ==> local_entry(m, name, v).source_label == label,
        json::field(m, "_clusters"@) is None && json::field(m, "_cluster_id"@) == Some(
            JsonV::Str(id),
        ) ==> network_entry(m, name).source_kind == "cluster"@ && network_entry(
            m,
            name,
        ).source_label == id,
        json::field(m, "_clusters"@) is None && json::field(m, "_cluster_id"@) is None
            && json::field(m, "_swarms"@) is None && json::field(m, "_swarm_id"@) == Some(
            JsonV::Str(id),
        ) ==> network_entry(m, name).source_kind == "swarm"@ && network_entry(m, name).source_label
            == id,
{
    if 0 <= i < v.len() && v[i].id == id && (forall|j: int| 0 <= j < i ==> (#[trigger] v[j]).id
        != id) {
        lemma_server_with(v, i, id);
    }
}

proof fn lemma_server_with(v: Seq<ServerNameV>, i: int, id: Seq<char>)
    requires
        0 <= i < v.len(),
        v[i].id == id,
        forall|j: int| 0 <= j < i ==> (#[trigger] v[j]).id != id,
    ensures
        server_with(v, id) == Some(v[i]),
    decreases i,
{
    if i > 0 {
        let rest = v.skip(1);
        assert(rest[i - 1] == v[i]);
        assert(v[0].id != id);
        assert forall|j: int| 0 <= j < i - 1 implies (#[trigger] rest[j]).id != id by {
            assert(rest[j] == v[j + 1]);
        }
        lemma_server_with(rest, i - 1, id);
    }
}

/// A list of the models of a map has every model of it once, and no other.
pub proof fn law_models_are_listed_once(v: Seq<ChatModelV>, m: Map<Seq<char>, ChatModelV>, i: int, j: int)
    requires
        lists(v, m),
        0 <= i < j < v.len(),
    ensures
        v[i].name != v[j].name,
        m.dom().contains(v[i].name) && m[v[i].name] == v[i],
        forall|k: Seq<char>| #[trigger]
            m.dom().contains(k) ==> exists|n: int| 0 <= n < v.len() && #[trigger] v[n] == m[k],
{
    text::law_texts_are_ordered(v[i].name, v[j].name);
    assert forall|k: Seq<char>| #[trigger] m.dom().contains(k) implies exists|n: int|
        0 <= n < v.len() && #[trigger] v[n] == m[k] by {
        assert(names_model(v, k));
        let n = choose|n: int| 0 <= n < v.len() && (#[trigger] v[n]).name == k;
        assert(v[n] == m[k]);
    }
}

} // verus!
