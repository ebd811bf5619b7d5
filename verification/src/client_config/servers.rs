//! The servers that answer for a peer.

use crate::client_config::types::{
    ClientConfig, ConfigV, CustomModelEntry, CustomModelV, LlmServerEntry, ServerV,
};
use crate::client_config::types;
use crate::outside;
use crate::text;
use vstd::prelude::*;

verus! {

/// The name under which a model is shown.
pub open spec fn shown_name(m: CustomModelV) -> Seq<char> {
    match m.name {
        Some(n) => if n.len() > 0 {
            n
        } else {
            m.id
        },
        None => m.id,
    }
}

impl CustomModelEntry {
    /// The name under which the model is shown: its own, or else its id.
    pub fn display_name(&self) -> (r: String)
        ensures
            r@ == shown_name(self@),
    {
        match &self.name {
            Some(n) => if !n.as_str().is_empty() {
                text::copy(n)
            } else {
                text::copy(&self.id)
            },
            None => text::copy(&self.id),
        }
    }
}

/// Whether `kind` names a custom endpoint.
pub open spec fn is_custom(kind: Seq<char>) -> bool {
    let k = text::lower(kind);
    k == "custom"@ || k == "customendpoint"@
}

/// Whether `kind` names a custom endpoint.
pub fn is_custom_server_kind(kind: &str) -> (r: bool)
    ensures
        r == is_custom(kind@),
{
    let k = text::to_lower(kind);
    text::str_eq(&k, "custom") || text::str_eq(&k, "customendpoint")
}

/// Whether `kind` names an inference cell.
pub open spec fn is_cell(kind: Seq<char>) -> bool {
    let k = text::lower(kind);
    k == "inference-cell"@ || k == "inference_cell"@
}

/// Whether `kind` names an inference cell.
pub fn is_inference_cell_kind(kind: &str) -> (r: bool)
    ensures
        r == is_cell(kind@),
{
    let k = text::to_lower(kind);
    text::str_eq(&k, "inference-cell") || text::str_eq(&k, "inference_cell")
}

/// Whether every model has an id that is not blank.
pub open spec fn models_named(v: Seq<CustomModelV>) -> bool {
    forall|i: int| 0 <= i < v.len() ==> text::trimmed((#[trigger] v[i]).id).len() > 0
}

/// What is wrong with the entry of a custom endpoint; nothing, where `e` is no
/// custom endpoint.
pub open spec fn custom_fault(e: ServerV) -> Option<Seq<char>> {
    if !is_custom(e.kind) {
        None
    } else if e.models.len() == 0 {
        Some("custom endpoint requires at least one model"@)
    } else if !models_named(e.models) {
        Some("each custom model must have a non-empty id"@)
    } else {
        match e.api_type {
            Some(t) => if t.len() > 0 && t != "chat-completions"@ {
                Some(
                    "unsupported apiType '"@ + t
                        + "': only chat-completions is supported"@,
                )
            } else {
                None
            },
            None => None,
        }
    }
}

/// What is wrong with the entry of a custom endpoint.
pub fn validate_custom_server_entry(entry: &LlmServerEntry) -> (r: Result<(), String>)
    ensures
        match r {
            Ok(_) => custom_fault(entry@) is None,
            Err(m) => custom_fault(entry@) == Some(m@),
        },
{
    let ghost mv = entry@.models;
    assert(mv.len() == entry.models@.len());
    if !is_custom_server_kind(&entry.kind) {
        return Ok(());
    }
    if entry.models.len() == 0 {
        return Err(text::copy("custom endpoint requires at least one model"));
    }
    for i in 0..entry.models.len()
        invariant
            mv == entry@.models,
            mv.len() == entry.models@.len(),
            mv.len() > 0,
            is_custom(entry@.kind),
            forall|k: int| 0 <= k < i ==> text::trimmed((#[trigger] mv[k]).id).len() > 0,
    {
        assert(mv[i as int] == entry.models@[i as int]@);
        if text::trim(&entry.models[i].id).as_str().is_empty() {
            assert(!models_named(mv));
            return Err(text::copy("each custom model must have a non-empty id"));
        }
    }
    assert(models_named(mv));
    if let Some(t) = &entry.api_type {
        if !t.as_str().is_empty() && !text::str_eq(t, "chat-completions") {
            return Err(
                text::concat3(
                    "unsupported apiType '",
                    t,
                    "': only chat-completions is supported",
                ),
            );
        }
    }
    Ok(())
}

/// Whether a server is attached.
pub open spec fn any_attached(v: Seq<ServerV>) -> bool {
    exists|i: int| 0 <= i < v.len() && (#[trigger] v[i]).attached
}

/// Whether a server is attached.
pub fn has_attached_llm_servers(config: &ClientConfig) -> (r: bool)
    ensures
        r == any_attached(config@.llm_servers),
{
    let ghost sv = config@.llm_servers;
    for i in 0..config.llm_servers.len()
        invariant
            sv == config@.llm_servers,
            sv.len() == config.llm_servers@.len(),
            forall|k: int| 0 <= k < i ==> !(#[trigger] sv[k]).attached,
    {
        assert(sv[i as int] == config.llm_servers@[i as int]@);
        if config.llm_servers[i].attached {
            return true;
        }
    }
    false
}

/// Where the first inference cell stands.
pub open spec fn cell_at(v: Seq<ServerV>) -> Option<int>
    decreases v.len(),
{
    if v.len() == 0 {
        None
    } else if is_cell(v[0].kind) {
        Some(0)
    } else {
        match cell_at(v.skip(1)) {
            Some(i) => Some(i + 1),
            None => None,
        }
    }
}

proof fn lemma_cell_at(v: Seq<ServerV>)
    ensures
        match cell_at(v) {
            Some(i) => 0 <= i < v.len() && is_cell(v[i].kind) && forall|j: int|
                0 <= j < i ==> !is_cell((#[trigger] v[j]).kind),
            None => forall|j: int| 0 <= j < v.len() ==> !is_cell((#[trigger] v[j]).kind),
        },
    decreases v.len(),
{
    if v.len() > 0 && !is_cell(v[0].kind) {
        let rest = v.skip(1);
        lemma_cell_at(rest);
        assert forall|j: int|
            0 <= j < v.len() && (cell_at(rest) matches Some(i) ==> j < i + 1) implies !is_cell(
            (#[trigger] v[j]).kind,
        ) by {
            if j > 0 {
                assert(rest[j - 1] == v[j]);
            }
        }
    }
}

fn cell_index(v: &Vec<LlmServerEntry>) -> (r: Option<usize>)
    ensures
        match r {
            Some(i) => cell_at(types::servers_view(v@)) == Some(i as int) && i < v@.len(),
            None => cell_at(types::servers_view(v@)) is None,
        },
{
    let ghost sv = types::servers_view(v@);
    proof {
        lemma_cell_at(sv);
    }
    for i in 0..v.len()
        invariant
            sv == types::servers_view(v@),
            forall|j: int| 0 <= j < i ==> !is_cell((#[trigger] sv[j]).kind),
            match cell_at(sv) {
                Some(i) => 0 <= i < sv.len() && is_cell(sv[i].kind) && forall|j: int|
                    0 <= j < i ==> !is_cell((#[trigger] sv[j]).kind),
                None => forall|j: int| 0 <= j < sv.len() ==> !is_cell((#[trigger] sv[j]).kind),
            },
    {
        assert(sv[i as int] == v@[i as int]@);
        if is_inference_cell_kind(&v[i].kind) {
            return Some(i);
        }
    }
    None
}

/// A server that the command line names.
pub open spec fn cli_server(id: Seq<char>, kind: Seq<char>, url: Seq<char>) -> ServerV {
    ServerV {
        id,
        kind,
        url,
        label: None,
        attached: true,
        order: 0,
        source: "cli"@,
        api_type: None,
        models: Seq::empty(),
        advertise_to_cluster: true,
    }
}

pub(crate) fn new_cli_server(id: String, kind: &str, url: &str) -> (r: LlmServerEntry)
    ensures
        r@ == cli_server(id@, kind@, url@),
{
    let r = LlmServerEntry {
        id,
        kind: text::copy(kind),
        url: text::copy(url),
        label: None,
        attached: true,
        order: 0,
        source: text::copy("cli"),
        api_type: None,
        models: Vec::new(),
        advertise_to_cluster: true,
    };
    assert(r@.models =~= Seq::<CustomModelV>::empty());
    r
}

/// The servers `v` with the inference cell at `url` among them, attached: in
/// place of the one that is there, or else as a new one with the id `id`.
pub open spec fn with_cell(v: Seq<ServerV>, url: Seq<char>, id: Seq<char>) -> Seq<ServerV> {
    match cell_at(v) {
        Some(i) => v.update(i, ServerV { url, attached: true, source: "cli"@, ..v[i] }),
        None => v.push(cli_server(id, "inference-cell"@, url)),
    }
}

/// Puts the inference cell at `url` among the servers, attached. Gives the id that
/// a new one gets; where one is there already, it keeps its own.
pub fn upsert_inference_cell_server(config: &mut ClientConfig, url: &str) -> (id: String)
    ensures
        outside::is_uuid(id@),
        final(config)@ == (ConfigV {
            llm_servers: with_cell(old(config)@.llm_servers, url@, id@),
            ..old(config)@
        }),
{
    let id = outside::new_uuid();
    let ghost before = config.llm_servers@;
    match cell_index(&config.llm_servers) {
        Some(i) => {
            config.llm_servers[i].url = text::copy(url);
            config.llm_servers[i].attached = true;
            config.llm_servers[i].source = text::copy("cli");
            assert(types::servers_view(config.llm_servers@) =~= with_cell(
                types::servers_view(before),
                url@,
                id@,
            ));
        },
        None => {
            let s = new_cli_server(text::copy(&id), "inference-cell", url);
            let ghost sv = s@;
            config.llm_servers.push(s);
            assert(types::servers_view(config.llm_servers@) =~= types::servers_view(before).push(
                sv,
            ));
        },
    }
    id
}

/// After the inference cell is put among the servers, one is attached.
pub proof fn law_cell_is_attached(v: Seq<ServerV>, url: Seq<char>, id: Seq<char>)
    ensures
        any_attached(with_cell(v, url, id)),
{
    lemma_cell_at(v);
    let now = with_cell(v, url, id);
    match cell_at(v) {
        Some(i) => {
            assert(now[i].attached);
        },
        None => {
            assert(now[v.len() as int].attached);
        },
    }
}

/// An inference cell is reached where it is said to run: the first cell among the servers
/// takes the address, or else a new one is added, and the other servers stay.
pub proof fn law_cell_is_reached(v: Seq<ServerV>, url: Seq<char>, id: Seq<char>)
    ensures
        ({
            let now = with_cell(v, url, id);
            &&& exists|i: int|
                0 <= i < now.len() && (#[trigger] now[i]).url == url && now[i].attached
            &&& forall|i: int|
                0 <= i < v.len() && !is_cell((#[trigger] v[i]).kind) ==> now[i] == v[i]
            &&& (forall|i: int| 0 <= i < v.len() ==> !is_cell((#[trigger] v[i]).kind)) ==> now.len()
                == v.len() + 1 && now.last().kind == "inference-cell"@ && now.last().id == id
            &&& (exists|i: int| 0 <= i < v.len() && is_cell((#[trigger] v[i]).kind)) ==> now.len()
                == v.len()
        }),
{
    lemma_cell_at(v);
    let now = with_cell(v, url, id);
    match cell_at(v) {
        Some(i) => {
            assert(now[i].url == url && now[i].attached);
        },
        None => {
            assert(now[v.len() as int].url == url && now[v.len() as int].attached);
        },
    }
}

/// A custom server is taken exactly where it has models, each with an identifier, and
/// asks for the one way of chatting that there is; any other server is taken.
pub proof fn law_custom_server_is_checked(e: ServerV)
    ensures
        !is_custom(e.kind) ==> custom_fault(e) is None,
        is_custom(e.kind) ==> (custom_fault(e) is None <==> e.models.len() > 0 && (forall|i: int|
            0 <= i < e.models.len() ==> text::trimmed((#[trigger] e.models[i]).id).len() > 0) && (
        e.api_type is None || e.api_type == Some("chat-completions"@) || (e.api_type matches Some(t)
            && t.len() == 0))),
{
}

/// A model is shown under the name that it was given, or else under its identifier.
pub proof fn law_model_is_shown_by_name(m: CustomModelV)
    ensures
        m.name matches Some(n) && n.len() > 0 ==> shown_name(m) == m.name->0,
        m.name is None ==> shown_name(m) == m.id,
{
}

/// A model whose name is empty goes by its id.
pub proof fn law_unnamed_model_goes_by_its_id(m: CustomModelV)
    ensures
        m.name is None || m.name == Some(Seq::<char>::empty()) ==> shown_name(m) == m.id,
        m.name matches Some(n) ==> (n.len() > 0 ==> shown_name(m) == n),
{
}

} // verus!
