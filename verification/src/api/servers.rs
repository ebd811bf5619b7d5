//! What the user does with servers of language models.

use crate::api::networks;
use crate::api::setup;
use crate::client_config::servers;
use crate::client_config::types;
use crate::client_config::types::{
    ClientConfig, ConfigV, CustomModelEntry, CustomModelV, LlmServerEntry, ServerV,
};
use crate::inference_cell_run;
use crate::llm_backend::kind;
use crate::llm_proxy::requests::{Refusal, RefusalV};
use crate::text;
use vstd::prelude::*;

verus! {

/// A server that the user adds: its kind goes by its one name, and its address
/// does not end in a slash.
pub open spec fn added_server(
    kind: Seq<char>,
    url: Seq<char>,
    label: Option<Seq<char>>,
    source: Seq<char>,
    api_type: Option<Seq<char>>,
    models: Seq<CustomModelV>,
) -> ServerV {
    ServerV {
        id: Seq::empty(),
        kind: kind::label_of(kind),
        url: text::strip_trailing(url, '/'),
        label,
        attached: false,
        order: 0,
        source,
        api_type,
        models,
        advertise_to_cluster: true,
    }
}

/// A server that the user chose of those that were found.
pub fn post_llm_select(kind: &str, url: &str) -> (r: LlmServerEntry)
    ensures
        r@ == added_server(kind@, url@, None, "scan"@, None, Seq::empty()),
{
    let models: Vec<CustomModelEntry> = Vec::new();
    assert(types::models_view(models@) =~= Seq::<CustomModelV>::empty());
    proof {
        reveal_strlit("");
        assert(""@ =~= Seq::<char>::empty());
    }
    LlmServerEntry {
        id: text::copy(""),
        kind: kind::normalize_backend_label(kind),
        url: text::trim_end_char(url, '/'),
        label: None,
        attached: false,
        order: 0,
        source: text::copy("scan"),
        api_type: None,
        models,
        advertise_to_cluster: true,
    }
}

/// What the user gives to add a server.
#[derive(Debug)]
pub struct AddLlmServerBody {
    pub kind: String,
    pub url: String,
    pub label: Option<String>,
    pub api_key: Option<String>,
    pub api_type: Option<String>,
    pub models: Option<Vec<CustomModelEntry>>,
}

/// How the connection to a server is made before it is added.
#[derive(Debug, Clone, Copy, PartialEq, Eq, Structural)]
pub enum ServerProbe {
    /// As to a custom endpoint.
    Custom,
    /// As to an inference cell, whose engine is asked for.
    Cell,
    /// By its kind alone.
    Plain,
}

/// How the connection to a server of the kind `k` is made.
pub open spec fn probe_of(k: Seq<char>) -> ServerProbe {
    if servers::is_custom(k) {
        ServerProbe::Custom
    } else if servers::is_cell(k) {
        ServerProbe::Cell
    } else {
        ServerProbe::Plain
    }
}

/// What a list of models that may be missing says.
pub open spec fn models_given(m: Option<Vec<CustomModelEntry>>) -> Seq<CustomModelV> {
    match m {
        Some(v) => types::models_view(v@),
        None => Seq::empty(),
    }
}

/// The server that the user adds, and how the connection to it is made first.
pub fn post_llm_server(body: AddLlmServerBody) -> (r: Result<(LlmServerEntry, ServerProbe), Refusal>)
    ensures
        ({
            let e = added_server(
                body.kind@,
                body.url@,
                text::opt_view(body.label),
                "manual"@,
                text::opt_view(body.api_type),
                models_given(body.models),
            );
            match servers::custom_fault(e) {
                Some(m) => r matches Err(f) && f@ == setup::bad_request(m),
                None => r matches Ok(v) && v.0@ == e && v.1 == probe_of(e.kind),
            }
        }),
{
    let models: Vec<CustomModelEntry> = match body.models {
        Some(m) => m,
        None => Vec::new(),
    };
    assert(types::models_view(models@) =~= models_given(body.models));
    proof {
        reveal_strlit("");
        assert(""@ =~= Seq::<char>::empty());
    }
    let entry = LlmServerEntry {
        id: text::copy(""),
        kind: kind::normalize_backend_label(&body.kind),
        url: text::trim_end_char(&body.url, '/'),
        label: body.label,
        attached: false,
        order: 0,
        source: text::copy("manual"),
        api_type: body.api_type,
        models,
        advertise_to_cluster: true,
    };
    if let Err(m) = servers::validate_custom_server_entry(&entry) {
        return Err(Refusal { status: 400, message: m });
    }
    let probe = if servers::is_custom_server_kind(&entry.kind) {
        ServerProbe::Custom
    } else if servers::is_inference_cell_kind(&entry.kind) {
        ServerProbe::Cell
    } else {
        ServerProbe::Plain
    };
    Ok((entry, probe))
}

/// The answer where a server is not well.
pub fn health_check_failed(error: &str) -> (r: Refusal)
    ensures
        r@ == (RefusalV { status: 502, message: "Health check failed: "@ + error@ }),
{
    Refusal { status: 502, message: text::concat2("Health check failed: ", error) }
}

/// What is done with a secret of a server.
#[derive(Debug)]
pub enum SecretAction {
    Put(String),
    Delete,
}

/// Whether `a` keeps the secret `s`, or deletes the old one where `s` is empty.
pub open spec fn acts_on(a: SecretAction, s: Option<Seq<char>>) -> bool {
    match s {
        Some(t) => if t.len() > 0 {
            a matches SecretAction::Put(k) && k@ == t
        } else {
            a is Delete
        },
        None => a is Delete,
    }
}

fn secret_action(s: &Option<String>) -> (r: SecretAction)
    ensures
        acts_on(r, text::opt_view(*s)),
{
    match s {
        Some(t) => if t.as_str().is_empty() {
            SecretAction::Delete
        } else {
            SecretAction::Put(text::copy(t))
        },
        None => SecretAction::Delete,
    }
}

/// What is done with the key of a server.
pub fn put_llm_server_api_key(config: &ClientConfig, id: &str, api_key: &Option<String>) -> (r:
    Result<SecretAction, Refusal>)
    ensures
        match inference_cell_run::server_at(config@.llm_servers, id@) {
            None => r matches Err(e) && e@ == networks::missing("server not found"@),
            Some(_) => r matches Ok(a) && acts_on(a, text::opt_view(*api_key)),
        },
{
    match inference_cell_run::find_server(config, id) {
        None => Err(Refusal { status: 404, message: text::copy("server not found") }),
        Some(_) => Ok(secret_action(api_key)),
    }
}

/// What is done with the token of an administrator of a server: only an inference
/// cell has one.
pub fn put_llm_server_admin_token(config: &ClientConfig, id: &str, admin_token: &Option<String>) -> (r:
    Result<SecretAction, Refusal>)
    ensures
        match inference_cell_run::server_at(config@.llm_servers, id@) {
            None => r matches Err(e) && e@ == networks::missing("server not found"@),
            Some(i) => if servers::is_cell(config@.llm_servers[i].kind) {
                r matches Ok(a) && acts_on(a, text::opt_view(*admin_token))
            } else {
                r matches Err(e) && e@ == setup::bad_request(
                    "admin token is only supported for inference-cell servers"@,
                )
            },
        },
{
    match inference_cell_run::find_server(config, id) {
        None => Err(Refusal { status: 404, message: text::copy("server not found") }),
        Some(s) => if servers::is_inference_cell_kind(&s.kind) {
            Ok(secret_action(admin_token))
        } else {
            Err(setup::refuse_bad("admin token is only supported for inference-cell servers"))
        },
    }
}

/// Whether a server with the id `id` is attached.
pub open spec fn is_attached(v: Seq<ServerV>, id: Seq<char>) -> bool {
    exists|i: int| 0 <= i < v.len() && (#[trigger] v[i]).id == id && v[i].attached
}

/// Whether a server with the id `id` is attached.
pub fn server_is_attached(config: &ClientConfig, id: &str) -> (r: bool)
    ensures
        r == is_attached(config@.llm_servers, id@),
{
    let ghost sv = config@.llm_servers;
    for i in 0..config.llm_servers.len()
        invariant
            sv == config@.llm_servers,
            sv.len() == config.llm_servers@.len(),
            forall|k: int| 0 <= k < i ==> !((#[trigger] sv[k]).id == id@ && sv[k].attached),
    {
        assert(sv[i as int] == config.llm_servers@[i as int]@);
        if text::str_eq(&config.llm_servers[i].id, id) && config.llm_servers[i].attached {
            return true;
        }
    }
    false
}

/// Changes whether the models of a server are told to others. Tells whether the
/// server is attached.
pub fn patch_llm_server(config: &mut ClientConfig, id: &str, advertise: Option<bool>) -> (r: Result<
    bool,
    Refusal,
>)
    ensures
        ({
            let c = old(config)@;
            match inference_cell_run::server_at(c.llm_servers, id@) {
                None => final(config)@ == c && (r matches Err(e) && e@ == networks::missing(
                    "Server not found"@,
                )),
                Some(i) => {
                    &&& final(config)@ == (ConfigV {
                        llm_servers: match advertise {
                            Some(a) => c.llm_servers.update(
                                i,
                                ServerV { advertise_to_cluster: a, ..c.llm_servers[i] },
                            ),
                            None => c.llm_servers,
                        },
                        ..c
                    })
                    &&& r == Ok::<bool, Refusal>(is_attached(final(config)@.llm_servers, id@))
                },
            }
        }),
{
    let ghost before = config.llm_servers@;
    let ghost c = config@;
    let ghost ids = c.llm_servers.map_values(|s: ServerV| s.id);
    proof {
        text::lemma_position(ids, id@);
    }
    let n: usize = config.llm_servers.len();
    for i in 0..n
        invariant
            n == config.llm_servers@.len(),
            config@ == c,
            config.llm_servers@ == before,
            c == old(config)@,
            ids == c.llm_servers.map_values(|s: ServerV| s.id),
            ids.len() == n,
            forall|j: int| 0 <= j < i ==> #[trigger] ids[j] != id@,
            match text::position(ids, id@) {
                Some(i) => 0 <= i < ids.len() && ids[i] == id@ && forall|j: int|
                    0 <= j < i ==> #[trigger] ids[j] != id@,
                None => forall|j: int| 0 <= j < ids.len() ==> #[trigger] ids[j] != id@,
            },
    {
        assert(ids[i as int] == before[i as int].id@);
        if text::str_eq(&config.llm_servers[i].id, id) {
            if let Some(a) = advertise {
                config.llm_servers[i].advertise_to_cluster = a;
                assert(types::servers_view(config.llm_servers@) =~= c.llm_servers.update(
                    i as int,
                    ServerV { advertise_to_cluster: a, ..c.llm_servers[i as int] },
                ));
            }
            return Ok(server_is_attached(config, id));
        }
    }
    Err(Refusal { status: 404, message: text::copy("Server not found") })
}

/// A server that is added is remembered where it is, with its label and models, and is
/// not attached yet.
pub proof fn law_added_server_is_remembered(
    kind: Seq<char>,
    url: Seq<char>,
    label: Option<Seq<char>>,
    source: Seq<char>,
    api_type: Option<Seq<char>>,
    models: Seq<CustomModelV>,
)
    requires
        url.len() == 0 || url.last() != '/',
    ensures
        ({
            let s = added_server(kind, url + seq!['/'], label, source, api_type, models);
            &&& s.url == url
            &&& s.label == label
            &&& s.source == source
            &&& s.api_type == api_type
            &&& s.models == models
            &&& !s.attached
            &&& s.advertise_to_cluster
            &&& s.kind == kind::label_of(kind)
        }),
{
    text::law_trailing_is_taken_off(url, '/', seq!['/']);
}

/// A secret that is given is kept as it is; an empty one, or none, deletes the old one.
pub proof fn law_secret_is_kept(a: SecretAction, s: Seq<char>)
    ensures
        s.len() > 0 && acts_on(a, Some(s)) ==> (a matches SecretAction::Put(k) && k@ == s),
        s.len() == 0 && acts_on(a, Some(s)) ==> a is Delete,
        acts_on(a, None) ==> a is Delete,
{
}

/// A server is attached where its entry says so, and not where all entries with its id
/// say otherwise.
pub proof fn law_attached_server_is_found(v: Seq<ServerV>, i: int, id: Seq<char>)
    requires
        0 <= i < v.len(),
    ensures
        v[i].attached ==> is_attached(v, v[i].id),
        (forall|k: int| 0 <= k < v.len() && (#[trigger] v[k]).id == id ==> !v[k].attached)
            ==> !is_attached(v, id),
{
}

} // verus!
