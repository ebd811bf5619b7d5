//! The servers that answer for a peer, and how they are spoken to.

use crate::client_config::servers;
use crate::client_config::types;
use crate::client_config::types::{
    ClientConfig, ConfigV, CustomModelEntry, CustomModelV, LlmServerEntry, ServerV,
};
use crate::gpu;
use crate::gpu::GpuProbeMode;
use crate::json;
use crate::json::{Json, JsonV};
use crate::shared::GpuHostStatus;
use crate::text;
use vstd::prelude::*;

pub mod kind;

pub use kind::{backend_help, normalize_backend_label, parse_kind, LlmBackendKind};

verus! {

/// `reqwest::Client`: it sends the requests.
#[verifier::external_type_specification]
#[verifier::external_body]
pub struct ExHttpClient(reqwest::Client);

/// A server that is spoken to as Ollama.
#[derive(Debug)]
pub struct OllamaBackend {
    pub base_url: String,
    pub client: reqwest::Client,
    pub api_key: Option<String>,
}

/// A server that is spoken to as OpenAI.
#[derive(Debug)]
pub struct OpenAiCompatBackend {
    pub base_url: String,
    pub client: reqwest::Client,
    pub label: String,
    pub api_key: Option<String>,
}

/// A server whose models the user names.
#[derive(Debug)]
pub struct CustomEndpointBackend {
    pub base_url: String,
    pub client: reqwest::Client,
    pub api_key: Option<String>,
    pub models: Vec<CustomModelEntry>,
    pub api_type: String,
}

/// A server that answers.
#[derive(Debug)]
pub enum LlmBackend {
    Ollama(OllamaBackend),
    OpenAiCompat(OpenAiCompatBackend),
    Custom(CustomEndpointBackend),
}

/// What a [`LlmBackend`] says, but for its client.
pub enum BackendV {
    Ollama { base_url: Seq<char>, api_key: Option<Seq<char>> },
    OpenAiCompat { base_url: Seq<char>, label: Seq<char>, api_key: Option<Seq<char>> },
    Custom {
        base_url: Seq<char>,
        api_key: Option<Seq<char>>,
        models: Seq<CustomModelV>,
        api_type: Seq<char>,
    },
}

impl View for LlmBackend {
    type V = BackendV;

    open spec fn view(&self) -> BackendV {
        match self {
            LlmBackend::Ollama(b) => BackendV::Ollama {
                base_url: b.base_url@,
                api_key: text::opt_view(b.api_key),
            },
            LlmBackend::OpenAiCompat(b) => BackendV::OpenAiCompat {
                base_url: b.base_url@,
                label: b.label@,
                api_key: text::opt_view(b.api_key),
            },
            LlmBackend::Custom(b) => BackendV::Custom {
                base_url: b.base_url@,
                api_key: text::opt_view(b.api_key),
                models: types::models_view(b.models@),
                api_type: b.api_type@,
            },
        }
    }
}

impl LlmBackend {
    /// The client that sends the requests.
    pub open spec fn sender(self) -> reqwest::Client {
        match self {
            LlmBackend::Ollama(b) => b.client,
            LlmBackend::OpenAiCompat(b) => b.client,
            LlmBackend::Custom(b) => b.client,
        }
    }
}

/// The address of a server.
pub open spec fn url_of(b: BackendV) -> Seq<char> {
    match b {
        BackendV::Ollama { base_url, .. } => base_url,
        BackendV::OpenAiCompat { base_url, .. } => base_url,
        BackendV::Custom { base_url, .. } => base_url,
    }
}

/// The server that the entry `e` describes, with the key `key`.
pub open spec fn described(e: ServerV, key: Option<Seq<char>>) -> BackendV {
    let url = text::strip_trailing(e.url, '/');
    match kind::kind_of(e.kind) {
        LlmBackendKind::Ollama => BackendV::Ollama { base_url: url, api_key: key },
        LlmBackendKind::OpenAiCompat | LlmBackendKind::LocalAi => BackendV::OpenAiCompat {
            base_url: url,
            label: e.kind,
            api_key: key,
        },
        LlmBackendKind::Custom => BackendV::Custom {
            base_url: url,
            api_key: key,
            models: e.models,
            api_type: match e.api_type {
                Some(t) => t,
                None => "chat-completions"@,
            },
        },
    }
}

/// The server that the entry `e` describes, where an inference cell said that it
/// runs the engine `engine`.
pub open spec fn described_probed(
    e: ServerV,
    key: Option<Seq<char>>,
    engine: Option<Seq<char>>,
) -> BackendV {
    if servers::is_cell(e.kind) && engine == Some("ollama"@) {
        BackendV::Ollama { base_url: text::strip_trailing(e.url, '/'), api_key: key }
    } else {
        described(e, key)
    }
}

/// An address, whole.
pub open spec fn is_address(u: Seq<char>) -> bool {
    text::starts(u, "http://"@) || text::starts(u, "https://"@)
}

/// Whether `u` is a whole address.
pub fn is_full_url(u: &str) -> (r: bool)
    ensures
        r == is_address(u@),
{
    text::starts_with(u, "http://") || text::starts_with(u, "https://")
}

/// The entry of the model `id`.
pub open spec fn model_entry(models: Seq<CustomModelV>, id: Seq<char>) -> Option<CustomModelV>
    decreases models.len(),
{
    if models.len() == 0 {
        None
    } else if models[0].id == id {
        Some(models[0])
    } else {
        model_entry(models.skip(1), id)
    }
}

fn find_model<'a>(models: &'a Vec<CustomModelEntry>, id: &str) -> (r: Option<&'a CustomModelEntry>)
    ensures
        match r {
            Some(m) => model_entry(types::models_view(models@), id@) == Some(m@),
            None => model_entry(types::models_view(models@), id@) is None,
        },
{
    let ghost mv = types::models_view(models@);
    assert(mv.skip(0) =~= mv);
    for i in 0..models.len()
        invariant
            mv == types::models_view(models@),
            model_entry(mv, id@) == model_entry(mv.skip(i as int), id@),
    {
        assert(mv.skip(i as int)[0] == models@[i as int]@);
        assert(mv.skip(i as int).skip(1) =~= mv.skip(i as int + 1));
        if text::str_eq(&models[i].id, id) {
            return Some(&models[i]);
        }
    }
    None
}

/// Where a model of a custom endpoint at `base` is asked: at its own address, or
/// else at the usual one.
pub open spec fn custom_chat_path(
    base: Seq<char>,
    models: Seq<CustomModelV>,
    model: Seq<char>,
) -> Seq<char> {
    let root = text::strip_trailing(base, '/');
    let own = match model_entry(models, model) {
        Some(m) => m.url,
        None => None,
    };
    match own {
        Some(u) => if u.len() == 0 {
            root + "/v1/chat/completions"@
        } else if is_address(u) {
            u
        } else if u[0] == '/' {
            root + u
        } else {
            root + "/"@ + u
        },
        None => root + "/v1/chat/completions"@,
    }
}

impl CustomEndpointBackend {
    /// Where the model `model` is asked.
    pub fn chat_path_for_model(&self, model: &str) -> (r: String)
        ensures
            r@ == custom_chat_path(self.base_url@, types::models_view(self.models@), model@),
    {
        let root = text::trim_end_char(&self.base_url, '/');
        if let Some(m) = find_model(&self.models, model) {
            if let Some(u) = &m.url {
                if !u.as_str().is_empty() {
                    if is_full_url(u) {
                        return text::copy(u);
                    }
                    let cs = text::chars_of(u);
                    if cs[0] == '/' {
                        return text::concat2(&root, u);
                    }
                    return text::concat3(&root, "/", u);
                }
            }
        }
        text::concat2(&root, "/v1/chat/completions")
    }

    /// What a look at the endpoint says: it is well where one of two places
    /// answers, and where the user names its models.
    pub fn health(&self, health_answers: bool, models_answer: bool) -> (r: Result<(), String>)
        ensures
            match r {
                Ok(_) => health_answers || models_answer || self.models@.len() > 0,
                Err(m) => !health_answers && !models_answer && self.models@.len() == 0 && m@
                    == "custom endpoint health check failed"@,
            },
    {
        if health_answers || models_answer || self.models.len() > 0 {
            Ok(())
        } else {
            Err(text::copy("custom endpoint health check failed"))
        }
    }
}

/// Where a model of the server `b` is asked.
pub open spec fn chat_path_of(b: BackendV, model: Seq<char>) -> Seq<char> {
    match b {
        BackendV::Custom { base_url, models, .. } => custom_chat_path(base_url, models, model),
        _ => url_of(b) + "/v1/chat/completions"@,
    }
}

/// Whether a model of the server `b` has a whole address of its own.
pub open spec fn has_own_address(b: BackendV, model: Seq<char>) -> bool {
    match b {
        BackendV::Custom { models, .. } => match model_entry(models, model) {
            Some(m) => match m.url {
                Some(u) => is_address(u),
                None => false,
            },
            None => false,
        },
        _ => false,
    }
}

/// The key of a server.
pub open spec fn key_of(b: BackendV) -> Option<Seq<char>> {
    match b {
        BackendV::Ollama { api_key, .. } => api_key,
        BackendV::OpenAiCompat { api_key, .. } => api_key,
        BackendV::Custom { api_key, .. } => api_key,
    }
}

/// What a request shows to be let in, with the key `key`.
pub open spec fn bearer(key: Option<Seq<char>>) -> Option<Seq<char>> {
    match key {
        Some(k) => if k.len() > 0 {
            Some("Bearer "@ + k)
        } else {
            None
        },
        None => None,
    }
}

/// What a request shows to be let in; nothing, without a key.
pub fn authorization(api_key: Option<&str>) -> (r: Option<String>)
    ensures
        text::opt_view(r) == bearer(json::opt_str(api_key)),
{
    match api_key {
        Some(k) => if !k.is_empty() {
            Some(text::concat2("Bearer ", k))
        } else {
            None
        },
        None => None,
    }
}

impl LlmBackend {
    /// The server of the kind `kind_str` at `base_url`.
    pub fn from_config(kind_str: &str, base_url: &str, client: reqwest::Client) -> (r: LlmBackend)
        ensures
            r@ == described(
                ServerV {
                    id: Seq::empty(),
                    kind: kind_str@,
                    url: base_url@,
                    label: None,
                    attached: false,
                    order: 0,
                    source: "legacy"@,
                    api_type: None,
                    models: Seq::empty(),
                    advertise_to_cluster: true,
                },
                None,
            ),
            r.sender() == client,
    {
        proof {
            reveal_strlit("");
        }
        let e = LlmServerEntry {
            id: text::copy(""),
            kind: text::copy(kind_str),
            url: text::copy(base_url),
            label: None,
            attached: false,
            order: 0,
            source: text::copy("legacy"),
            api_type: None,
            models: Vec::new(),
            advertise_to_cluster: true,
        };
        assert(e@.models =~= Seq::<CustomModelV>::empty());
        assert(e@.id =~= Seq::<char>::empty());
        LlmBackend::from_server_entry(&e, None, client)
    }

    /// The server that `entry` describes.
    pub fn from_server_entry(
        entry: &LlmServerEntry,
        api_key: Option<String>,
        client: reqwest::Client,
    ) -> (r: LlmBackend)
        ensures
            r@ == described(entry@, text::opt_view(api_key)),
            r.sender() == client,
    {
        let url = text::trim_end_char(&entry.url, '/');
        match parse_kind(&entry.kind) {
            LlmBackendKind::Ollama => LlmBackend::Ollama(
                OllamaBackend { base_url: url, client, api_key },
            ),
            LlmBackendKind::OpenAiCompat | LlmBackendKind::LocalAi => LlmBackend::OpenAiCompat(
                OpenAiCompatBackend {
                    base_url: url,
                    client,
                    label: text::copy(&entry.kind),
                    api_key,
                },
            ),
            LlmBackendKind::Custom => {
                let e = entry.copy();
                LlmBackend::Custom(
                    CustomEndpointBackend {
                        base_url: url,
                        client,
                        api_key,
                        models: e.models,
                        api_type: match e.api_type {
                            Some(t) => t,
                            None => text::copy("chat-completions"),
                        },
                    },
                )
            },
        }
    }

    /// The server that `entry` describes, where an inference cell said that it
    /// runs the engine `engine`.
    pub fn from_server_entry_probed(
        entry: &LlmServerEntry,
        api_key: Option<String>,
        client: reqwest::Client,
        engine: Option<&str>,
    ) -> (r: LlmBackend)
        ensures
            r@ == described_probed(entry@, text::opt_view(api_key), json::opt_str(engine)),
            r.sender() == client,
    {
        if servers::is_inference_cell_kind(&entry.kind) {
            if let Some(e) = engine {
                if text::str_eq(e, "ollama") {
                    let base_url = text::trim_end_char(&entry.url, '/');
                    return LlmBackend::Ollama(OllamaBackend { base_url, client, api_key });
                }
            }
        }
        LlmBackend::from_server_entry(entry, api_key, client)
    }

    /// How the server is spoken to.
    pub fn kind(&self) -> (r: LlmBackendKind)
        ensures
            r == match self@ {
                BackendV::Ollama { .. } => LlmBackendKind::Ollama,
                BackendV::OpenAiCompat { label, .. } => if label == "localai"@ {
                    LlmBackendKind::LocalAi
                } else {
                    LlmBackendKind::OpenAiCompat
                },
                BackendV::Custom { .. } => LlmBackendKind::Custom,
            },
    {
        match self {
            LlmBackend::Ollama(_) => LlmBackendKind::Ollama,
            LlmBackend::OpenAiCompat(b) => if text::str_eq(&b.label, "localai") {
                LlmBackendKind::LocalAi
            } else {
                LlmBackendKind::OpenAiCompat
            },
            LlmBackend::Custom(_) => LlmBackendKind::Custom,
        }
    }

    /// The name of the kind of the server.
    pub fn kind_str(&self) -> (r: &str)
        ensures
            r@ == match self@ {
                BackendV::Ollama { .. } => "ollama"@,
                BackendV::OpenAiCompat { label, .. } => label,
                BackendV::Custom { .. } => "custom"@,
            },
    {
        match self {
            LlmBackend::Ollama(_) => "ollama",
            LlmBackend::OpenAiCompat(b) => b.label.as_str(),
            LlmBackend::Custom(_) => "custom",
        }
    }

    /// The address of the server.
    pub fn base_url(&self) -> (r: &str)
        ensures
            r@ == url_of(self@),
    {
        match self {
            LlmBackend::Ollama(b) => b.base_url.as_str(),
            LlmBackend::OpenAiCompat(b) => b.base_url.as_str(),
            LlmBackend::Custom(b) => b.base_url.as_str(),
        }
    }

    /// Whether the server answers as Ollama does.
    pub fn supports_ollama_native(&self) -> (r: bool)
        ensures
            r == (self@ is Ollama),
    {
        matches!(self, LlmBackend::Ollama(_))
    }

    /// Where a server is asked to chat.
    pub fn chat_path(&self) -> (r: &str)
        ensures
            r@ == "/v1/chat/completions"@,
    {
        "/v1/chat/completions"
    }

    /// Where the model `model` is asked.
    pub fn chat_path_for_model(&self, model: &str) -> (r: String)
        ensures
            r@ == chat_path_of(self@, model@),
    {
        match self {
            LlmBackend::Custom(b) => b.chat_path_for_model(model),
            _ => text::concat2(self.base_url(), self.chat_path()),
        }
    }

    /// Whether the model `model` has a whole address of its own.
    pub fn is_full_url_path(&self, model: &str) -> (r: bool)
        ensures
            r == has_own_address(self@, model@),
    {
        match self {
            LlmBackend::Custom(b) => match find_model(&b.models, model) {
                Some(m) => match &m.url {
                    Some(u) => is_full_url(u),
                    None => false,
                },
                None => false,
            },
            _ => false,
        }
    }

    /// The key of the server.
    pub fn api_key(&self) -> (r: Option<&str>)
        ensures
            json::opt_str(r) == key_of(self@),
    {
        let k = match self {
            LlmBackend::Ollama(b) => &b.api_key,
            LlmBackend::OpenAiCompat(b) => &b.api_key,
            LlmBackend::Custom(b) => &b.api_key,
        };
        match k {
            Some(s) => Some(s.as_str()),
            None => None,
        }
    }

    /// Where a request for `path` goes: to `path` itself, where it is a whole
    /// address.
    pub fn target_url(&self, path: &str) -> (r: String)
        ensures
            r@ == if is_address(path@) {
                path@
            } else {
                url_of(self@) + path@
            },
    {
        if is_full_url(path) {
            text::copy(path)
        } else {
            text::concat2(self.base_url(), path)
        }
    }
}

/// The request to delete the model `model`.
pub open spec fn delete_request(model: Seq<char>) -> JsonV {
    JsonV::Obj(Map::<Seq<char>, JsonV>::empty().insert("model"@, JsonV::Str(model)))
}

/// What asks a server to delete the model `model`.
pub fn delete_body(model: &str) -> (r: String)
    ensures
        r@ == json::json_print(delete_request(model@)),
        json::reads_as(r@, delete_request(model@)),
{
    proof {
        reveal_strlit("model");
        reveal_strlit("$serde_json::private::RawValue");
        assert("model"@.len() != "$serde_json::private::RawValue"@.len());
        assert(json::is_plain(delete_request(model@), 127)) by {
            reveal_with_fuel(json::is_plain, 2);
        }
    }
    json::print(&json::object().with("model", json::string(model)))
}

/// The request to an older server to delete the model `model`.
pub open spec fn delete_fallback_request(model: Seq<char>) -> JsonV {
    JsonV::Obj(
        Map::<Seq<char>, JsonV>::empty().insert("model"@, JsonV::Str(model)).insert(
            "name"@,
            JsonV::Str(model),
        ),
    )
}

/// What asks an older server to delete the model `model`.
pub fn delete_fallback_body(model: &str) -> (r: String)
    ensures
        r@ == json::json_print(delete_fallback_request(model@)),
        json::reads_as(r@, delete_fallback_request(model@)),
{
    proof {
        reveal_strlit("model");
        reveal_strlit("name");
        reveal_strlit("$serde_json::private::RawValue");
        assert("model"@.len() != "$serde_json::private::RawValue"@.len());
        assert("name"@.len() != "$serde_json::private::RawValue"@.len());
        assert(json::is_plain(delete_fallback_request(model@), 127)) by {
            reveal_with_fuel(json::is_plain, 2);
        }
    }
    json::print(
        &json::object().with("model", json::string(model)).with("name", json::string(model)),
    )
}

/// What an inference cell says of itself.
#[derive(Debug, PartialEq)]
pub struct InferenceCellInfo {
    pub engine: String,
}

/// The engine of an inference cell: the one that it says, or else the one whose
/// places answer.
pub fn probe_inference_cell_engine(
    info: Option<InferenceCellInfo>,
    tags_answer: bool,
    models_answer: bool,
) -> (r: Option<String>)
    ensures
        text::opt_view(r) == (match info {
            Some(i) => Some(i.engine@),
            None => if tags_answer {
                Some("ollama"@)
            } else if models_answer {
                Some("llamacpp"@)
            } else {
                None
            },
        }),
{
    match info {
        Some(i) => Some(i.engine),
        None => if tags_answer {
            Some(text::copy("ollama"))
        } else if models_answer {
            Some(text::copy("llamacpp"))
        } else {
            None
        },
    }
}

/// The server that a configuration names; none where it names no address.
pub open spec fn configured(c: ConfigV) -> Option<BackendV> {
    match c.llm_url {
        Some(url) => Some(
            described(
                ServerV {
                    id: Seq::empty(),
                    kind: match c.llm_backend {
                        Some(k) => k,
                        None => "ollama"@,
                    },
                    url,
                    label: None,
                    attached: false,
                    order: 0,
                    source: "legacy"@,
                    api_type: None,
                    models: Seq::empty(),
                    advertise_to_cluster: true,
                },
                None,
            ),
        ),
        None => None,
    }
}

/// The server that the configuration names.
pub fn ensure_backend(config: &ClientConfig, client: reqwest::Client) -> (r: Result<
    LlmBackend,
    String,
>)
    ensures
        match r {
            Ok(b) => configured(config@) == Some(b@) && b.sender() == client,
            Err(m) => configured(config@) is None && m@ == "LLM URL not configured"@,
        },
{
    let kind = match &config.llm_backend {
        Some(k) => text::copy(k),
        None => text::copy("ollama"),
    };
    match &config.llm_url {
        Some(url) => Ok(LlmBackend::from_config(&kind, url, client)),
        None => Err(text::copy("LLM URL not configured")),
    }
}

/// The server that the configuration names.
pub fn ensure_backend_from_config(config: &ClientConfig, client: reqwest::Client) -> (r: Result<
    LlmBackend,
    String,
>)
    ensures
        match r {
            Ok(b) => configured(config@) == Some(b@) && b.sender() == client,
            Err(m) => configured(config@) is None && m@ == "LLM URL not configured"@,
        },
{
    ensure_backend(config, client)
}

/// Whether the GPUs of the host are read, by a setting.
pub fn default_gpu_probe(setting: Option<&str>) -> (r: GpuProbeMode)
    ensures
        r == gpu::mode_of(json::opt_str(setting)),
{
    gpu::gpu_probe_mode(setting)
}

/// The models of a server, and the GPUs that they run on.
#[derive(Debug)]
pub struct ModelCatalogSnapshot {
    pub models: Vec<Json>,
    pub model_names: Vec<String>,
    pub gpu_host: Option<GpuHostStatus>,
}

/// The models that a server speaking as OpenAI lists: those with an id.
pub open spec fn listed_names(data: Seq<JsonV>) -> Seq<Seq<char>>
    decreases data.len(),
{
    if data.len() == 0 {
        Seq::empty()
    } else {
        let before = listed_names(data.drop_last());
        match json::str_field(data.last(), "id"@) {
            Some(id) => if id.len() > 0 {
                before.push(id)
            } else {
                before
            },
            None => before,
        }
    }
}

/// What is said of a model of which the server does not say whether it is loaded.
pub open spec fn unknown_status() -> JsonV {
    JsonV::Obj(
        Map::<Seq<char>, JsonV>::empty().insert("loaded"@, JsonV::Bool(false)).insert(
            "processor"@,
            JsonV::Str("unknown"@),
        ).insert("cpu_pct"@, JsonV::Int(0)).insert("gpu_pct"@, JsonV::Int(0)),
    )
}

/// The model `id` that a server lists in `entry`.
pub open spec fn listed_model(entry: JsonV, id: Seq<char>) -> JsonV {
    JsonV::Obj(
        Map::<Seq<char>, JsonV>::empty().insert("name"@, JsonV::Str(id)).insert(
            "model"@,
            JsonV::Str(id),
        ).insert(
            "_status"@,
            match json::field(entry, "_status"@) {
                Some(s) => s,
                None => unknown_status(),
            },
        ),
    )
}

/// The models that a server speaking as OpenAI lists.
pub open spec fn listed_models(data: Seq<JsonV>) -> Seq<JsonV>
    decreases data.len(),
{
    if data.len() == 0 {
        Seq::empty()
    } else {
        let before = listed_models(data.drop_last());
        match json::str_field(data.last(), "id"@) {
            Some(id) => if id.len() > 0 {
                before.push(listed_model(data.last(), id))
            } else {
                before
            },
            None => before,
        }
    }
}

/// The list in an answer of a server speaking as OpenAI; an empty one where the
/// answer holds none.
pub open spec fn data_of(reply: JsonV) -> Seq<JsonV> {
    match json::arr_in(json::field(reply, "data"@)) {
        Some(d) => d,
        None => Seq::empty(),
    }
}

/// The models in the answer of a server speaking as OpenAI.
pub fn openai_models(reply: &Json, gpu_host: Option<GpuHostStatus>) -> (r: ModelCatalogSnapshot)
    ensures
        json::items_view(r.models@) == listed_models(data_of(reply@)),
        text::views(r.model_names@) == listed_names(data_of(reply@)),
        r.gpu_host == gpu_host,
{
    let mut models: Vec<Json> = Vec::new();
    let mut model_names: Vec<String> = Vec::new();
    let ghost dv = data_of(reply@);
    assert(json::items_view(models@) =~= listed_models(dv.take(0)));
    assert(text::views(model_names@) =~= listed_names(dv.take(0)));
    let data = match reply.get("data") {
        Some(d) => d.as_array(),
        None => None,
    };
    if let Some(data) = data {
        for i in 0..data.len()
            invariant
                dv == json::items_view(data@),
                json::items_view(models@) == listed_models(dv.take(i as int)),
                text::views(model_names@) == listed_names(dv.take(i as int)),
        {
            proof {
                assert(dv.take(i as int + 1).drop_last() =~= dv.take(i as int));
                assert(dv.take(i as int + 1).last() == data@[i as int]@);
            }
            if let Some(id) = data[i].get_str("id") {
                if !id.is_empty() {
                    let name = text::copy(id);
                    let status = match data[i].get("_status") {
                        Some(s) => json::copy(s),
                        None => json::object().with("loaded", Json::Bool(false)).with(
                            "processor",
                            json::string("unknown"),
                        ).with("cpu_pct", Json::UInt(0)).with("gpu_pct", Json::UInt(0)),
                    };
                    let m = json::object().with("name", json::string(id)).with(
                        "model",
                        json::string(id),
                    ).with("_status", status);
                    proof {
                        text::lemma_views_push(model_names@, name);
                        json::lemma_items_push(models@, m);
                    }
                    model_names.push(name);
                    models.push(m);
                }
            }
        }
    }
    assert(dv.take(dv.len() as int) =~= dv);
    ModelCatalogSnapshot { models, model_names, gpu_host }
}

/// `m` with `v` under `k`, where there is one.
pub open spec fn with_opt(
    m: Map<Seq<char>, JsonV>,
    k: Seq<char>,
    v: Option<JsonV>,
) -> Map<Seq<char>, JsonV> {
    match v {
        Some(x) => m.insert(k, x),
        None => m,
    }
}

/// A truth value as JSON.
pub open spec fn bool_json(b: Option<bool>) -> Option<JsonV> {
    match b {
        Some(x) => Some(JsonV::Bool(x)),
        None => None,
    }
}

/// A number as JSON.
pub open spec fn u64_json(n: Option<u64>) -> Option<JsonV> {
    match n {
        Some(x) => Some(JsonV::Int(x as int)),
        None => None,
    }
}

/// What is said of a model of a custom endpoint.
pub open spec fn custom_model(m: CustomModelV) -> JsonV {
    let id = text::trimmed(m.id);
    let base = Map::<Seq<char>, JsonV>::empty().insert("loaded"@, JsonV::Bool(true)).insert(
        "processor"@,
        JsonV::Str("remote"@),
    );
    let status = with_opt(
        with_opt(
            with_opt(
                with_opt(base, "tool_calling"@, bool_json(m.tool_calling)),
                "vision"@,
                bool_json(m.vision),
            ),
            "max_input_tokens"@,
            u64_json(m.max_input_tokens),
        ),
        "max_output_tokens"@,
        u64_json(m.max_output_tokens),
    );
    JsonV::Obj(
        Map::<Seq<char>, JsonV>::empty().insert("name"@, JsonV::Str(id)).insert(
            "model"@,
            JsonV::Str(id),
        ).insert(
            "details"@,
            JsonV::Obj(
                Map::<Seq<char>, JsonV>::empty().insert(
                    "display_name"@,
                    JsonV::Str(servers::shown_name(m)),
                ),
            ),
        ).insert("_status"@, JsonV::Obj(status)),
    )
}

/// The models of a custom endpoint whose ids are not blank.
pub open spec fn custom_models(v: Seq<CustomModelV>) -> Seq<JsonV>
    decreases v.len(),
{
    if v.len() == 0 {
        Seq::empty()
    } else if text::trimmed(v.last().id).len() == 0 {
        custom_models(v.drop_last())
    } else {
        custom_models(v.drop_last()).push(custom_model(v.last()))
    }
}

/// The names of the models of a custom endpoint.
pub open spec fn custom_names(v: Seq<CustomModelV>) -> Seq<Seq<char>>
    decreases v.len(),
{
    if v.len() == 0 {
        Seq::empty()
    } else if text::trimmed(v.last().id).len() == 0 {
        custom_names(v.drop_last())
    } else {
        custom_names(v.drop_last()).push(text::trimmed(v.last().id))
    }
}

fn custom_model_json(m: &CustomModelEntry) -> (r: Json)
    ensures
        r@ == custom_model(m@),
{
    let id = text::trim(&m.id);
    let mut status = json::object().with("loaded", Json::Bool(true)).with(
        "processor",
        json::string("remote"),
    );
    if let Some(b) = m.tool_calling {
        status.set("tool_calling", Json::Bool(b));
    }
    if let Some(b) = m.vision {
        status.set("vision", Json::Bool(b));
    }
    if let Some(n) = m.max_input_tokens {
        status.set("max_input_tokens", Json::UInt(n));
    }
    if let Some(n) = m.max_output_tokens {
        status.set("max_output_tokens", Json::UInt(n));
    }
    let details = json::object().with("display_name", Json::Str(m.display_name()));
    json::object().with("name", json::string(&id)).with("model", json::string(&id)).with(
        "details",
        details,
    ).with("_status", status)
}

impl CustomEndpointBackend {
    /// The models of the endpoint.
    pub fn list_models(&self, gpu_host: Option<GpuHostStatus>) -> (r: ModelCatalogSnapshot)
        ensures
            json::items_view(r.models@) == custom_models(types::models_view(self.models@)),
            text::views(r.model_names@) == custom_names(types::models_view(self.models@)),
            r.gpu_host == gpu_host,
    {
        let mut models: Vec<Json> = Vec::new();
        let mut model_names: Vec<String> = Vec::new();
        let ghost mv = types::models_view(self.models@);
        assert(json::items_view(models@) =~= custom_models(mv.take(0)));
        assert(text::views(model_names@) =~= custom_names(mv.take(0)));
        for i in 0..self.models.len()
            invariant
                mv == types::models_view(self.models@),
                json::items_view(models@) == custom_models(mv.take(i as int)),
                text::views(model_names@) == custom_names(mv.take(i as int)),
        {
            proof {
                assert(mv.take(i as int + 1).drop_last() =~= mv.take(i as int));
                assert(mv.take(i as int + 1).last() == self.models@[i as int]@);
            }
            let id = text::trim(&self.models[i].id);
            if !id.as_str().is_empty() {
                let m = custom_model_json(&self.models[i]);
                proof {
                    text::lemma_views_push(model_names@, id);
                    json::lemma_items_push(models@, m);
                }
                model_names.push(id);
                models.push(m);
            }
        }
        assert(mv.take(mv.len() as int) =~= mv);
        ModelCatalogSnapshot { models, model_names, gpu_host }
    }
}

/// The list of models as Ollama gives it.
pub fn synthesize_tags(snapshot: ModelCatalogSnapshot) -> (r: Json)
    ensures
        r@ == JsonV::Obj(
            Map::<Seq<char>, JsonV>::empty().insert(
                "models"@,
                JsonV::Arr(json::items_view(snapshot.models@)),
            ),
        ),
{
    json::object().with("models", json::array(snapshot.models))
}

/// A model as OpenAI lists it.
pub open spec fn v1_model(id: Seq<char>) -> JsonV {
    JsonV::Obj(
        Map::<Seq<char>, JsonV>::empty().insert("id"@, JsonV::Str(id)).insert(
            "object"@,
            JsonV::Str("model"@),
        ).insert("created"@, JsonV::Int(0)).insert("owned_by"@, JsonV::Str("custom"@)),
    )
}

/// The models with a name, as OpenAI lists them.
pub open spec fn v1_models(models: Seq<JsonV>) -> Seq<JsonV>
    decreases models.len(),
{
    if models.len() == 0 {
        Seq::empty()
    } else {
        let before = v1_models(models.drop_last());
        match json::str_field(models.last(), "name"@) {
            Some(id) => before.push(v1_model(id)),
            None => before,
        }
    }
}

/// The list of models of a custom endpoint as OpenAI gives it.
pub fn synthesize_v1_models(snapshot: &ModelCatalogSnapshot) -> (r: Json)
    ensures
        r@ == JsonV::Obj(
            Map::<Seq<char>, JsonV>::empty().insert("object"@, JsonV::Str("list"@)).insert(
                "data"@,
                JsonV::Arr(v1_models(json::items_view(snapshot.models@))),
            ),
        ),
{
    let models = &snapshot.models;
    let ghost mv = json::items_view(models@);
    let mut data: Vec<Json> = Vec::new();
    assert(json::items_view(data@) =~= v1_models(mv.take(0)));
    for i in 0..models.len()
        invariant
            mv == json::items_view(models@),
            json::items_view(data@) == v1_models(mv.take(i as int)),
    {
        proof {
            assert(mv.take(i as int + 1).drop_last() =~= mv.take(i as int));
            assert(mv.take(i as int + 1).last() == models@[i as int]@);
        }
        if let Some(id) = models[i].get_str("name") {
            let m = json::object().with("id", json::string(id)).with(
                "object",
                json::string("model"),
            ).with("created", Json::UInt(0)).with("owned_by", json::string("custom"));
            proof {
                json::lemma_items_push(data@, m);
            }
            data.push(m);
        }
    }
    assert(mv.take(mv.len() as int) =~= mv);
    json::object().with("object", json::string("list")).with("data", json::array(data))
}

/// A server is reached where it was said to be, without slashes at the end, under the
/// key that it was given.
pub proof fn law_server_is_reached_where_it_is(
    e: ServerV,
    key: Option<Seq<char>>,
    engine: Option<Seq<char>>,
    url: Seq<char>,
    slashes: Seq<char>,
)
    requires
        e.url == url + slashes,
        url.len() == 0 || url.last() != '/',
        forall|i: int| 0 <= i < slashes.len() ==> #[trigger] slashes[i] == '/',
    ensures
        url_of(described(e, key)) == url,
        key_of(described(e, key)) == key,
        url_of(described_probed(e, key, engine)) == url,
        key_of(described_probed(e, key, engine)) == key,
        servers::is_cell(e.kind) && engine == Some("ollama"@) ==> described_probed(e, key, engine)
            is Ollama,
        !servers::is_cell(e.kind) || engine is None ==> described_probed(e, key, engine)
            == described(e, key),
{
    text::law_trailing_is_taken_off(url, '/', slashes);
}

/// A request carries the server's key as a bearer, and none where the key is empty or
/// missing.
pub proof fn law_key_is_carried(k: Seq<char>)
    ensures
        bearer(None) is None,
        k.len() > 0 ==> (bearer(Some(k)) matches Some(b) && text::after_prefix(b, "Bearer "@)
            == Some(k)),
        k.len() == 0 ==> bearer(Some(k)) is None,
{
    text::law_prefix_is_taken_off("Bearer "@, k, k);
}

proof fn lemma_model_entry(models: Seq<CustomModelV>, i: int, id: Seq<char>)
    requires
        0 <= i < models.len(),
        models[i].id == id,
        forall|j: int| 0 <= j < i ==> (#[trigger] models[j]).id != id,
    ensures
        model_entry(models, id) == Some(models[i]),
    decreases i,
{
    if i > 0 {
        let rest = models.skip(1);
        assert(rest[i - 1] == models[i]);
        assert(models[0].id != id);
        assert forall|j: int| 0 <= j < i - 1 implies (#[trigger] rest[j]).id != id by {
            assert(rest[j] == models[j + 1]);
        }
        lemma_model_entry(rest, i - 1, id);
    }
}

proof fn lemma_no_model_entry(models: Seq<CustomModelV>, id: Seq<char>)
    requires
        forall|j: int| 0 <= j < models.len() ==> (#[trigger] models[j]).id != id,
    ensures
        model_entry(models, id) is None,
    decreases models.len(),
{
    if models.len() > 0 {
        let rest = models.skip(1);
        assert(models[0].id != id);
        assert forall|j: int| 0 <= j < rest.len() implies (#[trigger] rest[j]).id != id by {
            assert(rest[j] == models[j + 1]);
        }
        lemma_no_model_entry(rest, id);
    }
}

/// A chat goes to the address that its model was given: a whole address as it is, a path
/// below the server's own; and without one to the server's usual place.
pub proof fn law_chat_goes_where_the_model_is(
    base: Seq<char>,
    models: Seq<CustomModelV>,
    i: int,
    model: Seq<char>,
    u: Seq<char>,
)
    requires
        base.len() == 0 || base.last() != '/',
    ensures
        0 <= i < models.len() && models[i].id == model && (forall|j: int|
            0 <= j < i ==> (#[trigger] models[j]).id != model) && models[i].url == Some(u) ==> {
            &&& text::starts(u, "http://"@) || text::starts(u, "https://"@) ==> custom_chat_path(
                base,
                models,
                model,
            ) == u
            &&& u.len() > 0 && u[0] == '/' ==> custom_chat_path(base, models, model) == base + u
            &&& u.len() == 0 ==> custom_chat_path(base, models, model) == base
                + "/v1/chat/completions"@
        },
        (forall|j: int| 0 <= j < models.len() ==> (#[trigger] models[j]).id != model)
            ==> custom_chat_path(base, models, model) == base + "/v1/chat/completions"@,
{
    let none = Seq::<char>::empty();
    text::law_trailing_is_taken_off(base, '/', none);
    assert(base + none =~= base);
    if 0 <= i < models.len() && models[i].id == model && (forall|j: int|
        0 <= j < i ==> (#[trigger] models[j]).id != model) {
        lemma_model_entry(models, i, model);
        reveal_strlit("http://");
        reveal_strlit("https://");
        assert("http://"@.len() == 7 && "https://"@.len() == 8);
        if u.len() > 0 && u[0] == '/' {
            assert(u.subrange(0, 1)[0] == '/');
            if text::starts(u, "http://"@) {
                assert(u.subrange(0, 7)[0] == 'h');
            }
            if text::starts(u, "https://"@) {
                assert(u.subrange(0, 8)[0] == 'h');
            }
        }
    }
    if forall|j: int| 0 <= j < models.len() ==> (#[trigger] models[j]).id != model {
        lemma_no_model_entry(models, model);
    }
}

proof fn lemma_listed_model(entry: JsonV, id: Seq<char>)
    ensures
        json::field(listed_model(entry, id), "name"@) == Some(JsonV::Str(id)),
        json::field(listed_model(entry, id), "model"@) == Some(JsonV::Str(id)),
        json::field(entry, "_status"@) matches Some(s) ==> json::field(
            listed_model(entry, id),
            "_status"@,
        ) == Some(s),
{
    reveal_strlit("name");
    reveal_strlit("model");
    reveal_strlit("_status");
    assert("name"@.len() == 4 && "model"@.len() == 5 && "_status"@.len() == 7);
}

/// Every model that a server lists with an identifier is one of its models, in the order
/// of the list, under that identifier and with the status that the server gives it; an
/// entry without one is none.
pub proof fn law_listed_models_are_models(data: Seq<JsonV>, e: JsonV, id: Seq<char>)
    ensures
        listed_names(Seq::<JsonV>::empty()).len() == 0,
        json::field(e, "id"@) == Some(JsonV::Str(id)) && id.len() > 0 ==> {
            &&& listed_names(data.push(e)) == listed_names(data).push(id)
            &&& listed_models(data.push(e)) == listed_models(data).push(
                listed_models(data.push(e)).last(),
            )
            &&& json::field(listed_models(data.push(e)).last(), "name"@) == Some(JsonV::Str(id))
            &&& json::field(e, "_status"@) matches Some(s) ==> json::field(
                listed_models(data.push(e)).last(),
                "_status"@,
            ) == Some(s)
        },
        !(json::field(e, "id"@) matches Some(JsonV::Str(_))) ==> listed_names(data.push(e))
            == listed_names(data) && listed_models(data.push(e)) == listed_models(data),
{
    assert(data.push(e).drop_last() =~= data);
    lemma_listed_model(e, id);
}

proof fn lemma_custom_model(m: CustomModelV)
    ensures
        json::field(custom_model(m), "name"@) == Some(JsonV::Str(text::trimmed(m.id))),
        json::field(custom_model(m), "_status"@) matches Some(s) && json::field(s, "loaded"@) == Some(
            JsonV::Bool(true),
        ),
{
    reveal_strlit("name");
    reveal_strlit("model");
    reveal_strlit("details");
    reveal_strlit("_status");
    reveal_strlit("loaded");
    reveal_strlit("processor");
    reveal_strlit("tool_calling");
    reveal_strlit("vision");
    reveal_strlit("max_input_tokens");
    reveal_strlit("max_output_tokens");
    assert("name"@.len() == 4 && "model"@.len() == 5 && "details"@.len() == 7 && "_status"@.len()
        == 7);
    assert("details"@[0] == 'd' && "_status"@[0] == '_');
    assert("loaded"@.len() == 6 && "processor"@.len() == 9 && "tool_calling"@.len() == 12
        && "vision"@.len() == 6 && "max_input_tokens"@.len() == 16 && "max_output_tokens"@.len()
        == 17);
    assert("loaded"@[0] == 'l' && "vision"@[0] == 'v');
}

/// The models of a custom server are those that it was given with an identifier, in
/// their order, and its list of names is theirs.
pub proof fn law_custom_models_are_listed(v: Seq<CustomModelV>, m: CustomModelV)
    ensures
        custom_models(Seq::<CustomModelV>::empty()).len() == 0,
        custom_models(v).len() == custom_names(v).len(),
        forall|i: int|
            0 <= i < custom_models(v).len() ==> json::field(#[trigger] custom_models(v)[i], "name"@)
                == Some(JsonV::Str(custom_names(v)[i])),
        text::trimmed(m.id).len() > 0 ==> custom_names(v.push(m)) == custom_names(v).push(
            text::trimmed(m.id),
        ),
        text::trimmed(m.id).len() == 0 ==> custom_names(v.push(m)) == custom_names(v),
    decreases v.len(),
{
    assert(v.push(m).drop_last() =~= v);
    if v.len() > 0 {
        law_custom_models_are_listed(v.drop_last(), m);
        lemma_custom_model(v.last());
        let front = v.drop_last();
        assert forall|i: int| 0 <= i < custom_models(v).len() implies json::field(
            #[trigger] custom_models(v)[i],
            "name"@,
        ) == Some(JsonV::Str(custom_names(v)[i])) by {
            if i < custom_models(front).len() {
                assert(custom_models(v)[i] == custom_models(front)[i]);
                assert(custom_names(v)[i] == custom_names(front)[i]);
            }
        }
    }
}

/// In OpenAI's list a model stands under its own name, in the order of the models.
pub proof fn law_v1_list_names_the_models(models: Seq<JsonV>, m: JsonV, name: Seq<char>)
    requires
        json::field(m, "name"@) == Some(JsonV::Str(name)),
    ensures
        v1_models(models.push(m)) == v1_models(models).push(v1_models(models.push(m)).last()),
        json::field(v1_models(models.push(m)).last(), "id"@) == Some(JsonV::Str(name)),
        json::field(v1_models(models.push(m)).last(), "object"@) == Some(JsonV::Str("model"@)),
{
    assert(models.push(m).drop_last() =~= models);
    reveal_strlit("id");
    reveal_strlit("object");
    reveal_strlit("created");
    reveal_strlit("owned_by");
    assert("id"@.len() == 2 && "object"@.len() == 6 && "created"@.len() == 7 && "owned_by"@.len()
        == 8);
}

/// A configuration that names an address is served there, by Ollama where it names no
/// other kind.
pub proof fn law_configured_server_is_used(c: ConfigV, url: Seq<char>)
    requires
        url.len() > 0,
        url.last() != '/',
    ensures
        c.llm_url == Some(url) ==> (configured(c) matches Some(b) && url_of(b) == url && key_of(b)
            is None),
        c.llm_url is None ==> configured(c) is None,
        configured((ConfigV { llm_backend: None, ..c })) == configured(
            (ConfigV { llm_backend: Some("ollama"@), ..c }),
        ),
{
    let none = Seq::<char>::empty();
    text::law_trailing_is_taken_off(url, '/', none);
    assert(url + none =~= url);
}

/// The list of an answer is what stands under `data`; an answer without one lists
/// nothing.
pub proof fn law_answer_lists_its_data(reply: JsonV, d: Seq<JsonV>)
    ensures
        json::field(reply, "data"@) == Some(JsonV::Arr(d)) ==> data_of(reply) == d,
        json::field(reply, "data"@) is None ==> data_of(reply).len() == 0,
{
}

/// A model that is to be deleted is named to every server, to an older one in both of the
/// fields that name it.
pub proof fn law_deleted_model_is_named(model: Seq<char>)
    ensures
        json::field(delete_request(model), "model"@) == Some(JsonV::Str(model)),
        json::field(delete_fallback_request(model), "model"@) == Some(JsonV::Str(model)),
        json::field(delete_fallback_request(model), "name"@) == Some(JsonV::Str(model)),
{
    reveal_strlit("model");
    reveal_strlit("name");
    assert("model"@.len() != "name"@.len());
}

} // verus!
