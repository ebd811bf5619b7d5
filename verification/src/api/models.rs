//! What the user does with models.

use crate::api::setup;
use crate::client_config::servers;
use crate::client_config::settings;
use crate::client_config::types::{ClientConfig, ConfigV};
use crate::inference_cell_run;
use crate::json;
use crate::json::{Json, JsonV};
use crate::llm_backend;
use crate::llm_proxy::requests::{Refusal, RefusalV};
use crate::llm_proxy::routing;
use crate::outside;
use crate::text;
use vstd::prelude::*;

verus! {

/// What is done with a model that is here.
#[derive(Debug, Clone, Copy, PartialEq, Eq, Structural)]
pub enum LocalModelAction {
    Delete,
    Load,
    Unload,
}

/// What a model can do.
#[derive(Debug, Clone, Copy, PartialEq, Eq, Structural)]
pub struct Abilities {
    pub embed_only: bool,
    pub embed: bool,
    pub generate: bool,
}

/// How something is done with a model.
#[derive(Debug)]
pub enum ModelStep {
    /// The inference cell that has the model does it.
    Cell,
    /// Ollama deletes the model.
    Delete,
    /// A request to Ollama does it: its path and its body, and how its failure is
    /// called.
    Post(&'static str, Json, &'static str),
}

/// How something is done with a model.
#[verifier::ext_equal]
pub enum StepV {
    Cell,
    Delete,
    Post(Seq<char>, JsonV, Seq<char>),
}

impl View for ModelStep {
    type V = StepV;

    open spec fn view(&self) -> StepV {
        match *self {
            ModelStep::Cell => StepV::Cell,
            ModelStep::Delete => StepV::Delete,
            ModelStep::Post(path, body, what) => StepV::Post(path@, body@, what@),
        }
    }
}

/// A request for an embedding that keeps the model loaded for `keep`.
pub open spec fn embed_request(model: Seq<char>, keep: JsonV) -> JsonV {
    JsonV::Obj(
        Map::<Seq<char>, JsonV>::empty().insert("model"@, JsonV::Str(model)).insert(
            "input"@,
            JsonV::Str("."@),
        ).insert("keep_alive"@, keep),
    )
}

/// A request for an answer that keeps the model loaded for `keep`.
pub open spec fn generate_request(model: Seq<char>, keep: JsonV) -> JsonV {
    JsonV::Obj(
        Map::<Seq<char>, JsonV>::empty().insert("model"@, JsonV::Str(model)).insert(
            "prompt"@,
            JsonV::Str("."@),
        ).insert("stream"@, JsonV::Bool(false)).insert("keep_alive"@, keep),
    )
}

fn embed_body(model: &str, keep: Json) -> (r: Json)
    ensures
        r@ == embed_request(model@, keep@),
{
    json::object().with("model", json::string(model)).with("input", json::string(".")).with(
        "keep_alive",
        keep,
    )
}

fn generate_body(model: &str, keep: Json) -> (r: Json)
    ensures
        r@ == generate_request(model@, keep@),
{
    json::object().with("model", json::string(model)).with("prompt", json::string(".")).with(
        "stream",
        Json::Bool(false),
    ).with("keep_alive", keep)
}

/// The kind of the server that the model `m` comes from.
pub open spec fn source_kind(m: Option<JsonV>) -> Seq<char> {
    match m {
        Some(j) => match json::str_field(j, "_source_kind"@) {
            Some(k) => k,
            None => "unknown"@,
        },
        None => "unknown"@,
    }
}

/// How `action` is done with the model `name`. Its server is an inference cell, or
/// else one that understands Ollama, as `native` tells. To be loaded a model
/// makes an embedding or an answer, and stays for half an hour; to be unloaded it
/// does the same, and does not stay.
pub open spec fn model_step(
    name: Seq<char>,
    action: LocalModelAction,
    model: Option<JsonV>,
    native: Option<bool>,
    can: Abilities,
) -> Result<StepV, RefusalV> {
    if source_kind(model) == "inference-cell"@ {
        Ok(StepV::Cell)
    } else {
        match native {
            None => Err(setup::bad_request("No Ollama backend available for this model"@)),
            Some(false) => Err(
                setup::bad_request(
                    "Load, unload, and delete are only supported for Ollama models"@,
                ),
            ),
            Some(true) => match action {
                LocalModelAction::Delete => Ok(StepV::Delete),
                LocalModelAction::Load => if can.embed_only {
                    Ok(
                        StepV::Post(
                            "/api/embed"@,
                            embed_request(name, JsonV::Str("30m"@)),
                            "Ollama embed load"@,
                        ),
                    )
                } else if !can.generate {
                    Err(
                        setup::bad_request(
                            name
                                + " is an embedding model \u{2014} use /api/embed, not chat generation"@,
                        ),
                    )
                } else {
                    Ok(
                        StepV::Post(
                            "/api/generate"@,
                            generate_request(name, JsonV::Str("30m"@)),
                            "Ollama load"@,
                        ),
                    )
                },
                LocalModelAction::Unload => if can.embed_only || (can.embed && !can.generate) {
                    Ok(
                        StepV::Post(
                            "/api/embed"@,
                            embed_request(name, JsonV::Int(0)),
                            "Ollama embed unload"@,
                        ),
                    )
                } else if !can.generate {
                    Err(setup::bad_request(name + " does not support generate unload"@))
                } else {
                    Ok(
                        StepV::Post(
                            "/api/generate"@,
                            generate_request(name, JsonV::Int(0)),
                            "Ollama unload"@,
                        ),
                    )
                },
            },
        }
    }
}

/// How `action` is done with the model `name` of those in `local_models`. `native`
/// tells of the server that has it, where there is one, whether it understands
/// Ollama.
pub fn local_model_action(
    name: &str,
    action: LocalModelAction,
    local_models: &Vec<Json>,
    native: Option<bool>,
    can: Abilities,
) -> (r: Result<ModelStep, Refusal>)
    ensures
        match model_step(
            name@,
            action,
            routing::named_model(json::items_view(local_models@), name@),
            native,
            can,
        ) {
            Ok(s) => r matches Ok(step) && step@ == s,
            Err(e) => r matches Err(f) && f@ == e,
        },
{
    let in_cell = match routing::find_model(local_models, name) {
        Some(m) => match m.get_str("_source_kind") {
            Some(k) => text::str_eq(k, "inference-cell"),
            None => false,
        },
        None => false,
    };
    proof {
        reveal_strlit("unknown");
        reveal_strlit("inference-cell");
        assert("unknown"@.len() != "inference-cell"@.len());
    }
    if in_cell {
        return Ok(ModelStep::Cell);
    }
    match native {
        None => {
            return Err(setup::refuse_bad("No Ollama backend available for this model"));
        },
        Some(n) => if !n {
            return Err(
                setup::refuse_bad("Load, unload, and delete are only supported for Ollama models"),
            );
        },
    }
    match action {
        LocalModelAction::Delete => Ok(ModelStep::Delete),
        LocalModelAction::Load => if can.embed_only {
            let body = embed_body(name, json::string("30m"));
            Ok(ModelStep::Post("/api/embed", body, "Ollama embed load"))
        } else if !can.generate {
            Err(
                setup::refuse_bad(
                    &text::concat2(
                        name,
                        " is an embedding model \u{2014} use /api/embed, not chat generation",
                    ),
                ),
            )
        } else {
            let body = generate_body(name, json::string("30m"));
            Ok(ModelStep::Post("/api/generate", body, "Ollama load"))
        },
        LocalModelAction::Unload => if can.embed_only || (can.embed && !can.generate) {
            let body = embed_body(name, Json::UInt(0));
            Ok(ModelStep::Post("/api/embed", body, "Ollama embed unload"))
        } else if !can.generate {
            Err(setup::refuse_bad(&text::concat2(name, " does not support generate unload")))
        } else {
            let body = generate_body(name, Json::UInt(0));
            Ok(ModelStep::Post("/api/generate", body, "Ollama unload"))
        },
    }
}

/// The answer where a server did not do what was asked of it.
pub fn action_failed(what: &str, status: &str, answer: &str) -> (r: Refusal)
    ensures
        r@ == (RefusalV {
            status: 502,
            message: what@ + " failed: "@ + status@ + " "@ + answer@,
        }),
{
    let front = text::concat3(what, " failed: ", status);
    Refusal { status: 502, message: text::concat3(&front, " ", answer) }
}

/// The server and the address that a model of an inference cell comes from.
pub fn cell_source(model: Option<&Json>) -> (r: Result<(String, String), Refusal>)
    ensures
        ({
            let server = match json::opt(model) {
                Some(m) => json::str_field(m, "_source_server"@),
                None => None,
            };
            let url = match json::opt(model) {
                Some(m) => json::str_field(m, "_source_url"@),
                None => None,
            };
            match (server, url) {
                (None, _) => r matches Err(e) && e@ == setup::bad_request(
                    "Missing inference-cell source server id"@,
                ),
                (Some(_), None) => r matches Err(e) && e@ == setup::bad_request(
                    "Missing inference-cell source URL"@,
                ),
                (Some(s), Some(u)) => r matches Ok(v) && v.0@ == s && v.1@ == text::strip_trailing(
                    u,
                    '/',
                ),
            }
        }),
{
    let server = match model {
        Some(m) => m.get_str("_source_server"),
        None => None,
    };
    let server = match server {
        Some(s) => s,
        None => {
            return Err(setup::refuse_bad("Missing inference-cell source server id"));
        },
    };
    let url = match model {
        Some(m) => m.get_str("_source_url"),
        None => None,
    };
    match url {
        Some(u) => Ok((text::copy(server), text::trim_end_char(u, '/'))),
        None => Err(setup::refuse_bad("Missing inference-cell source URL")),
    }
}

/// What is asked of an inference cell.
#[derive(Debug)]
pub struct CellRequest {
    pub url: String,
    pub body: Option<Json>,
    pub authorization: Option<String>,
}

/// An object with one text.
pub open spec fn one_text(k: Seq<char>, value: Seq<char>) -> JsonV {
    JsonV::Obj(Map::<Seq<char>, JsonV>::empty().insert(k, JsonV::Str(value)))
}

/// What is asked of the inference cell at `base_url` to do `action` with the model
/// `name`.
pub fn inference_cell_model_action(
    base_url: &str,
    name: &str,
    action: LocalModelAction,
    admin_token: Option<&str>,
) -> (r: CellRequest)
    ensures
        r.url@ == base_url@ + match action {
            LocalModelAction::Load => "/mtrxai/v1/models/load"@,
            LocalModelAction::Unload => "/mtrxai/v1/models/unload"@,
            LocalModelAction::Delete => "/mtrxai/v1/models/delete"@,
        },
        json::opt_owned(r.body) == match action {
            LocalModelAction::Load => Some(one_text("model"@, name@)),
            LocalModelAction::Unload => None,
            LocalModelAction::Delete => Some(one_text("filename"@, name@)),
        },
        text::opt_view(r.authorization) == llm_backend::bearer(json::opt_str(admin_token)),
{
    let authorization = inference_cell_run::admin_authorization(admin_token);
    match action {
        LocalModelAction::Load => CellRequest {
            url: text::concat2(base_url, "/mtrxai/v1/models/load"),
            body: Some(json::object().with("model", json::string(name))),
            authorization,
        },
        LocalModelAction::Unload => CellRequest {
            url: text::concat2(base_url, "/mtrxai/v1/models/unload"),
            body: None,
            authorization,
        },
        LocalModelAction::Delete => CellRequest {
            url: text::concat2(base_url, "/mtrxai/v1/models/delete"),
            body: Some(json::object().with("filename", json::string(name))),
            authorization,
        },
    }
}

/// What the user gives to run a model here.
#[derive(Debug)]
pub struct ModelRunLocalBody {
    pub model: String,
    pub server_id: Option<String>,
    pub hf_repo: Option<String>,
    pub quant: Option<String>,
}

/// How a model is run here.
#[derive(Debug)]
pub enum RunPlan {
    /// Ollama runs the model, on the server that is named, if one is.
    Ollama(String, Option<String>),
    /// An inference cell fetches the model and runs it.
    Cell { server_id: String, hf_repo: String, quant: String, display_name: String },
}

/// How a model is run here.
#[verifier::ext_equal]
pub enum RunPlanV {
    Ollama(Seq<char>, Option<Seq<char>>),
    Cell {
        server_id: Seq<char>,
        hf_repo: Seq<char>,
        quant: Seq<char>,
        display_name: Seq<char>,
    },
}

impl View for RunPlan {
    type V = RunPlanV;

    open spec fn view(&self) -> RunPlanV {
        match *self {
            RunPlan::Ollama(m, s) => RunPlanV::Ollama(m@, text::opt_view(s)),
            RunPlan::Cell { server_id, hf_repo, quant, display_name } => RunPlanV::Cell {
                server_id: server_id@,
                hf_repo: hf_repo@,
                quant: quant@,
                display_name: display_name@,
            },
        }
    }
}

/// Whether a server takes its models from Ollama's library: its engine says so,
/// or it does not say and understands Ollama.
pub open spec fn from_ollama(engine: Option<Seq<char>>, native: bool) -> bool {
    engine == Some("ollama"@) || (engine is None && native)
}

fn is_from_ollama(engine: Option<&str>, native: bool) -> (r: bool)
    ensures
        r == from_ollama(json::opt_str(engine), native),
{
    match engine {
        Some(e) => text::str_eq(e, "ollama"),
        None => native,
    }
}

/// What a server that is named but empty amounts to.
pub open spec fn given(s: Option<Seq<char>>) -> Option<Seq<char>> {
    match s {
        Some(t) => if t.len() > 0 {
            Some(t)
        } else {
            None
        },
        None => None,
    }
}

/// How the user's request to run a model here is served.
pub open spec fn run_plan(
    c: ConfigV,
    attached: nat,
    body: ModelRunLocalBody,
    engine: Option<Seq<char>>,
    native: bool,
) -> Result<RunPlanV, RefusalV> {
    let model = text::trimmed(body.model@);
    if attached == 0 {
        Err(RefusalV { status: 503, message: "No LLM servers attached"@ })
    } else {
        match given(text::opt_view(body.server_id)) {
            None => if model.len() == 0 {
                Err(setup::bad_request("model required"@))
            } else {
                Ok(RunPlanV::Ollama(model, None))
            },
            Some(id) => match inference_cell_run::server_at(c.llm_servers, id) {
                None => Err(setup::bad_request("server not found"@)),
                Some(i) => if !servers::is_cell(c.llm_servers[i].kind) {
                    Err(
                        setup::bad_request(
                            "server_id is only valid for inference-cell servers"@,
                        ),
                    )
                } else if from_ollama(engine, native) {
                    if model.len() == 0 {
                        Err(setup::bad_request("model required"@))
                    } else {
                        Ok(RunPlanV::Ollama(model, Some(id)))
                    }
                } else {
                    match inference_cell_run::cell_fault(c.llm_servers, id) {
                        Some(m) => Err(setup::bad_request(m)),
                        None => {
                            let repo = settings::filled(text::opt_view(body.hf_repo));
                            if repo is None && model.len() == 0 {
                                Err(setup::bad_request("hf_repo required"@))
                            } else {
                                let hf_repo = settings::or_value(repo, model);
                                Ok(
                                    RunPlanV::Cell {
                                        server_id: id,
                                        hf_repo,
                                        quant: settings::or_value(
                                            settings::filled(text::opt_view(body.quant)),
                                            "Q4_K_M"@,
                                        ),
                                        display_name: if model.len() == 0 {
                                            hf_repo
                                        } else {
                                            model
                                        },
                                    },
                                )
                            }
                        },
                    }
                },
            },
        }
    }
}

fn filled_text(o: &Option<String>) -> (r: Option<String>)
    ensures
        text::opt_view(r) == settings::filled(text::opt_view(*o)),
{
    match o {
        Some(s) => settings::env_non_empty(Some(s.as_str())),
        None => None,
    }
}

/// How the user's request to run a model here is served. `attached` is how many
/// servers are attached; `engine` and `native` tell of the server that the
/// request names.
pub fn post_model_run_local(
    config: &ClientConfig,
    attached: usize,
    body: &ModelRunLocalBody,
    engine: Option<&str>,
    native: bool,
) -> (r: Result<RunPlan, Refusal>)
    ensures
        match run_plan(config@, attached as nat, *body, json::opt_str(engine), native) {
            Ok(p) => r matches Ok(plan) && plan@ == p,
            Err(e) => r matches Err(f) && f@ == e,
        },
{
    if attached == 0 {
        return Err(Refusal { status: 503, message: text::copy("No LLM servers attached") });
    }
    let model = text::trim(&body.model);
    let no_model = model.as_str().is_empty();
    if let Some(server_id) = &body.server_id {
        if !server_id.as_str().is_empty() {
            match inference_cell_run::find_server(config, server_id) {
                None => {
                    return Err(setup::refuse_bad("server not found"));
                },
                Some(entry) => {
                    if !servers::is_inference_cell_kind(&entry.kind) {
                        return Err(
                            setup::refuse_bad("server_id is only valid for inference-cell servers"),
                        );
                    }
                },
            }
            if is_from_ollama(engine, native) {
                if no_model {
                    return Err(setup::refuse_bad("model required"));
                }
                return Ok(RunPlan::Ollama(model, Some(text::copy(server_id))));
            }
            if let Err(m) = inference_cell_run::find_inference_cell_server(config, server_id) {
                return Err(Refusal { status: 400, message: m });
            }
            let hf_repo = match filled_text(&body.hf_repo) {
                Some(repo) => repo,
                None => {
                    if no_model {
                        return Err(setup::refuse_bad("hf_repo required"));
                    }
                    text::copy(&model)
                },
            };
            let quant = match filled_text(&body.quant) {
                Some(q) => q,
                None => text::copy("Q4_K_M"),
            };
            let display_name = if no_model {
                text::copy(&hf_repo)
            } else {
                model
            };
            return Ok(
                RunPlan::Cell { server_id: text::copy(server_id), hf_repo, quant, display_name },
            );
        }
    }
    if no_model {
        return Err(setup::refuse_bad("model required"));
    }
    Ok(RunPlan::Ollama(model, None))
}

/// Why the catalog of model files is not shown for a server; nothing, where it is.
pub open spec fn catalog_fault(
    c: ConfigV,
    id: Seq<char>,
    engine: Option<Seq<char>>,
    native: bool,
) -> Option<Seq<char>> {
    match inference_cell_run::server_at(c.llm_servers, id) {
        None => Some("server not found"@),
        Some(i) => if !servers::is_cell(c.llm_servers[i].kind) {
            Some("HF catalog requires a llama.cpp inference-cell server"@)
        } else if from_ollama(engine, native) {
            Some(
                "HF catalog is for llama.cpp inference-cell; use Ollama library catalog for Ollama engine"@,
            )
        } else {
            inference_cell_run::cell_fault(c.llm_servers, id)
        },
    }
}

/// Whether the catalog of model files is shown for a server, or else what is
/// answered.
pub fn require_hf_inference_cell_server(
    config: &ClientConfig,
    server_id: &str,
    engine: Option<&str>,
    native: bool,
) -> (r: Result<(), Refusal>)
    ensures
        match catalog_fault(config@, server_id@, json::opt_str(engine), native) {
            Some(m) => r matches Err(e) && e@ == setup::bad_request(m),
            None => r is Ok,
        },
{
    match inference_cell_run::find_server(config, server_id) {
        None => {
            return Err(setup::refuse_bad("server not found"));
        },
        Some(entry) => {
            if !servers::is_inference_cell_kind(&entry.kind) {
                return Err(
                    setup::refuse_bad("HF catalog requires a llama.cpp inference-cell server"),
                );
            }
        },
    }
    if is_from_ollama(engine, native) {
        return Err(
            setup::refuse_bad(
                "HF catalog is for llama.cpp inference-cell; use Ollama library catalog for Ollama engine",
            ),
        );
    }
    match inference_cell_run::find_inference_cell_server(config, server_id) {
        Ok(_) => Ok(()),
        Err(m) => Err(Refusal { status: 400, message: m }),
    }
}

/// The repository whose forms are asked for.
pub fn get_hf_model_quants(repo: &str) -> (r: Result<String, Refusal>)
    ensures
        if text::trimmed(repo@).len() == 0 {
            r matches Err(e) && e@ == setup::bad_request("repo required"@)
        } else {
            r matches Ok(s) && s@ == text::trimmed(repo@)
        },
{
    let t = text::trim(repo);
    if t.as_str().is_empty() {
        Err(setup::refuse_bad("repo required"))
    } else {
        Ok(t)
    }
}

/// How many models of the lobby's catalog are asked for: 50 unless the user says,
/// at least one and at most 200.
pub fn catalog_limit(limit: Option<i64>) -> (r: i64)
    ensures
        r == match limit {
            None => 50,
            Some(n) => if n < 1 {
                1
            } else if n > 200 {
                200
            } else {
                n as int
            },
        },
{
    match limit {
        None => 50,
        Some(n) => if n < 1 {
            1
        } else if n > 200 {
            200
        } else {
            n
        },
    }
}

/// A digit of base sixteen.
pub open spec fn hex_char(d: int) -> char {
    if d < 10 {
        ('0' as u32 + d) as char
    } else {
        ('A' as u32 + d - 10) as char
    }
}

fn hex_digit(d: u32) -> (r: char)
    requires
        d < 16,
    ensures
        r == hex_char(d as int),
{
    match d {
        0 => '0',
        1 => '1',
        2 => '2',
        3 => '3',
        4 => '4',
        5 => '5',
        6 => '6',
        7 => '7',
        8 => '8',
        9 => '9',
        10 => 'A',
        11 => 'B',
        12 => 'C',
        13 => 'D',
        14 => 'E',
        _ => 'F',
    }
}

/// Whether a character stands for itself in an address.
pub open spec fn stands_for_itself(c: char) -> bool {
    ('a' <= c <= 'z') || ('A' <= c <= 'Z') || ('0' <= c <= '9') || c == '-' || c == '_' || c == '.'
}

/// How a character is written in an address: by its lowest byte, unless it stands
/// for itself.
pub open spec fn written(c: char) -> Seq<char> {
    if stands_for_itself(c) {
        seq![c]
    } else {
        let b = c as u32 % 256;
        seq!['%', hex_char(b as int / 16), hex_char(b as int % 16)]
    }
}

/// How a name is written in an address.
pub open spec fn encoded(s: Seq<char>) -> Seq<char>
    decreases s.len(),
{
    if s.len() == 0 {
        Seq::empty()
    } else {
        encoded(s.drop_last()) + written(s.last())
    }
}

/// Where the lobby's catalog has the model `name`.
pub fn get_models_catalog_entry(name: &str) -> (r: String)
    ensures
        r@ == "/api/public/models/catalog/"@ + encoded(name@),
{
    let cs = text::chars_of(name);
    let mut out: Vec<char> = Vec::new();
    assert(out@ =~= encoded(name@.take(0)));
    for i in 0..cs.len()
        invariant
            cs@ == name@,
            out@ == encoded(name@.take(i as int)),
    {
        let c = cs[i];
        let ghost before = out@;
        proof {
            assert(name@.take(i as int + 1).drop_last() =~= name@.take(i as int));
            assert(name@.take(i as int + 1).last() == c);
        }
        let plain = ('a' <= c && c <= 'z') || ('A' <= c && c <= 'Z') || ('0' <= c && c <= '9') || c
            == '-' || c == '_' || c == '.';
        if plain {
            out.push(c);
            assert(out@ =~= before + written(c));
        } else {
            let b: u32 = c as u32 % 256;
            out.push('%');
            out.push(hex_digit(b / 16));
            out.push(hex_digit(b % 16));
            assert(out@ =~= before + written(c));
        }
    }
    assert(name@.take(name@.len() as int) =~= name@);
    text::concat2("/api/public/models/catalog/", &text::string_of(&out))
}

/// The hidden models after `name` is hidden, or shown.
pub open spec fn hidden_after(hidden: Seq<Seq<char>>, name: Seq<char>, hide: bool) -> Seq<Seq<char>> {
    let n = text::trimmed(name);
    if n.len() == 0 {
        hidden
    } else if hide {
        if hidden.contains(n) {
            hidden
        } else {
            hidden.push(n)
        }
    } else {
        hidden.filter(|h: Seq<char>| h != n)
    }
}

/// Hides the model `name`, or shows it.
pub fn set_model_hidden(hidden: &mut Vec<String>, name: &str, hide: bool)
    ensures
        text::views(final(hidden)@) == hidden_after(text::views(old(hidden)@), name@, hide),
{
    let n = text::trim(name);
    if n.as_str().is_empty() {
        return;
    }
    if hide {
        if !text::list_has(hidden, &n) {
            proof {
                text::lemma_views_push(hidden@, n);
            }
            hidden.push(n);
        }
        return;
    }
    let ghost all = text::views(hidden@);
    let ghost keep = |h: Seq<char>| h != n@;
    let mut out: Vec<String> = Vec::new();
    reveal(Seq::filter);
    assert(text::views(out@) =~= all.take(0).filter(keep));
    for i in 0..hidden.len()
        invariant
            all == text::views(hidden@),
            keep == (|h: Seq<char>| h != n@),
            text::views(out@) == all.take(i as int).filter(keep),
    {
        reveal(Seq::filter);
        proof {
            assert(all.take(i as int + 1).drop_last() =~= all.take(i as int));
            assert(all[i as int] == hidden@[i as int]@);
        }
        if !text::str_eq(&hidden[i], &n) {
            let s = text::copy(&hidden[i]);
            proof {
                text::lemma_views_push(out@, s);
            }
            out.push(s);
        }
    }
    assert(all.take(all.len() as int) =~= all);
    assert(keep =~= (|h: Seq<char>| h != text::trimmed(name@)));
    *hidden = out;
}

/// Hides the model that the user names, or shows it.
pub fn patch_model_visibility(config: &mut ClientConfig, name: &str, visible: bool) -> (r: Result<
    Vec<String>,
    Refusal,
>)
    ensures
        ({
            let hidden = hidden_after(old(config)@.hidden_models, name@, !visible);
            if text::trimmed(name@).len() == 0 {
                final(config)@ == old(config)@ && (r matches Err(e) && e@ == setup::bad_request(
                    "name is required"@,
                ))
            } else {
                &&& final(config)@ == (ConfigV { hidden_models: hidden, ..old(config)@ })
                &&& r matches Ok(v) && text::views(v@) == hidden
            }
        }),
{
    if text::trim(name).as_str().is_empty() {
        return Err(setup::refuse_bad("name is required"));
    }
    set_model_hidden(&mut config.hidden_models, name, !visible);
    Ok(text::copy_list(&config.hidden_models))
}

/// Whether one of the models has the name `n`, which is not empty.
pub open spec fn names(models: Seq<JsonV>, n: Seq<char>) -> bool {
    n.len() > 0 && exists|i: int|
        0 <= i < models.len() && json::str_field(#[trigger] models[i], "name"@) == Some(n)
}

/// Whether `v` stands in the order of its texts, none of them twice.
pub open spec fn in_order(v: Seq<Seq<char>>) -> bool {
    forall|i: int, j: int| 0 <= i < j < v.len() ==> text::before(#[trigger] v[i], #[trigger] v[j])
}

/// Puts `n` into a list that is in order.
fn insert_name(v: &mut Vec<String>, n: &str)
    requires
        in_order(text::views(old(v)@)),
    ensures
        in_order(text::views(final(v)@)),
        forall|s: Seq<char>|
            #[trigger] text::views(final(v)@).contains(s) == (text::views(old(v)@).contains(s) || s
                == n@),
{
    let ghost before = text::views(v@);
    let mut i: usize = 0;
    while i < v.len() && text::is_before(&v[i], n)
        invariant
            i <= v@.len(),
            before == text::views(v@),
            forall|k: int| 0 <= k < i ==> text::before(#[trigger] before[k], n@),
        decreases v@.len() - i,
    {
        assert(before[i as int] == v@[i as int]@);
        i += 1;
    }
    if i < v.len() && text::str_eq(&v[i], n) {
        proof {
            assert(before[i as int] == n@);
        }
        return;
    }
    let s = text::copy(n);
    v.insert(i, s);
    proof {
        let after = text::views(v@);
        assert(after =~= before.insert(i as int, n@));
        if i < before.len() {
            let b = before[i as int];
            if !text::before(n@, b) {
                text::lemma_before_total(n@, b);
            }
        }
        assert forall|a: int, b: int| 0 <= a < b < after.len() implies text::before(
            #[trigger] after[a],
            #[trigger] after[b],
        ) by {
            if b < i {
                assert(after[a] == before[a] && after[b] == before[b]);
            } else if b == i {
                assert(after[a] == before[a]);
            } else if a < i {
                assert(after[a] == before[a] && after[b] == before[b - 1]);
            } else if a == i {
                assert(after[b] == before[b - 1]);
                if b - 1 > i {
                    text::lemma_before_chain(n@, before[i as int], before[b - 1]);
                }
            } else {
                assert(after[a] == before[a - 1] && after[b] == before[b - 1]);
            }
        }
        assert forall|t: Seq<char>| #[trigger] after.contains(t) == (before.contains(t) || t == n@) by {
            if before.contains(t) {
                let k = choose|k: int| 0 <= k < before.len() && before[k] == t;
                if k < i {
                    assert(after[k] == t);
                } else {
                    assert(after[k + 1] == t);
                }
            }
            if t == n@ {
                assert(after[i as int] == t);
            }
            if after.contains(t) {
                let k = choose|k: int| 0 <= k < after.len() && after[k] == t;
                if k < i {
                    assert(before[k] == t);
                } else if k > i {
                    assert(before[k - 1] == t);
                }
            }
        }
    }
}

/// Puts the names of `models` into a list that is in order.
fn insert_names(v: &mut Vec<String>, models: &Vec<Json>)
    requires
        in_order(text::views(old(v)@)),
    ensures
        in_order(text::views(final(v)@)),
        forall|s: Seq<char>|
            #[trigger] text::views(final(v)@).contains(s) == (text::views(old(v)@).contains(s)
                || names(json::items_view(models@), s)),
{
    let ghost before = text::views(v@);
    let ghost mv = json::items_view(models@);
    for i in 0..models.len()
        invariant
            mv == json::items_view(models@),
            in_order(text::views(v@)),
            forall|s: Seq<char>|
                #[trigger] text::views(v@).contains(s) == (before.contains(s) || names(
                    mv.take(i as int),
                    s,
                )),
    {
        let ghost a = mv.take(i as int);
        let ghost b = mv.take(i as int + 1);
        proof {
            assert(b[i as int] == models@[i as int]@);
            assert forall|s: Seq<char>| #[trigger] names(b, s) == (names(a, s) || (s.len() > 0
                && json::str_field(models@[i as int]@, "name"@) == Some(s))) by {
                if names(a, s) {
                    let k = choose|k: int|
                        0 <= k < a.len() && json::str_field(#[trigger] a[k], "name"@) == Some(s);
                    assert(b[k] == a[k]);
                }
                if names(b, s) {
                    let k = choose|k: int|
                        0 <= k < b.len() && json::str_field(#[trigger] b[k], "name"@) == Some(s);
                    if k < i {
                        assert(a[k] == b[k]);
                    }
                }
                if s.len() > 0 && json::str_field(models@[i as int]@, "name"@) == Some(s) {
                    assert(json::str_field(b[i as int], "name"@) == Some(s));
                }
            }
        }
        if let Some(n) = models[i].get_str("name") {
            if !n.is_empty() {
                insert_name(v, n);
            }
        }
    }
    assert(mv.take(mv.len() as int) =~= mv);
}

/// The names of all models, here and in the network, each once and in order.
pub fn collect_unified_model_names(local_models: &Vec<Json>, network_models: &Vec<Json>) -> (r: Vec<
    String,
>)
    ensures
        in_order(text::views(r@)),
        forall|s: Seq<char>|
            #[trigger] text::views(r@).contains(s) == (names(json::items_view(local_models@), s)
                || names(json::items_view(network_models@), s)),
{
    let mut out: Vec<String> = Vec::new();
    insert_names(&mut out, local_models);
    insert_names(&mut out, network_models);
    out
}

/// Shows all models, or hides all that have a name, here and in the network.
pub fn post_model_visibility_bulk(
    config: &mut ClientConfig,
    visible: bool,
    local_models: &Vec<Json>,
    network_models: &Vec<Json>,
) -> (r: Vec<String>)
    ensures
        final(config)@ == (ConfigV { hidden_models: text::views(r@), ..old(config)@ }),
        visible ==> r@.len() == 0,
        !visible ==> in_order(text::views(r@)) && forall|s: Seq<char>|
            #[trigger] text::views(r@).contains(s) == (names(json::items_view(local_models@), s)
                || names(json::items_view(network_models@), s)),
{
    config.hidden_models = if visible {
        Vec::new()
    } else {
        collect_unified_model_names(local_models, network_models)
    };
    let out = text::copy_list(&config.hidden_models);
    assert(text::views(out@).len() == out@.len());
    assert(text::views(config.hidden_models@).len() == config.hidden_models@.len());
    out
}

/// A model that was hidden is hidden, whatever was hidden before.
pub proof fn law_hidden_model_is_hidden(hidden: Seq<Seq<char>>, name: Seq<char>)
    requires
        text::trimmed(name).len() > 0,
    ensures
        hidden_after(hidden, name, true).contains(text::trimmed(name)),
        forall|s: Seq<char>|
            hidden.contains(s) ==> #[trigger] hidden_after(hidden, name, true).contains(s),
{
    let n = text::trimmed(name);
    let after = hidden_after(hidden, name, true);
    if !hidden.contains(n) {
        assert(after[hidden.len() as int] == n);
    }
    assert forall|s: Seq<char>| hidden.contains(s) implies #[trigger] after.contains(s) by {
        let k = choose|k: int| 0 <= k < hidden.len() && hidden[k] == s;
        assert(after[k] == s);
    }
}

/// A model that was shown is not hidden, and no other model changes.
pub proof fn law_shown_model_is_not_hidden(hidden: Seq<Seq<char>>, name: Seq<char>, other: Seq<char>)
    requires
        text::trimmed(name).len() > 0,
        other != text::trimmed(name),
    ensures
        !hidden_after(hidden, name, false).contains(text::trimmed(name)),
        hidden_after(hidden, name, false).contains(other) == hidden.contains(other),
{
    broadcast use vstd::seq_lib::group_filter_ensures;

    let n = text::trimmed(name);
    let keep = |h: Seq<char>| h != n;
    let after = hidden.filter(keep);
    if after.contains(n) {
        let k = choose|k: int| 0 <= k < after.len() && after[k] == n;
        assert(keep(after[k]));
    }
    if hidden.contains(other) {
        let k = choose|k: int| 0 <= k < hidden.len() && hidden[k] == other;
        assert(keep(hidden[k]));
        hidden.lemma_filter_contains(keep, k);
    }
    if after.contains(other) {
        hidden.lemma_filter_contains_rev(keep, other);
    }
}

/// An Ollama model that makes answers is loaded and unloaded by the same request,
/// but for how long it stays.
pub proof fn law_unload_mirrors_load(name: Seq<char>, model: Option<JsonV>, can: Abilities)
    requires
        source_kind(model) != "inference-cell"@,
        can.embed_only || can.generate,
    ensures
        ({
            let load = model_step(name, LocalModelAction::Load, model, Some(true), can);
            let unload = model_step(name, LocalModelAction::Unload, model, Some(true), can);
            match (load, unload) {
                (Ok(StepV::Post(p, _, _)), Ok(StepV::Post(q, _, _))) => p == q,
                _ => false,
            }
        }),
{
}

/// What a peer tells a network about starting a model.
#[derive(Debug)]
pub enum ModelStartAction {
    /// It asks others to start one.
    Request {
        req_id: String,
        model: String,
        cluster_id: Option<String>,
        swarm_id: Option<String>,
    },
    /// It answers one who asked.
    Respond {
        req_id: String,
        accept: bool,
        cluster_id: Option<String>,
        swarm_id: Option<String>,
    },
}

/// The networks that hear of it.
#[derive(Debug, Clone, Copy, PartialEq, Eq, Structural)]
pub enum StartChannel {
    Clusters,
    Swarms,
}

/// The networks that hear of what names the swarm `swarm_id`, or none.
pub open spec fn channel_of(swarm_id: Option<String>) -> StartChannel {
    if swarm_id is Some {
        StartChannel::Swarms
    } else {
        StartChannel::Clusters
    }
}

fn start_channel(swarm_id: &Option<String>) -> (r: StartChannel)
    ensures
        r == channel_of(*swarm_id),
{
    if swarm_id.is_some() {
        StartChannel::Swarms
    } else {
        StartChannel::Clusters
    }
}

/// Asks a network to start `model`: what is said, to which networks, and the new
/// id of the request.
pub fn post_model_request(
    model: String,
    cluster_id: Option<String>,
    swarm_id: Option<String>,
) -> (r: (ModelStartAction, StartChannel, String))
    ensures
        outside::is_uuid(r.2@),
        r.1 == channel_of(swarm_id),
        r.0 matches ModelStartAction::Request {
            req_id,
            model: m,
            cluster_id: c,
            swarm_id: s,
        } && req_id@ == r.2@ && m == model && c == cluster_id && s == swarm_id,
{
    let id = outside::new_uuid();
    let channel = start_channel(&swarm_id);
    let action = ModelStartAction::Request {
        req_id: text::copy(&id),
        model,
        cluster_id,
        swarm_id,
    };
    (action, channel, id)
}

/// Answers one who asked to start a model: what is said, and to which networks.
pub fn post_model_respond(
    req_id: String,
    accept: bool,
    cluster_id: Option<String>,
    swarm_id: Option<String>,
) -> (r: (ModelStartAction, StartChannel))
    ensures
        r.0 == (ModelStartAction::Respond { req_id, accept, cluster_id, swarm_id }),
        r.1 == channel_of(swarm_id),
{
    let channel = start_channel(&swarm_id);
    (ModelStartAction::Respond { req_id, accept, cluster_id, swarm_id }, channel)
}

/// Loading a model asks its server for that model and to keep it, and unloading asks to
/// keep it no longer; deleting a model of Ollama is always possible. A model of an
/// inference cell is the cell's own matter.
pub proof fn law_step_is_for_the_model(
    name: Seq<char>,
    action: LocalModelAction,
    model: Option<JsonV>,
    can: Abilities,
)
    requires
        source_kind(model) != "inference-cell"@,
    ensures
        model_step(name, action, model, Some(true), can) matches Ok(StepV::Post(path, body, _)) ==> {
            &&& json::field(body, "model"@) == Some(JsonV::Str(name))
            &&& path == (if can.embed_only || (can.embed && !can.generate) {
                "/api/embed"@
            } else {
                "/api/generate"@
            })
            &&& action == LocalModelAction::Load ==> json::field(body, "keep_alive"@) == Some(
                JsonV::Str("30m"@),
            )
            &&& action == LocalModelAction::Unload ==> json::field(body, "keep_alive"@) == Some(
                JsonV::Int(0),
            )
            &&& action != LocalModelAction::Delete
        },
        action == LocalModelAction::Delete ==> model_step(name, action, model, Some(true), can)
            == Ok::<StepV, RefusalV>(StepV::Delete),
        can.generate && !can.embed_only && action != LocalModelAction::Delete ==> model_step(
            name,
            action,
            model,
            Some(true),
            can,
        ) is Ok,
        can.embed_only && action != LocalModelAction::Delete ==> model_step(
            name,
            action,
            model,
            Some(true),
            can,
        ) is Ok,
        model_step(name, action, model, Some(false), can) is Err,
        model_step(name, action, model, None, can) is Err,
{
    reveal_strlit("model");
    reveal_strlit("input");
    reveal_strlit("keep_alive");
    reveal_strlit("prompt");
    reveal_strlit("stream");
    assert("model"@.len() == 5 && "input"@.len() == 5 && "keep_alive"@.len() == 10
        && "prompt"@.len() == 6 && "stream"@.len() == 6);
    assert("model"@[0] == 'm' && "input"@[0] == 'i');
}

/// A model that is to run without a server being named runs by Ollama, under its name
/// without white space around it; without a name, or without any server, it is refused.
pub proof fn law_model_is_run(
    c: ConfigV,
    attached: nat,
    body: ModelRunLocalBody,
    engine: Option<Seq<char>>,
    native: bool,
)
    ensures
        attached == 0 ==> (run_plan(c, attached, body, engine, native) matches Err(e) && e.status
            == 503),
        attached > 0 && body.server_id is None && text::is_tight(body.model@) ==> run_plan(
            c,
            attached,
            body,
            engine,
            native,
        ) == Ok::<RunPlanV, RefusalV>(RunPlanV::Ollama(body.model@, None)),
        attached > 0 && body.server_id is None && body.model@.len() == 0 ==> run_plan(
            c,
            attached,
            body,
            engine,
            native,
        ) is Err,
        run_plan(c, attached, body, engine, native) matches Ok(RunPlanV::Ollama(m, s)) ==> m
            == text::trimmed(body.model@) && m.len() > 0 && (s matches Some(id) ==> text::opt_view(
            body.server_id,
        ) == Some(id)),
        run_plan(c, attached, body, engine, native) matches Ok(
            RunPlanV::Cell { server_id, hf_repo, quant, display_name },
        ) ==> text::opt_view(body.server_id) == Some(server_id) && hf_repo.len() > 0
            && display_name.len() > 0 && (body.quant is None ==> quant == "Q4_K_M"@),
{
    if text::is_tight(body.model@) {
        text::lemma_tight_stays(body.model@);
    }
    if body.model@.len() == 0 {
        let none = Seq::<char>::empty();
        text::law_trimming_takes_off_space(none, none, none);
        assert(none + none + none =~= body.model@);
    }
}

/// The value of a hexadecimal digit.
pub open spec fn hex_value(c: char) -> int {
    if '0' <= c <= '9' {
        c as u32 - '0' as u32
    } else {
        c as u32 - 'A' as u32 + 10
    }
}

/// A text is encoded character by character: letters, digits, and `-`, `_` and `.` stand
/// for themselves, and any other character of one byte is a percent sign and the two
/// digits of that byte.
pub proof fn law_encoding_is_read_back(a: Seq<char>, c: char)
    requires
        (c as u32) < 256,
    ensures
        encoded(Seq::<char>::empty()).len() == 0,
        ('a' <= c <= 'z') || ('A' <= c <= 'Z') || ('0' <= c <= '9') || c == '-' || c == '_' || c
            == '.' ==> encoded(a.push(c)) == encoded(a).push(c),
        !(('a' <= c <= 'z') || ('A' <= c <= 'Z') || ('0' <= c <= '9') || c == '-' || c == '_' || c
            == '.') ==> {
            let e = encoded(a.push(c));
            let n = encoded(a).len() as int;
            &&& e.len() == n + 3
            &&& e.take(n) == encoded(a)
            &&& e[n] == '%'
            &&& 16 * hex_value(e[n + 1]) + hex_value(e[n + 2]) == c as u32
        },
{
    assert(a.push(c).drop_last() =~= a);
    let e = encoded(a.push(c));
    let n = encoded(a).len() as int;
    if stands_for_itself(c) {
        assert(e =~= encoded(a).push(c));
    } else {
        assert(e.take(n) =~= encoded(a));
        let b = c as u32 % 256;
        let high = b as int / 16;
        let low = b as int % 16;
        assert(0 <= high < 16 && 0 <= low < 16);
        assert(hex_value(hex_char(high)) == high);
        assert(hex_value(hex_char(low)) == low);
    }
}

/// The catalog of model files is shown for just those servers that are attached inference
/// cells whose engine is not Ollama.
pub proof fn law_catalog_is_for_cells(c: ConfigV, i: int, engine: Option<Seq<char>>, native: bool)
    requires
        0 <= i < c.llm_servers.len(),
        forall|a: int, b: int|
            0 <= a < b < c.llm_servers.len() ==> (#[trigger] c.llm_servers[a]).id != (
            #[trigger] c.llm_servers[b]).id,
    ensures
        catalog_fault(c, c.llm_servers[i].id, engine, native) is None <==> c.llm_servers[i].attached
            && servers::is_cell(c.llm_servers[i].kind) && engine != Some("ollama"@) && !(engine is None
            && native),
{
    let ids = c.llm_servers.map_values(|s: crate::client_config::types::ServerV| s.id);
    text::lemma_position(ids, c.llm_servers[i].id);
    assert(ids[i] == c.llm_servers[i].id);
    let k = text::position(ids, c.llm_servers[i].id)->0;
    assert(ids[k] == c.llm_servers[k].id);
}

} // verus!
