//! What is done with a client's request: where it goes, in which form, and what
//! is answered where it cannot be served.

use crate::agent_compat::request;
use crate::agent_compat::request::{AgentRequestSummary, AgentResponseFormat};
use crate::agent_compat::response;
use crate::agent_compat::response::AgentResponseSummary;
use crate::agent_compat::tool_calls;
use crate::gpu::readings;
use crate::json;
use crate::json::{Json, JsonV};
use crate::llm_proxy::routing;
use crate::outside;
use crate::text;
use vstd::prelude::*;

verus! {

/// An answer that refuses a request.
#[derive(Debug, PartialEq)]
pub struct Refusal {
    pub status: u16,
    pub message: String,
}

/// What an answer that refuses a request says.
#[verifier::ext_equal]
pub struct RefusalV {
    pub status: u16,
    pub message: Seq<char>,
}

impl View for Refusal {
    type V = RefusalV;

    open spec fn view(&self) -> RefusalV {
        RefusalV { status: self.status, message: self.message@ }
    }
}

fn refuse(status: u16, message: &str) -> (r: Refusal)
    ensures
        r@ == (RefusalV { status, message: message@ }),
{
    Refusal { status, message: text::copy(message) }
}

/// The answer before the setup is complete.
pub open spec fn not_set_up() -> RefusalV {
    RefusalV { status: 503, message: "Setup not complete \u{2014} open the web UI at /"@ }
}

/// The answer where no server is attached.
pub open spec fn no_servers() -> RefusalV {
    RefusalV { status: 503, message: "No LLM servers attached"@ }
}

/// The answer where no attached server has the model.
pub open spec fn no_host(model: Seq<char>) -> RefusalV {
    RefusalV { status: 404, message: "No attached server hosts model '"@ + model + "'"@ }
}

/// The answer of an endpoint that only Ollama has.
pub open spec fn not_ollama() -> RefusalV {
    RefusalV { status: 501, message: "This endpoint requires an Ollama backend"@ }
}

/// The server that answers a request: the one that has the model, or the first
/// where no model is named.
pub open spec fn backend_for<T>(
    setup_complete: bool,
    model: Option<Seq<char>>,
    resolved: Option<T>,
    first: Option<T>,
) -> Result<T, RefusalV> {
    if !setup_complete {
        Err(not_set_up())
    } else {
        match model {
            Some(m) => match resolved {
                Some(b) => Ok(b),
                None => Err(no_host(m)),
            },
            None => match first {
                Some(b) => Ok(b),
                None => Err(no_servers()),
            },
        }
    }
}

/// What a result says.
pub open spec fn result_view<T>(r: Result<T, Refusal>) -> Result<T, RefusalV> {
    match r {
        Ok(v) => Ok(v),
        Err(e) => Err(e@),
    }
}

/// The server that answers a request for `model`. `resolved` is the server that
/// has the model and `first` the first that is attached.
pub fn require_backend_for_model<T>(
    setup_complete: bool,
    model: Option<&str>,
    resolved: Option<T>,
    first: Option<T>,
) -> (r: Result<T, Refusal>)
    ensures
        result_view(r) == backend_for(setup_complete, json::opt_str(model), resolved, first),
{
    if !setup_complete {
        return Err(refuse(503, "Setup not complete \u{2014} open the web UI at /"));
    }
    match model {
        Some(m) => match resolved {
            Some(b) => Ok(b),
            None => {
                let message = text::concat3("No attached server hosts model '", m, "'");
                Err(Refusal { status: 404, message })
            },
        },
        None => match first {
            Some(b) => Ok(b),
            None => Err(refuse(503, "No LLM servers attached")),
        },
    }
}

/// The server that answers a request that names no model.
pub fn require_backend<T>(setup_complete: bool, first: Option<T>) -> (r: Result<T, Refusal>)
    ensures
        result_view(r) == backend_for(setup_complete, None, None, first),
{
    require_backend_for_model(setup_complete, None, None, first)
}

/// The server that a request goes to: the one that has its model, or else the first
/// that is attached.
pub open spec fn resolved_or_first<T>(resolved: Option<T>, first: Option<T>) -> Option<T> {
    match resolved {
        Some(b) => Some(b),
        None => first,
    }
}

/// The server that a request goes to: the one that has its model, or else the first
/// that is attached.
pub fn choose_backend<T>(resolved: Option<T>, first: Option<T>) -> (r: Option<T>)
    ensures
        r == resolved_or_first(resolved, first),
{
    match resolved {
        Some(b) => Some(b),
        None => first,
    }
}

/// The server that a request of another peer goes to.
pub fn forward_backend<T>(resolved: Option<T>, first: Option<T>) -> (r: Result<T, String>)
    ensures
        match resolved_or_first(resolved, first) {
            Some(b) => r == Ok::<T, String>(b),
            None => r matches Err(m) && m@ == "backend not configured"@,
        },
{
    match choose_backend(resolved, first) {
        Some(b) => Ok(b),
        None => Err(text::copy("backend not configured")),
    }
}

/// The answer of an endpoint that only Ollama has.
pub fn not_ollama_backend() -> (r: Refusal)
    ensures
        r@ == not_ollama(),
{
    refuse(501, "This endpoint requires an Ollama backend")
}

/// What a request names under `a`, or else under `b`.
pub open spec fn named_by(j: JsonV, a: Seq<char>, b: Seq<char>) -> Option<Seq<char>> {
    json::str_in(readings::either(json::field(j, a), json::field(j, b)))
}

/// What a request names under `a`, or else under `b`.
pub fn model_named(j: &Json, a: &str, b: &str) -> (r: Option<String>)
    ensures
        text::opt_view(r) == named_by(j@, a@, b@),
{
    readings::text_of(readings::first2(j.get(a), j.get(b)))
}

/// What the text of a request names under `a`, or else under `b`.
pub open spec fn named_in(body: Seq<char>, a: Seq<char>, b: Seq<char>) -> Option<Seq<char>> {
    match json::json_parse(body) {
        Some(j) => named_by(j, a, b),
        None => None,
    }
}

/// What the text of a request names under `a`, or else under `b`.
pub fn model_in_body(body: &str, a: &str, b: &str) -> (r: Option<String>)
    ensures
        text::opt_view(r) == named_in(body@, a@, b@),
{
    match json::parse(body) {
        Some(j) => model_named(&j, a, b),
        None => None,
    }
}

/// The endpoints that hand a request to a server of Ollama as it is.
#[derive(Debug, Clone, Copy, PartialEq, Eq, Structural)]
pub enum OllamaEndpoint {
    Embed,
    Pull,
    Push,
    Create,
    Delete,
}

/// The path of an endpoint, and the two fields that may name its model.
pub open spec fn endpoint_of(e: OllamaEndpoint) -> (Seq<char>, Seq<char>, Seq<char>) {
    match e {
        OllamaEndpoint::Embed => ("/api/embed"@, "model"@, "model"@),
        OllamaEndpoint::Pull => ("/api/pull"@, "name"@, "model"@),
        OllamaEndpoint::Push => ("/api/push"@, "name"@, "name"@),
        OllamaEndpoint::Create => ("/api/create"@, "name"@, "name"@),
        OllamaEndpoint::Delete => ("/api/delete"@, "model"@, "name"@),
    }
}

/// The path of an endpoint, and the model that a request to it names.
pub fn endpoint_request(e: OllamaEndpoint, body: &str) -> (r: (&'static str, Option<String>))
    ensures
        r.0@ == endpoint_of(e).0,
        text::opt_view(r.1) == named_in(body@, endpoint_of(e).1, endpoint_of(e).2),
{
    match e {
        OllamaEndpoint::Embed => ("/api/embed", model_in_body(body, "model", "model")),
        OllamaEndpoint::Pull => ("/api/pull", model_in_body(body, "name", "model")),
        OllamaEndpoint::Push => ("/api/push", model_in_body(body, "name", "name")),
        OllamaEndpoint::Create => ("/api/create", model_in_body(body, "name", "name")),
        OllamaEndpoint::Delete => ("/api/delete", model_in_body(body, "model", "name")),
    }
}

/// The path of embeddings, by what the server understands.
pub fn embeddings_path(ollama_native: bool) -> (r: &'static str)
    ensures
        r@ == if ollama_native {
            "/api/embeddings"@
        } else {
            "/v1/embeddings"@
        },
{
    if ollama_native {
        "/api/embeddings"
    } else {
        "/v1/embeddings"
    }
}

/// What a parsed text is; null where it is no JSON.
pub open spec fn parsed_or_null(body: Seq<char>) -> JsonV {
    match json::json_parse(body) {
        Some(j) => j,
        None => JsonV::Null,
    }
}

pub(crate) fn parse_or_null(body: &str) -> (r: Json)
    ensures
        r@ == parsed_or_null(body@),
{
    match json::parse(body) {
        Some(j) => j,
        None => Json::Null,
    }
}

fn wants_stream(j: &Json) -> (r: bool)
    ensures
        r == (json::bool_in(json::field(j@, "stream"@)) == Some(true)),
{
    match j.get("stream") {
        Some(s) => match s.as_bool() {
            Some(b) => b,
            None => false,
        },
        None => false,
    }
}

/// The model that a request names; empty where it names none.
pub open spec fn model_of(j: JsonV) -> Seq<char> {
    response::or_text(json::str_field(j, "model"@), Seq::empty())
}

/// Whether a request is for another peer: it names a model that is not here.
pub open spec fn is_remote(j: JsonV, local: Seq<Seq<char>>) -> bool {
    json::str_field(j, "model"@) matches Some(m) && !local.contains(m)
}

fn names_remote(j: &Json, local_models: &Vec<String>) -> (r: bool)
    ensures
        r == is_remote(j@, text::views(local_models@)),
{
    match j.get_str("model") {
        Some(m) => !text::list_has(local_models, m),
        None => false,
    }
}

/// What is done with a request of an agent client.
pub struct AgentPlan {
    /// The request as it goes on.
    pub body: Json,
    /// Its text.
    pub text: String,
    pub summary: AgentRequestSummary,
    pub stream: bool,
    pub model: String,
    pub remote: bool,
}

/// Whether `s` describes a request `body` of a client of the form `format`, that
/// goes on as `out`.
pub open spec fn describes(
    s: AgentRequestSummary,
    body: JsonV,
    out: JsonV,
    changed: bool,
    format: AgentResponseFormat,
) -> bool {
    &&& s.response_format == format
    &&& request::summarizes(
        (AgentRequestSummary { response_format: AgentResponseFormat::ChatCompletions, ..s }),
        body,
        out,
        changed,
    )
}

/// Whether `r` is what is done with the request `b` of an agent client.
pub open spec fn plans_agent(
    r: AgentPlan,
    b: JsonV,
    default_predict: Option<u64>,
    default_ctx: Option<u64>,
    format: AgentResponseFormat,
    local: Seq<Seq<char>>,
) -> bool {
    let (out, changed) = request::request_normalized(b, default_predict, default_ctx);
    &&& r.body@ == out
    &&& r.text@ == json::json_print(out)
    &&& json::is_plain(out, 127) ==> json::reads_as(r.text@, out)
    &&& describes(r.summary, b, out, changed, format)
    &&& r.stream == (json::bool_in(json::field(out, "stream"@)) == Some(true))
    &&& r.model@ == model_of(out)
    &&& r.remote == is_remote(out, local)
}

/// What is done with the request `parsed` of an agent client.
pub fn plan_agent_request(
    parsed: Json,
    default_predict: Option<u64>,
    default_ctx: Option<u64>,
    response_format: AgentResponseFormat,
    local_models: &Vec<String>,
) -> (r: AgentPlan)
    ensures
        plans_agent(
            r,
            parsed@,
            default_predict,
            default_ctx,
            response_format,
            text::views(local_models@),
        ),
{
    let (out, s) = request::normalize_chat_request_with_default(
        parsed,
        default_predict,
        default_ctx,
    );
    let ghost s0 = s;
    let mut summary = s;
    summary.response_format = response_format;
    assert((AgentRequestSummary { response_format: AgentResponseFormat::ChatCompletions, ..summary })
        == s0);
    let stream = wants_stream(&out);
    let model = response::text_or(out.get_str("model"), "");
    proof {
        reveal_strlit("");
        assert(""@ =~= Seq::<char>::empty());
    }
    let remote = names_remote(&out, local_models);
    let t = json::print(&out);
    AgentPlan { body: out, text: t, summary, stream, model, remote }
}

/// What is done with the request whose text is `body` of an agent client. A text
/// that is no JSON counts as null.
pub fn handle_agent_chat_request(
    body: &str,
    default_predict: Option<u64>,
    default_ctx: Option<u64>,
    response_format: AgentResponseFormat,
    local_models: &Vec<String>,
) -> (r: AgentPlan)
    ensures
        plans_agent(
            r,
            parsed_or_null(body@),
            default_predict,
            default_ctx,
            response_format,
            text::views(local_models@),
        ),
{
    plan_agent_request(
        parse_or_null(body),
        default_predict,
        default_ctx,
        response_format,
        local_models,
    )
}

/// Whether `out` is what an agent client of the form `format` is sent for the
/// completion `body`: a tool call that was written as text has become one, and
/// the form is the client's.
pub open spec fn answers(body: JsonV, format: AgentResponseFormat, out: JsonV) -> bool {
    exists|mid: JsonV|
        #![trigger answer_form(mid, format, out)]
        (match response::text_calls(body) {
            Some(calls) => response::rewritten(body, calls, mid),
            None => mid == body,
        }) && answer_form(mid, format, out)
}

/// Whether `out` is the completion `mid` in the client's form.
pub open spec fn answer_form(mid: JsonV, format: AgentResponseFormat, out: JsonV) -> bool {
    match format {
        AgentResponseFormat::ResponsesApi => response::is_responses_form(mid, out),
        AgentResponseFormat::ChatCompletions => out == mid,
    }
}

/// What an agent client is sent for the completion `body`.
pub fn agent_reply(body: Json, response_format: AgentResponseFormat) -> (r: (
    Json,
    AgentResponseSummary,
))
    ensures
        answers(body@, response_format, r.0@),
        r.1@ == response::response_summary(body@),
{
    let (mid, summary) = response::rewrite_chat_response(body);
    match response_format {
        AgentResponseFormat::ResponsesApi => {
            let out = response::chat_completion_to_responses(&mid);
            assert(answer_form(mid@, response_format, out@));
            (out, summary)
        },
        AgentResponseFormat::ChatCompletions => {
            assert(answer_form(mid@, response_format, mid@));
            (mid, summary)
        },
    }
}

/// What an agent client is sent for the text of an answer of another peer.
pub fn agent_reply_remote(full: &str, response_format: AgentResponseFormat) -> (r: (
    Json,
    AgentResponseSummary,
))
    ensures
        answers(response::response_body(full@), response_format, r.0@),
        r.1@ == response::response_summary(response::response_body(full@)),
{
    agent_reply(response::parse_chat_response_body(full), response_format)
}

/// What an agent client is sent for the text of an answer of a server here.
pub fn agent_reply_local(full: &str, response_format: AgentResponseFormat) -> (r: (
    Json,
    AgentResponseSummary,
))
    ensures
        answers(parsed_or_null(full@), response_format, r.0@),
        r.1@ == response::response_summary(parsed_or_null(full@)),
{
    agent_reply(parse_or_null(full), response_format)
}

/// What is done with a request of a client of Ollama.
pub struct ProxyPlan {
    /// The text of the request as it goes on.
    pub text: String,
    /// The request as it goes to another peer.
    pub body: Json,
    pub stream: bool,
    pub model: Option<String>,
    pub remote: bool,
}

/// Whether `r` is what is done with the request `j` of a client of Ollama, whose
/// text is `t`.
pub open spec fn plans_proxy(r: ProxyPlan, t: Seq<char>, j: JsonV, local: Seq<Seq<char>>) -> bool {
    &&& r.text@ == t
    &&& r.body@ == j
    &&& r.stream == (json::bool_in(json::field(j, "stream"@)) == Some(true))
    &&& text::opt_view(r.model) == json::str_field(j, "model"@)
    &&& r.remote == is_remote(j, local)
}

/// What is done with the request `j` of a client of Ollama, whose text is `t`.
pub fn plan_proxy_request(t: String, j: Json, local_models: &Vec<String>) -> (r: ProxyPlan)
    ensures
        plans_proxy(r, t@, j@, text::views(local_models@)),
{
    let stream = wants_stream(&j);
    let model = readings::text_of(j.get("model"));
    let remote = names_remote(&j, local_models);
    ProxyPlan { text: t, body: j, stream, model, remote }
}

/// What is done with the request whose text is `body` of a client of Ollama.
pub fn handle_proxy_request(
    body: String,
    default_predict: Option<u64>,
    default_ctx: Option<u64>,
    local_models: &Vec<String>,
) -> (r: ProxyPlan)
    ensures
        ({
            let t = request::body_with_defaults(body@, default_predict, default_ctx);
            &&& plans_proxy(r, t, parsed_or_null(t), text::views(local_models@))
            &&& request::reads_with_defaults(t, body@, default_predict, default_ctx)
        }),
        json::json_parse(body@) matches Some(j) ==> json::is_plain(
            request::with_defaults(j, default_predict, default_ctx),
            127,
        ) ==> r.body@ == request::with_defaults(j, default_predict, default_ctx),
{
    let t = request::apply_ollama_body_defaults_with_default(body, default_predict, default_ctx);
    let j = parse_or_null(&t);
    plan_proxy_request(t, j, local_models)
}

/// Whether a status tells of success.
pub open spec fn succeeds(status: u16) -> bool {
    200 <= status < 300
}

/// Whether a status tells of success.
pub fn is_success(status: u16) -> (r: bool)
    ensures
        r == succeeds(status),
{
    status >= 200 && status < 300
}

/// The content type of an answer to a client of Ollama.
pub fn proxy_content_type(stream: bool, upstream: &str) -> (r: &'static str)
    ensures
        r@ == if !stream && text::has(upstream@, "application/json"@) {
            "application/json"@
        } else {
            "application/x-ndjson"@
        },
{
    if !stream && text::contains(upstream, "application/json") {
        "application/json"
    } else {
        "application/x-ndjson"
    }
}

/// The answer where a server cannot be reached.
pub fn unreachable_backend(error: &str) -> (r: Refusal)
    ensures
        r@ == (RefusalV { status: 502, message: "Failed to reach LLM backend: "@ + error@ }),
{
    Refusal { status: 502, message: text::concat2("Failed to reach LLM backend: ", error) }
}

/// The answer where the answer of a server cannot be read.
pub fn unreadable_backend(error: &str) -> (r: Refusal)
    ensures
        r@ == (RefusalV { status: 502, message: "Failed to read LLM response: "@ + error@ }),
{
    Refusal { status: 502, message: text::concat2("Failed to read LLM response: ", error) }
}

/// Where a request for Ollama's chat goes.
#[derive(Debug, Clone, Copy, PartialEq, Eq, Structural)]
pub enum ChatRoute {
    /// As it is, to a server of Ollama or to another peer.
    Forward,
    /// In OpenAI's form, to a server here.
    Translate,
}

/// Where a request for Ollama's chat goes. `resolved` and `first` tell of the
/// server that has the model and of the first that is attached whether it
/// understands Ollama.
pub fn chat_completion(
    setup_complete: bool,
    model: Option<&str>,
    resolved: Option<bool>,
    first: Option<bool>,
) -> (r: Result<ChatRoute, Refusal>)
    ensures
        result_view(r) == if model is Some && resolved is None {
            Ok::<ChatRoute, RefusalV>(ChatRoute::Forward)
        } else {
            match backend_for(setup_complete, json::opt_str(model), resolved, first) {
                Ok(native) => Ok(
                    if native {
                        ChatRoute::Forward
                    } else {
                        ChatRoute::Translate
                    },
                ),
                Err(e) => Err(e),
            }
        },
{
    if model.is_some() && resolved.is_none() {
        return Ok(ChatRoute::Forward);
    }
    match require_backend_for_model(setup_complete, model, resolved, first) {
        Ok(native) => if native {
            Ok(ChatRoute::Forward)
        } else {
            Ok(ChatRoute::Translate)
        },
        Err(e) => Err(e),
    }
}

/// Whether a value can be given keys: an object, or null, which becomes one.
pub open spec fn is_keyed(j: JsonV) -> bool {
    j is Obj || j is Null
}

/// Whether a value can be given keys.
pub fn takes_keys(j: &Json) -> (r: bool)
    ensures
        r == is_keyed(j@),
{
    j.is_object() || j.is_null()
}

/// A value with `k`: null becomes an object.
pub open spec fn with_key(j: JsonV, k: Seq<char>, value: JsonV) -> JsonV {
    match j {
        JsonV::Null => JsonV::Obj(Map::<Seq<char>, JsonV>::empty().insert(k, value)),
        _ => json::with_field(j, k, value),
    }
}

fn put_key(j: Json, k: &str, value: Json) -> (r: Json)
    requires
        is_keyed(j@),
    ensures
        r@ == with_key(j@, k@, value@),
        is_keyed(r@),
{
    if j.is_null() {
        json::object().with(k, value)
    } else {
        j.with(k, value)
    }
}

/// The name of a model without the ending of its file.
pub open spec fn bare_name(model: Seq<char>) -> Seq<char> {
    if text::ends(model, ".gguf"@) {
        model.take(model.len() - 5)
    } else {
        model
    }
}

/// The name of a model without the ending of its file.
pub fn bare_model(model: &str) -> (r: String)
    ensures
        r@ == bare_name(model@),
{
    if text::ends_with(model, ".gguf") {
        let cs = text::chars_of(model);
        proof {
            reveal_strlit(".gguf");
        }
        text::take(model, cs.len() - 5)
    } else {
        text::copy(model)
    }
}

/// The request `b` for Ollama's chat in OpenAI's form.
pub open spec fn openai_form(b: JsonV, model: Option<Seq<char>>, stream: bool) -> JsonV {
    let streamed = with_key(b, "stream"@, JsonV::Bool(stream));
    match model {
        Some(m) => with_key(streamed, "model"@, JsonV::Str(bare_name(m))),
        None => streamed,
    }
}

/// The request `b` for Ollama's chat in OpenAI's form.
pub fn in_openai_form(b: Json, model: Option<&str>, stream: bool) -> (r: Json)
    requires
        is_keyed(b@),
    ensures
        r@ == openai_form(b@, json::opt_str(model), stream),
{
    let streamed = put_key(b, "stream", Json::Bool(stream));
    match model {
        Some(m) => put_key(streamed, "model", Json::Str(bare_model(m))),
        None => streamed,
    }
}

/// The request `body` for Ollama's chat, with its defaults, in OpenAI's form; none
/// where it is neither an object nor null.
pub open spec fn openai_body(
    body: JsonV,
    default_predict: Option<u64>,
    default_ctx: Option<u64>,
    model: Option<Seq<char>>,
    stream: bool,
) -> Option<JsonV> {
    let t = request::body_with_defaults(json::json_print(body), default_predict, default_ctx);
    if is_keyed(parsed_or_null(t)) {
        Some(openai_form(parsed_or_null(t), model, stream))
    } else {
        None
    }
}

/// The request `body` for Ollama's chat, with its defaults, in OpenAI's form; none
/// where it is neither an object nor null.
pub fn forward_ollama_chat_via_openai(
    body: &Json,
    default_predict: Option<u64>,
    default_ctx: Option<u64>,
    model: Option<&str>,
    stream: bool,
) -> (r: Option<Json>)
    ensures
        json::opt_owned(r) == openai_body(
            body@,
            default_predict,
            default_ctx,
            json::opt_str(model),
            stream,
        ),
        ({
            let changed = request::with_defaults(body@, default_predict, default_ctx);
            json::is_plain(body@, 127) && json::is_plain(changed, 127) ==> json::opt_owned(r) == (
            if is_keyed(changed) {
                Some(openai_form(changed, json::opt_str(model), stream))
            } else {
                None
            })
        }),
{
    let printed = json::print(body);
    let t = request::apply_ollama_body_defaults_with_default(
        printed,
        default_predict,
        default_ctx,
    );
    let b = parse_or_null(&t);
    if takes_keys(&b) {
        Some(in_openai_form(b, model, stream))
    } else {
        None
    }
}

/// What a client is told of a failure of the server upstream.
pub fn upstream_error(message: &str) -> (r: Json)
    ensures
        r@ == JsonV::Obj(
            Map::<Seq<char>, JsonV>::empty().insert(
                "error"@,
                JsonV::Obj(
                    Map::<Seq<char>, JsonV>::empty().insert(
                        "message"@,
                        JsonV::Str(message@),
                    ).insert("type"@, JsonV::Str("upstream_error"@)),
                ),
            ),
        ),
{
    let e = json::object().with("message", json::string(message)).with(
        "type",
        json::string("upstream_error"),
    );
    json::object().with("error", e)
}

/// What is done with the answer to a request that went in OpenAI's form.
#[derive(Debug, Clone, Copy, PartialEq, Eq, Structural)]
pub enum Translation {
    /// It is handed on as it is.
    AsIs,
    /// It is one completion.
    Whole,
    /// It is a stream of completions.
    Stream,
}

/// What is done with the answer to a request for Ollama's chat that went in
/// OpenAI's form.
pub fn translation(stream: bool, content_type: &str) -> (r: Translation)
    ensures
        r == if !stream {
            Translation::Whole
        } else if text::has(content_type@, "text/event-stream"@) {
            Translation::Stream
        } else {
            Translation::AsIs
        },
{
    if !stream {
        Translation::Whole
    } else if text::contains(content_type, "text/event-stream") {
        Translation::Stream
    } else {
        Translation::AsIs
    }
}

/// Where a request of another peer goes.
pub struct Forward {
    pub path: String,
    pub body: Json,
    pub model: String,
    pub translated: bool,
}

/// Whether a request of another peer goes on in OpenAI's form.
pub open spec fn is_translated(ollama_native: bool, path: Seq<char>) -> bool {
    !ollama_native && path == "/api/chat"@
}

/// Where a request of another peer goes, and in which form.
pub fn forward_chat_stream(ollama_native: bool, path: &str, body: &Json, model: &str) -> (r: Forward)
    requires
        is_translated(ollama_native, path@) ==> is_keyed(body@),
    ensures
        r.translated == is_translated(ollama_native, path@),
        if is_translated(ollama_native, path@) {
            &&& r.path@ == "/v1/chat/completions"@
            &&& r.model@ == bare_name(model@)
            &&& r.body@ == with_key(body@, "model"@, JsonV::Str(bare_name(model@)))
        } else {
            r.path@ == path@ && r.model@ == model@ && r.body@ == body@
        },
{
    if !ollama_native && text::str_eq(path, "/api/chat") {
        let m = bare_model(model);
        let b = put_key(json::copy(body), "model", json::string(&m));
        Forward { path: text::copy("/v1/chat/completions"), body: b, model: m, translated: true }
    } else {
        Forward {
            path: text::copy(path),
            body: json::copy(body),
            model: text::copy(model),
            translated: false,
        }
    }
}

/// What is done with the answer to a request of another peer.
pub fn forward_translation(translated: bool, content_type: &str) -> (r: Translation)
    ensures
        r == if !translated {
            Translation::AsIs
        } else if text::has(content_type@, "text/event-stream"@) {
            Translation::Stream
        } else {
            Translation::Whole
        },
{
    if !translated {
        Translation::AsIs
    } else if text::contains(content_type, "text/event-stream") {
        Translation::Stream
    } else {
        Translation::Whole
    }
}

/// What another peer is told of a failure of a server: its status and at most 500
/// characters of its answer.
pub fn upstream_failure(status: &str, answer: &str) -> (r: String)
    ensures
        r@ == "upstream "@ + status@ + ": "@ + answer@.take(
            if answer@.len() < 500 {
                answer@.len() as int
            } else {
                500
            },
        ),
{
    let cs = text::chars_of(answer);
    let k: usize = if cs.len() < 500 {
        cs.len()
    } else {
        500
    };
    let front = text::concat3("upstream ", status, ": ");
    text::concat2(&front, &text::take(answer, k))
}

/// The answer to a request to generate that is refused. `backend` is the server
/// that it would go to, and tells whether it understands Ollama.
pub open spec fn generate_refused(
    setup_complete: bool,
    model: Option<Seq<char>>,
    local: Seq<Seq<char>>,
    backend: Option<bool>,
) -> Option<RefusalV> {
    if !setup_complete {
        Some(not_set_up())
    } else if model matches Some(m) && !local.contains(m) {
        None
    } else {
        match backend {
            None => Some(no_servers()),
            Some(native) => if native {
                None
            } else {
                Some(not_ollama())
            },
        }
    }
}

/// Whether a request to generate is served, or else what is answered.
pub fn generate(
    setup_complete: bool,
    model: Option<&str>,
    local_models: &Vec<String>,
    backend: Option<bool>,
) -> (r: Result<(), Refusal>)
    ensures
        match generate_refused(
            setup_complete,
            json::opt_str(model),
            text::views(local_models@),
            backend,
        ) {
            Some(e) => r matches Err(f) && f@ == e,
            None => r is Ok,
        },
{
    if !setup_complete {
        return Err(refuse(503, "Setup not complete \u{2014} open the web UI at /"));
    }
    if let Some(m) = model {
        if !text::list_has(local_models, m) {
            return Ok(());
        }
    }
    match backend {
        None => Err(refuse(503, "No LLM servers attached")),
        Some(native) => if native {
            Ok(())
        } else {
            Err(not_ollama_backend())
        },
    }
}

/// The model that a request to show names; empty where it names none.
pub fn shown_model(body: &str) -> (r: String)
    ensures
        r@ == response::or_text(named_in(body@, "name"@, "model"@), Seq::empty()),
{
    proof {
        reveal_strlit("");
        assert(""@ =~= Seq::<char>::empty());
    }
    match model_in_body(body, "name", "model") {
        Some(m) => m,
        None => String::new(),
    }
}

/// What is known of a model of the network: what its peer says, or else
/// `catalog`; its format is remote.
pub open spec fn remote_info(model: JsonV, catalog: JsonV) -> JsonV {
    let info = match json::field(model, "_show_info"@) {
        Some(i) => if i is Null {
            catalog
        } else {
            i
        },
        None => catalog,
    };
    match json::field(info, "details"@) {
        Some(d) => json::with_field(
            info,
            "details"@,
            json::with_field(d, "format"@, JsonV::Str("remote"@)),
        ),
        None => info,
    }
}

/// What a client is told of the model `requested`: of a model that only the
/// network has, what [`remote_info`] says, with what the catalog knows of it;
/// `None` where a server here is asked.
pub fn show_model_info(
    requested: &str,
    local_models: &Vec<String>,
    network: &Vec<Json>,
    catalog: Json,
) -> (r: Option<Json>)
    ensures
        json::opt_owned(r) == if text::views(local_models@).contains(requested@) {
            None
        } else {
            match routing::named_model(json::items_view(network@), requested@) {
                Some(m) => Some(remote_info(m, catalog@)),
                None => None,
            }
        },
{
    if text::list_has(local_models, requested) {
        return None;
    }
    match routing::find_model(network, requested) {
        Some(m) => {
            let info = match m.get("_show_info") {
                Some(i) => if i.is_null() {
                    catalog
                } else {
                    json::copy(i)
                },
                None => catalog,
            };
            let details = match info.get("details") {
                Some(d) => Some(json::copy(d).with("format", json::string("remote"))),
                None => None,
            };
            match details {
                Some(d) => Some(info.with("details", d)),
                None => Some(info),
            }
        },
        None => None,
    }
}

/// What a client is told of a model of a server that is not Ollama.
pub fn show_local_model(requested: &str, local_full: &Vec<Json>) -> (r: Result<Json, Refusal>)
    ensures
        match routing::named_model(json::items_view(local_full@), requested@) {
            Some(m) => r matches Ok(j) && j@ == m,
            None => r matches Err(e) && e@ == (RefusalV {
                status: 404,
                message: "Model "@ + requested@ + " not found"@,
            }),
        },
{
    match routing::find_model(local_full, requested) {
        Some(m) => Ok(json::copy(m)),
        None => {
            let message = text::concat3("Model ", requested, " not found");
            Err(Refusal { status: 404, message })
        },
    }
}

/// The version of a server that is not Ollama: its kind.
pub fn version_info(kind: &str) -> (r: Json)
    ensures
        r@ == JsonV::Obj(
            Map::<Seq<char>, JsonV>::empty().insert("version"@, JsonV::Str(kind@)),
        ),
{
    json::object().with("version", json::string(kind))
}

/// What a request for the state asks for.
#[derive(Debug)]
pub struct HealthQuery {
    pub check: Option<String>,
}

/// The state of the peer, as a client is told it.
#[derive(Debug)]
pub struct HealthResponse {
    pub status: String,
    pub llm_url: Option<String>,
    pub llm_backend: Option<String>,
    pub attached_servers: usize,
    pub models_count: Option<usize>,
    pub setup_complete: bool,
    pub llm_ready: bool,
}

/// The state of the peer. `backend` is the address and the kind of the first
/// server; `models` is how many models there are, where that is known.
pub fn health_check(
    query: &HealthQuery,
    attached: usize,
    backend: Option<(String, String)>,
    models: Option<usize>,
    setup_complete: bool,
    llm_ready: bool,
) -> (r: HealthResponse)
    ensures
        r.status@ == "ok"@,
        match backend {
            Some(b) => r.llm_url == Some(b.0) && r.llm_backend == Some(b.1),
            None => r.llm_url is None && r.llm_backend is None,
        },
        r.attached_servers == attached,
        r.models_count == if text::opt_view(query.check) is None || text::opt_view(query.check)
            == Some("llm"@) {
            models
        } else {
            Some(0)
        },
        r.setup_complete == setup_complete,
        r.llm_ready == llm_ready,
{
    let counts = match &query.check {
        Some(c) => text::str_eq(c, "llm"),
        None => true,
    };
    let models_count: Option<usize> = if counts {
        models
    } else {
        Some(0)
    };
    let (llm_url, llm_backend) = match backend {
        Some(b) => (Some(b.0), Some(b.1)),
        None => (None, None),
    };
    HealthResponse {
        status: text::copy("ok"),
        llm_url,
        llm_backend,
        attached_servers: attached,
        models_count,
        setup_complete,
        llm_ready,
    }
}

/// Before the setup is complete no server answers.
pub proof fn law_nothing_before_setup<T>(model: Option<Seq<char>>, resolved: Option<T>, first: Option<T>)
    ensures
        backend_for(false, model, resolved, first) == Err::<T, RefusalV>(not_set_up()),
{
}

/// A model that only the network has is shown as remote.
pub proof fn law_remote_model_is_shown_remote(model: JsonV, catalog: JsonV)
    ensures
        ({
            let details = json::field(remote_info(model, catalog), "details"@);
            details matches Some(d) ==> (d is Obj ==> json::str_field(d, "format"@) == Some(
                "remote"@,
            ))
        }),
{
}

/// A request goes to the server that has its model; where none has it, the client is
/// told which model is missing. A request that names no model goes to the first server,
/// and is refused only where there is none.
pub proof fn law_request_finds_its_server<T>(
    model: Seq<char>,
    resolved: Option<T>,
    first: Option<T>,
    b: T,
)
    ensures
        resolved == Some(b) ==> backend_for(true, Some(model), resolved, first) == Ok::<T, RefusalV>(
            b,
        ),
        resolved is None ==> (backend_for(true, Some(model), resolved, first) matches Err(e)
            && e.status == 404 && text::has(e.message, model)),
        first == Some(b) ==> backend_for(true, None, resolved, first) == Ok::<T, RefusalV>(b),
        first is None ==> (backend_for(true, None, resolved, first) matches Err(e) && e.status
            == 503),
        resolved == Some(b) ==> resolved_or_first(resolved, first) == Some(b),
        resolved is None ==> resolved_or_first(resolved, first) == first,
{
    text::law_prefix_is_taken_off(model, "No attached server hosts model '"@, "'"@);
}

/// A request goes to the network exactly where it names a model that is not here.
pub proof fn law_model_elsewhere_is_remote(j: JsonV, local: Seq<Seq<char>>, m: Seq<char>)
    ensures
        json::field(j, "model"@) == Some(JsonV::Str(m)) ==> is_remote(j, local) == !local.contains(
            m,
        ),
        !(json::field(j, "model"@) matches Some(JsonV::Str(_))) ==> !is_remote(j, local),
{
}

proof fn lemma_plan_keys()
    ensures
        request::is_sent_as_it_came("model"@),
        request::is_sent_as_it_came("stream"@),
{
    reveal_strlit("model");
    reveal_strlit("stream");
    reveal_strlit("input");
    reveal_strlit("messages");
    reveal_strlit("tools");
    reveal_strlit("options");
    reveal_strlit("stream_options");
    reveal_strlit("store");
    reveal_strlit("include");
    reveal_strlit("prompt_cache_retention");
    reveal_strlit("previous_response_id");
    reveal_strlit("truncation");
    reveal_strlit("reasoning");
    reveal_strlit("text");
    reveal_strlit("prompt");
    reveal_strlit("metadata");
    assert("model"@.len() == 5 && "stream"@.len() == 6);
    assert("model"@[0] == 'm' && "stream"@[0] == 's');
    assert("input"@[0] == 'i' && "tools"@[0] == 't' && "store"@[0] == 's' && "prompt"@[0] == 'p');
    assert("messages"@.len() == 8 && "options"@.len() == 7 && "stream_options"@.len() == 14
        && "include"@.len() == 7 && "prompt_cache_retention"@.len() == 22
        && "previous_response_id"@.len() == 20 && "truncation"@.len() == 10 && "reasoning"@.len()
        == 9 && "text"@.len() == 4 && "metadata"@.len() == 8);
}

/// An agent's request is handled for the model that it names: it goes on for that model,
/// to the network exactly where the model is not here, and as a stream exactly where it
/// asks for one.
pub proof fn law_agent_gets_its_model(
    r: AgentPlan,
    b: JsonV,
    default_predict: Option<u64>,
    default_ctx: Option<u64>,
    format: AgentResponseFormat,
    local: Seq<Seq<char>>,
    m: Seq<char>,
)
    requires
        plans_agent(r, b, default_predict, default_ctx, format, local),
        json::field(b, "model"@) == Some(JsonV::Str(m)),
    ensures
        r.model@ == m,
        r.remote == !local.contains(m),
        r.stream == (json::field(b, "stream"@) == Some(JsonV::Bool(true))),
        json::field(r.body@, "model"@) == Some(JsonV::Str(m)),
        r.summary.response_format == format,
{
    lemma_plan_keys();
    request::law_other_fields_are_sent(b, default_predict, default_ctx, "model"@);
    request::law_other_fields_are_sent(b, default_predict, default_ctx, "stream"@);
}

/// An agent is answered what the model said: a text that writes no call reaches a client
/// of chat completions as it came, and a client of the Responses API as the first
/// output.
pub proof fn law_agent_is_answered_the_text(
    body: JsonV,
    choices: Seq<JsonV>,
    message: JsonV,
    t: Seq<char>,
    out: JsonV,
    format: AgentResponseFormat,
)
    requires
        json::field(body, "choices"@) == Some(JsonV::Arr(choices)),
        choices.len() > 0,
        json::field(choices[0], "message"@) == Some(message),
        json::field(message, "content"@) == Some(JsonV::Str(t)),
        json::field(message, "tool_calls"@) is None,
        tool_calls::calls_in_text(t) is None,
        t.len() > 0,
        answers(body, format, out),
    ensures
        format == AgentResponseFormat::ChatCompletions ==> out == body,
        format == AgentResponseFormat::ResponsesApi ==> (json::field(out, "output"@) matches Some(
            JsonV::Arr(output),
        ) && output.len() == 1 && response::says_text(output[0], t)),
{
    response::law_written_calls_are_rewritten(body, choices, message, t);
    if format == AgentResponseFormat::ResponsesApi {
        let (id, now) = choose|id: Seq<char>, now: u64|
            #![trigger response::responses_form(body, id, now)]
            outside::is_simple_uuid(id) && out == response::responses_form(body, id, now);
        response::law_responses_form_says_the_same(body, choices, message, t, id, now);
    }
}

/// An agent is answered the calls that the model wrote as text: a client of chat
/// completions finds them in the message, and a client of the Responses API as outputs.
pub proof fn law_agent_is_answered_the_calls(
    body: JsonV,
    choices: Seq<JsonV>,
    c: Map<Seq<char>, JsonV>,
    m: Map<Seq<char>, JsonV>,
    t: Seq<char>,
    calls: Seq<tool_calls::CallV>,
    out: JsonV,
    format: AgentResponseFormat,
)
    requires
        json::field(body, "choices"@) == Some(JsonV::Arr(choices)),
        choices.len() > 0,
        choices[0] == JsonV::Obj(c),
        json::field(JsonV::Obj(c), "message"@) == Some(JsonV::Obj(m)),
        json::field(JsonV::Obj(m), "content"@) == Some(JsonV::Str(t)),
        json::field(JsonV::Obj(m), "tool_calls"@) is None,
        tool_calls::calls_in_text(t) == Some(calls),
        answers(body, format, out),
    ensures
        format == AgentResponseFormat::ChatCompletions ==> (response::first_message(out) matches Some(
            message,
        ) && json::field(message, "content"@) == Some(JsonV::Null) && (json::field(
            message,
            "tool_calls"@,
        ) matches Some(j) && forall|i: int|
            0 <= i < calls.len() ==> response::tells_call(j, i, #[trigger] calls[i]))),
        format == AgentResponseFormat::ResponsesApi ==> (json::field(out, "output"@) matches Some(
            JsonV::Arr(output),
        ) && output.len() == calls.len() && forall|i: int|
            0 <= i < calls.len() ==> call_is_output(output[i], #[trigger] calls[i])),
{
    let message = JsonV::Obj(m);
    response::law_written_calls_are_rewritten(body, choices, message, t);
    let mid = choose|mid: JsonV|
        #![trigger answer_form(mid, format, out)]
        response::rewritten(body, calls, mid) && answer_form(mid, format, out);
    response::law_rewritten_completion_tells_the_calls(body, choices, c, m, calls, mid);
    if format == AgentResponseFormat::ResponsesApi {
        let (id, now) = choose|id: Seq<char>, now: u64|
            #![trigger response::responses_form(mid, id, now)]
            outside::is_simple_uuid(id) && out == response::responses_form(mid, id, now);
        let after = json::field(mid, "choices"@)->0->Arr_0;
        let said = json::field(after[0], "message"@)->0;
        let entries = json::field(said, "tool_calls"@)->0->Arr_0;
        response::law_responses_form_says_the_same(mid, after, said, Seq::empty(), id, now);
        let j = choose|j: JsonV|
            #![trigger tool_calls::are_entries(calls, j)]
            tool_calls::are_entries(calls, j) && mid == response::with_tool_calls(body, j);
        tool_calls::law_entries_tell_the_calls(calls, j);
        let output = json::field(out, "output"@)->0->Arr_0;
        lemma_calls_put(body, choices, c, m, j);
        assert forall|i: int| 0 <= i < calls.len() implies call_is_output(
            output[i],
            #[trigger] calls[i],
        ) by {
            let call = json::str_field(entries[i], "id"@)->0;
            assert(response::entry_says(entries[i], call, calls[i].name, calls[i].arguments));
            assert(response::says_call(output[0 + i], call, calls[i].name, calls[i].arguments));
        }
    }
}

proof fn lemma_calls_put(
    body: JsonV,
    choices: Seq<JsonV>,
    c: Map<Seq<char>, JsonV>,
    m: Map<Seq<char>, JsonV>,
    j: JsonV,
)
    requires
        json::field(body, "choices"@) == Some(JsonV::Arr(choices)),
        choices.len() > 0,
        choices[0] == JsonV::Obj(c),
        json::field(JsonV::Obj(c), "message"@) == Some(JsonV::Obj(m)),
    ensures
        response::first_message(response::with_tool_calls(body, j)) matches Some(message)
            && json::field(message, "tool_calls"@) == Some(j),
{
    reveal_strlit("message");
    reveal_strlit("finish_reason");
    assert("message"@.len() != "finish_reason"@.len());
}

/// Whether an output of the Responses API is the call `c`, under some identifier.
pub open spec fn call_is_output(item: JsonV, c: tool_calls::CallV) -> bool {
    exists|id: Seq<char>| response::says_call(item, id, c.name, c.arguments)
}

/// A request for a server that speaks OpenAI's way says whether to stream and which
/// model, without the ending of a file; everything else it says stays.
pub proof fn law_translated_request_says_the_same(
    b: Map<Seq<char>, JsonV>,
    model: Seq<char>,
    stream: bool,
)
    ensures
        ({
            let out = openai_form(JsonV::Obj(b), Some(model), stream);
            &&& json::field(out, "stream"@) == Some(JsonV::Bool(stream))
            &&& json::field(out, "model"@) == Some(JsonV::Str(bare_name(model)))
            &&& forall|k: Seq<char>|
                k != "stream"@ && k != "model"@ ==> #[trigger] json::field(out, k) == json::field(
                    JsonV::Obj(b),
                    k,
                )
        }),
        bare_name(model + ".gguf"@) == model,
        !text::ends(model, ".gguf"@) ==> bare_name(model) == model,
{
    reveal_strlit("stream");
    reveal_strlit("model");
    reveal_strlit(".gguf");
    assert("stream"@.len() != "model"@.len());
    text::law_prefix_is_taken_off(".gguf"@, model, model);
    assert((model + ".gguf"@).take(model.len() as int) =~= model);
}

/// A request to generate is refused only where the peer is not set up, or where it is
/// for a model here and no server of Ollama can take it.
pub proof fn law_generate_is_refused_for_a_reason(
    model: Option<Seq<char>>,
    local: Seq<Seq<char>>,
    backend: Option<bool>,
)
    ensures
        generate_refused(false, model, local, backend) is Some,
        model matches Some(m) && !local.contains(m) ==> generate_refused(true, model, local, backend)
            is None,
        backend == Some(true) ==> generate_refused(true, model, local, backend) is None,
        (model matches Some(m) ==> local.contains(m)) && backend == Some(false) ==> (
        generate_refused(true, model, local, backend) matches Some(e) && e.status == 501),
        (model matches Some(m) ==> local.contains(m)) && backend is None ==> (generate_refused(
            true,
            model,
            local,
            backend,
        ) matches Some(e) && e.status == 503),
{
}

/// What is told of a model of the network is what the network told, or else what the
/// catalogue says; only its format is that of a remote model.
pub proof fn law_remote_model_is_described(
    model: JsonV,
    catalog: JsonV,
    info: Map<Seq<char>, JsonV>,
    details: Map<Seq<char>, JsonV>,
)
    requires
        json::field(model, "_show_info"@) == Some(JsonV::Obj(info)) || (json::field(
            model,
            "_show_info"@,
        ) is None && catalog == JsonV::Obj(info)),
    ensures
        forall|k: Seq<char>|
            k != "details"@ ==> #[trigger] json::field(remote_info(model, catalog), k)
                == json::field(JsonV::Obj(info), k),
        json::field(JsonV::Obj(info), "details"@) == Some(JsonV::Obj(details)) ==> (json::field(
            remote_info(model, catalog),
            "details"@,
        ) matches Some(d) && json::field(d, "format"@) == Some(JsonV::Str("remote"@)) && forall|
            k: Seq<char>,
        |
            k != "format"@ ==> #[trigger] json::field(d, k) == json::field(JsonV::Obj(details), k)),
{
}

/// A request names its model under the first field that it has.
pub proof fn law_model_is_named(j: JsonV, a: Seq<char>, b: Seq<char>, n: Seq<char>)
    ensures
        json::field(j, a) == Some(JsonV::Str(n)) ==> named_by(j, a, b) == Some(n),
        json::field(j, a) is None && json::field(j, b) == Some(JsonV::Str(n)) ==> named_by(j, a, b)
            == Some(n),
        json::field(j, a) is None && json::field(j, b) is None ==> named_by(j, a, b) is None,
{
}

/// A request to an endpoint of Ollama names its model: by `name` where models are pulled,
/// pushed or created, and by `model` where they are used or deleted.
pub proof fn law_endpoint_finds_its_model(e: OllamaEndpoint, body: Seq<char>, j: JsonV, m: Seq<char>)
    requires
        json::reads_as(body, j),
        m.len() > 0,
    ensures
        ({
            let found = named_in(body, endpoint_of(e).1, endpoint_of(e).2);
            &&& (e is Pull || e is Push || e is Create) && json::field(j, "name"@) == Some(
                JsonV::Str(m),
            ) ==> found == Some(m)
            &&& (e is Embed || e is Delete) && json::field(j, "model"@) == Some(JsonV::Str(m))
                ==> found == Some(m)
            &&& e is Pull && json::field(j, "name"@) is None && json::field(j, "model"@) == Some(
                JsonV::Str(m),
            ) ==> found == Some(m)
            &&& e is Delete && json::field(j, "model"@) is None && json::field(j, "name"@) == Some(
                JsonV::Str(m),
            ) ==> found == Some(m)
            &&& json::field(j, "name"@) is None && json::field(j, "model"@) is None
                ==> found is None
        }),
{
}

/// A request of a client of Ollama is planned as it was written: its text, what that
/// says, whether it wants a stream, and its model. It goes to the network just where it
/// names a model that is not here.
pub proof fn law_request_is_planned(
    r: ProxyPlan,
    t: Seq<char>,
    j: JsonV,
    local: Seq<Seq<char>>,
    m: Seq<char>,
)
    requires
        plans_proxy(r, t, j, local),
    ensures
        r.text@ == t,
        r.body@ == j,
        r.stream <==> json::field(j, "stream"@) == Some(JsonV::Bool(true)),
        json::field(j, "model"@) == Some(JsonV::Str(m)) ==> text::opt_view(r.model) == Some(m),
        json::field(j, "model"@) is None ==> r.model is None && !r.remote,
        json::field(j, "model"@) == Some(JsonV::Str(m)) && local.contains(m) ==> !r.remote,
{
}

} // verus!
