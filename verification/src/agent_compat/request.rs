//! Incoming chat requests, brought into the shape that chat-completions
//! servers and Ollama take.

use crate::json;
use crate::json::{Json, JsonV};
use crate::text;
use vstd::prelude::*;

verus! {

/// The wire format in which an agent client expects its response.
#[derive(Debug, Clone, Copy, PartialEq, Eq, Structural)]
pub enum AgentResponseFormat {
    ChatCompletions,
    ResponsesApi,
}

impl Default for AgentResponseFormat {
    fn default() -> (r: Self)
        ensures
            r == AgentResponseFormat::ChatCompletions,
    {
        AgentResponseFormat::ChatCompletions
    }
}

/// What a request looked like.
#[derive(Debug)]
pub struct AgentRequestSummary {
    pub model: Option<String>,
    pub stream: bool,
    pub message_count: usize,
    pub tool_count: usize,
    pub normalized: bool,
    pub had_input_field: bool,
    pub response_format: AgentResponseFormat,
}

/// The `{"role": .., "content": ..}` message.
pub open spec fn message(role: Seq<char>, content: JsonV) -> JsonV {
    JsonV::Obj(map!["role"@ => JsonV::Str(role), "content"@ => content])
}

fn user_message(content: Json) -> (r: Json)
    ensures
        r@ == message("user"@, content@),
{
    json::object().with("role", json::string("user")).with("content", content)
}

/// A message whose `developer` role is `system`.
pub open spec fn system_role(msg: JsonV) -> JsonV {
    if json::str_field(msg, "role"@) == Some("developer"@) {
        json::with_field(msg, "role"@, JsonV::Str("system"@))
    } else {
        msg
    }
}

fn normalize_message_roles(msg: Json) -> (r: Json)
    ensures
        r@ == system_role(msg@),
{
    let developer = match msg.get_str("role") {
        Some(role) => text::str_eq(role, "developer"),
        None => false,
    };
    if developer {
        msg.with("role", json::string("system"))
    } else {
        msg
    }
}

/// The message that one item of an `input` array stands for.
pub open spec fn input_message(item: JsonV) -> JsonV {
    if json::field(item, "role"@) is Some {
        system_role(item)
    } else {
        match json::field(item, "content"@) {
            Some(content) => message("user"@, content),
            None => message("user"@, JsonV::Str(json::json_print(item))),
        }
    }
}

fn normalize_input_item(item: &Json) -> (r: Json)
    ensures
        r@ == input_message(item@),
{
    if item.get("role").is_some() {
        return normalize_message_roles(json::copy(item));
    }
    match item.get("content") {
        Some(content) => user_message(json::copy(content)),
        None => user_message(Json::Str(json::print(item))),
    }
}

/// The messages that an `input` field stands for.
pub open spec fn input_messages(input: JsonV) -> JsonV {
    match input {
        JsonV::Str(s) => JsonV::Arr(seq![message("user"@, JsonV::Str(s))]),
        JsonV::Arr(items) => JsonV::Arr(items.map_values(|i: JsonV| input_message(i))),
        other => JsonV::Arr(seq![message("user"@, JsonV::Str(json::json_print(other)))]),
    }
}

fn one(item: Json) -> (r: Json)
    ensures
        r@ == JsonV::Arr(seq![item@]),
{
    let mut v: Vec<Json> = Vec::new();
    v.push(item);
    assert(json::items_view(v@) =~= seq![item@]);
    json::array(v)
}

fn input_to_messages(input: &Json) -> (r: Json)
    ensures
        r@ == input_messages(input@),
{
    match input {
        Json::Str(s) => one(user_message(json::string(s))),
        Json::Array(items) => {
            let mut out: Vec<Json> = Vec::new();
            for i in 0..items.len()
                invariant
                    out@.len() == i,
                    forall|k: int| 0 <= k < i ==> (#[trigger] out@[k])@ == input_message(items@[k]@),
            {
                out.push(normalize_input_item(&items[i]));
            }
            assert(json::items_view(out@) =~= json::items_view(items@).map_values(
                |i: JsonV| input_message(i),
            ));
            json::array(out)
        },
        other => one(user_message(Json::Str(json::print(other)))),
    }
}

/// Whether strict parsers reject the schema entry `k: v`.
pub open spec fn schema_key_dropped(k: Seq<char>, v: JsonV) -> bool {
    k == "$schema"@ || k == "title"@ || (k == "additionalProperties"@ && v == JsonV::Bool(false))
}

/// A schema without, at any depth, the entries that strict parsers reject.
pub open spec fn schema_cleaned(j: JsonV) -> JsonV
    decreases j,
{
    match j {
        JsonV::Obj(m) => JsonV::Obj(
            Map::new(
                |k: Seq<char>| m.dom().contains(k) && !schema_key_dropped(k, m[k]),
                |k: Seq<char>|
                    if m.dom().contains(k) {
                        schema_cleaned(m[k])
                    } else {
                        JsonV::Null
                    },
            ),
        ),
        JsonV::Arr(s) => JsonV::Arr(
            Seq::new(
                s.len(),
                |i: int|
                    if 0 <= i < s.len() {
                        schema_cleaned(s[i])
                    } else {
                        JsonV::Null
                    },
            ),
        ),
        other => other,
    }
}

/// Strips, at any depth, the schema entries that strict parsers reject.
pub fn clean_schema(value: &Json) -> (r: Json)
    ensures
        r@ == schema_cleaned(value@),
    decreases *value,
{
    match value {
        Json::Object(v) => {
            let mut out = json::object();
            assert(out@->Obj_0 =~= schema_cleaned(
                JsonV::Obj(json::entries_view(v@.take(0))),
            )->Obj_0);
            for i in 0..v.len()
                invariant
                    *value == Json::Object(*v),
                    out@ == schema_cleaned(JsonV::Obj(json::entries_view(v@.take(i as int)))),
            {
                let k = &v[i].0;
                let child = &v[i].1;
                proof {
                    assert(v@.take(i as int + 1).drop_last() =~= v@.take(i as int));
                    assert(decreases_to!(*value => value->Object_0));
                    assert(decreases_to!(*v => v@));
                    assert(decreases_to!(v@ => v@[i as int]));
                    assert(decreases_to!(v@[i as int] => v@[i as int].1));
                }
                let ghost before = out@;
                if schema_key_is_dropped(k, child) {
                    out.remove(k);
                } else {
                    out.set(k, clean_schema(child));
                }
                assert(out@->Obj_0 =~= schema_cleaned(
                    JsonV::Obj(json::entries_view(v@.take(i as int + 1))),
                )->Obj_0);
            }
            assert(v@.take(v@.len() as int) =~= v@);
            out
        },
        Json::Array(v) => {
            let mut out: Vec<Json> = Vec::new();
            for i in 0..v.len()
                invariant
                    *value == Json::Array(*v),
                    out@.len() == i,
                    forall|k: int| 0 <= k < i ==> (#[trigger] out@[k])@ == schema_cleaned(v@[k]@),
            {
                proof {
                    assert(decreases_to!(*value => value->Array_0));
                    assert(decreases_to!(*v => v@));
                    assert(decreases_to!(v@ => v@[i as int]));
                }
                out.push(clean_schema(&v[i]));
            }
            assert(json::items_view(out@) =~= schema_cleaned(value@)->Arr_0);
            json::array(out)
        },
        other => json::copy(other),
    }
}

fn schema_key_is_dropped(k: &str, v: &Json) -> (r: bool)
    ensures
        r == schema_key_dropped(k@, v@),
{
    if text::str_eq(k, "$schema") || text::str_eq(k, "title") {
        return true;
    }
    let is_false = match v {
        Json::Bool(b) => !*b,
        _ => false,
    };
    is_false && text::str_eq(k, "additionalProperties")
}

/// A tool's `function` with its parameter schema cleaned; where there is no
/// `parameters`, the cleaned `input_schema` takes its place.
pub open spec fn function_cleaned(func: JsonV) -> JsonV {
    match json::field(func, "parameters"@) {
        Some(p) => json::with_field(func, "parameters"@, schema_cleaned(p)),
        None => match json::field(func, "input_schema"@) {
            Some(s) => json::without_field(
                json::with_field(func, "parameters"@, schema_cleaned(s)),
                "input_schema"@,
            ),
            None => func,
        },
    }
}

/// The first of two optional values that is there.
pub open spec fn first_of(a: Option<JsonV>, b: Option<JsonV>) -> Option<JsonV> {
    if a is Some {
        a
    } else {
        b
    }
}

/// The value, or `d` where there is none.
pub open spec fn or_value(a: Option<JsonV>, d: JsonV) -> JsonV {
    match a {
        Some(v) => v,
        None => d,
    }
}

/// The schema of a tool without parameters.
pub open spec fn empty_schema() -> JsonV {
    JsonV::Obj(
        map!["type"@ => JsonV::Str("object"@), "properties"@ => JsonV::Obj(Map::empty())],
    )
}

/// The chat-completions form of a tool; `None` where it is dropped.
pub open spec fn tool_normalized(tool: JsonV) -> Option<JsonV> {
    if json::str_field(tool, "type"@) == Some("custom"@) {
        None
    } else {
        match json::field(tool, "function"@) {
            Some(func) => Some(json::with_field(tool, "function"@, function_cleaned(func))),
            None => match json::str_field(tool, "name"@) {
                Some(name) => Some(
                    JsonV::Obj(
                        map![
                        "type"@ => JsonV::Str("function"@),
                        "function"@ => JsonV::Obj(map![
                            "name"@ => JsonV::Str(name),
                            "description"@ => or_value(
                                first_of(json::field(tool, "description"@), json::field(tool, "desc"@)),
                                JsonV::Str(""@)),
                            "parameters"@ => schema_cleaned(or_value(
                                first_of(json::field(tool, "parameters"@), json::field(tool, "input_schema"@)),
                                empty_schema())),
                        ])
                    ],
                    ),
                ),
                None => None,
            },
        }
    }
}

fn clean_function(func: &Json) -> (r: Json)
    ensures
        r@ == function_cleaned(func@),
{
    let mut out = json::copy(func);
    match func.get("parameters") {
        Some(p) => {
            out.set("parameters", clean_schema(p));
        },
        None => {
            if let Some(s) = func.get("input_schema") {
                out.set("parameters", clean_schema(s));
                out.remove("input_schema");
            }
        },
    }
    out
}

/// A copy of the first of two optional values that is there, or `d`.
fn first_or(a: Option<&Json>, b: Option<&Json>, d: Json) -> (r: Json)
    ensures
        r@ == or_value(first_of(json::opt(a), json::opt(b)), d@),
{
    match a {
        Some(x) => json::copy(x),
        None => match b {
            Some(y) => json::copy(y),
            None => d,
        },
    }
}

fn normalize_tool(tool: &Json) -> (r: Option<Json>)
    ensures
        json::opt_owned(r) == tool_normalized(tool@),
{
    let custom = match tool.get_str("type") {
        Some(t) => text::str_eq(t, "custom"),
        None => false,
    };
    if custom {
        return None;
    }
    if let Some(func) = tool.get("function") {
        let cleaned = clean_function(func);
        return Some(json::copy(tool).with("function", cleaned));
    }
    match tool.get_str("name") {
        Some(name) => {
            let description = first_or(
                tool.get("description"),
                tool.get("desc"),
                json::string(""),
            );
            let none = json::object().with("type", json::string("object")).with(
                "properties",
                json::object(),
            );
            let parameters = first_or(tool.get("parameters"), tool.get("input_schema"), none);
            let func = json::object().with("name", json::string(name)).with(
                "description",
                description,
            ).with("parameters", clean_schema(&parameters));
            Some(
                json::object().with("type", json::string("function")).with("function", func),
            )
        },
        None => None,
    }
}

/// The chat-completions forms of the tools that are kept.
pub open spec fn tools_kept(items: Seq<JsonV>) -> Seq<JsonV>
    decreases items.len(),
{
    if items.len() == 0 {
        Seq::empty()
    } else {
        match tool_normalized(items.last()) {
            Some(t) => tools_kept(items.drop_last()).push(t),
            None => tools_kept(items.drop_last()),
        }
    }
}

/// The chat-completions form of a `tools` field.
pub open spec fn tools_normalized(tools: JsonV) -> JsonV {
    match tools {
        JsonV::Arr(items) => JsonV::Arr(tools_kept(items)),
        _ => JsonV::Arr(Seq::empty()),
    }
}

fn normalize_tools_array(tools: &Json) -> (r: Json)
    ensures
        r@ == tools_normalized(tools@),
{
    let mut out: Vec<Json> = Vec::new();
    assert(json::items_view(out@) =~= Seq::empty());
    if let Json::Array(items) = tools {
        let ghost iv = json::items_view(items@);
        for i in 0..items.len()
            invariant
                iv == json::items_view(items@),
                json::items_view(out@) == tools_kept(iv.take(i as int)),
        {
            assert(iv.take(i as int + 1).drop_last() =~= iv.take(i as int));
            assert(iv.take(i as int + 1).last() == items@[i as int]@);
            if let Some(t) = normalize_tool(&items[i]) {
                proof {
                    json::lemma_items_push(out@, t);
                }
                out.push(t);
            }
        }
        assert(iv.take(iv.len() as int) =~= iv);
    }
    json::array(out)
}

/// Whether a field is of the Responses API only.
pub open spec fn responses_only(k: Seq<char>) -> bool {
    ||| k == "store"@
    ||| k == "include"@
    ||| k == "prompt_cache_retention"@
    ||| k == "previous_response_id"@
    ||| k == "truncation"@
    ||| k == "reasoning"@
    ||| k == "text"@
    ||| k == "prompt"@
    ||| k == "metadata"@
}

/// A request without the fields of the Responses API.
pub open spec fn responses_fields_stripped(body: JsonV) -> JsonV {
    match body {
        JsonV::Obj(m) => JsonV::Obj(
            Map::new(|k: Seq<char>| m.dom().contains(k) && !responses_only(k), |k: Seq<char>| m[k]),
        ),
        _ => body,
    }
}

/// Whether a request has a field of the Responses API.
pub open spec fn has_responses_field(body: JsonV) -> bool {
    match body {
        JsonV::Obj(m) => exists|k: Seq<char>| #[trigger] m.dom().contains(k) && responses_only(k),
        _ => false,
    }
}

/// Takes the entry under `k` away; whether there was one.
fn take_away(body: &mut Json, k: &str) -> (r: bool)
    ensures
        final(body)@ == json::without_field(old(body)@, k@),
        r == (json::field(old(body)@, k@) is Some),
{
    let there = body.get(k).is_some();
    body.remove(k);
    there
}

fn strip_responses_only_fields(body: &mut Json) -> (r: bool)
    ensures
        final(body)@ == responses_fields_stripped(old(body)@),
        r == has_responses_field(old(body)@),
{
    let a = take_away(body, "store");
    let b = take_away(body, "include");
    let c = take_away(body, "prompt_cache_retention");
    let d = take_away(body, "previous_response_id");
    let e = take_away(body, "truncation");
    let f = take_away(body, "reasoning");
    let g = take_away(body, "text");
    let h = take_away(body, "prompt");
    let i = take_away(body, "metadata");
    proof {
        if let JsonV::Obj(m) = old(body)@ {
            assert(body@->Obj_0 =~= responses_fields_stripped(old(body)@)->Obj_0);
        }
    }
    a || b || c || d || e || f || g || h || i
}

/// The tool message that a `tool_result` part stands for.
pub open spec fn tool_result_message(part: JsonV) -> JsonV {
    JsonV::Obj(
        map![
            "role"@ => JsonV::Str("tool"@),
            "tool_call_id"@ => or_value(json::field(part, "tool_use_id"@), JsonV::Str(""@)),
            "content"@ => or_value(json::field(part, "content"@), JsonV::Str(""@)),
        ],
    )
}

/// A message with a plain role; a user message that is one `tool_result` part
/// and nothing else is a tool message.
pub open spec fn message_normalized(msg: JsonV) -> JsonV {
    let m = system_role(msg);
    match json::arr_in(json::field(m, "content"@)) {
        Some(parts) => if json::str_field(m, "role"@) == Some("user"@) && parts.len() == 1
            && json::str_field(parts[0], "type"@) == Some("tool_result"@) {
            tool_result_message(parts[0])
        } else {
            m
        },
        None => m,
    }
}

fn normalize_message(msg: &Json) -> (r: Json)
    ensures
        r@ == message_normalized(msg@),
{
    let m = normalize_message_roles(json::copy(msg));
    let user = match m.get_str("role") {
        Some(role) => text::str_eq(role, "user"),
        None => false,
    };
    if user {
        if let Some(Json::Array(parts)) = m.get("content") {
            if parts.len() == 1 {
                let part = &parts[0];
                assert(json::items_view(parts@)[0] == part@);
                let result = match part.get_str("type") {
                    Some(t) => text::str_eq(t, "tool_result"),
                    None => false,
                };
                if result {
                    let id = first_or(part.get("tool_use_id"), None, json::string(""));
                    let content = first_or(part.get("content"), None, json::string(""));
                    return json::object().with("role", json::string("tool")).with(
                        "tool_call_id",
                        id,
                    ).with("content", content);
                }
            }
        }
    }
    m
}

/// A request whose messages are normalized.
pub open spec fn messages_normalized(body: JsonV) -> JsonV {
    match json::arr_in(json::field(body, "messages"@)) {
        Some(items) => json::with_field(
            body,
            "messages"@,
            JsonV::Arr(items.map_values(|m: JsonV| message_normalized(m))),
        ),
        None => body,
    }
}

fn normalize_tool_messages(body: &mut Json)
    ensures
        final(body)@ == messages_normalized(old(body)@),
{
    let mut out: Vec<Json> = Vec::new();
    let ghost b = body@;
    let found = match body.get("messages") {
        Some(Json::Array(items)) => {
            for i in 0..items.len()
                invariant
                    out@.len() == i,
                    forall|k: int|
                        0 <= k < i ==> (#[trigger] out@[k])@ == message_normalized(items@[k]@),
            {
                out.push(normalize_message(&items[i]));
            }
            assert(json::items_view(out@) =~= json::items_view(items@).map_values(
                |m: JsonV| message_normalized(m),
            ));
            true
        },
        _ => false,
    };
    if found {
        body.set("messages", json::array(out));
    }
}

/// The request that asks for a final usage chunk where it streams, and whether
/// that is a change.
pub open spec fn with_stream_usage(body: JsonV) -> (JsonV, bool) {
    if json::bool_in(json::field(body, "stream"@)) == Some(true) {
        match json::field(body, "stream_options"@) {
            None => (
                json::with_field(
                    body,
                    "stream_options"@,
                    JsonV::Obj(map!["include_usage"@ => JsonV::Bool(true)]),
                ),
                true,
            ),
            Some(JsonV::Obj(opts)) => if opts.dom().contains("include_usage"@) {
                (body, false)
            } else {
                (
                    json::with_field(
                        body,
                        "stream_options"@,
                        JsonV::Obj(opts.insert("include_usage"@, JsonV::Bool(true))),
                    ),
                    true,
                )
            },
            Some(_) => (body, false),
        }
    } else {
        (body, false)
    }
}

/// Makes a streaming request ask for a final usage chunk; whether it changed.
pub fn ensure_stream_usage(body: &mut Json) -> (r: bool)
    ensures
        (final(body)@, r) == with_stream_usage(old(body)@),
{
    let streams = match body.get("stream") {
        Some(s) => match s.as_bool() {
            Some(b) => b,
            None => false,
        },
        None => false,
    };
    if !streams {
        return false;
    }
    let opts = match body.get("stream_options") {
        None => json::object(),
        Some(o) => {
            if !o.is_object() || o.get("include_usage").is_some() {
                return false;
            }
            json::copy(o)
        },
    };
    body.set("stream_options", opts.with("include_usage", Json::Bool(true)));
    true
}

/// A request with `value` under `k` of its `options`, and whether it could be
/// put there: only where `options` is an object or absent.
pub open spec fn with_option(body: JsonV, k: Seq<char>, value: u64) -> (JsonV, bool) {
    match json::field(body, "options"@) {
        None => (
            json::with_field(
                body,
                "options"@,
                JsonV::Obj(map![k => JsonV::Int(value as int)]),
            ),
            true,
        ),
        Some(JsonV::Obj(opts)) => (
            json::with_field(
                body,
                "options"@,
                JsonV::Obj(opts.insert(k, JsonV::Int(value as int))),
            ),
            true,
        ),
        Some(_) => (body, false),
    }
}

fn set_option(body: &mut Json, k: &str, value: u64) -> (r: bool)
    requires
        old(body)@ is Obj,
    ensures
        (final(body)@, r) == with_option(old(body)@, k@, value),
{
    let opts = match body.get("options") {
        None => json::object(),
        Some(o) => {
            if !o.is_object() {
                return false;
            }
            json::copy(o)
        },
    };
    body.set("options", opts.with(k, Json::UInt(value)));
    true
}

/// The `options.num_predict` of a request.
pub open spec fn num_predict(body: JsonV) -> Option<i64> {
    match json::field(body, "options"@) {
        Some(o) => json::i64_in(json::field(o, "num_predict"@)),
        None => None,
    }
}

/// The output cap to put into a request; `None` where it is left alone.
///
/// A cap of -1, unlimited, stays. A positive cap stays unless the default is
/// higher. Otherwise `max_tokens` counts, and then the default.
pub open spec fn predict_resolved(body: JsonV, default_predict: Option<u64>) -> Option<u64> {
    let asked = match json::u64_in(json::field(body, "max_tokens"@)) {
        Some(n) => Some(n),
        None => default_predict,
    };
    match num_predict(body) {
        Some(n) => if n == -1 {
            None
        } else if n <= 0 {
            asked
        } else {
            match default_predict {
                Some(d) => if n >= d {
                    None
                } else {
                    Some(d)
                },
                None => None,
            }
        },
        None => asked,
    }
}

/// The request with its output cap, and whether that is a change.
pub open spec fn with_predict(body: JsonV, default_predict: Option<u64>) -> (JsonV, bool) {
    if body is Obj {
        match predict_resolved(body, default_predict) {
            Some(n) => with_option(body, "num_predict"@, n),
            None => (body, false),
        }
    } else {
        (body, false)
    }
}

/// Gives a request for Ollama an explicit output cap; whether it changed.
pub fn ensure_ollama_predict_options_with_default(
    body: &mut Json,
    default_predict: Option<u64>,
) -> (r: bool)
    ensures
        (final(body)@, r) == with_predict(old(body)@, default_predict),
{
    if !body.is_object() {
        return false;
    }
    let existing: Option<i64> = match body.get("options") {
        Some(o) => match o.get("num_predict") {
            Some(n) => n.as_i64(),
            None => None,
        },
        None => None,
    };
    let max_tokens: Option<u64> = match body.get("max_tokens") {
        Some(n) => n.as_u64(),
        None => None,
    };
    let asked: Option<u64> = match max_tokens {
        Some(n) => Some(n),
        None => default_predict,
    };
    let resolved: Option<u64> = match existing {
        Some(n) => if n == -1 {
            None
        } else if n <= 0 {
            asked
        } else {
            match default_predict {
                Some(d) => if n as u64 >= d {
                    None
                } else {
                    Some(d)
                },
                None => None,
            }
        },
        None => asked,
    };
    match resolved {
        Some(n) => set_option(body, "num_predict", n),
        None => false,
    }
}

/// The `options.num_ctx` of a request.
pub open spec fn num_ctx(body: JsonV) -> Option<u64> {
    match json::field(body, "options"@) {
        Some(o) => json::u64_in(json::field(o, "num_ctx"@)),
        None => None,
    }
}

/// The request with a context window of at least the default, and whether that
/// is a change. A default of 0 is none.
pub open spec fn with_ctx(body: JsonV, default_ctx: Option<u64>) -> (JsonV, bool) {
    match default_ctx {
        Some(d) => if body is Obj && d > 0 && !(num_ctx(body) matches Some(n) && n >= d) {
            with_option(body, "num_ctx"@, d)
        } else {
            (body, false)
        },
        None => (body, false),
    }
}

/// Gives a request for Ollama an explicit context window; whether it changed.
pub fn ensure_ollama_ctx_options_with_default(body: &mut Json, default_ctx: Option<u64>) -> (r:
    bool)
    ensures
        (final(body)@, r) == with_ctx(old(body)@, default_ctx),
{
    let d: u64 = match default_ctx {
        Some(d) => d,
        None => {
            return false;
        },
    };
    if d == 0 || !body.is_object() {
        return false;
    }
    let existing: Option<u64> = match body.get("options") {
        Some(o) => match o.get("num_ctx") {
            Some(n) => n.as_u64(),
            None => None,
        },
        None => None,
    };
    let enough = match existing {
        Some(n) => n >= d,
        None => false,
    };
    if enough {
        return false;
    }
    set_option(body, "num_ctx", d)
}

/// A setting that is a number from 1 on; anything else is no setting.
pub open spec fn positive_setting(value: Option<Seq<char>>) -> Option<u64> {
    match value {
        Some(s) => match text::parsed(s, u64::MAX as nat) {
            Some(n) => if n > 0 {
                Some(n as u64)
            } else {
                None
            },
            None => None,
        },
        None => None,
    }
}

/// Reads a setting that is a number from 1 on.
pub fn parse_positive_setting(value: Option<&str>) -> (r: Option<u64>)
    ensures
        r == positive_setting(json::opt_str(value)),
{
    match value {
        Some(s) => match text::parse_up_to(s, u64::MAX) {
            Some(n) => if n > 0 {
                Some(n)
            } else {
                None
            },
            None => None,
        },
        None => None,
    }
}

/// Gives a request an output cap; `predict` is the setting of the default cap.
pub fn ensure_ollama_predict_options(body: &mut Json, predict: Option<&str>) -> (r: bool)
    ensures
        (final(body)@, r) == with_predict(old(body)@, positive_setting(json::opt_str(predict))),
{
    let d: Option<u64> = parse_positive_setting(predict);
    ensure_ollama_predict_options_with_default(body, d)
}

/// Gives a request a context window; `ctx` is the setting of the default window.
pub fn ensure_ollama_ctx_options(body: &mut Json, ctx: Option<&str>) -> (r: bool)
    ensures
        (final(body)@, r) == with_ctx(old(body)@, positive_setting(json::opt_str(ctx))),
{
    let d: Option<u64> = parse_positive_setting(ctx);
    ensure_ollama_ctx_options_with_default(body, d)
}

/// A request with Ollama's output defaults.
pub open spec fn with_defaults(
    j: JsonV,
    default_predict: Option<u64>,
    default_ctx: Option<u64>,
) -> JsonV {
    with_ctx(with_predict(j, default_predict).0, default_ctx).0
}

/// Whether `r`, the text of a request with Ollama's output defaults, reads as the
/// request that `body` writes, with these defaults. It does where all numbers of that
/// request are integers and nothing stands more than 127 deep.
pub open spec fn reads_with_defaults(
    r: Seq<char>,
    body: Seq<char>,
    default_predict: Option<u64>,
    default_ctx: Option<u64>,
) -> bool {
    json::json_parse(body) matches Some(j) ==> json::is_plain(
        with_defaults(j, default_predict, default_ctx),
        127,
    ) ==> json::reads_as(r, with_defaults(j, default_predict, default_ctx))
}

/// The text of a request with Ollama's output defaults; a text that is no JSON
/// stays as it is.
pub open spec fn body_with_defaults(
    body: Seq<char>,
    default_predict: Option<u64>,
    default_ctx: Option<u64>,
) -> Seq<char> {
    match json::json_parse(body) {
        Some(j) => json::json_print(with_defaults(j, default_predict, default_ctx)),
        None => body,
    }
}

/// Applies Ollama's output defaults to the text of a request.
pub fn apply_ollama_body_defaults_with_default(
    body: String,
    default_predict: Option<u64>,
    default_ctx: Option<u64>,
) -> (r: String)
    ensures
        r@ == body_with_defaults(body@, default_predict, default_ctx),
        reads_with_defaults(r@, body@, default_predict, default_ctx),
{
    match json::parse(&body) {
        Some(j) => {
            let mut j = j;
            ensure_ollama_predict_options_with_default(&mut j, default_predict);
            ensure_ollama_ctx_options_with_default(&mut j, default_ctx);
            json::print(&j)
        },
        None => body,
    }
}

/// Applies Ollama's output defaults, given as settings, to the text of a request.
pub fn apply_ollama_body_defaults(body: String, predict: Option<&str>, ctx: Option<&str>) -> (r:
    String)
    ensures
        r@ == body_with_defaults(
            body@,
            positive_setting(json::opt_str(predict)),
            positive_setting(json::opt_str(ctx)),
        ),
        reads_with_defaults(
            r@,
            body@,
            positive_setting(json::opt_str(predict)),
            positive_setting(json::opt_str(ctx)),
        ),
{
    let p: Option<u64> = parse_positive_setting(predict);
    let c: Option<u64> = parse_positive_setting(ctx);
    apply_ollama_body_defaults_with_default(body, p, c)
}

/// A request whose `input` field has become its messages.
pub open spec fn input_converted(body: JsonV) -> JsonV {
    match json::field(body, "input"@) {
        Some(input) => json::without_field(
            json::with_field(body, "messages"@, input_messages(input)),
            "input"@,
        ),
        None => body,
    }
}

/// A request whose tools have their chat-completions form.
pub open spec fn tools_converted(body: JsonV) -> JsonV {
    match json::field(body, "tools"@) {
        Some(tools) => json::with_field(body, "tools"@, tools_normalized(tools)),
        None => body,
    }
}

/// The request that is sent upstream, and whether it differs in any respect
/// that counts as normalized.
pub open spec fn request_normalized(
    body: JsonV,
    default_predict: Option<u64>,
    default_ctx: Option<u64>,
) -> (JsonV, bool) {
    let b1 = input_converted(body);
    let b2 = tools_converted(b1);
    let b3 = messages_normalized(responses_fields_stripped(b2));
    let (b4, usage) = with_stream_usage(b3);
    let (b5, predict) = with_predict(b4, default_predict);
    let (b6, ctx) = with_ctx(b5, default_ctx);
    (
        b6,
        json::field(body, "input"@) is Some || json::field(b1, "tools"@) is Some
            || has_responses_field(b2) || usage || predict || ctx,
    )
}

/// How many items the array under `k` has.
pub open spec fn count_in(body: JsonV, k: Seq<char>) -> nat {
    match json::arr_in(json::field(body, k)) {
        Some(items) => items.len(),
        None => 0,
    }
}

fn array_len(body: &Json, k: &str) -> (r: usize)
    ensures
        r == count_in(body@, k@),
{
    match body.get(k) {
        Some(Json::Array(v)) => v.len(),
        _ => 0,
    }
}

/// Whether `s` describes the request `body` that came in and `out` that goes on.
pub open spec fn summarizes(s: AgentRequestSummary, body: JsonV, out: JsonV, changed: bool) -> bool {
    &&& text::opt_view(s.model) == json::str_field(out, "model"@)
    &&& s.stream == (json::bool_in(json::field(out, "stream"@)) == Some(true))
    &&& s.message_count == count_in(out, "messages"@)
    &&& s.tool_count == count_in(out, "tools"@)
    &&& s.normalized == changed
    &&& s.had_input_field == (json::field(body, "input"@) is Some)
    &&& s.response_format == AgentResponseFormat::ChatCompletions
}

/// Brings a `/v1/chat/completions` request into the form that is sent upstream.
pub fn normalize_chat_request_with_default(
    body: Json,
    default_predict: Option<u64>,
    default_ctx: Option<u64>,
) -> (r: (Json, AgentRequestSummary))
    ensures
        r.0@ == request_normalized(body@, default_predict, default_ctx).0,
        summarizes(
            r.1,
            body@,
            r.0@,
            request_normalized(body@, default_predict, default_ctx).1,
        ),
{
    let ghost b0 = body@;
    let mut b = body;
    let messages = match b.get("input") {
        Some(input) => Some(input_to_messages(input)),
        None => None,
    };
    let had_input_field = messages.is_some();
    if let Some(m) = messages {
        b.set("messages", m);
        b.remove("input");
    }
    assert(b@ == input_converted(b0));
    let tools = match b.get("tools") {
        Some(t) => Some(normalize_tools_array(t)),
        None => None,
    };
    let had_tools = tools.is_some();
    if let Some(t) = tools {
        b.set("tools", t);
    }
    let stripped = strip_responses_only_fields(&mut b);
    normalize_tool_messages(&mut b);
    let usage = ensure_stream_usage(&mut b);
    let predict = ensure_ollama_predict_options_with_default(&mut b, default_predict);
    let ctx = ensure_ollama_ctx_options_with_default(&mut b, default_ctx);
    let model = match b.get_str("model") {
        Some(m) => Some(text::copy(m)),
        None => None,
    };
    let stream = match b.get("stream") {
        Some(s) => match s.as_bool() {
            Some(v) => v,
            None => false,
        },
        None => false,
    };
    let summary = AgentRequestSummary {
        model,
        stream,
        message_count: array_len(&b, "messages"),
        tool_count: array_len(&b, "tools"),
        normalized: had_input_field || had_tools || stripped || usage || predict || ctx,
        had_input_field,
        response_format: AgentResponseFormat::ChatCompletions,
    };
    (b, summary)
}

/// Brings a request into the form that is sent upstream; `predict` and `ctx` are
/// the settings of the default output cap and context window.
pub fn normalize_chat_request(body: Json, predict: Option<&str>, ctx: Option<&str>) -> (r: (
    Json,
    AgentRequestSummary,
))
    ensures
        r.0@ == request_normalized(
            body@,
            positive_setting(json::opt_str(predict)),
            positive_setting(json::opt_str(ctx)),
        ).0,
        summarizes(
            r.1,
            body@,
            r.0@,
            request_normalized(
                body@,
                positive_setting(json::opt_str(predict)),
                positive_setting(json::opt_str(ctx)),
            ).1,
        ),
{
    let p: Option<u64> = parse_positive_setting(predict);
    let c: Option<u64> = parse_positive_setting(ctx);
    normalize_chat_request_with_default(body, p, c)
}

/// Whether the entry `k` of a schema, with the value `v`, is one that is not sent:
/// `$schema`, `title`, or `additionalProperties` that is false.
pub open spec fn is_superfluous(k: Seq<char>, v: JsonV) -> bool {
    ||| k == "$schema"@
    ||| k == "title"@
    ||| k == "additionalProperties"@ && v == JsonV::Bool(false)
}

/// Whether a schema has no superfluous entry, at any depth.
pub open spec fn schema_in_order(j: JsonV) -> bool
    decreases j,
{
    match j {
        JsonV::Obj(m) => forall|k: Seq<char>| #[trigger]
            m.dom().contains(k) ==> !is_superfluous(k, m[k]) && schema_in_order(m[k]),
        JsonV::Arr(s) => forall|i: int| 0 <= i < s.len() ==> schema_in_order(#[trigger] s[i]),
        _ => true,
    }
}

/// A schema in order is sent as it is.
pub proof fn law_schema_in_order_stays(j: JsonV)
    requires
        schema_in_order(j),
    ensures
        schema_cleaned(j) == j,
    decreases j,
{
    match j {
        JsonV::Obj(m) => {
            assert forall|k: Seq<char>| #[trigger] m.dom().contains(k) implies schema_cleaned(m[k])
                == m[k] by {
                law_schema_in_order_stays(m[k]);
            }
            assert(schema_cleaned(j)->Obj_0 =~= m);
        },
        JsonV::Arr(s) => {
            assert forall|i: int| 0 <= i < s.len() implies schema_cleaned(#[trigger] s[i]) == s[i] by {
                law_schema_in_order_stays(s[i]);
            }
            assert(schema_cleaned(j)->Arr_0 =~= s);
        },
        _ => {},
    }
}

/// What is sent of a schema is in order.
pub proof fn law_cleaned_schema_is_in_order(j: JsonV)
    ensures
        schema_in_order(schema_cleaned(j)),
    decreases j,
{
    match j {
        JsonV::Obj(m) => {
            let out = schema_cleaned(j)->Obj_0;
            assert forall|k: Seq<char>| #[trigger] out.dom().contains(k) implies !is_superfluous(
                k,
                out[k],
            ) && schema_in_order(out[k]) by {
                law_cleaned_schema_is_in_order(m[k]);
                assert(out[k] == schema_cleaned(m[k]));
                if out[k] == JsonV::Bool(false) {
                    assert(m[k] == JsonV::Bool(false));
                }
            }
        },
        JsonV::Arr(s) => {
            assert forall|i: int| 0 <= i < s.len() implies schema_in_order(
                schema_cleaned(#[trigger] s[i]),
            ) by {
                law_cleaned_schema_is_in_order(s[i]);
            }
            let out = schema_cleaned(j)->Arr_0;
            assert forall|i: int| 0 <= i < out.len() implies schema_in_order(#[trigger] out[i]) by {
                assert(out[i] == schema_cleaned(s[i]));
            }
        },
        _ => {},
    }
}

/// Nothing else of a schema is lost: every entry that is not superfluous is sent
/// under its key, an array keeps its items and their order, and a plain value stays.
pub proof fn law_rest_of_schema_is_kept(j: JsonV)
    ensures
        j matches JsonV::Obj(m) ==> schema_cleaned(j) is Obj && forall|k: Seq<char>|
            #![trigger json::field(schema_cleaned(j), k)]
            json::field(schema_cleaned(j), k) == (if m.dom().contains(k) && !is_superfluous(
                k,
                m[k],
            ) {
                Some(schema_cleaned(m[k]))
            } else {
                None
            }),
        j matches JsonV::Arr(s) ==> schema_cleaned(j) matches JsonV::Arr(t) && t.len() == s.len()
            && forall|i: int| 0 <= i < s.len() ==> #[trigger] t[i] == schema_cleaned(s[i]),
        !(j is Obj) && !(j is Arr) ==> schema_cleaned(j) == j,
{
}

proof fn lemma_tool_keys()
    ensures
        "type"@ != "function"@,
        "type"@ != "name"@,
        "name"@ != "description"@,
        "name"@ != "parameters"@,
        "description"@ != "parameters"@,
        "parameters"@ != "input_schema"@,
{
    reveal_strlit("type");
    reveal_strlit("function");
    reveal_strlit("name");
    reveal_strlit("description");
    reveal_strlit("parameters");
    reveal_strlit("input_schema");
    assert("type"@.len() == 4 && "function"@.len() == 8 && "name"@.len() == 4
        && "description"@.len() == 11 && "parameters"@.len() == 10 && "input_schema"@.len() == 12);
    assert("type"@[0] == 't' && "name"@[0] == 'n');
}

/// A tool in order is sent as it is: one with a function whose schema is in order,
/// or that takes no parameters.
pub proof fn law_tool_in_order_stays(tool: JsonV, func: JsonV)
    requires
        json::field(tool, "type"@) != Some(JsonV::Str("custom"@)),
        json::field(tool, "function"@) == Some(func),
        match json::field(func, "parameters"@) {
            Some(schema) => schema_in_order(schema),
            None => json::field(func, "input_schema"@) is None,
        },
    ensures
        tool_normalized(tool) == Some(tool),
{
    if let Some(schema) = json::field(func, "parameters"@) {
        law_schema_in_order_stays(schema);
        assert(func->Obj_0.insert("parameters"@, schema) =~= func->Obj_0);
    }
    assert(tool->Obj_0.insert("function"@, func) =~= tool->Obj_0);
}

/// A tool with a function is sent with that function: its parameters are those that
/// came, as `parameters` or as `input_schema`, but for superfluous entries, and every
/// other entry of the function and of the tool stays.
pub proof fn law_function_is_sent(
    tool: JsonV,
    func: Map<Seq<char>, JsonV>,
    schema: JsonV,
)
    requires
        json::field(tool, "type"@) != Some(JsonV::Str("custom"@)),
        json::field(tool, "function"@) == Some(JsonV::Obj(func)),
        json::field(JsonV::Obj(func), "parameters"@) == Some(schema) || (json::field(
            JsonV::Obj(func),
            "parameters"@,
        ) is None && json::field(JsonV::Obj(func), "input_schema"@) == Some(schema)),
    ensures
        tool_normalized(tool) matches Some(sent) && {
            &&& json::field(sent, "function"@) matches Some(f) && json::field(f, "parameters"@)
                == Some(schema_cleaned(schema)) && (forall|k: Seq<char>|
                k != "parameters"@ && k != "input_schema"@ ==> #[trigger] json::field(f, k)
                    == json::field(JsonV::Obj(func), k)) && (json::field(
                JsonV::Obj(func),
                "parameters"@,
            ) is None ==> json::field(f, "input_schema"@) is None)
            &&& forall|k: Seq<char>|
                k != "function"@ ==> #[trigger] json::field(sent, k) == json::field(tool, k)
        },
{
    lemma_tool_keys();
}

/// A tool that names its function directly is sent as a function of that name, with
/// the description and the parameters that it came with.
pub proof fn law_flat_tool_is_sent(tool: JsonV, name: Seq<char>)
    requires
        json::field(tool, "type"@) != Some(JsonV::Str("custom"@)),
        json::field(tool, "function"@) is None,
        json::field(tool, "name"@) == Some(JsonV::Str(name)),
    ensures
        tool_normalized(tool) matches Some(sent) && json::field(sent, "type"@) == Some(
            JsonV::Str("function"@),
        ) && (json::field(sent, "function"@) matches Some(f) && {
            &&& json::field(f, "name"@) == Some(JsonV::Str(name))
            &&& json::field(tool, "description"@) matches Some(d) ==> json::field(f, "description"@)
                == Some(d)
            &&& json::field(tool, "description"@) is None ==> (json::field(tool, "desc"@) matches Some(
                d,
            ) ==> json::field(f, "description"@) == Some(d))
            &&& json::field(tool, "parameters"@) matches Some(schema) ==> json::field(
                f,
                "parameters"@,
            ) == Some(schema_cleaned(schema))
            &&& json::field(tool, "parameters"@) is None ==> (json::field(tool, "input_schema"@) matches Some(
                schema,
            ) ==> json::field(f, "parameters"@) == Some(schema_cleaned(schema)))
            &&& json::field(f, "parameters"@) is Some
        }),
{
    lemma_tool_keys();
}

/// A tool of the kind that only the Responses API knows, or without a function or a
/// name, is not sent.
pub proof fn law_custom_tool_is_not_sent(tool: JsonV)
    requires
        json::field(tool, "type"@) == Some(JsonV::Str("custom"@)) || (json::field(tool, "function"@)
            is None && !(json::field(tool, "name"@) matches Some(JsonV::Str(_)))),
    ensures
        tool_normalized(tool) is None,
{
}

/// The tools are sent in their order, each for itself: those of `a` and then those
/// of `b`.
pub proof fn law_tools_are_sent_in_order(a: Seq<JsonV>, b: Seq<JsonV>)
    ensures
        tools_kept(a + b) == tools_kept(a) + tools_kept(b),
        a.len() == 1 && tool_normalized(a[0]) is Some ==> tools_kept(a) == seq![
            tool_normalized(a[0])->0,
        ],
        a.len() == 1 && tool_normalized(a[0]) is None ==> tools_kept(a).len() == 0,
    decreases b.len(),
{
    if b.len() == 0 {
        assert(a + b =~= a);
        assert(tools_kept(a) + tools_kept(b) =~= tools_kept(a));
    } else {
        assert((a + b).drop_last() =~= a + b.drop_last());
        assert((a + b).last() == b.last());
        law_tools_are_sent_in_order(a, b.drop_last());
        if let Some(t) = tool_normalized(b.last()) {
            assert(tools_kept(a + b) =~= tools_kept(a) + tools_kept(b));
        }
    }
    if a.len() == 1 {
        assert(a.drop_last() =~= Seq::empty());
        assert(a.last() == a[0]);
        assert(tools_kept(a.drop_last()) =~= Seq::empty());
        if let Some(t) = tool_normalized(a[0]) {
            assert(tools_kept(a) =~= seq![t]);
        }
    }
}

/// Whether a tool is in order: it has a function, whose schema is in order.
pub open spec fn tool_in_order(tool: JsonV) -> bool {
    &&& json::field(tool, "type"@) != Some(JsonV::Str("custom"@))
    &&& json::field(tool, "function"@) matches Some(func) && (match json::field(
        func,
        "parameters"@,
    ) {
        Some(schema) => schema_in_order(schema),
        None => json::field(func, "input_schema"@) is None,
    })
}

/// Tools that are all in order are sent as they are.
pub proof fn law_tools_in_order_stay(items: Seq<JsonV>)
    requires
        forall|i: int| 0 <= i < items.len() ==> tool_in_order(#[trigger] items[i]),
    ensures
        tools_kept(items) == items,
        tools_normalized(JsonV::Arr(items)) == JsonV::Arr(items),
    decreases items.len(),
{
    if items.len() > 0 {
        let front = items.drop_last();
        assert forall|i: int| 0 <= i < front.len() implies tool_in_order(#[trigger] front[i]) by {
            assert(front[i] == items[i]);
        }
        law_tools_in_order_stay(front);
        assert(tool_in_order(items[items.len() - 1]));
        law_tool_in_order_stays(items.last(), json::field(items.last(), "function"@)->0);
        assert(front.push(items.last()) =~= items);
    } else {
        assert(items =~= Seq::empty());
    }
}

/// Whether a message is in order: no developer's, and no lone result of a tool in a
/// user's message.
pub open spec fn message_in_order(m: JsonV) -> bool {
    &&& json::field(m, "role"@) != Some(JsonV::Str("developer"@))
    &&& json::field(m, "content"@) matches Some(JsonV::Arr(parts)) ==> !(json::field(m, "role"@)
        == Some(JsonV::Str("user"@)) && parts.len() == 1 && json::field(parts[0], "type"@) == Some(
        JsonV::Str("tool_result"@),
    ))
}

/// A message in order is sent as it is.
pub proof fn law_message_in_order_stays(m: JsonV)
    requires
        message_in_order(m),
    ensures
        message_normalized(m) == m,
{
}

proof fn lemma_message_keys()
    ensures
        "role"@ != "content"@,
        "role"@ != "tool_call_id"@,
        "content"@ != "tool_call_id"@,
        "user"@ != "developer"@,
        "user"@ != "system"@,
{
    reveal_strlit("role");
    reveal_strlit("content");
    reveal_strlit("tool_call_id");
    reveal_strlit("user");
    reveal_strlit("developer");
    reveal_strlit("system");
    assert("role"@.len() == 4 && "content"@.len() == 7 && "tool_call_id"@.len() == 12);
    assert("user"@.len() == 4 && "developer"@.len() == 9 && "system"@.len() == 6);
}

/// A developer's message is sent as the system's, with everything else it says.
pub proof fn law_developer_speaks_as_system(m: Map<Seq<char>, JsonV>)
    requires
        json::field(JsonV::Obj(m), "role"@) == Some(JsonV::Str("developer"@)),
    ensures
        ({
            let sent = message_normalized(JsonV::Obj(m));
            &&& json::field(sent, "role"@) == Some(JsonV::Str("system"@))
            &&& forall|k: Seq<char>|
                k != "role"@ ==> #[trigger] json::field(sent, k) == json::field(JsonV::Obj(m), k)
        }),
{
    lemma_message_keys();
}

/// The lone result of a tool in a user's message is sent as the tool's message, for
/// the same call and with the same content.
pub proof fn law_tool_result_is_sent(m: JsonV, part: JsonV)
    requires
        json::field(m, "role"@) == Some(JsonV::Str("user"@)),
        json::field(m, "content"@) == Some(JsonV::Arr(seq![part])),
        json::field(part, "type"@) == Some(JsonV::Str("tool_result"@)),
    ensures
        ({
            let sent = message_normalized(m);
            &&& json::field(sent, "role"@) == Some(JsonV::Str("tool"@))
            &&& json::field(part, "tool_use_id"@) is Some ==> json::field(sent, "tool_call_id"@)
                == json::field(part, "tool_use_id"@)
            &&& json::field(part, "content"@) is Some ==> json::field(sent, "content"@)
                == json::field(part, "content"@)
        }),
{
    lemma_message_keys();
}

/// Input in the form of the Responses API is sent as messages: a text as the one
/// message of a user, and items each as a message, in their order, with the role and
/// the content that they have.
pub proof fn law_input_is_said(input: JsonV)
    ensures
        input matches JsonV::Str(s) ==> input_messages(input) matches JsonV::Arr(sent) && sent.len()
            == 1 && json::field(sent[0], "role"@) == Some(JsonV::Str("user"@)) && json::field(
            sent[0],
            "content"@,
        ) == Some(JsonV::Str(s)),
        input matches JsonV::Arr(items) ==> input_messages(input) matches JsonV::Arr(sent)
            && sent.len() == items.len() && forall|i: int|
            #![trigger sent[i]]
            0 <= i < items.len() ==> {
                &&& json::field(items[i], "content"@) is Some ==> json::field(sent[i], "content"@)
                    == json::field(items[i], "content"@)
                &&& json::field(items[i], "role"@) is Some && json::field(items[i], "role"@) != Some(
                    JsonV::Str("developer"@),
                ) ==> sent[i] == items[i]
                &&& json::field(items[i], "role"@) == Some(JsonV::Str("developer"@))
                    ==> json::field(sent[i], "role"@) == Some(JsonV::Str("system"@))
                &&& json::field(items[i], "role"@) is None ==> json::field(sent[i], "role"@) == Some(
                    JsonV::Str("user"@),
                )
            },
{
    lemma_message_keys();
}

/// Whether `k` is a field of a request that is sent as it came: none that says what
/// is asked, what tools there are or how the answer is to come, and none that only
/// the Responses API knows.
pub open spec fn is_sent_as_it_came(k: Seq<char>) -> bool {
    &&& k != "input"@ && k != "messages"@ && k != "tools"@ && k != "options"@ && k
        != "stream_options"@
    &&& k != "store"@ && k != "include"@ && k != "prompt_cache_retention"@ && k
        != "previous_response_id"@ && k != "truncation"@ && k != "reasoning"@ && k != "text"@ && k
        != "prompt"@ && k != "metadata"@
}

/// Every other field of a request is sent as it came: the model, how to sample,
/// whether to stream, and whatever else is asked. Fields that only the Responses API
/// knows are not sent, nor is `input`.
pub proof fn law_other_fields_are_sent(
    body: JsonV,
    default_predict: Option<u64>,
    default_ctx: Option<u64>,
    k: Seq<char>,
)
    ensures
        is_sent_as_it_came(k) ==> json::field(
            request_normalized(body, default_predict, default_ctx).0,
            k,
        ) == json::field(body, k),
        k == "store"@ || k == "include"@ || k == "prompt_cache_retention"@ || k
            == "previous_response_id"@ || k == "truncation"@ || k == "reasoning"@ || k == "text"@ || k
            == "prompt"@ || k == "metadata"@ || k == "input"@ ==> json::field(
            request_normalized(body, default_predict, default_ctx).0,
            k,
        ) is None,
{
    lemma_request_keys();
    let b1 = input_converted(body);
    let b2 = tools_converted(b1);
    let b3 = messages_normalized(responses_fields_stripped(b2));
    let b4 = with_stream_usage(b3).0;
    let b5 = with_predict(b4, default_predict).0;
    let b6 = with_ctx(b5, default_ctx).0;
    if is_sent_as_it_came(k) {
        assert(json::field(b1, k) == json::field(body, k));
        assert(json::field(b2, k) == json::field(b1, k));
        assert(json::field(b3, k) == json::field(b2, k));
    } else if k == "input"@ {
        assert(json::field(b1, k) is None);
        assert(json::field(b3, k) is None);
    } else if responses_only(k) {
        assert(json::field(b3, k) is None);
    }
    if k != "stream_options"@ && k != "options"@ {
        assert(json::field(b4, k) == json::field(b3, k));
        assert(json::field(b5, k) == json::field(b4, k));
        assert(json::field(b6, k) == json::field(b5, k));
    }
}

proof fn lemma_request_keys()
    ensures
        forall|k: Seq<char>|
            #[trigger] responses_only(k) ==> k != "input"@ && k != "messages"@ && k != "tools"@ && k
                != "options"@ && k != "stream_options"@ && k != "stream"@ && k != "max_tokens"@,
        "input"@ != "messages"@,
        "input"@ != "tools"@,
        "input"@ != "options"@,
        "input"@ != "stream_options"@,
        "input"@ != "stream"@,
        "input"@ != "max_tokens"@,
        "messages"@ != "tools"@,
        "messages"@ != "options"@,
        "messages"@ != "stream_options"@,
        "messages"@ != "stream"@,
        "messages"@ != "max_tokens"@,
        "tools"@ != "options"@,
        "tools"@ != "stream_options"@,
        "tools"@ != "stream"@,
        "tools"@ != "max_tokens"@,
        "options"@ != "stream_options"@,
        "options"@ != "stream"@,
        "options"@ != "max_tokens"@,
        "stream_options"@ != "stream"@,
        "stream_options"@ != "max_tokens"@,
        "num_predict"@ != "num_ctx"@,
{
    reveal_strlit("input");
    reveal_strlit("messages");
    reveal_strlit("tools");
    reveal_strlit("options");
    reveal_strlit("stream_options");
    reveal_strlit("stream");
    reveal_strlit("max_tokens");
    reveal_strlit("num_predict");
    reveal_strlit("num_ctx");
    reveal_strlit("store");
    reveal_strlit("include");
    reveal_strlit("prompt_cache_retention");
    reveal_strlit("previous_response_id");
    reveal_strlit("truncation");
    reveal_strlit("reasoning");
    reveal_strlit("text");
    reveal_strlit("prompt");
    reveal_strlit("metadata");
    assert("input"@.len() == 5 && "messages"@.len() == 8 && "tools"@.len() == 5 && "options"@.len()
        == 7 && "stream_options"@.len() == 14 && "stream"@.len() == 6 && "max_tokens"@.len() == 10);
    assert("num_predict"@.len() == 11 && "num_ctx"@.len() == 7);
    assert("store"@.len() == 5 && "include"@.len() == 7 && "prompt_cache_retention"@.len() == 22
        && "previous_response_id"@.len() == 20 && "truncation"@.len() == 10 && "reasoning"@.len()
        == 9 && "text"@.len() == 4 && "prompt"@.len() == 6 && "metadata"@.len() == 8);
    assert("input"@[0] == 'i' && "tools"@[0] == 't' && "store"@[0] == 's');
    assert("messages"@[2] == 's' && "metadata"@[2] == 't');
    assert("options"@[0] == 'o' && "include"@[0] == 'i');
    assert("stream"@[0] == 's' && "prompt"@[0] == 'p');
    assert("max_tokens"@[0] == 'm' && "truncation"@[0] == 't');
}

/// What is asked is sent: without `input`, the messages of the request, each as it is
/// sent for itself, and with a text as `input`, that text as the user's one message.
/// The tools are sent as they are for themselves.
pub proof fn law_what_is_asked_is_sent(
    body: JsonV,
    default_predict: Option<u64>,
    default_ctx: Option<u64>,
    messages: Seq<JsonV>,
    tools: Seq<JsonV>,
    s: Seq<char>,
)
    ensures
        ({
            let sent = request_normalized(body, default_predict, default_ctx).0;
            &&& json::field(body, "input"@) is None && json::field(body, "messages"@) == Some(
                JsonV::Arr(messages),
            ) ==> (json::field(sent, "messages"@) matches Some(JsonV::Arr(after)) && after.len()
                == messages.len() && forall|i: int|
                0 <= i < messages.len() ==> #[trigger] after[i] == message_normalized(messages[i]))
            &&& json::field(body, "input"@) == Some(JsonV::Str(s)) ==> (json::field(
                sent,
                "messages"@,
            ) matches Some(JsonV::Arr(after)) && after.len() == 1 && json::field(after[0], "role"@)
                == Some(JsonV::Str("user"@)) && json::field(after[0], "content"@) == Some(
                JsonV::Str(s),
            ))
            &&& json::field(body, "tools"@) == Some(JsonV::Arr(tools)) ==> json::field(sent, "tools"@)
                == Some(JsonV::Arr(tools_kept(tools)))
            &&& json::field(body, "tools"@) is None ==> json::field(sent, "tools"@) is None
        }),
{
    lemma_request_keys();
    lemma_message_keys();
    let b1 = input_converted(body);
    let b2 = tools_converted(b1);
    let b3 = messages_normalized(responses_fields_stripped(b2));
    let b4 = with_stream_usage(b3).0;
    let b5 = with_predict(b4, default_predict).0;
    let b6 = with_ctx(b5, default_ctx).0;
    let k = "messages"@;
    assert(!responses_only(k) && !responses_only("tools"@));
    assert(json::field(b6, k) == json::field(b3, k));
    assert(json::field(b6, "tools"@) == json::field(b2, "tools"@));
    assert(json::field(b1, "tools"@) == json::field(body, "tools"@));
    assert(json::field(b2, k) == json::field(b1, k));
    let stripped = responses_fields_stripped(b2);
    assert(json::field(stripped, k) == json::field(b2, k));
    if json::field(body, "input"@) == Some(JsonV::Str(s)) {
        let one = message("user"@, JsonV::Str(s));
        assert(message_in_order(one));
        law_message_in_order_stays(one);
        assert(json::field(b3, k) matches Some(JsonV::Arr(after)) && after.len() == 1 && after[0]
            == one);
    }
}

/// A request in order is sent as it is: in the form of chat completions, with tools
/// and messages in order, that asks for no stream or says what the stream is to
/// report, and where no limits are set here or asked for elsewhere.
pub proof fn law_request_in_order_stays(body: JsonV)
    requires
        json::field(body, "input"@) is None,
        !has_responses_field(body),
        json::field(body, "tools"@) matches Some(tools) ==> tools matches JsonV::Arr(items)
            && forall|i: int| 0 <= i < items.len() ==> tool_in_order(#[trigger] items[i]),
        json::field(body, "messages"@) matches Some(messages) ==> messages matches JsonV::Arr(items)
            && forall|i: int| 0 <= i < items.len() ==> message_in_order(#[trigger] items[i]),
        json::field(body, "stream"@) != Some(JsonV::Bool(true)) || (json::field(
            body,
            "stream_options"@,
        ) matches Some(o) && json::field(o, "include_usage"@) is Some),
        json::field(body, "max_tokens"@) is None,
    ensures
        request_normalized(body, None, None).0 == body,
{
    lemma_request_keys();
    if let Some(JsonV::Arr(items)) = json::field(body, "tools"@) {
        law_tools_in_order_stay(items);
        assert(body->Obj_0.insert("tools"@, JsonV::Arr(items)) =~= body->Obj_0);
    }
    let b2 = tools_converted(body);
    assert(b2 == body);
    let stripped = responses_fields_stripped(body);
    if let JsonV::Obj(m) = body {
        assert(stripped->Obj_0 =~= m);
    }
    if let Some(JsonV::Arr(items)) = json::field(body, "messages"@) {
        let sent = items.map_values(|m: JsonV| message_normalized(m));
        assert forall|i: int| 0 <= i < items.len() implies #[trigger] sent[i] == items[i] by {
            law_message_in_order_stays(items[i]);
        }
        assert(sent =~= items);
        assert(body->Obj_0.insert("messages"@, JsonV::Arr(items)) =~= body->Obj_0);
    }
    assert(messages_normalized(body) == body);
}

/// A stream reports its usage unless the request says otherwise; what a request says
/// of it stays, and a request without a stream says nothing of it.
pub proof fn law_stream_reports_usage(body: Map<Seq<char>, JsonV>)
    ensures
        ({
            let j = JsonV::Obj(body);
            let sent = with_stream_usage(j).0;
            &&& json::field(j, "stream"@) != Some(JsonV::Bool(true)) ==> sent == j
            &&& json::field(j, "stream"@) == Some(JsonV::Bool(true)) && json::field(
                j,
                "stream_options"@,
            ) is None ==> (json::field(sent, "stream_options"@) matches Some(o) && json::field(
                o,
                "include_usage"@,
            ) == Some(JsonV::Bool(true)))
            &&& json::field(j, "stream"@) == Some(JsonV::Bool(true)) ==> (json::field(
                j,
                "stream_options"@,
            ) matches Some(JsonV::Obj(asked)) ==> json::field(sent, "stream_options"@) matches Some(
                o,
            ) && json::field(o, "include_usage"@) is Some && (!asked.dom().contains(
                "include_usage"@,
            ) ==> json::field(o, "include_usage"@) == Some(JsonV::Bool(true))) && forall|k: Seq<char>|
                asked.dom().contains(k) ==> #[trigger] json::field(o, k) == Some(asked[k]))
        }),
{
}

/// What a request says of the length of the answer, as `num_predict`.
pub open spec fn asked_predict(body: JsonV) -> Option<JsonV> {
    match json::field(body, "options"@) {
        Some(o) => json::field(o, "num_predict"@),
        None => None,
    }
}

/// The length of the answer that is sent upstream. A request that asks for no limit
/// keeps that; one that asks for a length gets at least the one that is set here;
/// one that asks for none gets its `max_tokens`, or else the one that is set here.
/// The other options stay.
pub proof fn law_answer_is_limited(
    body: Map<Seq<char>, JsonV>,
    opts: Map<Seq<char>, JsonV>,
    default_predict: Option<u64>,
    n: int,
)
    requires
        json::field(JsonV::Obj(body), "options"@) is None || json::field(
            JsonV::Obj(body),
            "options"@,
        ) == Some(JsonV::Obj(opts)),
    ensures
        ({
            let j = JsonV::Obj(body);
            let sent = with_predict(j, default_predict).0;
            &&& asked_predict(j) == Some(JsonV::Int(-1)) ==> sent == j
            &&& asked_predict(j) == Some(JsonV::Int(n)) && 0 < n <= i64::MAX ==> asked_predict(sent)
                == Some(
                JsonV::Int(
                    match default_predict {
                        Some(d) => if d > n {
                            d as int
                        } else {
                            n
                        },
                        None => n,
                    },
                ),
            )
            &&& asked_predict(j) is None && json::field(j, "max_tokens"@) == Some(JsonV::Int(n)) && 0
                <= n <= u64::MAX ==> asked_predict(sent) == Some(JsonV::Int(n))
            &&& asked_predict(j) is None && json::field(j, "max_tokens"@) is None ==> asked_predict(
                sent,
            ) == (match default_predict {
                Some(d) => Some(JsonV::Int(d as int)),
                None => None,
            })
            &&& forall|k: Seq<char>|
                k != "options"@ ==> #[trigger] json::field(sent, k) == json::field(j, k)
            &&& json::field(j, "options"@) is Some ==> (json::field(sent, "options"@) matches Some(
                o,
            ) && forall|k: Seq<char>|
                k != "num_predict"@ ==> #[trigger] json::field(o, k) == json::field(
                    JsonV::Obj(opts),
                    k,
                ))
        }),
{
    lemma_request_keys();
}

/// What a request says of the size of the context.
pub open spec fn asked_ctx(body: JsonV) -> Option<JsonV> {
    match json::field(body, "options"@) {
        Some(o) => json::field(o, "num_ctx"@),
        None => None,
    }
}

/// The context that is sent upstream is the larger of the one that is asked for and
/// the one that is set here, and the latter where none is asked for; where none is
/// set here, nothing changes. The other options stay.
pub proof fn law_context_is_at_least_the_default(
    body: Map<Seq<char>, JsonV>,
    opts: Map<Seq<char>, JsonV>,
    default_ctx: Option<u64>,
    n: int,
)
    requires
        json::field(JsonV::Obj(body), "options"@) is None || json::field(
            JsonV::Obj(body),
            "options"@,
        ) == Some(JsonV::Obj(opts)),
    ensures
        ({
            let j = JsonV::Obj(body);
            let sent = with_ctx(j, default_ctx).0;
            &&& default_ctx is None || default_ctx == Some(0u64) ==> sent == j
            &&& default_ctx matches Some(d) ==> {
                &&& d > 0 && asked_ctx(j) is None ==> asked_ctx(sent) == Some(JsonV::Int(d as int))
                &&& asked_ctx(j) == Some(JsonV::Int(n)) && 0 <= n <= u64::MAX ==> asked_ctx(sent)
                    == Some(
                    JsonV::Int(
                        if d > n {
                            d as int
                        } else {
                            n
                        },
                    ),
                )
            }
            &&& forall|k: Seq<char>|
                k != "options"@ ==> #[trigger] json::field(sent, k) == json::field(j, k)
            &&& json::field(j, "options"@) is Some ==> (json::field(sent, "options"@) matches Some(
                o,
            ) && forall|k: Seq<char>|
                k != "num_ctx"@ ==> #[trigger] json::field(o, k) == json::field(JsonV::Obj(opts), k))
        }),
{
    lemma_request_keys();
}

/// Limits that were put into a request once are not put in again.
pub proof fn law_defaults_twice(
    body: Map<Seq<char>, JsonV>,
    default_predict: Option<u64>,
    default_ctx: Option<u64>,
)
    requires
        default_predict matches Some(d) ==> 0 < d <= i64::MAX,
        json::field(JsonV::Obj(body), "max_tokens"@) is None,
    ensures
        ({
            let once = with_defaults(JsonV::Obj(body), default_predict, default_ctx);
            with_defaults(once, default_predict, default_ctx) == once
        }),
{
    lemma_request_keys();
}

/// A tool that names its function directly and takes no parameters is sent with an empty
/// object for them.
pub proof fn law_tool_without_parameters(tool: JsonV, name: Seq<char>)
    requires
        json::field(tool, "type"@) != Some(JsonV::Str("custom"@)),
        json::field(tool, "function"@) is None,
        json::field(tool, "name"@) == Some(JsonV::Str(name)),
        json::field(tool, "parameters"@) is None,
        json::field(tool, "input_schema"@) is None,
    ensures
        tool_normalized(tool) matches Some(sent) && (json::field(sent, "function"@) matches Some(f)
            && (json::field(f, "parameters"@) matches Some(p) && json::field(p, "type"@) == Some(
            JsonV::Str("object"@),
        ) && json::field(p, "properties"@) == Some(JsonV::Obj(Map::empty())))),
{
    lemma_tool_keys();
    reveal_strlit("type");
    reveal_strlit("properties");
    reveal_strlit("$schema");
    reveal_strlit("title");
    reveal_strlit("additionalProperties");
    assert("type"@.len() == 4 && "properties"@.len() == 10 && "$schema"@.len() == 7
        && "title"@.len() == 5 && "additionalProperties"@.len() == 20);
    let none = JsonV::Obj(Map::<Seq<char>, JsonV>::empty());
    assert(schema_in_order(none));
    assert(schema_in_order(JsonV::Str("object"@)));
    assert(schema_in_order(empty_schema()));
    law_schema_in_order_stays(empty_schema());
}

/// An item of input without a role and without content is said by the user, as it is
/// written; and so is input that is neither a text nor a list.
pub proof fn law_other_input_is_said_as_written(item: JsonV, input: JsonV)
    ensures
        json::field(item, "role"@) is None && json::field(item, "content"@) is None ==> json::field(
            input_message(item),
            "role"@,
        ) == Some(JsonV::Str("user"@)) && json::field(input_message(item), "content"@) == Some(
            JsonV::Str(json::json_print(item)),
        ),
        !(input is Str) && !(input is Arr) ==> (input_messages(input) matches JsonV::Arr(sent)
            && sent.len() == 1 && json::field(sent[0], "role"@) == Some(JsonV::Str("user"@))
            && json::field(sent[0], "content"@) == Some(JsonV::Str(json::json_print(input)))),
{
    lemma_message_keys();
}

/// A request that is reported as unchanged is sent with everything that it had, but for
/// the roles and results in its messages.
pub proof fn law_unchanged_request_is_unchanged(
    body: JsonV,
    default_predict: Option<u64>,
    default_ctx: Option<u64>,
    k: Seq<char>,
)
    requires
        !request_normalized(body, default_predict, default_ctx).1,
        k != "messages"@,
    ensures
        json::field(request_normalized(body, default_predict, default_ctx).0, k) == json::field(
            body,
            k,
        ),
{
    lemma_request_keys();
    let b1 = input_converted(body);
    assert(b1 == body);
    let b2 = tools_converted(b1);
    assert(b2 == body);
    let stripped = responses_fields_stripped(b2);
    if let JsonV::Obj(m) = body {
        assert(stripped->Obj_0 =~= m);
    }
    let b3 = messages_normalized(stripped);
    let b4 = with_stream_usage(b3).0;
    assert(b4 == b3);
    let b5 = with_predict(b4, default_predict).0;
    assert(json::field(b5, k) == json::field(b4, k));
}

/// The report of a request counts what is sent, and says what was asked.
pub proof fn law_report_counts_what_is_sent(
    s: AgentRequestSummary,
    body: JsonV,
    out: JsonV,
    changed: bool,
    messages: Seq<JsonV>,
    tools: Seq<JsonV>,
    model: Seq<char>,
)
    requires
        summarizes(s, body, out, changed),
    ensures
        json::field(out, "messages"@) == Some(JsonV::Arr(messages)) ==> s.message_count
            == messages.len(),
        json::field(out, "messages"@) is None ==> s.message_count == 0,
        json::field(out, "tools"@) == Some(JsonV::Arr(tools)) ==> s.tool_count == tools.len(),
        json::field(out, "tools"@) is None ==> s.tool_count == 0,
        json::field(out, "model"@) == Some(JsonV::Str(model)) ==> text::opt_view(s.model) == Some(
            model,
        ),
        s.stream <==> json::field(out, "stream"@) == Some(JsonV::Bool(true)),
        s.had_input_field <==> json::field(body, "input"@) is Some,
        s.normalized == changed,
{
}

/// A limit in the settings counts where it is a number above 0.
pub proof fn law_positive_setting(n: nat)
    ensures
        0 < n <= u64::MAX ==> positive_setting(Some(text::dec(n))) == Some(n as u64),
        n == 0 ==> positive_setting(Some(text::dec(n))) is None,
        positive_setting(None) is None,
{
    text::law_number_is_read_back(n, u64::MAX as nat);
}

/// A text that is no JSON is sent as it is; of any other, what is sent is the request
/// with the limits.
pub proof fn law_text_without_json_is_sent(
    body: Seq<char>,
    default_predict: Option<u64>,
    default_ctx: Option<u64>,
    j: JsonV,
)
    ensures
        json::json_parse(body) is None ==> body_with_defaults(body, default_predict, default_ctx)
            == body,
        json::reads_as(body, j) ==> body_with_defaults(body, default_predict, default_ctx)
            == json::json_print(with_defaults(j, default_predict, default_ctx)),
        json::field(j, "max_tokens"@) is None ==> with_defaults(j, None, None) == j,
{
}

} // verus!
