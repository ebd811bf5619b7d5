//! Responses for agent clients: text tool calls made structured, event streams
//! put together, and the Responses API's form of a completion.

use crate::agent_compat::tool_calls;
use crate::agent_compat::tool_calls::CallV;
use crate::json;
use crate::json::{Json, JsonV};
use crate::outside;
use crate::text;
use vstd::prelude::*;

verus! {

/// What a response looked like.
#[derive(Debug)]
pub struct AgentResponseSummary {
    pub had_structured_tool_calls: bool,
    pub rewrote_text_tool_call: bool,
    pub finish_reason: Option<String>,
    pub content_preview: Option<String>,
}

/// What an [`AgentResponseSummary`] says.
pub struct SummaryV {
    pub had_structured_tool_calls: bool,
    pub rewrote_text_tool_call: bool,
    pub finish_reason: Option<Seq<char>>,
    pub content_preview: Option<Seq<char>>,
}

impl View for AgentResponseSummary {
    type V = SummaryV;

    open spec fn view(&self) -> SummaryV {
        SummaryV {
            had_structured_tool_calls: self.had_structured_tool_calls,
            rewrote_text_tool_call: self.rewrote_text_tool_call,
            finish_reason: text::opt_view(self.finish_reason),
            content_preview: text::opt_view(self.content_preview),
        }
    }
}

/// The length, in bytes, of a content preview.
pub const PREVIEW_BYTES: usize = 200;

/// The first choice of a completion or of a chunk of one.
pub open spec fn first_choice(body: JsonV) -> Option<JsonV> {
    match json::field(body, "choices"@) {
        Some(c) => json::item_at(c, 0),
        None => None,
    }
}

/// The first choice of a completion or of a chunk of one.
pub fn choice_of(body: &Json) -> (r: Option<&Json>)
    ensures
        json::opt(r) == first_choice(body@),
{
    match body.get("choices") {
        Some(c) => c.item(0),
        None => None,
    }
}

/// A completion with `choice` as its first choice.
pub open spec fn with_first_choice(body: JsonV, choice: JsonV) -> JsonV {
    match json::arr_in(json::field(body, "choices"@)) {
        Some(items) => if items.len() > 0 {
            json::with_field(body, "choices"@, JsonV::Arr(items.update(0, choice)))
        } else {
            body
        },
        None => body,
    }
}

/// A completion with `choice` as its first choice.
pub fn set_first_choice(body: Json, choice: Json) -> (r: Json)
    ensures
        r@ == with_first_choice(body@, choice@),
{
    let choices = match body.get("choices") {
        Some(Json::Array(items)) => {
            if items.len() == 0 {
                return body;
            }
            let mut out: Vec<Json> = Vec::new();
            out.push(choice);
            for i in 1..items.len()
                invariant
                    items@.len() > 0,
                    out@.len() == i,
                    out@[0]@ == choice@,
                    forall|k: int| 1 <= k < i ==> (#[trigger] out@[k])@ == items@[k]@,
            {
                out.push(json::copy(&items[i]));
            }
            assert(json::items_view(out@) =~= json::items_view(items@).update(0, choice@));
            json::array(out)
        },
        _ => {
            return body;
        },
    };
    body.with("choices", choices)
}

/// The text that one part of a message's content holds.
pub open spec fn part_text(part: JsonV) -> Option<Seq<char>> {
    if json::str_field(part, "type"@) == Some("text"@) {
        json::str_field(part, "text"@)
    } else {
        json::str_in(Some(part))
    }
}

/// The texts of `parts` in a row.
pub open spec fn parts_text(parts: Seq<JsonV>) -> Seq<char>
    decreases parts.len(),
{
    if parts.len() == 0 {
        Seq::empty()
    } else {
        match part_text(parts.last()) {
            Some(t) => parts_text(parts.drop_last()) + t,
            None => parts_text(parts.drop_last()),
        }
    }
}

/// The text of a message.
pub open spec fn message_text(message: JsonV) -> Seq<char> {
    match json::field(message, "content"@) {
        Some(JsonV::Str(s)) => s,
        Some(JsonV::Arr(parts)) => parts_text(parts),
        _ => Seq::empty(),
    }
}

/// The text of a message.
pub fn message_text_content(message: &Json) -> (r: String)
    ensures
        r@ == message_text(message@),
{
    match message.get("content") {
        Some(Json::Str(s)) => text::copy(s),
        Some(Json::Array(parts)) => {
            let mut out = String::new();
            let ghost pv = json::items_view(parts@);
            for i in 0..parts.len()
                invariant
                    pv == json::items_view(parts@),
                    out@ == parts_text(pv.take(i as int)),
            {
                let part = &parts[i];
                assert(pv.take(i as int + 1).drop_last() =~= pv.take(i as int));
                assert(pv.take(i as int + 1).last() == part@);
                let typed = match part.get_str("type") {
                    Some(t) => text::str_eq(t, "text"),
                    None => false,
                };
                let piece = if typed {
                    part.get_str("text")
                } else {
                    part.as_str()
                };
                if let Some(t) = piece {
                    out.append(t);
                }
            }
            assert(pv.take(pv.len() as int) =~= pv);
            out
        },
        _ => String::new(),
    }
}

/// Whether a message or a delta carries structured tool calls.
pub open spec fn has_tool_calls(message: JsonV) -> bool {
    json::arr_in(json::field(message, "tool_calls"@)) matches Some(calls) && calls.len() > 0
}

/// Whether a message or a delta carries structured tool calls.
pub fn carries_tool_calls(message: &Json) -> (r: bool)
    ensures
        r == has_tool_calls(message@),
{
    match message.get("tool_calls") {
        Some(Json::Array(calls)) => calls.len() > 0,
        _ => false,
    }
}

/// A completion whose first choice is the tool calls `calls` instead of text.
pub open spec fn with_tool_calls(body: JsonV, calls: JsonV) -> JsonV {
    match first_choice(body) {
        Some(choice) => match json::field(choice, "message"@) {
            Some(message) => with_first_choice(
                body,
                json::with_field(
                    json::with_field(
                        choice,
                        "message"@,
                        json::with_field(
                            json::with_field(message, "content"@, JsonV::Null),
                            "tool_calls"@,
                            calls,
                        ),
                    ),
                    "finish_reason"@,
                    JsonV::Str("tool_calls"@),
                ),
            ),
            None => body,
        },
        None => body,
    }
}

/// A completion whose first choice is the tool calls `calls` instead of text.
pub fn put_tool_calls(body: Json, calls: Json) -> (r: Json)
    ensures
        r@ == with_tool_calls(body@, calls@),
{
    let choice = match choice_of(&body) {
        Some(choice) => match choice.get("message") {
            Some(message) => {
                let m = json::copy(message).with("content", Json::Null).with("tool_calls", calls);
                json::copy(choice).with("message", m).with(
                    "finish_reason",
                    json::string("tool_calls"),
                )
            },
            None => {
                return body;
            },
        },
        None => {
            return body;
        },
    };
    set_first_choice(body, choice)
}

/// The text tool calls of a completion whose message has no structured ones.
pub open spec fn text_calls(body: JsonV) -> Option<Seq<CallV>> {
    match first_choice(body) {
        Some(choice) => match json::field(choice, "message"@) {
            Some(message) => if has_tool_calls(message) {
                None
            } else {
                tool_calls::calls_in_text(message_text(message))
            },
            None => None,
        },
        None => None,
    }
}

/// What the summary of a rewritten completion says.
pub open spec fn response_summary(body: JsonV) -> SummaryV {
    let none = SummaryV {
        had_structured_tool_calls: false,
        rewrote_text_tool_call: false,
        finish_reason: None,
        content_preview: None,
    };
    match first_choice(body) {
        Some(choice) => {
            let finish = SummaryV { finish_reason: json::str_field(choice, "finish_reason"@), ..none };
            match json::field(choice, "message"@) {
                Some(message) => if has_tool_calls(message) {
                    SummaryV { had_structured_tool_calls: true, ..finish }
                } else {
                    SummaryV {
                        had_structured_tool_calls: text_calls(body) is Some,
                        rewrote_text_tool_call: text_calls(body) is Some,
                        content_preview: Some(
                            text::preview(message_text(message), PREVIEW_BYTES as int),
                        ),
                        ..finish
                    }
                },
                None => finish,
            }
        },
        None => none,
    }
}

/// Rewrites a `/v1/chat/completions` response whose text is a tool call.
pub fn rewrite_chat_response(body: Json) -> (r: (Json, AgentResponseSummary))
    ensures
        r.1@ == response_summary(body@),
        match text_calls(body@) {
            Some(calls) => rewritten(body@, calls, r.0@),
            None => r.0@ == body@,
        },
{
    let mut summary = AgentResponseSummary {
        had_structured_tool_calls: false,
        rewrote_text_tool_call: false,
        finish_reason: None,
        content_preview: None,
    };
    let calls = match choice_of(&body) {
        Some(choice) => {
            summary.finish_reason = match choice.get_str("finish_reason") {
                Some(f) => Some(text::copy(f)),
                None => None,
            };
            match choice.get("message") {
                Some(message) => {
                    if carries_tool_calls(message) {
                        summary.had_structured_tool_calls = true;
                        return (body, summary);
                    }
                    let content = message_text_content(message);
                    summary.content_preview = Some(text::truncate_preview(&content, PREVIEW_BYTES));
                    tool_calls::text_content_to_tool_calls(&content)
                },
                None => None,
            }
        },
        None => None,
    };
    match calls {
        Some(calls) => {
            summary.rewrote_text_tool_call = true;
            summary.had_structured_tool_calls = true;
            (put_tool_calls(body, calls), summary)
        },
        None => (body, summary),
    }
}

/// Whether `out` is `body` with `calls`, under some identifiers, for its text.
pub open spec fn rewritten(body: JsonV, calls: Seq<CallV>, out: JsonV) -> bool {
    exists|j: JsonV|
        #![trigger tool_calls::are_entries(calls, j)]
        tool_calls::are_entries(calls, j) && out == with_tool_calls(body, j)
}

/// The text, or `d` where there is none.
pub open spec fn or_text(a: Option<Seq<char>>, d: Seq<char>) -> Seq<char> {
    match a {
        Some(s) => s,
        None => d,
    }
}

/// The text, or `d` where there is none.
pub fn text_or(a: Option<&str>, d: &str) -> (r: String)
    ensures
        r@ == or_text(json::opt_str(a), d@),
{
    match a {
        Some(s) => text::copy(s),
        None => text::copy(d),
    }
}

/// The identifier, name and arguments of an entry of `tool_calls`.
pub struct EntryV {
    pub id: Seq<char>,
    pub name: Seq<char>,
    pub arguments: Seq<char>,
}

/// What an entry of `tool_calls` says.
pub open spec fn entry_of(tc: JsonV) -> EntryV {
    let func = match json::field(tc, "function"@) {
        Some(f) => f,
        None => JsonV::Null,
    };
    EntryV {
        id: or_text(json::str_field(tc, "id"@), "call_unknown"@),
        name: or_text(json::str_field(func, "name"@), ""@),
        arguments: or_text(json::str_field(func, "arguments"@), "{}"@),
    }
}

/// An entry of `tool_calls`.
pub struct Entry {
    pub id: String,
    pub name: String,
    pub arguments: String,
}

impl View for Entry {
    type V = EntryV;

    open spec fn view(&self) -> EntryV {
        EntryV { id: self.id@, name: self.name@, arguments: self.arguments@ }
    }
}

/// Reads an entry of `tool_calls`.
pub fn read_entry(tc: &Json) -> (r: Entry)
    ensures
        r@ == entry_of(tc@),
{
    let (name, arguments) = match tc.get("function") {
        Some(f) => (f.get_str("name"), f.get_str("arguments")),
        None => (None, None),
    };
    Entry {
        id: text_or(tc.get_str("id"), "call_unknown"),
        name: text_or(name, ""),
        arguments: text_or(arguments, "{}"),
    }
}

/// The Responses API's output item of a tool call.
pub open spec fn function_call_item(e: EntryV) -> JsonV {
    JsonV::Obj(
        map![
            "type"@ => JsonV::Str("function_call"@),
            "call_id"@ => JsonV::Str(e.id),
            "name"@ => JsonV::Str(e.name),
            "arguments"@ => JsonV::Str(e.arguments),
            "status"@ => JsonV::Str("completed"@),
        ],
    )
}

/// The Responses API's output item of a tool call.
pub fn function_call_json(e: &Entry) -> (r: Json)
    ensures
        r@ == function_call_item(e@),
{
    json::object().with("type", json::string("function_call")).with(
        "call_id",
        json::string(&e.id),
    ).with("name", json::string(&e.name)).with("arguments", json::string(&e.arguments)).with(
        "status",
        json::string("completed"),
    )
}

/// The Responses API's output item of a text.
pub open spec fn output_text_item(t: Seq<char>) -> JsonV {
    JsonV::Obj(
        map![
            "type"@ => JsonV::Str("message"@),
            "role"@ => JsonV::Str("assistant"@),
            "content"@ => JsonV::Arr(seq![JsonV::Obj(map![
                "type"@ => JsonV::Str("output_text"@),
                "text"@ => JsonV::Str(t),
            ])]),
        ],
    )
}

/// An array of one item.
pub fn one(item: Json) -> (r: Json)
    ensures
        r@ == JsonV::Arr(seq![item@]),
{
    let mut v: Vec<Json> = Vec::new();
    v.push(item);
    assert(json::items_view(v@) =~= seq![item@]);
    json::array(v)
}

/// The output items of a message: its text, where it has one, and its calls.
pub open spec fn output_items(message: JsonV) -> Seq<JsonV> {
    let said = if message_text(message).len() == 0 {
        Seq::empty()
    } else {
        seq![output_text_item(message_text(message))]
    };
    match json::arr_in(json::field(message, "tool_calls"@)) {
        Some(calls) => said + calls.map_values(|tc: JsonV| function_call_item(entry_of(tc))),
        None => said,
    }
}

/// The Responses API's form of a completion, under `resp_` and `id`, made at
/// `now`.
pub open spec fn responses_form(body: JsonV, id: Seq<char>, now: u64) -> JsonV {
    let output = match first_choice(body) {
        Some(choice) => match json::field(choice, "message"@) {
            Some(message) => output_items(message),
            None => Seq::empty(),
        },
        None => Seq::empty(),
    };
    JsonV::Obj(
        map![
            "id"@ => JsonV::Str("resp_"@ + id),
            "object"@ => JsonV::Str("response"@),
            "created_at"@ => JsonV::Int(now as int),
            "status"@ => JsonV::Str("completed"@),
            "model"@ => match json::field(body, "model"@) { Some(m) => m, None => JsonV::Null },
            "output"@ => JsonV::Arr(output),
        ],
    )
}

fn output_of(message: &Json) -> (r: Vec<Json>)
    ensures
        json::items_view(r@) == output_items(message@),
{
    let mut output: Vec<Json> = Vec::new();
    let t = message_text_content(message);
    if !t.as_str().is_empty() {
        let part = json::object().with("type", json::string("output_text")).with(
            "text",
            Json::Str(t),
        );
        let item = json::object().with("type", json::string("message")).with(
            "role",
            json::string("assistant"),
        ).with("content", one(part));
        assert(item@ == output_text_item(t@));
        output.push(item);
    }
    let ghost said = json::items_view(output@);
    assert(said =~= if message_text(message@).len() == 0 {
        Seq::empty()
    } else {
        seq![output_text_item(message_text(message@))]
    });
    if let Some(Json::Array(calls)) = message.get("tool_calls") {
        let ghost cv = json::items_view(calls@).map_values(
            |tc: JsonV| function_call_item(entry_of(tc)),
        );
        assert(json::items_view(output@) =~= said + cv.take(0));
        for i in 0..calls.len()
            invariant
                cv == json::items_view(calls@).map_values(
                    |tc: JsonV| function_call_item(entry_of(tc)),
                ),
                json::items_view(output@) == said + cv.take(i as int),
        {
            let item = function_call_json(&read_entry(&calls[i]));
            proof {
                json::lemma_items_push(output@, item);
                assert(said + cv.take(i as int + 1) =~= (said + cv.take(i as int)).push(item@));
            }
            output.push(item);
        }
        assert(cv.take(cv.len() as int) =~= cv);
    }
    output
}

/// The Responses API's form of a completion, under `resp_` and `id`, made at
/// `now`.
pub fn chat_completion_to_responses_with(body: &Json, id: &str, now: u64) -> (r: Json)
    ensures
        r@ == responses_form(body@, id@, now),
{
    let output = match choice_of(body) {
        Some(choice) => match choice.get("message") {
            Some(message) => output_of(message),
            None => Vec::new(),
        },
        None => Vec::new(),
    };
    let ghost empty = Seq::<Json>::empty();
    assert(json::items_view(empty) =~= Seq::empty());
    let model = match body.get("model") {
        Some(m) => json::copy(m),
        None => Json::Null,
    };
    json::object().with("id", Json::Str(text::concat2("resp_", id))).with(
        "object",
        json::string("response"),
    ).with("created_at", Json::UInt(now)).with("status", json::string("completed")).with(
        "model",
        model,
    ).with("output", json::array(output))
}

/// Whether `out` is the Responses API's form of `body` under some identifier
/// and moment.
pub open spec fn is_responses_form(body: JsonV, out: JsonV) -> bool {
    exists|id: Seq<char>, now: u64|
        #![trigger responses_form(body, id, now)]
        outside::is_simple_uuid(id) && out == responses_form(body, id, now)
}

/// The Responses API's form of a completion.
pub fn chat_completion_to_responses(body: &Json) -> (r: Json)
    ensures
        is_responses_form(body@, r@),
{
    let id = outside::new_simple_uuid();
    let now: u64 = outside::clock_secs();
    chat_completion_to_responses_with(body, &id, now)
}

/// The payload of a line of an event stream: what follows `data:`, or a bare
/// chunk.
pub open spec fn sse_payload(line: Seq<char>) -> Option<Seq<char>> {
    let t = text::trimmed(line);
    match text::after_prefix(t, "data:"@) {
        Some(p) => Some(text::trimmed(p)),
        None => if text::starts(t, "{"@) && text::has(t, "\"choices\""@) {
            Some(t)
        } else {
            None
        },
    }
}

/// The payload of a line of an event stream.
pub fn sse_payload_from_line(line: &str) -> (r: Option<String>)
    ensures
        text::opt_view(r) == sse_payload(line@),
{
    let t = text::trim(line);
    match text::strip_prefix(&t, "data:") {
        Some(p) => Some(text::trim(&p)),
        None => if text::starts_with(&t, "{") && text::contains(&t, "\"choices\"") {
            Some(t)
        } else {
            None
        },
    }
}

/// What the chunks of an event stream have said so far.
pub struct Gathered {
    pub content: Seq<char>,
    pub tool_calls: Option<JsonV>,
    pub finish: Seq<char>,
}

/// What a chunk adds to what was said.
pub open spec fn gather_chunk(g: Gathered, chunk: JsonV) -> Gathered {
    match first_choice(chunk) {
        Some(choice) => {
            let delta = match json::field(choice, "delta"@) {
                Some(d) => d,
                None => JsonV::Null,
            };
            Gathered {
                content: match json::str_field(delta, "content"@) {
                    Some(c) => g.content + c,
                    None => g.content,
                },
                tool_calls: match json::field(delta, "tool_calls"@) {
                    Some(tc) => Some(tc),
                    None => g.tool_calls,
                },
                finish: match json::str_field(choice, "finish_reason"@) {
                    Some(f) => if f.len() > 0 {
                        f
                    } else {
                        g.finish
                    },
                    None => g.finish,
                },
            }
        },
        None => g,
    }
}

/// The chunk that a line carries; none where it is the end mark or no JSON.
pub open spec fn line_chunk(line: Seq<char>) -> Option<JsonV> {
    match sse_payload(line) {
        Some(p) => if p == "[DONE]"@ {
            None
        } else {
            json::json_parse(p)
        },
        None => None,
    }
}

/// What the chunks of an event stream say.
pub open spec fn gather(chunks: Seq<JsonV>) -> Gathered
    decreases chunks.len(),
{
    if chunks.len() == 0 {
        Gathered { content: Seq::empty(), tool_calls: None, finish: "stop"@ }
    } else {
        gather_chunk(gather(chunks.drop_last()), chunks.last())
    }
}

/// The chunks that the lines of an event stream carry.
pub open spec fn line_chunks(lines: Seq<Seq<char>>) -> Seq<JsonV>
    decreases lines.len(),
{
    if lines.len() == 0 {
        Seq::empty()
    } else {
        let c = line_chunks(lines.drop_last());
        match line_chunk(lines.last()) {
            Some(chunk) => c.push(chunk),
            None => c,
        }
    }
}

/// The completion that the chunks of an event stream amount to.
pub open spec fn chunks_completion(chunks: Seq<JsonV>) -> JsonV {
    let g = gather(chunks);
    let message = match g.tool_calls {
        Some(tc) => JsonV::Obj(
            map![
                "role"@ => JsonV::Str("assistant"@),
                "content"@ => JsonV::Null,
                "tool_calls"@ => tc,
            ],
        ),
        None => JsonV::Obj(
            map!["role"@ => JsonV::Str("assistant"@), "content"@ => JsonV::Str(g.content)],
        ),
    };
    JsonV::Obj(
        map![
            "choices"@ => JsonV::Arr(seq![JsonV::Obj(map![
                "message"@ => message,
                "finish_reason"@ => JsonV::Str(g.finish),
            ])]),
        ],
    )
}

/// The completion that an event stream amounts to.
pub open spec fn stream_completion(sse: Seq<char>) -> JsonV {
    chunks_completion(line_chunks(text::lines_of(sse)))
}

fn read_line_chunk(line: &str) -> (r: Option<Json>)
    ensures
        json::opt_owned(r) == line_chunk(line@),
{
    match sse_payload_from_line(line) {
        Some(p) => if text::str_eq(&p, "[DONE]") {
            None
        } else {
            json::parse(&p)
        },
        None => None,
    }
}

/// The completion that the chunks of an event stream amount to.
pub fn chunks_to_completion(chunks: &Vec<Json>) -> (r: Json)
    ensures
        r@ == chunks_completion(json::items_view(chunks@)),
{
    let mut content = String::new();
    let mut calls: Option<Json> = None;
    let mut finish = text::copy("stop");
    let ghost cv = json::items_view(chunks@);
    for i in 0..chunks.len()
        invariant
            cv == json::items_view(chunks@),
            cv.len() == chunks@.len(),
            gather(cv.take(i as int)) == (Gathered {
                content: content@,
                tool_calls: json::opt_owned(calls),
                finish: finish@,
            }),
    {
        assert(cv.take(i as int + 1).drop_last() =~= cv.take(i as int));
        assert(cv.take(i as int + 1).last() == chunks@[i as int]@);
        if let Some(choice) = choice_of(&chunks[i]) {
            if let Some(delta) = choice.get("delta") {
                if let Some(tc) = delta.get("tool_calls") {
                    calls = Some(json::copy(tc));
                }
                if let Some(c) = delta.get_str("content") {
                    content.append(c);
                }
            }
            if let Some(f) = choice.get_str("finish_reason") {
                if !f.is_empty() {
                    finish = text::copy(f);
                }
            }
        }
    }
    assert(cv.take(cv.len() as int) =~= cv);
    let message = match calls {
        Some(tc) => json::object().with("role", json::string("assistant")).with(
            "content",
            Json::Null,
        ).with("tool_calls", tc),
        None => json::object().with("role", json::string("assistant")).with(
            "content",
            Json::Str(content),
        ),
    };
    let choice = json::object().with("message", message).with("finish_reason", Json::Str(finish));
    json::object().with("choices", one(choice))
}

/// The completion that an event stream amounts to.
pub fn sse_bytes_to_completion(sse: &str) -> (r: Json)
    ensures
        r@ == stream_completion(sse@),
{
    let lines = text::lines(sse);
    let ghost lv = text::views(lines@);
    let mut chunks: Vec<Json> = Vec::new();
    assert(json::items_view(chunks@) =~= Seq::<JsonV>::empty());
    for i in 0..lines.len()
        invariant
            lv == text::views(lines@),
            json::items_view(chunks@) == line_chunks(lv.take(i as int)),
    {
        assert(lv.take(i as int + 1).drop_last() =~= lv.take(i as int));
        assert(lv.take(i as int + 1).last() == lines@[i as int]@);
        if let Some(chunk) = read_line_chunk(&lines[i]) {
            proof {
                json::lemma_items_push(chunks@, chunk);
            }
            chunks.push(chunk);
        }
    }
    assert(lv.take(lv.len() as int) =~= lv);
    chunks_to_completion(&chunks)
}

/// The completion that the body of a response amounts to, streamed or not; null
/// where it is neither.
pub open spec fn response_body(body: Seq<char>) -> JsonV {
    let t = text::trimmed(body);
    if text::starts(t, "data:"@) || text::has(t, "\ndata:"@) || (text::starts(t, "{"@) && text::has(
        t,
        "\"choices\""@,
    ) && text::has(t, "\"delta\""@)) {
        stream_completion(t)
    } else {
        match json::json_parse(t) {
            Some(j) => j,
            None => JsonV::Null,
        }
    }
}

/// The completion that the body of a response amounts to, streamed or not.
pub fn parse_chat_response_body(body: &str) -> (r: Json)
    ensures
        r@ == response_body(body@),
{
    let t = text::trim(body);
    if text::starts_with(&t, "data:") || text::contains(&t, "\ndata:") {
        return sse_bytes_to_completion(&t);
    }
    if text::starts_with(&t, "{") && text::contains(&t, "\"choices\"") && text::contains(
        &t,
        "\"delta\"",
    ) {
        return sse_bytes_to_completion(&t);
    }
    match json::parse(&t) {
        Some(j) => j,
        None => Json::Null,
    }
}

/// The content type of a response: an event stream whenever the client streams,
/// whatever the server upstream said.
pub fn chat_response_content_type(stream: bool, upstream: Option<&str>) -> (r: &'static str)
    ensures
        r@ == if stream {
            "text/event-stream"@
        } else {
            "application/json"@
        },
{
    if stream {
        "text/event-stream"
    } else {
        "application/json"
    }
}

/// Whether the setting of the agent log is on.
pub fn agent_debug_enabled(setting: Option<&str>) -> (r: bool)
    ensures
        r == (setting matches Some(v) && (v@ == "1"@ || text::ascii_lower(v@) == text::ascii_lower(
            "true"@,
        ))),
{
    match setting {
        Some(v) => text::str_eq(v, "1") || text::eq_ignore_ascii_case(v, "true"),
        None => false,
    }
}

/// Whether `j` tells the call `c` as its item at `i`: by its function's name and
/// arguments.
pub open spec fn tells_call(j: JsonV, i: int, c: CallV) -> bool {
    json::item_at(j, i) matches Some(e) && json::field(e, "index"@) == Some(JsonV::Int(c.index))
        && (json::field(e, "function"@) matches Some(f) && json::field(f, "name"@) == Some(
        JsonV::Str(c.name),
    ) && json::field(f, "arguments"@) == Some(JsonV::Str(c.arguments)))
}

proof fn lemma_rewriting_keys()
    ensures
        "content"@ != "tool_calls"@,
        "message"@ != "finish_reason"@,
{
    reveal_strlit("content");
    reveal_strlit("tool_calls");
    reveal_strlit("message");
    reveal_strlit("finish_reason");
    assert("content"@.len() != "tool_calls"@.len());
    assert("message"@.len() != "finish_reason"@.len());
}

/// A completion whose text was a call tells that call: its first message has the
/// calls, each with its name and arguments, and no text, and its reason is that it
/// calls tools. Everything else of the completion, of its first choice and of its
/// message stays.
pub proof fn law_rewritten_completion_tells_the_calls(
    body: JsonV,
    choices: Seq<JsonV>,
    c: Map<Seq<char>, JsonV>,
    m: Map<Seq<char>, JsonV>,
    calls: Seq<CallV>,
    out: JsonV,
)
    requires
        json::field(body, "choices"@) == Some(JsonV::Arr(choices)),
        choices.len() > 0,
        choices[0] == JsonV::Obj(c),
        json::field(JsonV::Obj(c), "message"@) == Some(JsonV::Obj(m)),
        rewritten(body, calls, out),
    ensures
        json::field(out, "choices"@) matches Some(JsonV::Arr(after)) && {
            &&& after.len() == choices.len()
            &&& forall|i: int| 0 < i < choices.len() ==> #[trigger] after[i] == choices[i]
            &&& json::field(after[0], "finish_reason"@) == Some(JsonV::Str("tool_calls"@))
            &&& json::field(after[0], "message"@) matches Some(message) && {
                &&& json::field(message, "content"@) == Some(JsonV::Null)
                &&& json::field(message, "tool_calls"@) matches Some(j) && json::arr_in(
                    Some(j),
                ) matches Some(entries) && entries.len() == calls.len() && forall|i: int|
                    0 <= i < calls.len() ==> tells_call(j, i, #[trigger] calls[i])
                &&& forall|k: Seq<char>|
                    k != "content"@ && k != "tool_calls"@ ==> #[trigger] json::field(message, k)
                        == json::field(JsonV::Obj(m), k)
            }
            &&& forall|k: Seq<char>|
                k != "message"@ && k != "finish_reason"@ ==> #[trigger] json::field(after[0], k)
                    == json::field(choices[0], k)
        },
        forall|k: Seq<char>|
            k != "choices"@ ==> #[trigger] json::field(out, k) == json::field(body, k),
{
    let j = choose|j: JsonV|
        #![trigger tool_calls::are_entries(calls, j)]
        tool_calls::are_entries(calls, j) && out == with_tool_calls(body, j);
    tool_calls::law_entries_tell_the_calls(calls, j);
    lemma_rewriting_keys();
    assert forall|i: int| 0 <= i < calls.len() implies tells_call(j, i, #[trigger] calls[i]) by {
        let e = j->Arr_0[i];
        assert(json::item_at(j, i) == Some(e));
    }
    let message = json::with_field(
        json::with_field(JsonV::Obj(m), "content"@, JsonV::Null),
        "tool_calls"@,
        j,
    );
    let choice = json::with_field(
        json::with_field(JsonV::Obj(c), "message"@, message),
        "finish_reason"@,
        JsonV::Str("tool_calls"@),
    );
    assert(out == json::with_field(body, "choices"@, JsonV::Arr(choices.update(0, choice))));
}

/// A completion whose first message writes calls in its text, and has no tool calls
/// of its own, is rewritten to those calls; one that has tool calls already, or
/// writes none, is left as it is.
pub proof fn law_written_calls_are_rewritten(
    body: JsonV,
    choices: Seq<JsonV>,
    message: JsonV,
    t: Seq<char>,
)
    requires
        json::field(body, "choices"@) == Some(JsonV::Arr(choices)),
        choices.len() > 0,
        json::field(choices[0], "message"@) == Some(message),
        json::field(message, "content"@) == Some(JsonV::Str(t)),
    ensures
        json::field(message, "tool_calls"@) is None || json::field(message, "tool_calls"@) == Some(
            JsonV::Null,
        ) || json::field(message, "tool_calls"@) == Some(JsonV::Arr(Seq::empty())) ==> text_calls(
            body,
        ) == tool_calls::calls_in_text(t),
        json::field(message, "tool_calls"@) matches Some(JsonV::Arr(calls)) && calls.len() > 0
            ==> text_calls(body) is None,
{
}

proof fn lemma_text_item(t: Seq<char>)
    ensures
        ({
            let item = output_text_item(t);
            &&& json::field(item, "type"@) == Some(JsonV::Str("message"@))
            &&& json::field(item, "role"@) == Some(JsonV::Str("assistant"@))
            &&& json::field(item, "content"@) matches Some(JsonV::Arr(parts)) && parts.len() == 1
                && json::field(parts[0], "type"@) == Some(JsonV::Str("output_text"@))
                && json::field(parts[0], "text"@) == Some(JsonV::Str(t))
        }),
{
    reveal_strlit("type");
    reveal_strlit("role");
    reveal_strlit("content");
    reveal_strlit("text");
    assert("content"@.len() == 7 && "type"@.len() == 4 && "role"@.len() == 4 && "text"@.len() == 4);
    assert("type"@[1] == 'y' && "role"@[1] == 'o' && "text"@[1] == 'e');
}

proof fn lemma_call_item(e: EntryV)
    ensures
        ({
            let item = function_call_item(e);
            &&& json::field(item, "type"@) == Some(JsonV::Str("function_call"@))
            &&& json::field(item, "call_id"@) == Some(JsonV::Str(e.id))
            &&& json::field(item, "name"@) == Some(JsonV::Str(e.name))
            &&& json::field(item, "arguments"@) == Some(JsonV::Str(e.arguments))
            &&& json::field(item, "status"@) == Some(JsonV::Str("completed"@))
        }),
{
    reveal_strlit("type");
    reveal_strlit("call_id");
    reveal_strlit("name");
    reveal_strlit("arguments");
    reveal_strlit("status");
    assert("type"@.len() == 4 && "call_id"@.len() == 7 && "name"@.len() == 4 && "arguments"@.len()
        == 9 && "status"@.len() == 6);
    assert("type"@[0] == 't' && "name"@[0] == 'n');
}

proof fn lemma_responses_form(body: JsonV, id: Seq<char>, now: u64)
    ensures
        ({
            let out = responses_form(body, id, now);
            &&& json::field(out, "id"@) == Some(JsonV::Str("resp_"@ + id))
            &&& json::field(out, "object"@) == Some(JsonV::Str("response"@))
            &&& json::field(out, "created_at"@) == Some(JsonV::Int(now as int))
            &&& json::field(out, "status"@) == Some(JsonV::Str("completed"@))
            &&& json::field(out, "model"@) == Some(
                match json::field(body, "model"@) {
                    Some(m) => m,
                    None => JsonV::Null,
                },
            )
            &&& json::field(out, "output"@) == Some(
                JsonV::Arr(
                    match first_choice(body) {
                        Some(choice) => match json::field(choice, "message"@) {
                            Some(message) => output_items(message),
                            None => Seq::empty(),
                        },
                        None => Seq::empty(),
                    },
                ),
            )
        }),
{
    reveal_strlit("id");
    reveal_strlit("object");
    reveal_strlit("created_at");
    reveal_strlit("status");
    reveal_strlit("model");
    reveal_strlit("output");
    assert("id"@.len() == 2 && "object"@.len() == 6 && "created_at"@.len() == 10 && "status"@.len()
        == 6 && "model"@.len() == 5 && "output"@.len() == 6);
    assert("object"@[1] == 'b' && "status"@[1] == 't' && "output"@[1] == 'u');
}

/// Whether `item` is the Responses API's message that says `t`.
pub open spec fn says_text(item: JsonV, t: Seq<char>) -> bool {
    &&& json::field(item, "type"@) == Some(JsonV::Str("message"@))
    &&& json::field(item, "role"@) == Some(JsonV::Str("assistant"@))
    &&& json::field(item, "content"@) matches Some(parts) && json::item_at(parts, 0) matches Some(
        part,
    ) && json::field(part, "type"@) == Some(JsonV::Str("output_text"@)) && json::field(part, "text"@)
        == Some(JsonV::Str(t))
}

/// Whether `item` is the Responses API's call of the tool `name` with `arguments`.
pub open spec fn says_call(
    item: JsonV,
    id: Seq<char>,
    name: Seq<char>,
    arguments: Seq<char>,
) -> bool {
    &&& json::field(item, "type"@) == Some(JsonV::Str("function_call"@))
    &&& json::field(item, "call_id"@) == Some(JsonV::Str(id))
    &&& json::field(item, "name"@) == Some(JsonV::Str(name))
    &&& json::field(item, "arguments"@) == Some(JsonV::Str(arguments))
}

/// Whether `entry` is an entry of `tool_calls` for the tool `name` with
/// `arguments`, under `id`.
pub open spec fn entry_says(
    entry: JsonV,
    id: Seq<char>,
    name: Seq<char>,
    arguments: Seq<char>,
) -> bool {
    &&& json::field(entry, "id"@) == Some(JsonV::Str(id))
    &&& json::field(entry, "function"@) matches Some(f) && json::field(f, "name"@) == Some(
        JsonV::Str(name),
    ) && json::field(f, "arguments"@) == Some(JsonV::Str(arguments))
}

/// The Responses API's form of a completion says what the completion says: the
/// text of its first message, where that is not empty, as its first output, and
/// then each of its tool calls, in their order, with identifier, name and
/// arguments. The model stays.
pub proof fn law_responses_form_says_the_same(
    body: JsonV,
    choices: Seq<JsonV>,
    message: JsonV,
    t: Seq<char>,
    id: Seq<char>,
    now: u64,
)
    requires
        json::field(body, "choices"@) == Some(JsonV::Arr(choices)),
        choices.len() > 0,
        json::field(choices[0], "message"@) == Some(message),
        json::field(message, "content"@) == Some(JsonV::Str(t)) || (t.len() == 0 && (json::field(
            message,
            "content"@,
        ) is None || json::field(message, "content"@) == Some(JsonV::Null))),
    ensures
        json::field(responses_form(body, id, now), "output"@) matches Some(JsonV::Arr(output)) && {
            let said: int = if t.len() > 0 {
                1
            } else {
                0
            };
            &&& t.len() > 0 ==> output.len() > 0 && says_text(output[0], t)
            &&& json::field(message, "tool_calls"@) is None ==> output.len() == said
            &&& json::field(message, "tool_calls"@) matches Some(JsonV::Arr(calls))
                ==> output.len() == said + calls.len() && forall|
                i: int,
                call: Seq<char>,
                name: Seq<char>,
                arguments: Seq<char>,
            |
                0 <= i < calls.len() && #[trigger] entry_says(calls[i], call, name, arguments)
                    ==> says_call(output[said + i], call, name, arguments)
        },
        json::field(body, "model"@) is Some ==> json::field(responses_form(body, id, now), "model"@)
            == json::field(body, "model"@),
        json::field(responses_form(body, id, now), "object"@) == Some(JsonV::Str("response"@)),
        json::field(responses_form(body, id, now), "status"@) == Some(JsonV::Str("completed"@)),
        json::field(responses_form(body, id, now), "created_at"@) == Some(JsonV::Int(now as int)),
        json::field(responses_form(body, id, now), "id"@) == Some(JsonV::Str("resp_"@ + id)),
{
    lemma_responses_form(body, id, now);
    assert(first_choice(body) == Some(choices[0]));
    assert(message_text(message) == t) by {
        if t.len() == 0 {
            assert(t =~= Seq::empty());
        }
    }
    lemma_text_item(t);
    let output = output_items(message);
    let said: int = if t.len() > 0 {
        1
    } else {
        0
    };
    if let Some(JsonV::Arr(calls)) = json::field(message, "tool_calls"@) {
        assert forall|i: int, call: Seq<char>, name: Seq<char>, arguments: Seq<char>|
            0 <= i < calls.len() && #[trigger] entry_says(
                calls[i],
                call,
                name,
                arguments,
            ) implies says_call(output[said + i], call, name, arguments) by {
            lemma_call_item(entry_of(calls[i]));
            assert(output[said + i] == function_call_item(entry_of(calls[i])));
        }
    }
}

/// The text of a message that comes in parts is the texts of the parts in a row:
/// one part more adds its text, and a part of another kind adds none.
pub proof fn law_parts_are_joined(
    message: JsonV,
    longer: JsonV,
    parts: Seq<JsonV>,
    part: JsonV,
    t: Seq<char>,
)
    requires
        json::field(message, "content"@) == Some(JsonV::Arr(parts)),
        json::field(longer, "content"@) == Some(JsonV::Arr(parts.push(part))),
    ensures
        parts.len() == 0 ==> message_text(message).len() == 0,
        json::field(part, "type"@) == Some(JsonV::Str("text"@)) && json::field(part, "text"@)
            == Some(JsonV::Str(t)) ==> message_text(longer) == message_text(message) + t,
        part == JsonV::Str(t) ==> message_text(longer) == message_text(message) + t,
        part is Obj && json::field(part, "type"@) != Some(JsonV::Str("text"@)) ==> message_text(
            longer,
        ) == message_text(message),
{
    assert(parts.push(part).drop_last() =~= parts);
    assert(parts.push(part).last() == part);
}

/// The first message of a completion.
pub open spec fn first_message(body: JsonV) -> Option<JsonV> {
    match json::field(body, "choices"@) {
        Some(JsonV::Arr(choices)) => if choices.len() > 0 {
            json::field(choices[0], "message"@)
        } else {
            None
        },
        _ => None,
    }
}

/// Why a completion ends.
pub open spec fn finish_of(body: JsonV) -> Option<JsonV> {
    match json::field(body, "choices"@) {
        Some(JsonV::Arr(choices)) => if choices.len() > 0 {
            json::field(choices[0], "finish_reason"@)
        } else {
            None
        },
        _ => None,
    }
}

proof fn lemma_chunks_completion(chunks: Seq<JsonV>)
    ensures
        ({
            let g = gather(chunks);
            &&& finish_of(chunks_completion(chunks)) == Some(JsonV::Str(g.finish))
            &&& first_message(chunks_completion(chunks)) matches Some(message) && json::field(
                message,
                "role"@,
            ) == Some(JsonV::Str("assistant"@)) && (match g.tool_calls {
                Some(tc) => json::field(message, "tool_calls"@) == Some(tc) && json::field(
                    message,
                    "content"@,
                ) == Some(JsonV::Null),
                None => json::field(message, "tool_calls"@) is None && json::field(
                    message,
                    "content"@,
                ) == Some(JsonV::Str(g.content)),
            })
        }),
{
    reveal_strlit("role");
    reveal_strlit("content");
    reveal_strlit("tool_calls");
    reveal_strlit("message");
    reveal_strlit("finish_reason");
    assert("role"@.len() == 4 && "content"@.len() == 7 && "tool_calls"@.len() == 10
        && "message"@.len() == 7 && "finish_reason"@.len() == 13);
}

/// A stream of no chunks is an empty text that has stopped.
pub proof fn law_no_chunks_say_nothing()
    ensures
        first_message(chunks_completion(Seq::<JsonV>::empty())) matches Some(message)
            && json::field(message, "content"@) == Some(JsonV::Str(Seq::empty())) && json::field(
            message,
            "role"@,
        ) == Some(JsonV::Str("assistant"@)) && json::field(message, "tool_calls"@) is None,
        finish_of(chunks_completion(Seq::<JsonV>::empty())) == Some(JsonV::Str("stop"@)),
{
    lemma_chunks_completion(Seq::empty());
}

/// A chunk adds to the completion of a stream what it says: its text follows the
/// text so far, its tool calls stand in place of the text, and its reason to end, if
/// it gives one, is the completion's. A chunk that says nothing changes nothing.
pub proof fn law_chunk_adds_what_it_says(
    chunks: Seq<JsonV>,
    chunk: JsonV,
    choices: Seq<JsonV>,
    delta: JsonV,
    before: JsonV,
    after: JsonV,
)
    requires
        json::field(chunk, "choices"@) == Some(JsonV::Arr(choices)),
        choices.len() > 0,
        json::field(choices[0], "delta"@) == Some(delta),
        first_message(chunks_completion(chunks)) == Some(before),
        first_message(chunks_completion(chunks.push(chunk))) == Some(after),
    ensures
        json::field(before, "tool_calls"@) is None && json::field(delta, "tool_calls"@) is None ==> {
            &&& json::field(after, "tool_calls"@) is None
            &&& json::field(before, "content"@) matches Some(JsonV::Str(so_far)) && json::field(
                after,
                "content"@,
            ) matches Some(JsonV::Str(now)) && now == (match json::field(delta, "content"@) {
                Some(JsonV::Str(t)) => so_far + t,
                _ => so_far,
            })
        },
        json::field(delta, "tool_calls"@) matches Some(calls) ==> json::field(after, "tool_calls"@)
            == Some(calls) && json::field(after, "content"@) == Some(JsonV::Null),
        json::field(before, "tool_calls"@) is Some && json::field(delta, "tool_calls"@) is None
            ==> json::field(after, "tool_calls"@) == json::field(before, "tool_calls"@),
        json::field(choices[0], "finish_reason"@) matches Some(JsonV::Str(f)) && f.len() > 0
            ==> finish_of(chunks_completion(chunks.push(chunk))) == Some(
            json::field(choices[0], "finish_reason"@)->0,
        ),
        json::field(choices[0], "finish_reason"@) is None || json::field(
            choices[0],
            "finish_reason"@,
        ) == Some(JsonV::Null) ==> finish_of(chunks_completion(chunks.push(chunk))) == finish_of(
            chunks_completion(chunks),
        ),
{
    lemma_chunks_completion(chunks);
    lemma_chunks_completion(chunks.push(chunk));
    assert(chunks.push(chunk).drop_last() =~= chunks);
    assert(chunks.push(chunk).last() == chunk);
    assert(first_choice(chunk) == Some(choices[0]));
}

/// A data line carries the chunk that its text writes, with or without a space
/// behind the colon; the end mark carries none.
pub proof fn law_data_line_carries_its_chunk(t: Seq<char>, v: JsonV)
    requires
        text::is_tight(t),
        json::reads_as(t, v),
        t != "[DONE]"@,
    ensures
        line_chunk("data: "@ + t) == Some(v),
        line_chunk("data:"@ + t) == Some(v),
        line_chunk("data: [DONE]"@) is None,
{
    let none = Seq::<char>::empty();
    let space = seq![' '];
    lemma_data_words();
    lemma_data_payload(space, t);
    lemma_data_payload(none, t);
    lemma_data_payload(space, "[DONE]"@);
    assert("data: "@ + t =~= "data:"@ + (space + t));
    assert(none + t =~= t);
}

proof fn lemma_data_words()
    ensures
        "data: "@ == "data:"@ + seq![' '],
        "data: [DONE]"@ == "data:"@ + (seq![' '] + "[DONE]"@),
        text::is_tight("[DONE]"@),
{
    reveal_strlit("data: ");
    reveal_strlit("data:");
    reveal_strlit("data: [DONE]");
    reveal_strlit("[DONE]");
    assert("data: "@ =~= "data:"@ + seq![' ']);
    assert("data: [DONE]"@ =~= "data:"@ + (seq![' '] + "[DONE]"@));
}

proof fn lemma_data_payload(space: Seq<char>, t: Seq<char>)
    requires
        text::is_blank(space),
        text::is_tight(t),
    ensures
        sse_payload("data:"@ + (space + t)) == Some(t),
{
    let none = Seq::<char>::empty();
    let line = "data:"@ + (space + t);
    assert("data:"@.len() == 5 && "data:"@[0] == 'd') by {
        reveal_strlit("data:");
    }
    assert(line[0] == "data:"@[0]);
    assert(line.last() == t.last());
    text::lemma_tight_stays(line);
    text::law_prefix_is_taken_off("data:"@, space + t, none);
    text::law_trimming_takes_off_space(space, t, none);
    assert(space + t + none =~= space + t);
}

/// A line that is neither data nor a bare chunk carries nothing.
pub proof fn law_other_line_carries_nothing(line: Seq<char>)
    requires
        !text::starts(text::trimmed(line), "data:"@),
        !text::has(text::trimmed(line), "\"choices\""@),
    ensures
        line_chunk(line) is None,
{
}

/// A response that is one JSON value is read as that value; one that begins with
/// data lines is put together from them.
pub proof fn law_response_body_is_read(t: Seq<char>, v: JsonV)
    requires
        text::is_tight(t),
    ensures
        json::reads_as(t, v) && !text::starts(t, "data:"@) && !text::has(t, "\ndata:"@)
            && !text::has(t, "\"delta\""@) ==> response_body(t) == v,
        text::starts(t, "data:"@) || text::has(t, "\ndata:"@) ==> response_body(t)
            == chunks_completion(line_chunks(text::lines_of(t))),
{
    text::lemma_tight_stays(t);
}

/// The report of a completion says why it ended, shows the front of its text, and tells
/// whether it has tool calls of its own or had them written in its text.
pub proof fn law_report_of_a_completion(
    body: JsonV,
    choices: Seq<JsonV>,
    message: JsonV,
    t: Seq<char>,
)
    requires
        json::field(body, "choices"@) == Some(JsonV::Arr(choices)),
        choices.len() > 0,
        json::field(choices[0], "message"@) == Some(message),
        json::field(message, "content"@) == Some(JsonV::Str(t)),
    ensures
        ({
            let s = response_summary(body);
            &&& json::field(choices[0], "finish_reason"@) matches Some(JsonV::Str(f))
                ==> s.finish_reason == Some(f)
            &&& json::field(message, "tool_calls"@) is None ==> s.content_preview == Some(
                text::preview(t, 200),
            ) && s.rewrote_text_tool_call == (tool_calls::calls_in_text(t) is Some)
                && s.had_structured_tool_calls == (tool_calls::calls_in_text(t) is Some)
            &&& json::field(message, "tool_calls"@) matches Some(JsonV::Arr(calls)) ==> (calls.len()
                > 0 ==> s.had_structured_tool_calls && !s.rewrote_text_tool_call)
        }),
{
    assert(first_choice(body) == Some(choices[0]));
}

/// A line that is a bare chunk carries it.
pub proof fn law_bare_chunk_is_carried(t: Seq<char>, v: JsonV)
    requires
        text::is_tight(t),
        t[0] == '{',
        text::has(t, "\"choices\""@),
        json::reads_as(t, v),
    ensures
        line_chunk(t) == Some(v),
{
    text::lemma_tight_stays(t);
    reveal_strlit("data:");
    reveal_strlit("{");
    reveal_strlit("[DONE]");
    assert(!text::starts(t, "data:"@)) by {
        if text::starts(t, "data:"@) {
            assert(t.subrange(0, 5)[0] == '{');
        }
    }
    assert(t.subrange(0, 1) =~= "{"@);
    assert(t[0] != "[DONE]"@[0]);
}

/// The chunks of a stream are those of its lines, in their order.
pub proof fn law_lines_carry_chunks_in_order(lines: Seq<Seq<char>>, line: Seq<char>)
    ensures
        line_chunks(Seq::<Seq<char>>::empty()).len() == 0,
        line_chunk(line) matches Some(v) ==> line_chunks(lines.push(line)) == line_chunks(
            lines,
        ).push(v),
        line_chunk(line) is None ==> line_chunks(lines.push(line)) == line_chunks(lines),
{
    assert(lines.push(line).drop_last() =~= lines);
}

/// A chunk without a delta may still say why the completion ends, and says nothing else;
/// one without a choice says nothing.
pub proof fn law_closing_chunk_ends(chunks: Seq<JsonV>, chunk: JsonV, choices: Seq<JsonV>, f: Seq<char>)
    requires
        json::field(chunk, "choices"@) == Some(JsonV::Arr(choices)),
        choices.len() > 0 ==> json::field(choices[0], "delta"@) is None,
    ensures
        choices.len() == 0 ==> chunks_completion(chunks.push(chunk)) == chunks_completion(chunks),
        choices.len() > 0 ==> first_message(chunks_completion(chunks.push(chunk))) == first_message(
            chunks_completion(chunks),
        ),
        choices.len() > 0 && json::field(choices[0], "finish_reason"@) == Some(JsonV::Str(f))
            && f.len() > 0 ==> finish_of(chunks_completion(chunks.push(chunk))) == Some(
            JsonV::Str(f),
        ),
{
    lemma_chunks_completion(chunks);
    lemma_chunks_completion(chunks.push(chunk));
    assert(chunks.push(chunk).drop_last() =~= chunks);
}

} // verus!
