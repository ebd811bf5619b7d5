//! The event stream of a chat completion on its way to an agent client.
//!
//! Text that looks like a tool call is held back until the stream ends; then it
//! is sent as structured tool calls where it is one.

use crate::agent_compat::request::AgentResponseFormat;
use crate::agent_compat::response;
use crate::agent_compat::response::{AgentResponseSummary, EntryV, SummaryV};
use crate::agent_compat::tool_calls;
use crate::json;
use crate::json::{Json, JsonV};
use crate::outside;
use crate::text;
use vstd::prelude::*;

verus! {

/// The state of a stream.
pub struct SseTransformState {
    accumulated: String,
    suppress_content: bool,
    last_summary: Option<AgentResponseSummary>,
    response_format: AgentResponseFormat,
    id: Option<String>,
    model: Option<String>,
    created: Option<u64>,
}

/// What the state of a stream is: the text held back, whether text is being
/// held back, the last summary, the client's format, and the identifier, model
/// and time that the first chunks gave.
pub struct SseV {
    pub accumulated: Seq<char>,
    pub suppress: bool,
    pub summary: Option<SummaryV>,
    pub format: AgentResponseFormat,
    pub id: Option<Seq<char>>,
    pub model: Option<Seq<char>>,
    pub created: Option<u64>,
}

/// What an optional summary says.
pub open spec fn opt_summary(o: Option<AgentResponseSummary>) -> Option<SummaryV> {
    match o {
        Some(s) => Some(s@),
        None => None,
    }
}

impl View for SseTransformState {
    type V = SseV;

    closed spec fn view(&self) -> SseV {
        SseV {
            accumulated: self.accumulated@,
            suppress: self.suppress_content,
            summary: opt_summary(self.last_summary),
            format: self.response_format,
            id: text::opt_view(self.id),
            model: text::opt_view(self.model),
            created: self.created,
        }
    }
}

/// The state before the first line.
pub open spec fn fresh(format: AgentResponseFormat) -> SseV {
    SseV {
        accumulated: Seq::empty(),
        suppress: false,
        summary: None,
        format,
        id: None,
        model: None,
        created: None,
    }
}

/// The line that ends a stream.
pub open spec fn done_line() -> Seq<char> {
    "data: [DONE]"@
}

/// A line in its `data: ..` form; `None` where it is neither data nor a chunk.
pub open spec fn data_line(line: Seq<char>) -> Option<Seq<char>> {
    let t = text::trimmed(line);
    if t.len() == 0 {
        None
    } else if t == "[DONE]"@ {
        Some(done_line())
    } else {
        match text::after_prefix(t, "data:"@) {
            Some(p) => if text::trimmed(p) == "[DONE]"@ {
                Some(done_line())
            } else {
                Some("data: "@ + text::trimmed(p))
            },
            None => if text::starts(t, "{"@) && text::has(t, "\"choices\""@) {
                Some("data: "@ + t)
            } else {
                None
            },
        }
    }
}

fn normalize_sse_data_line(line: &str) -> (r: Option<String>)
    ensures
        text::opt_view(r) == data_line(line@),
{
    let t = text::trim(line);
    if t.as_str().is_empty() {
        return None;
    }
    if text::str_eq(&t, "[DONE]") {
        return Some(text::copy("data: [DONE]"));
    }
    match text::strip_prefix(&t, "data:") {
        Some(p) => {
            let payload = text::trim(&p);
            if text::str_eq(&payload, "[DONE]") {
                Some(text::copy("data: [DONE]"))
            } else {
                Some(text::concat2("data: ", &payload))
            }
        },
        None => if text::starts_with(&t, "{") && text::contains(&t, "\"choices\"") {
            Some(text::concat2("data: ", &t))
        } else {
            None
        },
    }
}

/// The state with the identifier, model and time of `chunk`, unless an
/// identifier is known.
pub open spec fn with_meta(st: SseV, chunk: JsonV) -> SseV {
    if st.id is Some {
        st
    } else {
        SseV {
            id: json::str_field(chunk, "id"@),
            model: match json::str_field(chunk, "model"@) {
                Some(m) => Some(m),
                None => st.model,
            },
            created: match json::u64_in(json::field(chunk, "created"@)) {
                Some(c) => Some(c),
                None => st.created,
            },
            ..st
        }
    }
}

/// What a line does: it sends lines on, or it completes the text held back.
pub enum Step {
    /// The state afterwards and the lines to send.
    Forward(SseV, Seq<Seq<char>>),
    /// The state before completing.
    Complete(SseV),
}

/// What a piece of text does where text may be or is being held back; `None`
/// where it is sent as it came.
pub open spec fn piece_step(st: SseV, chunk: JsonV, choice: JsonV, piece: Seq<char>) -> Option<Step> {
    if st.suppress {
        Some(Step::Forward(SseV { accumulated: st.accumulated + piece, ..st }, Seq::empty()))
    } else if text::starts(text::trim_start(piece), "{"@) {
        Some(
            Step::Forward(
                SseV { suppress: true, accumulated: st.accumulated + piece, ..st },
                Seq::empty(),
            ),
        )
    } else {
        match text::char_index(piece, '{') {
            Some(i) => Some(
                Step::Forward(
                    SseV { suppress: true, accumulated: st.accumulated + piece.skip(i), ..st },
                    seq![
                        "data: "@ + json::json_print(
                            response::with_first_choice(
                                chunk,
                                json::with_field(
                                    choice,
                                    "delta"@,
                                    JsonV::Obj(map!["content"@ => JsonV::Str(piece.take(i))]),
                                ),
                            ),
                        ),
                    ],
                ),
            ),
            None => None,
        }
    }
}

/// What a chunk does that came as the line `normalized`.
pub open spec fn chunk_step(st: SseV, normalized: Seq<char>, chunk: JsonV) -> Step {
    match response::first_choice(chunk) {
        None => Step::Forward(st, seq![normalized]),
        Some(choice) => {
            let delta = match json::field(choice, "delta"@) {
                Some(d) => d,
                None => JsonV::Null,
            };
            let finish = json::str_field(choice, "finish_reason"@);
            if response::has_tool_calls(delta) {
                Step::Forward(
                    SseV {
                        summary: Some(
                            SummaryV {
                                had_structured_tool_calls: true,
                                rewrote_text_tool_call: false,
                                finish_reason: finish,
                                content_preview: None,
                            },
                        ),
                        ..st
                    },
                    seq!["data: "@ + json::json_print(chunk)],
                )
            } else {
                let moved = match json::str_field(delta, "content"@) {
                    Some(piece) => if piece.len() > 0 {
                        piece_step(st, chunk, choice, piece)
                    } else {
                        None
                    },
                    None => None,
                };
                match moved {
                    Some(step) => step,
                    None => if (finish == Some("stop"@) || finish == Some("length"@)) && st.suppress {
                        Step::Complete(st)
                    } else {
                        Step::Forward(st, seq![normalized])
                    },
                }
            }
        },
    }
}

/// The payload of a `data: ..` line.
pub open spec fn data_payload(normalized: Seq<char>) -> Seq<char> {
    text::trimmed(text::strip_prefixes(normalized, "data:"@))
}

/// What a line other than the end mark does.
pub open spec fn line_step(st: SseV, line: Seq<char>) -> Step {
    match data_line(line) {
        None => Step::Forward(st, seq![line]),
        Some(normalized) => match json::json_parse(data_payload(normalized)) {
            None => Step::Forward(st, seq![normalized]),
            Some(chunk) => chunk_step(with_meta(st, chunk), normalized, chunk),
        },
    }
}

/// A chunk of the stream with `choices`, made at `now` where no chunk gave a
/// time.
pub open spec fn stream_chunk(st: SseV, choices: JsonV, now: u64) -> JsonV {
    JsonV::Obj(
        map![
            "id"@ => JsonV::Str(response::or_text(st.id, "chatcmpl-mtrxAI"@)),
            "object"@ => JsonV::Str("chat.completion.chunk"@),
            "created"@ => JsonV::Int(match st.created { Some(c) => c, None => now } as int),
            "model"@ => JsonV::Str(response::or_text(st.model, "unknown"@)),
            "choices"@ => choices,
        ],
    )
}

/// The `choices` array of a chunk with one choice.
pub open spec fn one_choice(delta: JsonV, finish: JsonV) -> JsonV {
    JsonV::Arr(
        seq![
            JsonV::Obj(map![
                "index"@ => JsonV::Int(0),
                "delta"@ => delta,
                "finish_reason"@ => finish,
            ]),
        ],
    )
}

/// The line of a chunk with one choice.
pub open spec fn choice_line(st: SseV, delta: JsonV, finish: JsonV, now: u64) -> Seq<char> {
    "data: "@ + json::json_print(stream_chunk(st, one_choice(delta, finish), now))
}

/// The delta that opens a tool call.
pub open spec fn call_opened(index: u64, e: EntryV) -> JsonV {
    JsonV::Obj(
        map![
            "tool_calls"@ => JsonV::Arr(seq![JsonV::Obj(map![
                "index"@ => JsonV::Int(index as int),
                "id"@ => JsonV::Str(e.id),
                "type"@ => JsonV::Str("function"@),
                "function"@ => JsonV::Obj(map![
                    "name"@ => JsonV::Str(e.name),
                    "arguments"@ => JsonV::Str(""@),
                ]),
            ])]),
        ],
    )
}

/// The delta that gives a tool call its arguments.
pub open spec fn call_arguments(index: u64, e: EntryV) -> JsonV {
    JsonV::Obj(
        map![
            "tool_calls"@ => JsonV::Arr(seq![JsonV::Obj(map![
                "index"@ => JsonV::Int(index as int),
                "function"@ => JsonV::Obj(map!["arguments"@ => JsonV::Str(e.arguments)]),
            ])]),
        ],
    )
}

/// The `index` of an entry of `tool_calls`, 0 where it has none.
pub open spec fn entry_index(tc: JsonV) -> u64 {
    match json::u64_in(json::field(tc, "index"@)) {
        Some(i) => i,
        None => 0,
    }
}

/// The lines that open each call and give it its arguments.
pub open spec fn call_lines(st: SseV, calls: Seq<JsonV>, now: u64) -> Seq<Seq<char>>
    decreases calls.len(),
{
    if calls.len() == 0 {
        Seq::empty()
    } else {
        let tc = calls.last();
        let e = response::entry_of(tc);
        let opened = call_lines(st, calls.drop_last(), now).push(
            choice_line(st, call_opened(entry_index(tc), e), JsonV::Null, now),
        );
        if e.arguments.len() == 0 {
            opened
        } else {
            opened.push(choice_line(st, call_arguments(entry_index(tc), e), JsonV::Null, now))
        }
    }
}

/// The chat-completions lines of tool calls: the role, the calls, the end.
pub open spec fn chat_call_lines(st: SseV, calls: Seq<JsonV>, now: u64) -> Seq<Seq<char>> {
    (seq![
        choice_line(
            st,
            JsonV::Obj(map!["role"@ => JsonV::Str("assistant"@)]),
            JsonV::Null,
            now,
        ),
    ] + call_lines(st, calls, now)).push(
        choice_line(st, JsonV::Obj(Map::empty()), JsonV::Str("tool_calls"@), now),
    )
}

/// The Responses API's line that opens the call at `i`.
pub open spec fn item_added_line(i: int, e: EntryV) -> Seq<char> {
    "data: "@ + json::json_print(
        JsonV::Obj(
            map![
                "type"@ => JsonV::Str("response.output_item.added"@),
                "output_index"@ => JsonV::Int(i),
                "item"@ => JsonV::Obj(map![
                    "type"@ => JsonV::Str("function_call"@),
                    "call_id"@ => JsonV::Str(e.id),
                    "name"@ => JsonV::Str(e.name),
                    "arguments"@ => JsonV::Str(""@),
                ]),
            ],
        ),
    )
}

/// The Responses API's line that gives a call its arguments.
pub open spec fn arguments_done_line(e: EntryV) -> Seq<char> {
    "data: "@ + json::json_print(
        JsonV::Obj(
            map![
                "type"@ => JsonV::Str("response.function_call_arguments.done"@),
                "call_id"@ => JsonV::Str(e.id),
                "name"@ => JsonV::Str(e.name),
                "arguments"@ => JsonV::Str(e.arguments),
            ],
        ),
    )
}

/// The Responses API's lines of each call.
pub open spec fn item_lines(calls: Seq<JsonV>) -> Seq<Seq<char>>
    decreases calls.len(),
{
    if calls.len() == 0 {
        Seq::empty()
    } else {
        let e = response::entry_of(calls.last());
        item_lines(calls.drop_last()).push(item_added_line(calls.len() - 1, e)).push(
            arguments_done_line(e),
        )
    }
}

/// The Responses API's last line of tool calls, under `resp_` and `id`.
pub open spec fn response_completed_line(calls: Seq<JsonV>, id: Seq<char>) -> Seq<char> {
    "data: "@ + json::json_print(
        JsonV::Obj(
            map![
                "type"@ => JsonV::Str("response.completed"@),
                "response"@ => JsonV::Obj(map![
                    "id"@ => JsonV::Str("resp_"@ + id),
                    "object"@ => JsonV::Str("response"@),
                    "status"@ => JsonV::Str("completed"@),
                    "output"@ => JsonV::Arr(calls.map_values(
                        |tc: JsonV| response::function_call_item(response::entry_of(tc)))),
                ]),
            ],
        ),
    )
}

/// The lines of the tool calls `calls` in the client's format.
pub open spec fn tool_call_lines(st: SseV, calls: JsonV, id: Seq<char>, now: u64) -> Seq<Seq<char>> {
    match calls {
        JsonV::Arr(items) => match st.format {
            AgentResponseFormat::ResponsesApi => item_lines(items).push(
                response_completed_line(items, id),
            ),
            AgentResponseFormat::ChatCompletions => chat_call_lines(st, items, now),
        },
        _ => Seq::empty(),
    }
}

/// The state and the lines after the text held back is completed. `calls` is
/// the `tool_calls` array of the text, where it is a tool call.
pub open spec fn completed(st: SseV, calls: Option<JsonV>, id: Seq<char>, now: u64) -> (
    SseV,
    Seq<Seq<char>>,
) {
    let preview = Some(text::preview(st.accumulated, response::PREVIEW_BYTES as int));
    let cleared = SseV { accumulated: Seq::empty(), suppress: false, ..st };
    match calls {
        Some(j) => (
            SseV {
                summary: Some(
                    SummaryV {
                        had_structured_tool_calls: true,
                        rewrote_text_tool_call: true,
                        finish_reason: Some("tool_calls"@),
                        content_preview: preview,
                    },
                ),
                ..cleared
            },
            tool_call_lines(st, j, id, now),
        ),
        None => (
            SseV {
                summary: Some(
                    SummaryV {
                        had_structured_tool_calls: false,
                        rewrote_text_tool_call: false,
                        finish_reason: Some("stop"@),
                        content_preview: preview,
                    },
                ),
                ..cleared
            },
            seq![
                choice_line(
                    st,
                    JsonV::Obj(map!["content"@ => JsonV::Null]),
                    JsonV::Str("stop"@),
                    now,
                ),
            ],
        ),
    }
}

/// The chunk with one choice that a line sends.
pub open spec fn choice_value(st: SseV, delta: JsonV, finish: JsonV, now: u64) -> JsonV {
    stream_chunk(st, one_choice(delta, finish), now)
}

/// The chunks that open each call and give it its arguments.
pub open spec fn call_values(st: SseV, calls: Seq<JsonV>, now: u64) -> Seq<JsonV>
    decreases calls.len(),
{
    if calls.len() == 0 {
        Seq::empty()
    } else {
        let tc = calls.last();
        let e = response::entry_of(tc);
        let opened = call_values(st, calls.drop_last(), now).push(
            choice_value(st, call_opened(entry_index(tc), e), JsonV::Null, now),
        );
        if e.arguments.len() == 0 {
            opened
        } else {
            opened.push(choice_value(st, call_arguments(entry_index(tc), e), JsonV::Null, now))
        }
    }
}

/// The chat-completions chunks of tool calls: the role, the calls, the end.
pub open spec fn chat_call_values(st: SseV, calls: Seq<JsonV>, now: u64) -> Seq<JsonV> {
    (seq![
        choice_value(
            st,
            JsonV::Obj(map!["role"@ => JsonV::Str("assistant"@)]),
            JsonV::Null,
            now,
        ),
    ] + call_values(st, calls, now)).push(
        choice_value(st, JsonV::Obj(Map::empty()), JsonV::Str("tool_calls"@), now),
    )
}

/// The Responses API's event that opens the call at `i`.
pub open spec fn item_added(i: int, e: EntryV) -> JsonV {
    JsonV::Obj(
        map![
            "type"@ => JsonV::Str("response.output_item.added"@),
            "output_index"@ => JsonV::Int(i),
            "item"@ => JsonV::Obj(map![
                "type"@ => JsonV::Str("function_call"@),
                "call_id"@ => JsonV::Str(e.id),
                "name"@ => JsonV::Str(e.name),
                "arguments"@ => JsonV::Str(""@),
            ]),
        ],
    )
}

/// The Responses API's event that gives a call its arguments.
pub open spec fn arguments_done(e: EntryV) -> JsonV {
    JsonV::Obj(
        map![
            "type"@ => JsonV::Str("response.function_call_arguments.done"@),
            "call_id"@ => JsonV::Str(e.id),
            "name"@ => JsonV::Str(e.name),
            "arguments"@ => JsonV::Str(e.arguments),
        ],
    )
}

/// The Responses API's events of each call.
pub open spec fn item_values(calls: Seq<JsonV>) -> Seq<JsonV>
    decreases calls.len(),
{
    if calls.len() == 0 {
        Seq::empty()
    } else {
        let e = response::entry_of(calls.last());
        item_values(calls.drop_last()).push(item_added(calls.len() - 1, e)).push(arguments_done(e))
    }
}

/// The Responses API's last event of tool calls, under `resp_` and `id`.
pub open spec fn response_completed(calls: Seq<JsonV>, id: Seq<char>) -> JsonV {
    JsonV::Obj(
        map![
            "type"@ => JsonV::Str("response.completed"@),
            "response"@ => JsonV::Obj(map![
                "id"@ => JsonV::Str("resp_"@ + id),
                "object"@ => JsonV::Str("response"@),
                "status"@ => JsonV::Str("completed"@),
                "output"@ => JsonV::Arr(calls.map_values(
                    |tc: JsonV| response::function_call_item(response::entry_of(tc)))),
            ]),
        ],
    )
}

/// What the lines of the tool calls `calls` say, in the client's format.
pub open spec fn tool_call_values(st: SseV, calls: JsonV, id: Seq<char>, now: u64) -> Seq<JsonV> {
    match calls {
        JsonV::Arr(items) => match st.format {
            AgentResponseFormat::ResponsesApi => item_values(items).push(
                response_completed(items, id),
            ),
            AgentResponseFormat::ChatCompletions => chat_call_values(st, items, now),
        },
        _ => Seq::empty(),
    }
}

/// What the lines say that complete the text held back.
pub open spec fn completed_values(st: SseV, calls: Option<JsonV>, id: Seq<char>, now: u64) -> Seq<
    JsonV,
> {
    match calls {
        Some(j) => tool_call_values(st, j, id, now),
        None => seq![
            choice_value(
                st,
                JsonV::Obj(map!["content"@ => JsonV::Null]),
                JsonV::Str("stop"@),
                now,
            ),
        ],
    }
}

/// Whether a client reads `v` from `line`: behind `data: `, as JSON.
pub open spec fn line_says(line: Seq<char>, v: JsonV) -> bool {
    text::after_prefix(line, "data: "@) matches Some(p) && json::reads_as(p, v)
}

/// Whether a client reads `values` from `lines`, one from each.
pub open spec fn lines_say(lines: Seq<Seq<char>>, values: Seq<JsonV>) -> bool {
    lines.len() == values.len() && forall|i: int|
        0 <= i < lines.len() ==> line_says(#[trigger] lines[i], values[i])
}

/// Whether `calls` is the `tool_calls` array, under some identifiers, of the
/// calls that `content` writes.
pub open spec fn calls_for(content: Seq<char>, calls: Option<JsonV>) -> bool {
    match tool_calls::calls_in_text(content) {
        Some(cs) => calls matches Some(j) && tool_calls::are_entries(cs, j),
        None => calls is None,
    }
}

/// Whether `after` and `lines` come of completing the text that `st` holds back,
/// under some identifiers and at some moment. None of the lines is the end mark. The
/// calls that the text writes stand in it, and the lines are read back.
pub open spec fn completes(st: SseV, after: SseV, lines: Seq<Seq<char>>) -> bool {
    &&& !has_done(lines)
    &&& exists|calls: Option<JsonV>, id: Seq<char>, now: u64|
        #![trigger completed(st, calls, id, now)]
        calls_for(st.accumulated, calls) && outside::is_simple_uuid(id) && (after, lines)
            == completed(st, calls, id, now) && lines_say(
            lines,
            completed_values(st, calls, id, now),
        )
    &&& tool_calls::calls_in_text(st.accumulated) matches Some(cs) ==> tool_calls::written_in(
        st.accumulated,
        cs,
    ) && tool_calls::positions_fit(cs)
}

/// Whether a stream that ends in the state `st` still has text to complete.
pub open spec fn holds_text(st: SseV) -> bool {
    st.suppress && st.accumulated.len() > 0
}

/// Whether `after` and `lines` come of the end of a stream in the state `st`.
pub open spec fn flushes(st: SseV, after: SseV, lines: Seq<Seq<char>>) -> bool {
    if holds_text(st) {
        completes(st, after, lines)
    } else {
        after == st && lines == Seq::<Seq<char>>::empty()
    }
}

/// Whether `after` and `lines` come of `line` in the state `st`.
pub open spec fn processes(st: SseV, line: Seq<char>, after: SseV, lines: Seq<Seq<char>>) -> bool {
    if data_line(line) == Some(done_line()) {
        lines.len() > 0 && lines.last() == done_line() && flushes(st, after, lines.drop_last())
    } else {
        match line_step(st, line) {
            Step::Forward(s, ls) => after == s && lines == ls,
            Step::Complete(s) => completes(s, after, lines),
        }
    }
}

/// Whether `after` and `lines` come of the end of a stream in the state `st`:
/// what is held back is completed, and the end mark is the last line unless it has
/// been sent.
pub open spec fn finalizes(st: SseV, done_sent: bool, after: SseV, lines: Seq<Seq<char>>) -> bool {
    if done_sent {
        flushes(st, after, lines)
    } else {
        &&& lines.len() > 0
        &&& lines.last() == done_line()
        &&& flushes(st, after, lines.drop_last())
    }
}

/// Whether a line is the data of an object.
pub open spec fn is_object_line(line: Seq<char>) -> bool {
    text::starts(line, "data: {"@)
}

/// Whether every one of `lines` is the data of an object.
pub open spec fn are_object_lines(lines: Seq<Seq<char>>) -> bool {
    forall|i: int| 0 <= i < lines.len() ==> is_object_line(#[trigger] lines[i])
}

proof fn lemma_trim_end_prefix(s: Seq<char>)
    ensures
        text::trim_end(s).len() <= s.len(),
        text::trim_end(s) == s.take(text::trim_end(s).len() as int),
    decreases s.len(),
{
    if s.len() > 0 && text::is_space(s.last()) {
        lemma_trim_end_prefix(s.drop_last());
        let n = text::trim_end(s).len() as int;
        assert(s.drop_last().take(n) =~= s.take(n));
    } else {
        assert(s.take(s.len() as int) =~= s);
    }
}

proof fn lemma_object_lines(lines: Seq<Seq<char>>)
    requires
        are_object_lines(lines),
    ensures
        !has_done(lines),
{
    reveal_strlit("data: {");
    reveal_strlit("data: [DONE]");
    assert forall|i: int| 0 <= i < lines.len() implies text::trimmed(#[trigger] lines[i])
        != done_line() by {
        let l = lines[i];
        assert(is_object_line(l));
        assert(l[0] == "data: {"@[0] && l[6] == "data: {"@[6]);
        lemma_trim_end_prefix(l);
        if text::trimmed(l) == done_line() {
            assert(done_line()[6] == l[6]);
        }
    }
}

fn one_line(s: String) -> (r: Vec<String>)
    ensures
        text::views(r@) == seq![s@],
{
    let mut v: Vec<String> = Vec::new();
    v.push(s);
    assert(text::views(v@) =~= seq![s@]);
    v
}

fn no_lines() -> (r: Vec<String>)
    ensures
        text::views(r@) == Seq::<Seq<char>>::empty(),
{
    let v: Vec<String> = Vec::new();
    assert(text::views(v@) =~= Seq::<Seq<char>>::empty());
    v
}

proof fn lemma_plain_object(m: Map<Seq<char>, JsonV>, n: nat)
    requires
        n > 0,
        forall|k: Seq<char>| #[trigger]
            m.dom().contains(k) ==> k.len() < 30 && json::is_plain(m[k], (n - 1) as nat),
    ensures
        json::is_plain(JsonV::Obj(m), n),
{
    reveal_strlit("$serde_json::private::RawValue");
    assert("$serde_json::private::RawValue"@.len() == 30);
}

proof fn lemma_plain_choice(st: SseV, delta: JsonV, finish: JsonV, now: u64)
    requires
        json::is_plain(delta, 124),
        json::is_plain(finish, 124),
    ensures
        json::is_plain(choice_value(st, delta, finish, now), 127),
{
    reveal_strlit("id");
    reveal_strlit("object");
    reveal_strlit("created");
    reveal_strlit("model");
    reveal_strlit("choices");
    reveal_strlit("index");
    reveal_strlit("delta");
    reveal_strlit("finish_reason");
    let choices = one_choice(delta, finish);
    let choice = choices->Arr_0[0];
    lemma_plain_object(choice->Obj_0, 125);
    assert(json::is_plain(choices, 126));
    lemma_plain_object(choice_value(st, delta, finish, now)->Obj_0, 127);
}

proof fn lemma_plain_deltas(index: u64, e: EntryV)
    ensures
        json::is_plain(call_opened(index, e), 124),
        json::is_plain(call_arguments(index, e), 124),
        json::is_plain(JsonV::Obj(map!["role"@ => JsonV::Str("assistant"@)]), 124),
        json::is_plain(JsonV::Obj(map!["content"@ => JsonV::Null]), 124),
        json::is_plain(JsonV::Obj(Map::empty()), 124),
{
    reveal_strlit("tool_calls");
    reveal_strlit("index");
    reveal_strlit("id");
    reveal_strlit("type");
    reveal_strlit("function");
    reveal_strlit("name");
    reveal_strlit("arguments");
    reveal_strlit("role");
    reveal_strlit("content");
    let opened = call_opened(index, e)->Obj_0;
    let entries = opened["tool_calls"@];
    let entry = entries->Arr_0[0]->Obj_0;
    lemma_plain_object(entry["function"@]->Obj_0, 121);
    lemma_plain_object(entry, 122);
    assert(json::is_plain(entries, 123));
    lemma_plain_object(opened, 124);
    let given = call_arguments(index, e)->Obj_0;
    let parts = given["tool_calls"@];
    let part = parts->Arr_0[0]->Obj_0;
    lemma_plain_object(part["function"@]->Obj_0, 121);
    lemma_plain_object(part, 122);
    assert(json::is_plain(parts, 123));
    lemma_plain_object(given, 124);
    lemma_plain_object(map!["role"@ => JsonV::Str("assistant"@)], 124);
    lemma_plain_object(map!["content"@ => JsonV::Null], 124);
    lemma_plain_object(Map::empty(), 124);
}

proof fn lemma_plain_events(i: int, e: EntryV)
    ensures
        json::is_plain(item_added(i, e), 127),
        json::is_plain(arguments_done(e), 127),
        json::is_plain(response::function_call_item(e), 123),
{
    reveal_strlit("type");
    reveal_strlit("output_index");
    reveal_strlit("item");
    reveal_strlit("call_id");
    reveal_strlit("name");
    reveal_strlit("arguments");
    reveal_strlit("status");
    assert("item"@[0] == 'i' && "type"@[0] == 't' && "name"@[0] == 'n');
    let added = item_added(i, e)->Obj_0;
    lemma_plain_object(added["item"@]->Obj_0, 126);
    lemma_plain_object(added, 127);
    lemma_plain_object(arguments_done(e)->Obj_0, 127);
    lemma_plain_object(response::function_call_item(e)->Obj_0, 123);
}

proof fn lemma_plain_completed(calls: Seq<JsonV>, id: Seq<char>)
    ensures
        json::is_plain(response_completed(calls, id), 127),
{
    reveal_strlit("type");
    reveal_strlit("response");
    reveal_strlit("id");
    reveal_strlit("object");
    reveal_strlit("status");
    reveal_strlit("output");
    assert("object"@[1] == 'b' && "status"@[1] == 't' && "output"@[1] == 'u');
    let done = response_completed(calls, id)->Obj_0;
    let resp = done["response"@]->Obj_0;
    let output = resp["output"@];
    assert forall|k: int| 0 <= k < output->Arr_0.len() implies json::is_plain(
        #[trigger] output->Arr_0[k],
        124,
    ) by {
        let e = response::entry_of(calls[k]);
        reveal_strlit("call_id");
        reveal_strlit("name");
        reveal_strlit("arguments");
        lemma_plain_object(response::function_call_item(e)->Obj_0, 124);
    }
    assert(json::is_plain(output, 125));
    lemma_plain_object(resp, 126);
    lemma_plain_object(done, 127);
}

proof fn lemma_lines_say_push(
    lines: Seq<Seq<char>>,
    values: Seq<JsonV>,
    line: Seq<char>,
    v: JsonV,
)
    requires
        lines_say(lines, values),
        line_says(line, v),
    ensures
        lines_say(lines.push(line), values.push(v)),
{
    let l = lines.push(line);
    let w = values.push(v);
    assert forall|i: int| 0 <= i < l.len() implies line_says(#[trigger] l[i], w[i]) by {
        if i < lines.len() {
            assert(l[i] == lines[i]);
        }
    }
}

fn data_of(j: &Json) -> (r: String)
    ensures
        r@ == "data: "@ + json::json_print(j@),
        j@ is Obj ==> is_object_line(r@),
        json::is_plain(j@, 127) ==> line_says(r@, j@),
{
    let t = json::print(j);
    proof {
        text::law_prefix_is_taken_off("data: "@, t@, t@);
        reveal_strlit("data: {");
        reveal_strlit("data: ");
        if j@ is Obj {
            let l = "data: "@ + t@;
            assert(l[6] == t@[0]);
            assert(l.subrange(0, 7) =~= "data: {"@);
        }
    }
    text::concat2("data: ", &t)
}

/// The Responses API's lines of the tool calls `calls`, under `resp_` and `id`.
fn responses_stream_from_tool_calls(calls: &Vec<Json>, id: &str) -> (r: Vec<String>)
    ensures
        text::views(r@) == item_lines(json::items_view(calls@)).push(
            response_completed_line(json::items_view(calls@), id@),
        ),
        are_object_lines(text::views(r@)),
        lines_say(
            text::views(r@),
            item_values(json::items_view(calls@)).push(
                response_completed(json::items_view(calls@), id@),
            ),
        ),
{
    let ghost cv = json::items_view(calls@);
    let mut lines: Vec<String> = Vec::new();
    let mut items: Vec<Json> = Vec::new();
    assert(text::views(lines@) =~= item_lines(cv.take(0)));
    for i in 0..calls.len()
        invariant
            cv == json::items_view(calls@),
            text::views(lines@) == item_lines(cv.take(i as int)),
            are_object_lines(text::views(lines@)),
            lines_say(text::views(lines@), item_values(cv.take(i as int))),
            items@.len() == i,
            forall|k: int|
                0 <= k < i ==> (#[trigger] items@[k])@ == response::function_call_item(
                    response::entry_of(cv[k]),
                ),
    {
        let e = response::read_entry(&calls[i]);
        proof {
            assert(cv.take(i as int + 1).drop_last() =~= cv.take(i as int));
            assert(cv.take(i as int + 1).last() == cv[i as int]);
        }
        let item = json::object().with("type", json::string("function_call")).with(
            "call_id",
            json::string(&e.id),
        ).with("name", json::string(&e.name)).with("arguments", json::string(""));
        let added = json::object().with("type", json::string("response.output_item.added")).with(
            "output_index",
            Json::UInt(i as u64),
        ).with("item", item);
        let added_line = data_of(&added);
        let done = json::object().with(
            "type",
            json::string("response.function_call_arguments.done"),
        ).with("call_id", json::string(&e.id)).with("name", json::string(&e.name)).with(
            "arguments",
            json::string(&e.arguments),
        );
        let done_line = data_of(&done);
        proof {
            assert(added@ == item_added(i as int, e@));
            assert(done@ == arguments_done(e@));
            lemma_plain_events(i as int, e@);
            let said = item_values(cv.take(i as int));
            lemma_lines_say_push(text::views(lines@), said, added_line@, added@);
            lemma_lines_say_push(
                text::views(lines@).push(added_line@),
                said.push(added@),
                done_line@,
                done@,
            );
            text::lemma_views_push(lines@, added_line);
            text::lemma_views_push(lines@.push(added_line), done_line);
        }
        lines.push(added_line);
        lines.push(done_line);
        items.push(response::function_call_json(&e));
    }
    proof {
        assert(cv.take(cv.len() as int) =~= cv);
        assert(json::items_view(items@) =~= cv.map_values(
            |tc: JsonV| response::function_call_item(response::entry_of(tc)),
        ));
    }
    let resp = json::object().with("id", Json::Str(text::concat2("resp_", id))).with(
        "object",
        json::string("response"),
    ).with("status", json::string("completed")).with("output", json::array(items));
    let event = json::object().with("type", json::string("response.completed")).with(
        "response",
        resp,
    );
    let last = data_of(&event);
    proof {
        assert(event@ == response_completed(cv, id@));
        lemma_plain_completed(cv, id@);
        lemma_lines_say_push(text::views(lines@), item_values(cv), last@, event@);
        text::lemma_views_push(lines@, last);
    }
    lines.push(last);
    lines
}

impl SseTransformState {
    /// A stream for a client of chat completions.
    pub fn new() -> (r: Self)
        ensures
            r@ == fresh(AgentResponseFormat::ChatCompletions),
    {
        Self::with_response_format(AgentResponseFormat::ChatCompletions)
    }

    /// A stream for a client of `response_format`.
    pub fn with_response_format(response_format: AgentResponseFormat) -> (r: Self)
        ensures
            r@ == fresh(response_format),
    {
        SseTransformState {
            accumulated: String::new(),
            suppress_content: false,
            last_summary: None,
            response_format,
            id: None,
            model: None,
            created: None,
        }
    }

    /// The last summary, which is forgotten.
    pub fn take_summary(&mut self) -> (r: Option<AgentResponseSummary>)
        ensures
            opt_summary(r) == old(self)@.summary,
            final(self)@ == (SseV { summary: None, ..old(self)@ }),
    {
        self.last_summary.take()
    }

    fn capture_stream_meta(&mut self, chunk: &Json)
        ensures
            final(self)@ == with_meta(old(self)@, chunk@),
    {
        if self.id.is_some() {
            return;
        }
        if let Some(id) = chunk.get_str("id") {
            self.id = Some(text::copy(id));
        }
        if let Some(model) = chunk.get_str("model") {
            self.model = Some(text::copy(model));
        }
        if let Some(c) = chunk.get("created") {
            if let Some(created) = c.as_u64() {
                self.created = Some(created);
            }
        }
    }

    fn choice_text(&self, delta: Json, finish: Json, now: u64) -> (r: String)
        ensures
            r@ == choice_line(self@, delta@, finish@, now),
            is_object_line(r@),
            json::is_plain(delta@, 124) && json::is_plain(finish@, 124) ==> line_says(
                r@,
                choice_value(self@, delta@, finish@, now),
            ),
    {
        proof {
            if json::is_plain(delta@, 124) && json::is_plain(finish@, 124) {
                lemma_plain_choice(self@, delta@, finish@, now);
            }
        }
        let choice = json::object().with("index", Json::UInt(0)).with("delta", delta).with(
            "finish_reason",
            finish,
        );
        let choices = response::one(choice);
        let id = match &self.id {
            Some(s) => text::copy(s),
            None => text::copy("chatcmpl-mtrxAI"),
        };
        let model = match &self.model {
            Some(s) => text::copy(s),
            None => text::copy("unknown"),
        };
        let created: u64 = match self.created {
            Some(c) => c,
            None => now,
        };
        data_of(
            &json::object().with("id", Json::Str(id)).with(
                "object",
                json::string("chat.completion.chunk"),
            ).with("created", Json::UInt(created)).with("model", Json::Str(model)).with(
                "choices",
                choices,
            ),
        )
    }

    fn chat_lines(&self, calls: &Vec<Json>, now: u64) -> (r: Vec<String>)
        ensures
            text::views(r@) == chat_call_lines(self@, json::items_view(calls@), now),
            are_object_lines(text::views(r@)),
            lines_say(
                text::views(r@),
                chat_call_values(self@, json::items_view(calls@), now),
            ),
    {
        let ghost cv = json::items_view(calls@);
        let role = json::object().with("role", json::string("assistant"));
        let ghost role_value = choice_value(self@, role@, JsonV::Null, now);
        assert(json::is_plain(role@, 124)) by {
            reveal_strlit("role");
            lemma_plain_object(role@->Obj_0, 124);
        }
        let first = self.choice_text(role, Json::Null, now);
        let ghost head = seq![first@];
        let ghost said = seq![role_value];
        let mut lines = one_line(first);
        assert(text::views(lines@) =~= head + call_lines(self@, cv.take(0), now));
        assert(said + call_values(self@, cv.take(0), now) =~= said);
        assert(lines_say(text::views(lines@), said));
        for i in 0..calls.len()
            invariant
                cv == json::items_view(calls@),
                text::views(lines@) == head + call_lines(self@, cv.take(i as int), now),
                are_object_lines(text::views(lines@)),
                lines_say(text::views(lines@), said + call_values(self@, cv.take(i as int), now)),
        {
            let tc = &calls[i];
            proof {
                assert(cv.take(i as int + 1).drop_last() =~= cv.take(i as int));
                assert(cv.take(i as int + 1).last() == tc@);
            }
            let ghost so_far = call_lines(self@, cv.take(i as int), now);
            let e = response::read_entry(tc);
            let index: u64 = match tc.get("index") {
                Some(n) => match n.as_u64() {
                    Some(n) => n,
                    None => 0,
                },
                None => 0,
            };
            let func = json::object().with("name", json::string(&e.name)).with(
                "arguments",
                json::string(""),
            );
            let opened = json::object().with("index", Json::UInt(index)).with(
                "id",
                json::string(&e.id),
            ).with("type", json::string("function")).with("function", func);
            let line = self.choice_text(
                json::object().with("tool_calls", response::one(opened)),
                Json::Null,
                now,
            );
            assert(line@ == choice_line(self@, call_opened(index, e@), JsonV::Null, now));
            let ghost told = call_values(self@, cv.take(i as int), now);
            let ghost opening = choice_value(self@, call_opened(index, e@), JsonV::Null, now);
            proof {
                lemma_plain_deltas(index, e@);
                lemma_lines_say_push(text::views(lines@), said + told, line@, opening);
                assert((said + told).push(opening) =~= said + told.push(opening));
                text::lemma_views_push(lines@, line);
                assert((head + so_far).push(line@) =~= head + so_far.push(line@));
            }
            lines.push(line);
            if !e.arguments.as_str().is_empty() {
                let given = json::object().with("index", Json::UInt(index)).with(
                    "function",
                    json::object().with("arguments", json::string(&e.arguments)),
                );
                let args = self.choice_text(
                    json::object().with("tool_calls", response::one(given)),
                    Json::Null,
                    now,
                );
                assert(args@ == choice_line(self@, call_arguments(index, e@), JsonV::Null, now));
                proof {
                    let giving = choice_value(
                        self@,
                        call_arguments(index, e@),
                        JsonV::Null,
                        now,
                    );
                    lemma_plain_deltas(index, e@);
                    lemma_lines_say_push(
                        text::views(lines@),
                        said + told.push(opening),
                        args@,
                        giving,
                    );
                    assert((said + told.push(opening)).push(giving) =~= said + told.push(
                        opening,
                    ).push(giving));
                    text::lemma_views_push(lines@, args);
                    assert((head + so_far.push(line@)).push(args@) =~= head + so_far.push(
                        line@,
                    ).push(args@));
                }
                lines.push(args);
            }
        }
        assert(cv.take(cv.len() as int) =~= cv);
        let end = json::object();
        let ghost ended = choice_value(self@, end@, JsonV::Str("tool_calls"@), now);
        assert(json::is_plain(end@, 124));
        let last = self.choice_text(end, json::string("tool_calls"), now);
        proof {
            lemma_lines_say_push(
                text::views(lines@),
                said + call_values(self@, cv, now),
                last@,
                ended,
            );
            text::lemma_views_push(lines@, last);
        }
        lines.push(last);
        lines
    }

    /// The lines of the tool calls `calls` in the client's format, under `resp_`
    /// and `id`, made at `now`. Each is the data of an object.
    pub fn streaming_tool_call_sse_lines(&self, calls: &Json, id: &str, now: u64) -> (r: Vec<
        String,
    >)
        ensures
            text::views(r@) == tool_call_lines(self@, calls@, id@, now),
            are_object_lines(text::views(r@)),
            lines_say(text::views(r@), tool_call_values(self@, calls@, id@, now)),
    {
        match calls {
            Json::Array(items) => match self.response_format {
                AgentResponseFormat::ResponsesApi => responses_stream_from_tool_calls(items, id),
                AgentResponseFormat::ChatCompletions => self.chat_lines(items, now),
            },
            _ => no_lines(),
        }
    }

    /// Completes the text held back. `calls` is the `tool_calls` array of the
    /// text, where it is a tool call. None of the lines is the end mark.
    pub fn complete_suppressed_with(&mut self, calls: Option<Json>, id: &str, now: u64) -> (r: Vec<
        String,
    >)
        ensures
            (final(self)@, text::views(r@)) == completed(
                old(self)@,
                json::opt_owned(calls),
                id@,
                now,
            ),
            !has_done(text::views(r@)),
            lines_say(
                text::views(r@),
                completed_values(old(self)@, json::opt_owned(calls), id@, now),
            ),
    {
        let preview = text::truncate_preview(&self.accumulated, response::PREVIEW_BYTES);
        let out = match &calls {
            Some(j) => self.streaming_tool_call_sse_lines(j, id, now),
            None => {
                let nothing = json::object().with("content", Json::Null);
                assert(json::is_plain(nothing@, 124)) by {
                    reveal_strlit("content");
                    lemma_plain_object(nothing@->Obj_0, 124);
                }
                one_line(self.choice_text(nothing, json::string("stop"), now))
            },
        };
        proof {
            lemma_object_lines(text::views(out@));
        }
        let rewrote = calls.is_some();
        self.suppress_content = false;
        self.accumulated = String::new();
        self.last_summary = Some(
            AgentResponseSummary {
                had_structured_tool_calls: rewrote,
                rewrote_text_tool_call: rewrote,
                finish_reason: Some(
                    if rewrote {
                        text::copy("tool_calls")
                    } else {
                        text::copy("stop")
                    },
                ),
                content_preview: Some(preview),
            },
        );
        out
    }

    fn complete_suppressed(&mut self) -> (r: Vec<String>)
        ensures
            completes(old(self)@, final(self)@, text::views(r@)),
    {
        let calls = tool_calls::text_content_to_tool_calls(&self.accumulated);
        let id = outside::new_simple_uuid();
        let now: u64 = outside::clock_secs();
        proof {
            assert(calls_for(self@.accumulated, json::opt_owned(calls)));
        }
        self.complete_suppressed_with(calls, &id, now)
    }

    /// What the stream ends with: the text held back, completed.
    pub fn flush_on_stream_end(&mut self) -> (r: Vec<String>)
        ensures
            flushes(old(self)@, final(self)@, text::views(r@)),
    {
        if !self.suppress_content || self.accumulated.as_str().is_empty() {
            return no_lines();
        }
        self.complete_suppressed()
    }

    /// Ends the stream: completes the text held back, and sends the end mark
    /// unless it has been sent.
    pub fn finalize_stream(&mut self, done_sent: bool) -> (r: Vec<String>)
        ensures
            finalizes(old(self)@, done_sent, final(self)@, text::views(r@)),
    {
        let mut out = self.flush_on_stream_end();
        let ghost before = text::views(out@);
        let mut already = done_sent;
        for i in 0..out.len()
            invariant
                before == text::views(out@),
                already == (done_sent || has_done(before.take(i as int))),
        {
            let ghost b = before.take(i as int);
            let hit = text::str_eq(&text::trim(&out[i]), "data: [DONE]");
            proof {
                let b1 = before.take(i as int + 1);
                assert(b1[i as int] == out@[i as int]@);
                if has_done(b) {
                    let k = choose|k: int| 0 <= k < b.len() && text::trimmed(#[trigger] b[k]) == done_line();
                    assert(b1[k] == b[k]);
                }
                if has_done(b1) && !has_done(b) {
                    let k = choose|k: int| 0 <= k < b1.len() && text::trimmed(#[trigger] b1[k]) == done_line();
                    if k < i {
                        assert(b[k] == b1[k]);
                    }
                }
            }
            already = already || hit;
        }
        assert(before.take(before.len() as int) =~= before);
        if !already {
            let done = text::copy("data: [DONE]");
            proof {
                text::lemma_views_push(out@, done);
            }
            out.push(done);
            proof {
                let lines = text::views(out@);
                assert(lines.drop_last() =~= before);
            }
        }
        out
    }

    /// Takes one line of the stream and returns the lines to send on.
    pub fn process_line(&mut self, line: &str) -> (r: Vec<String>)
        ensures
            processes(old(self)@, line@, final(self)@, text::views(r@)),
    {
        let normalized = match normalize_sse_data_line(line) {
            Some(n) => n,
            None => {
                return one_line(text::copy(line));
            },
        };
        if text::str_eq(&normalized, "data: [DONE]") {
            let mut out = self.flush_on_stream_end();
            let done = text::copy("data: [DONE]");
            let ghost before = text::views(out@);
            proof {
                text::lemma_views_push(out@, done);
            }
            out.push(done);
            assert(text::views(out@).drop_last() =~= before);
            return out;
        }
        let payload = text::trim(&text::trim_start_matches(&normalized, "data:"));
        let chunk = match json::parse(&payload) {
            Some(c) => c,
            None => {
                return one_line(normalized);
            },
        };
        match self.process_chunk(&normalized, chunk) {
            Some(lines) => lines,
            None => self.complete_suppressed(),
        }
    }

    /// Takes one chunk that came as the line `normalized`; `None` where it
    /// completes the text held back.
    pub fn process_chunk(&mut self, normalized: &str, chunk: Json) -> (r: Option<Vec<String>>)
        ensures
            match chunk_step(with_meta(old(self)@, chunk@), normalized@, chunk@) {
                Step::Forward(s, ls) => r matches Some(lines) && final(self)@ == s && text::views(
                    lines@,
                ) == ls,
                Step::Complete(s) => r is None && final(self)@ == s,
            },
    {
        self.capture_stream_meta(&chunk);
        let mut replaced: Option<Json> = None;
        match response::choice_of(&chunk) {
            None => {
                return Some(one_line(text::copy(normalized)));
            },
            Some(choice) => {
                let finish = choice.get_str("finish_reason");
                if let Some(delta) = choice.get("delta") {
                    if response::carries_tool_calls(delta) {
                        let finish_reason = match finish {
                            Some(f) => Some(text::copy(f)),
                            None => None,
                        };
                        self.last_summary = Some(
                            AgentResponseSummary {
                                had_structured_tool_calls: true,
                                rewrote_text_tool_call: false,
                                finish_reason,
                                content_preview: None,
                            },
                        );
                        return Some(one_line(data_of(&chunk)));
                    }
                    if let Some(piece) = delta.get_str("content") {
                        if !piece.is_empty() {
                            if self.suppress_content {
                                self.accumulated.append(piece);
                                return Some(no_lines());
                            }
                            if text::starts_with(&text::trim_front(piece), "{") {
                                self.suppress_content = true;
                                self.accumulated.append(piece);
                                return Some(no_lines());
                            }
                            if let Some(i) = text::find_char(piece, '{') {
                                let before = text::take(piece, i);
                                self.suppress_content = true;
                                self.accumulated.append(&text::skip(piece, i));
                                let d = json::object().with("content", Json::Str(before));
                                replaced = Some(json::copy(choice).with("delta", d));
                            }
                        }
                    }
                }
                if replaced.is_none() {
                    let ends = match finish {
                        Some(f) => text::str_eq(f, "stop") || text::str_eq(f, "length"),
                        None => false,
                    };
                    if ends && self.suppress_content {
                        return None;
                    }
                    return Some(one_line(text::copy(normalized)));
                }
            },
        }
        match replaced {
            Some(choice) => Some(one_line(data_of(&response::set_first_choice(chunk, choice)))),
            None => Some(no_lines()),
        }
    }
}

impl Default for SseTransformState {
    fn default() -> (r: Self)
        ensures
            r@ == fresh(AgentResponseFormat::ChatCompletions),
    {
        Self::new()
    }
}

/// Whether one of `lines` is the end mark.
pub open spec fn has_done(lines: Seq<Seq<char>>) -> bool {
    exists|i: int| 0 <= i < lines.len() && text::trimmed(#[trigger] lines[i]) == done_line()
}

proof fn lemma_done_line_trimmed()
    ensures
        text::trimmed(done_line()) == done_line(),
{
    reveal_strlit("data: [DONE]");
    let d = done_line();
    assert(!text::is_space(d[0]));
    assert(!text::is_space(d.last()));
}

/// The end mark is the line that ends a stream.
pub proof fn lemma_done_line_is_data()
    ensures
        text::trimmed(done_line()) == done_line(),
        data_line(done_line()) == Some(done_line()),
{
    lemma_done_line_trimmed();
    reveal_strlit("data: [DONE]");
    reveal_strlit("[DONE]");
    reveal_strlit("data:");
    let d = done_line();
    assert(d.subrange(0, 5) =~= "data:"@);
    let p = d.skip(5);
    assert(p[0] == ' ' && text::is_space(p[0]));
    assert(p.skip(1) =~= "[DONE]"@);
    assert(!text::is_space("[DONE]"@[0]) && !text::is_space("[DONE]"@.last()));
    assert(text::trim_start(p.skip(1)) == p.skip(1));
    assert(text::trimmed(p) == "[DONE]"@);
}

/// A stream that has not sent its end mark ends with it, and sends it once.
pub proof fn law_finalize_marks(st: SseV, after: SseV, lines: Seq<Seq<char>>)
    requires
        finalizes(st, false, after, lines),
    ensures
        lines.len() > 0,
        lines.last() == done_line(),
        has_done(lines),
        !has_done(lines.drop_last()),
{
    lemma_done_line_trimmed();
    assert(text::trimmed(lines[lines.len() - 1]) == done_line());
}

/// A stream that has sent its end mark does not send it again.
pub proof fn law_finalize_marks_once(st: SseV, after: SseV, lines: Seq<Seq<char>>)
    requires
        finalizes(st, true, after, lines),
    ensures
        !has_done(lines),
{
}

/// A stream that has ended and sent its end mark ends again with nothing, and stays
/// as it is.
pub proof fn law_finalize_twice(
    st: SseV,
    done_sent: bool,
    mid: SseV,
    first: Seq<Seq<char>>,
    after: SseV,
    second: Seq<Seq<char>>,
)
    requires
        finalizes(st, done_sent, mid, first),
        finalizes(mid, true, after, second),
    ensures
        second == Seq::<Seq<char>>::empty(),
        after == mid,
{
}

/// A stream that nothing came of, but whose end mark was sent, ends with nothing.
pub proof fn law_finalize_fresh(
    format: AgentResponseFormat,
    after: SseV,
    lines: Seq<Seq<char>>,
)
    requires
        finalizes(fresh(format), true, after, lines),
    ensures
        lines == Seq::<Seq<char>>::empty(),
        after == fresh(format),
{
}

/// The tool calls that a chunk tells, in the delta of its first choice.
pub open spec fn told_entries(chunk: JsonV) -> Seq<JsonV> {
    match json::field(chunk, "choices"@) {
        Some(choices) => match json::item_at(choices, 0) {
            Some(choice) => match json::field(choice, "delta"@) {
                Some(delta) => match json::field(delta, "tool_calls"@) {
                    Some(JsonV::Arr(entries)) => entries,
                    _ => Seq::empty(),
                },
                None => Seq::empty(),
            },
            None => Seq::empty(),
        },
        None => Seq::empty(),
    }
}

/// The piece of text that an entry gives the call at `index` under `k`: as its own,
/// for the identifier, and otherwise of its function.
pub open spec fn entry_piece(entry: JsonV, index: int, k: Seq<char>) -> Seq<char> {
    if json::field(entry, "index"@) == Some(JsonV::Int(index)) {
        let holder = if k == "id"@ {
            Some(entry)
        } else {
            json::field(entry, "function"@)
        };
        match holder {
            Some(f) => match json::field(f, k) {
                Some(JsonV::Str(t)) => t,
                _ => Seq::empty(),
            },
            None => Seq::empty(),
        }
    } else {
        Seq::empty()
    }
}

/// What entries give the call at `index` under `k`, put together.
pub open spec fn joined_entries(entries: Seq<JsonV>, index: int, k: Seq<char>) -> Seq<char>
    decreases entries.len(),
{
    if entries.len() == 0 {
        Seq::empty()
    } else {
        joined_entries(entries.drop_last(), index, k) + entry_piece(entries.last(), index, k)
    }
}

/// What the chunks of a stream give the call at `index` under `k`, put together, as
/// a client does.
pub open spec fn joined_chunks(chunks: Seq<JsonV>, index: int, k: Seq<char>) -> Seq<char>
    decreases chunks.len(),
{
    if chunks.len() == 0 {
        Seq::empty()
    } else {
        joined_chunks(chunks.drop_last(), index, k) + joined_entries(
            told_entries(chunks.last()),
            index,
            k,
        )
    }
}

proof fn lemma_choice_value(st: SseV, delta: JsonV, finish: JsonV, now: u64)
    ensures
        ({
            let v = choice_value(st, delta, finish, now);
            &&& json::field(v, "choices"@) == Some(one_choice(delta, finish))
            &&& json::field(v, "object"@) == Some(JsonV::Str("chat.completion.chunk"@))
            &&& json::field(one_choice(delta, finish)->Arr_0[0], "delta"@) == Some(delta)
            &&& json::field(one_choice(delta, finish)->Arr_0[0], "finish_reason"@) == Some(finish)
            &&& json::item_at(one_choice(delta, finish), 0) == Some(
                one_choice(delta, finish)->Arr_0[0],
            )
            &&& st.id matches Some(id) ==> json::field(v, "id"@) == Some(JsonV::Str(id))
            &&& st.model matches Some(m) ==> json::field(v, "model"@) == Some(JsonV::Str(m))
            &&& st.created matches Some(c) ==> json::field(v, "created"@) == Some(
                JsonV::Int(c as int),
            )
        }),
{
    reveal_strlit("id");
    reveal_strlit("object");
    reveal_strlit("created");
    reveal_strlit("model");
    reveal_strlit("choices");
    reveal_strlit("index");
    reveal_strlit("delta");
    reveal_strlit("finish_reason");
    assert("id"@.len() == 2 && "object"@.len() == 6 && "created"@.len() == 7 && "model"@.len() == 5
        && "choices"@.len() == 7);
    assert("created"@[1] == 'r' && "choices"@[1] == 'h');
    assert("index"@.len() == 5 && "delta"@.len() == 5 && "finish_reason"@.len() == 13);
    assert("index"@[0] == 'i' && "delta"@[0] == 'd');
}

proof fn lemma_call_deltas(index: u64, e: EntryV, at: int)
    ensures
        ({
            let entries = call_opened(index, e)->Obj_0["tool_calls"@]->Arr_0;
            &&& json::field(call_opened(index, e), "tool_calls"@) == Some(JsonV::Arr(entries))
            &&& entries.len() == 1
            &&& entry_piece(entries[0], at, "name"@) == if at == index {
                e.name
            } else {
                Seq::empty()
            }
            &&& entry_piece(entries[0], at, "arguments"@).len() == 0
            &&& entry_piece(entries[0], at, "id"@) == if at == index {
                e.id
            } else {
                Seq::empty()
            }
        }),
        ({
            let entries = call_arguments(index, e)->Obj_0["tool_calls"@]->Arr_0;
            &&& json::field(call_arguments(index, e), "tool_calls"@) == Some(JsonV::Arr(entries))
            &&& entries.len() == 1
            &&& entry_piece(entries[0], at, "name"@).len() == 0
            &&& entry_piece(entries[0], at, "id"@).len() == 0
            &&& entry_piece(entries[0], at, "arguments"@) == if at == index {
                e.arguments
            } else {
                Seq::empty()
            }
        }),
{
    reveal_strlit("tool_calls");
    reveal_strlit("index");
    reveal_strlit("id");
    reveal_strlit("type");
    reveal_strlit("function");
    reveal_strlit("name");
    reveal_strlit("arguments");
    reveal_strlit("");
    assert("index"@.len() == 5 && "id"@.len() == 2 && "type"@.len() == 4 && "function"@.len() == 8
        && "name"@.len() == 4 && "arguments"@.len() == 9 && ""@.len() == 0);
}

proof fn lemma_joined_push(chunks: Seq<JsonV>, st: SseV, delta: JsonV, entry: JsonV, now: u64, at: int, k: Seq<char>)
    requires
        json::field(delta, "tool_calls"@) matches Some(JsonV::Arr(entries)) && entries.len() == 1
            && entries[0] == entry,
    ensures
        joined_chunks(chunks.push(choice_value(st, delta, JsonV::Null, now)), at, k)
            == joined_chunks(chunks, at, k) + entry_piece(entry, at, k),
{
    let v = choice_value(st, delta, JsonV::Null, now);
    lemma_choice_value(st, delta, JsonV::Null, now);
    assert(chunks.push(v).drop_last() =~= chunks);
    let entries = told_entries(v);
    assert(entries.len() == 1 && entries[0] == entry);
    assert(entries.drop_last() =~= Seq::empty());
    assert(joined_entries(entries.drop_last(), at, k) =~= Seq::empty());
    assert(joined_entries(entries, at, k) =~= entry_piece(entry, at, k));
}

proof fn lemma_call_values_tell(
    st: SseV,
    calls: Seq<tool_calls::CallV>,
    ids: Seq<Seq<char>>,
    now: u64,
    at: int,
)
    requires
        calls.len() == ids.len(),
        tool_calls::positions_fit(calls),
        forall|i: int, j: int|
            0 <= i < j < calls.len() ==> (#[trigger] calls[i]).index < (#[trigger] calls[j]).index,
    ensures
        ({
            let values = call_values(st, tool_calls::call_entries(calls, ids)->Arr_0, now);
            &&& forall|i: int|
                0 <= i < calls.len() && (#[trigger] calls[i]).index == at ==> joined_chunks(
                    values,
                    at,
                    "name"@,
                ) == calls[i].name && joined_chunks(values, at, "arguments"@) == calls[i].arguments
                    && joined_chunks(values, at, "id"@) == "call_"@ + ids[i]
            &&& (forall|i: int| 0 <= i < calls.len() ==> (#[trigger] calls[i]).index != at)
                ==> joined_chunks(values, at, "name"@).len() == 0 && joined_chunks(
                values,
                at,
                "arguments"@,
            ).len() == 0 && joined_chunks(values, at, "id"@).len() == 0
        }),
    decreases calls.len(),
{
    let entries = tool_calls::call_entries(calls, ids)->Arr_0;
    let values = call_values(st, entries, now);
    if calls.len() > 0 {
        let n = calls.len() - 1;
        let front = calls.drop_last();
        let front_ids = ids.drop_last();
        assert(entries.drop_last() =~= tool_calls::call_entries(front, front_ids)->Arr_0);
        assert forall|i: int| 0 <= i < front.len() implies 0 <= (#[trigger] front[i]).index
            <= u64::MAX by {
            assert(front[i] == calls[i]);
        }
        assert forall|i: int, j: int| 0 <= i < j < front.len() implies (
        #[trigger] front[i]).index < (#[trigger] front[j]).index by {
            assert(front[i] == calls[i] && front[j] == calls[j]);
        }
        lemma_call_values_tell(st, front, front_ids, now, at);
        let before = call_values(st, entries.drop_last(), now);
        let c = calls[n];
        let tc = entries.last();
        tool_calls::lemma_call_entry(c, ids[n]);
        assert(tc == tool_calls::call_entry(c, ids[n]));
        let e = response::entry_of(tc);
        let index = entry_index(tc);
        assert(e.name == c.name && e.arguments == c.arguments);
        assert(index == c.index);
        lemma_call_deltas(index, e, at);
        let opened = call_opened(index, e);
        let given = call_arguments(index, e);
        let first = opened->Obj_0["tool_calls"@]->Arr_0[0];
        let second = given->Obj_0["tool_calls"@]->Arr_0[0];
        let mid = before.push(choice_value(st, opened, JsonV::Null, now));
        lemma_joined_push(before, st, opened, first, now, at, "name"@);
        lemma_joined_push(before, st, opened, first, now, at, "arguments"@);
        lemma_joined_push(mid, st, given, second, now, at, "name"@);
        lemma_joined_push(mid, st, given, second, now, at, "arguments"@);
        lemma_joined_push(before, st, opened, first, now, at, "id"@);
        lemma_joined_push(mid, st, given, second, now, at, "id"@);
        assert(e.id == "call_"@ + ids[n]);
        assert forall|i: int| 0 <= i < front.len() implies (#[trigger] front[i]).index < c.index by {
            assert(front[i] == calls[i]);
        }
        let name = joined_chunks(values, at, "name"@);
        let arguments = joined_chunks(values, at, "arguments"@);
        let id = joined_chunks(values, at, "id"@);
        if c.index == at {
            assert(joined_chunks(before, at, "name"@).len() == 0);
            assert(name =~= c.name);
            assert(arguments =~= c.arguments);
            assert(id =~= e.id);
        } else {
            assert(name =~= joined_chunks(before, at, "name"@));
            assert(arguments =~= joined_chunks(before, at, "arguments"@));
            assert(id =~= joined_chunks(before, at, "id"@));
        }
        assert forall|i: int| 0 <= i < calls.len() && (#[trigger] calls[i]).index == at implies name
            == calls[i].name && arguments == calls[i].arguments && id == "call_"@ + ids[i] by {
            if i < n {
                assert(front[i] == calls[i]);
                assert(front_ids[i] == ids[i]);
            }
        }
        if forall|i: int| 0 <= i < calls.len() ==> (#[trigger] calls[i]).index != at {
            assert forall|i: int| 0 <= i < front.len() implies (#[trigger] front[i]).index
                != at by {
                assert(front[i] == calls[i]);
            }
            assert(calls[n].index != at);
        }
    }
}

proof fn lemma_joined_untold(chunks: Seq<JsonV>, more: JsonV, at: int, k: Seq<char>)
    requires
        told_entries(more).len() == 0,
    ensures
        joined_chunks(chunks.push(more), at, k) == joined_chunks(chunks, at, k),
{
    assert(chunks.push(more).drop_last() =~= chunks);
    assert(joined_chunks(chunks.push(more), at, k) =~= joined_chunks(chunks, at, k));
}

proof fn lemma_joined_head(first: JsonV, rest: Seq<JsonV>, at: int, k: Seq<char>)
    requires
        told_entries(first).len() == 0,
    ensures
        joined_chunks(seq![first] + rest, at, k) == joined_chunks(rest, at, k),
    decreases rest.len(),
{
    if rest.len() == 0 {
        assert(seq![first] + rest =~= Seq::empty().push(first));
        lemma_joined_untold(Seq::empty(), first, at, k);
        assert(rest =~= Seq::empty());
    } else {
        assert((seq![first] + rest).drop_last() =~= seq![first] + rest.drop_last());
        lemma_joined_head(first, rest.drop_last(), at, k);
    }
}

/// Whether a client of chat completions that puts the chunks `chunks` together gets
/// the calls `calls`: at each call's position its name, its arguments and an
/// identifier, and at no other position anything; as the assistant, to the end that tools are called.
pub open spec fn chunks_tell_calls(chunks: Seq<JsonV>, calls: Seq<tool_calls::CallV>) -> bool {
    &&& forall|i: int|
        0 <= i < calls.len() ==> joined_chunks(
            chunks,
            (#[trigger] calls[i]).index,
            "name"@,
        ) == calls[i].name && joined_chunks(chunks, calls[i].index, "arguments"@)
            == calls[i].arguments && text::starts(
            joined_chunks(chunks, calls[i].index, "id"@),
            "call_"@,
        )
    &&& forall|at: int|
        (forall|i: int| 0 <= i < calls.len() ==> (#[trigger] calls[i]).index != at)
            ==> #[trigger] joined_chunks(chunks, at, "name"@).len() == 0 && joined_chunks(
            chunks,
            at,
            "arguments"@,
        ).len() == 0
    &&& chunks.len() >= 2
    &&& chunk_says(chunks[0], "role"@, JsonV::Str("assistant"@))
    &&& chunk_ends(chunks.last(), "tool_calls"@)
}

/// Whether the delta of a chunk's first choice has `v` under `k`.
pub open spec fn chunk_says(chunk: JsonV, k: Seq<char>, v: JsonV) -> bool {
    json::field(chunk, "choices"@) matches Some(choices) && (json::item_at(choices, 0) matches Some(
        choice,
    ) && (json::field(choice, "delta"@) matches Some(delta) && json::field(delta, k) == Some(v)))
}

/// Whether a chunk's first choice ends for the reason `why`.
pub open spec fn chunk_ends(chunk: JsonV, why: Seq<char>) -> bool {
    json::field(chunk, "choices"@) matches Some(choices) && (json::item_at(choices, 0) matches Some(
        choice,
    ) && json::field(choice, "finish_reason"@) == Some(JsonV::Str(why)))
}

/// Whether a client of the Responses API gets the calls `calls` from `events`: each
/// opened under its name, then given its arguments, and all of them once more in the
/// output of the response.
pub open spec fn events_tell_calls(events: Seq<JsonV>, calls: Seq<tool_calls::CallV>) -> bool {
    &&& events.len() == 2 * calls.len() + 1
    &&& forall|i: int| 0 <= i < calls.len() ==> call_is_told(events, #[trigger] calls[i], i)
    &&& json::field(events.last(), "type"@) == Some(JsonV::Str("response.completed"@))
    &&& json::field(events.last(), "response"@) matches Some(resp) && (json::arr_in(
        json::field(resp, "output"@),
    ) matches Some(output) && output.len() == calls.len())
}

/// Whether `events` tell the call `c` as their call at `i`, under some identifier.
pub open spec fn call_is_told(events: Seq<JsonV>, c: tool_calls::CallV, i: int) -> bool {
    exists|id: Seq<char>| event_tells_call(events, c, i, id)
}

/// Whether `events` tell the call `c` as their call at `i`, under `id`.
pub open spec fn event_tells_call(
    events: Seq<JsonV>,
    c: tool_calls::CallV,
    i: int,
    id: Seq<char>,
) -> bool {
    let added = events[2 * i];
    let done = events[2 * i + 1];
    &&& json::field(added, "type"@) == Some(JsonV::Str("response.output_item.added"@))
    &&& json::field(added, "output_index"@) == Some(JsonV::Int(i))
    &&& json::field(added, "item"@) matches Some(item) && json::field(item, "call_id"@) == Some(
        JsonV::Str(id),
    ) && json::field(item, "name"@) == Some(JsonV::Str(c.name))
    &&& json::field(done, "type"@) == Some(
        JsonV::Str("response.function_call_arguments.done"@),
    )
    &&& json::field(done, "call_id"@) == Some(JsonV::Str(id))
    &&& json::field(done, "name"@) == Some(JsonV::Str(c.name))
    &&& json::field(done, "arguments"@) == Some(JsonV::Str(c.arguments))
    &&& json::field(events.last(), "response"@) matches Some(resp) && (json::field(
        resp,
        "output"@,
    ) matches Some(output) && (json::item_at(output, i) matches Some(call) && response::says_call(
        call,
        id,
        c.name,
        c.arguments,
    )))
}

/// The tool calls that are sent in a stream are read back from it: whatever the
/// identifiers and the moment, a client of chat completions that puts the chunks
/// together, and a client of the Responses API that follows the events, get the calls
/// that were to be sent, each with its name and its arguments.
pub proof fn law_sent_calls_are_read_back(
    st: SseV,
    calls: Seq<tool_calls::CallV>,
    entries: JsonV,
    id: Seq<char>,
    now: u64,
)
    requires
        tool_calls::are_entries(calls, entries),
        tool_calls::positions_fit(calls),
        forall|i: int, j: int|
            0 <= i < j < calls.len() ==> (#[trigger] calls[i]).index < (#[trigger] calls[j]).index,
    ensures
        st.format == AgentResponseFormat::ChatCompletions ==> chunks_tell_calls(
            tool_call_values(st, entries, id, now),
            calls,
        ),
        st.format == AgentResponseFormat::ResponsesApi ==> events_tell_calls(
            tool_call_values(st, entries, id, now),
            calls,
        ),
{
    let ids = choose|ids: Seq<Seq<char>>|
        #![trigger tool_calls::call_ids(ids, calls.len())]
        tool_calls::call_ids(ids, calls.len()) && entries == tool_calls::call_entries(calls, ids);
    let items = entries->Arr_0;
    if st.format == AgentResponseFormat::ChatCompletions {
        let role = JsonV::Obj(map!["role"@ => JsonV::Str("assistant"@)]);
        let first = choice_value(st, role, JsonV::Null, now);
        let end = JsonV::Obj(Map::empty());
        let last = choice_value(st, end, JsonV::Str("tool_calls"@), now);
        lemma_choice_value(st, role, JsonV::Null, now);
        lemma_choice_value(st, end, JsonV::Str("tool_calls"@), now);
        assert("role"@ != "tool_calls"@) by {
            reveal_strlit("role");
            reveal_strlit("tool_calls");
            assert("role"@.len() != "tool_calls"@.len());
        }
        let middle = call_values(st, items, now);
        let chunks = chat_call_values(st, items, now);
        assert forall|at: int, k: Seq<char>| #[trigger]
            joined_chunks(chunks, at, k) == joined_chunks(middle, at, k) by {
            lemma_joined_untold(seq![first] + middle, last, at, k);
            lemma_joined_head(first, middle, at, k);
        }
        assert forall|i: int| 0 <= i < calls.len() implies joined_chunks(
            chunks,
            (#[trigger] calls[i]).index,
            "name"@,
        ) == calls[i].name && joined_chunks(chunks, calls[i].index, "arguments"@)
            == calls[i].arguments && text::starts(
            joined_chunks(chunks, calls[i].index, "id"@),
            "call_"@,
        ) by {
            lemma_call_values_tell(st, calls, ids, now, calls[i].index);
            text::law_prefix_is_taken_off("call_"@, ids[i], ids[i]);
        }
        assert forall|at: int|
            (forall|i: int|
                0 <= i < calls.len() ==> (#[trigger] calls[i]).index != at) implies #[trigger] joined_chunks(
            chunks,
            at,
            "name"@,
        ).len() == 0 && joined_chunks(chunks, at, "arguments"@).len() == 0 by {
            lemma_call_values_tell(st, calls, ids, now, at);
        }
    } else {
        lemma_events_tell(calls, ids, id);
    }
}

proof fn lemma_event_fields(i: int, e: EntryV)
    ensures
        json::field(item_added(i, e), "type"@) == Some(
            JsonV::Str("response.output_item.added"@),
        ),
        json::field(item_added(i, e), "output_index"@) == Some(JsonV::Int(i)),
        json::field(item_added(i, e), "item"@) matches Some(item) && json::field(item, "call_id"@)
            == Some(JsonV::Str(e.id)) && json::field(item, "name"@) == Some(JsonV::Str(e.name)),
        json::field(arguments_done(e), "type"@) == Some(
            JsonV::Str("response.function_call_arguments.done"@),
        ),
        json::field(arguments_done(e), "call_id"@) == Some(JsonV::Str(e.id)),
        json::field(arguments_done(e), "name"@) == Some(JsonV::Str(e.name)),
        json::field(arguments_done(e), "arguments"@) == Some(JsonV::Str(e.arguments)),
        response::says_call(response::function_call_item(e), e.id, e.name, e.arguments),
{
    reveal_strlit("type");
    reveal_strlit("output_index");
    reveal_strlit("item");
    reveal_strlit("call_id");
    reveal_strlit("name");
    reveal_strlit("arguments");
    reveal_strlit("status");
    assert("type"@.len() == 4 && "output_index"@.len() == 12 && "item"@.len() == 4
        && "call_id"@.len() == 7 && "name"@.len() == 4 && "arguments"@.len() == 9 && "status"@.len()
        == 6);
    assert("item"@[0] == 'i' && "type"@[0] == 't' && "name"@[0] == 'n');
}

proof fn lemma_completed_fields(calls: Seq<JsonV>, id: Seq<char>)
    ensures
        json::field(response_completed(calls, id), "type"@) == Some(
            JsonV::Str("response.completed"@),
        ),
        json::field(response_completed(calls, id), "response"@) matches Some(resp) && json::field(
            resp,
            "output"@,
        ) == Some(
            JsonV::Arr(
                calls.map_values(
                    |tc: JsonV| response::function_call_item(response::entry_of(tc)),
                ),
            ),
        ),
{
    reveal_strlit("type");
    reveal_strlit("response");
    reveal_strlit("id");
    reveal_strlit("object");
    reveal_strlit("status");
    reveal_strlit("output");
    assert("type"@.len() == 4 && "response"@.len() == 8 && "id"@.len() == 2 && "object"@.len() == 6
        && "status"@.len() == 6 && "output"@.len() == 6);
    assert("object"@[1] == 'b' && "status"@[1] == 't' && "output"@[1] == 'u');
}

proof fn lemma_item_values(calls: Seq<JsonV>)
    ensures
        item_values(calls).len() == 2 * calls.len(),
        forall|i: int|
            #![trigger calls[i]]
            0 <= i < calls.len() ==> item_values(calls)[2 * i] == item_added(
                i,
                response::entry_of(calls[i]),
            ) && item_values(calls)[2 * i + 1] == arguments_done(response::entry_of(calls[i])),
    decreases calls.len(),
{
    if calls.len() > 0 {
        let front = calls.drop_last();
        lemma_item_values(front);
        let values = item_values(calls);
        assert forall|i: int|
            #![trigger calls[i]]
            0 <= i < calls.len() implies values[2 * i] == item_added(
            i,
            response::entry_of(calls[i]),
        ) && values[2 * i + 1] == arguments_done(response::entry_of(calls[i])) by {
            if i < front.len() {
                assert(front[i] == calls[i]);
                assert(values[2 * i] == item_values(front)[2 * i]);
                assert(values[2 * i + 1] == item_values(front)[2 * i + 1]);
            }
        }
    }
}

proof fn lemma_events_tell(
    calls: Seq<tool_calls::CallV>,
    ids: Seq<Seq<char>>,
    id: Seq<char>,
)
    requires
        calls.len() == ids.len(),
    ensures
        ({
            let items = tool_calls::call_entries(calls, ids)->Arr_0;
            events_tell_calls(item_values(items).push(response_completed(items, id)), calls)
        }),
{
    let items = tool_calls::call_entries(calls, ids)->Arr_0;
    let events = item_values(items).push(response_completed(items, id));
    lemma_item_values(items);
    lemma_completed_fields(items, id);
    assert forall|i: int| 0 <= i < calls.len() implies call_is_told(
        events,
        #[trigger] calls[i],
        i,
    ) by {
        let tc = items[i];
        let e = response::entry_of(tc);
        tool_calls::lemma_call_entry(calls[i], ids[i]);
        assert(tc == tool_calls::call_entry(calls[i], ids[i]));
        lemma_event_fields(i, e);
        assert(events[2 * i] == item_values(items)[2 * i]);
        assert(events[2 * i + 1] == item_values(items)[2 * i + 1]);
        assert(event_tells_call(events, calls[i], i, e.id));
    }
}

/// The text that a stream holds back reaches the client as the calls that it writes:
/// a client reads the lines that are sent, each behind `data: `, and gets from them
/// the calls of the text, each with its name and arguments. What the calls say stands
/// in the text. Held-back text that writes no call comes to nothing but the end.
pub proof fn law_held_calls_are_read_back(st: SseV, after: SseV, lines: Seq<Seq<char>>)
    requires
        completes(st, after, lines),
    ensures
        tool_calls::calls_in_text(st.accumulated) matches Some(calls) ==> tool_calls::written_in(
            st.accumulated,
            calls,
        ) && exists|values: Seq<JsonV>| #[trigger]
            lines_say(lines, values) && (match st.format {
                AgentResponseFormat::ChatCompletions => chunks_tell_calls(values, calls),
                AgentResponseFormat::ResponsesApi => events_tell_calls(values, calls),
            }),
        tool_calls::calls_in_text(st.accumulated) is None ==> lines.len() == 1 && exists|v: JsonV|
            #[trigger]
            line_says(lines[0], v) && chunk_ends(v, "stop"@) && chunk_says(
                v,
                "content"@,
                JsonV::Null,
            ),
        after.accumulated.len() == 0,
        !after.suppress,
        after.summary matches Some(s) && s.rewrote_text_tool_call == (tool_calls::calls_in_text(
            st.accumulated,
        ) is Some) && s.had_structured_tool_calls == s.rewrote_text_tool_call && s.content_preview
            == Some(text::preview(st.accumulated, response::PREVIEW_BYTES as int)),
        after.format == st.format,
        after.id == st.id,
        after.model == st.model,
        after.created == st.created,
{
    let (entries, id, now) = choose|entries: Option<JsonV>, id: Seq<char>, now: u64|
        #![trigger completed(st, entries, id, now)]
        calls_for(st.accumulated, entries) && outside::is_simple_uuid(id) && (after, lines)
            == completed(st, entries, id, now) && lines_say(
            lines,
            completed_values(st, entries, id, now),
        );
    let values = completed_values(st, entries, id, now);
    match tool_calls::calls_in_text(st.accumulated) {
        Some(calls) => {
            tool_calls::lemma_positions_ascend(st.accumulated);
            law_sent_calls_are_read_back(st, calls, entries->0, id, now);
            assert(lines_say(lines, values));
        },
        None => {
            let nothing = JsonV::Obj(map!["content"@ => JsonV::Null]);
            lemma_choice_value(st, nothing, JsonV::Str("stop"@), now);
            assert(line_says(lines[0], values[0]));
        },
    }
}

proof fn lemma_data_line_words()
    ensures
        "data: "@ == "data:"@ + seq![' '],
        "data:"@.len() == 5,
        "data:"@[0] == 'd',
        "[DONE]"@[0] == '[',
        "[DONE]"@.len() == 6,
{
    reveal_strlit("data: ");
    reveal_strlit("data:");
    reveal_strlit("[DONE]");
    assert("data: "@ =~= "data:"@ + seq![' ']);
}

proof fn lemma_data_line_of(space: Seq<char>, t: Seq<char>)
    requires
        text::is_blank(space),
        text::is_tight(t),
        t != "[DONE]"@,
    ensures
        data_line("data:"@ + (space + t)) == Some("data: "@ + t),
{
    lemma_data_line_words();
    let none = Seq::<char>::empty();
    let line = "data:"@ + (space + t);
    assert(line[0] == 'd');
    assert(line.last() == t.last());
    text::lemma_tight_stays(line);
    text::law_prefix_is_taken_off("data:"@, space + t, none);
    text::law_trimming_takes_off_space(space, t, none);
    assert(space + t + none =~= space + t);
    assert(line[0] != "[DONE]"@[0]);
}

proof fn lemma_data_payload_of(t: Seq<char>)
    requires
        text::is_tight(t),
    ensures
        data_payload("data: "@ + t) == t,
{
    lemma_data_line_words();
    let none = Seq::<char>::empty();
    let space = seq![' '];
    let line = "data: "@ + t;
    assert(line =~= "data:"@ + (space + t));
    assert((space + t)[0] == ' ');
    assert(!text::starts(space + t, "data:"@)) by {
        if text::starts(space + t, "data:"@) {
            assert((space + t).subrange(0, 5)[0] == ' ');
        }
    }
    text::lemma_stripped("data:"@, space + t, "data:"@);
    text::law_trimming_takes_off_space(space, t, none);
    assert(space + t + none =~= space + t);
}

/// A data line counts for the chunk that it carries, with or without a space behind
/// the colon; where it carries no JSON, it is sent as it came.
pub proof fn law_data_line_counts_for_its_chunk(st: SseV, t: Seq<char>, chunk: JsonV)
    requires
        text::is_tight(t),
        t != "[DONE]"@,
    ensures
        json::reads_as(t, chunk) ==> line_step(st, "data: "@ + t) == chunk_step(
            with_meta(st, chunk),
            "data: "@ + t,
            chunk,
        ) && line_step(st, "data:"@ + t) == chunk_step(with_meta(st, chunk), "data: "@ + t, chunk),
        json::json_parse(t) is None ==> line_step(st, "data: "@ + t) == Step::Forward(
            st,
            seq!["data: "@ + t],
        ),
{
    lemma_data_line_words();
    let none = Seq::<char>::empty();
    lemma_data_line_of(seq![' '], t);
    lemma_data_line_of(none, t);
    lemma_data_payload_of(t);
    assert("data: "@ + t =~= "data:"@ + (seq![' '] + t));
    assert(none + t =~= t);
}

/// A line that is neither data nor a chunk is sent as it came, and so is a blank one.
pub proof fn law_other_line_is_sent_on(st: SseV, line: Seq<char>)
    requires
        !text::starts(text::trimmed(line), "data:"@),
        !text::starts(text::trimmed(line), "{"@),
        text::trimmed(line) != "[DONE]"@,
    ensures
        line_step(st, line) == Step::Forward(st, seq![line]),
{
}

/// No text of a stream is lost or sent twice: what a chunk says is sent or held back,
/// its front and its rest. Text is held back from the first brace on, and everything
/// after that; what stands before it is sent, in a chunk that says it and is otherwise
/// the one that came. Text without a brace is sent as it came while nothing is held
/// back.
pub proof fn law_text_is_sent_or_held(
    st: SseV,
    normalized: Seq<char>,
    chunk: JsonV,
    choices: Seq<JsonV>,
    delta: JsonV,
    piece: Seq<char>,
)
    requires
        json::field(chunk, "choices"@) == Some(JsonV::Arr(choices)),
        choices.len() > 0,
        json::field(choices[0], "delta"@) == Some(delta),
        json::field(delta, "tool_calls"@) is None,
        json::field(delta, "content"@) == Some(JsonV::Str(piece)),
        piece.len() > 0,
    ensures
        chunk_step(st, normalized, chunk) matches Step::Forward(after, lines) && exists|n: int|
            #[trigger]
            piece_is_split(st, normalized, chunk, piece, n, after, lines),
{
    assert(response::first_choice(chunk) == Some(choices[0]));
    if st.suppress {
        assert(piece.skip(0) =~= piece);
        assert(piece.take(0) =~= Seq::empty());
        let step = chunk_step(st, normalized, chunk);
        assert(piece_is_split(st, normalized, chunk, piece, 0, step->Forward_0, step->Forward_1));
    } else if text::starts(text::trim_start(piece), "{"@) {
        assert(piece.skip(0) =~= piece);
        assert(piece.take(0) =~= Seq::empty());
        let step = chunk_step(st, normalized, chunk);
        assert(piece_is_split(st, normalized, chunk, piece, 0, step->Forward_0, step->Forward_1));
    } else {
        text::lemma_char_index(piece, '{');
        let step = chunk_step(st, normalized, chunk);
        match text::char_index(piece, '{') {
            Some(i) => {
                lemma_brace(piece, i);
                lemma_split_chunk(chunk, choices, piece.take(i));
                assert(!piece.take(i).contains('{')) by {
                    if piece.take(i).contains('{') {
                        let k = choose|k: int| 0 <= k < i && piece.take(i)[k] == '{';
                        assert(piece[k] == '{');
                    }
                }
                assert(piece_is_split(
                    st,
                    normalized,
                    chunk,
                    piece,
                    i,
                    step->Forward_0,
                    step->Forward_1,
                ));
            },
            None => {
                let n = piece.len() as int;
                assert(piece.skip(n) =~= Seq::empty());
                assert(piece.take(n) =~= piece);
                assert(st.accumulated + piece.skip(n) =~= st.accumulated);
                assert(piece_is_split(
                    st,
                    normalized,
                    chunk,
                    piece,
                    n,
                    step->Forward_0,
                    step->Forward_1,
                ));
            },
        }
    }
}

proof fn lemma_brace(piece: Seq<char>, i: int)
    requires
        0 <= i < piece.len(),
        piece[i] == '{',
        !text::starts(text::trim_start(piece), "{"@),
    ensures
        i > 0,
        text::starts(text::trim_start(piece.skip(i)), "{"@),
{
    reveal_strlit("{");
    let rest = piece.skip(i);
    assert(!text::is_space(rest[0]));
    assert(text::trim_start(rest) == rest);
    assert(rest.subrange(0, 1) =~= "{"@);
    if i == 0 {
        assert(rest =~= piece);
    }
}

proof fn lemma_split_chunk(chunk: JsonV, choices: Seq<JsonV>, front: Seq<char>)
    requires
        json::field(chunk, "choices"@) == Some(JsonV::Arr(choices)),
        choices.len() > 0,
        json::field(choices[0], "delta"@) is Some,
    ensures
        says_front(
            chunk,
            response::with_first_choice(
                chunk,
                json::with_field(
                    choices[0],
                    "delta"@,
                    JsonV::Obj(map!["content"@ => JsonV::Str(front)]),
                ),
            ),
            front,
        ),
{
}

/// Whether `sent` is `chunk` with `front` as its text.
pub open spec fn says_front(chunk: JsonV, sent: JsonV, front: Seq<char>) -> bool {
    &&& chunk_says(sent, "content"@, JsonV::Str(front))
    &&& forall|k: Seq<char>|
        k != "choices"@ ==> #[trigger] json::field(sent, k) == json::field(chunk, k)
}

/// Whether the first `n` characters of `piece` are sent, in `lines`, and the rest is
/// held back, in `after`.
pub open spec fn piece_is_split(
    st: SseV,
    normalized: Seq<char>,
    chunk: JsonV,
    piece: Seq<char>,
    n: int,
    after: SseV,
    lines: Seq<Seq<char>>,
) -> bool {
    &&& 0 <= n <= piece.len()
    &&& after == (SseV {
        accumulated: st.accumulated + piece.skip(n),
        suppress: st.suppress || n < piece.len(),
        ..st
    })
    &&& st.suppress ==> n == 0
    &&& !piece.take(n).contains('{')
    &&& n < piece.len() && !st.suppress ==> text::starts(text::trim_start(piece.skip(n)), "{"@)
    &&& n == 0 ==> lines.len() == 0
    &&& n == piece.len() ==> lines == seq![normalized]
    &&& 0 < n < piece.len() ==> lines.len() == 1 && exists|v: JsonV|
        lines[0] == "data: "@ + #[trigger] json::json_print(v) && says_front(chunk, v, piece.take(n))
}

/// Where a chunk says that the answer has come to its end, and says nothing else, the
/// text held back is completed; while none is held back, the chunk is sent as it came.
pub proof fn law_end_completes_what_is_held(
    st: SseV,
    normalized: Seq<char>,
    chunk: JsonV,
    choices: Seq<JsonV>,
)
    requires
        json::field(chunk, "choices"@) == Some(JsonV::Arr(choices)),
        choices.len() > 0,
        json::field(choices[0], "finish_reason"@) == Some(JsonV::Str("stop"@)) || json::field(
            choices[0],
            "finish_reason"@,
        ) == Some(JsonV::Str("length"@)),
        json::field(choices[0], "delta"@) matches Some(delta) ==> (json::field(delta, "content"@)
            is None || json::field(delta, "content"@) == Some(JsonV::Null) || json::field(
            delta,
            "content"@,
        ) == Some(JsonV::Str(Seq::empty()))) && json::field(delta, "tool_calls"@) is None,
    ensures
        st.suppress ==> chunk_step(st, normalized, chunk) == Step::Complete(st),
        !st.suppress ==> chunk_step(st, normalized, chunk) == Step::Forward(st, seq![normalized]),
{
    assert(response::first_choice(chunk) == Some(choices[0]));
}

/// Tool calls that the model itself tells are sent on, and the text held back stays.
pub proof fn law_told_calls_are_sent_on(
    st: SseV,
    normalized: Seq<char>,
    chunk: JsonV,
    choices: Seq<JsonV>,
    delta: JsonV,
    calls: Seq<JsonV>,
)
    requires
        json::field(chunk, "choices"@) == Some(JsonV::Arr(choices)),
        choices.len() > 0,
        json::field(choices[0], "delta"@) == Some(delta),
        json::field(delta, "tool_calls"@) == Some(JsonV::Arr(calls)),
        calls.len() > 0,
    ensures
        chunk_step(st, normalized, chunk) matches Step::Forward(after, lines) && lines == seq![
            "data: "@ + json::json_print(chunk),
        ] && after == (SseV { summary: after.summary, ..st }) && (after.summary matches Some(s)
            && s.had_structured_tool_calls && !s.rewrote_text_tool_call),
{
    assert(response::first_choice(chunk) == Some(choices[0]));
}

/// What is sent of a stream carries the identifier, the model and the time that the
/// stream's first chunk gave, however many chunks follow.
pub proof fn law_stream_keeps_its_identity(
    format: AgentResponseFormat,
    first: JsonV,
    later: JsonV,
    id: Seq<char>,
    model: Seq<char>,
    created: u64,
    delta: JsonV,
    finish: JsonV,
    now: u64,
)
    requires
        json::field(first, "id"@) == Some(JsonV::Str(id)),
        json::field(first, "model"@) == Some(JsonV::Str(model)),
        json::field(first, "created"@) == Some(JsonV::Int(created as int)),
    ensures
        ({
            let st = with_meta(with_meta(fresh(format), first), later);
            let sent = choice_value(st, delta, finish, now);
            &&& json::field(sent, "id"@) == Some(JsonV::Str(id))
            &&& json::field(sent, "model"@) == Some(JsonV::Str(model))
            &&& json::field(sent, "created"@) == Some(JsonV::Int(created as int))
            &&& json::field(sent, "object"@) == Some(JsonV::Str("chat.completion.chunk"@))
        }),
{
    let st = with_meta(with_meta(fresh(format), first), later);
    lemma_choice_value(st, delta, finish, now);
}

/// A stream begins with nothing held back and nothing known of it.
pub proof fn law_fresh_stream_holds_nothing(format: AgentResponseFormat)
    ensures
        fresh(format).accumulated.len() == 0,
        !fresh(format).suppress,
        !holds_text(fresh(format)),
        fresh(format).summary is None,
        fresh(format).format == format,
        fresh(format).id is None,
{
}

/// A chunk that neither says anything nor ends the answer is sent as it came, whatever is
/// held back, and so is one without choices.
pub proof fn law_silent_chunk_is_sent_on(
    st: SseV,
    normalized: Seq<char>,
    chunk: JsonV,
    choices: Seq<JsonV>,
)
    requires
        json::field(chunk, "choices"@) == Some(JsonV::Arr(choices)),
        choices.len() == 0 || ((json::field(choices[0], "finish_reason"@) is None || json::field(
            choices[0],
            "finish_reason"@,
        ) == Some(JsonV::Null)) && (json::field(choices[0], "delta"@) matches Some(delta)
            ==> json::field(delta, "content"@) is None && json::field(delta, "tool_calls"@) is None)),
    ensures
        chunk_step(st, normalized, chunk) == Step::Forward(st, seq![normalized]),
{
}

} // verus!
