//! Tool calls that a model wrote as text.

use crate::json;
use crate::json::{Json, JsonV};
use crate::outside;
use crate::text;
use vstd::prelude::*;

verus! {

/// A tool call: its position among the calls, the tool and its arguments.
#[derive(Debug, PartialEq, Eq)]
pub struct ToolCall {
    pub index: usize,
    pub name: String,
    pub arguments: String,
}

/// What a [`ToolCall`] means.
pub struct CallV {
    pub index: int,
    pub name: Seq<char>,
    pub arguments: Seq<char>,
}

impl View for ToolCall {
    type V = CallV;

    open spec fn view(&self) -> CallV {
        CallV { index: self.index as int, name: self.name@, arguments: self.arguments@ }
    }
}

/// What a list of calls means.
pub open spec fn calls_view(v: Seq<ToolCall>) -> Seq<CallV> {
    v.map_values(|c: ToolCall| c@)
}

/// What an optional list of calls means.
pub open spec fn opt_calls(o: Option<Vec<ToolCall>>) -> Option<Seq<CallV>> {
    match o {
        Some(v) => Some(calls_view(v@)),
        None => None,
    }
}

/// Arguments as text: a text is itself, anything else is printed.
pub open spec fn arguments_text(args: JsonV) -> Seq<char> {
    match args {
        JsonV::Str(s) => s,
        other => json::json_print(other),
    }
}

/// The call that an object with a `name` stands for.
pub open spec fn call_of(j: JsonV, index: int) -> Option<CallV> {
    match json::str_field(j, "name"@) {
        Some(name) => Some(
            CallV {
                index,
                name,
                arguments: arguments_text(
                    match json::field(j, "arguments"@) {
                        Some(a) => a,
                        None => JsonV::Obj(Map::empty()),
                    },
                ),
            },
        ),
        None => None,
    }
}

/// The calls among the first items of an array, each with its position.
pub open spec fn calls_in_items(items: Seq<JsonV>) -> Seq<CallV>
    decreases items.len(),
{
    if items.len() == 0 {
        Seq::empty()
    } else {
        match call_of(items.last(), items.len() - 1) {
            Some(c) => calls_in_items(items.drop_last()).push(c),
            None => calls_in_items(items.drop_last()),
        }
    }
}

/// The calls that a value stands for: one object, or an array that holds at
/// least one.
pub open spec fn calls_of(v: JsonV) -> Option<Seq<CallV>> {
    match v {
        JsonV::Arr(items) => if calls_in_items(items).len() == 0 {
            None
        } else {
            Some(calls_in_items(items))
        },
        _ => match call_of(v, 0) {
            Some(c) => Some(seq![c]),
            None => None,
        },
    }
}

/// Whether `t` tells the arguments that the object `j` gives: a text is told as it
/// is, and of anything else, where its text reads back, a text that reads as it.
/// An object without arguments tells an empty object.
pub open spec fn tells_arguments(j: JsonV, t: Seq<char>) -> bool {
    match json::field(j, "arguments"@) {
        Some(JsonV::Str(s)) => t == s,
        Some(a) => json::is_plain(a, 127) ==> json::reads_as(t, a),
        None => json::reads_as(t, JsonV::Obj(Map::empty())),
    }
}

/// The object that the call `c` stands for: the item of an array at the call's
/// position, or the object itself.
pub open spec fn written_object(v: JsonV, c: CallV) -> JsonV {
    match v {
        JsonV::Arr(items) => items[c.index],
        _ => v,
    }
}

/// Whether the calls `calls` tell the arguments of the objects that they stand for
/// in `v`.
pub open spec fn tell_arguments(v: JsonV, calls: Seq<CallV>) -> bool {
    forall|i: int|
        0 <= i < calls.len() ==> tells_arguments(
            written_object(v, #[trigger] calls[i]),
            calls[i].arguments,
        )
}

/// Whether the positions of calls fit in 64 bits.
pub open spec fn positions_fit(calls: Seq<CallV>) -> bool {
    forall|i: int| 0 <= i < calls.len() ==> 0 <= (#[trigger] calls[i]).index <= u64::MAX
}

/// Whether `content` writes, in a piece of its own, a value that stands for
/// `calls` and whose arguments the calls tell.
pub open spec fn written_in(content: Seq<char>, calls: Seq<CallV>) -> bool {
    exists|p: Seq<char>, v: JsonV|
        #![trigger text::has(content, p), json::reads_as(p, v)]
        text::has(content, p) && json::reads_as(p, v) && calls_of(v) == Some(calls)
            && tell_arguments(v, calls)
}

fn args_text(args: &Json) -> (r: String)
    ensures
        r@ == arguments_text(args@),
        args@ !is Str && json::is_plain(args@, 127) ==> json::reads_as(r@, args@),
{
    match args {
        Json::Str(s) => text::copy(s),
        other => json::print(other),
    }
}

fn read_call(j: &Json, index: usize) -> (r: Option<ToolCall>)
    ensures
        match r {
            Some(c) => call_of(j@, index as int) == Some(c@) && tells_arguments(j@, c.arguments@),
            None => call_of(j@, index as int) is None,
        },
{
    match j.get_str("name") {
        Some(name) => {
            let arguments = match j.get("arguments") {
                Some(a) => args_text(a),
                None => {
                    let none = json::object();
                    assert(json::is_plain(none@, 127));
                    args_text(&none)
                },
            };
            Some(ToolCall { index, name: text::copy(name), arguments })
        },
        None => None,
    }
}

/// The calls that a value stands for.
pub fn value_to_calls(v: &Json) -> (r: Option<Vec<ToolCall>>)
    ensures
        opt_calls(r) == calls_of(v@),
        r matches Some(calls) ==> tell_arguments(v@, calls_view(calls@)) && positions_fit(
            calls_view(calls@),
        ),
{
    let mut out: Vec<ToolCall> = Vec::new();
    if let Json::Array(items) = v {
        let ghost iv = json::items_view(items@);
        assert(calls_view(out@) =~= calls_in_items(iv.take(0)));
        for i in 0..items.len()
            invariant
                iv == json::items_view(items@),
                calls_view(out@) == calls_in_items(iv.take(i as int)),
                forall|k: int|
                    0 <= k < out@.len() ==> (#[trigger] out@[k]).index < i && tells_arguments(
                        iv[out@[k].index as int],
                        out@[k].arguments@,
                    ),
        {
            assert(iv.take(i as int + 1).drop_last() =~= iv.take(i as int));
            assert(iv.take(i as int + 1).last() == items@[i as int]@);
            if let Some(c) = read_call(&items[i], i) {
                let ghost o = out@;
                out.push(c);
                assert(calls_view(out@) =~= calls_view(o).push(c@));
            }
        }
        assert(iv.take(iv.len() as int) =~= iv);
        if out.len() == 0 {
            return None;
        }
        proof {
            let calls = calls_view(out@);
            assert(v@ == JsonV::Arr(iv));
            assert forall|k: int| 0 <= k < calls.len() implies tells_arguments(
                written_object(v@, #[trigger] calls[k]),
                calls[k].arguments,
            ) && 0 <= calls[k].index <= u64::MAX by {
                assert(calls[k] == out@[k]@);
            }
        }
        return Some(out);
    }
    match read_call(v, 0) {
        Some(c) => {
            out.push(c);
            assert(calls_view(out@) =~= seq![c@]);
            Some(out)
        },
        None => None,
    }
}

/// Where a reader of JSON stands after some text: how many objects are open,
/// and whether it is inside a string or just behind a backslash there.
pub struct Scan {
    pub depth: int,
    pub in_string: bool,
    pub escape: bool,
}

/// Where a reader stands after `s`.
pub open spec fn scan(s: Seq<char>) -> Scan
    decreases s.len(),
{
    if s.len() == 0 {
        Scan { depth: 0, in_string: false, escape: false }
    } else {
        let p = scan(s.drop_last());
        let c = s.last();
        if p.in_string {
            Scan {
                depth: p.depth,
                in_string: p.escape || c != '"',
                escape: !p.escape && c == '\\',
            }
        } else {
            Scan {
                depth: if c == '{' {
                    p.depth + 1
                } else if c == '}' {
                    p.depth - 1
                } else {
                    p.depth
                },
                in_string: c == '"',
                escape: false,
            }
        }
    }
}

/// Whether the character at `i` closes the object that `s` opened first.
pub open spec fn closes_at(s: Seq<char>, i: int) -> bool {
    0 <= i < s.len() && s[i] == '}' && !scan(s.take(i)).in_string && scan(s.take(i)).depth == 1
}

/// The first position from `from` on that closes the object that `s` opened.
pub open spec fn close_index(s: Seq<char>, from: int) -> Option<int>
    decreases s.len() - from,
{
    if from < 0 || from >= s.len() {
        None
    } else if closes_at(s, from) {
        Some(from)
    } else {
        close_index(s, from + 1)
    }
}

/// The text of the JSON object at the front of `s`, white space apart, up to
/// its closing brace.
pub open spec fn balanced_prefix(s: Seq<char>) -> Option<Seq<char>> {
    let t = text::trim_start(s);
    if t.len() > 0 && t[0] == '{' {
        match close_index(t, 0) {
            Some(e) => Some(t.take(e + 1)),
            None => None,
        }
    } else {
        None
    }
}

/// The text of the JSON object at the front of `s`, white space apart.
pub fn extract_balanced_json_object(s: &str) -> (r: Option<String>)
    ensures
        text::opt_view(r) == balanced_prefix(s@),
{
    let t = text::trim_front(s);
    let cs = text::chars_of(&t);
    if cs.len() == 0 || cs[0] != '{' {
        return None;
    }
    let mut depth: usize = 0;
    let mut in_string = false;
    let mut escape = false;
    let mut i: usize = 0;
    while i < cs.len()
        invariant
            cs@ == t@,
            t@ == text::trim_start(s@),
            t@.len() > 0,
            t@[0] == '{',
            i <= cs.len(),
            depth <= i,
            i > 0 ==> depth >= 1,
            scan(t@.take(i as int)) == (Scan { depth: depth as int, in_string, escape }),
            close_index(t@, 0) == close_index(t@, i as int),
        decreases cs.len() - i,
    {
        let c = cs[i];
        assert(t@.take(i as int + 1).drop_last() =~= t@.take(i as int));
        assert(t@.take(i as int + 1).last() == c);
        if in_string {
            if escape {
                escape = false;
            } else if c == '\\' {
                escape = true;
            } else if c == '"' {
                in_string = false;
            }
        } else if c == '"' {
            in_string = true;
        } else if c == '{' {
            depth += 1;
        } else if c == '}' {
            if depth == 1 {
                assert(closes_at(t@, i as int));
                return Some(text::take(&t, i + 1));
            }
            depth -= 1;
        }
        i += 1;
    }
    None
}

/// The calls that `raw` writes as JSON, all of it or the object at its front.
pub open spec fn calls_in_json(raw: Seq<char>) -> Option<Seq<CallV>> {
    let whole = match json::json_parse(raw) {
        Some(v) => calls_of(v),
        None => None,
    };
    if whole is Some {
        whole
    } else {
        match balanced_prefix(raw) {
            Some(p) => match json::json_parse(p) {
                Some(v) => calls_of(v),
                None => None,
            },
            None => None,
        }
    }
}

fn parse_tool_calls_json(raw: &str) -> (r: Option<Vec<ToolCall>>)
    ensures
        opt_calls(r) == calls_in_json(raw@),
        r matches Some(calls) ==> written_in(raw@, calls_view(calls@)) && positions_fit(
            calls_view(calls@),
        ),
{
    if let Some(v) = json::parse(raw) {
        let calls = value_to_calls(&v);
        if calls.is_some() {
            proof {
                text::lemma_has_itself(raw@);
                assert(json::reads_as(raw@, v@));
            }
            return calls;
        }
    }
    match extract_balanced_json_object(raw) {
        Some(p) => match json::parse(&p) {
            Some(v) => {
                proof {
                    lemma_balanced_prefix_stands(raw@);
                    assert(json::reads_as(p@, v@));
                }
                value_to_calls(&v)
            },
            None => None,
        },
        None => None,
    }
}

proof fn lemma_close_index(s: Seq<char>, from: int)
    ensures
        match close_index(s, from) {
            Some(e) => from <= e < s.len() && closes_at(s, e) && forall|j: int|
                from <= j < e ==> !(#[trigger] closes_at(s, j)),
            None => from >= 0 ==> forall|j: int| from <= j ==> !(#[trigger] closes_at(s, j)),
        },
    decreases s.len() - from,
{
    if 0 <= from < s.len() && !closes_at(s, from) {
        lemma_close_index(s, from + 1);
    }
}

proof fn lemma_balanced_prefix_stands(s: Seq<char>)
    ensures
        balanced_prefix(s) matches Some(p) ==> text::has(s, p),
{
    let t = text::trim_start(s);
    text::lemma_trim_start_is_suffix(s);
    lemma_close_index(t, 0);
    if let Some(p) = balanced_prefix(s) {
        let k = s.len() - t.len();
        assert(s.subrange(k, k + p.len()) =~= p);
        assert(text::match_at(s, p, k));
    }
}

proof fn lemma_written_in_part(content: Seq<char>, part: Seq<char>, calls: Seq<CallV>)
    requires
        text::has(content, part),
        written_in(part, calls),
    ensures
        written_in(content, calls),
{
    let (p, v) = choose|p: Seq<char>, v: JsonV|
        #![trigger text::has(part, p), json::reads_as(p, v)]
        text::has(part, p) && json::reads_as(p, v) && calls_of(v) == Some(calls)
            && tell_arguments(v, calls);
    text::lemma_has_chain(content, part, p);
}

/// What a Markdown fence around `s` encloses.
pub open spec fn unfenced(s: Seq<char>) -> Seq<char> {
    text::trimmed(
        text::strip_suffixes(
            text::strip_prefixes(text::strip_prefixes(s, "```json"@), "```"@),
            "```"@,
        ),
    )
}

/// The calls that `content` writes: as JSON, as JSON in a Markdown fence, or as
/// JSON behind prose.
pub open spec fn calls_in_text(content: Seq<char>) -> Option<Seq<CallV>> {
    let t = text::trimmed(content);
    if t.len() == 0 {
        None
    } else if calls_in_json(t) is Some {
        calls_in_json(t)
    } else if text::starts(t, "```"@) && calls_in_json(unfenced(t)) is Some {
        calls_in_json(unfenced(t))
    } else {
        match text::char_index(t, '{') {
            Some(i) => calls_in_json(t.skip(i)),
            None => None,
        }
    }
}

/// The calls that `content` writes.
pub fn text_content_to_calls(content: &str) -> (r: Option<Vec<ToolCall>>)
    ensures
        opt_calls(r) == calls_in_text(content@),
        r matches Some(calls) ==> written_in(content@, calls_view(calls@)) && positions_fit(
            calls_view(calls@),
        ),
{
    let t = text::trim(content);
    if t.as_str().is_empty() {
        return None;
    }
    proof {
        text::lemma_trimmed_stands(content@);
    }
    let calls = parse_tool_calls_json(&t);
    if let Some(calls) = calls {
        proof {
            lemma_written_in_part(content@, t@, calls_view(calls@));
        }
        return Some(calls);
    }
    if text::starts_with(&t, "```") {
        let inner = text::trim(
            &text::trim_end_matches(
                &text::trim_start_matches(&text::trim_start_matches(&t, "```json"), "```"),
                "```",
            ),
        );
        let fenced = parse_tool_calls_json(&inner);
        if let Some(calls) = fenced {
            proof {
                lemma_unfenced_stands(t@);
                lemma_written_in_part(t@, inner@, calls_view(calls@));
                lemma_written_in_part(content@, t@, calls_view(calls@));
            }
            return Some(calls);
        }
    }
    match text::find_char(&t, '{') {
        Some(i) => {
            let rest = text::skip(&t, i);
            let calls = parse_tool_calls_json(&rest);
            proof {
                text::lemma_skip_stands(t@, i as int);
                if let Some(found) = opt_calls(calls) {
                    lemma_written_in_part(t@, rest@, found);
                    lemma_written_in_part(content@, t@, found);
                }
            }
            calls
        },
        None => None,
    }
}

proof fn lemma_unfenced_stands(s: Seq<char>)
    ensures
        text::has(s, unfenced(s)),
{
    let a = text::strip_prefixes(s, "```json"@);
    let b = text::strip_prefixes(a, "```"@);
    let c = text::strip_suffixes(b, "```"@);
    text::lemma_stripped_stands(s, "```json"@);
    text::lemma_stripped_stands(a, "```"@);
    text::lemma_stripped_stands(b, "```"@);
    text::lemma_trimmed_stands(c);
    text::lemma_has_chain(b, c, unfenced(s));
    text::lemma_has_chain(a, b, unfenced(s));
    text::lemma_has_chain(s, a, unfenced(s));
}

/// The `tool_calls` entry of one call under the identifier `call_` and `id`.
pub open spec fn call_entry(c: CallV, id: Seq<char>) -> JsonV {
    JsonV::Obj(
        map![
            "index"@ => JsonV::Int(c.index),
            "id"@ => JsonV::Str("call_"@ + id),
            "type"@ => JsonV::Str("function"@),
            "function"@ => JsonV::Obj(map![
                "name"@ => JsonV::Str(c.name),
                "arguments"@ => JsonV::Str(c.arguments),
            ]),
        ],
    )
}

/// The `tool_calls` array of `calls`, the call at `i` under `ids[i]`.
pub open spec fn call_entries(calls: Seq<CallV>, ids: Seq<Seq<char>>) -> JsonV {
    JsonV::Arr(Seq::new(calls.len(), |i: int| call_entry(calls[i], ids[i])))
}

fn tool_call_entry(c: &ToolCall, id: &str) -> (r: Json)
    ensures
        r@ == call_entry(c@, id@),
{
    let func = json::object().with("name", json::string(&c.name)).with(
        "arguments",
        json::string(&c.arguments),
    );
    json::object().with("index", Json::UInt(c.index as u64)).with(
        "id",
        Json::Str(text::concat2("call_", id)),
    ).with("type", json::string("function")).with("function", func)
}

/// The `tool_calls` array of `calls`, the call at `i` under `ids[i]`.
pub fn tool_calls_json(calls: &Vec<ToolCall>, ids: &Vec<String>) -> (r: Json)
    requires
        ids@.len() >= calls@.len(),
    ensures
        r@ == call_entries(calls_view(calls@), text::views(ids@)),
{
    let mut out: Vec<Json> = Vec::new();
    for i in 0..calls.len()
        invariant
            ids@.len() >= calls@.len(),
            out@.len() == i,
            forall|k: int|
                0 <= k < i ==> (#[trigger] out@[k])@ == call_entry(calls@[k]@, ids@[k]@),
    {
        out.push(tool_call_entry(&calls[i], &ids[i]));
    }
    assert(json::items_view(out@) =~= call_entries(
        calls_view(calls@),
        text::views(ids@),
    )->Arr_0);
    json::array(out)
}

/// Whether `ids` are identifiers for `n` calls.
pub open spec fn call_ids(ids: Seq<Seq<char>>, n: nat) -> bool {
    ids.len() == n && forall|i: int| 0 <= i < n ==> outside::is_simple_uuid(#[trigger] ids[i])
}

/// Whether `j` is the `tool_calls` array of `calls` under some identifiers.
pub open spec fn are_entries(calls: Seq<CallV>, j: JsonV) -> bool {
    exists|ids: Seq<Seq<char>>|
        #![trigger call_ids(ids, calls.len())]
        call_ids(ids, calls.len()) && j == call_entries(calls, ids)
}

/// Identifiers for `n` calls.
pub(crate) fn new_call_ids(n: usize) -> (r: Vec<String>)
    ensures
        call_ids(text::views(r@), n as nat),
        r@.len() == n,
{
    outside::new_simple_uuids(n)
}

/// The `tool_calls` array of the calls that `content` writes, each under an
/// identifier of its own.
pub fn text_content_to_tool_calls(content: &str) -> (r: Option<Json>)
    ensures
        match calls_in_text(content@) {
            Some(calls) => r matches Some(j) && are_entries(calls, j@) && written_in(
                content@,
                calls,
            ) && positions_fit(calls),
            None => r is None,
        },
{
    match text_content_to_calls(content) {
        Some(calls) => {
            let ids = new_call_ids(calls.len());
            let j = tool_calls_json(&calls, &ids);
            assert(call_ids(text::views(ids@), calls_view(calls@).len()));
            Some(j)
        },
        None => None,
    }
}

proof fn lemma_calls_in_items(items: Seq<JsonV>)
    ensures
        ({
            let calls = calls_in_items(items);
            &&& forall|i: int|
                0 <= i < calls.len() ==> 0 <= (#[trigger] calls[i]).index < items.len()
                    && json::field(items[calls[i].index], "name"@) == Some(JsonV::Str(calls[i].name))
                    && (json::field(items[calls[i].index], "arguments"@) matches Some(JsonV::Str(a))
                    ==> calls[i].arguments == a)
            &&& forall|i: int, j: int|
                0 <= i < j < calls.len() ==> (#[trigger] calls[i]).index < (
                #[trigger] calls[j]).index
            &&& forall|k: int|
                0 <= k < items.len() && json::field(#[trigger] items[k], "name"@) is Some
                    && json::field(items[k], "name"@)->0 is Str ==> exists|i: int|
                    0 <= i < calls.len() && (#[trigger] calls[i]).index == k
        }),
    decreases items.len(),
{
    if items.len() > 0 {
        let front = items.drop_last();
        lemma_calls_in_items(front);
        let before = calls_in_items(front);
        let calls = calls_in_items(items);
        let n = items.len() - 1;
        let call = call_of(items.last(), n);
        assert forall|i: int| 0 <= i < calls.len() implies 0 <= (#[trigger] calls[i]).index
            < items.len() && json::field(items[calls[i].index], "name"@) == Some(
            JsonV::Str(calls[i].name),
        ) && (json::field(items[calls[i].index], "arguments"@) matches Some(JsonV::Str(a))
            ==> calls[i].arguments == a) && (i < before.len() ==> calls[i].index < n) by {
            if i < before.len() {
                assert(calls[i] == before[i]);
                assert(front[before[i].index] == items[before[i].index]);
            }
        }
        assert forall|i: int, j: int| 0 <= i < j < calls.len() implies (
        #[trigger] calls[i]).index < (#[trigger] calls[j]).index by {
            assert(calls[i] == before[i]);
            if j < before.len() {
                assert(calls[j] == before[j]);
            }
        }
        assert forall|k: int|
            0 <= k < items.len() && json::field(#[trigger] items[k], "name"@) is Some
                && json::field(items[k], "name"@)->0 is Str implies exists|i: int|
            0 <= i < calls.len() && (#[trigger] calls[i]).index == k by {
            if k < n {
                assert(front[k] == items[k]);
                let i = choose|i: int| 0 <= i < before.len() && (#[trigger] before[i]).index == k;
                assert(calls[i] == before[i]);
            } else {
                assert(call is Some);
                assert(calls[calls.len() - 1].index == k);
            }
        }
    }
}

/// The calls of an array are its objects with a name, all of them, in their order,
/// each under its position and with the name and the arguments that are written
/// there; without such an object there are no calls.
pub proof fn law_calls_of_an_array(items: Seq<JsonV>)
    ensures
        calls_of(JsonV::Arr(items)) is None <==> (forall|k: int|
            0 <= k < items.len() ==> !(json::field(#[trigger] items[k], "name"@) is Some
                && json::field(items[k], "name"@)->0 is Str)),
        calls_of(JsonV::Arr(items)) matches Some(calls) ==> {
            &&& forall|i: int|
                0 <= i < calls.len() ==> 0 <= (#[trigger] calls[i]).index < items.len()
                    && json::field(items[calls[i].index], "name"@) == Some(JsonV::Str(calls[i].name))
                    && (json::field(items[calls[i].index], "arguments"@) matches Some(JsonV::Str(a))
                    ==> calls[i].arguments == a)
            &&& forall|i: int, j: int|
                0 <= i < j < calls.len() ==> (#[trigger] calls[i]).index < (
                #[trigger] calls[j]).index
            &&& forall|k: int|
                0 <= k < items.len() && json::field(#[trigger] items[k], "name"@) is Some
                    && json::field(items[k], "name"@)->0 is Str ==> exists|i: int|
                    0 <= i < calls.len() && (#[trigger] calls[i]).index == k
        },
{
    lemma_calls_in_items(items);
    let calls = calls_in_items(items);
    if calls.len() == 0 {
        assert forall|k: int| 0 <= k < items.len() implies !(json::field(
            #[trigger] items[k],
            "name"@,
        ) is Some && json::field(items[k], "name"@)->0 is Str) by {
            if json::field(items[k], "name"@) is Some && json::field(items[k], "name"@)->0 is Str {
                let i = choose|i: int| 0 <= i < calls.len() && (#[trigger] calls[i]).index == k;
                assert(false);
            }
        }
    } else {
        assert(json::field(items[calls[0].index], "name"@) is Some);
    }
}

/// An object with a name is one call: that name, and the arguments that are
/// written. Arguments that are no text are told by their own printed form, and
/// none by that of an empty object.
pub proof fn law_call_of_an_object(m: Map<Seq<char>, JsonV>, name: Seq<char>)
    requires
        json::field(JsonV::Obj(m), "name"@) == Some(JsonV::Str(name)),
    ensures
        calls_of(JsonV::Obj(m)) matches Some(calls) && calls.len() == 1 && calls[0].index == 0
            && calls[0].name == name && (match json::field(JsonV::Obj(m), "arguments"@) {
            Some(JsonV::Str(a)) => calls[0].arguments == a,
            Some(a) => calls[0].arguments == json::json_print(a),
            None => calls[0].arguments == json::json_print(JsonV::Obj(Map::empty())),
        }),
{
}

proof fn lemma_whole_is_calls(s: Seq<char>, v: JsonV, calls: Seq<CallV>)
    requires
        json::reads_as(s, v),
        calls_of(v) == Some(calls),
    ensures
        calls_in_json(s) == Some(calls),
{
}

proof fn lemma_calls_in_trimmed(content: Seq<char>, t: Seq<char>)
    requires
        text::trimmed(content) == t,
        t.len() > 0,
    ensures
        calls_in_json(t) is Some ==> calls_in_text(content) == calls_in_json(t),
        calls_in_json(t) is None && text::starts(t, "```"@) && calls_in_json(unfenced(t)) is Some
            ==> calls_in_text(content) == calls_in_json(unfenced(t)),
        calls_in_json(t) is None && !text::starts(t, "```"@) ==> calls_in_text(content) == (
        match text::char_index(t, '{') {
            Some(i) => calls_in_json(t.skip(i)),
            None => None,
        }),
{
}

/// A text that is a call, apart from white space around it, is that call.
pub proof fn law_call_is_found(
    a: Seq<char>,
    s: Seq<char>,
    b: Seq<char>,
    v: JsonV,
    calls: Seq<CallV>,
)
    requires
        text::is_blank(a),
        text::is_blank(b),
        text::is_tight(s),
        json::reads_as(s, v),
        calls_of(v) == Some(calls),
    ensures
        calls_in_text(a + s + b) == Some(calls),
{
    text::law_trimming_takes_off_space(a, s, b);
    lemma_whole_is_calls(s, v, calls);
    lemma_calls_in_trimmed(a + s + b, s);
}

/// A call in a Markdown fence is that call, where the fence and the call together
/// are no JSON and no further fence stands inside.
pub proof fn law_fenced_call_is_found(
    a: Seq<char>,
    s: Seq<char>,
    b: Seq<char>,
    v: JsonV,
    calls: Seq<CallV>,
)
    requires
        text::is_blank(a),
        text::is_blank(b),
        text::is_tight(s),
        json::reads_as(s, v),
        calls_of(v) == Some(calls),
        !text::starts(a + s + b + "```"@, "```"@),
        !text::starts(a + s + b + "```"@, "```json"@),
        !text::ends(a + s + b, "```"@),
        calls_in_json("```json"@ + (a + s + b + "```"@)) is None,
    ensures
        calls_in_text("```json"@ + (a + s + b + "```"@)) == Some(calls),
{
    let open = "```json"@;
    let fence = "```"@;
    let body = a + s + b;
    let all = open + (body + fence);
    lemma_fences();
    assert(all[0] == open[0]);
    assert(all.last() == fence[2]);
    text::lemma_tight_stays(all);
    assert(text::starts(all, fence)) by {
        assert(all.subrange(0, 3) =~= open.subrange(0, 3));
    }
    text::lemma_stripped(open, body + fence, fence);
    text::lemma_stripped(fence, body + fence, fence);
    text::lemma_stripped(fence, body, fence);
    text::law_trimming_takes_off_space(a, s, b);
    assert(unfenced(all) == s);
    lemma_whole_is_calls(s, v, calls);
    lemma_calls_in_trimmed(all, all);
}

proof fn lemma_fences()
    ensures
        "```json"@.len() == 7,
        "```"@.len() == 3,
        !text::is_space("```json"@[0]),
        !text::is_space("```"@[2]),
        "```json"@.subrange(0, 3) == "```"@,
{
    reveal_strlit("```json");
    reveal_strlit("```");
    assert("```json"@.subrange(0, 3) =~= "```"@);
}

/// A call behind prose is found at its first brace, where the whole is neither JSON
/// nor fenced.
pub proof fn law_call_behind_prose_is_found(prose: Seq<char>, rest: Seq<char>)
    requires
        text::is_tight(prose + rest),
        rest.len() > 0,
        rest[0] == '{',
        !prose.contains('{'),
        calls_in_json(prose + rest) is None,
        !text::starts(prose + rest, "```"@),
    ensures
        calls_in_text(prose + rest) == calls_in_json(rest),
{
    let t = prose + rest;
    text::lemma_tight_stays(t);
    text::lemma_char_index_behind(prose, rest, '{');
    lemma_calls_in_trimmed(t, t);
}

/// A text without a brace that is no JSON, fenced or not, writes no call.
pub proof fn law_prose_is_no_call(content: Seq<char>)
    requires
        !content.contains('{'),
        calls_in_json(text::trimmed(content)) is None,
        calls_in_json(unfenced(text::trimmed(content))) is None,
    ensures
        calls_in_text(content) is None,
{
    let t = text::trimmed(content);
    text::law_trimmed_stands_in_the_text(content);
    text::lemma_char_index(t, '{');
    let (i, j) = choose|i: int, j: int|
        0 <= i <= j <= content.len() && t == #[trigger] content.subrange(i, j);
    if let Some(k) = text::char_index(t, '{') {
        assert(content[i + k] == '{');
    }
}

/// Outside strings a brace opens or closes an object; inside one, and behind a
/// backslash there, it does not, and only an unescaped quote ends the string.
pub proof fn law_scan_steps(s: Seq<char>, c: char)
    ensures
        !scan(s).in_string && c == '{' ==> scan(s.push(c)).depth == scan(s).depth + 1 && !scan(
            s.push(c),
        ).in_string,
        !scan(s).in_string && c == '}' ==> scan(s.push(c)).depth == scan(s).depth - 1 && !scan(
            s.push(c),
        ).in_string,
        !scan(s).in_string && c != '{' && c != '}' ==> scan(s.push(c)).depth == scan(s).depth
            && scan(s.push(c)).in_string == (c == '"'),
        scan(s).in_string ==> scan(s.push(c)).depth == scan(s).depth,
        scan(s).in_string && !scan(s).escape ==> scan(s.push(c)).in_string == (c != '"')
            && scan(s.push(c)).escape == (c == '\\'),
        scan(s).in_string && scan(s).escape ==> scan(s.push(c)).in_string && !scan(s.push(c)).escape,
        scan(Seq::<char>::empty()).depth == 0 && !scan(Seq::<char>::empty()).in_string,
{
    assert(s.push(c).drop_last() =~= s);
}

/// The braces of a text in quotes do not count.
pub proof fn law_quoted_braces_do_not_count(s: Seq<char>, quoted: Seq<char>)
    requires
        !scan(s).in_string,
        !quoted.contains('"'),
        !quoted.contains('\\'),
    ensures
        scan(s + seq!['"'] + quoted + seq!['"']).depth == scan(s).depth,
        !scan(s + seq!['"'] + quoted + seq!['"']).in_string,
{
    lemma_scan_quoted(s, quoted);
    let open = s + seq!['"'] + quoted;
    assert(open + seq!['"'] =~= open.push('"'));
    law_scan_steps(open, '"');
}

proof fn lemma_scan_quoted(s: Seq<char>, quoted: Seq<char>)
    requires
        !scan(s).in_string,
        !quoted.contains('"'),
        !quoted.contains('\\'),
    ensures
        scan(s + seq!['"'] + quoted) == (Scan {
            depth: scan(s).depth,
            in_string: true,
            escape: false,
        }),
    decreases quoted.len(),
{
    if quoted.len() == 0 {
        assert(s + seq!['"'] + quoted =~= s.push('"'));
        assert(s.push('"').drop_last() =~= s);
    } else {
        let front = quoted.drop_last();
        assert(quoted[quoted.len() - 1] == quoted.last());
        assert(!front.contains('"')) by {
            if front.contains('"') {
                let k = choose|k: int| 0 <= k < front.len() && front[k] == '"';
                assert(quoted[k] == '"');
            }
        }
        assert(!front.contains('\\')) by {
            if front.contains('\\') {
                let k = choose|k: int| 0 <= k < front.len() && front[k] == '\\';
                assert(quoted[k] == '\\');
            }
        }
        lemma_scan_quoted(s, front);
        let open = s + seq!['"'] + front;
        assert(s + seq!['"'] + quoted =~= open.push(quoted.last()));
        assert(open.push(quoted.last()).drop_last() =~= open);
    }
}

/// The object at the front of a text is found whatever follows it: `p` begins with
/// a brace, and its last brace is the first that closes that one.
pub proof fn law_what_follows_an_object_is_left(a: Seq<char>, p: Seq<char>, rest: Seq<char>)
    requires
        text::is_blank(a),
        p.len() > 0,
        p[0] == '{',
        closes_at(p, p.len() - 1),
        forall|j: int| 0 <= j < p.len() - 1 ==> !(#[trigger] closes_at(p, j)),
    ensures
        balanced_prefix(a + p + rest) == Some(p),
{
    let t = p + rest;
    assert(a + p + rest =~= a + t);
    assert(t[0] == '{');
    text::lemma_trim_start_blank(a, t);
    lemma_close_index(t, 0);
    assert forall|j: int| 0 <= j < p.len() implies closes_at(t, j) == #[trigger] closes_at(
        p,
        j,
    ) by {
        assert(t.take(j) =~= p.take(j));
    }
    assert(closes_at(t, p.len() - 1));
    let e = close_index(t, 0)->0;
    if e < p.len() - 1 {
        assert(!closes_at(p, e));
    }
    assert(t.take(p.len() as int) =~= p);
}

/// What is taken for the object at the front of a text stands there, begins and
/// ends with a brace, and its braces are balanced.
pub proof fn law_object_at_the_front(s: Seq<char>, p: Seq<char>)
    requires
        balanced_prefix(s) == Some(p),
    ensures
        text::starts(text::trim_start(s), p),
        p.len() > 0,
        p[0] == '{',
        p.last() == '}',
        scan(p).depth == 0,
        !scan(p).in_string,
{
    let t = text::trim_start(s);
    lemma_close_index(t, 0);
    let e = close_index(t, 0)->0;
    assert(t.take(e + 1).drop_last() =~= t.take(e));
    assert(t.subrange(0, e + 1) =~= t.take(e + 1));
}

/// An entry of `tool_calls` tells its call: at the call's position, with its name
/// and its arguments, as a function, under an identifier of its own.
pub proof fn law_entries_tell_the_calls(calls: Seq<CallV>, j: JsonV)
    requires
        are_entries(calls, j),
    ensures
        j matches JsonV::Arr(entries) && entries.len() == calls.len() && forall|i: int|
            #![trigger entries[i]]
            0 <= i < calls.len() ==> {
                &&& json::field(entries[i], "index"@) == Some(JsonV::Int(calls[i].index))
                &&& json::field(entries[i], "type"@) == Some(JsonV::Str("function"@))
                &&& json::str_field(entries[i], "id"@) matches Some(id) && text::starts(
                    id,
                    "call_"@,
                )
                &&& json::field(entries[i], "function"@) matches Some(f) && json::field(f, "name"@)
                    == Some(JsonV::Str(calls[i].name)) && json::field(f, "arguments"@) == Some(
                    JsonV::Str(calls[i].arguments),
                )
            },
{
    let ids = choose|ids: Seq<Seq<char>>|
        #![trigger call_ids(ids, calls.len())]
        call_ids(ids, calls.len()) && j == call_entries(calls, ids);
    let entries = j->Arr_0;
    assert forall|i: int|
        #![trigger entries[i]]
        0 <= i < calls.len() implies {
        &&& json::field(entries[i], "index"@) == Some(JsonV::Int(calls[i].index))
        &&& json::field(entries[i], "type"@) == Some(JsonV::Str("function"@))
        &&& json::str_field(entries[i], "id"@) matches Some(id) && text::starts(id, "call_"@)
        &&& json::field(entries[i], "function"@) matches Some(f) && json::field(f, "name"@) == Some(
            JsonV::Str(calls[i].name),
        ) && json::field(f, "arguments"@) == Some(JsonV::Str(calls[i].arguments))
    } by {
        lemma_call_entry(calls[i], ids[i]);
    }
}

/// What stands in the entry of a call.
pub proof fn lemma_call_entry(c: CallV, id: Seq<char>)
    ensures
        json::field(call_entry(c, id), "index"@) == Some(JsonV::Int(c.index)),
        json::field(call_entry(c, id), "type"@) == Some(JsonV::Str("function"@)),
        json::field(call_entry(c, id), "id"@) == Some(JsonV::Str("call_"@ + id)),
        text::starts("call_"@ + id, "call_"@),
        json::field(call_entry(c, id), "function"@) matches Some(f) && json::field(f, "name"@)
            == Some(JsonV::Str(c.name)) && json::field(f, "arguments"@) == Some(
            JsonV::Str(c.arguments),
        ),
{
    reveal_strlit("index");
    reveal_strlit("id");
    reveal_strlit("type");
    reveal_strlit("function");
    reveal_strlit("name");
    reveal_strlit("arguments");
    text::law_prefix_is_taken_off("call_"@, id, id);
    assert("index"@.len() == 5 && "id"@.len() == 2 && "type"@.len() == 4 && "function"@.len() == 8
        && "name"@.len() == 4 && "arguments"@.len() == 9);
    assert("type"@[0] == 't' && "name"@[0] == 'n');
}

/// The positions of the calls of a text ascend.
pub proof fn lemma_positions_ascend(content: Seq<char>)
    ensures
        calls_in_text(content) matches Some(calls) ==> forall|i: int, j: int|
            0 <= i < j < calls.len() ==> (#[trigger] calls[i]).index < (#[trigger] calls[j]).index,
{
    let t = text::trimmed(content);
    lemma_positions_in_json(t);
    lemma_positions_in_json(unfenced(t));
    if let Some(i) = text::char_index(t, '{') {
        lemma_positions_in_json(t.skip(i));
    }
}

proof fn lemma_positions_in_json(raw: Seq<char>)
    ensures
        calls_in_json(raw) matches Some(calls) ==> forall|i: int, j: int|
            0 <= i < j < calls.len() ==> (#[trigger] calls[i]).index < (#[trigger] calls[j]).index,
{
    if let Some(v) = json::json_parse(raw) {
        if let JsonV::Arr(items) = v {
            lemma_calls_in_items(items);
        }
    }
    if let Some(p) = balanced_prefix(raw) {
        if let Some(v) = json::json_parse(p) {
            if let JsonV::Arr(items) = v {
                lemma_calls_in_items(items);
            }
        }
    }
}

} // verus!
