//! Streams of text that are cut into lines and put into another form on the way.

use crate::agent_compat::request::AgentResponseFormat;
use crate::agent_compat::response;
use crate::agent_compat::response::AgentResponseSummary;
use crate::agent_compat::sse;
use crate::agent_compat::sse::{SseTransformState, SseV};
use crate::json;
use crate::json::{Json, JsonV};
use crate::llm_proxy::requests;
use crate::outside;
use crate::text;
use vstd::prelude::*;

verus! {

/// The lines of `s` that have ended.
pub open spec fn ended_lines(s: Seq<char>) -> Seq<Seq<char>> {
    text::split_on(s, '\n').drop_last()
}

/// The line of `s` that has not ended.
pub open spec fn open_line(s: Seq<char>) -> Seq<char> {
    text::split_on(s, '\n').last()
}

/// Text that comes in pieces and goes out in lines.
#[derive(Debug)]
pub struct LineBuffer {
    pub rest: String,
}

impl View for LineBuffer {
    type V = Seq<char>;

    open spec fn view(&self) -> Seq<char> {
        self.rest@
    }
}

impl LineBuffer {
    /// A buffer that has seen no text.
    pub fn new() -> (r: Self)
        ensures
            r@ == Seq::<char>::empty(),
    {
        LineBuffer { rest: String::new() }
    }

    /// Takes a piece of text and gives the lines that end in it.
    pub fn feed(&mut self, piece: &str) -> (r: Vec<String>)
        ensures
            text::views(r@) == ended_lines(old(self)@ + piece@),
            final(self)@ == open_line(old(self)@ + piece@),
    {
        let all = text::concat2(&self.rest, piece);
        let mut lines = text::split(&all, '\n');
        proof {
            lemma_open_line(all@);
        }
        let ghost before = lines@;
        assert(text::views(before).len() == before.len());
        match lines.pop() {
            Some(last) => {
                assert(text::views(before).last() == last@);
                assert(text::views(lines@) =~= text::views(before).drop_last());
                self.rest = last;
            },
            None => {},
        }
        lines
    }
}

proof fn lemma_open_line(s: Seq<char>)
    ensures
        text::split_on(s, '\n').len() > 0,
        text::split_on(open_line(s), '\n') == seq![open_line(s)],
    decreases s.len(),
{
    if s.len() > 0 {
        let p = text::split_on(s.drop_last(), '\n');
        lemma_open_line(s.drop_last());
        if s.last() != '\n' {
            let l = p.last().push(s.last());
            assert(l.drop_last() =~= p.last());
            assert(seq![p.last()].drop_last().push(l) =~= seq![l]);
        }
    }
}

proof fn lemma_split_apart(a: Seq<char>, b: Seq<char>)
    ensures
        text::split_on(a + b, '\n') == ended_lines(a) + text::split_on(open_line(a) + b, '\n'),
    decreases b.len(),
{
    lemma_open_line(a);
    let d = ended_lines(a);
    let l = open_line(a);
    if b.len() == 0 {
        assert(a + b =~= a);
        assert(l + b =~= l);
        assert(d + seq![l] =~= text::split_on(a, '\n'));
    } else {
        let c = b.drop_last();
        lemma_split_apart(a, c);
        lemma_open_line(l + c);
        assert((a + b).drop_last() =~= a + c);
        assert((l + b).drop_last() =~= l + c);
        let q = text::split_on(l + c, '\n');
        if b.last() == '\n' {
            assert((d + q).push(Seq::empty()) =~= d + q.push(Seq::empty()));
        } else {
            let t = q.last().push(b.last());
            assert((d + q).last() == q.last());
            assert((d + q).drop_last().push(t) =~= d + q.drop_last().push(t));
        }
    }
}

/// The lines of a text do not depend on where it is cut into pieces.
pub proof fn law_pieces_make_the_same_lines(a: Seq<char>, b: Seq<char>)
    ensures
        ended_lines(a + b) == ended_lines(a) + ended_lines(open_line(a) + b),
        open_line(a + b) == open_line(open_line(a) + b),
{
    lemma_split_apart(a, b);
    lemma_open_line(open_line(a) + b);
    let tail = text::split_on(open_line(a) + b, '\n');
    assert((ended_lines(a) + tail).drop_last() =~= ended_lines(a) + tail.drop_last());
}

/// Whether the lines `out` are `before` and what comes of `line` in the state `mid`.
pub open spec fn extends(
    mid: SseV,
    before: Seq<Seq<char>>,
    line: Seq<char>,
    after: SseV,
    out: Seq<Seq<char>>,
) -> bool {
    &&& before.len() <= out.len()
    &&& out.take(before.len() as int) == before
    &&& sse::processes(mid, text::trim_end(line), after, out.skip(before.len() as int))
}

/// Whether `after` and `out` come of `lines`, one by one, in the state `st`.
pub open spec fn runs(st: SseV, lines: Seq<Seq<char>>, after: SseV, out: Seq<Seq<char>>) -> bool
    decreases lines.len(),
{
    if lines.len() == 0 {
        after == st && out == Seq::<Seq<char>>::empty()
    } else {
        exists|mid: SseV, before: Seq<Seq<char>>|
            runs(st, lines.drop_last(), mid, before) && #[trigger] extends(
                mid,
                before,
                lines.last(),
                after,
                out,
            )
    }
}

/// Whether one of `lines`, without the space behind it, is the end mark.
pub open spec fn ends_in(lines: Seq<Seq<char>>) -> bool {
    exists|i: int|
        0 <= i < lines.len() && text::trim_end(#[trigger] lines[i]) == sse::done_line()
}

/// The stream of a completion on its way to an agent client.
pub struct AgentStream {
    pub sse: SseTransformState,
    pub buffer: LineBuffer,
    pub done_sent: bool,
    /// Whether the lines that go out are looked at for the end mark too, as they
    /// are where another peer answers.
    pub watches_out: bool,
}

fn trim_back(s: &str) -> (r: String)
    ensures
        r@ == text::trim_end(s@),
{
    let cs = text::chars_of(s);
    let mut n: usize = cs.len();
    assert(s@.take(n as int) =~= s@);
    while n > 0 && text::char_is_space(cs[n - 1])
        invariant
            n <= cs@.len(),
            cs@ == s@,
            text::trim_end(s@) == text::trim_end(s@.take(n as int)),
        decreases n,
    {
        assert(s@.take(n as int).drop_last() =~= s@.take(n - 1));
        assert(s@.take(n as int).last() == s@[n - 1]);
        n -= 1;
    }
    proof {
        if n > 0 {
            assert(s@.take(n as int).last() == s@[n - 1]);
        }
    }
    text::take(s, n)
}

/// Whether one of `lines` is the end mark.
fn shows_done(lines: &Vec<String>) -> (r: bool)
    ensures
        r == sse::has_done(text::views(lines@)),
{
    let ghost lv = text::views(lines@);
    for i in 0..lines.len()
        invariant
            lv == text::views(lines@),
            forall|k: int| 0 <= k < i ==> text::trimmed(#[trigger] lv[k]) != sse::done_line(),
    {
        assert(lv[i as int] == lines@[i as int]@);
        if text::str_eq(&text::trim(&lines[i]), "data: [DONE]") {
            return true;
        }
    }
    false
}

/// Whether the end mark is still to be sent after the lines `lines` came and the
/// lines `out` went.
pub open spec fn done_after(
    done_sent: bool,
    watches_out: bool,
    lines: Seq<Seq<char>>,
    out: Seq<Seq<char>>,
) -> bool {
    done_sent || ends_in(lines) || (watches_out && sse::has_done(out))
}

/// Whether a stream in the state `st`, with the unended line `rest`, can end with
/// the lines `out`, so that `after` is left.
pub open spec fn closes(
    st: SseV,
    rest: Seq<char>,
    done_sent: bool,
    watches_out: bool,
    after: SseV,
    out: Seq<Seq<char>>,
) -> bool {
    if text::trimmed(rest).len() == 0 {
        sse::finalizes(st, done_sent, after, out)
    } else {
        exists|mid: SseV, n: int|
            0 <= n <= out.len() && #[trigger] sse::processes(
                st,
                text::trim_end(rest),
                mid,
                out.take(n),
            ) && sse::finalizes(
                mid,
                if watches_out {
                    done_after(done_sent, true, seq![rest], out.take(n))
                } else {
                    done_sent
                },
                after,
                out.skip(n),
            )
    }
}

impl AgentStream {
    /// A stream that nothing has come of yet.
    pub fn new(response_format: AgentResponseFormat, watches_out: bool) -> (r: Self)
        ensures
            r.sse@ == sse::fresh(response_format),
            r.buffer@ == Seq::<char>::empty(),
            !r.done_sent,
            r.watches_out == watches_out,
    {
        AgentStream {
            sse: SseTransformState::with_response_format(response_format),
            buffer: LineBuffer::new(),
            done_sent: false,
            watches_out,
        }
    }

    /// Takes the bytes of a piece of the stream and gives the lines to send on.
    pub fn feed_bytes(&mut self, bytes: &[u8]) -> (r: Vec<String>)
        ensures
            ({
                let lines = ended_lines(old(self).buffer@ + text::lossy(bytes@));
                &&& runs(old(self).sse@, lines, final(self).sse@, text::views(r@))
                &&& final(self).done_sent == done_after(
                    old(self).done_sent,
                    old(self).watches_out,
                    lines,
                    text::views(r@),
                )
            }),
            final(self).buffer@ == open_line(old(self).buffer@ + text::lossy(bytes@)),
            final(self).watches_out == old(self).watches_out,
    {
        let piece = text::lossy_text(bytes);
        self.feed(&piece)
    }

    /// Takes a piece of the stream and gives the lines to send on.
    pub fn feed(&mut self, piece: &str) -> (r: Vec<String>)
        ensures
            ({
                let lines = ended_lines(old(self).buffer@ + piece@);
                &&& runs(old(self).sse@, lines, final(self).sse@, text::views(r@))
                &&& final(self).done_sent == done_after(
                    old(self).done_sent,
                    old(self).watches_out,
                    lines,
                    text::views(r@),
                )
            }),
            final(self).buffer@ == open_line(old(self).buffer@ + piece@),
            final(self).watches_out == old(self).watches_out,
    {
        let ghost st = self.sse@;
        let ghost sent = self.done_sent;
        let watches: bool = self.watches_out;
        let lines = self.buffer.feed(piece);
        let ghost lv = text::views(lines@);
        let mut out: Vec<String> = Vec::new();
        assert(text::views(out@) =~= Seq::<Seq<char>>::empty());
        assert(!sse::has_done(text::views(out@)));
        let ghost rest = self.buffer@;
        for i in 0..lines.len()
            invariant
                lv == text::views(lines@),
                runs(st, lv.take(i as int), self.sse@, text::views(out@)),
                self.done_sent == done_after(sent, watches, lv.take(i as int), text::views(out@)),
                self.buffer@ == rest,
                self.watches_out == watches,
        {
            let ghost mid = self.sse@;
            let ghost before = text::views(out@);
            let line = trim_back(&lines[i]);
            let ghost l0 = lv.take(i as int);
            let ghost l1 = lv.take(i as int + 1);
            proof {
                assert(l1.drop_last() =~= l0);
                assert(l1.last() == lines@[i as int]@);
            }
            let is_end = text::str_eq(&line, "data: [DONE]");
            let more = self.sse.process_line(&line);
            let shown = watches && shows_done(&more);
            let ghost mv = text::views(more@);
            for k in 0..more.len()
                invariant
                    mv == text::views(more@),
                    text::views(out@) == before + mv.take(k as int),
            {
                let l = text::copy(&more[k]);
                proof {
                    text::lemma_views_push(out@, l);
                    assert(mv.take(k as int + 1) =~= mv.take(k as int).push(l@));
                    assert((before + mv.take(k as int)).push(l@) =~= before + mv.take(k as int).push(
                        l@,
                    ));
                }
                out.push(l);
            }
            let ghost after = text::views(out@);
            proof {
                assert(mv.take(mv.len() as int) =~= mv);
                assert(after == before + mv);
                assert(after.take(before.len() as int) =~= before);
                assert(after.skip(before.len() as int) =~= mv);
                assert(extends(mid, before, l1.last(), self.sse@, after));
                assert(runs(st, l1, self.sse@, after));
                lemma_ends_push(l0, l1.last());
                assert(l0.push(l1.last()) =~= l1);
                lemma_done_concat(before, mv);
            }
            self.done_sent = self.done_sent || is_end || shown;
        }
        assert(lv.take(lv.len() as int) =~= lv);
        out
    }

    /// Ends the stream and gives the lines that it ends with.
    pub fn end(&mut self) -> (r: Vec<String>)
        ensures
            closes(
                old(self).sse@,
                old(self).buffer@,
                old(self).done_sent,
                old(self).watches_out,
                final(self).sse@,
                text::views(r@),
            ),
    {
        let ghost st = self.sse@;
        let ghost rest = self.buffer@;
        if text::trim(&self.buffer.rest).as_str().is_empty() {
            return self.sse.finalize_stream(self.done_sent);
        }
        let line = trim_back(&self.buffer.rest);
        let is_end = text::str_eq(&line, "data: [DONE]");
        let mut out = self.sse.process_line(&line);
        let ghost mid = self.sse@;
        let ghost first = text::views(out@);
        let sent = if self.watches_out {
            self.done_sent || is_end || shows_done(&out)
        } else {
            self.done_sent
        };
        proof {
            lemma_ends_push(Seq::empty(), rest);
            assert(Seq::<Seq<char>>::empty().push(rest) =~= seq![rest]);
        }
        let more = self.sse.finalize_stream(sent);
        let ghost mv = text::views(more@);
        assert(mv.take(0) =~= Seq::<Seq<char>>::empty());
        assert(first + mv.take(0) =~= first);
        for k in 0..more.len()
            invariant
                mv == text::views(more@),
                text::views(out@) == first + mv.take(k as int),
        {
            let l = text::copy(&more[k]);
            proof {
                text::lemma_views_push(out@, l);
                assert(mv.take(k as int + 1) =~= mv.take(k as int).push(l@));
                assert((first + mv.take(k as int)).push(l@) =~= first + mv.take(k as int).push(l@));
            }
            out.push(l);
        }
        proof {
            let all = text::views(out@);
            assert(mv.take(mv.len() as int) =~= mv);
            assert(all.take(first.len() as int) =~= first);
            assert(all.skip(first.len() as int) =~= mv);
            assert(sse::processes(st, text::trim_end(rest), mid, all.take(first.len() as int)));
        }
        out
    }

    /// What is known of the answer, for the log.
    pub fn take_summary(&mut self) -> (r: Option<AgentResponseSummary>)
        ensures
            sse::opt_summary(r) == old(self).sse@.summary,
            final(self).sse@ == (SseV { summary: None, ..old(self).sse@ }),
            final(self).buffer == old(self).buffer,
            final(self).done_sent == old(self).done_sent,
            final(self).watches_out == old(self).watches_out,
    {
        self.sse.take_summary()
    }
}

proof fn lemma_ends_push(lines: Seq<Seq<char>>, line: Seq<char>)
    ensures
        ends_in(lines.push(line)) == (ends_in(lines) || text::trim_end(line) == sse::done_line()),
{
    let all = lines.push(line);
    if ends_in(lines) {
        let i = choose|i: int|
            0 <= i < lines.len() && text::trim_end(#[trigger] lines[i]) == sse::done_line();
        assert(all[i] == lines[i]);
    }
    if text::trim_end(line) == sse::done_line() {
        assert(all[lines.len() as int] == line);
    }
    if ends_in(all) {
        let i = choose|i: int|
            0 <= i < all.len() && text::trim_end(#[trigger] all[i]) == sse::done_line();
        if i < lines.len() {
            assert(lines[i] == all[i]);
        }
    }
}

proof fn lemma_done_concat(a: Seq<Seq<char>>, b: Seq<Seq<char>>)
    ensures
        sse::has_done(a + b) == (sse::has_done(a) || sse::has_done(b)),
{
    let all = a + b;
    if sse::has_done(a) {
        let i = choose|i: int|
            0 <= i < a.len() && text::trimmed(#[trigger] a[i]) == sse::done_line();
        assert(all[i] == a[i]);
    }
    if sse::has_done(b) {
        let i = choose|i: int|
            0 <= i < b.len() && text::trimmed(#[trigger] b[i]) == sse::done_line();
        assert(all[a.len() + i] == b[i]);
    }
    if sse::has_done(all) {
        let i = choose|i: int|
            0 <= i < all.len() && text::trimmed(#[trigger] all[i]) == sse::done_line();
        if i < a.len() {
            assert(a[i] == all[i]);
        } else {
            assert(b[i - a.len()] == all[i]);
        }
    }
}

/// A stream that has not sent its end mark has sent it when it has ended.
pub proof fn law_end_mark_is_sent(
    st: SseV,
    rest: Seq<char>,
    watches_out: bool,
    after: SseV,
    out: Seq<Seq<char>>,
)
    requires
        closes(st, rest, false, watches_out, after, out),
    ensures
        sse::has_done(out),
{
    if text::trimmed(rest).len() == 0 {
        sse::law_finalize_marks(st, after, out);
    } else {
        let line = text::trim_end(rest);
        let (mid, n) = choose|mid: SseV, n: int|
            0 <= n <= out.len() && #[trigger] sse::processes(st, line, mid, out.take(n))
                && sse::finalizes(
                mid,
                if watches_out {
                    done_after(false, true, seq![rest], out.take(n))
                } else {
                    false
                },
                after,
                out.skip(n),
            );
        let first = out.take(n);
        let more = out.skip(n);
        assert(first + more =~= out);
        lemma_done_concat(first, more);
        if watches_out && done_after(false, true, seq![rest], first) {
            if !sse::has_done(first) {
                assert(line == sse::done_line());
                sse::lemma_done_line_is_data();
                assert(text::trimmed(first[first.len() - 1]) == sse::done_line());
            }
        } else {
            sse::law_finalize_marks(mid, after, more);
        }
    }
}

/// The line that tells a client of a failure.
pub fn error_event(message: &str) -> (r: String)
    ensures
        r@ == "data: {\"error\":\""@ + message@ + "\"}\n\n"@,
{
    text::concat3("data: {\"error\":\"", message, "\"}\n\n")
}

/// The object that tells a client of a failure.
pub fn error_object(message: &str) -> (r: String)
    ensures
        r@ == "{\"error\":\""@ + message@ + "\"}"@,
{
    text::concat3("{\"error\":\"", message, "\"}")
}

/// The text of the answer in a completion: under `part` of its first choice.
pub open spec fn answer_text(body: JsonV, part: Seq<char>) -> Seq<char> {
    match response::first_choice(body) {
        Some(c) => match json::field(c, part) {
            Some(m) => match json::str_field(m, "content"@) {
                Some(t) => t,
                None => Seq::empty(),
            },
            None => Seq::empty(),
        },
        None => Seq::empty(),
    }
}

fn answer_of(body: &Json, part: &str) -> (r: String)
    ensures
        r@ == answer_text(body@, part@),
{
    match response::choice_of(body) {
        Some(c) => match c.get(part) {
            Some(m) => match m.get_str("content") {
                Some(t) => text::copy(t),
                None => String::new(),
            },
            None => String::new(),
        },
        None => String::new(),
    }
}

/// A message of the assistant.
pub open spec fn assistant(content: Seq<char>) -> JsonV {
    JsonV::Obj(
        Map::<Seq<char>, JsonV>::empty().insert("role"@, JsonV::Str("assistant"@)).insert(
            "content"@,
            JsonV::Str(content),
        ),
    )
}

fn assistant_message(content: &str) -> (r: Json)
    ensures
        r@ == assistant(content@),
{
    json::object().with("role", json::string("assistant")).with("content", json::string(content))
}

/// A whole completion as Ollama's chat answers it, at the moment `now`.
pub open spec fn replied(model: Seq<char>, now: Seq<char>, completion: JsonV) -> JsonV {
    JsonV::Obj(
        Map::<Seq<char>, JsonV>::empty().insert("model"@, JsonV::Str(model)).insert(
            "created_at"@,
            JsonV::Str(now),
        ).insert("message"@, assistant(answer_text(completion, "message"@))).insert(
            "done"@,
            JsonV::Bool(true),
        ),
    )
}

/// A whole completion as Ollama's chat answers it, at the moment `now`.
pub fn ollama_reply(model: &str, now: &str, completion: &Json) -> (r: Json)
    ensures
        r@ == replied(model@, now@, completion@),
{
    let content = answer_of(completion, "message");
    json::object().with("model", json::string(model)).with("created_at", json::string(now)).with(
        "message",
        assistant_message(&content),
    ).with("done", Json::Bool(true))
}

/// The value that `bytes` write; null where they are no JSON.
pub open spec fn read_or_null(bytes: Seq<u8>) -> JsonV {
    match json::bytes_read(bytes) {
        Ok(j) => j,
        Err(_) => JsonV::Null,
    }
}

/// The completion that `body` writes as Ollama's chat answers it now. Bytes that are
/// no JSON hold no answer.
pub fn ollama_reply_to(model: &str, body: &[u8]) -> (r: Json)
    ensures
        exists|now: Seq<char>| r@ == #[trigger] replied(model@, now, read_or_null(body@)),
{
    let now = outside::clock_text();
    let completion = match json::parse_bytes_or_message(body) {
        Ok(j) => j,
        Err(_) => Json::Null,
    };
    ollama_reply(model, &now, &completion)
}

/// The last line of Ollama's stream.
pub open spec fn last_line(model: Seq<char>) -> Seq<char> {
    json::json_print(
        JsonV::Obj(
            Map::<Seq<char>, JsonV>::empty().insert("model"@, JsonV::Str(model)).insert(
                "done"@,
                JsonV::Bool(true),
            ),
        ),
    ) + "\n"@
}

/// A line of Ollama's stream, with a piece of the answer.
pub open spec fn piece_line(model: Seq<char>, piece: Seq<char>) -> Seq<char> {
    json::json_print(
        JsonV::Obj(
            Map::<Seq<char>, JsonV>::empty().insert("model"@, JsonV::Str(model)).insert(
                "message"@,
                assistant(piece),
            ).insert("done"@, JsonV::Bool(false)),
        ),
    ) + "\n"@
}

/// What comes of one line of a stream of completions.
#[derive(Debug)]
pub enum Passage {
    /// Nothing.
    Nothing,
    /// A piece of the answer.
    Piece(String),
    /// The end.
    End,
}

/// What comes of one line of a stream of completions.
#[verifier::ext_equal]
pub enum PassageV {
    Nothing,
    Piece(Seq<char>),
    End,
}

impl View for Passage {
    type V = PassageV;

    open spec fn view(&self) -> PassageV {
        match *self {
            Passage::Nothing => PassageV::Nothing,
            Passage::Piece(s) => PassageV::Piece(s@),
            Passage::End => PassageV::End,
        }
    }
}

/// What comes of the chunk `chunk` of a completion.
pub open spec fn chunk_passage(chunk: JsonV) -> PassageV {
    if answer_text(chunk, "delta"@).len() == 0 {
        PassageV::Nothing
    } else {
        PassageV::Piece(answer_text(chunk, "delta"@))
    }
}

/// What comes of the chunk `chunk` of a completion.
pub fn read_chunk(chunk: &Json) -> (r: Passage)
    ensures
        r@ == chunk_passage(chunk@),
{
    let piece = answer_of(chunk, "delta");
    if piece.as_str().is_empty() {
        Passage::Nothing
    } else {
        Passage::Piece(piece)
    }
}

/// What comes of the line `line`.
pub open spec fn passage(line: Seq<char>) -> PassageV {
    let l = text::trimmed(line);
    if !text::starts(l, "data:"@) {
        PassageV::Nothing
    } else {
        let payload = text::trimmed(text::strip_prefixes(l, "data:"@));
        if payload == "[DONE]"@ {
            PassageV::End
        } else {
            match json::json_parse(payload) {
                Some(chunk) => chunk_passage(chunk),
                None => PassageV::Nothing,
            }
        }
    }
}

fn read_passage(line: &str) -> (r: Passage)
    ensures
        r@ == passage(line@),
{
    let l = text::trim(line);
    if !text::starts_with(&l, "data:") {
        return Passage::Nothing;
    }
    let payload = text::trim(&text::trim_start_matches(&l, "data:"));
    if text::str_eq(&payload, "[DONE]") {
        return Passage::End;
    }
    match json::parse(&payload) {
        Some(chunk) => read_chunk(&chunk),
        None => Passage::Nothing,
    }
}

/// What goes out for the lines `lines`, up to the end mark, and whether it is
/// among them.
pub open spec fn told(model: Seq<char>, lines: Seq<Seq<char>>) -> (Seq<Seq<char>>, bool)
    decreases lines.len(),
{
    if lines.len() == 0 {
        (Seq::empty(), false)
    } else {
        let (rest, ended) = told(model, lines.skip(1));
        match passage(lines[0]) {
            PassageV::Nothing => (rest, ended),
            PassageV::Piece(p) => (seq![piece_line(model, p)] + rest, ended),
            PassageV::End => (seq![last_line(model)], true),
        }
    }
}

/// A stream of completions on its way to a client of Ollama's chat.
pub struct OllamaStream {
    pub model: String,
    pub buffer: LineBuffer,
    pub ended: bool,
}

fn last_line_of(model: &str) -> (r: String)
    ensures
        r@ == last_line(model@),
{
    let j = json::object().with("model", json::string(model)).with("done", Json::Bool(true));
    text::concat2(&json::print(&j), "\n")
}

impl OllamaStream {
    /// A stream that nothing has come of yet.
    pub fn new(model: &str) -> (r: Self)
        ensures
            r.model@ == model@,
            r.buffer@ == Seq::<char>::empty(),
            !r.ended,
    {
        OllamaStream { model: text::copy(model), buffer: LineBuffer::new(), ended: false }
    }

    /// Takes the bytes of a piece of the stream and gives the lines to send on;
    /// nothing once it has ended.
    pub fn feed_bytes(&mut self, bytes: &[u8]) -> (r: Vec<String>)
        ensures
            final(self).model@ == old(self).model@,
            if old(self).ended {
                text::views(r@) == Seq::<Seq<char>>::empty() && final(self).ended
                    && final(self).buffer@ == old(self).buffer@
            } else {
                let all = old(self).buffer@ + text::lossy(bytes@);
                &&& text::views(r@) == told(old(self).model@, ended_lines(all)).0
                &&& final(self).ended == told(old(self).model@, ended_lines(all)).1
                &&& final(self).buffer@ == open_line(all)
            },
    {
        let piece = text::lossy_text(bytes);
        self.feed(&piece)
    }

    /// Takes a piece of the stream and gives the lines to send on; nothing once it
    /// has ended.
    pub fn feed(&mut self, piece: &str) -> (r: Vec<String>)
        ensures
            final(self).model@ == old(self).model@,
            if old(self).ended {
                text::views(r@) == Seq::<Seq<char>>::empty() && final(self).ended
                    && final(self).buffer@ == old(self).buffer@
            } else {
                let all = old(self).buffer@ + piece@;
                &&& text::views(r@) == told(old(self).model@, ended_lines(all)).0
                &&& final(self).ended == told(old(self).model@, ended_lines(all)).1
                &&& final(self).buffer@ == open_line(all)
            },
    {
        let mut out: Vec<String> = Vec::new();
        assert(text::views(out@) =~= Seq::<Seq<char>>::empty());
        if self.ended {
            return out;
        }
        let lines = self.buffer.feed(piece);
        let ghost lv = text::views(lines@);
        let ghost m = self.model@;
        let ghost rest = self.buffer@;
        assert(lv.skip(0) =~= lv);
        assert(text::views(out@) + told(m, lv).0 =~= told(m, lv).0);
        for i in 0..lines.len()
            invariant
                lv == text::views(lines@),
                lv == ended_lines(old(self).buffer@ + piece@),
                rest == open_line(old(self).buffer@ + piece@),
                m == old(self).model@,
                !old(self).ended,
                self.model@ == m,
                self.buffer@ == rest,
                !self.ended,
                text::views(out@) + told(m, lv.skip(i as int)).0 == told(m, lv).0,
                told(m, lv.skip(i as int)).1 == told(m, lv).1,
        {
            let ghost before = text::views(out@);
            proof {
                assert(lv.skip(i as int)[0] == lines@[i as int]@);
                assert(lv.skip(i as int).skip(1) =~= lv.skip(i as int + 1));
            }
            match read_passage(&lines[i]) {
                Passage::Nothing => {},
                Passage::Piece(p) => {
                    let j = json::object().with("model", json::string(&self.model)).with(
                        "message",
                        assistant_message(&p),
                    ).with("done", Json::Bool(false));
                    let l = text::concat2(&json::print(&j), "\n");
                    proof {
                        text::lemma_views_push(out@, l);
                        let tail = told(m, lv.skip(i as int + 1)).0;
                        assert(before + (seq![l@] + tail) =~= before.push(l@) + tail);
                    }
                    out.push(l);
                },
                Passage::End => {
                    let l = last_line_of(&self.model);
                    proof {
                        text::lemma_views_push(out@, l);
                        assert(before + seq![l@] =~= before.push(l@));
                    }
                    out.push(l);
                    self.ended = true;
                    return out;
                },
            }
        }
        assert(lv.skip(lv.len() as int) =~= Seq::<Seq<char>>::empty());
        assert(text::views(out@) + Seq::<Seq<char>>::empty() =~= text::views(out@));
        out
    }

    /// Ends the stream: the last line, unless it has been sent.
    pub fn end(&mut self) -> (r: Vec<String>)
        ensures
            final(self).model@ == old(self).model@,
            final(self).ended,
            text::views(r@) == if old(self).ended {
                Seq::<Seq<char>>::empty()
            } else {
                seq![last_line(old(self).model@)]
            },
    {
        let mut out: Vec<String> = Vec::new();
        if !self.ended {
            let l = last_line_of(&self.model);
            out.push(l);
            assert(text::views(out@) =~= seq![l@]);
        } else {
            assert(text::views(out@) =~= Seq::<Seq<char>>::empty());
        }
        self.ended = true;
        out
    }
}

proof fn lemma_told_apart(model: Seq<char>, a: Seq<Seq<char>>, b: Seq<Seq<char>>)
    ensures
        told(model, a + b) == if told(model, a).1 {
            told(model, a)
        } else {
            (told(model, a).0 + told(model, b).0, told(model, b).1)
        },
    decreases a.len(),
{
    if a.len() == 0 {
        assert(a + b =~= b);
        assert(told(model, a).0 + told(model, b).0 =~= told(model, b).0);
    } else {
        lemma_told_apart(model, a.skip(1), b);
        assert((a + b).skip(1) =~= a.skip(1) + b);
        assert((a + b)[0] == a[0]);
        let rest = told(model, a.skip(1)).0;
        let tail = told(model, b).0;
        match passage(a[0]) {
            PassageV::Piece(p) => {
                let l = seq![piece_line(model, p)];
                assert(l + (rest + tail) =~= (l + rest) + tail);
            },
            _ => {},
        }
    }
}

/// What a client of Ollama's chat is sent does not depend on where the stream is
/// cut into pieces: `a` and then `b` give what `a + b` gives.
pub proof fn law_pieces_tell_the_same(model: Seq<char>, a: Seq<char>, b: Seq<char>)
    ensures
        ({
            let first = told(model, ended_lines(a));
            let then = told(model, ended_lines(open_line(a) + b));
            told(model, ended_lines(a + b)) == if first.1 {
                first
            } else {
                (first.0 + then.0, then.1)
            }
        }),
{
    law_pieces_make_the_same_lines(a, b);
    lemma_told_apart(model, ended_lines(a), ended_lines(open_line(a) + b));
}

/// Whether `v` is an answer of Ollama by `model` that says `t`, the last one or not.
pub open spec fn is_answer(v: JsonV, model: Seq<char>, t: Seq<char>, done: bool) -> bool {
    &&& json::field(v, "model"@) == Some(JsonV::Str(model))
    &&& json::field(v, "done"@) == Some(JsonV::Bool(done))
    &&& json::field(v, "message"@) matches Some(m) && json::field(m, "role"@) == Some(
        JsonV::Str("assistant"@),
    ) && json::field(m, "content"@) == Some(JsonV::Str(t))
}

proof fn lemma_answer_keys()
    ensures
        "model"@ != "message"@ && "model"@ != "done"@ && "model"@ != "created_at"@,
        "message"@ != "done"@ && "message"@ != "created_at"@ && "done"@ != "created_at"@,
        "role"@ != "content"@,
{
    reveal_strlit("model");
    reveal_strlit("message");
    reveal_strlit("done");
    reveal_strlit("created_at");
    reveal_strlit("role");
    reveal_strlit("content");
    assert("model"@.len() == 5 && "message"@.len() == 7 && "done"@.len() == 4 && "created_at"@.len()
        == 10 && "role"@.len() == 4 && "content"@.len() == 7);
}

/// A client of Ollama is answered what the completion says, as its model and in one
/// piece.
pub proof fn law_completion_is_answered(
    model: Seq<char>,
    now: Seq<char>,
    completion: JsonV,
    choices: Seq<JsonV>,
    message: JsonV,
    t: Seq<char>,
)
    requires
        json::field(completion, "choices"@) == Some(JsonV::Arr(choices)),
        choices.len() > 0,
        json::field(choices[0], "message"@) == Some(message),
        json::field(message, "content"@) == Some(JsonV::Str(t)),
    ensures
        is_answer(replied(model, now, completion), model, t, true),
        json::field(replied(model, now, completion), "created_at"@) == Some(JsonV::Str(now)),
{
    lemma_answer_keys();
    assert(response::first_choice(completion) == Some(choices[0]));
}

/// A client of Ollama is told each piece of a stream in a line of its own, in the order
/// of the pieces, and the end in a last line, after which nothing follows; a line that
/// says nothing is not told.
pub proof fn law_pieces_are_told(
    model: Seq<char>,
    t: Seq<char>,
    chunk: JsonV,
    choices: Seq<JsonV>,
    delta: JsonV,
    piece: Seq<char>,
    rest: Seq<Seq<char>>,
)
    requires
        text::is_tight(t),
        t != "[DONE]"@,
        json::reads_as(t, chunk),
        json::field(chunk, "choices"@) == Some(JsonV::Arr(choices)),
        choices.len() > 0,
        json::field(choices[0], "delta"@) == Some(delta),
        json::field(delta, "content"@) == Some(JsonV::Str(piece)),
    ensures
        piece.len() > 0 ==> told(model, seq!["data: "@ + t] + rest) == (
            seq![piece_line(model, piece)] + told(model, rest).0,
            told(model, rest).1,
        ),
        piece.len() == 0 ==> told(model, seq!["data: "@ + t] + rest) == told(model, rest),
        told(model, seq!["data: [DONE]"@] + rest).0.len() == 1,
        told(model, seq!["data: [DONE]"@] + rest).1,
        exists|v: JsonV|
            piece_line(model, piece) == #[trigger] json::json_print(v) + "\n"@ && is_answer(
                v,
                model,
                piece,
                false,
            ),
        exists|v: JsonV|
            told(model, seq!["data: [DONE]"@] + rest).0[0] == #[trigger] json::json_print(v)
                + "\n"@ && json::field(v, "done"@) == Some(JsonV::Bool(true)) && json::field(
                v,
                "model"@,
            ) == Some(JsonV::Str(model)),
{
    lemma_answer_keys();
    lemma_passage(t);
    lemma_end_passage();
    let line = "data: "@ + t;
    assert(response::first_choice(chunk) == Some(choices[0]));
    let lines = seq![line] + rest;
    assert(lines[0] == line);
    assert(lines.skip(1) =~= rest);
    let ended = seq!["data: [DONE]"@] + rest;
    assert(ended[0] == "data: [DONE]"@);
    assert(ended.skip(1) =~= rest);
    let v = JsonV::Obj(
        Map::<Seq<char>, JsonV>::empty().insert("model"@, JsonV::Str(model)).insert(
            "message"@,
            assistant(piece),
        ).insert("done"@, JsonV::Bool(false)),
    );
    assert(piece_line(model, piece) == json::json_print(v) + "\n"@);
    assert(is_answer(v, model, piece, false));
    let w = JsonV::Obj(
        Map::<Seq<char>, JsonV>::empty().insert("model"@, JsonV::Str(model)).insert(
            "done"@,
            JsonV::Bool(true),
        ),
    );
    assert(last_line(model) == json::json_print(w) + "\n"@);
}

proof fn lemma_passage(t: Seq<char>)
    requires
        text::is_tight(t),
        t != "[DONE]"@,
    ensures
        passage("data: "@ + t) == (match json::json_parse(t) {
            Some(chunk) => chunk_passage(chunk),
            None => PassageV::Nothing,
        }),
{
    reveal_strlit("data: ");
    reveal_strlit("data:");
    let none = Seq::<char>::empty();
    let space = seq![' '];
    let line = "data: "@ + t;
    assert("data: "@ =~= "data:"@ + space);
    assert(line =~= "data:"@ + (space + t));
    assert(line[0] == 'd');
    assert(line.last() == t.last());
    text::lemma_tight_stays(line);
    text::law_prefix_is_taken_off("data:"@, space + t, none);
    assert((space + t)[0] == ' ');
    assert(!text::starts(space + t, "data:"@)) by {
        if text::starts(space + t, "data:"@) {
            assert((space + t).subrange(0, 5)[0] == ' ');
        }
    }
    text::lemma_stripped("data:"@, space + t, "data:"@);
    text::law_trimming_takes_off_space(space, t, none);
    assert(space + t + none =~= space + t);
}

proof fn lemma_end_passage()
    ensures
        passage("data: [DONE]"@) == PassageV::End,
{
    reveal_strlit("data: [DONE]");
    reveal_strlit("data:");
    reveal_strlit("[DONE]");
    let none = Seq::<char>::empty();
    let space = seq![' '];
    let mark = "[DONE]"@;
    let line = "data: [DONE]"@;
    assert(line =~= "data:"@ + (space + mark));
    text::lemma_tight_stays(line);
    text::law_prefix_is_taken_off("data:"@, space + mark, none);
    assert((space + mark)[0] == ' ');
    assert(!text::starts(space + mark, "data:"@)) by {
        if text::starts(space + mark, "data:"@) {
            assert((space + mark).subrange(0, 5)[0] == ' ');
        }
    }
    text::lemma_stripped("data:"@, space + mark, "data:"@);
    text::law_trimming_takes_off_space(space, mark, none);
    assert(space + mark + none =~= space + mark);
}

} // verus!
