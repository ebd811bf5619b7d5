//! Responses on their way over a data channel.

use crate::cluster_dc_e2ee::request;
use crate::cluster_dc_e2ee::request::EncryptedConsumerState;
use crate::crypto::envelope;
use crate::crypto::envelope::{EncryptedPayload, EnvelopeError};
use crate::crypto::primitives;
use crate::crypto::session;
use crate::inference_sidecar;
use crate::p2p_protocol::StreamMessage;
use crate::proxy_e2ee;
use crate::strmap::StrMap;
use crate::text;
use std::collections::BTreeMap;
use vstd::prelude::*;
use vstd::string::StringSliceAdditionalSpecFns;
use vstd::utf8::encode_utf8;

verus! {

broadcast use vstd::std_specs::btree::group_btree_axioms;

/// The longest chunk of a response, in bytes before encryption.
pub const STREAM_CHUNK_BYTES: usize = 1024;

/// A chunk of a response.
#[derive(Debug)]
pub struct StreamChunk {
    pub seq: u32,
    pub nonce: Vec<u8>,
    pub ciphertext: Vec<u8>,
    pub done: bool,
}

/// A response that is arriving: the number of the chunk that is due, and the
/// chunks that came early.
#[derive(Debug)]
pub struct PendingEncryptedStream {
    pub path: String,
    pub room_id: String,
    pub consumer_ephemeral_secret: [u8; 32],
    pub provider_pk: [u8; 32],
    pub aad_version: u8,
    pub next_seq: u32,
    pub reorder: BTreeMap<u32, StreamChunk>,
}

/// What came of a chunk: nothing yet, or texts that are due, perhaps the last.
#[derive(Debug, PartialEq, Eq)]
pub enum EncryptedStreamChunkOutcome {
    Waiting,
    Progress { parts: Vec<String> },
    Finished { parts: Vec<String> },
}

/// Whether a chunk is missing among those from `next` on.
pub open spec fn has_gap(next: u32, reorder: Map<u32, StreamChunk>) -> bool {
    exists|n: u32| next <= n && !#[trigger] reorder.dom().contains(n)
}

impl PendingEncryptedStream {
    /// Whether a chunk is still missing among those from the one that is due on.
    pub open spec fn wf(self) -> bool {
        has_gap(self.next_seq, self.reorder@)
    }

    /// Whether one is still missing after the chunk `seq` has come, so that the
    /// numbers do not run out.
    pub open spec fn has_gap_after(self, seq: u32) -> bool {
        exists|n: u32|
            self.next_seq <= n && n != seq && !#[trigger] self.reorder@.dom().contains(n)
    }
}

/// Whether every response is well-formed.
pub open spec fn streams_wf(streams: StrMap<PendingEncryptedStream>) -> bool {
    streams.wf() && forall|k: Seq<char>| #[trigger]
        streams@.dom().contains(k) ==> streams@[k].wf()
}

/// The response to a request before its first chunk.
pub fn init_pending_encrypted_stream(state: &EncryptedConsumerState) -> (r: PendingEncryptedStream)
    ensures
        r.path@ == state.path@,
        r.room_id@ == state.room_id@,
        r.consumer_ephemeral_secret@ == state.ephemeral_secret@,
        r.provider_pk@ == state.provider_pk@,
        r.aad_version == state.aad_version,
        r.next_seq == 0,
        r.reorder@ == Map::<u32, StreamChunk>::empty(),
        r.wf(),
{
    let r = PendingEncryptedStream {
        path: text::copy(&state.path),
        room_id: text::copy(&state.room_id),
        consumer_ephemeral_secret: state.ephemeral_secret,
        provider_pk: state.provider_pk,
        aad_version: state.aad_version,
        next_seq: 0,
        reorder: BTreeMap::new(),
    };
    assert(!r.reorder@.dom().contains(0));
    r
}

/// The text of a response that came in one message, or in words why there is
/// none.
pub open spec fn response_text(
    state: EncryptedConsumerState,
    req_id: Seq<char>,
    msg: StreamMessage,
) -> Result<Seq<char>, Seq<char>> {
    match msg {
        StreamMessage::EncryptedProxyResponse { nonce, ciphertext, error, .. } => match error {
            Some(e) => Err(e@),
            None => match envelope::opened(
                session::session_key(
                    primitives::x25519_shared(state.ephemeral_secret@, state.provider_pk@),
                    req_id,
                    state.room_id@,
                ),
                req_id,
                state.path@,
                state.room_id@,
                nonce@,
                ciphertext@,
            ) {
                Ok(m) => if vstd::utf8::valid_utf8(m) {
                    Ok(vstd::utf8::decode_utf8(m))
                } else {
                    Err(text::utf8_fault(m))
                },
                Err(e) => Err(e.words()),
            },
        },
        _ => Err("expected encrypted proxy response"@),
    }
}

/// The text of a response that came in one message.
pub fn decrypt_encrypted_response(
    state: &EncryptedConsumerState,
    req_id: &str,
    msg: StreamMessage,
) -> (r: Result<String, String>)
    ensures
        match response_text(*state, req_id@, msg) {
            Ok(t) => r matches Ok(s) && s@ == t,
            Err(e) => r matches Err(m) && m@ == e,
        },
{
    match msg {
        StreamMessage::EncryptedProxyResponse { nonce, ciphertext, error, .. } => {
            if let Some(e) = error {
                return Err(e);
            }
            let key: [u8; 32] = session::derive_session_key_consumer(
                &state.ephemeral_secret,
                &state.provider_pk,
                req_id,
                &state.room_id,
            );
            let payload = EncryptedPayload { nonce, ciphertext };
            match envelope::decrypt_payload(&key, req_id, &state.path, &state.room_id, &payload) {
                Ok(m) => text::utf8_text(m),
                Err(e) => Err(e.message()),
            }
        },
        _ => Err(text::copy("expected encrypted proxy response")),
    }
}

/// A response that a provider encrypted and sent in one message is read back.
pub proof fn law_response_in_one_message_is_read_back(
    state: EncryptedConsumerState,
    req_id: Seq<char>,
    t: Seq<char>,
    provider_secret: Seq<u8>,
    p: EncryptedPayload,
    aad_version: u8,
    msg: StreamMessage,
)
    requires
        state.provider_pk@ == primitives::x25519_public(provider_secret),
        inference_sidecar::is_sealed_response(
            p,
            provider_secret,
            primitives::x25519_public(state.ephemeral_secret@),
            req_id,
            state.path@,
            state.room_id@,
            encode_utf8(t),
        ),
        inference_sidecar::is_whole_response(msg, req_id, aad_version, p),
    ensures
        response_text(state, req_id, msg) == Ok::<Seq<char>, Seq<char>>(t),
{
    vstd::utf8::encode_utf8_valid_utf8(t);
    vstd::utf8::encode_utf8_decode_utf8(t);
    assert(state.ephemeral_secret@.len() == 32);
}

/// The keys and labels under which the chunks of a response are encrypted.
pub struct StreamKeys {
    pub path: Seq<char>,
    pub room_id: Seq<char>,
    pub secret: Seq<u8>,
    pub provider_pk: Seq<u8>,
    pub req_id: Seq<char>,
}

/// The keys and labels of the response `s` to the request `req_id`.
pub open spec fn keys_of(s: PendingEncryptedStream, req_id: Seq<char>) -> StreamKeys {
    StreamKeys {
        path: s.path@,
        room_id: s.room_id@,
        secret: s.consumer_ephemeral_secret@,
        provider_pk: s.provider_pk@,
        req_id,
    }
}

/// The text of a chunk, or in words why there is none.
pub open spec fn part_of(k: StreamKeys, c: StreamChunk) -> Result<Seq<char>, Seq<char>> {
    match proxy_e2ee::chunk_opened(
        k.secret,
        k.provider_pk,
        k.req_id,
        k.path,
        c.seq,
        k.room_id,
        c.nonce@,
        c.ciphertext@,
    ) {
        Ok(m) => if vstd::utf8::valid_utf8(m) {
            Ok(vstd::utf8::decode_utf8(m))
        } else {
            Err(text::utf8_fault(m))
        },
        Err(e) => Err(e.words()),
    }
}

/// What comes of the chunks that are there.
pub enum Drained {
    /// The chunk `next` is missing; `parts` are the texts before it.
    Wait { next: int, reorder: Map<u32, StreamChunk>, parts: Seq<Seq<char>> },
    /// The chunk `next` gave no text, and is gone.
    Fail { next: int, reorder: Map<u32, StreamChunk>, error: Seq<char> },
    /// The last chunk gave its text.
    Finish { parts: Seq<Seq<char>> },
}

/// What comes of the chunks `reorder` where `next` is due and `parts` are the
/// texts before it: one chunk after the other is taken while the one that is due
/// is there.
pub open spec fn drained(
    k: StreamKeys,
    next: int,
    reorder: Map<u32, StreamChunk>,
    parts: Seq<Seq<char>>,
) -> Drained
    decreases u32::MAX - next,
{
    if 0 <= next < u32::MAX && reorder.dom().contains(next as u32) {
        let c = reorder[next as u32];
        let rest = reorder.remove(next as u32);
        match part_of(k, c) {
            Err(error) => Drained::Fail { next, reorder: rest, error },
            Ok(t) => if c.done {
                Drained::Finish { parts: parts.push(t) }
            } else {
                drained(k, next + 1, rest, parts.push(t))
            },
        }
    } else {
        Drained::Wait { next, reorder, parts }
    }
}

/// Texts come out in the order of their chunks' numbers, one for each number
/// from the one that was due to the one that is missing.
pub proof fn law_drained_in_order(
    k: StreamKeys,
    next: int,
    reorder: Map<u32, StreamChunk>,
    parts: Seq<Seq<char>>,
    i: int,
)
    requires
        drained(k, next, reorder, parts) is Wait,
        next <= i < drained(k, next, reorder, parts)->Wait_next,
    ensures
        drained(k, next, reorder, parts)->Wait_parts.len() == parts.len()
            + drained(k, next, reorder, parts)->Wait_next - next,
        reorder.dom().contains(i as u32),
        part_of(k, reorder[i as u32]) == Ok::<Seq<char>, Seq<char>>(
            drained(k, next, reorder, parts)->Wait_parts[parts.len() + i - next],
        ),
    decreases u32::MAX - next,
{
    if 0 <= next < u32::MAX && reorder.dom().contains(next as u32) {
        let rest = reorder.remove(next as u32);
        let t = part_of(k, reorder[next as u32])->Ok_0;
        lemma_drained_keeps(k, next + 1, rest, parts.push(t));
        let p = drained(k, next, reorder, parts)->Wait_parts;
        assert(p.take(parts.len() as int + 1)[parts.len() as int] == p[parts.len() as int]);
        if i > next {
            law_drained_in_order(k, next + 1, rest, parts.push(t), i);
            assert(i as u32 != next as u32);
        }
    }
}

proof fn lemma_drained_keeps(
    k: StreamKeys,
    next: int,
    reorder: Map<u32, StreamChunk>,
    parts: Seq<Seq<char>>,
)
    ensures
        drained(k, next, reorder, parts) matches Drained::Wait { next: n, parts: p, .. } ==> n
            >= next && (next <= u32::MAX ==> n <= u32::MAX) && p.len() == parts.len() + n - next && p.take(parts.len() as int) == parts,
    decreases u32::MAX - next,
{
    if 0 <= next < u32::MAX && reorder.dom().contains(next as u32) {
        let rest = reorder.remove(next as u32);
        if let Ok(t) = part_of(k, reorder[next as u32]) {
            lemma_drained_keeps(k, next + 1, rest, parts.push(t));
            if let Drained::Wait { next: n, parts: p, .. } = drained(k, next, reorder, parts) {
                if !reorder[next as u32].done {
                    assert(p.take(parts.len() as int + 1).take(parts.len() as int) =~= p.take(
                        parts.len() as int,
                    ));
                    assert(parts.push(t).take(parts.len() as int) =~= parts);
                }
            }
        }
    } else {
        assert(parts.take(parts.len() as int) =~= parts);
    }
}

/// Chunks may arrive in any order: a chunk that arrives after others were taken
/// gives the same as if it had been there before.
pub proof fn law_arrival_order(
    k: StreamKeys,
    next: int,
    reorder: Map<u32, StreamChunk>,
    parts: Seq<Seq<char>>,
    seq: u32,
    c: StreamChunk,
)
    requires
        !reorder.dom().contains(seq),
        drained(k, next, reorder, parts) is Wait,
    ensures
        seq >= drained(k, next, reorder, parts)->Wait_next || seq < next,
        seq >= next ==> drained(k, next, reorder.insert(seq, c), parts) == drained(
            k,
            drained(k, next, reorder, parts)->Wait_next,
            drained(k, next, reorder, parts)->Wait_reorder.insert(seq, c),
            drained(k, next, reorder, parts)->Wait_parts,
        ),
    decreases u32::MAX - next,
{
    if 0 <= next < u32::MAX && reorder.dom().contains(next as u32) {
        let rest = reorder.remove(next as u32);
        let t = part_of(k, reorder[next as u32])->Ok_0;
        law_arrival_order(k, next + 1, rest, parts.push(t), seq, c);
        assert(reorder.insert(seq, c).remove(next as u32) =~= rest.insert(seq, c));
    }
}

/// Whether `s` is `old` but for the chunk that is due and the chunks that are
/// there.
pub open spec fn same_stream(s: PendingEncryptedStream, old: PendingEncryptedStream) -> bool {
    &&& s.path == old.path
    &&& s.room_id == old.room_id
    &&& s.consumer_ephemeral_secret == old.consumer_ephemeral_secret
    &&& s.provider_pk == old.provider_pk
    &&& s.aad_version == old.aad_version
}

fn decrypt_part(s: &PendingEncryptedStream, req_id: &str, c: &StreamChunk) -> (r: Result<
    String,
    String,
>)
    ensures
        match part_of(keys_of(*s, req_id@), *c) {
            Ok(t) => r matches Ok(part) && part@ == t,
            Err(e) => r matches Err(m) && m@ == e,
        },
{
    let payload = EncryptedPayload {
        nonce: request::copy_bytes(c.nonce.as_slice()),
        ciphertext: request::copy_bytes(c.ciphertext.as_slice()),
    };
    match proxy_e2ee::decrypt_proxy_chunk(
        &s.consumer_ephemeral_secret,
        &s.provider_pk,
        req_id,
        &s.path,
        c.seq,
        &s.room_id,
        &payload,
    ) {
        Ok(m) => text::utf8_text(m),
        Err(e) => Err(e.message()),
    }
}

/// Takes the chunks that are due, as far as they are there. The flag says
/// whether the last chunk was among them.
fn drain(s: &mut PendingEncryptedStream, req_id: &str) -> (r: Result<(Vec<String>, bool), String>)
    requires
        old(s).wf(),
    ensures
        same_stream(*final(s), *old(s)),
        final(s).wf(),
        match drained(
            keys_of(*old(s), req_id@),
            old(s).next_seq as int,
            old(s).reorder@,
            Seq::empty(),
        ) {
            Drained::Wait { next, reorder, parts } => {
                &&& r matches Ok((ps, finished)) && !finished && text::views(ps@) == parts
                &&& final(s).next_seq == next
                &&& final(s).reorder@ == reorder
            },
            Drained::Fail { next, reorder, error } => {
                &&& r matches Err(m) && m@ == error
                &&& final(s).next_seq == next
                &&& final(s).reorder@ == reorder
            },
            Drained::Finish { parts } => r matches Ok((ps, finished)) && finished && text::views(
                ps@,
            ) == parts,
        },
{
    let ghost k = keys_of(*s, req_id@);
    let ghost start = drained(k, s.next_seq as int, s.reorder@, Seq::empty());
    let mut parts: Vec<String> = Vec::new();
    assert(text::views(parts@) =~= Seq::<Seq<char>>::empty());
    loop
        invariant
            same_stream(*s, *old(s)),
            s.wf(),
            k == keys_of(*s, req_id@),
            k == keys_of(*old(s), req_id@),
            start == drained(
                keys_of(*old(s), req_id@),
                old(s).next_seq as int,
                old(s).reorder@,
                Seq::empty(),
            ),
            start == drained(k, s.next_seq as int, s.reorder@, text::views(parts@)),
        decreases u32::MAX - s.next_seq,
    {
        let due: u32 = s.next_seq;
        let ghost before = s.reorder@;
        match s.reorder.remove(&due) {
            None => {
                assert(s.reorder@ =~= before);
                assert(!s.reorder@.dom().contains(due));
                return Ok((parts, false));
            },
            Some(c) => {
                let ghost n = choose|n: u32| due <= n && !#[trigger] before.dom().contains(n);
                assert(s.reorder@ =~= before.remove(due));
                assert(!s.reorder@.dom().contains(n));
                assert(!s.reorder@.dom().contains(due));
                let part = match decrypt_part(s, req_id, &c) {
                    Ok(p) => p,
                    Err(m) => {
                        return Err(m);
                    },
                };
                proof {
                    text::lemma_views_push(parts@, part);
                }
                parts.push(part);
                s.next_seq = due + 1;
                if c.done {
                    return Ok((parts, true));
                }
            },
        }
    }
}

/// Whether `r` and the responses `after` are what comes of the chunk `c` of the response
/// to `req_id`, where the responses were `before`.
pub open spec fn takes_chunk(
    before: Map<Seq<char>, PendingEncryptedStream>,
    req_id: Seq<char>,
    c: StreamChunk,
    after: Map<Seq<char>, PendingEncryptedStream>,
    r: Result<EncryptedStreamChunkOutcome, String>,
) -> bool {
    &&& after.remove(req_id) == before.remove(req_id)
    &&& if before.dom().contains(req_id) {
        let s = before[req_id];
        match drained(
            keys_of(s, req_id),
            s.next_seq as int,
            s.reorder@.insert(c.seq, c),
            Seq::empty(),
        ) {
            Drained::Wait { next, reorder, parts } => {
                &&& after.dom().contains(req_id)
                &&& same_stream(after[req_id], s)
                &&& after[req_id].next_seq == next
                &&& after[req_id].reorder@ == reorder
                &&& if parts.len() == 0 {
                    r matches Ok(EncryptedStreamChunkOutcome::Waiting)
                } else {
                    r matches Ok(EncryptedStreamChunkOutcome::Progress { parts: ps })
                        && text::views(ps@) == parts
                }
            },
            Drained::Fail { next, reorder, error } => {
                &&& after.dom().contains(req_id)
                &&& same_stream(after[req_id], s)
                &&& after[req_id].next_seq == next
                &&& after[req_id].reorder@ == reorder
                &&& r matches Err(m) && m@ == error
            },
            Drained::Finish { parts } => {
                &&& !after.dom().contains(req_id)
                &&& r matches Ok(EncryptedStreamChunkOutcome::Finished { parts: ps })
                    && text::views(ps@) == parts
            },
        }
    } else {
        &&& after == before
        &&& r matches Err(m) && m@ == "missing encrypted stream state"@
    }
}

/// Takes a chunk of a response. The texts that are due come out in the order of
/// their numbers; a response is done with once its last chunk gave its text, and
/// fails where a chunk that is due gives none.
pub fn handle_encrypted_stream_chunk(
    streams: &mut StrMap<PendingEncryptedStream>,
    req_id: &str,
    seq: u32,
    nonce: Vec<u8>,
    ciphertext: Vec<u8>,
    done: bool,
) -> (r: Result<EncryptedStreamChunkOutcome, String>)
    requires
        streams_wf(*old(streams)),
        old(streams)@.dom().contains(req_id@) ==> old(streams)@[req_id@].has_gap_after(seq),
    ensures
        streams_wf(*final(streams)),
        takes_chunk(
            old(streams)@,
            req_id@,
            (StreamChunk { seq, nonce, ciphertext, done }),
            final(streams)@,
            r,
        ),
{
    let ghost before = streams@;
    let mut s = match streams.remove(req_id) {
        Some(s) => s,
        None => {
            assert(streams@ =~= before);
            return Err(text::copy("missing encrypted stream state"));
        },
    };
    let ghost n = choose|n: u32|
        s.next_seq <= n && n != seq && !#[trigger] s.reorder@.dom().contains(n);
    s.reorder.insert(seq, StreamChunk { seq, nonce, ciphertext, done });
    assert(!s.reorder@.dom().contains(n));
    let result = drain(&mut s, req_id);
    let finished = match &result {
        Ok((_, f)) => *f,
        Err(_) => false,
    };
    if !finished {
        streams.insert(text::copy(req_id), s);
    }
    assert(streams@.remove(req_id@) =~= before.remove(req_id@));
    match result {
        Ok((parts, f)) => if f {
            Ok(EncryptedStreamChunkOutcome::Finished { parts })
        } else if parts.len() == 0 {
            Ok(EncryptedStreamChunkOutcome::Waiting)
        } else {
            Ok(EncryptedStreamChunkOutcome::Progress { parts })
        },
        Err(m) => Err(m),
    }
}

/// The chunks of a text that is sent, in order, each with whether it is the
/// last: as long as there is a full chunk one is taken, and at the end the rest
/// is. What is left is sent later.
pub open spec fn flushed(s: Seq<char>, done: bool) -> (Seq<(Seq<char>, bool)>, Seq<char>)
    decreases s.len(),
{
    if text::utf8_len(s) >= STREAM_CHUNK_BYTES {
        let n = text::fitting(s, STREAM_CHUNK_BYTES as int);
        if 0 < n <= s.len() {
            let (more, left) = flushed(s.skip(n), done);
            (seq![(s.take(n), done && s.skip(n).len() == 0)] + more, left)
        } else {
            (Seq::empty(), s)
        }
    } else if done && s.len() > 0 {
        (seq![(s, true)], Seq::empty())
    } else {
        (Seq::empty(), s)
    }
}

/// The texts of flushed chunks.
pub open spec fn chunk_texts(cs: Seq<(Seq<char>, bool)>) -> Seq<Seq<char>> {
    cs.map_values(|c: (Seq<char>, bool)| c.0)
}

proof fn lemma_fits_some(s: Seq<char>)
    requires
        text::utf8_len(s) >= STREAM_CHUNK_BYTES,
    ensures
        0 < text::fitting(s, STREAM_CHUNK_BYTES as int) <= s.len(),
{
    request::lemma_fitting_len(s, STREAM_CHUNK_BYTES as int);
    if s.len() > 0 {
        request::lemma_fitting_len(s.skip(1), STREAM_CHUNK_BYTES - text::utf8_width(s[0]));
    }
}

/// The chunks that are sent and what is left, put in a row, are the text; where
/// it is the end of the response nothing is left, and of a text that is not
/// empty the last chunk, and no other, is marked as the last.
pub proof fn law_flushed(s: Seq<char>, done: bool)
    ensures
        request::in_a_row(chunk_texts(flushed(s, done).0)) + flushed(s, done).1 == s,
        done ==> flushed(s, done).1.len() == 0,
        forall|i: int|
            0 <= i < flushed(s, done).0.len() ==> ((#[trigger] flushed(s, done).0[i]).1 <==> done
                && i == flushed(s, done).0.len() - 1),
        done && s.len() > 0 ==> flushed(s, done).0.len() > 0,
    decreases s.len(),
{
    let (cs, left) = flushed(s, done);
    if text::utf8_len(s) >= STREAM_CHUNK_BYTES {
        lemma_fits_some(s);
        let n = text::fitting(s, STREAM_CHUNK_BYTES as int);
        let rest = s.skip(n);
        let (more, _) = flushed(rest, done);
        law_flushed(rest, done);
        assert(chunk_texts(cs).skip(1) =~= chunk_texts(more));
        assert(chunk_texts(cs)[0] == s.take(n));
        assert(s.take(n) + (request::in_a_row(chunk_texts(more)) + left) =~= s);
        assert(request::in_a_row(chunk_texts(cs)) + left =~= s);
        assert forall|i: int| 0 <= i < cs.len() implies ((#[trigger] cs[i]).1 <==> done && i
            == cs.len() - 1) by {
            if i > 0 {
                assert(cs[i] == more[i - 1]);
            }
        }
        if rest.len() == 0 {
            assert(more.len() == 0);
        }
    } else if done && s.len() > 0 {
        assert(chunk_texts(cs).skip(1) =~= Seq::<Seq<char>>::empty());
        assert(request::in_a_row(chunk_texts(cs)) =~= s + request::in_a_row(
            Seq::<Seq<char>>::empty(),
        ));
        assert(request::in_a_row(chunk_texts(cs)) + left =~= s);
    } else {
        assert(chunk_texts(cs) =~= Seq::<Seq<char>>::empty());
        assert(request::in_a_row(chunk_texts(cs)) + left =~= s);
    }
}

/// Each chunk that is sent fits in a chunk's bytes.
pub proof fn law_flushed_fit(s: Seq<char>, done: bool, i: int)
    requires
        0 <= i < flushed(s, done).0.len(),
    ensures
        text::utf8_len(flushed(s, done).0[i].0) <= STREAM_CHUNK_BYTES,
        0 < flushed(s, done).0[i].0.len(),
    decreases s.len(),
{
    if text::utf8_len(s) >= STREAM_CHUNK_BYTES {
        lemma_fits_some(s);
        let n = text::fitting(s, STREAM_CHUNK_BYTES as int);
        if i == 0 {
            request::lemma_fitting(s, STREAM_CHUNK_BYTES as int);
        } else {
            law_flushed_fit(s.skip(n), done, i - 1);
        }
    }
}

/// The texts and marks of chunks.
pub open spec fn pieces_view(v: Seq<(String, bool)>) -> Seq<(Seq<char>, bool)> {
    v.map_values(|p: (String, bool)| (p.0@, p.1))
}

/// Takes the chunks that are to be sent from the text that is pending.
pub fn flush_response_chunks(pending: &mut String, done: bool) -> (r: Vec<(String, bool)>)
    ensures
        (pieces_view(r@), final(pending)@) == flushed(old(pending)@, done),
{
    let ghost all = pending@;
    let mut out: Vec<(String, bool)> = Vec::new();
    let cs = text::chars_of(pending);
    let mut start: usize = 0;
    assert(cs@.skip(0) =~= cs@);
    assert(pieces_view(out@) + flushed(all, done).0 =~= flushed(all, done).0);
    loop
        invariant
            start <= cs@.len(),
            cs@ == all,
            pieces_view(out@) + flushed(all.skip(start as int), done).0 == flushed(all, done).0,
            flushed(all.skip(start as int), done).1 == flushed(all, done).1,
        ensures
            start <= cs@.len(),
            cs@ == all,
            pieces_view(out@) == flushed(all, done).0,
            flushed(all, done).1 == all.skip(start as int),
        decreases cs@.len() - start,
    {
        let ghost rest = all.skip(start as int);
        let mut used: usize = 0;
        let mut end: usize = start;
        assert(rest.skip(0) =~= rest);
        assert(rest.take(0).len() == 0);
        while end < cs.len() && text::char_width(cs[end]) <= STREAM_CHUNK_BYTES - used
            invariant
                start <= end <= cs@.len(),
                cs@ == all,
                rest == all.skip(start as int),
                used <= STREAM_CHUNK_BYTES,
                used == text::utf8_len(rest.take(end - start)),
                text::fitting(rest, STREAM_CHUNK_BYTES as int) == (end - start) + text::fitting(
                    rest.skip(end - start),
                    STREAM_CHUNK_BYTES - used,
                ),
            decreases cs@.len() - end,
        {
            assert(rest.skip(end - start)[0] == cs@[end as int]);
            assert(rest.skip(end - start).skip(1) =~= rest.skip(end - start + 1));
            assert(rest.take(end - start + 1).drop_last() =~= rest.take(end - start));
            used += text::char_width(cs[end]);
            end += 1;
        }
        proof {
            if end < cs.len() {
                assert(rest.skip(end - start)[0] == cs@[end as int]);
            }
            lemma_utf8_len_split(rest, end - start);
            if end < cs.len() {
                lemma_utf8_len_split(rest.skip(end - start), 1);
                let one = rest.skip(end - start).take(1);
                assert(one.drop_last().len() == 0);
                reveal_with_fuel(text::utf8_len, 2);
                assert(text::utf8_len(one) == text::utf8_width(one.last()));
                assert(one.last() == cs@[end as int]);
            } else {
                assert(rest.take(end - start) =~= rest);
            }
        }
        let full = end < cs.len() || used >= STREAM_CHUNK_BYTES;
        assert(full <==> text::utf8_len(rest) >= STREAM_CHUNK_BYTES);
        if full {
            let last = done && end == cs.len();
            let piece = text::string_of(vstd::slice::slice_subrange(cs.as_slice(), start, end));
            proof {
                lemma_fits_some(rest);
                let n = text::fitting(rest, STREAM_CHUNK_BYTES as int);
                assert(n == end - start);
                assert(piece@ =~= rest.take(n));
                assert(rest.skip(n) =~= all.skip(end as int));
                let p = (piece, last);
                assert(pieces_view(out@.push(p)) =~= pieces_view(out@).push((piece@, last)));
                let more = flushed(all.skip(end as int), done).0;
                assert(pieces_view(out@).push((piece@, last)) + more =~= pieces_view(out@) + (seq![
                    (piece@, last),
                ] + more));
            }
            out.push((piece, last));
            start = end;
        } else if done && start < cs.len() {
            let piece = text::string_of(vstd::slice::slice_subrange(cs.as_slice(), start, cs.len()));
            proof {
                assert(piece@ =~= rest);
                let p = (piece, true);
                assert(pieces_view(out@.push(p)) =~= pieces_view(out@) + seq![(rest, true)]);
            }
            out.push((piece, true));
            start = cs.len();
            assert(all.skip(start as int) =~= Seq::empty());
            break;
        } else {
            assert(pieces_view(out@) + flushed(rest, done).0 =~= pieces_view(out@));
            break;
        }
    }
    let left = text::string_of(vstd::slice::slice_subrange(cs.as_slice(), start, cs.len()));
    assert(left@ =~= all.skip(start as int));
    *pending = left;
    out
}

/// The bytes of a text are those of its parts.
proof fn lemma_utf8_len_split(s: Seq<char>, n: int)
    requires
        0 <= n <= s.len(),
    ensures
        text::utf8_len(s) == text::utf8_len(s.take(n)) + text::utf8_len(s.skip(n)),
    decreases s.len(),
{
    if n == s.len() {
        assert(s.take(n) =~= s);
        assert(s.skip(n).len() == 0);
    } else {
        lemma_utf8_len_split(s.drop_last(), n);
        assert(s.drop_last().take(n) =~= s.take(n));
        assert(s.drop_last().skip(n) =~= s.skip(n).drop_last());
        assert(s.skip(n).last() == s.last());
    }
}

/// Whether `m` carries the chunk `seq` of a response, whose text is `plain`.
pub open spec fn is_stream_chunk(
    m: StreamMessage,
    room_static_secret: Seq<u8>,
    consumer_pk: Seq<u8>,
    req_id: Seq<char>,
    path: Seq<char>,
    room_id: Seq<char>,
    aad_version: u8,
    seq: int,
    plain: Seq<char>,
    done: bool,
) -> bool {
    &&& m is EncryptedProxyStreamChunk
    &&& m->EncryptedProxyStreamChunk_req_id@ == req_id
    &&& m->EncryptedProxyStreamChunk_seq == seq
    &&& m->EncryptedProxyStreamChunk_aad_version == aad_version
    &&& m->done == done
    &&& m->EncryptedProxyStreamChunk_ciphertext@ == primitives::aead_sealed(
        session::provider_session_key(room_static_secret, consumer_pk, req_id, room_id),
        m->EncryptedProxyStreamChunk_nonce@,
        envelope::aad(
            req_id,
            proxy_e2ee::chunk_label(path, m->EncryptedProxyStreamChunk_seq),
            room_id,
        ),
        encode_utf8(plain),
    )
    &&& forall|secret: Seq<u8>|
        secret.len() == 32 && consumer_pk == #[trigger] primitives::x25519_public(secret)
            ==> proxy_e2ee::chunk_opened(
            secret,
            primitives::x25519_public(room_static_secret),
            req_id,
            path,
            m->EncryptedProxyStreamChunk_seq,
            room_id,
            m->EncryptedProxyStreamChunk_nonce@,
            m->EncryptedProxyStreamChunk_ciphertext@,
        ) == Ok::<Seq<u8>, EnvelopeError>(encode_utf8(plain))
}

/// The message that carries the chunk `seq` of a response, encrypted under `nonce`.
/// The consumer reads the chunk back.
pub fn encrypt_stream_chunk_with_nonce(
    room_static_secret: &[u8; 32],
    consumer_ephemeral_pk: &[u8; 32],
    req_id: &str,
    path: &str,
    room_id: &str,
    aad_version: u8,
    seq: u32,
    piece: &str,
    done: bool,
    nonce: &[u8; 12],
) -> (r: Result<StreamMessage, EnvelopeError>)
    requires
        encode_utf8(piece@).len() + 16 <= isize::MAX,
    ensures
        r is Ok <==> primitives::sealable(encode_utf8(piece@).len()),
        match r {
            Ok(m) => {
                &&& is_stream_chunk(
                    m,
                    room_static_secret@,
                    consumer_ephemeral_pk@,
                    req_id@,
                    path@,
                    room_id@,
                    aad_version,
                    seq as int,
                    piece@,
                    done,
                )
                &&& m->EncryptedProxyStreamChunk_nonce@ == nonce@
            },
            Err(e) => e == EnvelopeError::TooLong,
        },
{
    match proxy_e2ee::encrypt_proxy_chunk_with_nonce(
        room_static_secret,
        consumer_ephemeral_pk,
        req_id,
        path,
        seq,
        room_id,
        piece.as_bytes(),
        nonce,
    ) {
        Ok(p) => Ok(
            StreamMessage::EncryptedProxyStreamChunk {
                req_id: text::copy(req_id),
                seq,
                nonce: p.nonce,
                ciphertext: p.ciphertext,
                aad_version,
                done,
            },
        ),
        Err(e) => Err(e),
    }
}

/// The message that carries the chunk `seq` of a response, encrypted under a random
/// nonce. It fails where the operating system gives no random bytes, and where the
/// chunk is too long.
pub fn encrypt_stream_chunk(
    room_static_secret: &[u8; 32],
    consumer_ephemeral_pk: &[u8; 32],
    req_id: &str,
    path: &str,
    room_id: &str,
    aad_version: u8,
    seq: u32,
    piece: &str,
    done: bool,
) -> (r: Result<StreamMessage, EnvelopeError>)
    requires
        encode_utf8(piece@).len() + 16 <= isize::MAX,
    ensures
        match r {
            Ok(m) => is_stream_chunk(
                m,
                room_static_secret@,
                consumer_ephemeral_pk@,
                req_id@,
                path@,
                room_id@,
                aad_version,
                seq as int,
                piece@,
                done,
            ) && primitives::sealable(encode_utf8(piece@).len()),
            Err(EnvelopeError::TooLong) => !primitives::sealable(encode_utf8(piece@).len()),
            Err(e) => e is NoNonce,
        },
{
    match primitives::random_nonce() {
        Ok(nonce) => encrypt_stream_chunk_with_nonce(
            room_static_secret,
            consumer_ephemeral_pk,
            req_id,
            path,
            room_id,
            aad_version,
            seq,
            piece,
            done,
            &nonce,
        ),
        Err(e) => Err(EnvelopeError::NoNonce(e)),
    }
}

/// Whether the chunk `i` of `arrived` is the one that the message `m` carries.
pub open spec fn has_arrived(arrived: Map<u32, StreamChunk>, m: StreamMessage, i: int) -> bool {
    let c = arrived[i as u32];
    &&& arrived.dom().contains(i as u32)
    &&& c.seq == m->EncryptedProxyStreamChunk_seq
    &&& c.nonce@ == m->EncryptedProxyStreamChunk_nonce@
    &&& c.ciphertext@ == m->EncryptedProxyStreamChunk_ciphertext@
    &&& c.done == m->done
}

/// Whether the chunks that the messages `ms` carry, from the number `from` on, are
/// all in `arrived`.
pub open spec fn have_arrived(
    arrived: Map<u32, StreamChunk>,
    ms: Seq<StreamMessage>,
    from: int,
) -> bool {
    forall|i: int| from <= i < ms.len() ==> #[trigger] has_arrived(arrived, ms[i], i)
}

/// A response is read back: once all chunks of the messages `ms` are there, the
/// consumer has the texts `pieces`, in their order, and the response has ended.
pub proof fn law_response_is_read_back(
    k: StreamKeys,
    ms: Seq<StreamMessage>,
    pieces: Seq<(Seq<char>, bool)>,
    room_static_secret: Seq<u8>,
    aad_version: u8,
    arrived: Map<u32, StreamChunk>,
    from: int,
)
    requires
        0 <= from < ms.len() < u32::MAX,
        ms.len() == pieces.len(),
        k.secret.len() == 32,
        k.provider_pk == primitives::x25519_public(room_static_secret),
        forall|i: int|
            0 <= i < ms.len() ==> #[trigger] is_stream_chunk(
                ms[i],
                room_static_secret,
                primitives::x25519_public(k.secret),
                k.req_id,
                k.path,
                k.room_id,
                aad_version,
                i,
                pieces[i].0,
                pieces[i].1,
            ),
        forall|i: int| 0 <= i < pieces.len() ==> ((#[trigger] pieces[i]).1 <==> i == pieces.len() - 1),
        have_arrived(arrived, ms, from),
    ensures
        drained(k, from, arrived, chunk_texts(pieces.take(from))) == (Drained::Finish {
            parts: chunk_texts(pieces),
        }),
    decreases ms.len() - from,
{
    assert(has_arrived(arrived, ms[from], from));
    let c = arrived[from as u32];
    let rest = arrived.remove(from as u32);
    assert(is_stream_chunk(
        ms[from],
        room_static_secret,
        primitives::x25519_public(k.secret),
        k.req_id,
        k.path,
        k.room_id,
        aad_version,
        from,
        pieces[from].0,
        pieces[from].1,
    ));
    vstd::utf8::encode_utf8_valid_utf8(pieces[from].0);
    vstd::utf8::encode_utf8_decode_utf8(pieces[from].0);
    assert(part_of(k, c) == Ok::<Seq<char>, Seq<char>>(pieces[from].0));
    let parts = chunk_texts(pieces.take(from));
    assert(parts.push(pieces[from].0) =~= chunk_texts(pieces.take(from + 1)));
    if from == ms.len() - 1 {
        assert(pieces.take(from + 1) =~= pieces);
    } else {
        assert forall|i: int| from + 1 <= i < ms.len() implies #[trigger] has_arrived(
            rest,
            ms[i],
            i,
        ) by {
            assert(has_arrived(arrived, ms[i], i));
            assert(i as u32 != from as u32);
        }
        law_response_is_read_back(k, ms, pieces, room_static_secret, aad_version, rest, from + 1);
    }
}

/// A response that was cut into chunks is read back whole.
pub proof fn law_whole_response_is_read_back(
    k: StreamKeys,
    s: Seq<char>,
    ms: Seq<StreamMessage>,
    room_static_secret: Seq<u8>,
    aad_version: u8,
    arrived: Map<u32, StreamChunk>,
)
    requires
        s.len() > 0,
        ms.len() == flushed(s, true).0.len(),
        ms.len() < u32::MAX,
        k.secret.len() == 32,
        k.provider_pk == primitives::x25519_public(room_static_secret),
        forall|i: int|
            0 <= i < ms.len() ==> #[trigger] is_stream_chunk(
                ms[i],
                room_static_secret,
                primitives::x25519_public(k.secret),
                k.req_id,
                k.path,
                k.room_id,
                aad_version,
                i,
                flushed(s, true).0[i].0,
                flushed(s, true).0[i].1,
            ),
        have_arrived(arrived, ms, 0),
    ensures
        drained(k, 0, arrived, Seq::empty()) matches Drained::Finish { parts } && request::in_a_row(
            parts,
        ) == s,
{
    law_flushed(s, true);
    let pieces = flushed(s, true).0;
    law_response_is_read_back(k, ms, pieces, room_static_secret, aad_version, arrived, 0);
    assert(chunk_texts(pieces.take(0)) =~= Seq::<Seq<char>>::empty());
    assert(request::in_a_row(chunk_texts(pieces)) + flushed(s, true).1 =~= request::in_a_row(
        chunk_texts(pieces),
    ));
}

/// A chunk of a response that is not awaited is refused, and changes nothing. No chunk
/// changes another response. A chunk that comes too early is kept until those before it
/// are there. One that is due gives its text, and the one after it is due then; with the
/// last one the response is done with. One that is due and gives no text is a fault.
pub proof fn law_chunk_is_taken(
    before: Map<Seq<char>, PendingEncryptedStream>,
    req_id: Seq<char>,
    c: StreamChunk,
    after: Map<Seq<char>, PendingEncryptedStream>,
    r: Result<EncryptedStreamChunkOutcome, String>,
)
    requires
        takes_chunk(before, req_id, c, after, r),
    ensures
        forall|other: Seq<char>|
            other != req_id ==> (#[trigger] after.dom().contains(other) <==> before.dom().contains(
                other,
            )) && (before.dom().contains(other) ==> after[other] == before[other]),
        !before.dom().contains(req_id) ==> r is Err && after == before,
        before.dom().contains(req_id) ==> {
            let s = before[req_id];
            let early = c.seq != s.next_seq && !s.reorder@.dom().contains(s.next_seq);
            let due = c.seq == s.next_seq && c.seq < u32::MAX && !s.reorder@.dom().contains(
                (c.seq + 1) as u32,
            );
            &&& early ==> (r matches Ok(EncryptedStreamChunkOutcome::Waiting))
                && after.dom().contains(req_id) && after[req_id].next_seq == s.next_seq
                && after[req_id].reorder@ == s.reorder@.insert(c.seq, c)
            &&& due ==> (part_of(keys_of(s, req_id), c) matches Ok(t) ==> if c.done {
                (r matches Ok(EncryptedStreamChunkOutcome::Finished { parts }) && text::views(
                    parts@,
                ) == seq![t]) && !after.dom().contains(req_id)
            } else {
                (r matches Ok(EncryptedStreamChunkOutcome::Progress { parts }) && text::views(
                    parts@,
                ) == seq![t]) && after.dom().contains(req_id) && after[req_id].next_seq == c.seq + 1
            })
            &&& due ==> (part_of(keys_of(s, req_id), c) matches Err(e) ==> (r matches Err(m) && m@
                == e))
        },
{
    reveal_with_fuel(drained, 3);
    assert forall|other: Seq<char>| other != req_id implies (#[trigger] after.dom().contains(other)
        <==> before.dom().contains(other)) && (before.dom().contains(other) ==> after[other]
        == before[other]) by {
        let x = after.remove(req_id);
        let y = before.remove(req_id);
        assert(x.dom().contains(other) == after.dom().contains(other));
        assert(y.dom().contains(other) == before.dom().contains(other));
        if before.dom().contains(other) {
            assert(x[other] == after[other]);
            assert(y[other] == before[other]);
        }
    }
    if before.dom().contains(req_id) {
        let s = before[req_id];
        if c.seq == s.next_seq && c.seq < u32::MAX {
            let all = s.reorder@.insert(c.seq, c);
            assert(all[c.seq] == c);
            assert(!s.reorder@.dom().contains((c.seq + 1) as u32) ==> !all.remove(
                c.seq,
            ).dom().contains((c.seq + 1) as u32));
            assert(Seq::<Seq<char>>::empty().push(part_of(keys_of(s, req_id), c)->Ok_0) =~= seq![
                part_of(keys_of(s, req_id), c)->Ok_0,
            ]);
        }
    }
}

} // verus!
