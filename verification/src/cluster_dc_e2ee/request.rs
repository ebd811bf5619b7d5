//! Requests on their way over a data channel.

use crate::crypto::envelope;
use crate::crypto::envelope::EnvelopeError;
use crate::crypto::primitives;
use crate::crypto::room;
use crate::crypto::session;
use crate::crypto::session::EphemeralKeypair;
use crate::inference_sidecar;
use crate::inference_sidecar::Inbound;
use crate::json;
use crate::json::{Json, JsonV};
use crate::p2p_protocol::StreamMessage;
use crate::proxy_e2ee;
use crate::strmap::StrMap;
use crate::text;
use vstd::prelude::*;
use vstd::string::StringSliceAdditionalSpecFns;
use vstd::utf8::encode_utf8;

verus! {

/// The longest message, in bytes, that a data channel takes.
pub const MAX_DC_WIRE_BYTES: usize = 8 * 1024;

/// The longest chunk of a request, in bytes before encryption.
pub const MAX_E2EE_PLAINTEXT_CHUNK_BYTES: usize = 1024;

/// The number of characters at the front of `s` that make one chunk: as many
/// whole characters as fit in `max` bytes, but at least one.
pub open spec fn chunk_chars(s: Seq<char>, max: int) -> int {
    if text::fitting(s, max) == 0 {
        1
    } else {
        text::fitting(s, max)
    }
}

/// `s` in chunks of at most `max` bytes.
pub open spec fn chunks(s: Seq<char>, max: int) -> Seq<Seq<char>>
    decreases s.len(),
{
    if s.len() == 0 {
        Seq::empty()
    } else {
        proof {
            lemma_fitting_len(s, max);
        }
        seq![s.take(chunk_chars(s, max))] + chunks(s.skip(chunk_chars(s, max)), max)
    }
}

/// The texts of `parts` in a row.
pub open spec fn in_a_row(parts: Seq<Seq<char>>) -> Seq<char>
    decreases parts.len(),
{
    if parts.len() == 0 {
        Seq::empty()
    } else {
        parts[0] + in_a_row(parts.skip(1))
    }
}

/// At most all characters of a text fit.
pub proof fn lemma_fitting_len(s: Seq<char>, max: int)
    ensures
        0 <= text::fitting(s, max) <= s.len(),
    decreases s.len(),
{
    if s.len() > 0 && text::utf8_width(s[0]) <= max {
        lemma_fitting_len(s.skip(1), max - text::utf8_width(s[0]));
    }
}

/// The characters of a text that fit do fit, and one more would not.
pub proof fn lemma_fitting(s: Seq<char>, max: int)
    requires
        max >= 0,
    ensures
        0 <= text::fitting(s, max) <= s.len(),
        text::utf8_len(s.take(text::fitting(s, max))) <= max,
        text::fitting(s, max) < s.len() ==> text::utf8_len(s.take(text::fitting(s, max)))
            + text::utf8_width(s[text::fitting(s, max)]) > max,
    decreases s.len(),
{
    let n = text::fitting(s, max);
    if s.len() > 0 && text::utf8_width(s[0]) <= max {
        let rest = max - text::utf8_width(s[0]);
        lemma_fitting(s.skip(1), rest);
        assert(s.take(n).skip(1) =~= s.skip(1).take(n - 1));
        lemma_utf8_len_first(s.take(n));
    } else {
        assert(s.take(0).len() == 0);
    }
}

proof fn lemma_utf8_len_first(s: Seq<char>)
    requires
        s.len() > 0,
    ensures
        text::utf8_len(s) == text::utf8_width(s[0]) + text::utf8_len(s.skip(1)),
    decreases s.len(),
{
    if s.len() == 1 {
        assert(s.drop_last() =~= Seq::empty());
        assert(s.skip(1) =~= Seq::empty());
        reveal_with_fuel(text::utf8_len, 2);
    } else {
        lemma_utf8_len_first(s.drop_last());
        assert(s.drop_last().skip(1) =~= s.skip(1).drop_last());
        assert(s.skip(1).last() == s.last());
    }
}

/// The bytes that a text takes are those of its encoding.
pub proof fn law_length_of_encoding(s: Seq<char>)
    ensures
        text::utf8_len(s) == encode_utf8(s).len(),
    decreases s.len(),
{
    if s.len() > 0 {
        lemma_utf8_len_first(s);
        law_length_of_encoding(s.skip(1));
        assert(s.drop_first() =~= s.skip(1));
        vstd::utf8::char_is_scalar(s[0]);
    }
}

/// The chunks of a text, put in a row, are the text.
pub proof fn law_chunks_in_a_row(s: Seq<char>, max: int)
    requires
        max >= 0,
    ensures
        in_a_row(chunks(s, max)) == s,
    decreases s.len(),
{
    lemma_fitting(s, max);
    if s.len() > 0 {
        let n = chunk_chars(s, max);
        law_chunks_in_a_row(s.skip(n), max);
        let c = chunks(s, max);
        assert(c.skip(1) =~= chunks(s.skip(n), max));
        assert(s.take(n) + s.skip(n) =~= s);
    }
}

/// No chunk is empty. Each fits in `max` bytes or is one character, and is as long
/// as can be: with the first character of the next one it would not fit.
pub proof fn law_chunks_fit(s: Seq<char>, max: int, i: int)
    requires
        max >= 0,
        0 <= i < chunks(s, max).len(),
    ensures
        0 < chunks(s, max)[i].len(),
        text::utf8_len(chunks(s, max)[i]) <= max || chunks(s, max)[i].len() == 1,
        i + 1 < chunks(s, max).len() ==> text::utf8_len(chunks(s, max)[i]) + text::utf8_width(
            chunks(s, max)[i + 1][0],
        ) > max,
    decreases s.len(),
{
    lemma_fitting(s, max);
    let n = chunk_chars(s, max);
    let rest = s.skip(n);
    assert(chunks(s, max).skip(1) =~= chunks(rest, max));
    if i > 0 {
        law_chunks_fit(rest, max, i - 1);
    } else {
        lemma_fitting(rest, max);
        if text::fitting(s, max) == 0 {
            lemma_utf8_len_first(s.take(1));
            assert(s.take(1).skip(1) =~= Seq::empty());
            assert(text::utf8_len(s.take(0)) == 0);
        }
    }
}

/// `s` in chunks of at most `max_bytes` bytes, none of which splits a character.
pub fn chunk_utf8(s: &str, max_bytes: usize) -> (r: Vec<String>)
    ensures
        text::views(r@) == chunks(s@, max_bytes as int),
{
    let cs = text::chars_of(s);
    let mut out: Vec<String> = Vec::new();
    let mut start: usize = 0;
    assert(cs@.skip(0) =~= cs@);
    assert(text::views(out@) + chunks(s@, max_bytes as int) =~= chunks(s@, max_bytes as int));
    while start < cs.len()
        invariant
            start <= cs.len(),
            cs@ == s@,
            text::views(out@) + chunks(s@.skip(start as int), max_bytes as int) == chunks(
                s@,
                max_bytes as int,
            ),
        decreases cs.len() - start,
    {
        let ghost rest = s@.skip(start as int);
        let mut used: usize = 0;
        let mut end: usize = start;
        assert(rest.skip(0) =~= rest);
        while end < cs.len() && text::char_width(cs[end]) <= max_bytes - used
            invariant
                start <= end <= cs.len(),
                cs@ == s@,
                rest == s@.skip(start as int),
                used <= max_bytes,
                text::fitting(rest, max_bytes as int) == (end - start) + text::fitting(
                    rest.skip(end - start),
                    max_bytes - used,
                ),
            decreases cs.len() - end,
        {
            assert(rest.skip(end - start)[0] == cs@[end as int]);
            assert(rest.skip(end - start).skip(1) =~= rest.skip(end - start + 1));
            used += text::char_width(cs[end]);
            end += 1;
        }
        proof {
            if end < cs.len() {
                assert(rest.skip(end - start)[0] == cs@[end as int]);
            }
        }
        if end == start {
            end = start + 1;
        }
        let piece = text::string_of(vstd::slice::slice_subrange(cs.as_slice(), start, end));
        proof {
            lemma_fitting_len(rest, max_bytes as int);
            let n = chunk_chars(rest, max_bytes as int);
            assert(n == end - start);
            assert(piece@ =~= rest.take(n));
            assert(rest.skip(n) =~= s@.skip(end as int));
            text::lemma_views_push(out@, piece);
            let tail = chunks(s@.skip(end as int), max_bytes as int);
            assert(text::views(out@).push(piece@) + tail =~= text::views(out@) + (seq![piece@]
                + tail));
        }
        out.push(piece);
        start = end;
    }
    assert(s@.skip(start as int).len() == 0);
    assert(text::views(out@) + chunks(s@.skip(start as int), max_bytes as int) =~= text::views(
        out@,
    ));
    out
}

/// The error of a message of `len` bytes on the wire: none up to the limit.
pub fn wire_error(len: usize) -> (r: Option<String>)
    ensures
        r is None <==> len <= MAX_DC_WIRE_BYTES,
        r matches Some(e) ==> e@ == "WebRTC E2EE message is "@ + text::dec(len as nat)
            + " bytes (limit "@ + text::dec(MAX_DC_WIRE_BYTES as nat) + ")"@,
{
    if len <= MAX_DC_WIRE_BYTES {
        return None;
    }
    let n = text::dec_u64(len as u64);
    let limit = text::dec_u64(MAX_DC_WIRE_BYTES as u64);
    let mut e = text::concat3("WebRTC E2EE message is ", &n, " bytes (limit ");
    e.append(&limit);
    e.append(")");
    Some(e)
}

/// What a consumer keeps of a request that it sent.
#[derive(Debug)]
pub struct EncryptedConsumerState {
    pub ephemeral_secret: [u8; 32],
    pub path: String,
    pub room_id: String,
    pub provider_pk: [u8; 32],
    pub aad_version: u8,
}

pub(crate) fn copy_bytes(v: &[u8]) -> (r: Vec<u8>)
    ensures
        r@ == v@,
{
    let mut out: Vec<u8> = Vec::new();
    out.extend_from_slice(v);
    assert(out@ =~= v@);
    out
}

/// The consumer's session key for a request.
pub open spec fn consumer_key(
    secret: Seq<u8>,
    provider_pk: Seq<u8>,
    req_id: Seq<char>,
    room_id: Seq<char>,
) -> Seq<u8> {
    session::session_key(primitives::x25519_shared(secret, provider_pk), req_id, room_id)
}

/// Whether the consumer's session key for a request is the provider's, whatever
/// the secret is that the provider's public key belongs to.
pub open spec fn agrees(
    secret: Seq<u8>,
    provider_pk: Seq<u8>,
    req_id: Seq<char>,
    room_id: Seq<char>,
) -> bool {
    forall|provider_secret: Seq<u8>|
        provider_secret.len() == 32 && provider_pk == #[trigger] primitives::x25519_public(
            provider_secret,
        ) ==> consumer_key(secret, provider_pk, req_id, room_id) == session::provider_session_key(
            provider_secret,
            primitives::x25519_public(secret),
            req_id,
            room_id,
        )
}

/// The message that carries a whole request, encrypted under `nonce`, and what the
/// consumer keeps of it.
pub fn encrypt_proxy_request_with_nonce(
    keys: &EphemeralKeypair,
    provider_pk: &[u8; 32],
    req_id: &str,
    path: &str,
    room_id: &str,
    body_text: &str,
    auth: Option<Json>,
    nonce: &[u8; 12],
) -> (r: Result<(StreamMessage, EncryptedConsumerState), EnvelopeError>)
    requires
        encode_utf8(body_text@).len() + 16 <= isize::MAX,
    ensures
        r is Ok <==> primitives::sealable(encode_utf8(body_text@).len()),
        match r {
            Ok((m, state)) => {
                &&& agrees(keys.secret@, provider_pk@, req_id@, room_id@)
                &&& m is EncryptedProxyRequest
                &&& m->EncryptedProxyRequest_req_id@ == req_id@
                &&& m->EncryptedProxyRequest_path@ == path@
                &&& m->EncryptedProxyRequest_room_id@ == room_id@
                &&& m->EncryptedProxyRequest_consumer_ephemeral_pk@ == keys.public_key@
                &&& m->EncryptedProxyRequest_aad_version == envelope::AAD_VERSION
                &&& m->EncryptedProxyRequest_auth == auth
                &&& m->EncryptedProxyRequest_ciphertext@ == request_sealed(
                    consumer_key(keys.secret@, provider_pk@, req_id@, room_id@),
                    m->EncryptedProxyRequest_nonce@,
                    req_id@,
                    path@,
                    room_id@,
                    body_text@,
                )
                &&& envelope::opened(
                    consumer_key(keys.secret@, provider_pk@, req_id@, room_id@),
                    req_id@,
                    path@,
                    room_id@,
                    m->EncryptedProxyRequest_nonce@,
                    m->EncryptedProxyRequest_ciphertext@,
                ) == Ok::<Seq<u8>, EnvelopeError>(encode_utf8(body_text@))
                &&& is_consumer_state(state, keys.secret@, provider_pk@, path@, room_id@)
                &&& m->EncryptedProxyRequest_nonce@ == nonce@
            },
            Err(e) => e == EnvelopeError::TooLong,
        },
{
    let key: [u8; 32] = session::derive_session_key_consumer(
        keys.secret(),
        provider_pk,
        req_id,
        room_id,
    );
    match envelope::encrypt_payload_with_nonce(
        &key,
        req_id,
        path,
        room_id,
        body_text.as_bytes(),
        nonce,
    ) {
        Ok(p) => {
            let m = StreamMessage::EncryptedProxyRequest {
                req_id: text::copy(req_id),
                path: text::copy(path),
                room_id: text::copy(room_id),
                consumer_ephemeral_pk: copy_bytes(&keys.public_key),
                nonce: p.nonce,
                ciphertext: p.ciphertext,
                aad_version: envelope::AAD_VERSION,
                auth,
            };
            Ok((m, consumer_state(keys, provider_pk, path, room_id)))
        },
        Err(e) => Err(e),
    }
}

/// The message that carries a whole request, encrypted under a random nonce, and
/// what the consumer keeps of it. It fails where the operating system gives no
/// random bytes, and where the request is too long.
pub fn encrypt_proxy_request(
    keys: &EphemeralKeypair,
    provider_pk: &[u8; 32],
    req_id: &str,
    path: &str,
    room_id: &str,
    body_text: &str,
    auth: Option<Json>,
) -> (r: Result<(StreamMessage, EncryptedConsumerState), EnvelopeError>)
    requires
        encode_utf8(body_text@).len() + 16 <= isize::MAX,
    ensures
        match r {
            Ok((m, state)) => {
                &&& primitives::sealable(encode_utf8(body_text@).len())
                &&& agrees(keys.secret@, provider_pk@, req_id@, room_id@)
                &&& m is EncryptedProxyRequest
                &&& m->EncryptedProxyRequest_req_id@ == req_id@
                &&& m->EncryptedProxyRequest_path@ == path@
                &&& m->EncryptedProxyRequest_room_id@ == room_id@
                &&& m->EncryptedProxyRequest_consumer_ephemeral_pk@ == keys.public_key@
                &&& m->EncryptedProxyRequest_aad_version == envelope::AAD_VERSION
                &&& m->EncryptedProxyRequest_auth == auth
                &&& m->EncryptedProxyRequest_ciphertext@ == request_sealed(
                    consumer_key(keys.secret@, provider_pk@, req_id@, room_id@),
                    m->EncryptedProxyRequest_nonce@,
                    req_id@,
                    path@,
                    room_id@,
                    body_text@,
                )
                &&& envelope::opened(
                    consumer_key(keys.secret@, provider_pk@, req_id@, room_id@),
                    req_id@,
                    path@,
                    room_id@,
                    m->EncryptedProxyRequest_nonce@,
                    m->EncryptedProxyRequest_ciphertext@,
                ) == Ok::<Seq<u8>, EnvelopeError>(encode_utf8(body_text@))
                &&& is_consumer_state(state, keys.secret@, provider_pk@, path@, room_id@)
            },
            Err(EnvelopeError::TooLong) => !primitives::sealable(encode_utf8(body_text@).len()),
            Err(e) => e is NoNonce,
        },
{
    match primitives::random_nonce() {
        Ok(nonce) => encrypt_proxy_request_with_nonce(
            keys,
            provider_pk,
            req_id,
            path,
            room_id,
            body_text,
            auth,
            &nonce,
        ),
        Err(e) => Err(EnvelopeError::NoNonce(e)),
    }
}

/// Whether `s` is what the consumer keeps of a request.
pub open spec fn is_consumer_state(
    s: EncryptedConsumerState,
    secret: Seq<u8>,
    provider_pk: Seq<u8>,
    path: Seq<char>,
    room_id: Seq<char>,
) -> bool {
    &&& s.ephemeral_secret@ == secret
    &&& s.provider_pk@ == provider_pk
    &&& s.path@ == path
    &&& s.room_id@ == room_id
    &&& s.aad_version == envelope::AAD_VERSION
}

fn consumer_state(keys: &EphemeralKeypair, provider_pk: &[u8; 32], path: &str, room_id: &str) -> (r:
    EncryptedConsumerState)
    ensures
        is_consumer_state(r, keys.secret@, provider_pk@, path@, room_id@),
{
    EncryptedConsumerState {
        ephemeral_secret: keys.secret,
        path: text::copy(path),
        room_id: text::copy(room_id),
        provider_pk: *provider_pk,
        aad_version: envelope::AAD_VERSION,
    }
}

/// The text `plain` of a request, encrypted under `nonce`; `label` is what stands
/// for its path.
pub open spec fn request_sealed(
    key: Seq<u8>,
    nonce: Seq<u8>,
    req_id: Seq<char>,
    label: Seq<char>,
    room_id: Seq<char>,
    plain: Seq<char>,
) -> Seq<u8> {
    primitives::aead_sealed(
        key,
        nonce,
        envelope::aad(req_id, label, room_id),
        encode_utf8(plain),
    )
}

/// Whether `m` carries the chunk `seq` of a request, whose text is `plain`.
pub open spec fn is_request_chunk(
    m: StreamMessage,
    key: Seq<u8>,
    req_id: Seq<char>,
    path: Seq<char>,
    room_id: Seq<char>,
    seq: int,
    plain: Seq<char>,
) -> bool {
    &&& m is EncryptedProxyRequestChunk
    &&& m->EncryptedProxyRequestChunk_req_id@ == req_id
    &&& m->EncryptedProxyRequestChunk_seq == seq
    &&& m->EncryptedProxyRequestChunk_aad_version == envelope::AAD_VERSION
    &&& m->EncryptedProxyRequestChunk_ciphertext@ == request_sealed(
        key,
        m->EncryptedProxyRequestChunk_nonce@,
        req_id,
        proxy_e2ee::chunk_label(path, m->EncryptedProxyRequestChunk_seq),
        room_id,
        plain,
    )
    &&& envelope::opened(
        key,
        req_id,
        proxy_e2ee::chunk_label(path, m->EncryptedProxyRequestChunk_seq),
        room_id,
        m->EncryptedProxyRequestChunk_nonce@,
        m->EncryptedProxyRequestChunk_ciphertext@,
    ) == Ok::<Seq<u8>, EnvelopeError>(encode_utf8(plain))
}

/// Whether the cipher takes every one of `chunks`.
pub open spec fn all_sealable(chunks: Seq<String>) -> bool {
    forall|i: int|
        0 <= i < chunks.len() ==> primitives::sealable((#[trigger] encode_utf8(chunks[i]@)).len())
}

/// The messages that carry a request in chunks: its head, one message for each
/// chunk, and its end. The chunk `i` is encrypted under `nonces[i]`.
pub fn encrypt_proxy_request_chunks_with_nonces(
    keys: &EphemeralKeypair,
    provider_pk: &[u8; 32],
    req_id: &str,
    path: &str,
    room_id: &str,
    plaintext_chunks: &Vec<String>,
    auth: Option<Json>,
    nonces: &Vec<[u8; 12]>,
) -> (r: Result<(Vec<StreamMessage>, EncryptedConsumerState), EnvelopeError>)
    requires
        nonces@.len() == plaintext_chunks@.len(),
        plaintext_chunks@.len() <= u32::MAX,
        forall|i: int|
            0 <= i < plaintext_chunks@.len() ==> #[trigger] encode_utf8(plaintext_chunks@[i]@).len()
                + 16 <= isize::MAX,
    ensures
        r is Ok <==> all_sealable(plaintext_chunks@),
        match r {
            Ok((ms, state)) => {
                let n = plaintext_chunks@.len() as int;
                let key = consumer_key(keys.secret@, provider_pk@, req_id@, room_id@);
                &&& agrees(keys.secret@, provider_pk@, req_id@, room_id@)
                &&& ms@.len() == n + 2
                &&& ms@[0] is EncryptedProxyRequestStart
                &&& ms@[0]->EncryptedProxyRequestStart_req_id@ == req_id@
                &&& ms@[0]->EncryptedProxyRequestStart_path@ == path@
                &&& ms@[0]->EncryptedProxyRequestStart_room_id@ == room_id@
                &&& ms@[0]->EncryptedProxyRequestStart_consumer_ephemeral_pk@ == keys.public_key@
                &&& ms@[0]->EncryptedProxyRequestStart_aad_version == envelope::AAD_VERSION
                &&& ms@[0]->EncryptedProxyRequestStart_auth == auth
                &&& forall|i: int|
                    0 <= i < n ==> #[trigger] is_request_chunk(
                        ms@[i + 1],
                        key,
                        req_id@,
                        path@,
                        room_id@,
                        i,
                        plaintext_chunks@[i]@,
                    )
                &&& ms@[n + 1] is EncryptedProxyRequestEnd
                &&& ms@[n + 1]->EncryptedProxyRequestEnd_req_id@ == req_id@
                &&& is_consumer_state(state, keys.secret@, provider_pk@, path@, room_id@)
                &&& forall|i: int|
                    0 <= i < n ==> (#[trigger] ms@[i + 1])->EncryptedProxyRequestChunk_nonce@
                        == nonces@[i]@
            },
            Err(e) => e == EnvelopeError::TooLong,
        },
{
    let key: [u8; 32] = session::derive_session_key_consumer(
        keys.secret(),
        provider_pk,
        req_id,
        room_id,
    );
    let mut ms: Vec<StreamMessage> = Vec::new();
    ms.push(
        StreamMessage::EncryptedProxyRequestStart {
            req_id: text::copy(req_id),
            path: text::copy(path),
            room_id: text::copy(room_id),
            consumer_ephemeral_pk: copy_bytes(&keys.public_key),
            aad_version: envelope::AAD_VERSION,
            auth,
        },
    );
    let ghost head = ms@[0];
    for i in 0..plaintext_chunks.len()
        invariant
            plaintext_chunks@.len() <= u32::MAX,
            forall|k: int|
                0 <= k < plaintext_chunks@.len() ==> #[trigger] encode_utf8(
                    plaintext_chunks@[k]@,
                ).len() + 16 <= isize::MAX,
            key@ == consumer_key(keys.secret@, provider_pk@, req_id@, room_id@),
            nonces@.len() == plaintext_chunks@.len(),
            ms@.len() == i + 1,
            ms@[0] == head,
            forall|k: int|
                0 <= k < i ==> primitives::sealable(
                    (#[trigger] encode_utf8(plaintext_chunks@[k]@)).len(),
                ),
            forall|k: int|
                0 <= k < i ==> (#[trigger] ms@[k + 1])->EncryptedProxyRequestChunk_nonce@
                    == nonces@[k]@,
            forall|k: int|
                0 <= k < i ==> #[trigger] is_request_chunk(
                    ms@[k + 1],
                    key@,
                    req_id@,
                    path@,
                    room_id@,
                    k,
                    plaintext_chunks@[k]@,
                ),
    {
        let chunk = &plaintext_chunks[i];
        let label = proxy_e2ee::chunk_path(path, i as u32);
        assert(encode_utf8(plaintext_chunks@[i as int]@).len() + 16 <= isize::MAX);
        match envelope::encrypt_payload_with_nonce(
            &key,
            req_id,
            &label,
            room_id,
            chunk.as_str().as_bytes(),
            &nonces[i],
        ) {
            Ok(p) => {
                let m = StreamMessage::EncryptedProxyRequestChunk {
                    req_id: text::copy(req_id),
                    seq: i as u32,
                    nonce: p.nonce,
                    ciphertext: p.ciphertext,
                    aad_version: envelope::AAD_VERSION,
                };
                assert(is_request_chunk(
                    m,
                    key@,
                    req_id@,
                    path@,
                    room_id@,
                    i as int,
                    plaintext_chunks@[i as int]@,
                ));
                let ghost before = ms@;
                ms.push(m);
                assert forall|k: int| 0 <= k < i implies #[trigger] is_request_chunk(
                    ms@[k + 1],
                    key@,
                    req_id@,
                    path@,
                    room_id@,
                    k,
                    plaintext_chunks@[k]@,
                ) by {
                    assert(ms@[k + 1] == before[k + 1]);
                }
            },
            Err(e) => {
                assert(!all_sealable(plaintext_chunks@));
                return Err(e);
            },
        }
    }
    let ghost before = ms@;
    ms.push(StreamMessage::EncryptedProxyRequestEnd { req_id: text::copy(req_id) });
    assert forall|k: int| 0 <= k < plaintext_chunks@.len() implies #[trigger] is_request_chunk(
        ms@[k + 1],
        key@,
        req_id@,
        path@,
        room_id@,
        k,
        plaintext_chunks@[k]@,
    ) by {
        assert(ms@[k + 1] == before[k + 1]);
    }
    Ok((ms, consumer_state(keys, provider_pk, path, room_id)))
}

/// The messages that carry a request in chunks, each chunk encrypted under a random
/// nonce. It fails where the operating system gives no random bytes for a chunk, and
/// where a chunk is too long.
pub fn encrypt_proxy_request_chunks(
    keys: &EphemeralKeypair,
    provider_pk: &[u8; 32],
    req_id: &str,
    path: &str,
    room_id: &str,
    plaintext_chunks: &Vec<String>,
    auth: Option<Json>,
) -> (r: Result<(Vec<StreamMessage>, EncryptedConsumerState), EnvelopeError>)
    requires
        plaintext_chunks@.len() <= u32::MAX,
        forall|i: int|
            0 <= i < plaintext_chunks@.len() ==> #[trigger] encode_utf8(plaintext_chunks@[i]@).len()
                + 16 <= isize::MAX,
    ensures
        plaintext_chunks@.len() == 0 ==> r is Ok,
        match r {
            Ok((ms, state)) => {
                let n = plaintext_chunks@.len() as int;
                let key = consumer_key(keys.secret@, provider_pk@, req_id@, room_id@);
                &&& agrees(keys.secret@, provider_pk@, req_id@, room_id@)
                &&& ms@.len() == n + 2
                &&& ms@[0] is EncryptedProxyRequestStart
                &&& ms@[0]->EncryptedProxyRequestStart_req_id@ == req_id@
                &&& ms@[0]->EncryptedProxyRequestStart_path@ == path@
                &&& ms@[0]->EncryptedProxyRequestStart_room_id@ == room_id@
                &&& ms@[0]->EncryptedProxyRequestStart_consumer_ephemeral_pk@ == keys.public_key@
                &&& ms@[0]->EncryptedProxyRequestStart_aad_version == envelope::AAD_VERSION
                &&& ms@[0]->EncryptedProxyRequestStart_auth == auth
                &&& forall|i: int|
                    0 <= i < n ==> #[trigger] is_request_chunk(
                        ms@[i + 1],
                        key,
                        req_id@,
                        path@,
                        room_id@,
                        i,
                        plaintext_chunks@[i]@,
                    )
                &&& ms@[n + 1] is EncryptedProxyRequestEnd
                &&& ms@[n + 1]->EncryptedProxyRequestEnd_req_id@ == req_id@
                &&& is_consumer_state(state, keys.secret@, provider_pk@, path@, room_id@)
                &&& all_sealable(plaintext_chunks@)
            },
            Err(EnvelopeError::TooLong) => !all_sealable(plaintext_chunks@),
            Err(e) => e is NoNonce,
        },
{
    match envelope::random_nonces(plaintext_chunks.len()) {
        Ok(nonces) => encrypt_proxy_request_chunks_with_nonces(
            keys,
            provider_pk,
            req_id,
            path,
            room_id,
            plaintext_chunks,
            auth,
            &nonces,
        ),
        Err(e) => Err(e),
    }
}

/// Whether `m` carries a whole request, whose text is `plain`, from the consumer
/// with the secret `secret`.
pub open spec fn is_whole_request(
    m: StreamMessage,
    secret: Seq<u8>,
    provider_pk: Seq<u8>,
    req_id: Seq<char>,
    path: Seq<char>,
    room_id: Seq<char>,
    plain: Seq<char>,
    auth: Option<Json>,
) -> bool {
    &&& agrees(secret, provider_pk, req_id, room_id)
    &&& m is EncryptedProxyRequest
    &&& m->EncryptedProxyRequest_req_id@ == req_id
    &&& m->EncryptedProxyRequest_path@ == path
    &&& m->EncryptedProxyRequest_room_id@ == room_id
    &&& m->EncryptedProxyRequest_consumer_ephemeral_pk@ == primitives::x25519_public(secret)
    &&& m->EncryptedProxyRequest_aad_version == envelope::AAD_VERSION
    &&& m->EncryptedProxyRequest_auth == auth
    &&& m->EncryptedProxyRequest_ciphertext@ == request_sealed(
        consumer_key(secret, provider_pk, req_id, room_id),
        m->EncryptedProxyRequest_nonce@,
        req_id,
        path,
        room_id,
        plain,
    )
    &&& envelope::opened(
        consumer_key(secret, provider_pk, req_id, room_id),
        req_id,
        path,
        room_id,
        m->EncryptedProxyRequest_nonce@,
        m->EncryptedProxyRequest_ciphertext@,
    ) == Ok::<Seq<u8>, EnvelopeError>(encode_utf8(plain))
}

/// Whether `ms` carries a request in chunks, whose texts are `parts`, from the
/// consumer with the secret `secret`.
pub open spec fn is_chunked_request(
    ms: Seq<StreamMessage>,
    secret: Seq<u8>,
    provider_pk: Seq<u8>,
    req_id: Seq<char>,
    path: Seq<char>,
    room_id: Seq<char>,
    parts: Seq<Seq<char>>,
    auth: Option<Json>,
) -> bool {
    let n = parts.len() as int;
    let key = consumer_key(secret, provider_pk, req_id, room_id);
    &&& agrees(secret, provider_pk, req_id, room_id)
    &&& ms.len() == n + 2
    &&& ms[0] is EncryptedProxyRequestStart
    &&& ms[0]->EncryptedProxyRequestStart_req_id@ == req_id
    &&& ms[0]->EncryptedProxyRequestStart_path@ == path
    &&& ms[0]->EncryptedProxyRequestStart_room_id@ == room_id
    &&& ms[0]->EncryptedProxyRequestStart_consumer_ephemeral_pk@ == primitives::x25519_public(
        secret,
    )
    &&& ms[0]->EncryptedProxyRequestStart_aad_version == envelope::AAD_VERSION
    &&& ms[0]->EncryptedProxyRequestStart_auth == auth
    &&& forall|i: int|
        0 <= i < n ==> #[trigger] is_request_chunk(
            ms[i + 1],
            key,
            req_id,
            path,
            room_id,
            i,
            parts[i],
        )
    &&& ms[n + 1] is EncryptedProxyRequestEnd
    &&& ms[n + 1]->EncryptedProxyRequestEnd_req_id@ == req_id
}

/// The message that carries a whole request under a new key pair and a random nonce,
/// and what the consumer keeps of it.
pub fn new_proxy_request(
    provider_pk: &[u8; 32],
    req_id: &str,
    path: &str,
    room_id: &str,
    body_text: &str,
    auth: Option<Json>,
) -> (r: Result<(StreamMessage, EncryptedConsumerState), EnvelopeError>)
    requires
        encode_utf8(body_text@).len() + 16 <= isize::MAX,
    ensures
        match r {
            Ok((m, state)) => {
                &&& is_consumer_state(
                    state,
                    state.ephemeral_secret@,
                    provider_pk@,
                    path@,
                    room_id@,
                )
                &&& is_whole_request(
                    m,
                    state.ephemeral_secret@,
                    provider_pk@,
                    req_id@,
                    path@,
                    room_id@,
                    body_text@,
                    auth,
                )
            },
            Err(EnvelopeError::TooLong) => !primitives::sealable(encode_utf8(body_text@).len()),
            Err(e) => e is NoNonce,
        },
{
    let keys = session::generate_ephemeral_keypair();
    encrypt_proxy_request(&keys, provider_pk, req_id, path, room_id, body_text, auth)
}

/// There are at most as many chunks as characters.
proof fn lemma_chunk_count(s: Seq<char>, max: int)
    ensures
        chunks(s, max).len() <= s.len(),
    decreases s.len(),
{
    if s.len() > 0 {
        lemma_fitting_len(s, max);
        lemma_chunk_count(s.skip(chunk_chars(s, max)), max);
    }
}

/// The messages that are sent for a request: `whole`, which carries all of it,
/// where its `wire_len` bytes fit, and else, under the key pair `keys`, messages
/// that carry it in chunks, the chunk `i` under `nonces[i]`.
pub fn send_encrypted_proxy_request_with_nonces(
    whole: (StreamMessage, EncryptedConsumerState),
    wire_len: usize,
    keys: &EphemeralKeypair,
    provider_pk: &[u8; 32],
    req_id: &str,
    path: &str,
    room_id: &str,
    body_text: &str,
    auth: Option<Json>,
    nonces: &Vec<[u8; 12]>,
) -> (r: Result<(Vec<StreamMessage>, EncryptedConsumerState), EnvelopeError>)
    requires
        body_text@.len() <= u32::MAX,
        keys.matched(),
        wire_len > MAX_DC_WIRE_BYTES ==> nonces@.len() == chunks(
            body_text@,
            MAX_E2EE_PLAINTEXT_CHUNK_BYTES as int,
        ).len(),
    ensures
        r is Ok,
        r matches Ok((ms, state)) ==> if wire_len <= MAX_DC_WIRE_BYTES {
            ms@ == seq![whole.0] && state == whole.1
        } else {
            let parts = chunks(body_text@, MAX_E2EE_PLAINTEXT_CHUNK_BYTES as int);
            &&& is_consumer_state(state, keys.secret@, provider_pk@, path@, room_id@)
            &&& is_chunked_request(
                ms@,
                keys.secret@,
                provider_pk@,
                req_id@,
                path@,
                room_id@,
                parts,
                auth,
            )
            &&& forall|i: int|
                0 <= i < parts.len() ==> (#[trigger] ms@[i
                    + 1])->EncryptedProxyRequestChunk_nonce@ == nonces@[i]@
        },
{
    if wire_error(wire_len).is_none() {
        let mut ms: Vec<StreamMessage> = Vec::new();
        ms.push(whole.0);
        assert(ms@ =~= seq![whole.0]);
        return Ok((ms, whole.1));
    }
    let pieces = chunk_utf8(body_text, MAX_E2EE_PLAINTEXT_CHUNK_BYTES);
    let ghost parts = chunks(body_text@, MAX_E2EE_PLAINTEXT_CHUNK_BYTES as int);
    proof {
        lemma_chunk_count(body_text@, MAX_E2EE_PLAINTEXT_CHUNK_BYTES as int);
        assert(pieces@.len() == parts.len());
        assert forall|i: int| 0 <= i < pieces@.len() implies (#[trigger] encode_utf8(
            pieces@[i]@,
        )).len() <= MAX_E2EE_PLAINTEXT_CHUNK_BYTES by {
            assert(parts[i] == pieces@[i]@);
            law_chunks_fit(body_text@, MAX_E2EE_PLAINTEXT_CHUNK_BYTES as int, i);
            law_length_of_encoding(parts[i]);
            if parts[i].len() == 1 {
                lemma_utf8_len_first(parts[i]);
                assert(parts[i].skip(1) =~= Seq::empty());
            }
        }
    }
    let r = encrypt_proxy_request_chunks_with_nonces(
        keys,
        provider_pk,
        req_id,
        path,
        room_id,
        &pieces,
        auth,
        nonces,
    );
    proof {
        if let Ok((ms, state)) = &r {
            let key = consumer_key(keys.secret@, provider_pk@, req_id@, room_id@);
            assert forall|i: int| 0 <= i < parts.len() implies #[trigger] is_request_chunk(
                ms@[i + 1],
                key,
                req_id@,
                path@,
                room_id@,
                i,
                parts[i],
            ) by {
                assert(parts[i] == pieces@[i]@);
                assert(is_request_chunk(
                    ms@[i + 1],
                    key,
                    req_id@,
                    path@,
                    room_id@,
                    i,
                    pieces@[i]@,
                ));
            }
        }
    }
    r
}

/// The messages that are sent for a request: `whole`, which carries all of it,
/// where its `wire_len` bytes fit, and else, under another new key pair and random
/// nonces, messages that carry it in chunks. It fails where the operating system
/// gives no random bytes for a chunk.
pub fn send_encrypted_proxy_request(
    whole: (StreamMessage, EncryptedConsumerState),
    wire_len: usize,
    provider_pk: &[u8; 32],
    req_id: &str,
    path: &str,
    room_id: &str,
    body_text: &str,
    auth: Option<Json>,
) -> (r: Result<(Vec<StreamMessage>, EncryptedConsumerState), EnvelopeError>)
    requires
        body_text@.len() <= u32::MAX,
    ensures
        wire_len <= MAX_DC_WIRE_BYTES || body_text@.len() == 0 ==> r is Ok,
        match r {
            Ok((ms, state)) => if wire_len <= MAX_DC_WIRE_BYTES {
                ms@ == seq![whole.0] && state == whole.1
            } else {
                &&& is_consumer_state(
                    state,
                    state.ephemeral_secret@,
                    provider_pk@,
                    path@,
                    room_id@,
                )
                &&& is_chunked_request(
                    ms@,
                    state.ephemeral_secret@,
                    provider_pk@,
                    req_id@,
                    path@,
                    room_id@,
                    chunks(body_text@, MAX_E2EE_PLAINTEXT_CHUNK_BYTES as int),
                    auth,
                )
            },
            Err(e) => e is NoNonce,
        },
{
    let count: usize = if wire_error(wire_len).is_none() {
        0
    } else {
        chunk_utf8(body_text, MAX_E2EE_PLAINTEXT_CHUNK_BYTES).len()
    };
    assert(chunks(Seq::<char>::empty(), MAX_E2EE_PLAINTEXT_CHUNK_BYTES as int).len() == 0);
    assert(body_text@.len() == 0 ==> body_text@ =~= Seq::<char>::empty());
    match envelope::random_nonces(count) {
        Ok(nonces) => {
            let keys = session::generate_ephemeral_keypair();
            send_encrypted_proxy_request_with_nonces(
                whole,
                wire_len,
                &keys,
                provider_pk,
                req_id,
                path,
                room_id,
                body_text,
                auth,
                &nonces,
            )
        },
        Err(e) => Err(e),
    }
}

/// A request that arrives in chunks.
#[derive(Debug)]
pub struct PendingEncryptedIncomingRequest {
    pub path: String,
    pub room_id: String,
    pub consumer_ephemeral_pk: Vec<u8>,
    pub aad_version: u8,
    pub auth: Option<Json>,
    pub chunks: Vec<(u32, Vec<u8>, Vec<u8>)>,
}

/// Takes the head of a request: it is pending, without chunks, in place of any
/// request under the same identifier.
pub fn handle_encrypted_request_start(
    pending: &mut StrMap<PendingEncryptedIncomingRequest>,
    req_id: String,
    path: String,
    room_id: String,
    consumer_ephemeral_pk: Vec<u8>,
    aad_version: u8,
    auth: Option<Json>,
)
    requires
        old(pending).wf(),
    ensures
        final(pending).wf(),
        final(pending)@.remove(req_id@) == old(pending)@.remove(req_id@),
        final(pending)@.dom().contains(req_id@),
        ({
            let p = final(pending)@[req_id@];
            &&& p.path == path
            &&& p.room_id == room_id
            &&& p.consumer_ephemeral_pk == consumer_ephemeral_pk
            &&& p.aad_version == aad_version
            &&& p.auth == auth
            &&& p.chunks@.len() == 0
        }),
{
    let p = PendingEncryptedIncomingRequest {
        path,
        room_id,
        consumer_ephemeral_pk,
        aad_version,
        auth,
        chunks: Vec::new(),
    };
    let ghost k = req_id@;
    pending.insert(req_id, p);
    assert(pending@.remove(k) =~= old(pending)@.remove(k));
}

/// Takes a chunk of a pending request. A chunk of no pending request is dropped.
pub fn handle_encrypted_request_chunk(
    pending: &mut StrMap<PendingEncryptedIncomingRequest>,
    req_id: &str,
    seq: u32,
    nonce: Vec<u8>,
    ciphertext: Vec<u8>,
)
    requires
        old(pending).wf(),
    ensures
        final(pending).wf(),
        final(pending)@.remove(req_id@) == old(pending)@.remove(req_id@),
        final(pending)@.dom().contains(req_id@) == old(pending)@.dom().contains(req_id@),
        old(pending)@.dom().contains(req_id@) ==> {
            let p = old(pending)@[req_id@];
            let q = final(pending)@[req_id@];
            &&& q.path == p.path
            &&& q.room_id == p.room_id
            &&& q.consumer_ephemeral_pk == p.consumer_ephemeral_pk
            &&& q.aad_version == p.aad_version
            &&& q.auth == p.auth
            &&& q.chunks@ == p.chunks@.push((seq, nonce, ciphertext))
        },
{
    if let Some(p) = pending.remove(req_id) {
        let mut p = p;
        p.chunks.push((seq, nonce, ciphertext));
        pending.insert(text::copy(req_id), p);
    }
    assert(pending@.remove(req_id@) =~= old(pending)@.remove(req_id@));
}

/// Where a chunk with the number `seq` goes among chunks in order: behind those
/// with the same or a lower number.
pub open spec fn insert_at(sorted: Seq<(u32, Vec<u8>, Vec<u8>)>, seq: u32) -> int
    decreases sorted.len(),
{
    if sorted.len() == 0 || sorted.last().0 <= seq {
        sorted.len() as int
    } else {
        insert_at(sorted.drop_last(), seq)
    }
}

/// Chunks in the order of their numbers; equal numbers in the order of arrival.
pub open spec fn in_order(chunks: Seq<(u32, Vec<u8>, Vec<u8>)>) -> Seq<(u32, Vec<u8>, Vec<u8>)>
    decreases chunks.len(),
{
    if chunks.len() == 0 {
        chunks
    } else {
        let sorted = in_order(chunks.drop_last());
        sorted.insert(insert_at(sorted, chunks.last().0), chunks.last())
    }
}

proof fn lemma_insert_at(sorted: Seq<(u32, Vec<u8>, Vec<u8>)>, seq: u32)
    ensures
        0 <= insert_at(sorted, seq) <= sorted.len(),
        forall|j: int|
            insert_at(sorted, seq) <= j < sorted.len() ==> seq < (#[trigger] sorted[j]).0,
        insert_at(sorted, seq) > 0 ==> sorted[insert_at(sorted, seq) - 1].0 <= seq,
    decreases sorted.len(),
{
    if sorted.len() > 0 && sorted.last().0 > seq {
        lemma_insert_at(sorted.drop_last(), seq);
        assert forall|j: int| insert_at(sorted, seq) <= j < sorted.len() implies seq < (
        #[trigger] sorted[j]).0 by {
            if j < sorted.len() - 1 {
                assert(sorted[j] == sorted.drop_last()[j]);
            }
        }
    }
}

/// Chunks that were put in order are in order, and are the same chunks.
pub proof fn law_in_order(chunks: Seq<(u32, Vec<u8>, Vec<u8>)>)
    ensures
        forall|i: int, j: int|
            0 <= i <= j < in_order(chunks).len() ==> (#[trigger] in_order(chunks)[i]).0 <= (
            #[trigger] in_order(chunks)[j]).0,
        in_order(chunks).to_multiset() == chunks.to_multiset(),
        in_order(chunks).len() == chunks.len(),
    decreases chunks.len(),
{
    broadcast use vstd::seq_lib::group_to_multiset_ensures;

    if chunks.len() > 0 {
        let front = chunks.drop_last();
        let sorted = in_order(front);
        let seq = chunks.last().0;
        let k = insert_at(sorted, seq);
        law_in_order(front);
        lemma_insert_at(sorted, seq);
        let r = in_order(chunks);
        assert forall|i: int, j: int| 0 <= i <= j < r.len() implies (#[trigger] r[i]).0 <= (
        #[trigger] r[j]).0 by {
            let a = if i < k {
                i
            } else {
                i - 1
            };
            let b = if j < k {
                j
            } else {
                j - 1
            };
            if i != k {
                assert(r[i] == sorted[a]);
            }
            if j != k {
                assert(r[j] == sorted[b]);
            }
            if i < k && j == k {
                assert(sorted[a].0 <= sorted[k - 1].0);
            }
        }
        vstd::seq_lib::to_multiset_insert(sorted, k, chunks.last());
        assert(chunks =~= front.push(chunks.last()));
        assert(r.to_multiset() =~= chunks.to_multiset());
    }
}

fn sort_chunks(chunks: Vec<(u32, Vec<u8>, Vec<u8>)>) -> (r: Vec<(u32, Vec<u8>, Vec<u8>)>)
    ensures
        r@ == in_order(chunks@),
{
    let ghost all = chunks@;
    let mut arrived = chunks;
    let n: usize = arrived.len();
    let mut out: Vec<(u32, Vec<u8>, Vec<u8>)> = Vec::new();
    let mut taken: usize = 0;
    while taken < n
        invariant
            taken <= n,
            n == all.len(),
            arrived@ == all.skip(taken as int),
            out@ == in_order(all.take(taken as int)),
        decreases n - taken,
    {
        let c = arrived.remove(0);
        proof {
            assert(arrived@ =~= all.skip(taken as int + 1));
            assert(all.take(taken as int + 1).drop_last() =~= all.take(taken as int));
            assert(all.take(taken as int + 1).last() == c);
        }
        let mut k: usize = out.len();
        assert(out@.take(k as int) =~= out@);
        while k > 0 && out[k - 1].0 > c.0
            invariant
                k <= out@.len(),
                insert_at(out@, c.0) == insert_at(out@.take(k as int), c.0),
            decreases k,
        {
            assert(out@.take(k as int).drop_last() =~= out@.take(k - 1));
            k -= 1;
        }
        assert(insert_at(out@, c.0) == k);
        out.insert(k, c);
        taken += 1;
    }
    assert(all.take(n as int) =~= all);
    out
}

/// Takes the end of a request: the request is no longer pending, and comes out
/// with its chunks in order.
pub fn handle_encrypted_request_end(
    pending: &mut StrMap<PendingEncryptedIncomingRequest>,
    req_id: &str,
) -> (r: Option<PendingEncryptedIncomingRequest>)
    requires
        old(pending).wf(),
    ensures
        final(pending).wf(),
        final(pending)@ == old(pending)@.remove(req_id@),
        match r {
            Some(q) => {
                let p = old(pending)@[req_id@];
                &&& old(pending)@.dom().contains(req_id@)
                &&& q.path == p.path
                &&& q.room_id == p.room_id
                &&& q.consumer_ephemeral_pk == p.consumer_ephemeral_pk
                &&& q.aad_version == p.aad_version
                &&& q.auth == p.auth
                &&& q.chunks@ == in_order(p.chunks@)
            },
            None => !old(pending)@.dom().contains(req_id@),
        },
{
    match pending.remove(req_id) {
        Some(p) => Some(
            PendingEncryptedIncomingRequest {
                path: p.path,
                room_id: p.room_id,
                consumer_ephemeral_pk: p.consumer_ephemeral_pk,
                aad_version: p.aad_version,
                auth: p.auth,
                chunks: sort_chunks(p.chunks),
            },
        ),
        None => None,
    }
}

/// What the chunk `c` of the request `p` holds.
pub open spec fn chunk_inbound(
    p: PendingEncryptedIncomingRequest,
    room_secret: Option<Seq<char>>,
    req_id: Seq<char>,
    c: (u32, Vec<u8>, Vec<u8>),
) -> Inbound {
    inference_sidecar::inbound(
        room_secret,
        p.room_id@,
        req_id,
        proxy_e2ee::chunk_label(p.path@, c.0),
        p.consumer_ephemeral_pk@,
        c.1@,
        c.2@,
    )
}

/// The texts of the first `n` chunks in a row, or the position of the first
/// chunk that does not open to text.
pub open spec fn chunks_text(
    p: PendingEncryptedIncomingRequest,
    room_secret: Option<Seq<char>>,
    req_id: Seq<char>,
    n: int,
) -> Result<Seq<char>, int>
    decreases n,
{
    if n <= 0 {
        Ok(Seq::empty())
    } else {
        match chunks_text(p, room_secret, req_id, n - 1) {
            Err(i) => Err(i),
            Ok(t) => match inference_sidecar::inbound_text(chunk_inbound(p, room_secret, req_id, p.chunks@[n - 1])) {
                Some(piece) => Ok(t + piece),
                None => Err(n - 1),
            },
        }
    }
}

/// The body of a request that came in chunks, or the error in words: that of the
/// first chunk that does not open, or that the whole is no JSON.
pub fn open_request_body(
    p: &PendingEncryptedIncomingRequest,
    room_secret: Option<&str>,
    req_id: &str,
) -> (r: Result<Json, String>)
    ensures
        match chunks_text(*p, json::opt_str(room_secret), req_id@, p.chunks@.len() as int) {
            Ok(t) => match json::json_read(t) {
                Ok(j) => r matches Ok(body) && body@ == j,
                Err(e) => r matches Err(m) && m@ == "Invalid JSON body: "@ + e,
            },
            Err(i) => r matches Err(m) && m@ == inference_sidecar::inbound_fault(
                chunk_inbound(*p, json::opt_str(room_secret), req_id@, p.chunks@[i]),
                p.room_id@,
            ),
        },
{
    let ghost secret = json::opt_str(room_secret);
    let mut body = String::new();
    for i in 0..p.chunks.len()
        invariant
            secret == json::opt_str(room_secret),
            chunks_text(*p, secret, req_id@, i as int) == Ok::<Seq<char>, int>(body@),
    {
        let c = &p.chunks[i];
        match inference_sidecar::decrypt_inbound_request_chunk(
            room_secret,
            &p.room_id,
            req_id,
            &p.path,
            c.0,
            &p.consumer_ephemeral_pk,
            &c.1,
            &c.2,
        ) {
            Ok(t) => {
                body.append(&t);
            },
            Err(e) => {
                proof {
                    lemma_chunks_text_fails(*p, secret, req_id@, i as int, p.chunks@.len() as int);
                }
                return Err(e.message(&p.room_id));
            },
        }
    }
    match json::parse_or_message(&body) {
        Ok(j) => Ok(j),
        Err(e) => Err(text::concat2("Invalid JSON body: ", &e)),
    }
}

proof fn lemma_chunks_text_fails(
    p: PendingEncryptedIncomingRequest,
    room_secret: Option<Seq<char>>,
    req_id: Seq<char>,
    i: int,
    n: int,
)
    requires
        0 <= i < n,
        chunks_text(p, room_secret, req_id, i + 1) == Err::<Seq<char>, int>(i),
    ensures
        chunks_text(p, room_secret, req_id, n) == Err::<Seq<char>, int>(i),
    decreases n - i,
{
    if n > i + 1 {
        lemma_chunks_text_fails(p, room_secret, req_id, i, n - 1);
    }
}

proof fn lemma_same_order(
    a: Seq<(u32, Vec<u8>, Vec<u8>)>,
    b: Seq<(u32, Vec<u8>, Vec<u8>)>,
)
    requires
        a.to_multiset() == b.to_multiset(),
        forall|i: int, j: int|
            0 <= i <= j < a.len() ==> (#[trigger] a[i]).0 <= (#[trigger] a[j]).0,
        forall|i: int, j: int| 0 <= i < j < b.len() ==> (#[trigger] b[i]).0 < (#[trigger] b[j]).0,
    ensures
        a == b,
    decreases a.len(),
{
    broadcast use vstd::seq_lib::group_to_multiset_ensures;

    assert(a.to_multiset().len() == a.len());
    assert(b.to_multiset().len() == b.len());
    if a.len() > 0 {
        let x = a.last();
        let y = b.last();
        assert(a.contains(x) && b.contains(y));
        assert(b.to_multiset().count(x) > 0);
        assert(a.to_multiset().count(y) > 0);
        let i = choose|i: int| 0 <= i < b.len() && b[i] == x;
        let j = choose|j: int| 0 <= j < a.len() && a[j] == y;
        assert(a[j].0 <= a[a.len() - 1].0);
        if i < b.len() - 1 {
            assert(b[i].0 < b[b.len() - 1].0);
        }
        assert(x == y);
        let fa = a.drop_last();
        let fb = b.drop_last();
        assert(a =~= fa.push(x));
        assert(b =~= fb.push(x));
        assert(fa.push(x).to_multiset() =~= fa.to_multiset().insert(x));
        assert(fb.push(x).to_multiset() =~= fb.to_multiset().insert(x));
        assert(fa.to_multiset() =~= a.to_multiset().remove(x));
        assert(fb.to_multiset() =~= b.to_multiset().remove(x));
        lemma_same_order(fa, fb);
    } else {
        assert(a =~= b);
    }
}

/// Chunks may arrive in any order: put in order, they are as they were sent.
pub proof fn law_chunks_arrive_in_any_order(
    sent: Seq<(u32, Vec<u8>, Vec<u8>)>,
    arrived: Seq<(u32, Vec<u8>, Vec<u8>)>,
)
    requires
        forall|i: int| 0 <= i < sent.len() ==> (#[trigger] sent[i]).0 == i,
        arrived.to_multiset() == sent.to_multiset(),
    ensures
        in_order(arrived) == sent,
{
    law_in_order(arrived);
    lemma_same_order(in_order(arrived), sent);
}

/// Whether the request `p` holds the chunks that the messages `ms` carry, in their
/// order.
pub open spec fn holds(p: PendingEncryptedIncomingRequest, ms: Seq<StreamMessage>) -> bool {
    p.chunks@.len() == ms.len() && forall|i: int|
        0 <= i < ms.len() ==> (#[trigger] p.chunks@[i]).0 == ms[i]->EncryptedProxyRequestChunk_seq
            && p.chunks@[i].1@ == ms[i]->EncryptedProxyRequestChunk_nonce@ && p.chunks@[i].2@
            == ms[i]->EncryptedProxyRequestChunk_ciphertext@
}

proof fn lemma_in_a_row_push(parts: Seq<Seq<char>>, last: Seq<char>)
    ensures
        in_a_row(parts.push(last)) == in_a_row(parts) + last,
    decreases parts.len(),
{
    if parts.len() == 0 {
        assert(parts.push(last).skip(1) =~= Seq::<Seq<char>>::empty());
        assert(parts.push(last)[0] == last);
        assert(in_a_row(Seq::<Seq<char>>::empty()) =~= Seq::<char>::empty());
        assert(in_a_row(parts) =~= Seq::<char>::empty());
        assert(in_a_row(parts.push(last)) =~= last + Seq::<char>::empty());
        assert(in_a_row(parts.push(last)) =~= in_a_row(parts) + last);
    } else {
        lemma_in_a_row_push(parts.skip(1), last);
        assert(parts.push(last).skip(1) =~= parts.skip(1).push(last));
        assert(parts.push(last)[0] == parts[0]);
        assert(parts[0] + (in_a_row(parts.skip(1)) + last) =~= (parts[0] + in_a_row(parts.skip(1)))
            + last);
    }
}

/// A request is read back: the provider that knows the room's secret reads, of the
/// messages that carry the chunks `parts`, the texts of these chunks in a row.
pub proof fn law_request_is_read_back(
    p: PendingEncryptedIncomingRequest,
    ms: Seq<StreamMessage>,
    parts: Seq<Seq<char>>,
    room_secret: Seq<char>,
    consumer_secret: Seq<u8>,
    req_id: Seq<char>,
    n: int,
)
    requires
        0 <= n <= parts.len(),
        parts.len() == ms.len(),
        holds(p, ms),
        p.consumer_ephemeral_pk@.len() == 32,
        p.consumer_ephemeral_pk@ == primitives::x25519_public(consumer_secret),
        ({
            let provider_secret = room::static_secret(room::room_root(room_secret, p.room_id@));
            let provider_pk = primitives::x25519_public(provider_secret);
            &&& provider_secret.len() == 32
            &&& agrees(consumer_secret, provider_pk, req_id, p.room_id@)
            &&& forall|i: int|
                0 <= i < ms.len() ==> #[trigger] is_request_chunk(
                    ms[i],
                    consumer_key(consumer_secret, provider_pk, req_id, p.room_id@),
                    req_id,
                    p.path@,
                    p.room_id@,
                    i,
                    parts[i],
                )
        }),
    ensures
        chunks_text(p, Some(room_secret), req_id, n) == Ok::<Seq<char>, int>(
            in_a_row(parts.take(n)),
        ),
    decreases n,
{
    if n == 0 {
        assert(in_a_row(parts.take(0)) =~= Seq::<char>::empty());
    } else {
        law_request_is_read_back(p, ms, parts, room_secret, consumer_secret, req_id, n - 1);
        let provider_secret = room::static_secret(room::room_root(room_secret, p.room_id@));
        let provider_pk = primitives::x25519_public(provider_secret);
        let key = consumer_key(consumer_secret, provider_pk, req_id, p.room_id@);
        assert(key == session::provider_session_key(
            provider_secret,
            p.consumer_ephemeral_pk@,
            req_id,
            p.room_id@,
        ));
        assert(is_request_chunk(
            ms[n - 1],
            key,
            req_id,
            p.path@,
            p.room_id@,
            n - 1,
            parts[n - 1],
        ));
        let c = p.chunks@[n - 1];
        vstd::utf8::encode_utf8_valid_utf8(parts[n - 1]);
        vstd::utf8::encode_utf8_decode_utf8(parts[n - 1]);
        assert(chunk_inbound(p, Some(room_secret), req_id, c) == Inbound::Plain(
            encode_utf8(parts[n - 1]),
        ));
        assert(parts.take(n) =~= parts.take(n - 1).push(parts[n - 1]));
        lemma_in_a_row_push(parts.take(n - 1), parts[n - 1]);
    }
}

/// A request that was sent in chunks is read back: the provider that knows the
/// room's secret and holds all of its chunks reads its text.
pub proof fn law_chunked_request_is_read_back(
    p: PendingEncryptedIncomingRequest,
    ms: Seq<StreamMessage>,
    body: Seq<char>,
    room_secret: Seq<char>,
    consumer_secret: Seq<u8>,
    req_id: Seq<char>,
    auth: Option<Json>,
)
    requires
        ({
            let provider_secret = room::static_secret(room::room_root(room_secret, p.room_id@));
            &&& provider_secret.len() == 32
            &&& is_chunked_request(
                ms,
                consumer_secret,
                primitives::x25519_public(provider_secret),
                req_id,
                p.path@,
                p.room_id@,
                chunks(body, MAX_E2EE_PLAINTEXT_CHUNK_BYTES as int),
                auth,
            )
        }),
        p.consumer_ephemeral_pk@
            == ms[0]->EncryptedProxyRequestStart_consumer_ephemeral_pk@,
        p.consumer_ephemeral_pk@.len() == 32,
        holds(p, ms.subrange(1, ms.len() - 1)),
    ensures
        chunks_text(p, Some(room_secret), req_id, p.chunks@.len() as int) == Ok::<Seq<char>, int>(
            body,
        ),
{
    let parts = chunks(body, MAX_E2EE_PLAINTEXT_CHUNK_BYTES as int);
    let n = parts.len() as int;
    let inner = ms.subrange(1, ms.len() - 1);
    let provider_secret = room::static_secret(room::room_root(room_secret, p.room_id@));
    let provider_pk = primitives::x25519_public(provider_secret);
    let key = consumer_key(consumer_secret, provider_pk, req_id, p.room_id@);
    assert forall|i: int| 0 <= i < inner.len() implies #[trigger] is_request_chunk(
        inner[i],
        key,
        req_id,
        p.path@,
        p.room_id@,
        i,
        parts[i],
    ) by {
        assert(inner[i] == ms[i + 1]);
        assert(is_request_chunk(ms[i + 1], key, req_id, p.path@, p.room_id@, i, parts[i]));
    }
    law_request_is_read_back(p, inner, parts, room_secret, consumer_secret, req_id, n);
    assert(parts.take(n) =~= parts);
    law_chunks_in_a_row(body, MAX_E2EE_PLAINTEXT_CHUNK_BYTES as int);
}

/// A request that was sent in one message is read back: the provider that knows
/// the room's secret reads its text.
pub proof fn law_whole_request_is_read_back(
    m: StreamMessage,
    body: Seq<char>,
    room_secret: Seq<char>,
    consumer_secret: Seq<u8>,
    req_id: Seq<char>,
    path: Seq<char>,
    room_id: Seq<char>,
    auth: Option<Json>,
)
    requires
        ({
            let provider_secret = room::static_secret(room::room_root(room_secret, room_id));
            &&& provider_secret.len() == 32
            &&& is_whole_request(
                m,
                consumer_secret,
                primitives::x25519_public(provider_secret),
                req_id,
                path,
                room_id,
                body,
                auth,
            )
        }),
        m->EncryptedProxyRequest_consumer_ephemeral_pk@.len() == 32,
    ensures
        inference_sidecar::inbound(
            Some(room_secret),
            room_id,
            req_id,
            path,
            m->EncryptedProxyRequest_consumer_ephemeral_pk@,
            m->EncryptedProxyRequest_nonce@,
            m->EncryptedProxyRequest_ciphertext@,
        ) == Inbound::Plain(encode_utf8(body)),
{
    let provider_secret = room::static_secret(room::room_root(room_secret, room_id));
    let provider_pk = primitives::x25519_public(provider_secret);
    assert(consumer_key(consumer_secret, provider_pk, req_id, room_id)
        == session::provider_session_key(
        provider_secret,
        primitives::x25519_public(consumer_secret),
        req_id,
        room_id,
    ));
}

/// The body of a request that was sent in one message arrives: where its text
/// reads back to it, the provider that knows the room's secret gets the body.
pub proof fn law_body_of_whole_request_arrives(
    m: StreamMessage,
    body: JsonV,
    room_secret: Seq<char>,
    consumer_secret: Seq<u8>,
    req_id: Seq<char>,
    path: Seq<char>,
    room_id: Seq<char>,
    auth: Option<Json>,
)
    requires
        ({
            let provider_secret = room::static_secret(room::room_root(room_secret, room_id));
            &&& provider_secret.len() == 32
            &&& is_whole_request(
                m,
                consumer_secret,
                primitives::x25519_public(provider_secret),
                req_id,
                path,
                room_id,
                json::json_print(body),
                auth,
            )
        }),
        m->EncryptedProxyRequest_consumer_ephemeral_pk@.len() == 32,
        json::reads_as(json::json_print(body), body),
    ensures
        inference_sidecar::inbound_body(
            inference_sidecar::inbound(
                Some(room_secret),
                room_id,
                req_id,
                path,
                m->EncryptedProxyRequest_consumer_ephemeral_pk@,
                m->EncryptedProxyRequest_nonce@,
                m->EncryptedProxyRequest_ciphertext@,
            ),
            room_id,
        ) == Ok::<JsonV, Seq<char>>(body),
{
    let t = json::json_print(body);
    law_whole_request_is_read_back(
        m,
        t,
        room_secret,
        consumer_secret,
        req_id,
        path,
        room_id,
        auth,
    );
    vstd::utf8::encode_utf8_valid_utf8(t);
    vstd::utf8::encode_utf8_decode_utf8(t);
}

} // verus!
