//! Encryption of the chunks of a streamed response.

use crate::crypto::envelope;
use crate::crypto::envelope::{EncryptedPayload, EnvelopeError};
use crate::crypto::primitives;
use crate::crypto::session;
use crate::text;
use vstd::prelude::*;

verus! {

/// The path under which the chunk `seq` is authenticated.
pub open spec fn chunk_label(path: Seq<char>, seq: u32) -> Seq<char> {
    path + "#"@ + text::dec(seq as nat)
}

/// The path under which the chunk `seq` is authenticated.
pub fn chunk_path(path: &str, seq: u32) -> (r: String)
    ensures
        r@ == chunk_label(path@, seq),
{
    let n = text::dec_u64(seq as u64);
    text::concat3(path, "#", &n)
}

/// No two chunks of a stream are authenticated under one path.
pub proof fn law_chunk_labels_differ(path: Seq<char>, a: u32, b: u32)
    requires
        chunk_label(path, a) == chunk_label(path, b),
    ensures
        a == b,
{
    let p = path + "#"@;
    let da = text::dec(a as nat);
    let db = text::dec(b as nat);
    assert(chunk_label(path, a).skip(p.len() as int) =~= da);
    assert(chunk_label(path, b).skip(p.len() as int) =~= db);
    text::lemma_dec_value(a as nat);
    text::lemma_dec_value(b as nat);
}

/// What the consumer with the secret `secret` reads from the chunk `seq`.
pub open spec fn chunk_opened(
    secret: Seq<u8>,
    provider_pk: Seq<u8>,
    req_id: Seq<char>,
    path: Seq<char>,
    seq: u32,
    room_id: Seq<char>,
    nonce: Seq<u8>,
    ciphertext: Seq<u8>,
) -> Result<Seq<u8>, EnvelopeError> {
    envelope::opened(
        session::session_key(primitives::x25519_shared(secret, provider_pk), req_id, room_id),
        req_id,
        chunk_label(path, seq),
        room_id,
        nonce,
        ciphertext,
    )
}

/// Whether `p` is the chunk `seq` of a response, `plaintext`, encrypted by the
/// provider with the secret `room_static_secret` for the consumer with the public
/// key `consumer_pk`, who reads it back.
pub open spec fn is_sealed_chunk(
    p: EncryptedPayload,
    room_static_secret: Seq<u8>,
    consumer_pk: Seq<u8>,
    req_id: Seq<char>,
    path: Seq<char>,
    seq: u32,
    room_id: Seq<char>,
    plaintext: Seq<u8>,
) -> bool {
    &&& p.nonce@.len() == 12
    &&& primitives::aead_sealed(
        session::provider_session_key(room_static_secret, consumer_pk, req_id, room_id),
        p.nonce@,
        envelope::aad(req_id, chunk_label(path, seq), room_id),
        plaintext,
    ) == p.ciphertext@
    &&& forall|secret: Seq<u8>|
        secret.len() == 32 && consumer_pk == #[trigger] primitives::x25519_public(secret)
            ==> chunk_opened(
            secret,
            primitives::x25519_public(room_static_secret),
            req_id,
            path,
            seq,
            room_id,
            p.nonce@,
            p.ciphertext@,
        ) == Ok::<Seq<u8>, EnvelopeError>(plaintext)
}

/// Encrypts the chunk `seq` of a response under `nonce`. Every consumer whose
/// public key was given reads the chunk back under the provider's public key.
pub fn encrypt_proxy_chunk_with_nonce(
    room_static_secret: &[u8; 32],
    consumer_ephemeral_pk: &[u8; 32],
    req_id: &str,
    path: &str,
    seq: u32,
    room_id: &str,
    plaintext: &[u8],
    nonce: &[u8; 12],
) -> (r: Result<EncryptedPayload, EnvelopeError>)
    requires
        plaintext@.len() + 16 <= isize::MAX,
    ensures
        r is Ok <==> primitives::sealable(plaintext@.len()),
        match r {
            Ok(p) => p.nonce@ == nonce@ && is_sealed_chunk(
                p,
                room_static_secret@,
                consumer_ephemeral_pk@,
                req_id@,
                path@,
                seq,
                room_id@,
                plaintext@,
            ),
            Err(e) => e == EnvelopeError::TooLong,
        },
{
    let key: [u8; 32] = session::derive_session_key(
        room_static_secret,
        consumer_ephemeral_pk,
        req_id,
        room_id,
    );
    let label = chunk_path(path, seq);
    envelope::encrypt_payload_with_nonce(&key, req_id, &label, room_id, plaintext, nonce)
}

/// Encrypts the chunk `seq` of a response under a random nonce. It fails where the
/// operating system gives no random bytes, and where the chunk is too long.
pub fn encrypt_proxy_chunk(
    room_static_secret: &[u8; 32],
    consumer_ephemeral_pk: &[u8; 32],
    req_id: &str,
    path: &str,
    seq: u32,
    room_id: &str,
    plaintext: &[u8],
) -> (r: Result<EncryptedPayload, EnvelopeError>)
    requires
        plaintext@.len() + 16 <= isize::MAX,
    ensures
        match r {
            Ok(p) => primitives::sealable(plaintext@.len()) && is_sealed_chunk(
                p,
                room_static_secret@,
                consumer_ephemeral_pk@,
                req_id@,
                path@,
                seq,
                room_id@,
                plaintext@,
            ),
            Err(EnvelopeError::TooLong) => !primitives::sealable(plaintext@.len()),
            Err(e) => e is NoNonce,
        },
{
    match primitives::random_nonce() {
        Ok(nonce) => encrypt_proxy_chunk_with_nonce(
            room_static_secret,
            consumer_ephemeral_pk,
            req_id,
            path,
            seq,
            room_id,
            plaintext,
            &nonce,
        ),
        Err(e) => Err(EnvelopeError::NoNonce(e)),
    }
}

/// Decrypts the chunk `seq` of a response.
pub fn decrypt_proxy_chunk(
    secret: &[u8; 32],
    provider_pk: &[u8; 32],
    req_id: &str,
    path: &str,
    seq: u32,
    room_id: &str,
    payload: &EncryptedPayload,
) -> (r: Result<Vec<u8>, EnvelopeError>)
    ensures
        match r {
            Ok(m) => chunk_opened(
                secret@,
                provider_pk@,
                req_id@,
                path@,
                seq,
                room_id@,
                payload.nonce@,
                payload.ciphertext@,
            ) == Ok::<Seq<u8>, EnvelopeError>(m@),
            Err(e) => chunk_opened(
                secret@,
                provider_pk@,
                req_id@,
                path@,
                seq,
                room_id@,
                payload.nonce@,
                payload.ciphertext@,
            ) == Err::<Seq<u8>, EnvelopeError>(e),
        },
{
    let key: [u8; 32] = session::derive_session_key_consumer(secret, provider_pk, req_id, room_id);
    let label = chunk_path(path, seq);
    envelope::decrypt_payload(&key, req_id, &label, room_id, payload)
}

} // verus!
