//! The key of one request.

use crate::crypto::primitives;
use vstd::prelude::*;
use vstd::string::StringSliceAdditionalSpecFns;
use vstd::utf8::encode_utf8;

verus! {

/// A key pair for one request.
pub struct EphemeralKeypair {
    pub public_key: [u8; 32],
    pub secret: [u8; 32],
}

impl EphemeralKeypair {
    /// Whether the public key is that of the secret key.
    pub open spec fn matched(self) -> bool {
        self.public_key@ == primitives::x25519_public(self.secret@)
    }

    /// The secret key.
    pub fn secret(&self) -> (r: &[u8; 32])
        ensures
            r@ == self.secret@,
    {
        &self.secret
    }

    /// The key pair of `secret`.
    pub fn from_secret(secret: [u8; 32]) -> (r: EphemeralKeypair)
        ensures
            r.matched(),
            r.secret@ == secret@,
    {
        EphemeralKeypair { public_key: primitives::x25519_public_key(&secret), secret }
    }
}

/// A random key pair.
pub fn generate_ephemeral_keypair() -> (r: EphemeralKeypair)
    ensures
        r.matched(),
{
    EphemeralKeypair::from_secret(primitives::random_x25519_secret())
}

/// The session key that a shared secret gives for one request in one room.
pub open spec fn session_key(shared: Seq<u8>, req_id: Seq<char>, room_id: Seq<char>) -> Seq<u8> {
    primitives::sha256(
        encode_utf8("mtrxai-session-key-v1"@) + shared + encode_utf8(req_id) + encode_utf8(room_id),
    )
}

/// The provider's session key: of the room's secret key and the consumer's
/// public key.
pub open spec fn provider_session_key(
    room_secret: Seq<u8>,
    consumer_public: Seq<u8>,
    req_id: Seq<char>,
    room_id: Seq<char>,
) -> Seq<u8> {
    session_key(primitives::x25519_shared(room_secret, consumer_public), req_id, room_id)
}

/// The provider's session key. It is the consumer's, whatever the consumer's
/// secret is: the two sides agree.
pub fn derive_session_key(
    room_static_secret: &[u8; 32],
    consumer_ephemeral_public: &[u8; 32],
    req_id: &str,
    room_id: &str,
) -> (r: [u8; 32])
    ensures
        r@ == provider_session_key(
            room_static_secret@,
            consumer_ephemeral_public@,
            req_id@,
            room_id@,
        ),
        forall|consumer_secret: Seq<u8>|
            consumer_secret.len() == 32 && consumer_ephemeral_public@
                == #[trigger] primitives::x25519_public(consumer_secret) ==> r@ == session_key(
                primitives::x25519_shared(
                    consumer_secret,
                    primitives::x25519_public(room_static_secret@),
                ),
                req_id@,
                room_id@,
            ),
{
    let shared: [u8; 32] = primitives::x25519_shared_secret(
        room_static_secret,
        consumer_ephemeral_public,
    );
    hkdf_session_key(&shared, req_id, room_id)
}

/// The consumer's session key. It is the provider's, whatever the provider's
/// secret is: the two sides agree.
pub fn derive_session_key_consumer(
    consumer_ephemeral_secret: &[u8; 32],
    provider_static_public: &[u8; 32],
    req_id: &str,
    room_id: &str,
) -> (r: [u8; 32])
    ensures
        r@ == session_key(
            primitives::x25519_shared(consumer_ephemeral_secret@, provider_static_public@),
            req_id@,
            room_id@,
        ),
        forall|provider_secret: Seq<u8>|
            provider_secret.len() == 32 && provider_static_public@
                == #[trigger] primitives::x25519_public(provider_secret) ==> r@
                == provider_session_key(
                provider_secret,
                primitives::x25519_public(consumer_ephemeral_secret@),
                req_id@,
                room_id@,
            ),
{
    let shared: [u8; 32] = primitives::x25519_shared_secret(
        consumer_ephemeral_secret,
        provider_static_public,
    );
    hkdf_session_key(&shared, req_id, room_id)
}

fn hkdf_session_key(shared: &[u8; 32], req_id: &str, room_id: &str) -> (r: [u8; 32])
    ensures
        r@ == session_key(shared@, req_id@, room_id@),
{
    let mut message: Vec<u8> = Vec::new();
    message.extend_from_slice("mtrxai-session-key-v1".as_bytes());
    message.extend_from_slice(shared);
    message.extend_from_slice(req_id.as_bytes());
    message.extend_from_slice(room_id.as_bytes());
    assert(message@ =~= encode_utf8("mtrxai-session-key-v1"@) + shared@ + encode_utf8(req_id@)
        + encode_utf8(room_id@));
    primitives::sha256_digest(message.as_slice())
}

/// The key of a request is made of the shared secret, the request and the room: two keys
/// are digests of the same bytes only where all three are the same, the identifiers of
/// the rooms being equally long.
pub proof fn law_keys_are_apart(
    shared: Seq<u8>,
    req_id: Seq<char>,
    room_id: Seq<char>,
    shared2: Seq<u8>,
    req_id2: Seq<char>,
    room_id2: Seq<char>,
)
    requires
        shared.len() == shared2.len(),
        encode_utf8(room_id).len() == encode_utf8(room_id2).len(),
    ensures
        exists|m: Seq<u8>, m2: Seq<u8>|
            session_key(shared, req_id, room_id) == #[trigger] primitives::sha256(m) && session_key(
                shared2,
                req_id2,
                room_id2,
            ) == #[trigger] primitives::sha256(m2) && (m == m2 <==> shared == shared2 && req_id
                == req_id2 && room_id == room_id2),
{
    let label = encode_utf8("mtrxai-session-key-v1"@);
    let a = encode_utf8(req_id);
    let b = encode_utf8(room_id);
    let a2 = encode_utf8(req_id2);
    let b2 = encode_utf8(room_id2);
    let m = label + shared + a + b;
    let m2 = label + shared2 + a2 + b2;
    vstd::utf8::encode_utf8_decode_utf8(req_id);
    vstd::utf8::encode_utf8_decode_utf8(req_id2);
    vstd::utf8::encode_utf8_decode_utf8(room_id);
    vstd::utf8::encode_utf8_decode_utf8(room_id2);
    if m == m2 {
        let n = label.len() as int;
        let k = shared.len() as int;
        assert(m.subrange(n, n + k) =~= shared);
        assert(m2.subrange(n, n + k) =~= shared2);
        assert(m.len() == label.len() + shared.len() + a.len() + b.len());
        assert(m2.len() == label.len() + shared2.len() + a2.len() + b2.len());
        assert(a.len() == a2.len());
        let e = a.len() as int;
        assert(m.subrange(n + k, n + k + e) =~= a);
        assert(m2.subrange(n + k, n + k + e) =~= a2);
        assert(m.skip(n + k + e) =~= b);
        assert(m2.skip(n + k + e) =~= b2);
    }
    assert(session_key(shared, req_id, room_id) == primitives::sha256(m));
    assert(session_key(shared2, req_id2, room_id2) == primitives::sha256(m2));
}

} // verus!
