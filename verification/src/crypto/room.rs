//! The keys of a room.

use crate::crypto::primitives;
use vstd::prelude::*;
use vstd::string::StringSliceAdditionalSpecFns;
use vstd::utf8::encode_utf8;

verus! {

/// The hash by which a room's secret is known.
pub open spec fn auth_hash(secret: Seq<char>) -> Seq<char> {
    primitives::hex_text(primitives::sha256(encode_utf8(secret)))
}

/// The hash by which a room's secret is known. [`verify_auth_hash`] accepts it.
pub fn auth_hash_from_secret(secret: &str) -> (r: String)
    ensures
        r@ == auth_hash(secret@),
{
    primitives::hex_encode(&primitives::sha256_digest(secret.as_bytes()))
}

/// Whether `stored_hash` is the hash of `secret`.
pub fn verify_auth_hash(secret: &str, stored_hash: &str) -> (r: bool)
    ensures
        r == (stored_hash@ == auth_hash(secret@)),
{
    constant_time_eq(&auth_hash_from_secret(secret), stored_hash)
}

/// Whether `a` and `b` are equal, found by looking at every byte.
fn constant_time_eq(a: &str, b: &str) -> (r: bool)
    ensures
        r == (a@ == b@),
{
    let x = a.as_bytes();
    let y = b.as_bytes();
    proof {
        vstd::utf8::encode_utf8_decode_utf8(a@);
        vstd::utf8::encode_utf8_decode_utf8(b@);
    }
    if x.len() != y.len() {
        return false;
    }
    let mut acc: u8 = 0;
    assert(x@.take(0) =~= y@.take(0));
    for i in 0..x.len()
        invariant
            x@.len() == y@.len(),
            acc == 0 <==> x@.take(i as int) == y@.take(i as int),
    {
        let p: u8 = x[i];
        let q: u8 = y[i];
        proof {
            assert((acc | (p ^ q)) == 0 <==> (acc == 0 && p == q)) by (bit_vector);
            let xi = x@.take(i as int + 1);
            let yi = y@.take(i as int + 1);
            assert(xi =~= x@.take(i as int).push(p));
            assert(yi =~= y@.take(i as int).push(q));
            assert(xi.drop_last() =~= x@.take(i as int));
            assert(yi.drop_last() =~= y@.take(i as int));
            assert(xi.last() == p && yi.last() == q);
        }
        acc = acc | (p ^ q);
    }
    assert(x@.take(x@.len() as int) =~= x@);
    assert(y@.take(y@.len() as int) =~= y@);
    acc == 0
}

/// The root key of the room `room_id` with the secret `room_secret`.
pub open spec fn room_root(room_secret: Seq<char>, room_id: Seq<char>) -> Seq<u8> {
    primitives::sha256(
        encode_utf8("mtrxai-room-root-v1"@) + encode_utf8(room_secret) + encode_utf8(room_id),
    )
}

/// The root key of a room.
pub fn derive_room_root_key(room_secret: &str, room_id: &str) -> (r: [u8; 32])
    ensures
        r@ == room_root(room_secret@, room_id@),
{
    let mut message: Vec<u8> = Vec::new();
    message.extend_from_slice("mtrxai-room-root-v1".as_bytes());
    message.extend_from_slice(room_secret.as_bytes());
    message.extend_from_slice(room_id.as_bytes());
    assert(message@ =~= encode_utf8("mtrxai-room-root-v1"@) + encode_utf8(room_secret@)
        + encode_utf8(room_id@));
    primitives::sha256_digest(message.as_slice())
}

/// The key pair of a room.
pub struct RoomStaticKeys {
    pub public_key: [u8; 32],
    pub secret_key: [u8; 32],
}

/// The secret key that a room's root key determines.
pub open spec fn static_secret(root: Seq<u8>) -> Seq<u8> {
    primitives::sha256(root + encode_utf8("static-x25519"@))
}

impl RoomStaticKeys {
    /// Whether this is the key pair that the root key `root` determines.
    pub open spec fn derived_from(self, root: Seq<u8>) -> bool {
        &&& self.secret_key@ == static_secret(root)
        &&& self.public_key@ == primitives::x25519_public(static_secret(root))
    }
}

/// The key pair that a room's root key determines.
pub fn derive_static_keypair_from_room_root(room_root: &[u8; 32]) -> (r: RoomStaticKeys)
    ensures
        r.derived_from(room_root@),
{
    let mut message: Vec<u8> = Vec::new();
    message.extend_from_slice(room_root);
    message.extend_from_slice("static-x25519".as_bytes());
    assert(message@ =~= room_root@ + encode_utf8("static-x25519"@));
    let secret_key: [u8; 32] = primitives::sha256_digest(message.as_slice());
    let public_key: [u8; 32] = primitives::x25519_public_key(&secret_key);
    RoomStaticKeys { public_key, secret_key }
}

/// What is stored of a room's key pair: the public key and then the secret key.
pub open spec fn key_blob(root: Seq<u8>) -> Seq<u8> {
    primitives::x25519_public(static_secret(root)) + static_secret(root)
}

/// The key pair of a room, given what is stored of it, and what is to be stored
/// instead: nothing where the stored keys are the right ones, otherwise the keys
/// that the root key determines.
pub fn load_room_static_keypair(stored: Option<&Vec<u8>>, room_root: &[u8; 32]) -> (r: (
    RoomStaticKeys,
    Option<Vec<u8>>,
))
    ensures
        r.0.derived_from(room_root@),
        r.1 is None <==> (stored matches Some(s) && s@ == key_blob(room_root@)),
        r.1 matches Some(blob) ==> blob@ == key_blob(room_root@),
{
    let derived = derive_static_keypair_from_room_root(room_root);
    let mut blob: Vec<u8> = Vec::new();
    blob.extend_from_slice(&derived.public_key);
    blob.extend_from_slice(&derived.secret_key);
    assert(blob@ =~= key_blob(room_root@));
    if let Some(s) = stored {
        if bytes_eq(s.as_slice(), blob.as_slice()) {
            return (derived, None);
        }
    }
    (derived, Some(blob))
}

/// Whether two byte strings are equal.
pub fn bytes_eq(a: &[u8], b: &[u8]) -> (r: bool)
    ensures
        r == (a@ == b@),
{
    if a.len() != b.len() {
        return false;
    }
    for i in 0..a.len()
        invariant
            a@.len() == b@.len(),
            forall|j: int| 0 <= j < i ==> a@[j] == b@[j],
    {
        if a[i] != b[i] {
            return false;
        }
    }
    assert(a@ =~= b@);
    true
}

/// The key of a room is made of its secret and its identifier: two rooms whose
/// identifiers are equally long have keys of the same bytes only where both are the
/// same.
pub proof fn law_rooms_are_apart(
    secret: Seq<char>,
    room_id: Seq<char>,
    secret2: Seq<char>,
    room_id2: Seq<char>,
)
    requires
        encode_utf8(room_id).len() == encode_utf8(room_id2).len(),
    ensures
        exists|m: Seq<u8>, m2: Seq<u8>|
            room_root(secret, room_id) == #[trigger] primitives::sha256(m) && room_root(
                secret2,
                room_id2,
            ) == #[trigger] primitives::sha256(m2) && (m == m2 <==> secret == secret2 && room_id
                == room_id2),
{
    let label = encode_utf8("mtrxai-room-root-v1"@);
    let a = encode_utf8(secret);
    let b = encode_utf8(room_id);
    let a2 = encode_utf8(secret2);
    let b2 = encode_utf8(room_id2);
    let m = label + a + b;
    let m2 = label + a2 + b2;
    vstd::utf8::encode_utf8_decode_utf8(secret);
    vstd::utf8::encode_utf8_decode_utf8(secret2);
    vstd::utf8::encode_utf8_decode_utf8(room_id);
    vstd::utf8::encode_utf8_decode_utf8(room_id2);
    if m == m2 {
        let n = label.len() as int;
        assert(m.len() == label.len() + a.len() + b.len());
        assert(m2.len() == label.len() + a2.len() + b2.len());
        assert(a.len() == a2.len());
        let e = a.len() as int;
        assert(m.subrange(n, n + e) =~= a);
        assert(m2.subrange(n, n + e) =~= a2);
        assert(m.skip(n + e) =~= b);
        assert(m2.skip(n + e) =~= b2);
    }
    assert(room_root(secret, room_id) == primitives::sha256(m));
    assert(room_root(secret2, room_id2) == primitives::sha256(m2));
}

} // verus!
