//! The cryptographic functions that the library is built on.

use chacha20poly1305::aead::{Aead, KeyInit, Payload};
use chacha20poly1305::{ChaCha20Poly1305, Nonce};
use sha2::Digest;
use vstd::prelude::*;

verus! {

/// The SHA-256 digest of a message.
pub uninterp spec fn sha256(message: Seq<u8>) -> Seq<u8>;

/// The X25519 public key of a secret.
pub uninterp spec fn x25519_public(secret: Seq<u8>) -> Seq<u8>;

/// The X25519 shared secret of one side's secret and the other's public key.
pub uninterp spec fn x25519_shared(secret: Seq<u8>, public: Seq<u8>) -> Seq<u8>;

/// The ChaCha20-Poly1305 encryption of a message.
pub uninterp spec fn aead_sealed(
    key: Seq<u8>,
    nonce: Seq<u8>,
    aad: Seq<u8>,
    message: Seq<u8>,
) -> Seq<u8>;

/// The message that a ChaCha20-Poly1305 ciphertext holds; `None` where it is
/// not authentic.
pub uninterp spec fn aead_opened(
    key: Seq<u8>,
    nonce: Seq<u8>,
    aad: Seq<u8>,
    ciphertext: Seq<u8>,
) -> Option<Seq<u8>>;

/// `sha2::Sha256::digest`: 32 bytes that depend on the message alone.
#[verifier::external_body]
pub(crate) fn sha256_digest(message: &[u8]) -> (r: [u8; 32])
    ensures
        r@ == sha256(message@),
{
    sha2::Sha256::digest(message).into()
}

/// The hexadecimal digit of `d`, in lower case.
pub open spec fn hex_digit(d: int) -> char {
    if d < 10 {
        (48 + d) as char
    } else {
        (87 + d) as char
    }
}

/// `bytes` in hexadecimal: two lower-case digits for each byte, the high one
/// first.
pub open spec fn hex_text(bytes: Seq<u8>) -> Seq<char> {
    Seq::new(
        2 * bytes.len(),
        |i: int|
            if i % 2 == 0 {
                hex_digit(bytes[i / 2] as int / 16)
            } else {
                hex_digit(bytes[i / 2] as int % 16)
            },
    )
}

/// `hex::encode`: two lower-case hexadecimal digits for each byte.
#[verifier::external_body]
pub(crate) fn hex_encode(bytes: &[u8]) -> (r: String)
    ensures
        r@ == hex_text(bytes@),
{
    hex::encode(bytes)
}

/// `x25519_dalek::PublicKey::from` a `StaticSecret` of the bytes `secret`.
#[verifier::external_body]
pub(crate) fn x25519_public_key(secret: &[u8; 32]) -> (r: [u8; 32])
    ensures
        r@ == x25519_public(secret@),
{
    x25519_dalek::PublicKey::from(&x25519_dalek::StaticSecret::from(*secret)).to_bytes()
}

/// `x25519_dalek::StaticSecret::diffie_hellman`. Both sides of an exchange get
/// the same secret: where `public` is the public key of some secret, its owner
/// computes the same from this side's public key.
#[verifier::external_body]
pub(crate) fn x25519_shared_secret(secret: &[u8; 32], public: &[u8; 32]) -> (r: [u8; 32])
    ensures
        r@ == x25519_shared(secret@, public@),
        forall|other: Seq<u8>|
            other.len() == 32 && public@ == #[trigger] x25519_public(other) ==> r@ == x25519_shared(
                other,
                x25519_public(secret@),
            ),
{
    let secret = x25519_dalek::StaticSecret::from(*secret);
    secret.diffie_hellman(&x25519_dalek::PublicKey::from(*public)).to_bytes()
}

/// `x25519_dalek::StaticSecret::random_from_rng` on the generator of the
/// operating system. Nothing is known of the bytes.
#[verifier::external_body]
pub(crate) fn random_x25519_secret() -> (r: [u8; 32]) {
    x25519_dalek::StaticSecret::random_from_rng(rand::rngs::OsRng).to_bytes()
}

/// `getrandom::getrandom` on twelve bytes; where the operating system gives none,
/// its error in words. Nothing is known of the bytes or of the words.
#[verifier::external_body]
pub(crate) fn random_nonce() -> (r: Result<[u8; 12], String>) {
    let mut nonce = [0u8; 12];
    getrandom::getrandom(&mut nonce).map(|_| nonce).map_err(|e| e.to_string())
}

/// The longest message that the cipher takes, in bytes: its counter counts blocks
/// of 64 bytes in 32 bits, and the block 0 is taken.
pub const LONGEST_MESSAGE: u64 = 274_877_906_816;

/// Whether the cipher takes a message of `len` bytes.
pub open spec fn sealable(len: nat) -> bool {
    len <= LONGEST_MESSAGE
}

/// Whether the cipher takes a ciphertext of `len` bytes, of which 16 are the tag.
pub open spec fn openable(len: nat) -> bool {
    len <= LONGEST_MESSAGE + 16
}

/// Whether the cipher takes a message of `len` bytes.
pub fn is_sealable(len: usize) -> (r: bool)
    ensures
        r == sealable(len as nat),
{
    len as u64 <= LONGEST_MESSAGE
}

/// Whether the cipher takes a ciphertext of `len` bytes.
pub fn is_openable(len: usize) -> (r: bool)
    ensures
        r == openable(len as nat),
{
    len as u64 <= LONGEST_MESSAGE + 16
}

/// `ChaCha20Poly1305::encrypt` on a message that is not longer than its counter
/// allows. It does not fail, appends a tag of 16 bytes, and what it gives opens to
/// the message under the same key, nonce and associated data.
#[verifier::external_body]
pub(crate) fn aead_seal(key: &[u8; 32], nonce: &[u8; 12], aad: &[u8], message: &[u8]) -> (r: Option<
    Vec<u8>,
>)
    requires
        message@.len() + 16 <= isize::MAX,
        sealable(message@.len()),
    ensures
        r is Some,
        r matches Some(c) ==> c@ == aead_sealed(key@, nonce@, aad@, message@),
        r matches Some(c) ==> c@.len() == message@.len() + 16 && aead_opened(
            key@,
            nonce@,
            aad@,
            c@,
        ) == Some(message@),
{
    let cipher = ChaCha20Poly1305::new(key.into());
    cipher.encrypt(Nonce::from_slice(nonce), Payload { msg: message, aad }).ok()
}

/// `ChaCha20Poly1305::decrypt` on a ciphertext that is not longer than its counter
/// allows: the message, or a failure, as [`aead_opened`] names it.
#[verifier::external_body]
pub(crate) fn aead_open(key: &[u8; 32], nonce: &[u8; 12], aad: &[u8], ciphertext: &[u8]) -> (r:
    Option<Vec<u8>>)
    requires
        openable(ciphertext@.len()),
    ensures
        match r {
            Some(m) => aead_opened(key@, nonce@, aad@, ciphertext@) == Some(m@),
            None => aead_opened(key@, nonce@, aad@, ciphertext@) is None,
        },
{
    let cipher = ChaCha20Poly1305::new(key.into());
    cipher.decrypt(Nonce::from_slice(nonce), Payload { msg: ciphertext, aad }).ok()
}

/// Thirty-two bytes as an array.
pub(crate) fn array_32(bytes: &[u8]) -> (r: [u8; 32])
    requires
        bytes@.len() == 32,
    ensures
        r@ == bytes@,
{
    let mut out: [u8; 32] = [0u8; 32];
    for i in 0..32usize
        invariant
            bytes@.len() == 32,
            forall|j: int| 0 <= j < i ==> out@[j] == bytes@[j],
    {
        out[i] = bytes[i];
    }
    assert(out@ =~= bytes@);
    out
}

/// Twelve bytes as an array.
pub(crate) fn array_12(bytes: &[u8]) -> (r: [u8; 12])
    requires
        bytes@.len() == 12,
    ensures
        r@ == bytes@,
{
    let mut out: [u8; 12] = [0u8; 12];
    for i in 0..12usize
        invariant
            bytes@.len() == 12,
            forall|j: int| 0 <= j < i ==> out@[j] == bytes@[j],
    {
        out[i] = bytes[i];
    }
    assert(out@ =~= bytes@);
    out
}

/// The value of a hexadecimal digit.
pub open spec fn hex_value(c: char) -> int {
    if '0' <= c <= '9' {
        c as u32 - 48
    } else {
        c as u32 - 87
    }
}

/// Bytes are read back from their hexadecimal text: two digits for each, the high one
/// first.
pub proof fn law_hex_is_read_back(bytes: Seq<u8>, i: int)
    requires
        0 <= i < bytes.len(),
    ensures
        hex_text(bytes).len() == 2 * bytes.len(),
        16 * hex_value(hex_text(bytes)[2 * i]) + hex_value(hex_text(bytes)[2 * i + 1]) == bytes[i],
{
    let t = hex_text(bytes);
    let high = bytes[i] as int / 16;
    let low = bytes[i] as int % 16;
    assert((2 * i) % 2 == 0 && (2 * i) / 2 == i);
    assert((2 * i + 1) % 2 == 1 && (2 * i + 1) / 2 == i);
    assert(t[2 * i] == hex_digit(high));
    assert(t[2 * i + 1] == hex_digit(low));
    assert(0 <= high < 16 && 0 <= low < 16);
    assert(hex_value(hex_digit(high)) == high);
    assert(hex_value(hex_digit(low)) == low);
}

} // verus!
