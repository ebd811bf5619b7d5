//! The envelope around an encrypted message.

use crate::crypto::primitives;
use crate::text;
use vstd::prelude::*;
use vstd::string::StringSliceAdditionalSpecFns;
use vstd::utf8::encode_utf8;

verus! {

/// The version of the data that is authenticated along with a message.
pub const AAD_VERSION: u8 = 1;

/// An encrypted message and the nonce under which it was encrypted.
#[derive(Debug)]
pub struct EncryptedPayload {
    pub nonce: Vec<u8>,
    pub ciphertext: Vec<u8>,
}

/// Why a message was not encrypted or decrypted.
#[derive(Debug, PartialEq, Eq)]
pub enum EnvelopeError {
    /// The operating system gave no random bytes; the reason in words.
    NoNonce(String),
    /// The message is longer than the cipher takes.
    TooLong,
    /// The nonce is not of twelve bytes.
    NonceLength,
    /// The message is not authentic.
    NotAuthentic,
}

impl EnvelopeError {
    /// The error in words.
    pub open spec fn words(self) -> Seq<char> {
        match self {
            EnvelopeError::NoNonce(e) => "nonce: "@ + e@,
            EnvelopeError::TooLong => "encrypt: aead::Error"@,
            EnvelopeError::NonceLength => "invalid nonce length"@,
            EnvelopeError::NotAuthentic => "decrypt: aead::Error"@,
        }
    }

    /// The error in words.
    pub fn message(&self) -> (r: String)
        ensures
            r@ == self.words(),
    {
        match self {
            EnvelopeError::NoNonce(e) => text::concat2("nonce: ", e),
            EnvelopeError::TooLong => text::copy("encrypt: aead::Error"),
            EnvelopeError::NonceLength => text::copy("invalid nonce length"),
            EnvelopeError::NotAuthentic => text::copy("decrypt: aead::Error"),
        }
    }
}

/// What is authenticated along with a message: the request, path and room it
/// belongs to.
pub open spec fn aad(req_id: Seq<char>, path: Seq<char>, room_id: Seq<char>) -> Seq<u8> {
    encode_utf8("mtrxai-v1|"@ + req_id + "|"@ + path + "|"@ + room_id)
}

fn build_aad(req_id: &str, path: &str, room_id: &str) -> (r: Vec<u8>)
    ensures
        r@ == aad(req_id@, path@, room_id@),
{
    let mut t = text::concat3("mtrxai-v1|", req_id, "|");
    t.append(path);
    t.append("|");
    t.append(room_id);
    t.as_str().as_bytes_vec()
}

/// The message that an envelope holds, or why it does not open. One that is longer
/// than the cipher takes is not authentic.
pub open spec fn opened(
    key: Seq<u8>,
    req_id: Seq<char>,
    path: Seq<char>,
    room_id: Seq<char>,
    nonce: Seq<u8>,
    ciphertext: Seq<u8>,
) -> Result<Seq<u8>, EnvelopeError> {
    if nonce.len() != 12 {
        Err(EnvelopeError::NonceLength)
    } else if !primitives::openable(ciphertext.len()) {
        Err(EnvelopeError::NotAuthentic)
    } else {
        match primitives::aead_opened(key, nonce, aad(req_id, path, room_id), ciphertext) {
            Some(m) => Ok(m),
            None => Err(EnvelopeError::NotAuthentic),
        }
    }
}

/// Encrypts `plaintext` under `nonce`. What comes of it opens to `plaintext`.
pub fn encrypt_payload_with_nonce(
    session_key: &[u8; 32],
    req_id: &str,
    path: &str,
    room_id: &str,
    plaintext: &[u8],
    nonce: &[u8; 12],
) -> (r: Result<EncryptedPayload, EnvelopeError>)
    requires
        plaintext@.len() + 16 <= isize::MAX,
    ensures
        r is Ok <==> primitives::sealable(plaintext@.len()),
        match r {
            Ok(p) => {
                &&& p.nonce@ == nonce@
                &&& primitives::aead_sealed(
                    session_key@,
                    nonce@,
                    aad(req_id@, path@, room_id@),
                    plaintext@,
                ) == p.ciphertext@
                &&& p.ciphertext@.len() == plaintext@.len() + 16
                &&& opened(session_key@, req_id@, path@, room_id@, p.nonce@, p.ciphertext@) == Ok::<
                    Seq<u8>,
                    EnvelopeError,
                >(plaintext@)
            },
            Err(e) => e == EnvelopeError::TooLong,
        },
{
    if !primitives::is_sealable(plaintext.len()) {
        return Err(EnvelopeError::TooLong);
    }
    let a = build_aad(req_id, path, room_id);
    match primitives::aead_seal(session_key, nonce, a.as_slice(), plaintext) {
        Some(ciphertext) => {
            let mut n: Vec<u8> = Vec::new();
            n.extend_from_slice(nonce);
            assert(n@ =~= nonce@);
            Ok(EncryptedPayload { nonce: n, ciphertext })
        },
        None => Err(EnvelopeError::TooLong),
    }
}

/// Encrypts `plaintext` under a random nonce. What comes of it opens to
/// `plaintext`. It fails where the operating system gives no random bytes, and
/// where the message is too long.
pub fn encrypt_payload(
    session_key: &[u8; 32],
    req_id: &str,
    path: &str,
    room_id: &str,
    plaintext: &[u8],
) -> (r: Result<EncryptedPayload, EnvelopeError>)
    requires
        plaintext@.len() + 16 <= isize::MAX,
    ensures
        match r {
            Ok(p) => {
                &&& primitives::sealable(plaintext@.len())
                &&& p.nonce@.len() == 12
                &&& primitives::aead_sealed(
                    session_key@,
                    p.nonce@,
                    aad(req_id@, path@, room_id@),
                    plaintext@,
                ) == p.ciphertext@
                &&& opened(session_key@, req_id@, path@, room_id@, p.nonce@, p.ciphertext@) == Ok::<
                    Seq<u8>,
                    EnvelopeError,
                >(plaintext@)
            },
            Err(EnvelopeError::TooLong) => !primitives::sealable(plaintext@.len()),
            Err(e) => e is NoNonce,
        },
{
    match primitives::random_nonce() {
        Ok(nonce) => encrypt_payload_with_nonce(
            session_key,
            req_id,
            path,
            room_id,
            plaintext,
            &nonce,
        ),
        Err(e) => Err(EnvelopeError::NoNonce(e)),
    }
}

/// `n` random nonces.
pub(crate) fn random_nonces(n: usize) -> (r: Result<Vec<[u8; 12]>, EnvelopeError>)
    ensures
        n == 0 ==> r is Ok,
        match r {
            Ok(v) => v@.len() == n,
            Err(e) => e is NoNonce,
        },
{
    let mut out: Vec<[u8; 12]> = Vec::new();
    for i in 0..n
        invariant
            out@.len() == i,
    {
        match primitives::random_nonce() {
            Ok(nonce) => {
                out.push(nonce);
            },
            Err(e) => {
                return Err(EnvelopeError::NoNonce(e));
            },
        }
    }
    Ok(out)
}

/// Decrypts an envelope.
pub fn decrypt_payload(
    session_key: &[u8; 32],
    req_id: &str,
    path: &str,
    room_id: &str,
    payload: &EncryptedPayload,
) -> (r: Result<Vec<u8>, EnvelopeError>)
    ensures
        match r {
            Ok(m) => opened(
                session_key@,
                req_id@,
                path@,
                room_id@,
                payload.nonce@,
                payload.ciphertext@,
            ) == Ok::<Seq<u8>, EnvelopeError>(m@),
            Err(e) => opened(
                session_key@,
                req_id@,
                path@,
                room_id@,
                payload.nonce@,
                payload.ciphertext@,
            ) == Err::<Seq<u8>, EnvelopeError>(e),
        },
{
    if payload.nonce.len() != 12 {
        return Err(EnvelopeError::NonceLength);
    }
    if !primitives::is_openable(payload.ciphertext.len()) {
        return Err(EnvelopeError::NotAuthentic);
    }
    let nonce: [u8; 12] = primitives::array_12(payload.nonce.as_slice());
    let a = build_aad(req_id, path, room_id);
    match primitives::aead_open(session_key, &nonce, a.as_slice(), payload.ciphertext.as_slice()) {
        Some(m) => Ok(m),
        None => Err(EnvelopeError::NotAuthentic),
    }
}

/// What a message is bound to tells request, path and room apart: it is the same for two
/// messages only where all three are, as long as requests and paths have no bar in them.
pub proof fn law_messages_are_bound_apart(
    req_id: Seq<char>,
    path: Seq<char>,
    room_id: Seq<char>,
    req_id2: Seq<char>,
    path2: Seq<char>,
    room_id2: Seq<char>,
)
    requires
        !req_id.contains('|'),
        !req_id2.contains('|'),
        !path.contains('|'),
        !path2.contains('|'),
        aad(req_id, path, room_id) == aad(req_id2, path2, room_id2),
    ensures
        req_id == req_id2,
        path == path2,
        room_id == room_id2,
{
    let label = "mtrxai-v1|"@;
    reveal_strlit("|");
    let s = label + req_id + "|"@ + path + "|"@ + room_id;
    let s2 = label + req_id2 + "|"@ + path2 + "|"@ + room_id2;
    vstd::utf8::encode_utf8_decode_utf8(s);
    vstd::utf8::encode_utf8_decode_utf8(s2);
    let rest = path + "|"@ + room_id;
    let rest2 = path2 + "|"@ + room_id2;
    assert(s.skip(label.len() as int) =~= req_id + ("|"@ + rest));
    assert(s2.skip(label.len() as int) =~= req_id2 + ("|"@ + rest2));
    lemma_up_to_bar(req_id, rest, req_id2, rest2);
    assert(rest =~= path + ("|"@ + room_id));
    assert(rest2 =~= path2 + ("|"@ + room_id2));
    lemma_up_to_bar(path, room_id, path2, room_id2);
}

proof fn lemma_up_to_bar(a: Seq<char>, rest: Seq<char>, a2: Seq<char>, rest2: Seq<char>)
    requires
        !a.contains('|'),
        !a2.contains('|'),
        a + ("|"@ + rest) =~= a2 + ("|"@ + rest2),
    ensures
        a == a2,
        rest == rest2,
{
    reveal_strlit("|");
    let s = a + ("|"@ + rest);
    let s2 = a2 + ("|"@ + rest2);
    assert(s[a.len() as int] == '|');
    assert(s2[a2.len() as int] == '|');
    if a.len() < a2.len() {
        assert(a2[a.len() as int] == s2[a.len() as int]);
        assert(a2.contains('|'));
    }
    if a2.len() < a.len() {
        assert(a[a2.len() as int] == s[a2.len() as int]);
        assert(a.contains('|'));
    }
    assert(s.take(a.len() as int) =~= a);
    assert(s2.take(a.len() as int) =~= a2);
    assert(s.skip((a.len() + 1) as int) =~= rest);
    assert(s2.skip((a.len() + 1) as int) =~= rest2);
}

} // verus!
