//! Requests that arrive encrypted, and the responses that leave encrypted.

use crate::agent_compat::response;
use crate::crypto::envelope;
use crate::crypto::envelope::{EncryptedPayload, EnvelopeError};
use crate::crypto::primitives;
use crate::crypto::room;
use crate::crypto::session;
use crate::json;
use crate::json::{Json, JsonV};
use crate::p2p_protocol::StreamMessage;
use crate::proxy_e2ee;
use crate::text;
use vstd::prelude::*;

verus! {

/// Why a request did not open.
#[derive(Debug)]
pub enum InboundError {
    /// The consumer's public key is not of 32 bytes.
    EphemeralKeyLength,
    /// No secret of the room is known.
    NoRoomSecret,
    /// The envelope does not open.
    Envelope(EnvelopeError),
    /// The chunk is no text; the reason in words.
    NotText(String),
    /// The request is no JSON; the reason in words.
    NotJson(String),
}

impl InboundError {
    /// The error in words.
    pub open spec fn words(self, room_id: Seq<char>) -> Seq<char> {
        match self {
            InboundError::EphemeralKeyLength => "invalid ephemeral public key"@,
            InboundError::NoRoomSecret => "no room secret for "@ + room_id,
            InboundError::Envelope(e) => e.words(),
            InboundError::NotText(t) => t@,
            InboundError::NotJson(t) => t@,
        }
    }

    /// The error in words.
    pub fn message(&self, room_id: &str) -> (r: String)
        ensures
            r@ == self.words(room_id@),
    {
        match self {
            InboundError::EphemeralKeyLength => text::copy("invalid ephemeral public key"),
            InboundError::NoRoomSecret => text::concat2("no room secret for ", room_id),
            InboundError::Envelope(e) => e.message(),
            InboundError::NotText(t) => text::copy(t),
            InboundError::NotJson(t) => text::copy(t),
        }
    }
}

/// What a provider reads from an envelope, or why it does not.
pub enum Inbound {
    Plain(Seq<u8>),
    KeyLength,
    NoSecret,
    Sealed(EnvelopeError),
}

/// What a provider reads from an envelope where `room_secret` is what it knows
/// of the room's secret.
pub open spec fn inbound(
    room_secret: Option<Seq<char>>,
    room_id: Seq<char>,
    req_id: Seq<char>,
    label: Seq<char>,
    consumer_pk: Seq<u8>,
    nonce: Seq<u8>,
    ciphertext: Seq<u8>,
) -> Inbound {
    if consumer_pk.len() != 32 {
        Inbound::KeyLength
    } else {
        match room_secret {
            None => Inbound::NoSecret,
            Some(s) => match envelope::opened(
                session::provider_session_key(
                    room::static_secret(room::room_root(s, room_id)),
                    consumer_pk,
                    req_id,
                    room_id,
                ),
                req_id,
                label,
                room_id,
                nonce,
                ciphertext,
            ) {
                Ok(m) => Inbound::Plain(m),
                Err(e) => Inbound::Sealed(e),
            },
        }
    }
}

/// Whether `e` is the error of an envelope that did not open to text.
pub open spec fn fails_with(i: Inbound, e: InboundError) -> bool {
    match i {
        Inbound::Plain(m) => !vstd::utf8::valid_utf8(m) && (e matches InboundError::NotText(t)
            && t@ == text::utf8_fault(m)),
        Inbound::KeyLength => e is EphemeralKeyLength,
        Inbound::NoSecret => e is NoRoomSecret,
        Inbound::Sealed(x) => e == InboundError::Envelope(x),
    }
}

/// The text that an envelope opens to.
pub open spec fn inbound_text(i: Inbound) -> Option<Seq<char>> {
    match i {
        Inbound::Plain(m) => if vstd::utf8::valid_utf8(m) {
            Some(vstd::utf8::decode_utf8(m))
        } else {
            None
        },
        _ => None,
    }
}

/// In words, why an envelope did not open to text.
pub open spec fn inbound_fault(i: Inbound, room_id: Seq<char>) -> Seq<char> {
    match i {
        Inbound::Plain(m) => text::utf8_fault(m),
        Inbound::KeyLength => "invalid ephemeral public key"@,
        Inbound::NoSecret => "no room secret for "@ + room_id,
        Inbound::Sealed(e) => e.words(),
    }
}

/// The request that an envelope holds, or in words why there is none.
pub open spec fn inbound_body(i: Inbound, room_id: Seq<char>) -> Result<JsonV, Seq<char>> {
    match i {
        Inbound::Plain(m) => json::bytes_read(m),
        _ => Err(inbound_fault(i, room_id)),
    }
}

fn decrypt_inbound(
    room_secret: Option<&str>,
    room_id: &str,
    req_id: &str,
    label: &str,
    consumer_ephemeral_pk: &Vec<u8>,
    nonce: &Vec<u8>,
    ciphertext: &Vec<u8>,
) -> (r: Result<Vec<u8>, InboundError>)
    ensures
        match r {
            Ok(m) => inbound(
                json::opt_str(room_secret),
                room_id@,
                req_id@,
                label@,
                consumer_ephemeral_pk@,
                nonce@,
                ciphertext@,
            ) == Inbound::Plain(m@),
            Err(e) => {
                let i = inbound(
                    json::opt_str(room_secret),
                    room_id@,
                    req_id@,
                    label@,
                    consumer_ephemeral_pk@,
                    nonce@,
                    ciphertext@,
                );
                !(i is Plain) && fails_with(i, e)
            },
        },
{
    if consumer_ephemeral_pk.len() != 32 {
        return Err(InboundError::EphemeralKeyLength);
    }
    let secret = match room_secret {
        Some(s) => s,
        None => {
            return Err(InboundError::NoRoomSecret);
        },
    };
    let root: [u8; 32] = room::derive_room_root_key(secret, room_id);
    let keys = room::derive_static_keypair_from_room_root(&root);
    let pk: [u8; 32] = primitives::array_32(consumer_ephemeral_pk.as_slice());
    let key: [u8; 32] = session::derive_session_key(&keys.secret_key, &pk, req_id, room_id);
    let mut n: Vec<u8> = Vec::new();
    n.extend_from_slice(nonce.as_slice());
    let mut c: Vec<u8> = Vec::new();
    c.extend_from_slice(ciphertext.as_slice());
    assert(n@ =~= nonce@ && c@ =~= ciphertext@);
    let payload = EncryptedPayload { nonce: n, ciphertext: c };
    match envelope::decrypt_payload(&key, req_id, label, room_id, &payload) {
        Ok(m) => Ok(m),
        Err(e) => Err(InboundError::Envelope(e)),
    }
}

/// Decrypts the chunk `seq` of a request.
pub fn decrypt_inbound_request_chunk(
    room_secret: Option<&str>,
    room_id: &str,
    req_id: &str,
    path: &str,
    seq: u32,
    consumer_ephemeral_pk: &Vec<u8>,
    nonce: &Vec<u8>,
    ciphertext: &Vec<u8>,
) -> (r: Result<String, InboundError>)
    ensures
        ({
            let i = inbound(
                json::opt_str(room_secret),
                room_id@,
                req_id@,
                proxy_e2ee::chunk_label(path@, seq),
                consumer_ephemeral_pk@,
                nonce@,
                ciphertext@,
            );
            match inbound_text(i) {
                Some(t) => r matches Ok(part) && part@ == t,
                None => r matches Err(e) && fails_with(i, e) && e.words(room_id@) == inbound_fault(
                    i,
                    room_id@,
                ),
            }
        }),
{
    let label = proxy_e2ee::chunk_path(path, seq);
    match decrypt_inbound(
        room_secret,
        room_id,
        req_id,
        &label,
        consumer_ephemeral_pk,
        nonce,
        ciphertext,
    ) {
        Ok(m) => match text::utf8_text(m) {
            Ok(t) => Ok(t),
            Err(e) => Err(InboundError::NotText(e)),
        },
        Err(e) => Err(e),
    }
}

/// Decrypts a request that came in one message.
pub fn decrypt_inbound_request(
    room_secret: Option<&str>,
    room_id: &str,
    req_id: &str,
    path: &str,
    consumer_ephemeral_pk: &Vec<u8>,
    nonce: &Vec<u8>,
    ciphertext: &Vec<u8>,
) -> (r: Result<Json, InboundError>)
    ensures
        ({
            let i = inbound(
                json::opt_str(room_secret),
                room_id@,
                req_id@,
                path@,
                consumer_ephemeral_pk@,
                nonce@,
                ciphertext@,
            );
            match inbound_body(i, room_id@) {
                Ok(j) => r matches Ok(body) && body@ == j,
                Err(t) => r matches Err(e) && e.words(room_id@) == t && (if i is Plain {
                    e is NotJson
                } else {
                    fails_with(i, e)
                }),
            }
        }),
{
    match decrypt_inbound(
        room_secret,
        room_id,
        req_id,
        path,
        consumer_ephemeral_pk,
        nonce,
        ciphertext,
    ) {
        Ok(m) => match json::parse_bytes_or_message(m.as_slice()) {
            Ok(j) => Ok(j),
            Err(e) => Err(InboundError::NotJson(e)),
        },
        Err(e) => Err(e),
    }
}

/// Whether `p` is the response `plaintext`, encrypted by the provider with the
/// secret `secret` for the consumer with the public key `consumer_pk`, who reads
/// it back.
pub open spec fn is_sealed_response(
    p: EncryptedPayload,
    secret: Seq<u8>,
    consumer_pk: Seq<u8>,
    req_id: Seq<char>,
    path: Seq<char>,
    room_id: Seq<char>,
    plaintext: Seq<u8>,
) -> bool {
    &&& p.nonce@.len() == 12
    &&& primitives::aead_sealed(
        session::provider_session_key(secret, consumer_pk, req_id, room_id),
        p.nonce@,
        envelope::aad(req_id, path, room_id),
        plaintext,
    ) == p.ciphertext@
    &&& forall|consumer: Seq<u8>|
        consumer.len() == 32 && consumer_pk == #[trigger] primitives::x25519_public(consumer)
            ==> envelope::opened(
            session::session_key(
                primitives::x25519_shared(consumer, primitives::x25519_public(secret)),
                req_id,
                room_id,
            ),
            req_id,
            path,
            room_id,
            p.nonce@,
            p.ciphertext@,
        ) == Ok::<Seq<u8>, EnvelopeError>(plaintext)
}

/// Encrypts a response under `nonce`. Every consumer whose public key was given
/// reads it back under the room's public key.
pub fn encrypt_outbound_response_with_nonce(
    room_secret: &str,
    room_id: &str,
    req_id: &str,
    path: &str,
    consumer_ephemeral_pk: &Vec<u8>,
    plaintext: &[u8],
    nonce: &[u8; 12],
) -> (r: Result<EncryptedPayload, EnvelopeError>)
    requires
        consumer_ephemeral_pk@.len() == 32,
        plaintext@.len() + 16 <= isize::MAX,
    ensures
        r is Ok <==> primitives::sealable(plaintext@.len()),
        match r {
            Ok(p) => p.nonce@ == nonce@ && is_sealed_response(
                p,
                room::static_secret(room::room_root(room_secret@, room_id@)),
                consumer_ephemeral_pk@,
                req_id@,
                path@,
                room_id@,
                plaintext@,
            ),
            Err(e) => e == EnvelopeError::TooLong,
        },
{
    let root: [u8; 32] = room::derive_room_root_key(room_secret, room_id);
    let keys = room::derive_static_keypair_from_room_root(&root);
    let pk: [u8; 32] = primitives::array_32(consumer_ephemeral_pk.as_slice());
    let key: [u8; 32] = session::derive_session_key(&keys.secret_key, &pk, req_id, room_id);
    envelope::encrypt_payload_with_nonce(&key, req_id, path, room_id, plaintext, nonce)
}

/// Encrypts a response under a random nonce. It fails where the operating system
/// gives no random bytes, and where the response is too long.
pub fn encrypt_outbound_response(
    room_secret: &str,
    room_id: &str,
    req_id: &str,
    path: &str,
    consumer_ephemeral_pk: &Vec<u8>,
    plaintext: &[u8],
) -> (r: Result<EncryptedPayload, EnvelopeError>)
    requires
        consumer_ephemeral_pk@.len() == 32,
        plaintext@.len() + 16 <= isize::MAX,
    ensures
        match r {
            Ok(p) => primitives::sealable(plaintext@.len()) && is_sealed_response(
                p,
                room::static_secret(room::room_root(room_secret@, room_id@)),
                consumer_ephemeral_pk@,
                req_id@,
                path@,
                room_id@,
                plaintext@,
            ),
            Err(EnvelopeError::TooLong) => !primitives::sealable(plaintext@.len()),
            Err(e) => e is NoNonce,
        },
{
    match primitives::random_nonce() {
        Ok(nonce) => encrypt_outbound_response_with_nonce(
            room_secret,
            room_id,
            req_id,
            path,
            consumer_ephemeral_pk,
            plaintext,
            &nonce,
        ),
        Err(e) => Err(EnvelopeError::NoNonce(e)),
    }
}

/// The error of a request's proof: none where there is no proof, or where it was
/// verified under the token of some swarm or under the proxy token.
pub fn verify_inbound_auth(
    has_proof: bool,
    swarm_verified: &Vec<bool>,
    proxy_verified: Option<bool>,
) -> (r: Option<String>)
    ensures
        r is None <==> (!has_proof || swarm_verified@.contains(true) || proxy_verified
            == Some(true)),
        r matches Some(e) ==> e@ == "Proxy auth failed"@,
{
    if !has_proof {
        return None;
    }
    for i in 0..swarm_verified.len()
        invariant
            forall|j: int| 0 <= j < i ==> !swarm_verified@[j],
    {
        if swarm_verified[i] {
            assert(swarm_verified@[i as int]);
            return None;
        }
    }
    let proxy = match proxy_verified {
        Some(v) => v,
        None => false,
    };
    if proxy {
        None
    } else {
        Some(text::copy("Proxy auth failed"))
    }
}

/// Whether `m` tells the consumer of the request `req_id` the error `error`.
pub open spec fn is_error_response(
    m: StreamMessage,
    req_id: Seq<char>,
    aad_version: u8,
    error: Seq<char>,
) -> bool {
    &&& m is EncryptedProxyResponse
    &&& m->EncryptedProxyResponse_req_id@ == req_id
    &&& m->EncryptedProxyResponse_nonce@.len() == 0
    &&& m->EncryptedProxyResponse_ciphertext@.len() == 0
    &&& m->EncryptedProxyResponse_aad_version == aad_version
    &&& text::opt_view(m->error) == Some(error)
    &&& m->stream is None
}

/// The message that tells the consumer of a request an error.
pub fn error_response(req_id: String, aad_version: u8, error: String) -> (r: StreamMessage)
    ensures
        is_error_response(r, req_id@, aad_version, error@),
{
    StreamMessage::EncryptedProxyResponse {
        req_id,
        nonce: Vec::new(),
        ciphertext: Vec::new(),
        aad_version,
        error: Some(error),
        stream: None,
    }
}

/// What is to be done about a message.
#[derive(Debug)]
pub enum SidecarStep {
    /// The message is answered.
    Reply(StreamMessage),
    /// The request goes to the model server.
    Forward { path: String, body: Json, model: String },
}

/// The model that a request names.
pub open spec fn requested_model(body: JsonV) -> Seq<char> {
    response::or_text(json::str_field(body, "model"@), "unknown"@)
}

/// The model that a request names.
pub fn model_of(body: &Json) -> (r: String)
    ensures
        r@ == requested_model(body@),
{
    response::text_or(body.get_str("model"), "unknown")
}

/// What is to be done about a message: a request whose proof or envelope fails
/// is answered with the error, any other request goes to the model server, and
/// what is no request goes back as it came.
pub fn open_sidecar_request(
    msg: StreamMessage,
    auth_error: Option<String>,
    room_secret: Option<&str>,
) -> (r: SidecarStep)
    ensures
        match msg {
            StreamMessage::EncryptedProxyRequest {
                req_id,
                path,
                room_id,
                consumer_ephemeral_pk,
                nonce,
                ciphertext,
                aad_version,
                auth,
            } => match auth_error {
                Some(e) => r matches SidecarStep::Reply(m) && is_error_response(
                    m,
                    req_id@,
                    aad_version,
                    e@,
                ),
                None => match inbound_body(
                    inbound(
                        json::opt_str(room_secret),
                        room_id@,
                        req_id@,
                        path@,
                        consumer_ephemeral_pk@,
                        nonce@,
                        ciphertext@,
                    ),
                    room_id@,
                ) {
                    Ok(j) => r matches SidecarStep::Forward { path: p, body, model } && p == path
                        && body@ == j && model@ == requested_model(j),
                    Err(t) => r matches SidecarStep::Reply(m) && is_error_response(
                        m,
                        req_id@,
                        aad_version,
                        t,
                    ),
                },
            },
            other => r == SidecarStep::Reply(other),
        },
{
    match msg {
        StreamMessage::EncryptedProxyRequest {
            req_id,
            path,
            room_id,
            consumer_ephemeral_pk,
            nonce,
            ciphertext,
            aad_version,
            auth: _,
        } => {
            if let Some(e) = auth_error {
                return SidecarStep::Reply(error_response(req_id, aad_version, e));
            }
            match decrypt_inbound_request(
                room_secret,
                &room_id,
                &req_id,
                &path,
                &consumer_ephemeral_pk,
                &nonce,
                &ciphertext,
            ) {
                Ok(body) => {
                    let model = model_of(&body);
                    SidecarStep::Forward { path, body, model }
                },
                Err(e) => {
                    let m = e.message(&room_id);
                    SidecarStep::Reply(error_response(req_id, aad_version, m))
                },
            }
        },
        other => SidecarStep::Reply(other),
    }
}

/// The text of a response so far, with a piece that arrived; a piece that is no
/// text is passed over.
pub fn collect_piece(buffer: &mut String, piece: Vec<u8>)
    ensures
        final(buffer)@ == if vstd::utf8::valid_utf8(piece@) {
            old(buffer)@ + vstd::utf8::decode_utf8(piece@)
        } else {
            old(buffer)@
        },
{
    if let Ok(t) = text::utf8_text(piece) {
        buffer.append(&t);
    }
}

/// Whether `m` carries the encrypted response `p`.
pub open spec fn is_whole_response(
    m: StreamMessage,
    req_id: Seq<char>,
    aad_version: u8,
    p: EncryptedPayload,
) -> bool {
    &&& m is EncryptedProxyResponse
    &&& m->EncryptedProxyResponse_req_id@ == req_id
    &&& m->EncryptedProxyResponse_nonce == p.nonce
    &&& m->EncryptedProxyResponse_ciphertext == p.ciphertext
    &&& m->EncryptedProxyResponse_aad_version == aad_version
    &&& m->error is None
    &&& m->stream is None
}

/// The message that carries an encrypted response, or its error.
pub fn sidecar_reply(
    req_id: String,
    aad_version: u8,
    sealed: Result<EncryptedPayload, EnvelopeError>,
) -> (r: StreamMessage)
    ensures
        match sealed {
            Ok(p) => is_whole_response(r, req_id@, aad_version, p),
            Err(e) => is_error_response(r, req_id@, aad_version, e.words()),
        },
{
    match sealed {
        Ok(p) => StreamMessage::EncryptedProxyResponse {
            req_id,
            nonce: p.nonce,
            ciphertext: p.ciphertext,
            aad_version,
            error: None,
            stream: None,
        },
        Err(e) => error_response(req_id, aad_version, e.message()),
    }
}

/// The message that tells the consumer that the model server failed.
pub fn sidecar_upstream_error(req_id: String, aad_version: u8, error: &str) -> (r: StreamMessage)
    ensures
        is_error_response(r, req_id@, aad_version, "Upstream error: "@ + error@),
{
    error_response(req_id, aad_version, text::concat2("Upstream error: ", error))
}

/// A request goes by the model that it names.
pub proof fn law_request_goes_by_its_model(body: JsonV, m: Seq<char>)
    ensures
        json::field(body, "model"@) == Some(JsonV::Str(m)) ==> requested_model(body) == m,
        json::field(body, "model"@) is None ==> requested_model(body) == "unknown"@,
{
}

} // verus!
