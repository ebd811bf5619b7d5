//! What a provider does about a request that was decrypted.

use crate::agent_compat::request;
use crate::cluster_dc_e2ee::stream;
use crate::inference_sidecar;
use crate::json;
use crate::json::{Json, JsonV};
use crate::p2p_protocol::StreamMessage;
use crate::text;
use vstd::prelude::*;

verus! {

/// A request that was decrypted.
#[derive(Debug)]
pub struct ProviderRequest {
    pub req_id: String,
    pub path: String,
    pub room_id: String,
    pub consumer_ephemeral_pk: Vec<u8>,
    pub aad_version: u8,
    pub auth: Option<Json>,
    pub body: Json,
}

/// What comes of a message that may be a request.
#[derive(Debug)]
pub enum Arrival {
    /// It is no request.
    Ignored,
    /// It is answered with an error.
    Reply(StreamMessage),
    /// It is a request, and was decrypted.
    Opened(ProviderRequest),
}

/// Decrypts a request that came in one message, where `room_secret` is what the
/// provider knows of the room's secret. One that does not open is answered with
/// the error.
pub fn dispatch_cluster_encrypted_proxy_request(msg: StreamMessage, room_secret: Option<&str>) -> (r:
    Arrival)
    ensures
        match msg {
            StreamMessage::EncryptedProxyRequest {
                req_id,
                path,
                room_id,
                consumer_ephemeral_pk,
                nonce,
                ciphertext,
                aad_version,
                auth,
            } => match inference_sidecar::inbound_body(
                inference_sidecar::inbound(
                    json::opt_str(room_secret),
                    room_id@,
                    req_id@,
                    path@,
                    consumer_ephemeral_pk@,
                    nonce@,
                    ciphertext@,
                ),
                room_id@,
            ) {
                Ok(j) => r matches Arrival::Opened(q) && q.body@ == j && q == (ProviderRequest {
                    req_id,
                    path,
                    room_id,
                    consumer_ephemeral_pk,
                    aad_version,
                    auth,
                    body: q.body,
                }),
                Err(t) => r matches Arrival::Reply(m) && inference_sidecar::is_error_response(
                    m,
                    req_id@,
                    aad_version,
                    t,
                ),
            },
            _ => r is Ignored,
        },
{
    match msg {
        StreamMessage::EncryptedProxyRequest {
            req_id,
            path,
            room_id,
            consumer_ephemeral_pk,
            nonce,
            ciphertext,
            aad_version,
            auth,
        } => match inference_sidecar::decrypt_inbound_request(
            room_secret,
            &room_id,
            &req_id,
            &path,
            &consumer_ephemeral_pk,
            &nonce,
            &ciphertext,
        ) {
            Ok(body) => Arrival::Opened(
                ProviderRequest {
                    req_id,
                    path,
                    room_id,
                    consumer_ephemeral_pk,
                    aad_version,
                    auth,
                    body,
                },
            ),
            Err(e) => {
                let m = e.message(&room_id);
                Arrival::Reply(inference_sidecar::error_response(req_id, aad_version, m))
            },
        },
        _ => Arrival::Ignored,
    }
}

/// The error of a request's proof. A request without a proof, or in a room whose
/// secret is not known, has none.
pub fn request_auth_error(has_proof: bool, secret_known: bool, verified: bool) -> (r: Option<String>)
    ensures
        r is None <==> (!has_proof || !secret_known || verified),
        r matches Some(e) ==> e@ == "Proxy auth failed"@,
{
    if !has_proof || !secret_known || verified {
        None
    } else {
        Some(text::copy("Proxy auth failed"))
    }
}

/// Whether a request is let in.
#[derive(Debug)]
pub enum Admission {
    /// It is answered with an error.
    Reject(String),
    /// It goes to the process that holds the keys.
    Sidecar,
    /// It is let in.
    Admit,
}

/// Whether `r` is what becomes of a request with the fault `auth_error` of its proof.
pub open spec fn admits(
    auth_error: Option<String>,
    sidecar: bool,
    blocked: bool,
    accepting: Option<bool>,
    r: Admission,
) -> bool {
    match auth_error {
        Some(e) => r == Admission::Reject(e),
        None => if sidecar {
            r is Sidecar
        } else if blocked {
            r matches Admission::Reject(e) && e@ == "Peer is blocked"@
        } else if accepting == Some(false) {
            r matches Admission::Reject(e) && e@ == "Peer is in maintenance mode"@
        } else {
            r is Admit
        },
    }
}

/// Whether a request is let in. Its proof counts first; then, where no other
/// process holds the keys, whether its peer is blocked and whether the cluster
/// takes jobs, which it does where nothing is known of it.
pub fn admit_request(
    auth_error: Option<String>,
    sidecar: bool,
    blocked: bool,
    accepting: Option<bool>,
) -> (r: Admission)
    ensures
        admits(auth_error, sidecar, blocked, accepting, r),
{
    if let Some(e) = auth_error {
        return Admission::Reject(e);
    }
    if sidecar {
        return Admission::Sidecar;
    }
    if blocked {
        return Admission::Reject(text::copy("Peer is blocked"));
    }
    let accepts = match accepting {
        Some(a) => a,
        None => true,
    };
    if !accepts {
        return Admission::Reject(text::copy("Peer is in maintenance mode"));
    }
    Admission::Admit
}

/// The message by which a request goes to the process that holds the keys.
pub fn sidecar_message(request: ProviderRequest) -> (r: StreamMessage)
    ensures
        r is EncryptedProxyRequest,
        r->EncryptedProxyRequest_req_id == request.req_id,
        r->EncryptedProxyRequest_path == request.path,
        r->EncryptedProxyRequest_room_id == request.room_id,
        r->EncryptedProxyRequest_consumer_ephemeral_pk == request.consumer_ephemeral_pk,
        r->EncryptedProxyRequest_nonce@.len() == 0,
        r->EncryptedProxyRequest_ciphertext@.len() == 0,
        r->EncryptedProxyRequest_aad_version == request.aad_version,
        r->EncryptedProxyRequest_auth == request.auth,
{
    StreamMessage::EncryptedProxyRequest {
        req_id: request.req_id,
        path: request.path,
        room_id: request.room_id,
        consumer_ephemeral_pk: request.consumer_ephemeral_pk,
        nonce: Vec::new(),
        ciphertext: Vec::new(),
        aad_version: request.aad_version,
        auth: request.auth,
    }
}

/// What is done about a request that was let in.
#[derive(Debug)]
pub enum Dispatch {
    /// It is answered.
    Reply(StreamMessage),
    /// The consumer is told that a stream follows, and the request goes to the
    /// model server.
    Forward { ack: StreamMessage, path: String, body: Json, model: String },
}

/// The body that goes to the model server.
pub open spec fn body_forwarded(
    body: JsonV,
    default_predict: Option<u64>,
    default_ctx: Option<u64>,
) -> JsonV {
    request::with_ctx(
        request::with_predict(request::with_stream_usage(body).0, default_predict).0,
        default_ctx,
    ).0
}

/// Whether `m` tells the consumer of the request `req_id` that a stream follows.
pub open spec fn is_stream_ack(m: StreamMessage, req_id: Seq<char>, aad_version: u8) -> bool {
    &&& m is EncryptedProxyResponse
    &&& m->EncryptedProxyResponse_req_id@ == req_id
    &&& m->EncryptedProxyResponse_nonce@.len() == 0
    &&& m->EncryptedProxyResponse_ciphertext@.len() == 0
    &&& m->EncryptedProxyResponse_aad_version == aad_version
    &&& m->error is None
    &&& m->stream == Some(true)
}

/// What is done about a request that was let in. Where the consumer's connection
/// was approved for one model, a request for another is refused.
pub fn dispatch_cluster_encrypted_proxy_body(
    request: ProviderRequest,
    approved_model: Option<&str>,
    default_predict: Option<u64>,
    default_ctx: Option<u64>,
) -> (r: Dispatch)
    ensures
        ({
            let model = inference_sidecar::requested_model(request.body@);
            if approved_model matches Some(expected) && expected@ != model {
                r matches Dispatch::Reply(m) && inference_sidecar::is_error_response(
                    m,
                    request.req_id@,
                    request.aad_version,
                    "Model does not match approved connection"@,
                )
            } else {
                r matches Dispatch::Forward { ack, path, body, model: named } && is_stream_ack(
                    ack,
                    request.req_id@,
                    request.aad_version,
                ) && path == request.path && named@ == model && body@ == body_forwarded(
                    request.body@,
                    default_predict,
                    default_ctx,
                )
            }
        }),
{
    let model = inference_sidecar::model_of(&request.body);
    if let Some(expected) = approved_model {
        if !text::str_eq(expected, &model) {
            return Dispatch::Reply(
                inference_sidecar::error_response(
                    request.req_id,
                    request.aad_version,
                    text::copy("Model does not match approved connection"),
                ),
            );
        }
    }
    let mut body = request.body;
    request::ensure_stream_usage(&mut body);
    request::ensure_ollama_predict_options_with_default(&mut body, default_predict);
    request::ensure_ollama_ctx_options_with_default(&mut body, default_ctx);
    let ack = StreamMessage::EncryptedProxyResponse {
        req_id: request.req_id,
        nonce: Vec::new(),
        ciphertext: Vec::new(),
        aad_version: request.aad_version,
        error: None,
        stream: Some(true),
    };
    Dispatch::Forward { ack, path: request.path, body, model }
}

/// The message that tells the consumer that the process that holds the keys
/// failed.
pub fn vault_error(req_id: String, aad_version: u8, error: &str) -> (r: StreamMessage)
    ensures
        inference_sidecar::is_error_response(
            r,
            req_id@,
            aad_version,
            "Vault IPC error: "@ + error@,
        ),
{
    inference_sidecar::error_response(
        req_id,
        aad_version,
        text::concat2("Vault IPC error: ", error),
    )
}

/// The message that tells the consumer that the model server failed.
pub fn proxy_error(req_id: String, aad_version: u8, error: &str) -> (r: StreamMessage)
    ensures
        inference_sidecar::is_error_response(r, req_id@, aad_version, "Proxy Error: "@ + error@),
{
    inference_sidecar::error_response(req_id, aad_version, text::concat2("Proxy Error: ", error))
}

/// A response that is being sent.
#[derive(Debug)]
pub struct ProviderStream {
    pub pending: String,
    pub bytes_received: u64,
}

impl ProviderStream {
    /// A response of which nothing has come.
    pub fn new() -> (r: Self)
        ensures
            r.pending@ == Seq::<char>::empty(),
            r.bytes_received == 0,
    {
        ProviderStream { pending: String::new(), bytes_received: 0 }
    }

    /// Takes what the model server sent, and returns the chunks that are to be
    /// sent on. What is no text is passed over.
    pub fn receive(&mut self, piece: Vec<u8>) -> (r: Vec<(String, bool)>)
        requires
            old(self).bytes_received + piece@.len() <= u64::MAX,
        ensures
            ({
                let (text, count) = if vstd::utf8::valid_utf8(piece@) {
                    (old(self).pending@ + vstd::utf8::decode_utf8(piece@), piece@.len())
                } else {
                    (old(self).pending@, 0)
                };
                &&& (stream::pieces_view(r@), final(self).pending@) == stream::flushed(text, false)
                &&& final(self).bytes_received == old(self).bytes_received + count
            }),
    {
        let n: u64 = piece.len() as u64;
        if let Ok(t) = text::utf8_text(piece) {
            self.bytes_received = self.bytes_received + n;
            self.pending.append(&t);
        }
        stream::flush_response_chunks(&mut self.pending, false)
    }

    /// Ends the response, and returns the chunks that are left to be sent.
    pub fn finish(&mut self) -> (r: Vec<(String, bool)>)
        ensures
            (stream::pieces_view(r@), final(self).pending@) == stream::flushed(
                old(self).pending@,
                true,
            ),
            final(self).bytes_received == old(self).bytes_received,
    {
        stream::flush_response_chunks(&mut self.pending, true)
    }
}

/// A body goes to the model server as it was sent but for two fields: a stream is asked to
/// report its usage, and the defaults stand among the options.
pub proof fn law_body_is_forwarded(
    body: JsonV,
    default_predict: Option<u64>,
    default_ctx: Option<u64>,
    k: Seq<char>,
)
    ensures
        ({
            let sent = body_forwarded(body, default_predict, default_ctx);
            &&& k != "stream_options"@ && k != "options"@ ==> json::field(sent, k) == json::field(
                body,
                k,
            )
            &&& json::field(body, "stream"@) == Some(JsonV::Bool(true)) && json::field(
                body,
                "stream_options"@,
            ) is None ==> (json::field(sent, "stream_options"@) matches Some(o) && json::field(
                o,
                "include_usage"@,
            ) == Some(JsonV::Bool(true)))
            &&& default_predict is None && default_ctx is None && json::field(body, "max_tokens"@)
                is None ==> json::field(sent, "options"@) == json::field(body, "options"@)
            &&& body !is Obj ==> sent == body
        }),
{
    reveal_strlit("stream_options");
    reveal_strlit("options");
    reveal_strlit("stream");
    reveal_strlit("max_tokens");
    assert("stream_options"@.len() != "options"@.len());
}

/// A request is let in here just where its proof holds, its peer is not blocked and jobs
/// are taken; no request whose proof fails goes anywhere.
pub proof fn law_only_proven_requests_are_let_in(
    auth_error: Option<String>,
    sidecar: bool,
    blocked: bool,
    accepting: Option<bool>,
    r: Admission,
)
    requires
        admits(auth_error, sidecar, blocked, accepting, r),
    ensures
        r is Admit <==> auth_error is None && !sidecar && !blocked && accepting != Some(false),
        r is Sidecar <==> auth_error is None && sidecar,
        auth_error matches Some(e) ==> r == Admission::Reject(e),
{
}

} // verus!
