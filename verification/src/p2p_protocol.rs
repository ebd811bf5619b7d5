//! The messages that peers exchange about encrypted requests.

use crate::json::Json;
use vstd::prelude::*;

verus! {

/// A message between peers.
#[derive(Debug)]
pub enum StreamMessage {
    /// A request in one message.
    EncryptedProxyRequest {
        req_id: String,
        path: String,
        room_id: String,
        consumer_ephemeral_pk: Vec<u8>,
        nonce: Vec<u8>,
        ciphertext: Vec<u8>,
        aad_version: u8,
        auth: Option<Json>,
    },
    /// The head of a request that follows in chunks.
    EncryptedProxyRequestStart {
        req_id: String,
        path: String,
        room_id: String,
        consumer_ephemeral_pk: Vec<u8>,
        aad_version: u8,
        auth: Option<Json>,
    },
    /// A chunk of a request.
    EncryptedProxyRequestChunk {
        req_id: String,
        seq: u32,
        nonce: Vec<u8>,
        ciphertext: Vec<u8>,
        aad_version: u8,
    },
    /// The end of a request.
    EncryptedProxyRequestEnd { req_id: String },
    /// A response, an error, or the announcement of a stream.
    EncryptedProxyResponse {
        req_id: String,
        nonce: Vec<u8>,
        ciphertext: Vec<u8>,
        aad_version: u8,
        error: Option<String>,
        stream: Option<bool>,
    },
    /// A chunk of a streamed response.
    EncryptedProxyStreamChunk {
        req_id: String,
        seq: u32,
        nonce: Vec<u8>,
        ciphertext: Vec<u8>,
        aad_version: u8,
        done: bool,
    },
}

} // verus!
