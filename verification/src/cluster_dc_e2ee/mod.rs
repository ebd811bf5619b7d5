//! Encrypted requests and responses over a data channel between peers.
//!
//! A data channel carries short messages, so long requests and all responses
//! travel in chunks. Chunks of a response may arrive in any order.

pub mod dispatch;
pub mod request;
pub mod stream;

pub use crate::cluster_dc_e2ee::request::{
    EncryptedConsumerState, PendingEncryptedIncomingRequest, MAX_DC_WIRE_BYTES,
};
pub use crate::cluster_dc_e2ee::stream::{
    init_pending_encrypted_stream, EncryptedStreamChunkOutcome, PendingEncryptedStream,
};
