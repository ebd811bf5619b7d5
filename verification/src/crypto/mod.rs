//! End-to-end encryption of proxied requests.

pub mod envelope;
pub mod primitives;
pub mod room;
pub mod session;

pub use crate::crypto::envelope::{decrypt_payload, encrypt_payload, EncryptedPayload};
pub use crate::crypto::room::{
    auth_hash_from_secret, derive_room_root_key, load_room_static_keypair, verify_auth_hash,
    RoomStaticKeys,
};
pub use crate::crypto::session::{
    derive_session_key, derive_session_key_consumer, generate_ephemeral_keypair, EphemeralKeypair,
};
