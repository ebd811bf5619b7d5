//! What the user's page asks of the peer.

pub mod alias;
pub mod chat;
pub mod models;
pub mod networks;
pub mod servers;
pub mod settings;
pub mod setup;
pub mod status;
