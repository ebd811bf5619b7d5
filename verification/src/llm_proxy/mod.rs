//! The server that a peer is to its clients.

pub mod listing;
pub mod requests;
pub mod routing;
pub mod stream;

pub use requests::{HealthQuery, HealthResponse};
pub use routing::{cluster_id_for_model, network_scope_for_model, swarm_id_for_model, NetworkScope};
