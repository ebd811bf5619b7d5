//! A peer of a network that shares language models.
//!
//! A peer offers the models of its own servers to clusters and swarms, and lets
//! its clients use the models of others. This library holds what it decides: how
//! requests of agent clients are brought into one form, where they go, how they
//! are encrypted on their way, what the answers become, what is read from the
//! GPUs of the host, and what the peer remembers of its networks and servers. The
//! program around it does the input and output.
//!
//! Each module states what its functions return over mathematical models; public
//! proof functions whose names begin with `law_` state what holds of several of
//! them together.

pub mod agent_compat;
pub mod api;
pub mod attestation;
pub mod chat_models;
pub mod client_config;
pub mod cluster_dc_e2ee;
pub mod cluster_manager;
pub mod connect_allowance;
pub mod crypto;
pub mod decimal;
pub mod double;
pub mod desktop;
pub mod gpu;
pub mod gpu_history;
pub mod gpu_thermal_guard;
pub mod hf_catalog;
pub mod inference_cell_run;
pub mod inference_ipc;
pub mod inference_sidecar;
pub mod json;
pub mod llm_backend;
pub mod llm_chat;
pub mod llm_discovery;
pub mod llm_proxy;
pub mod outside;
pub mod p2p_protocol;
pub mod proxy_e2ee;
pub mod shared;
pub mod startup;
pub mod strmap;
pub mod text;
