//! What a peer remembers from one run to the next, and what follows from it.

pub mod lobby;
pub mod memberships;
pub mod servers;
pub mod settings;
pub mod types;

pub use lobby::{
    apply_cli_overrides, apply_register_response, default_google_stun_servers,
    invalidate_local_peer_identity, is_invite_only_registration, is_register_mode,
    list_public_clusters, membership_from_response, requires_credentials_registration,
    service_credentials_for_registration, ClusterListView, ClusterResponse, IceServerConfig,
    LobbyConfigResponse, PublicClusterView, RegisterPeerResponse,
};
pub use memberships::{
    cluster_accepts_jobs, cluster_is_connected, create_swarm_membership, default_bootnodes_from_env,
    ensure_p2p_mode_for_swarms, find_cluster, find_cluster_mut, find_swarm, find_swarm_by_token,
    find_swarm_mut, network_mode_from_env, parse_network_mode, remove_cluster, remove_swarm, resolve_swarm_bootnodes,
    swarm_accepts_jobs, swarm_is_connected, upsert_cluster, upsert_swarm,
};
pub use servers::{
    has_attached_llm_servers, is_custom_server_kind, is_inference_cell_kind,
    upsert_inference_cell_server, validate_custom_server_entry,
};
pub use settings::{
    client_config_path, default_public_cluster_name, effective_default_num_ctx,
    effective_default_num_predict, effective_gpu_thermal_settings, effective_ollama_tls_insecure,
    env_non_empty, public_continents, GpuThermalSettings, CLIENT_CONFIG_PATH,
    DEFAULT_PUBLIC_CLUSTER, LEGACY_PEER_CONFIG_PATH,
};
pub use types::{
    ClientConfig, ClusterMembership, CustomModelEntry, LlmServerEntry, SwarmMembership,
};
