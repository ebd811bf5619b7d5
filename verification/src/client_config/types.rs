//! What a peer remembers: who it is, which networks it takes part in, and which
//! servers answer for it.

use crate::shared::NetworkMode;
use crate::text;
use vstd::prelude::*;

verus! {

/// A cluster that a peer takes part in.
#[derive(Debug, Clone, PartialEq)]
pub struct ClusterMembership {
    pub cluster_id: String,
    pub name: Option<String>,
    pub visibility: Option<String>,
    pub accepting_jobs: Option<bool>,
    pub connected: Option<bool>,
    /// The password that the keys of the cluster come from; it never leaves the peer.
    pub room_secret: Option<String>,
    pub cluster_password: Option<String>,
    pub require_e2ee: Option<bool>,
    pub require_tee: Option<bool>,
    pub required_attestation_flags: Option<u64>,
    pub schedule_enabled: Option<bool>,
    pub schedule_start: Option<String>,
    pub schedule_end: Option<String>,
}

/// What a [`ClusterMembership`] says.
pub struct MembershipV {
    pub cluster_id: Seq<char>,
    pub name: Option<Seq<char>>,
    pub visibility: Option<Seq<char>>,
    pub accepting_jobs: Option<bool>,
    pub connected: Option<bool>,
    pub room_secret: Option<Seq<char>>,
    pub cluster_password: Option<Seq<char>>,
    pub require_e2ee: Option<bool>,
    pub require_tee: Option<bool>,
    pub required_attestation_flags: Option<u64>,
    pub schedule_enabled: Option<bool>,
    pub schedule_start: Option<Seq<char>>,
    pub schedule_end: Option<Seq<char>>,
}

impl View for ClusterMembership {
    type V = MembershipV;

    open spec fn view(&self) -> MembershipV {
        MembershipV {
            cluster_id: self.cluster_id@,
            name: text::opt_view(self.name),
            visibility: text::opt_view(self.visibility),
            accepting_jobs: self.accepting_jobs,
            connected: self.connected,
            room_secret: text::opt_view(self.room_secret),
            cluster_password: text::opt_view(self.cluster_password),
            require_e2ee: self.require_e2ee,
            require_tee: self.require_tee,
            required_attestation_flags: self.required_attestation_flags,
            schedule_enabled: self.schedule_enabled,
            schedule_start: text::opt_view(self.schedule_start),
            schedule_end: text::opt_view(self.schedule_end),
        }
    }
}

impl ClusterMembership {
    /// A copy.
    pub fn copy(&self) -> (r: ClusterMembership)
        ensures
            r@ == self@,
    {
        ClusterMembership {
            cluster_id: text::copy(&self.cluster_id),
            name: text::copy_opt(&self.name),
            visibility: text::copy_opt(&self.visibility),
            accepting_jobs: self.accepting_jobs,
            connected: self.connected,
            room_secret: text::copy_opt(&self.room_secret),
            cluster_password: text::copy_opt(&self.cluster_password),
            require_e2ee: self.require_e2ee,
            require_tee: self.require_tee,
            required_attestation_flags: self.required_attestation_flags,
            schedule_enabled: self.schedule_enabled,
            schedule_start: text::copy_opt(&self.schedule_start),
            schedule_end: text::copy_opt(&self.schedule_end),
        }
    }
}

/// What a list of clusters says.
pub open spec fn clusters_view(v: Seq<ClusterMembership>) -> Seq<MembershipV> {
    v.map_values(|x: ClusterMembership| x@)
}

/// A copy of a list of clusters.
fn clusters_copy(v: &Vec<ClusterMembership>) -> (r: Vec<ClusterMembership>)
    ensures
        clusters_view(r@) == clusters_view(v@),
{
    let mut out: Vec<ClusterMembership> = Vec::new();
    for i in 0..v.len()
        invariant
            out@.len() == i,
            forall|k: int| 0 <= k < i ==> (#[trigger] out@[k])@ == v@[k]@,
    {
        out.push(v[i].copy());
    }
    assert(clusters_view(out@) =~= clusters_view(v@));
    out
}

/// A swarm that a peer takes part in.
#[derive(Debug, Clone, PartialEq)]
pub struct SwarmMembership {
    pub swarm_id: String,
    pub name: Option<String>,
    pub p2p_token: String,
    pub bootnodes: Vec<String>,
    pub accepting_jobs: Option<bool>,
    pub connected: Option<bool>,
    pub require_e2ee: Option<bool>,
    pub require_tee: Option<bool>,
    pub required_attestation_flags: Option<u64>,
    pub schedule_enabled: Option<bool>,
    pub schedule_start: Option<String>,
    pub schedule_end: Option<String>,
}

/// What a [`SwarmMembership`] says.
pub struct SwarmV {
    pub swarm_id: Seq<char>,
    pub name: Option<Seq<char>>,
    pub p2p_token: Seq<char>,
    pub bootnodes: Seq<Seq<char>>,
    pub accepting_jobs: Option<bool>,
    pub connected: Option<bool>,
    pub require_e2ee: Option<bool>,
    pub require_tee: Option<bool>,
    pub required_attestation_flags: Option<u64>,
    pub schedule_enabled: Option<bool>,
    pub schedule_start: Option<Seq<char>>,
    pub schedule_end: Option<Seq<char>>,
}

impl View for SwarmMembership {
    type V = SwarmV;

    open spec fn view(&self) -> SwarmV {
        SwarmV {
            swarm_id: self.swarm_id@,
            name: text::opt_view(self.name),
            p2p_token: self.p2p_token@,
            bootnodes: text::views(self.bootnodes@),
            accepting_jobs: self.accepting_jobs,
            connected: self.connected,
            require_e2ee: self.require_e2ee,
            require_tee: self.require_tee,
            required_attestation_flags: self.required_attestation_flags,
            schedule_enabled: self.schedule_enabled,
            schedule_start: text::opt_view(self.schedule_start),
            schedule_end: text::opt_view(self.schedule_end),
        }
    }
}

impl SwarmMembership {
    /// A copy.
    pub fn copy(&self) -> (r: SwarmMembership)
        ensures
            r@ == self@,
    {
        SwarmMembership {
            swarm_id: text::copy(&self.swarm_id),
            name: text::copy_opt(&self.name),
            p2p_token: text::copy(&self.p2p_token),
            bootnodes: text::copy_list(&self.bootnodes),
            accepting_jobs: self.accepting_jobs,
            connected: self.connected,
            require_e2ee: self.require_e2ee,
            require_tee: self.require_tee,
            required_attestation_flags: self.required_attestation_flags,
            schedule_enabled: self.schedule_enabled,
            schedule_start: text::copy_opt(&self.schedule_start),
            schedule_end: text::copy_opt(&self.schedule_end),
        }
    }
}

/// What a list of swarms says.
pub open spec fn swarms_view(v: Seq<SwarmMembership>) -> Seq<SwarmV> {
    v.map_values(|x: SwarmMembership| x@)
}

/// A copy of a list of swarms.
fn swarms_copy(v: &Vec<SwarmMembership>) -> (r: Vec<SwarmMembership>)
    ensures
        swarms_view(r@) == swarms_view(v@),
{
    let mut out: Vec<SwarmMembership> = Vec::new();
    for i in 0..v.len()
        invariant
            out@.len() == i,
            forall|k: int| 0 <= k < i ==> (#[trigger] out@[k])@ == v@[k]@,
    {
        out.push(v[i].copy());
    }
    assert(swarms_view(out@) =~= swarms_view(v@));
    out
}

/// A model that the user names at a custom endpoint.
#[derive(Debug, Clone, PartialEq)]
pub struct CustomModelEntry {
    pub id: String,
    pub name: Option<String>,
    pub url: Option<String>,
    pub tool_calling: Option<bool>,
    pub vision: Option<bool>,
    pub max_input_tokens: Option<u64>,
    pub max_output_tokens: Option<u64>,
}

/// What a [`CustomModelEntry`] says.
pub struct CustomModelV {
    pub id: Seq<char>,
    pub name: Option<Seq<char>>,
    pub url: Option<Seq<char>>,
    pub tool_calling: Option<bool>,
    pub vision: Option<bool>,
    pub max_input_tokens: Option<u64>,
    pub max_output_tokens: Option<u64>,
}

impl View for CustomModelEntry {
    type V = CustomModelV;

    open spec fn view(&self) -> CustomModelV {
        CustomModelV {
            id: self.id@,
            name: text::opt_view(self.name),
            url: text::opt_view(self.url),
            tool_calling: self.tool_calling,
            vision: self.vision,
            max_input_tokens: self.max_input_tokens,
            max_output_tokens: self.max_output_tokens,
        }
    }
}

impl CustomModelEntry {
    /// A copy.
    pub fn copy(&self) -> (r: CustomModelEntry)
        ensures
            r@ == self@,
    {
        CustomModelEntry {
            id: text::copy(&self.id),
            name: text::copy_opt(&self.name),
            url: text::copy_opt(&self.url),
            tool_calling: self.tool_calling,
            vision: self.vision,
            max_input_tokens: self.max_input_tokens,
            max_output_tokens: self.max_output_tokens,
        }
    }
}

/// What a list of models says.
pub open spec fn models_view(v: Seq<CustomModelEntry>) -> Seq<CustomModelV> {
    v.map_values(|x: CustomModelEntry| x@)
}

/// A copy of a list of models.
fn models_copy(v: &Vec<CustomModelEntry>) -> (r: Vec<CustomModelEntry>)
    ensures
        models_view(r@) == models_view(v@),
{
    let mut out: Vec<CustomModelEntry> = Vec::new();
    for i in 0..v.len()
        invariant
            out@.len() == i,
            forall|k: int| 0 <= k < i ==> (#[trigger] out@[k])@ == v@[k]@,
    {
        out.push(v[i].copy());
    }
    assert(models_view(out@) =~= models_view(v@));
    out
}

/// A server that answers with a language model.
#[derive(Debug, Clone, PartialEq)]
pub struct LlmServerEntry {
    pub id: String,
    pub kind: String,
    pub url: String,
    pub label: Option<String>,
    pub attached: bool,
    pub order: u32,
    pub source: String,
    pub api_type: Option<String>,
    pub models: Vec<CustomModelEntry>,
    /// Where this is false, the models of the server stay local.
    pub advertise_to_cluster: bool,
}

/// What a [`LlmServerEntry`] says.
pub struct ServerV {
    pub id: Seq<char>,
    pub kind: Seq<char>,
    pub url: Seq<char>,
    pub label: Option<Seq<char>>,
    pub attached: bool,
    pub order: u32,
    pub source: Seq<char>,
    pub api_type: Option<Seq<char>>,
    pub models: Seq<CustomModelV>,
    pub advertise_to_cluster: bool,
}

impl View for LlmServerEntry {
    type V = ServerV;

    open spec fn view(&self) -> ServerV {
        ServerV {
            id: self.id@,
            kind: self.kind@,
            url: self.url@,
            label: text::opt_view(self.label),
            attached: self.attached,
            order: self.order,
            source: self.source@,
            api_type: text::opt_view(self.api_type),
            models: models_view(self.models@),
            advertise_to_cluster: self.advertise_to_cluster,
        }
    }
}

impl LlmServerEntry {
    /// A copy.
    pub fn copy(&self) -> (r: LlmServerEntry)
        ensures
            r@ == self@,
    {
        LlmServerEntry {
            id: text::copy(&self.id),
            kind: text::copy(&self.kind),
            url: text::copy(&self.url),
            label: text::copy_opt(&self.label),
            attached: self.attached,
            order: self.order,
            source: text::copy(&self.source),
            api_type: text::copy_opt(&self.api_type),
            models: models_copy(&self.models),
            advertise_to_cluster: self.advertise_to_cluster,
        }
    }
}

/// What a list of servers says.
pub open spec fn servers_view(v: Seq<LlmServerEntry>) -> Seq<ServerV> {
    v.map_values(|x: LlmServerEntry| x@)
}

/// A copy of a list of servers.
fn servers_copy(v: &Vec<LlmServerEntry>) -> (r: Vec<LlmServerEntry>)
    ensures
        servers_view(r@) == servers_view(v@),
{
    let mut out: Vec<LlmServerEntry> = Vec::new();
    for i in 0..v.len()
        invariant
            out@.len() == i,
            forall|k: int| 0 <= k < i ==> (#[trigger] out@[k])@ == v@[k]@,
    {
        out.push(v[i].copy());
    }
    assert(servers_view(out@) =~= servers_view(v@));
    out
}

/// What a peer remembers from one run to the next.
#[derive(Debug, Clone, PartialEq)]
pub struct ClientConfig {
    pub peer_id: Option<String>,
    pub service_id: Option<String>,
    pub service_name: Option<String>,
    pub clusters: Vec<ClusterMembership>,
    pub swarms: Vec<SwarmMembership>,
    pub p2p_mode: NetworkMode,
    pub cluster: Option<String>,
    pub lobby_host: String,
    pub setup_complete: bool,
    pub llm_backend: Option<String>,
    pub llm_url: Option<String>,
    pub llm_servers: Vec<LlmServerEntry>,
    /// The models that are neither listed nor advertised.
    pub hidden_models: Vec<String>,
    pub auto_approve_run_model_request: bool,
    pub auto_approve_inference_connections: bool,
    pub allow_unattested_peers: bool,
    /// Whether local servers may show a certificate that nobody signed.
    pub ollama_tls_insecure: bool,
    pub default_num_predict: Option<u64>,
    pub default_num_ctx: Option<u64>,
    pub proxy_token: Option<String>,
    pub require_tee_for_inference: Option<bool>,
    pub gpu_cc_mode: Option<bool>,
    pub default_schedule_enabled: Option<bool>,
    pub default_schedule_start: Option<String>,
    pub default_schedule_end: Option<String>,
    pub gpu_thermal_guard_enabled: Option<bool>,
    pub gpu_thermal_threshold_c: Option<u8>,
    pub gpu_thermal_duration_secs: Option<u64>,
    pub gpu_thermal_cooldown_c: Option<u8>,
    pub gpu_thermal_auto_resume: Option<bool>,
}

/// What a [`ClientConfig`] says.
pub struct ConfigV {
    pub peer_id: Option<Seq<char>>,
    pub service_id: Option<Seq<char>>,
    pub service_name: Option<Seq<char>>,
    pub clusters: Seq<MembershipV>,
    pub swarms: Seq<SwarmV>,
    pub p2p_mode: NetworkMode,
    pub cluster: Option<Seq<char>>,
    pub lobby_host: Seq<char>,
    pub setup_complete: bool,
    pub llm_backend: Option<Seq<char>>,
    pub llm_url: Option<Seq<char>>,
    pub llm_servers: Seq<ServerV>,
    pub hidden_models: Seq<Seq<char>>,
    pub auto_approve_run_model_request: bool,
    pub auto_approve_inference_connections: bool,
    pub allow_unattested_peers: bool,
    pub ollama_tls_insecure: bool,
    pub default_num_predict: Option<u64>,
    pub default_num_ctx: Option<u64>,
    pub proxy_token: Option<Seq<char>>,
    pub require_tee_for_inference: Option<bool>,
    pub gpu_cc_mode: Option<bool>,
    pub default_schedule_enabled: Option<bool>,
    pub default_schedule_start: Option<Seq<char>>,
    pub default_schedule_end: Option<Seq<char>>,
    pub gpu_thermal_guard_enabled: Option<bool>,
    pub gpu_thermal_threshold_c: Option<u8>,
    pub gpu_thermal_duration_secs: Option<u64>,
    pub gpu_thermal_cooldown_c: Option<u8>,
    pub gpu_thermal_auto_resume: Option<bool>,
}

impl View for ClientConfig {
    type V = ConfigV;

    open spec fn view(&self) -> ConfigV {
        ConfigV {
            peer_id: text::opt_view(self.peer_id),
            service_id: text::opt_view(self.service_id),
            service_name: text::opt_view(self.service_name),
            clusters: clusters_view(self.clusters@),
            swarms: swarms_view(self.swarms@),
            p2p_mode: self.p2p_mode,
            cluster: text::opt_view(self.cluster),
            lobby_host: self.lobby_host@,
            setup_complete: self.setup_complete,
            llm_backend: text::opt_view(self.llm_backend),
            llm_url: text::opt_view(self.llm_url),
            llm_servers: servers_view(self.llm_servers@),
            hidden_models: text::views(self.hidden_models@),
            auto_approve_run_model_request: self.auto_approve_run_model_request,
            auto_approve_inference_connections: self.auto_approve_inference_connections,
            allow_unattested_peers: self.allow_unattested_peers,
            ollama_tls_insecure: self.ollama_tls_insecure,
            default_num_predict: self.default_num_predict,
            default_num_ctx: self.default_num_ctx,
            proxy_token: text::opt_view(self.proxy_token),
            require_tee_for_inference: self.require_tee_for_inference,
            gpu_cc_mode: self.gpu_cc_mode,
            default_schedule_enabled: self.default_schedule_enabled,
            default_schedule_start: text::opt_view(self.default_schedule_start),
            default_schedule_end: text::opt_view(self.default_schedule_end),
            gpu_thermal_guard_enabled: self.gpu_thermal_guard_enabled,
            gpu_thermal_threshold_c: self.gpu_thermal_threshold_c,
            gpu_thermal_duration_secs: self.gpu_thermal_duration_secs,
            gpu_thermal_cooldown_c: self.gpu_thermal_cooldown_c,
            gpu_thermal_auto_resume: self.gpu_thermal_auto_resume,
        }
    }
}

impl ClientConfig {
    /// A copy.
    pub fn copy(&self) -> (r: ClientConfig)
        ensures
            r@ == self@,
    {
        ClientConfig {
            peer_id: text::copy_opt(&self.peer_id),
            service_id: text::copy_opt(&self.service_id),
            service_name: text::copy_opt(&self.service_name),
            clusters: clusters_copy(&self.clusters),
            swarms: swarms_copy(&self.swarms),
            p2p_mode: self.p2p_mode,
            cluster: text::copy_opt(&self.cluster),
            lobby_host: text::copy(&self.lobby_host),
            setup_complete: self.setup_complete,
            llm_backend: text::copy_opt(&self.llm_backend),
            llm_url: text::copy_opt(&self.llm_url),
            llm_servers: servers_copy(&self.llm_servers),
            hidden_models: text::copy_list(&self.hidden_models),
            auto_approve_run_model_request: self.auto_approve_run_model_request,
            auto_approve_inference_connections: self.auto_approve_inference_connections,
            allow_unattested_peers: self.allow_unattested_peers,
            ollama_tls_insecure: self.ollama_tls_insecure,
            default_num_predict: self.default_num_predict,
            default_num_ctx: self.default_num_ctx,
            proxy_token: text::copy_opt(&self.proxy_token),
            require_tee_for_inference: self.require_tee_for_inference,
            gpu_cc_mode: self.gpu_cc_mode,
            default_schedule_enabled: self.default_schedule_enabled,
            default_schedule_start: text::copy_opt(&self.default_schedule_start),
            default_schedule_end: text::copy_opt(&self.default_schedule_end),
            gpu_thermal_guard_enabled: self.gpu_thermal_guard_enabled,
            gpu_thermal_threshold_c: self.gpu_thermal_threshold_c,
            gpu_thermal_duration_secs: self.gpu_thermal_duration_secs,
            gpu_thermal_cooldown_c: self.gpu_thermal_cooldown_c,
            gpu_thermal_auto_resume: self.gpu_thermal_auto_resume,
        }
    }
}

} // verus!
