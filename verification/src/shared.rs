//! What the parts of a peer tell each other.

use crate::text;
use vstd::prelude::*;

verus! {

/// Which networks a peer takes part in.
#[derive(Debug, Clone, Copy, PartialEq, Eq, Structural)]
pub enum NetworkMode {
    Cluster,
    Swarm,
    Both,
}

/// One GPU.
#[derive(Debug, Clone)]
pub struct GpuDeviceInfo {
    pub index: u8,
    pub name: String,
    pub producer: Option<String>,
    pub architecture: Option<String>,
    pub driver_version: Option<String>,
    pub pci_bus_id: Option<String>,
    pub utilization_pct: u8,
    pub memory_utilization_pct: Option<u8>,
    pub memory_used_mb: u64,
    pub memory_total_mb: u64,
    pub temperature_c: Option<u8>,
    pub power_draw_w: Option<u32>,
    pub power_limit_w: Option<u32>,
    pub fan_speed_pct: Option<u8>,
}

/// What a [`GpuDeviceInfo`] says.
pub struct DeviceV {
    pub index: u8,
    pub name: Seq<char>,
    pub producer: Option<Seq<char>>,
    pub architecture: Option<Seq<char>>,
    pub driver_version: Option<Seq<char>>,
    pub pci_bus_id: Option<Seq<char>>,
    pub utilization_pct: u8,
    pub memory_utilization_pct: Option<u8>,
    pub memory_used_mb: u64,
    pub memory_total_mb: u64,
    pub temperature_c: Option<u8>,
    pub power_draw_w: Option<u32>,
    pub power_limit_w: Option<u32>,
    pub fan_speed_pct: Option<u8>,
}

impl View for GpuDeviceInfo {
    type V = DeviceV;

    open spec fn view(&self) -> DeviceV {
        DeviceV {
            index: self.index,
            name: self.name@,
            producer: text::opt_view(self.producer),
            architecture: text::opt_view(self.architecture),
            driver_version: text::opt_view(self.driver_version),
            pci_bus_id: text::opt_view(self.pci_bus_id),
            utilization_pct: self.utilization_pct,
            memory_utilization_pct: self.memory_utilization_pct,
            memory_used_mb: self.memory_used_mb,
            memory_total_mb: self.memory_total_mb,
            temperature_c: self.temperature_c,
            power_draw_w: self.power_draw_w,
            power_limit_w: self.power_limit_w,
            fan_speed_pct: self.fan_speed_pct,
        }
    }
}

impl GpuDeviceInfo {
    /// A copy.
    pub fn copy(&self) -> (r: GpuDeviceInfo)
        ensures
            r@ == self@,
    {
        GpuDeviceInfo {
            index: self.index,
            name: text::copy(&self.name),
            producer: text::copy_opt(&self.producer),
            architecture: text::copy_opt(&self.architecture),
            driver_version: text::copy_opt(&self.driver_version),
            pci_bus_id: text::copy_opt(&self.pci_bus_id),
            utilization_pct: self.utilization_pct,
            memory_utilization_pct: self.memory_utilization_pct,
            memory_used_mb: self.memory_used_mb,
            memory_total_mb: self.memory_total_mb,
            temperature_c: self.temperature_c,
            power_draw_w: self.power_draw_w,
            power_limit_w: self.power_limit_w,
            fan_speed_pct: self.fan_speed_pct,
        }
    }
}

/// What a list of GPUs says.
pub open spec fn devices_view(v: Seq<GpuDeviceInfo>) -> Seq<DeviceV> {
    v.map_values(|d: GpuDeviceInfo| d@)
}

/// Appending a GPU appends what it says.
pub proof fn lemma_devices_push(v: Seq<GpuDeviceInfo>, d: GpuDeviceInfo)
    ensures
        devices_view(v.push(d)) == devices_view(v).push(d@),
{
    assert(devices_view(v.push(d)) =~= devices_view(v).push(d@));
}

/// The GPUs of a host, taken together.
#[derive(Debug, Clone)]
pub struct GpuHostStatus {
    pub available: bool,
    pub utilization_pct: u8,
    pub memory_used_mb: u64,
    pub memory_total_mb: u64,
    pub memory_free_mb: u64,
    pub name: Option<String>,
    pub producer: Option<String>,
    pub architecture: Option<String>,
    pub driver_version: Option<String>,
    pub cuda_version: Option<String>,
    pub device_count: Option<u8>,
    pub temperature_c: Option<u8>,
    pub memory_utilization_pct: Option<u8>,
    pub power_draw_w: Option<u32>,
    pub source: Option<String>,
    pub sampled_at_unix: Option<u64>,
    pub devices: Option<Vec<GpuDeviceInfo>>,
}

/// What a [`GpuHostStatus`] says.
pub struct StatusV {
    pub available: bool,
    pub utilization_pct: u8,
    pub memory_used_mb: u64,
    pub memory_total_mb: u64,
    pub memory_free_mb: u64,
    pub name: Option<Seq<char>>,
    pub producer: Option<Seq<char>>,
    pub architecture: Option<Seq<char>>,
    pub driver_version: Option<Seq<char>>,
    pub cuda_version: Option<Seq<char>>,
    pub device_count: Option<u8>,
    pub temperature_c: Option<u8>,
    pub memory_utilization_pct: Option<u8>,
    pub power_draw_w: Option<u32>,
    pub source: Option<Seq<char>>,
    pub sampled_at_unix: Option<u64>,
    pub devices: Option<Seq<DeviceV>>,
}

/// What an optional list of GPUs says.
pub open spec fn opt_devices(o: Option<Vec<GpuDeviceInfo>>) -> Option<Seq<DeviceV>> {
    match o {
        Some(v) => Some(devices_view(v@)),
        None => None,
    }
}

impl View for GpuHostStatus {
    type V = StatusV;

    open spec fn view(&self) -> StatusV {
        StatusV {
            available: self.available,
            utilization_pct: self.utilization_pct,
            memory_used_mb: self.memory_used_mb,
            memory_total_mb: self.memory_total_mb,
            memory_free_mb: self.memory_free_mb,
            name: text::opt_view(self.name),
            producer: text::opt_view(self.producer),
            architecture: text::opt_view(self.architecture),
            driver_version: text::opt_view(self.driver_version),
            cuda_version: text::opt_view(self.cuda_version),
            device_count: self.device_count,
            temperature_c: self.temperature_c,
            memory_utilization_pct: self.memory_utilization_pct,
            power_draw_w: self.power_draw_w,
            source: text::opt_view(self.source),
            sampled_at_unix: self.sampled_at_unix,
            devices: opt_devices(self.devices),
        }
    }
}

/// One reading of a host's GPUs.
#[derive(Debug, Clone, Copy, PartialEq, Eq, Structural)]
pub struct GpuSample {
    pub ts_unix: u64,
    pub utilization_pct: u8,
    pub memory_used_mb: u64,
    pub memory_utilization_pct: Option<u8>,
    pub temperature_c: Option<u8>,
    pub power_draw_w: Option<u32>,
}

/// The readings of a host's GPUs.
#[derive(Debug, Clone)]
pub struct GpuHistory {
    pub short: Vec<GpuSample>,
    pub long: Vec<GpuSample>,
}

/// What the guard against hot GPUs says.
#[derive(Debug, Clone, Copy, PartialEq, Eq, Structural)]
pub struct GpuThermalGuardStatus {
    pub active: bool,
    pub triggered_at: Option<u64>,
    pub peak_temp_c: Option<u8>,
    pub threshold_c: u8,
    pub caused_pause: bool,
}

impl Default for GpuThermalGuardStatus {
    fn default() -> (r: Self)
        ensures
            r == (GpuThermalGuardStatus {
                active: false,
                triggered_at: None,
                peak_temp_c: None,
                threshold_c: 0,
                caused_pause: false,
            }),
    {
        GpuThermalGuardStatus {
            active: false,
            triggered_at: None,
            peak_temp_c: None,
            threshold_c: 0,
            caused_pause: false,
        }
    }
}

/// A model that is being brought to this host.
#[derive(Debug, Clone, PartialEq)]
pub struct LocalModelRunState {
    pub job_id: String,
    pub model: String,
    pub status: String,
    pub progress_pct: Option<u8>,
    pub message: Option<String>,
    pub updated_at_unix: u64,
}

/// What a [`LocalModelRunState`] says.
pub struct RunV {
    pub job_id: Seq<char>,
    pub model: Seq<char>,
    pub status: Seq<char>,
    pub progress_pct: Option<u8>,
    pub message: Option<Seq<char>>,
    pub updated_at_unix: u64,
}

impl View for LocalModelRunState {
    type V = RunV;

    open spec fn view(&self) -> RunV {
        RunV {
            job_id: self.job_id@,
            model: self.model@,
            status: self.status@,
            progress_pct: self.progress_pct,
            message: text::opt_view(self.message),
            updated_at_unix: self.updated_at_unix,
        }
    }
}

/// What a list of runs says.
pub open spec fn runs_view(v: Seq<LocalModelRunState>) -> Seq<RunV> {
    v.map_values(|r: LocalModelRunState| r@)
}

} // verus!
