//! What Ollama says of a host's GPUs.

use crate::gpu::aggregate;
use crate::gpu::amd;
use crate::gpu::readings;
use crate::gpu::util;
use crate::json;
use crate::json::{Json, JsonV};
use crate::shared;
use crate::shared::{DeviceV, GpuDeviceInfo, GpuHostStatus};
use crate::text;
use vstd::prelude::*;

verus! {

/// The entries for GPUs in what Ollama says of its host.
pub open spec fn entries(b: JsonV) -> Option<Seq<JsonV>> {
    json::arr_in(
        readings::either(
            readings::at(b, "/compute/supported_gpus"@),
            readings::at(b, "/supported_gpus"@),
        ),
    )
}

/// The GPU that the entry `g` at `i` describes, with `total` bytes of memory.
pub open spec fn entry_device(g: JsonV, total: u64, i: nat) -> DeviceV {
    let free = readings::or_u64(json::u64_in(json::field(g, "free_memory"@)), total);
    let used = if total > free {
        (total - free) as u64
    } else {
        0
    };
    let name = match json::str_field(g, "name"@) {
        Some(s) => s,
        None => "GPU"@,
    };
    let compute = match json::str_field(g, "compute"@) {
        Some(s) => s,
        None => Seq::empty(),
    };
    DeviceV {
        index: amd::number_at(i),
        name,
        producer: util::producer_of(name, json::str_field(g, "runner"@)),
        architecture: if compute.len() == 0 {
            None
        } else {
            Some(util::nvidia_architecture(compute))
        },
        driver_version: json::str_field(g, "driver"@),
        pci_bus_id: json::str_field(g, "gpu_id"@),
        utilization_pct: util::percent(used as nat, total as nat),
        memory_utilization_pct: if total > 0 {
            Some(util::percent(used as nat, total as nat))
        } else {
            None
        },
        memory_used_mb: used / 1048576,
        memory_total_mb: total / 1048576,
        temperature_c: None,
        power_draw_w: None,
        power_limit_w: None,
        fan_speed_pct: None,
    }
}

/// The memory that the entry `g` gives.
pub open spec fn memory_in(g: JsonV) -> Option<u64> {
    json::u64_in(json::field(g, "total_memory"@))
}

/// Whether every entry gives its memory.
pub open spec fn all_sized(es: Seq<JsonV>) -> bool {
    forall|i: int| 0 <= i < es.len() ==> memory_in(#[trigger] es[i]) is Some
}

/// The GPUs that the entries describe.
pub open spec fn entry_devices(es: Seq<JsonV>) -> Seq<DeviceV> {
    Seq::new(es.len(), |i: int| entry_device(es[i], memory_in(es[i])->0, i as nat))
}

fn device_of_entry(g: &Json, total: u64, i: usize) -> (r: GpuDeviceInfo)
    ensures
        r@ == entry_device(g@, total, i as nat),
{
    let free: u64 = match g.get("free_memory") {
        Some(v) => match v.as_u64() {
            Some(n) => n,
            None => total,
        },
        None => total,
    };
    let used: u64 = if total > free {
        total - free
    } else {
        0
    };
    let name = match g.get_str("name") {
        Some(s) => text::copy(s),
        None => text::copy("GPU"),
    };
    let architecture = match g.get_str("compute") {
        Some(c) => if c.is_empty() {
            None
        } else {
            Some(util::nvidia_architecture_label(c))
        },
        None => None,
    };
    let producer = util::infer_producer(&name, g.get_str("runner"));
    GpuDeviceInfo {
        index: amd::number_of(i),
        name,
        producer,
        architecture,
        driver_version: readings::text_of(g.get("driver")),
        pci_bus_id: readings::text_of(g.get("gpu_id")),
        utilization_pct: util::pct_from_used_total(used, total),
        memory_utilization_pct: if total > 0 {
            Some(util::pct_from_used_total(used, total))
        } else {
            None
        },
        memory_used_mb: util::mb_from_bytes(used),
        memory_total_mb: util::mb_from_bytes(total),
        temperature_c: None,
        power_draw_w: None,
        power_limit_w: None,
        fan_speed_pct: None,
    }
}

/// The status that Ollama's description of its host gives; none where it lists
/// no GPU, or one whose memory it does not give.
pub fn parse_gpu_from_ollama_info(body: &Json) -> (r: Option<GpuHostStatus>)
    ensures
        match entries(body@) {
            Some(es) => if all_sized(es) {
                aggregate::tells(r, entry_devices(es), None, "ollama"@)
            } else {
                r is None
            },
            None => r is None,
        },
{
    let gpus = match readings::first2(
        readings::point(body, "/compute/supported_gpus"),
        readings::point(body, "/supported_gpus"),
    ) {
        Some(v) => v.as_array(),
        None => None,
    };
    let es = match gpus {
        Some(es) => es,
        None => {
            return None;
        },
    };
    let ghost ev = json::items_view(es@);
    let ghost all = entry_devices(ev);
    let mut devices: Vec<GpuDeviceInfo> = Vec::new();
    assert(shared::devices_view(devices@) =~= all.take(0));
    for i in 0..es.len()
        invariant
            ev == json::items_view(es@),
            entries(body@) == Some(ev),
            all == entry_devices(ev),
            forall|k: int| 0 <= k < i ==> memory_in(#[trigger] ev[k]) is Some,
            shared::devices_view(devices@) == all.take(i as int),
    {
        let total: Option<u64> = match es[i].get("total_memory") {
            Some(v) => v.as_u64(),
            None => None,
        };
        assert(total == memory_in(ev[i as int]));
        match total {
            Some(n) => {
                let d = device_of_entry(&es[i], n, i);
                proof {
                    shared::lemma_devices_push(devices@, d);
                    assert(all.take(i as int + 1) =~= all.take(i as int).push(d@));
                }
                devices.push(d);
            },
            None => {
                return None;
            },
        }
    }
    assert(all.take(all.len() as int) =~= all);
    aggregate::status_of(devices, None, "ollama")
}

/// The address under which Ollama describes its host.
pub fn info_url(ollama_url: &str) -> (r: String)
    ensures
        r@ == text::strip_trailing(ollama_url@, '/') + "/api/info"@,
{
    text::concat2(&text::trim_end_char(ollama_url, '/'), "/api/info")
}

/// What Ollama says of a GPU is reported: its name, and of the bytes of its memory
/// those in all and those that are not free, in whole megabytes.
pub proof fn law_entry_is_reported(g: JsonV, total: u64, free: u64, i: nat)
    requires
        json::field(g, "total_memory"@) == Some(JsonV::Int(total as int)),
        json::field(g, "free_memory"@) == Some(JsonV::Int(free as int)),
        free <= total,
    ensures
        memory_in(g) == Some(total),
        ({
            let d = entry_device(g, total, i);
            &&& d.memory_total_mb * 1048576 <= total < (d.memory_total_mb + 1) * 1048576
            &&& d.memory_used_mb * 1048576 <= total - free < (d.memory_used_mb + 1) * 1048576
            &&& json::field(g, "name"@) matches Some(JsonV::Str(name)) ==> d.name == name
            &&& i <= 255 ==> d.index == i
            &&& d.utilization_pct <= 100
            &&& free == total ==> d.memory_used_mb == 0
        }),
{
}

/// Every GPU that Ollama lists is one of the host, in the order of the list, where it
/// gives the memory of each.
pub proof fn law_listed_gpus_are_read(es: Seq<JsonV>, i: int, total: u64)
    requires
        0 <= i < es.len(),
        json::field(es[i], "total_memory"@) == Some(JsonV::Int(total as int)),
    ensures
        entry_devices(es).len() == es.len(),
        entry_devices(es)[i] == entry_device(es[i], total, i as nat),
        !all_sized(es) <==> exists|k: int|
            0 <= k < es.len() && memory_in(#[trigger] es[k]) is None,
{
}

} // verus!
