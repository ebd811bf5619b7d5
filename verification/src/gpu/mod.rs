//! What is known of a host's GPUs.

use crate::shared::GpuHostStatus;
use crate::text;
use vstd::prelude::*;

pub mod aggregate;
pub mod amd;
pub mod apple;
pub mod command;
pub mod intel;
pub mod nvidia;
pub mod ollama;
pub mod readings;
pub mod registry;
pub mod util;

pub use aggregate::{aggregate_gpu_devices, merge_vendor_statuses};
pub use ollama::parse_gpu_from_ollama_info;
pub use util::infer_producer;

verus! {

/// Whether the GPUs of a host are read.
#[derive(Debug, Clone, Copy, PartialEq, Eq, Structural)]
pub enum GpuProbeMode {
    Auto,
    Off,
    Force,
}

/// The mode that a setting names.
pub open spec fn mode_of(setting: Option<Seq<char>>) -> GpuProbeMode {
    match setting {
        Some(s) => if text::lower(s) == "off"@ {
            GpuProbeMode::Off
        } else if text::lower(s) == "force"@ {
            GpuProbeMode::Force
        } else {
            GpuProbeMode::Auto
        },
        None => GpuProbeMode::Auto,
    }
}

/// The mode that a setting names.
pub fn gpu_probe_mode(setting: Option<&str>) -> (r: GpuProbeMode)
    ensures
        r == mode_of(
            match setting {
                Some(s) => Some(s@),
                None => None,
            },
        ),
{
    match setting {
        Some(s) => {
            let lower = text::to_lower(s);
            if text::str_eq(&lower, "off") {
                GpuProbeMode::Off
            } else if text::str_eq(&lower, "force") {
                GpuProbeMode::Force
            } else {
                GpuProbeMode::Auto
            }
        },
        None => GpuProbeMode::Auto,
    }
}

/// Whether `r` is what the readings `results` of several tools give together: none
/// where no tool gave one.
pub open spec fn gives_together(
    results: Seq<GpuHostStatus>,
    r: Option<GpuHostStatus>,
) -> bool {
    match r {
        None => results.len() == 0,
        Some(s) => results.len() > 0 && aggregate::merged(results, s),
    }
}

/// The status that the readings of several tools give together: none where no
/// tool gave one.
pub fn probe_native_vendors(results: Vec<GpuHostStatus>) -> (r: Option<GpuHostStatus>)
    ensures
        gives_together(results@, r),
{
    if results.len() == 0 {
        None
    } else {
        Some(merge_vendor_statuses(results))
    }
}

/// Whether `r` is the status of a host whose own tools say `native` and of which
/// Ollama says `ollama`.
pub open spec fn tells_host(
    mode: GpuProbeMode,
    native: Option<GpuHostStatus>,
    ollama: Option<GpuHostStatus>,
    r: Option<GpuHostStatus>,
) -> bool {
    if mode == GpuProbeMode::Off {
        r is None
    } else if native is Some {
        r == native
    } else if ollama is Some {
        r == ollama
    } else if mode == GpuProbeMode::Force {
        r matches Some(s) && s.sampled_at_unix matches Some(now) && s@ == util::unavailable(now)
    } else {
        r is None
    }
}

/// The status of a host by what its own tools and by what Ollama say of it. The
/// tools come first. Where neither says anything, a forced reading tells of a
/// host without a GPU.
pub fn probe_gpu_host(
    mode: GpuProbeMode,
    native: Option<GpuHostStatus>,
    ollama: Option<GpuHostStatus>,
) -> (r: Option<GpuHostStatus>)
    ensures
        tells_host(mode, native, ollama, r),
{
    if mode == GpuProbeMode::Off {
        return None;
    }
    if native.is_some() {
        return native;
    }
    if ollama.is_some() {
        return ollama;
    }
    if mode == GpuProbeMode::Force {
        Some(util::unavailable_gpu_status())
    } else {
        None
    }
}

/// A host is read whenever anything can be read of it: what its own tools say counts, or
/// else what Ollama says; only where reading is switched off or nothing is known there is
/// no status, and where a reading is forced there is always one.
pub proof fn law_host_is_read(
    mode: GpuProbeMode,
    native: Option<GpuHostStatus>,
    ollama: Option<GpuHostStatus>,
    r: Option<GpuHostStatus>,
)
    requires
        tells_host(mode, native, ollama, r),
    ensures
        mode == GpuProbeMode::Off ==> r is None,
        mode != GpuProbeMode::Off && native is Some ==> r == native,
        mode != GpuProbeMode::Off && native is None && ollama is Some ==> r == ollama,
        mode == GpuProbeMode::Force ==> r is Some,
        mode == GpuProbeMode::Auto && native is None && ollama is None ==> r is None,
        mode == GpuProbeMode::Force && native is None && ollama is None ==> (r matches Some(s)
            && !s.available && s.memory_total_mb == 0),
{
}

/// A single reading is the host's, and several are the host's together, as soon as there
/// is one.
pub proof fn law_readings_are_taken_together(
    results: Seq<GpuHostStatus>,
    r: Option<GpuHostStatus>,
)
    requires
        gives_together(results, r),
    ensures
        r is Some <==> results.len() > 0,
        results.len() == 1 ==> r == Some(results[0]),
        results.len() > 1 ==> (r matches Some(s) && s@.available),
{
}

/// Reading is switched off or forced by a setting that says so, in letters of either case,
/// and is left to what is there otherwise.
pub proof fn law_mode_is_set(s: Seq<char>)
    requires
        text::is_ascii(s),
    ensures
        text::ascii_lower(s) == "off"@ ==> mode_of(Some(s)) == GpuProbeMode::Off,
        text::ascii_lower(s) == "force"@ ==> mode_of(Some(s)) == GpuProbeMode::Force,
        text::ascii_lower(s) != "off"@ && text::ascii_lower(s) != "force"@ ==> mode_of(Some(s))
            == GpuProbeMode::Auto,
        mode_of(None) == GpuProbeMode::Auto,
{
    reveal_strlit("off");
    reveal_strlit("force");
    assert("off"@.len() != "force"@.len());
}

} // verus!
