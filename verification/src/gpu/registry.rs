//! Which tools read the GPUs of a host.

use crate::text;
use vstd::prelude::*;

verus! {

/// The tools that read the GPUs of a host, by their paths.
#[derive(Debug, Clone)]
pub struct GpuProbeRegistry {
    pub nvidia_smi: Option<String>,
    pub amd_smi: Option<String>,
    pub rocm_smi: Option<String>,
    pub xpu_smi: Option<String>,
    pub intel_gpu_top: Option<String>,
    pub apple: bool,
    pub apple_ioreg: Option<String>,
    pub apple_sysctl: Option<String>,
}

/// The makers whose GPUs are read.
#[derive(Debug, Clone, Copy, PartialEq, Eq, Structural)]
pub struct VendorFilter {
    pub nvidia: bool,
    pub amd: bool,
    pub intel: bool,
    pub apple: bool,
}

impl VendorFilter {
    /// Whether the GPUs of `vendor` are read.
    pub open spec fn admits(self, vendor: Seq<char>) -> bool {
        if vendor == "nvidia"@ {
            self.nvidia
        } else if vendor == "amd"@ {
            self.amd
        } else if vendor == "intel"@ {
            self.intel
        } else if vendor == "apple"@ {
            self.apple
        } else {
            true
        }
    }

    /// Whether the GPUs of `vendor` are read.
    pub fn allows(&self, vendor: &str) -> (r: bool)
        ensures
            r == self.admits(vendor@),
    {
        if text::str_eq(vendor, "nvidia") {
            self.nvidia
        } else if text::str_eq(vendor, "amd") {
            self.amd
        } else if text::str_eq(vendor, "intel") {
            self.intel
        } else if text::str_eq(vendor, "apple") {
            self.apple
        } else {
            true
        }
    }
}

/// The makers that a setting names: all of them where there is none, where it is
/// blank and where it says so.
pub open spec fn vendors(setting: Option<Seq<char>>) -> VendorFilter {
    match setting {
        None => VendorFilter { nvidia: true, amd: true, intel: true, apple: true },
        Some(raw) => {
            let lower = text::lower(raw);
            let word = text::trimmed(lower);
            if word.len() == 0 || word == "all"@ {
                VendorFilter { nvidia: true, amd: true, intel: true, apple: true }
            } else {
                let tokens = text::fields_of(lower, ',');
                VendorFilter {
                    nvidia: tokens.contains("nvidia"@),
                    amd: tokens.contains("amd"@),
                    intel: tokens.contains("intel"@),
                    apple: tokens.contains("apple"@),
                }
            }
        },
    }
}

/// The makers that a setting names.
pub fn vendor_filter(setting: Option<&str>) -> (r: VendorFilter)
    ensures
        r == vendors(
            match setting {
                Some(s) => Some(s@),
                None => None,
            },
        ),
{
    let all = VendorFilter { nvidia: true, amd: true, intel: true, apple: true };
    let raw = match setting {
        Some(s) => s,
        None => {
            return all;
        },
    };
    let lower = text::to_lower(raw);
    let word = text::trim(&lower);
    if word.as_str().is_empty() || text::str_eq(&word, "all") {
        return all;
    }
    let tokens = text::fields(&lower, ',');
    VendorFilter {
        nvidia: text::list_has(&tokens, "nvidia"),
        amd: text::list_has(&tokens, "amd"),
        intel: text::list_has(&tokens, "intel"),
        apple: text::list_has(&tokens, "apple"),
    }
}

/// The tools of `found` that are used: those of the makers that `filter` names,
/// `rocm-smi` only without `amd-smi`, `intel_gpu_top` only on Linux and without
/// `xpu-smi`, and the two of Apple only on its own chips.
pub open spec fn detected(
    filter: VendorFilter,
    found: GpuProbeRegistry,
    linux: bool,
    apple_silicon: bool,
) -> GpuProbeRegistry {
    let on_apple = filter.apple && apple_silicon;
    GpuProbeRegistry {
        nvidia_smi: if filter.nvidia {
            found.nvidia_smi
        } else {
            None
        },
        amd_smi: if filter.amd {
            found.amd_smi
        } else {
            None
        },
        rocm_smi: if filter.amd && found.amd_smi is None {
            found.rocm_smi
        } else {
            None
        },
        xpu_smi: if filter.intel {
            found.xpu_smi
        } else {
            None
        },
        intel_gpu_top: if filter.intel && found.xpu_smi is None && linux {
            found.intel_gpu_top
        } else {
            None
        },
        apple: on_apple && found.apple_ioreg is Some && found.apple_sysctl is Some,
        apple_ioreg: if on_apple {
            found.apple_ioreg
        } else {
            None
        },
        apple_sysctl: if on_apple {
            found.apple_sysctl
        } else {
            None
        },
    }
}

/// The tools of `found` that are used.
pub fn detect_gpu_probes(
    filter: VendorFilter,
    found: GpuProbeRegistry,
    linux: bool,
    apple_silicon: bool,
) -> (r: GpuProbeRegistry)
    ensures
        r == detected(filter, found, linux, apple_silicon),
{
    let rocm_smi = if filter.allows("amd") && found.amd_smi.is_none() {
        found.rocm_smi
    } else {
        None
    };
    let intel_gpu_top = if filter.allows("intel") && found.xpu_smi.is_none() && linux {
        found.intel_gpu_top
    } else {
        None
    };
    let nvidia_smi = if filter.allows("nvidia") {
        found.nvidia_smi
    } else {
        None
    };
    let amd_smi = if filter.allows("amd") {
        found.amd_smi
    } else {
        None
    };
    let xpu_smi = if filter.allows("intel") {
        found.xpu_smi
    } else {
        None
    };
    let (apple_ioreg, apple_sysctl) = if filter.allows("apple") && apple_silicon {
        (found.apple_ioreg, found.apple_sysctl)
    } else {
        (None, None)
    };
    let apple = apple_ioreg.is_some() && apple_sysctl.is_some();
    proof {
        reveal_strlit("nvidia");
        reveal_strlit("amd");
        reveal_strlit("intel");
        reveal_strlit("apple");
        assert("amd"@.len() == 3 && "nvidia"@.len() == 6 && "intel"@.len() == 5);
        assert("apple"@[0] == 'a' && "intel"@[0] == 'i');
    }
    GpuProbeRegistry {
        nvidia_smi,
        amd_smi,
        rocm_smi,
        xpu_smi,
        intel_gpu_top,
        apple,
        apple_ioreg,
        apple_sysctl,
    }
}

/// The tools that are used from the first time on that they are asked for: those
/// that were kept then, and those of `found` where none were.
pub open spec fn kept_or_detected(
    kept: Option<GpuProbeRegistry>,
    filter: VendorFilter,
    found: GpuProbeRegistry,
    linux: bool,
    apple_silicon: bool,
) -> GpuProbeRegistry {
    match kept {
        Some(reg) => reg,
        None => detected(filter, found, linux, apple_silicon),
    }
}

/// The tools that are used: those that were kept, and those of `found` where none
/// were.
pub fn gpu_probe_registry(
    kept: Option<GpuProbeRegistry>,
    filter: VendorFilter,
    found: GpuProbeRegistry,
    linux: bool,
    apple_silicon: bool,
) -> (r: GpuProbeRegistry)
    ensures
        r == kept_or_detected(kept, filter, found, linux, apple_silicon),
{
    match kept {
        Some(reg) => reg,
        None => detect_gpu_probes(filter, found, linux, apple_silicon),
    }
}

/// Of two tools for the GPUs of one maker only one is used: never `rocm-smi` beside
/// `amd-smi`, nor `intel_gpu_top` beside `xpu-smi`. Apple's GPUs are read where both
/// of its tools are there.
pub proof fn law_one_tool_for_a_maker(
    filter: VendorFilter,
    found: GpuProbeRegistry,
    linux: bool,
    apple_silicon: bool,
)
    ensures
        ({
            let r = detected(filter, found, linux, apple_silicon);
            &&& r.amd_smi is Some ==> r.rocm_smi is None
            &&& r.xpu_smi is Some ==> r.intel_gpu_top is None
            &&& r.apple <==> r.apple_ioreg is Some && r.apple_sysctl is Some
        }),
{
}

/// What was used once is used from then on, whatever is found and asked for later.
pub proof fn law_registry_is_kept(
    filter: VendorFilter,
    found: GpuProbeRegistry,
    linux: bool,
    apple_silicon: bool,
    later_filter: VendorFilter,
    later_found: GpuProbeRegistry,
)
    ensures
        ({
            let first = kept_or_detected(None, filter, found, linux, apple_silicon);
            kept_or_detected(Some(first), later_filter, later_found, linux, apple_silicon) == first
        }),
{
}

/// A reading that a tool takes.
#[derive(Debug)]
pub enum Probe {
    Nvidia(String),
    Amd(String),
    Rocm(String),
    Xpu(String),
    IntelGpuTop(String),
    Apple(String, String),
}

/// What a [`Probe`] says.
pub enum ProbeV {
    Nvidia(Seq<char>),
    Amd(Seq<char>),
    Rocm(Seq<char>),
    Xpu(Seq<char>),
    IntelGpuTop(Seq<char>),
    Apple(Seq<char>, Seq<char>),
}

impl View for Probe {
    type V = ProbeV;

    open spec fn view(&self) -> ProbeV {
        match self {
            Probe::Nvidia(p) => ProbeV::Nvidia(p@),
            Probe::Amd(p) => ProbeV::Amd(p@),
            Probe::Rocm(p) => ProbeV::Rocm(p@),
            Probe::Xpu(p) => ProbeV::Xpu(p@),
            Probe::IntelGpuTop(p) => ProbeV::IntelGpuTop(p@),
            Probe::Apple(a, b) => ProbeV::Apple(a@, b@),
        }
    }
}

/// One reading, or none.
pub open spec fn maybe(p: Option<ProbeV>) -> Seq<ProbeV> {
    match p {
        Some(v) => seq![v],
        None => Seq::empty(),
    }
}

/// The readings that the tools of `reg` take, in their order.
pub open spec fn planned(reg: GpuProbeRegistry) -> Seq<ProbeV> {
    maybe(
        match reg.nvidia_smi {
            Some(p) => Some(ProbeV::Nvidia(p@)),
            None => None,
        },
    ) + maybe(
        match (reg.amd_smi, reg.rocm_smi) {
            (Some(p), _) => Some(ProbeV::Amd(p@)),
            (None, Some(p)) => Some(ProbeV::Rocm(p@)),
            _ => None,
        },
    ) + maybe(
        match (reg.xpu_smi, reg.intel_gpu_top) {
            (Some(p), _) => Some(ProbeV::Xpu(p@)),
            (None, Some(p)) => Some(ProbeV::IntelGpuTop(p@)),
            _ => None,
        },
    ) + maybe(
        match (reg.apple, reg.apple_ioreg, reg.apple_sysctl) {
            (true, Some(a), Some(b)) => Some(ProbeV::Apple(a@, b@)),
            _ => None,
        },
    )
}

/// What a list of readings says.
pub open spec fn probes_view(v: Seq<Probe>) -> Seq<ProbeV> {
    v.map_values(|p: Probe| p@)
}

fn add_probe(out: &mut Vec<Probe>, p: Probe)
    ensures
        probes_view(final(out)@) == probes_view(old(out)@) + seq![p@],
{
    let ghost before = out@;
    out.push(p);
    assert(probes_view(out@) =~= probes_view(before) + seq![p@]);
}

/// The readings that the tools of `reg` take, in their order.
pub fn native_probes(reg: &GpuProbeRegistry) -> (r: Vec<Probe>)
    ensures
        probes_view(r@) == planned(*reg),
{
    let mut out: Vec<Probe> = Vec::new();
    assert(probes_view(out@) =~= Seq::empty());
    if let Some(p) = &reg.nvidia_smi {
        add_probe(&mut out, Probe::Nvidia(text::copy(p)));
    }
    if let Some(p) = &reg.amd_smi {
        add_probe(&mut out, Probe::Amd(text::copy(p)));
    } else if let Some(p) = &reg.rocm_smi {
        add_probe(&mut out, Probe::Rocm(text::copy(p)));
    }
    if let Some(p) = &reg.xpu_smi {
        add_probe(&mut out, Probe::Xpu(text::copy(p)));
    } else if let Some(p) = &reg.intel_gpu_top {
        add_probe(&mut out, Probe::IntelGpuTop(text::copy(p)));
    }
    if reg.apple {
        if let (Some(a), Some(b)) = (&reg.apple_ioreg, &reg.apple_sysctl) {
            add_probe(&mut out, Probe::Apple(text::copy(a), text::copy(b)));
        }
    }
    assert(probes_view(out@) =~= planned(*reg));
    out
}

/// A tool that was found is used where its maker's GPUs are to be read: those of NVIDIA
/// always, and of two tools of one maker the first.
pub proof fn law_found_tool_is_used(
    filter: VendorFilter,
    found: GpuProbeRegistry,
    linux: bool,
    apple_silicon: bool,
    path: String,
)
    ensures
        ({
            let plan = planned(detected(filter, found, linux, apple_silicon));
            &&& filter.nvidia && found.nvidia_smi == Some(path) ==> plan.contains(
                ProbeV::Nvidia(path@),
            )
            &&& filter.amd && found.amd_smi == Some(path) ==> plan.contains(ProbeV::Amd(path@))
            &&& filter.amd && found.amd_smi is None && found.rocm_smi == Some(path) ==> plan.contains(
                ProbeV::Rocm(path@),
            )
            &&& filter.intel && found.xpu_smi == Some(path) ==> plan.contains(ProbeV::Xpu(path@))
            &&& filter.intel && linux && found.xpu_smi is None && found.intel_gpu_top == Some(path)
                ==> plan.contains(ProbeV::IntelGpuTop(path@))
            &&& !filter.nvidia ==> !plan.contains(ProbeV::Nvidia(path@))
            &&& !filter.amd ==> !plan.contains(ProbeV::Amd(path@)) && !plan.contains(
                ProbeV::Rocm(path@),
            )
            &&& !filter.intel ==> !plan.contains(ProbeV::Xpu(path@)) && !plan.contains(
                ProbeV::IntelGpuTop(path@),
            )
        }),
{
    let reg = detected(filter, found, linux, apple_silicon);
    let a = maybe(
        match reg.nvidia_smi {
            Some(p) => Some(ProbeV::Nvidia(p@)),
            None => None,
        },
    );
    let b = maybe(
        match (reg.amd_smi, reg.rocm_smi) {
            (Some(p), _) => Some(ProbeV::Amd(p@)),
            (None, Some(p)) => Some(ProbeV::Rocm(p@)),
            _ => None,
        },
    );
    let c = maybe(
        match (reg.xpu_smi, reg.intel_gpu_top) {
            (Some(p), _) => Some(ProbeV::Xpu(p@)),
            (None, Some(p)) => Some(ProbeV::IntelGpuTop(p@)),
            _ => None,
        },
    );
    let d = maybe(
        match (reg.apple, reg.apple_ioreg, reg.apple_sysctl) {
            (true, Some(a), Some(b)) => Some(ProbeV::Apple(a@, b@)),
            _ => None,
        },
    );
    let plan = planned(reg);
    assert(plan =~= a + b + c + d);
    let n = a.len() as int;
    let m = n + b.len();
    if a.len() > 0 {
        assert(plan[0] == a[0]);
    }
    if b.len() > 0 {
        assert(plan[n] == b[0]);
    }
    if c.len() > 0 {
        assert(plan[m] == c[0]);
    }
}

/// The makers that a setting names, with commas between them, are read, and no others;
/// without a setting, with a blank one or with `all`, every maker is.
pub proof fn law_named_makers_are_read(setting: Seq<char>)
    requires
        text::is_ascii(setting),
        text::ascii_lower(setting) == setting,
        text::is_tight(setting),
    ensures
        vendors(None).nvidia && vendors(None).amd && vendors(None).intel && vendors(None).apple,
        setting == "all"@ ==> vendors(Some(setting)) == vendors(None),
        setting != "all"@ ==> {
            let tokens = text::fields_of(setting, ',');
            let v = vendors(Some(setting));
            &&& v.nvidia == tokens.contains("nvidia"@)
            &&& v.amd == tokens.contains("amd"@)
            &&& v.intel == tokens.contains("intel"@)
            &&& v.apple == tokens.contains("apple"@)
        },
{
    text::lemma_tight_stays(setting);
}

/// A filter that names a maker reads its GPUs, and only the makers that it names; what is
/// no maker's is read always.
pub proof fn law_filter_reads_its_makers(f: VendorFilter)
    ensures
        f.admits("nvidia"@) <==> f.nvidia,
        f.admits("amd"@) <==> f.amd,
        f.admits("intel"@) <==> f.intel,
        f.admits("apple"@) <==> f.apple,
        f.admits("ollama"@),
{
    reveal_strlit("nvidia");
    reveal_strlit("amd");
    reveal_strlit("intel");
    reveal_strlit("apple");
    reveal_strlit("ollama");
    assert("nvidia"@[0] != "ollama"@[0]);
    assert("intel"@[0] != "apple"@[0]);
    assert("nvidia"@.len() == 6 && "amd"@.len() == 3 && "intel"@.len() == 5 && "apple"@.len() == 5);
}

} // verus!
