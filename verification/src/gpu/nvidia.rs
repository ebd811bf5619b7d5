//! What `nvidia-smi` prints.

use crate::gpu::aggregate;
use crate::gpu::util;
use crate::shared;
use crate::shared::{DeviceV, GpuDeviceInfo, GpuHostStatus};
use crate::text;
use vstd::prelude::*;

verus! {

/// The first line that names a CUDA version decides: the word behind it.
pub open spec fn cuda_in(lines: Seq<Seq<char>>) -> Option<Seq<char>>
    decreases lines.len(),
{
    if lines.len() == 0 {
        None
    } else {
        match text::after_first(lines[0], "CUDA Version:"@) {
            Some(rest) => text::first_word(text::trimmed(rest)),
            None => cuda_in(lines.skip(1)),
        }
    }
}

/// The CUDA version that the banner of `nvidia-smi` names.
pub fn probe_cuda_version(banner: &str) -> (r: Option<String>)
    ensures
        text::opt_view(r) == cuda_in(text::lines_of(banner@)),
{
    let lines = text::lines(banner);
    let ghost lv = text::lines_of(banner@);
    assert(lv.skip(0) =~= lv);
    for i in 0..lines.len()
        invariant
            text::views(lines@) == lv,
            lv == text::lines_of(banner@),
            cuda_in(lv) == cuda_in(lv.skip(i as int)),
    {
        assert(lv.skip(i as int)[0] == lines@[i as int]@);
        assert(lv.skip(i as int).skip(1) =~= lv.skip(i as int + 1));
        if let Some(rest) = text::rest_after(&lines[i], "CUDA Version:") {
            return text::word(&text::trim(&rest));
        }
    }
    None
}

/// A text, where it is not empty.
pub open spec fn filled(s: Seq<char>) -> Option<Seq<char>> {
    if s.len() == 0 {
        None
    } else {
        Some(s)
    }
}

fn filled_text(s: &String) -> (r: Option<String>)
    ensures
        text::opt_view(r) == filled(s@),
{
    if s.as_str().is_empty() {
        None
    } else {
        Some(text::copy(s))
    }
}

/// The number up to `max` that a text writes, or else `d`.
pub open spec fn number_or(s: Seq<char>, max: nat, d: nat) -> nat {
    match text::parsed(s, max) {
        Some(n) => n,
        None => d,
    }
}

fn number_in(s: &str, max: u64, d: u64) -> (r: u64)
    requires
        d <= max,
    ensures
        r == number_or(s@, max as nat, d as nat),
        r <= max,
{
    match text::parse_up_to(s, max) {
        Some(n) => n,
        None => d,
    }
}

/// The GPU that one row describes, after `before` others.
pub open spec fn row_device(p: Seq<Seq<char>>, before: nat) -> DeviceV {
    let load = number_or(p[4], 255, 0);
    DeviceV {
        index: number_or(p[0], 255, before % 256) as u8,
        name: p[1],
        producer: util::producer_of(p[1], None),
        architecture: if p[12].len() == 0 {
            None
        } else {
            Some(util::nvidia_architecture(p[12]))
        },
        driver_version: filled(p[3]),
        pci_bus_id: filled(p[2]),
        utilization_pct: if load > 100 {
            100
        } else {
            load as u8
        },
        memory_utilization_pct: util::u8_reading(p[5]),
        memory_used_mb: number_or(p[6], u64::MAX as nat, 0) as u64,
        memory_total_mb: number_or(p[7], u64::MAX as nat, 0) as u64,
        temperature_c: util::u8_reading(p[8]),
        power_draw_w: util::u32_reading(p[9]),
        power_limit_w: util::u32_reading(p[10]),
        fan_speed_pct: util::u8_reading(p[11]),
    }
}

/// The GPUs that the rows describe; a row of fewer than thirteen fields
/// describes none.
pub open spec fn rows_devices(rows: Seq<Seq<char>>) -> Seq<DeviceV>
    decreases rows.len(),
{
    if rows.len() == 0 {
        Seq::empty()
    } else {
        let before = rows_devices(rows.drop_last());
        let p = text::fields_of(rows.last(), ',');
        if p.len() < 13 {
            before
        } else {
            before.push(row_device(p, before.len()))
        }
    }
}

fn device_of_row(p: &Vec<String>, before: usize) -> (r: GpuDeviceInfo)
    requires
        p@.len() >= 13,
    ensures
        r@ == row_device(text::views(p@), before as nat),
{
    let ghost v = text::views(p@);
    assert(forall|i: int| 0 <= i < p@.len() ==> v[i] == #[trigger] p@[i]@);
    let load: u64 = number_in(&p[4], 255, 0);
    let index: u64 = number_in(&p[0], 255, (before % 256) as u64);
    GpuDeviceInfo {
        index: index as u8,
        name: text::copy(&p[1]),
        producer: util::infer_producer(&p[1], None),
        architecture: if p[12].as_str().is_empty() {
            None
        } else {
            Some(util::nvidia_architecture_label(&p[12]))
        },
        driver_version: filled_text(&p[3]),
        pci_bus_id: filled_text(&p[2]),
        utilization_pct: if load > 100 {
            100
        } else {
            load as u8
        },
        memory_utilization_pct: util::parse_optional_u8(&p[5]),
        memory_used_mb: number_in(&p[6], u64::MAX, 0),
        memory_total_mb: number_in(&p[7], u64::MAX, 0),
        temperature_c: util::parse_optional_u8(&p[8]),
        power_draw_w: util::parse_optional_u32(&p[9]),
        power_limit_w: util::parse_optional_u32(&p[10]),
        fan_speed_pct: util::parse_optional_u8(&p[11]),
    }
}

/// The status that the answer `csv` of `nvidia-smi` to a query, and its
/// `banner` where it printed one, describe; none where no row describes a GPU.
pub fn probe_nvidia_smi(csv: &str, banner: Option<&str>) -> (r: Option<GpuHostStatus>)
    ensures
        aggregate::tells(
            r,
            rows_devices(text::rows_of(csv@)),
            match banner {
                Some(b) => cuda_in(text::lines_of(b@)),
                None => None,
            },
            "nvidia-smi"@,
        ),
{
    let cuda = match banner {
        Some(b) => probe_cuda_version(b),
        None => None,
    };
    let rows = text::rows(csv);
    let ghost rv = text::rows_of(csv@);
    let mut devices: Vec<GpuDeviceInfo> = Vec::new();
    assert(shared::devices_view(devices@) =~= rows_devices(rv.take(0)));
    for i in 0..rows.len()
        invariant
            text::views(rows@) == rv,
            shared::devices_view(devices@) == rows_devices(rv.take(i as int)),
    {
        proof {
            assert(rv.take(i as int + 1).drop_last() =~= rv.take(i as int));
            assert(rv.take(i as int + 1).last() == rows@[i as int]@);
        }
        let p = text::fields(&rows[i], ',');
        assert(text::views(p@).len() == p@.len());
        if p.len() >= 13 {
            let d = device_of_row(&p, devices.len());
            proof {
                lemma_len(devices@);
                shared::lemma_devices_push(devices@, d);
            }
            devices.push(d);
        }
    }
    assert(rv.take(rv.len() as int) =~= rv);
    aggregate::status_of(devices, cuda, "nvidia-smi")
}

proof fn lemma_len(d: Seq<GpuDeviceInfo>)
    ensures
        shared::devices_view(d).len() == d.len(),
{
}

/// A row of `nvidia-smi` is read as it was written: the number of the GPU, its name,
/// bus and driver, and what it reports of memory, load, heat, power and fan.
pub proof fn law_row_is_read_back(
    p: Seq<Seq<char>>,
    before: nat,
    index: u8,
    load: u8,
    used: u64,
    total: u64,
    temperature: u8,
    power: u32,
    limit: u32,
    fan: u8,
)
    requires
        p.len() >= 13,
        p[0] == text::dec(index as nat),
        p[4] == text::dec(load as nat),
        p[6] == text::dec(used as nat),
        p[7] == text::dec(total as nat),
        p[8] == text::dec(temperature as nat),
        p[9] == text::dec(power as nat),
        p[10] == text::dec(limit as nat),
        p[11] == text::dec(fan as nat),
    ensures
        ({
            let d = row_device(p, before);
            &&& d.index == index
            &&& d.name == p[1]
            &&& p[2].len() > 0 ==> d.pci_bus_id == Some(p[2])
            &&& p[3].len() > 0 ==> d.driver_version == Some(p[3])
            &&& load <= 100 ==> d.utilization_pct == load
            &&& load > 100 ==> d.utilization_pct == 100
            &&& d.memory_used_mb == used
            &&& d.memory_total_mb == total
            &&& d.temperature_c == Some(temperature)
            &&& d.power_draw_w == Some(power)
            &&& d.power_limit_w == Some(limit)
            &&& d.fan_speed_pct == Some(fan)
        }),
{
    let none = Seq::<char>::empty();
    text::law_number_is_read_back(index as nat, 255);
    text::law_number_is_read_back(load as nat, 255);
    text::law_number_is_read_back(used as nat, u64::MAX as nat);
    text::law_number_is_read_back(total as nat, u64::MAX as nat);
    util::law_reading_is_read_back(none, temperature as nat, none);
    util::law_reading_is_read_back(none, power as nat, none);
    util::law_reading_is_read_back(none, limit as nat, none);
    util::law_reading_is_read_back(none, fan as nat, none);
    assert(none + p[8] + none =~= p[8]);
    assert(none + p[9] + none =~= p[9]);
    assert(none + p[10] + none =~= p[10]);
    assert(none + p[11] + none =~= p[11]);
}

/// Every row of thirteen fields is one GPU, in the order of the rows; a shorter row is
/// none.
pub proof fn law_rows_are_gpus(rows: Seq<Seq<char>>, row: Seq<char>)
    ensures
        rows_devices(Seq::<Seq<char>>::empty()).len() == 0,
        text::fields_of(row, ',').len() >= 13 ==> rows_devices(rows.push(row)) == rows_devices(
            rows,
        ).push(row_device(text::fields_of(row, ','), rows_devices(rows).len())),
        text::fields_of(row, ',').len() < 13 ==> rows_devices(rows.push(row)) == rows_devices(rows),
{
    assert(rows.push(row).drop_last() =~= rows);
}

/// The CUDA version of a banner is the word behind its name, in the first line that has
/// the name.
pub proof fn law_cuda_version_is_read(
    before: Seq<Seq<char>>,
    a: Seq<char>,
    space: Seq<char>,
    version: Seq<char>,
    rest: Seq<char>,
    after: Seq<Seq<char>>,
)
    requires
        forall|i: int|
            0 <= i < before.len() ==> text::after_first(#[trigger] before[i], "CUDA Version:"@) is None,
        text::is_blank(space),
        version.len() > 0,
        forall|i: int| 0 <= i < version.len() ==> !text::is_space(#[trigger] version[i]),
        text::after_first(a, "CUDA Version:"@) == Some(space + version + rest),
        rest.len() == 0,
    ensures
        cuda_in(before + seq![a] + after) == Some(version),
    decreases before.len(),
{
    let lines = before + seq![a] + after;
    if before.len() == 0 {
        assert(lines[0] == a);
        text::law_trimming_takes_off_space(space, version, rest);
        let none = Seq::<char>::empty();
        text::law_first_word(none, version, none);
        assert(none + version + none =~= version);
        assert(version.last() == version[version.len() - 1]);
    } else {
        let more = before.skip(1);
        assert(lines[0] == before[0]);
        assert(lines.skip(1) =~= more + seq![a] + after);
        assert forall|i: int| 0 <= i < more.len() implies text::after_first(
            #[trigger] more[i],
            "CUDA Version:"@,
        ) is None by {
            assert(more[i] == before[i + 1]);
        }
        law_cuda_version_is_read(more, a, space, version, rest, after);
    }
}

} // verus!
