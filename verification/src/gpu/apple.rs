//! What `ioreg` prints of an Apple GPU.

use crate::gpu::aggregate;
use crate::gpu::util;
use crate::shared;
use crate::shared::{DeviceV, GpuDeviceInfo, GpuHostStatus};
use crate::text;
use vstd::prelude::*;

verus! {

/// How many digits `s` starts with.
pub open spec fn digits_len(s: Seq<char>) -> int
    decreases s.len(),
{
    if s.len() > 0 && text::is_digit(s[0]) {
        1 + digits_len(s.skip(1))
    } else {
        0
    }
}

/// What stands behind the last `=` of a line, without white space around it.
pub open spec fn right_side(line: Seq<char>) -> Seq<char> {
    text::trimmed(text::split_on(line, '=').last())
}

/// The number that a line of `ioreg` gives behind its last `=`.
pub open spec fn ioreg_number(line: Seq<char>) -> Option<u64> {
    let rhs = right_side(line);
    match text::parsed(rhs.take(digits_len(rhs)), u64::MAX as nat) {
        Some(n) => Some(n as u64),
        None => None,
    }
}

/// The number that a line of `ioreg` gives behind its last `=`.
pub fn extract_ioreg_number(line: &str) -> (r: Option<u64>)
    ensures
        r == ioreg_number(line@),
{
    let parts = text::split(line, '=');
    let ghost pv = text::split_on(line@, '=');
    assert(pv.last() == parts@[parts@.len() - 1]@);
    let rhs = text::trim(&parts[parts.len() - 1]);
    let cs = text::chars_of(&rhs);
    let mut n: usize = 0;
    assert(rhs@.skip(0) =~= rhs@);
    while n < cs.len() && cs[n] >= '0' && cs[n] <= '9'
        invariant
            cs@ == rhs@,
            n <= cs@.len(),
            digits_len(rhs@) == n + digits_len(rhs@.skip(n as int)),
        decreases cs@.len() - n,
    {
        assert(rhs@.skip(n as int)[0] == cs@[n as int]);
        assert(rhs@.skip(n as int).skip(1) =~= rhs@.skip(n as int + 1));
        n += 1;
    }
    assert(digits_len(rhs@) == n) by {
        if n < cs@.len() {
            assert(rhs@.skip(n as int)[0] == cs@[n as int]);
        }
    }
    text::parse_up_to(&text::take(&rhs, n), u64::MAX)
}

/// What the lines of `ioreg` tell: the load, and the bytes of memory in use and
/// in all.
pub struct Performance {
    pub load: u8,
    pub used: u64,
    pub total: u64,
}

/// What the lines of `ioreg` tell after one more line.
pub open spec fn after_line(p: Performance, line: Seq<char>) -> Performance {
    let t = text::trimmed(line);
    match ioreg_number(t) {
        None => p,
        Some(n) => if text::has(t, "Device Utilization %"@) {
            let low = n % 256;
            Performance {
                load: if low > 100 {
                    100
                } else {
                    low as u8
                },
                ..p
            }
        } else if text::has(t, "In use system memory"@) {
            Performance { used: n, ..p }
        } else if text::has(t, "recommendedMaxWorkingSetSize"@) {
            Performance { total: n, ..p }
        } else if text::has(t, "PerformanceStatistics"@) && p.total == 0 && text::has(
            t,
            "Allocated PB Size"@,
        ) {
            Performance { used: n, ..p }
        } else {
            p
        },
    }
}

/// What the lines of `ioreg` tell.
pub open spec fn performance(lines: Seq<Seq<char>>) -> Performance
    decreases lines.len(),
{
    if lines.len() == 0 {
        Performance { load: 0, used: 0, total: 0 }
    } else {
        after_line(performance(lines.drop_last()), lines.last())
    }
}

/// What the text of `ioreg` tells: the load in percent, and the bytes of memory
/// in use and in all.
pub fn parse_ioreg_performance(ioreg: &str) -> (r: (u8, u64, u64))
    ensures
        (Performance { load: r.0, used: r.1, total: r.2 }) == performance(
            text::lines_of(ioreg@),
        ),
{
    let lines = text::lines(ioreg);
    let ghost lv = text::lines_of(ioreg@);
    let mut load: u8 = 0;
    let mut used: u64 = 0;
    let mut total: u64 = 0;
    for i in 0..lines.len()
        invariant
            text::views(lines@) == lv,
            (Performance { load, used, total }) == performance(lv.take(i as int)),
    {
        proof {
            assert(lv.take(i as int + 1).drop_last() =~= lv.take(i as int));
            assert(lv.take(i as int + 1).last() == lines@[i as int]@);
        }
        let t = text::trim(&lines[i]);
        if let Some(n) = extract_ioreg_number(&t) {
            if text::contains(&t, "Device Utilization %") {
                let low: u64 = n % 256;
                load = if low > 100 {
                    100
                } else {
                    low as u8
                };
            } else if text::contains(&t, "In use system memory") {
                used = n;
            } else if text::contains(&t, "recommendedMaxWorkingSetSize") {
                total = n;
            } else if text::contains(&t, "PerformanceStatistics") && total == 0 && text::contains(
                &t,
                "Allocated PB Size",
            ) {
                used = n;
            }
        }
    }
    assert(lv.take(lv.len() as int) =~= lv);
    (load, used, total)
}

/// The GPU of the chip `chip`, in a host whose memory `memsize` gives.
pub open spec fn apple_device(p: Performance, chip: Seq<char>, memsize: Option<Seq<char>>) -> DeviceV {
    let used = p.used / 1048576;
    let total = if p.total > 0 {
        p.total / 1048576
    } else {
        match memsize {
            Some(m) => match text::parsed(m, u64::MAX as nat) {
                Some(n) => (n / 1048576) as u64,
                None => 0,
            },
            None => 0,
        }
    };
    DeviceV {
        index: 0,
        name: chip,
        producer: Some("Apple"@),
        architecture: Some(chip),
        driver_version: None,
        pci_bus_id: None,
        utilization_pct: p.load,
        memory_utilization_pct: if total > 0 {
            Some(util::percent(used as nat, total as nat))
        } else {
            None
        },
        memory_used_mb: used,
        memory_total_mb: total,
        temperature_c: None,
        power_draw_w: None,
        power_limit_w: None,
        fan_speed_pct: None,
    }
}

/// The status that the text of `ioreg`, the name of the chip where it is known
/// and the size of the host's memory where it is known, describe.
pub fn probe_apple(ioreg: &str, chip: Option<&str>, memsize: Option<&str>) -> (r: GpuHostStatus)
    ensures
        r.sampled_at_unix matches Some(now) && r@ == aggregate::aggregated(
            seq![
                apple_device(
                    performance(text::lines_of(ioreg@)),
                    match chip {
                        Some(c) => c@,
                        None => "Apple GPU"@,
                    },
                    match memsize {
                        Some(m) => Some(m@),
                        None => None,
                    },
                ),
            ],
            None,
            "apple-ioreg"@,
            now,
        ),
{
    let (load, used_bytes, total_bytes) = parse_ioreg_performance(ioreg);
    let used: u64 = util::mb_from_bytes(used_bytes);
    let total: u64 = if total_bytes > 0 {
        util::mb_from_bytes(total_bytes)
    } else {
        match memsize {
            Some(m) => match text::parse_up_to(m, u64::MAX) {
                Some(n) => util::mb_from_bytes(n),
                None => 0,
            },
            None => 0,
        }
    };
    let name = match chip {
        Some(c) => text::copy(c),
        None => text::copy("Apple GPU"),
    };
    let architecture = Some(text::copy(&name));
    let d = GpuDeviceInfo {
        index: 0,
        name,
        producer: Some(text::copy("Apple")),
        architecture,
        driver_version: None,
        pci_bus_id: None,
        utilization_pct: load,
        memory_utilization_pct: if total > 0 {
            Some(util::pct_from_used_total(used, total))
        } else {
            None
        },
        memory_used_mb: used,
        memory_total_mb: total,
        temperature_c: None,
        power_draw_w: None,
        power_limit_w: None,
        fan_speed_pct: None,
    };
    let ghost dv = d@;
    let mut devices: Vec<GpuDeviceInfo> = Vec::new();
    devices.push(d);
    assert(shared::devices_view(devices@) =~= seq![dv]);
    aggregate::aggregate_gpu_devices(devices, None, "apple-ioreg")
}

/// What `ioreg` says last counts: a line that tells the load, the memory in use or the
/// memory in all changes that and nothing else, and a line without a number changes
/// nothing.
pub proof fn law_line_tells_one_thing(lines: Seq<Seq<char>>, line: Seq<char>, n: u64)
    ensures
        performance(Seq::<Seq<char>>::empty()) == (Performance { load: 0, used: 0, total: 0 }),
        ioreg_number(text::trimmed(line)) is None ==> performance(lines.push(line)) == performance(
            lines,
        ),
        ioreg_number(text::trimmed(line)) == Some(n) && text::has(
            text::trimmed(line),
            "Device Utilization %"@,
        ) ==> {
            let after = performance(lines.push(line));
            &&& n <= 100 ==> after.load == n
            &&& after.load <= 100
            &&& after.used == performance(lines).used
            &&& after.total == performance(lines).total
        },
        ioreg_number(text::trimmed(line)) == Some(n) && !text::has(
            text::trimmed(line),
            "Device Utilization %"@,
        ) && text::has(text::trimmed(line), "In use system memory"@) ==> performance(
            lines.push(line),
        ) == (Performance { used: n, ..performance(lines) }),
        ioreg_number(text::trimmed(line)) == Some(n) && !text::has(
            text::trimmed(line),
            "Device Utilization %"@,
        ) && !text::has(text::trimmed(line), "In use system memory"@) && text::has(
            text::trimmed(line),
            "recommendedMaxWorkingSetSize"@,
        ) ==> performance(lines.push(line)) == (Performance { total: n, ..performance(lines) }),
{
    assert(lines.push(line).drop_last() =~= lines);
}

/// The memory of an Apple GPU is what `ioreg` gives, in whole megabytes, or else that
/// of the host.
pub proof fn law_apple_memory(p: Performance, chip: Seq<char>, host: u64)
    ensures
        ({
            let d = apple_device(p, chip, Some(text::dec(host as nat)));
            &&& d.name == chip
            &&& d.utilization_pct == p.load
            &&& d.memory_used_mb * 1048576 <= p.used < (d.memory_used_mb + 1) * 1048576
            &&& p.total > 0 ==> d.memory_total_mb * 1048576 <= p.total < (d.memory_total_mb + 1)
                * 1048576
            &&& p.total == 0 ==> d.memory_total_mb * 1048576 <= host < (d.memory_total_mb + 1)
                * 1048576
        }),
{
    text::law_number_is_read_back(host as nat, u64::MAX as nat);
}

/// A GPU of Apple goes by the chip that it is part of, and shares its memory: the share in
/// use is told where the memory is known.
pub proof fn law_apple_gpu_is_its_chip(p: Performance, chip: Seq<char>)
    ensures
        ({
            let d = apple_device(p, chip, None);
            &&& d.producer == Some("Apple"@)
            &&& d.architecture == Some(chip)
            &&& d.index == 0
            &&& p.total >= 1048576 ==> (d.memory_utilization_pct matches Some(share) && share
                == util::percent(d.memory_used_mb as nat, d.memory_total_mb as nat))
            &&& p.total == 0 ==> d.memory_total_mb == 0 && d.memory_utilization_pct is None
        }),
{
}

} // verus!
