//! The GPUs of a host, taken together.

use crate::gpu::util;
use crate::outside;
use crate::shared;
use crate::shared::{DeviceV, GpuDeviceInfo, GpuHostStatus, StatusV};
use crate::text;
use vstd::prelude::*;

verus! {

/// `n`, or the highest value there is where it is higher.
pub open spec fn capped_u64(n: nat) -> u64 {
    if n > u64::MAX {
        u64::MAX
    } else {
        n as u64
    }
}

/// `n`, or the highest value there is where it is higher.
pub open spec fn capped_u32(n: nat) -> u32 {
    if n > u32::MAX {
        u32::MAX
    } else {
        n as u32
    }
}

/// The sum of the GPUs' loads.
pub open spec fn load_sum(d: Seq<DeviceV>) -> nat
    decreases d.len(),
{
    if d.len() == 0 {
        0
    } else {
        load_sum(d.drop_last()) + d.last().utilization_pct as nat
    }
}

/// The sum of the GPUs' used memory.
pub open spec fn used_sum(d: Seq<DeviceV>) -> nat
    decreases d.len(),
{
    if d.len() == 0 {
        0
    } else {
        used_sum(d.drop_last()) + d.last().memory_used_mb as nat
    }
}

/// The sum of the GPUs' memory.
pub open spec fn total_sum(d: Seq<DeviceV>) -> nat
    decreases d.len(),
{
    if d.len() == 0 {
        0
    } else {
        total_sum(d.drop_last()) + d.last().memory_total_mb as nat
    }
}

/// The sum of the power that GPUs draw.
pub open spec fn power_sum(d: Seq<DeviceV>) -> nat
    decreases d.len(),
{
    if d.len() == 0 {
        0
    } else {
        power_sum(d.drop_last()) + match d.last().power_draw_w {
            Some(p) => p as nat,
            None => 0,
        }
    }
}

/// The temperatures that are known.
pub open spec fn temperatures(d: Seq<DeviceV>) -> Seq<u8>
    decreases d.len(),
{
    if d.len() == 0 {
        Seq::empty()
    } else {
        match d.last().temperature_c {
            Some(t) => temperatures(d.drop_last()).push(t),
            None => temperatures(d.drop_last()),
        }
    }
}

/// The names of GPUs.
pub open spec fn names(d: Seq<DeviceV>) -> Seq<Seq<char>> {
    d.map_values(|x: DeviceV| x.name)
}

/// The makers that GPUs give.
pub open spec fn given_producers(d: Seq<DeviceV>) -> Seq<Seq<char>>
    decreases d.len(),
{
    if d.len() == 0 {
        Seq::empty()
    } else {
        match d.last().producer {
            Some(p) => given_producers(d.drop_last()).push(p),
            None => given_producers(d.drop_last()),
        }
    }
}

/// The makers that the GPUs' names give away.
pub open spec fn inferred_producers(d: Seq<DeviceV>) -> Seq<Seq<char>>
    decreases d.len(),
{
    if d.len() == 0 {
        Seq::empty()
    } else {
        match util::producer_of(d.last().name, None) {
            Some(p) => inferred_producers(d.drop_last()).push(p),
            None => inferred_producers(d.drop_last()),
        }
    }
}

/// The one maker of `producers`, or `Mixed`.
pub open spec fn common_producer(producers: Seq<Seq<char>>) -> Option<Seq<char>> {
    if producers.len() == 0 {
        None
    } else if forall|i: int| 0 <= i < producers.len() ==> #[trigger] producers[i] == producers[0] {
        Some(producers[0])
    } else {
        Some("Mixed"@)
    }
}

/// The maker of a host's GPUs: as they give it, or else as their names do.
pub open spec fn host_producer(d: Seq<DeviceV>) -> Option<Seq<char>> {
    if given_producers(d).len() > 0 {
        common_producer(given_producers(d))
    } else {
        common_producer(inferred_producers(d))
    }
}

/// The first architecture that is known.
pub open spec fn first_architecture(d: Seq<DeviceV>) -> Option<Seq<char>>
    decreases d.len(),
{
    if d.len() == 0 {
        None
    } else if d[0].architecture is Some {
        d[0].architecture
    } else {
        first_architecture(d.skip(1))
    }
}

/// The first driver version that is known.
pub open spec fn first_driver(d: Seq<DeviceV>) -> Option<Seq<char>>
    decreases d.len(),
{
    if d.len() == 0 {
        None
    } else if d[0].driver_version is Some {
        d[0].driver_version
    } else {
        first_driver(d.skip(1))
    }
}

/// How many GPUs there are, up to 255.
pub open spec fn count_of(d: Seq<DeviceV>) -> u8 {
    if d.len() > u8::MAX {
        u8::MAX
    } else {
        d.len() as u8
    }
}

/// The status, at `now`, of a host with the GPUs `d`.
pub open spec fn aggregated(
    d: Seq<DeviceV>,
    cuda_version: Option<Seq<char>>,
    source: Seq<char>,
    now: u64,
) -> StatusV {
    let used = capped_u64(used_sum(d));
    let total = capped_u64(total_sum(d));
    StatusV {
        available: true,
        utilization_pct: if d.len() == 0 {
            0
        } else {
            ((load_sum(d) / count_of(d) as nat) % 256) as u8
        },
        memory_used_mb: used,
        memory_total_mb: total,
        memory_free_mb: if total > used {
            (total - used) as u64
        } else {
            0
        },
        name: if d.len() == 0 {
            None
        } else {
            Some(text::joined(names(d), ", "@))
        },
        producer: host_producer(d),
        architecture: first_architecture(d),
        driver_version: first_driver(d),
        cuda_version,
        device_count: Some(count_of(d)),
        temperature_c: util::average(temperatures(d)),
        memory_utilization_pct: if total > 0 {
            Some(util::percent(used as nat, total as nat))
        } else {
            None
        },
        power_draw_w: if power_sum(d) == 0 {
            None
        } else {
            Some(capped_u32(power_sum(d)))
        },
        source: Some(source),
        sampled_at_unix: Some(now),
        devices: Some(d),
    }
}

struct Sums {
    load: u128,
    used: u64,
    total: u64,
    power: u32,
    temperatures: Vec<u8>,
    names: Vec<String>,
    given: Vec<String>,
    inferred: Vec<String>,
}

fn sums_of(devices: &Vec<GpuDeviceInfo>) -> (r: Sums)
    ensures
        ({
            let d = shared::devices_view(devices@);
            &&& r.load == load_sum(d)
            &&& r.load <= 255 * devices@.len()
            &&& r.used == capped_u64(used_sum(d))
            &&& r.total == capped_u64(total_sum(d))
            &&& r.power == capped_u32(power_sum(d))
            &&& r.temperatures@ == temperatures(d)
            &&& text::views(r.names@) == names(d)
            &&& text::views(r.given@) == given_producers(d)
            &&& text::views(r.inferred@) == inferred_producers(d)
        }),
{
    let mut s = Sums {
        load: 0,
        used: 0,
        total: 0,
        power: 0,
        temperatures: Vec::new(),
        names: Vec::new(),
        given: Vec::new(),
        inferred: Vec::new(),
    };
    let ghost d = shared::devices_view(devices@);
    proof {
        assert(text::views(s.names@) =~= names(d.take(0)));
        assert(text::views(s.given@) =~= Seq::<Seq<char>>::empty());
        assert(text::views(s.inferred@) =~= Seq::<Seq<char>>::empty());
    }
    for i in 0..devices.len()
        invariant
            d == shared::devices_view(devices@),
            s.load == load_sum(d.take(i as int)),
            s.load <= 255 * i,
            s.used == capped_u64(used_sum(d.take(i as int))),
            s.total == capped_u64(total_sum(d.take(i as int))),
            s.power == capped_u32(power_sum(d.take(i as int))),
            s.temperatures@ == temperatures(d.take(i as int)),
            text::views(s.names@) == names(d.take(i as int)),
            text::views(s.given@) == given_producers(d.take(i as int)),
            text::views(s.inferred@) == inferred_producers(d.take(i as int)),
    {
        let x = &devices[i];
        proof {
            assert(d.take(i as int + 1).drop_last() =~= d.take(i as int));
            assert(d.take(i as int + 1).last() == x@);
        }
        s.load = s.load + x.utilization_pct as u128;
        s.used = if s.used > u64::MAX - x.memory_used_mb {
            u64::MAX
        } else {
            s.used + x.memory_used_mb
        };
        s.total = if s.total > u64::MAX - x.memory_total_mb {
            u64::MAX
        } else {
            s.total + x.memory_total_mb
        };
        if let Some(p) = x.power_draw_w {
            s.power = if s.power > u32::MAX - p {
                u32::MAX
            } else {
                s.power + p
            };
        }
        if let Some(t) = x.temperature_c {
            s.temperatures.push(t);
        }
        let name = text::copy(&x.name);
        proof {
            text::lemma_views_push(s.names@, name);
            assert(names(d.take(i as int + 1)) =~= names(d.take(i as int)).push(name@));
        }
        s.names.push(name);
        if let Some(p) = &x.producer {
            let p = text::copy(p);
            proof {
                text::lemma_views_push(s.given@, p);
            }
            s.given.push(p);
        }
        if let Some(p) = util::infer_producer(&x.name, None) {
            proof {
                text::lemma_views_push(s.inferred@, p);
            }
            s.inferred.push(p);
        }
    }
    assert(d.take(d.len() as int) =~= d);
    s
}

fn one_producer(producers: &Vec<String>) -> (r: Option<String>)
    ensures
        text::opt_view(r) == common_producer(text::views(producers@)),
{
    if producers.len() == 0 {
        return None;
    }
    let ghost pv = text::views(producers@);
    for i in 0..producers.len()
        invariant
            pv == text::views(producers@),
            producers@.len() > 0,
            forall|j: int| 0 <= j < i ==> #[trigger] pv[j] == pv[0],
    {
        if !text::str_eq(&producers[i], &producers[0]) {
            assert(pv[i as int] != pv[0]);
            return Some(text::copy("Mixed"));
        }
    }
    Some(text::copy(&producers[0]))
}

fn known_architecture(devices: &Vec<GpuDeviceInfo>) -> (r: Option<String>)
    ensures
        text::opt_view(r) == first_architecture(shared::devices_view(devices@)),
{
    let ghost d = shared::devices_view(devices@);
    assert(d.skip(0) =~= d);
    for i in 0..devices.len()
        invariant
            d == shared::devices_view(devices@),
            first_architecture(d) == first_architecture(d.skip(i as int)),
    {
        assert(d.skip(i as int)[0] == devices@[i as int]@);
        assert(d.skip(i as int).skip(1) =~= d.skip(i as int + 1));
        if let Some(a) = &devices[i].architecture {
            return Some(text::copy(a));
        }
    }
    None
}

fn known_driver(devices: &Vec<GpuDeviceInfo>) -> (r: Option<String>)
    ensures
        text::opt_view(r) == first_driver(shared::devices_view(devices@)),
{
    let ghost d = shared::devices_view(devices@);
    assert(d.skip(0) =~= d);
    for i in 0..devices.len()
        invariant
            d == shared::devices_view(devices@),
            first_driver(d) == first_driver(d.skip(i as int)),
    {
        assert(d.skip(i as int)[0] == devices@[i as int]@);
        assert(d.skip(i as int).skip(1) =~= d.skip(i as int + 1));
        if let Some(a) = &devices[i].driver_version {
            return Some(text::copy(a));
        }
    }
    None
}

/// The status, at `now`, of a host with the GPUs `devices`.
pub fn aggregate_gpu_devices_at(
    devices: Vec<GpuDeviceInfo>,
    cuda_version: Option<String>,
    source: &str,
    now: u64,
) -> (r: GpuHostStatus)
    ensures
        r@ == aggregated(
            shared::devices_view(devices@),
            text::opt_view(cuda_version),
            source@,
            now,
        ),
{
    let ghost d = shared::devices_view(devices@);
    let s = sums_of(&devices);
    let count: u8 = if devices.len() > 255 {
        255
    } else {
        devices.len() as u8
    };
    let utilization_pct: u8 = if count > 0 {
        let q: u128 = s.load / count as u128;
        (q % 256) as u8
    } else {
        0
    };
    let memory_free_mb: u64 = if s.total > s.used {
        s.total - s.used
    } else {
        0
    };
    let memory_utilization_pct: Option<u8> = if s.total > 0 {
        Some(util::pct_from_used_total(s.used, s.total))
    } else {
        None
    };
    let temperature_c: Option<u8> = util::avg_optional_u8(&s.temperatures);
    let power_draw_w: Option<u32> = if s.power == 0 {
        None
    } else {
        Some(s.power)
    };
    let name = if devices.len() == 0 {
        None
    } else {
        Some(text::join(&s.names, ", "))
    };
    let producer = if s.given.len() > 0 {
        one_producer(&s.given)
    } else {
        one_producer(&s.inferred)
    };
    assert(text::views(s.given@).len() == s.given@.len());
    let architecture = known_architecture(&devices);
    let driver_version = known_driver(&devices);
    GpuHostStatus {
        available: true,
        utilization_pct,
        memory_used_mb: s.used,
        memory_total_mb: s.total,
        memory_free_mb,
        name,
        producer,
        architecture,
        driver_version,
        cuda_version,
        device_count: Some(count),
        temperature_c,
        memory_utilization_pct,
        power_draw_w,
        source: Some(text::copy(source)),
        sampled_at_unix: Some(now),
        devices: Some(devices),
    }
}

/// The status of a host with the GPUs `devices`, read now.
pub fn aggregate_gpu_devices(
    devices: Vec<GpuDeviceInfo>,
    cuda_version: Option<String>,
    source: &str,
) -> (r: GpuHostStatus)
    ensures
        r.sampled_at_unix matches Some(now) && r@ == aggregated(
            shared::devices_view(devices@),
            text::opt_view(cuda_version),
            source@,
            now,
        ),
{
    let now: u64 = outside::clock_secs();
    aggregate_gpu_devices_at(devices, cuda_version, source, now)
}

/// Whether `r` is the status, at some time, of a host with the GPUs `d`, or none
/// where there are none.
pub open spec fn tells(
    r: Option<GpuHostStatus>,
    d: Seq<DeviceV>,
    cuda_version: Option<Seq<char>>,
    source: Seq<char>,
) -> bool {
    match r {
        Some(s) => d.len() > 0 && s.sampled_at_unix is Some && s@ == aggregated(
            d,
            cuda_version,
            source,
            s.sampled_at_unix->0,
        ),
        None => d.len() == 0,
    }
}

/// The status of a host with the GPUs `devices`, read now; none where there are
/// none.
pub fn status_of(
    devices: Vec<GpuDeviceInfo>,
    cuda_version: Option<String>,
    source: &str,
) -> (r: Option<GpuHostStatus>)
    ensures
        tells(r, shared::devices_view(devices@), text::opt_view(cuda_version), source@),
{
    assert(shared::devices_view(devices@).len() == devices@.len());
    if devices.len() == 0 {
        None
    } else {
        Some(aggregate_gpu_devices(devices, cuda_version, source))
    }
}

/// The GPUs of all `statuses` in a row.
pub open spec fn all_devices(statuses: Seq<StatusV>) -> Seq<DeviceV>
    decreases statuses.len(),
{
    if statuses.len() == 0 {
        Seq::empty()
    } else {
        all_devices(statuses.drop_last()) + match statuses.last().devices {
            Some(d) => d,
            None => Seq::empty(),
        }
    }
}

/// The sources of all `statuses` that give one.
pub open spec fn all_sources(statuses: Seq<StatusV>) -> Seq<Seq<char>>
    decreases statuses.len(),
{
    if statuses.len() == 0 {
        Seq::empty()
    } else {
        match statuses.last().source {
            Some(s) => all_sources(statuses.drop_last()).push(s),
            None => all_sources(statuses.drop_last()),
        }
    }
}

/// The first CUDA version that one of `statuses` gives.
pub open spec fn first_cuda(statuses: Seq<StatusV>) -> Option<Seq<char>>
    decreases statuses.len(),
{
    if statuses.len() == 0 {
        None
    } else if first_cuda(statuses.drop_last()) is Some {
        first_cuda(statuses.drop_last())
    } else {
        statuses.last().cuda_version
    }
}

/// GPUs numbered in a row, up to 255.
pub open spec fn renumbered(d: Seq<DeviceV>) -> Seq<DeviceV> {
    Seq::new(
        d.len(),
        |i: int|
            DeviceV {
                index: if i > u8::MAX {
                    u8::MAX
                } else {
                    i as u8
                },
                ..d[i]
            },
    )
}

/// What a list of statuses says.
pub open spec fn statuses_view(v: Seq<GpuHostStatus>) -> Seq<StatusV> {
    v.map_values(|s: GpuHostStatus| s@)
}

/// Whether `r` is the status, at some time, of a host whose GPUs several tools
/// read. A single reading stays as it is.
pub open spec fn merged(statuses: Seq<GpuHostStatus>, r: GpuHostStatus) -> bool {
    if statuses.len() == 1 {
        r == statuses[0]
    } else {
        let s = statuses_view(statuses);
        r.sampled_at_unix is Some && r@ == aggregated(
            renumbered(all_devices(s)),
            first_cuda(s),
            text::joined(all_sources(s), "+"@),
            r.sampled_at_unix->0,
        )
    }
}

/// The status of a host whose GPUs were read by several tools, read now. A
/// single reading stays as it is.
pub fn merge_vendor_statuses(statuses: Vec<GpuHostStatus>) -> (r: GpuHostStatus)
    ensures
        merged(statuses@, r),
{
    let mut statuses = statuses;
    if statuses.len() == 1 {
        return statuses.pop().unwrap();
    }
    let ghost sv = statuses_view(statuses@);
    let mut devices: Vec<GpuDeviceInfo> = Vec::new();
    let mut sources: Vec<String> = Vec::new();
    let mut cuda_version: Option<String> = None;
    proof {
        assert(shared::devices_view(devices@) =~= renumbered(all_devices(sv.take(0))));
        assert(text::views(sources@) =~= Seq::<Seq<char>>::empty());
    }
    for i in 0..statuses.len()
        invariant
            sv == statuses_view(statuses@),
            shared::devices_view(devices@) == renumbered(all_devices(sv.take(i as int))),
            text::views(sources@) == all_sources(sv.take(i as int)),
            text::opt_view(cuda_version) == first_cuda(sv.take(i as int)),
    {
        let s = &statuses[i];
        proof {
            assert(sv.take(i as int + 1).drop_last() =~= sv.take(i as int));
            assert(sv.take(i as int + 1).last() == s@);
        }
        if let Some(source) = &s.source {
            let source = text::copy(source);
            proof {
                text::lemma_views_push(sources@, source);
            }
            sources.push(source);
        }
        if cuda_version.is_none() {
            cuda_version = text::copy_opt(&s.cuda_version);
        }
        let ghost before = all_devices(sv.take(i as int));
        if let Some(devs) = &s.devices {
            let ghost dv = shared::devices_view(devs@);
            assert(before + dv.take(0) =~= before);
            for k in 0..devs.len()
                invariant
                    dv == shared::devices_view(devs@),
                    shared::devices_view(devices@) == renumbered(before + dv.take(k as int)),
            {
                let mut x = devs[k].copy();
                let n: usize = devices.len();
                assert(n == (before + dv.take(k as int)).len()) by {
                    assert(shared::devices_view(devices@).len() == devices@.len());
                }
                x.index = if n > 255 {
                    255
                } else {
                    n as u8
                };
                proof {
                    shared::lemma_devices_push(devices@, x);
                    assert(before + dv.take(k as int + 1) =~= (before + dv.take(k as int)).push(
                        dv[k as int],
                    ));
                    assert(shared::devices_view(devices@).push(x@) =~= renumbered(
                        before + dv.take(k as int + 1),
                    ));
                }
                devices.push(x);
            }
            assert(dv.take(dv.len() as int) =~= dv);
        } else {
            assert(before + Seq::<DeviceV>::empty() =~= before);
        }
    }
    assert(sv.take(sv.len() as int) =~= sv);
    let source = text::join(&sources, "+");
    aggregate_gpu_devices(devices, cuda_version, &source)
}

proof fn lemma_sums_add(a: Seq<DeviceV>, b: Seq<DeviceV>)
    ensures
        load_sum(a + b) == load_sum(a) + load_sum(b),
        used_sum(a + b) == used_sum(a) + used_sum(b),
        total_sum(a + b) == total_sum(a) + total_sum(b),
        power_sum(a + b) == power_sum(a) + power_sum(b),
        temperatures(a + b) == temperatures(a) + temperatures(b),
    decreases b.len(),
{
    if b.len() == 0 {
        assert(a + b =~= a);
    } else {
        assert((a + b).drop_last() =~= a + b.drop_last());
        assert((a + b).last() == b.last());
        lemma_sums_add(a, b.drop_last());
    }
}

/// What a host reports of its power, as a number.
pub open spec fn power_of(s: StatusV) -> int {
    match s.power_draw_w {
        Some(p) => p as int,
        None => 0,
    }
}

/// Memory and power are additive: the GPUs `a` and `b` of one host have, use and
/// draw together what the two have, use and draw apart, where the sum still fits.
pub proof fn law_memory_and_power_add(
    a: Seq<DeviceV>,
    b: Seq<DeviceV>,
    cuda_version: Option<Seq<char>>,
    source: Seq<char>,
    now: u64,
)
    ensures
        ({
            let x = aggregated(a, cuda_version, source, now);
            let y = aggregated(b, cuda_version, source, now);
            let both = aggregated(a + b, cuda_version, source, now);
            &&& x.memory_total_mb + y.memory_total_mb < u64::MAX ==> both.memory_total_mb
                == x.memory_total_mb + y.memory_total_mb
            &&& x.memory_used_mb + y.memory_used_mb < u64::MAX ==> both.memory_used_mb
                == x.memory_used_mb + y.memory_used_mb
            &&& power_of(x) + power_of(y) < u32::MAX ==> power_of(both) == power_of(x) + power_of(y)
            &&& both.memory_total_mb >= x.memory_total_mb
            &&& both.memory_used_mb >= x.memory_used_mb
            &&& power_of(both) >= power_of(x)
        }),
{
    lemma_sums_add(a, b);
}

/// A host with one GPU reports that GPU.
pub proof fn law_one_gpu_is_the_host(
    d: DeviceV,
    cuda_version: Option<Seq<char>>,
    source: Seq<char>,
    now: u64,
)
    ensures
        ({
            let s = aggregated(seq![d], cuda_version, source, now);
            &&& s.available
            &&& s.memory_total_mb == d.memory_total_mb
            &&& s.memory_used_mb == d.memory_used_mb
            &&& d.memory_used_mb <= d.memory_total_mb ==> s.memory_free_mb == d.memory_total_mb
                - d.memory_used_mb
            &&& d.memory_used_mb > d.memory_total_mb ==> s.memory_free_mb == 0
            &&& s.utilization_pct == d.utilization_pct
            &&& s.temperature_c == d.temperature_c
            &&& power_of(s) == (match d.power_draw_w {
                Some(p) => p as int,
                None => 0,
            })
            &&& s.name == Some(d.name)
            &&& s.architecture == d.architecture
            &&& s.driver_version == d.driver_version
            &&& d.producer is Some ==> s.producer == d.producer
            &&& s.device_count == Some(1u8)
            &&& s.cuda_version == cuda_version
            &&& s.source == Some(source)
            &&& s.sampled_at_unix == Some(now)
            &&& s.devices == Some(seq![d])
        }),
{
    let one = seq![d];
    assert(one.drop_last() =~= Seq::<DeviceV>::empty());
    reveal_with_fuel(load_sum, 2);
    reveal_with_fuel(used_sum, 2);
    reveal_with_fuel(total_sum, 2);
    reveal_with_fuel(power_sum, 2);
    reveal_with_fuel(temperatures, 2);
    reveal_with_fuel(given_producers, 2);
    reveal_with_fuel(inferred_producers, 2);
    reveal_with_fuel(first_architecture, 2);
    reveal_with_fuel(first_driver, 2);
    assert(one.skip(1) =~= Seq::<DeviceV>::empty());
    assert(names(one) =~= seq![d.name]);
    assert(text::joined(names(one), ", "@) == d.name) by {
        reveal_with_fuel(text::joined, 2);
    }
    if let Some(t) = d.temperature_c {
        assert(temperatures(one) =~= seq![t]);
        assert(seq![t].drop_last() =~= Seq::<u8>::empty());
        reveal_with_fuel(util::sum_u8, 2);
        assert(util::sum_u8(seq![t]) == t as nat);
        assert((t as nat) / 1 == t as nat);
    }
    if let Some(p) = d.producer {
        assert(given_producers(one) =~= seq![p]);
    }
    assert(d.utilization_pct as nat / 1 == d.utilization_pct as nat);
    assert(d.utilization_pct as nat % 256 == d.utilization_pct as nat);
}

/// What the GPUs `d` have free, each by itself.
pub open spec fn free_sum(d: Seq<DeviceV>) -> int
    decreases d.len(),
{
    if d.len() == 0 {
        0
    } else {
        free_sum(d.drop_last()) + (d.last().memory_total_mb - d.last().memory_used_mb)
    }
}

proof fn lemma_free(d: Seq<DeviceV>)
    ensures
        free_sum(d) == total_sum(d) - used_sum(d),
        (forall|i: int|
            0 <= i < d.len() ==> (#[trigger] d[i]).memory_used_mb <= d[i].memory_total_mb)
            ==> used_sum(d) <= total_sum(d),
    decreases d.len(),
{
    if d.len() > 0 {
        let front = d.drop_last();
        lemma_free(front);
        if forall|i: int|
            0 <= i < d.len() ==> (#[trigger] d[i]).memory_used_mb <= d[i].memory_total_mb {
            assert forall|i: int| 0 <= i < front.len() implies (#[trigger] front[i]).memory_used_mb
                <= front[i].memory_total_mb by {
                assert(front[i] == d[i]);
            }
            assert(d[d.len() - 1] == d.last());
        }
    }
}

/// The free memory of a host is the sum of what its GPUs have free, where none
/// uses more than it has and the sum of their memory fits. What it reports as
/// used and as free is together what it has.
pub proof fn law_free_memory_adds(
    d: Seq<DeviceV>,
    cuda_version: Option<Seq<char>>,
    source: Seq<char>,
    now: u64,
)
    requires
        forall|i: int|
            0 <= i < d.len() ==> (#[trigger] d[i]).memory_used_mb <= d[i].memory_total_mb,
        aggregated(d, cuda_version, source, now).memory_total_mb < u64::MAX,
    ensures
        ({
            let s = aggregated(d, cuda_version, source, now);
            &&& s.memory_free_mb == free_sum(d)
            &&& s.memory_used_mb + s.memory_free_mb == s.memory_total_mb
        }),
{
    lemma_free(d);
}

proof fn lemma_load_between(d: Seq<DeviceV>, low: nat, high: nat)
    requires
        forall|i: int|
            0 <= i < d.len() ==> low <= (#[trigger] d[i]).utilization_pct as nat
                && d[i].utilization_pct as nat <= high,
    ensures
        low * d.len() <= load_sum(d) <= high * d.len(),
    decreases d.len(),
{
    if d.len() > 0 {
        let front = d.drop_last();
        assert forall|i: int| 0 <= i < front.len() implies low <= (
        #[trigger] front[i]).utilization_pct as nat && front[i].utilization_pct as nat <= high by {
            assert(front[i] == d[i]);
        }
        lemma_load_between(front, low, high);
        assert(d[d.len() - 1] == d.last());
        assert(low * d.len() == low * front.len() + low) by (nonlinear_arith)
            requires
                d.len() == front.len() + 1,
        ;
        assert(high * d.len() == high * front.len() + high) by (nonlinear_arith)
            requires
                d.len() == front.len() + 1,
        ;
    }
}

proof fn lemma_sum_between(v: Seq<u8>, low: nat, high: nat)
    requires
        forall|i: int| 0 <= i < v.len() ==> low <= #[trigger] v[i] as nat && v[i] as nat <= high,
    ensures
        low * v.len() <= util::sum_u8(v) <= high * v.len(),
    decreases v.len(),
{
    if v.len() > 0 {
        let front = v.drop_last();
        assert forall|i: int| 0 <= i < front.len() implies low <= #[trigger] front[i] as nat
            && front[i] as nat <= high by {
            assert(front[i] == v[i]);
        }
        lemma_sum_between(front, low, high);
        assert(v[v.len() - 1] == v.last());
        assert(low * v.len() == low * front.len() + low) by (nonlinear_arith)
            requires
                v.len() == front.len() + 1,
        ;
        assert(high * v.len() == high * front.len() + high) by (nonlinear_arith)
            requires
                v.len() == front.len() + 1,
        ;
    }
}

proof fn lemma_mean_between(sum: nat, n: nat, low: nat, high: nat)
    requires
        n > 0,
        low * n <= sum <= high * n,
    ensures
        low <= sum / n <= high,
{
    vstd::arithmetic::div_mod::lemma_div_is_ordered((low * n) as int, sum as int, n as int);
    vstd::arithmetic::div_mod::lemma_div_is_ordered(sum as int, (high * n) as int, n as int);
    vstd::arithmetic::div_mod::lemma_div_multiples_vanish(low as int, n as int);
    vstd::arithmetic::div_mod::lemma_div_multiples_vanish(high as int, n as int);
    assert(low * n == n * low) by (nonlinear_arith);
    assert(high * n == n * high) by (nonlinear_arith);
}

proof fn lemma_temperatures_between(d: Seq<DeviceV>, low: nat, high: nat)
    requires
        forall|i: int|
            0 <= i < d.len() ==> ((#[trigger] d[i]).temperature_c matches Some(t) ==> low
                <= t as nat && t as nat <= high),
    ensures
        forall|i: int|
            0 <= i < temperatures(d).len() ==> low <= #[trigger] temperatures(d)[i] as nat
                && temperatures(d)[i] as nat <= high,
        temperatures(d).len() == 0 <==> (forall|i: int|
            0 <= i < d.len() ==> (#[trigger] d[i]).temperature_c is None),
    decreases d.len(),
{
    if d.len() > 0 {
        let front = d.drop_last();
        assert forall|i: int| 0 <= i < front.len() implies ((
        #[trigger] front[i]).temperature_c matches Some(t) ==> low <= t as nat && t as nat
            <= high) by {
            assert(front[i] == d[i]);
        }
        lemma_temperatures_between(front, low, high);
        assert(d[d.len() - 1] == d.last());
        if temperatures(d).len() == 0 {
            assert forall|i: int| 0 <= i < d.len() implies (
            #[trigger] d[i]).temperature_c is None by {
                if i < front.len() {
                    assert(front[i] == d[i]);
                }
            }
        }
        if forall|i: int| 0 <= i < d.len() ==> (#[trigger] d[i]).temperature_c is None {
            assert forall|i: int| 0 <= i < front.len() implies (
            #[trigger] front[i]).temperature_c is None by {
                assert(front[i] == d[i]);
            }
        }
    }
}

/// The load and the temperature of a host lie between those of its coolest and
/// least loaded GPU and those of its hottest and most loaded one, so a host whose
/// GPUs are all too hot is too hot. Only where no GPU gives a temperature, the
/// host gives none. (Of more than 255 GPUs, the load is not a mean.)
pub proof fn law_host_is_between_its_gpus(
    d: Seq<DeviceV>,
    cuda_version: Option<Seq<char>>,
    source: Seq<char>,
    now: u64,
    low: u8,
    high: u8,
)
    ensures
        ({
            let s = aggregated(d, cuda_version, source, now);
            &&& (forall|i: int|
                0 <= i < d.len() ==> ((#[trigger] d[i]).temperature_c matches Some(t) ==> low <= t
                    <= high)) ==> (s.temperature_c matches Some(t) ==> low <= t <= high)
            &&& s.temperature_c is None <==> (forall|i: int|
                0 <= i < d.len() ==> (#[trigger] d[i]).temperature_c is None)
            &&& 0 < d.len() <= 255 && (forall|i: int|
                0 <= i < d.len() ==> low <= (#[trigger] d[i]).utilization_pct <= high) ==> low
                <= s.utilization_pct <= high
        }),
{
    let t = temperatures(d);
    lemma_temperatures_between(d, 0, 255);
    if forall|i: int|
        0 <= i < d.len() ==> ((#[trigger] d[i]).temperature_c matches Some(t) ==> low <= t
            <= high) {
        lemma_temperatures_between(d, low as nat, high as nat);
        if t.len() > 0 {
            lemma_sum_between(t, low as nat, high as nat);
            lemma_mean_between(util::sum_u8(t), t.len(), low as nat, high as nat);
        }
    }
    if 0 < d.len() <= 255 && (forall|i: int|
        0 <= i < d.len() ==> low <= (#[trigger] d[i]).utilization_pct <= high) {
        lemma_load_between(d, low as nat, high as nat);
        lemma_mean_between(load_sum(d), d.len(), low as nat, high as nat);
    }
}

proof fn lemma_renumbered_sums(d: Seq<DeviceV>)
    ensures
        total_sum(renumbered(d)) == total_sum(d),
        used_sum(renumbered(d)) == used_sum(d),
        power_sum(renumbered(d)) == power_sum(d),
        load_sum(renumbered(d)) == load_sum(d),
    decreases d.len(),
{
    if d.len() > 0 {
        assert(renumbered(d).drop_last() =~= renumbered(d.drop_last()));
        lemma_renumbered_sums(d.drop_last());
    }
}

/// A host whose GPUs two tools read has the GPUs of both readings, numbered in a
/// row: their memory is that of the first reading's GPUs and that of the second's
/// together, where the sum fits.
pub proof fn law_merged_readings_add(
    first: GpuHostStatus,
    second: GpuHostStatus,
    r: GpuHostStatus,
    a: Seq<DeviceV>,
    b: Seq<DeviceV>,
)
    requires
        merged(seq![first, second], r),
        first@.devices == Some(a),
        second@.devices == Some(b),
        total_sum(a) + total_sum(b) < u64::MAX,
        used_sum(a) + used_sum(b) < u64::MAX,
    ensures
        r@.memory_total_mb == total_sum(a) + total_sum(b),
        r@.memory_used_mb == used_sum(a) + used_sum(b),
        r@.devices matches Some(d) && d.len() == a.len() + b.len() && (forall|i: int|
            0 <= i < d.len() ==> (#[trigger] d[i]) == (DeviceV {
                index: d[i].index,
                ..if i < a.len() {
                    a[i]
                } else {
                    b[i - a.len()]
                }
            }) && (i < 256 ==> d[i].index == i)),
{
    let s = statuses_view(seq![first, second]);
    assert(s.drop_last() =~= seq![first@]);
    assert(seq![first@].drop_last() =~= Seq::<StatusV>::empty());
    reveal_with_fuel(all_devices, 3);
    assert(all_devices(s) =~= a + b);
    lemma_renumbered_sums(a + b);
    lemma_sums_add(a, b);
}

/// The load and the heat of a host are means, rounded down: as many times as there are
/// GPUs, they come to what the GPUs have together, or to less than one more.
pub proof fn law_host_load_is_a_mean(
    d: Seq<DeviceV>,
    cuda_version: Option<Seq<char>>,
    source: Seq<char>,
    now: u64,
)
    requires
        0 < d.len() <= 255,
    ensures
        ({
            let s = aggregated(d, cuda_version, source, now);
            &&& s.utilization_pct * d.len() <= load_sum(d)
            &&& load_sum(d) < (s.utilization_pct + 1) * d.len()
            &&& s.device_count == Some(d.len() as u8)
            &&& s.temperature_c matches Some(t) ==> t * temperatures(d).len() <= util::sum_u8(
                temperatures(d),
            ) && util::sum_u8(temperatures(d)) < (t + 1) * temperatures(d).len()
        }),
{
    let n = d.len() as int;
    let sum = load_sum(d) as int;
    assert forall|i: int| 0 <= i < d.len() implies 0 <= (#[trigger] d[i]).utilization_pct as nat
        && d[i].utilization_pct as nat <= 255 by {}
    lemma_load_between(d, 0, 255);
    lemma_mean_between(load_sum(d), d.len(), 0, 255);
    vstd::arithmetic::div_mod::lemma_fundamental_div_mod(sum, n);
    assert(n * (sum / n) == (sum / n) * n) by (nonlinear_arith);
    assert((sum / n + 1) * n == (sum / n) * n + n) by (nonlinear_arith);
    let t = temperatures(d);
    if t.len() > 0 {
        let k = t.len() as int;
        let heat = util::sum_u8(t) as int;
        util::lemma_sum_u8_bound(t);
        assert forall|i: int| 0 <= i < t.len() implies 0 <= #[trigger] t[i] as nat && t[i] as nat
            <= 255 by {}
        lemma_sum_between(t, 0, 255);
        lemma_mean_between(util::sum_u8(t), t.len(), 0, 255);
        vstd::arithmetic::div_mod::lemma_fundamental_div_mod(heat, k);
        assert(k * (heat / k) == (heat / k) * k) by (nonlinear_arith);
        assert((heat / k + 1) * k == (heat / k) * k + k) by (nonlinear_arith);
    }
}

/// A host names all its GPUs, in their order; its maker is theirs where they all have one
/// and the same, and otherwise mixed; and its architecture and driver are the first that
/// one of them gives.
pub proof fn law_host_names_its_gpus(
    d: Seq<DeviceV>,
    x: DeviceV,
    cuda_version: Option<Seq<char>>,
    source: Seq<char>,
    now: u64,
)
    requires
        d.len() > 0,
    ensures
        ({
            let s = aggregated(d, cuda_version, source, now);
            let more = aggregated(d.push(x), cuda_version, source, now);
            &&& s.name matches Some(n) && more.name == Some(n + ", "@ + x.name)
            &&& s.architecture is Some ==> more.architecture == s.architecture
            &&& s.architecture is None ==> more.architecture == x.architecture
            &&& s.driver_version is Some ==> more.driver_version == s.driver_version
            &&& s.driver_version is None ==> more.driver_version == x.driver_version
            &&& more.devices == Some(d.push(x))
            &&& (forall|i: int|
                0 <= i < d.len() ==> (#[trigger] d[i]).producer is Some && d[i].producer
                    == x.producer) ==> more.producer == x.producer
            &&& d[0].producer is Some && x.producer is Some && d[0].producer != x.producer
                ==> more.producer == Some("Mixed"@)
        }),
{
    let all = d.push(x);
    assert(names(all) =~= names(d).push(x.name));
    assert(names(d).push(x.name).drop_last() =~= names(d));
    assert(text::joined(names(all), ", "@) == text::joined(names(d), ", "@) + ", "@ + x.name);
    lemma_first_known(d, x);
    lemma_given(d);
    lemma_given(all);
    assert(all.drop_last() =~= d);
    let g = given_producers(all);
    if forall|i: int|
        0 <= i < d.len() ==> (#[trigger] d[i]).producer is Some && d[i].producer == x.producer {
        assert(d[0].producer is Some);
        assert forall|i: int| 0 <= i < all.len() implies (#[trigger] all[i]).producer == x.producer by {
            if i < d.len() {
                assert(all[i] == d[i]);
            }
        }
        assert(g.last() == x.producer->0);
        assert forall|k: int| 0 <= k < g.len() implies #[trigger] g[k] == x.producer->0 by {
            let i = choose|i: int| 0 <= i < all.len() && (#[trigger] all[i]).producer == Some(g[k]);
            assert(all[i].producer == x.producer);
        }
    }
    if d[0].producer is Some && x.producer is Some && d[0].producer != x.producer {
        assert(all[0] == d[0]);
        lemma_given_first(d);
        let h = given_producers(d);
        assert(g =~= h.push(x.producer->0));
        assert(g[0] == h[0]);
        assert(g[g.len() - 1] == x.producer->0);
    }
}

proof fn lemma_given(d: Seq<DeviceV>)
    ensures
        forall|k: int|
            0 <= k < given_producers(d).len() ==> exists|i: int|
                0 <= i < d.len() && (#[trigger] d[i]).producer == Some(
                    #[trigger] given_producers(d)[k],
                ),
    decreases d.len(),
{
    if d.len() > 0 {
        let front = d.drop_last();
        lemma_given(front);
        let g = given_producers(d);
        assert forall|k: int| 0 <= k < g.len() implies exists|i: int|
            0 <= i < d.len() && (#[trigger] d[i]).producer == Some(#[trigger] g[k]) by {
            if k < given_producers(front).len() {
                assert(g[k] == given_producers(front)[k]);
                let i = choose|i: int|
                    0 <= i < front.len() && (#[trigger] front[i]).producer == Some(g[k]);
                assert(d[i] == front[i]);
            } else {
                assert(d[d.len() - 1].producer == Some(g[k]));
            }
        }
    }
}

proof fn lemma_given_first(d: Seq<DeviceV>)
    requires
        d.len() > 0,
        d[0].producer is Some,
    ensures
        given_producers(d).len() > 0,
        given_producers(d)[0] == d[0].producer->0,
    decreases d.len(),
{
    let front = d.drop_last();
    if front.len() > 0 {
        assert(front[0] == d[0]);
        lemma_given_first(front);
    } else {
        assert(d.last() == d[0]);
        assert(given_producers(front) =~= Seq::empty());
    }
}

proof fn lemma_first_known(d: Seq<DeviceV>, x: DeviceV)
    ensures
        first_architecture(d.push(x)) == (if first_architecture(d) is Some {
            first_architecture(d)
        } else {
            x.architecture
        }),
        first_driver(d.push(x)) == (if first_driver(d) is Some {
            first_driver(d)
        } else {
            x.driver_version
        }),
    decreases d.len(),
{
    let all = d.push(x);
    if d.len() == 0 {
        reveal_with_fuel(first_architecture, 2);
        reveal_with_fuel(first_driver, 2);
        assert(all[0] == x);
        assert(all.skip(1) =~= Seq::empty());
    } else {
        assert(all[0] == d[0]);
        assert(all.skip(1) =~= d.skip(1).push(x));
        lemma_first_known(d.skip(1), x);
    }
}

/// A tool that tells of GPUs tells of a host that has them all; one that tells of none
/// tells nothing.
pub proof fn law_told_gpus_are_the_hosts(
    r: Option<GpuHostStatus>,
    d: Seq<DeviceV>,
    cuda_version: Option<Seq<char>>,
    source: Seq<char>,
)
    requires
        tells(r, d, cuda_version, source),
    ensures
        d.len() > 0 <==> r is Some,
        r matches Some(s) ==> s@.available && s@.devices == Some(d) && s@.source == Some(source)
            && s@.cuda_version == cuda_version,
{
}

/// The GPUs of a host are counted, up to the largest count.
pub proof fn law_gpus_are_counted(d: Seq<DeviceV>)
    ensures
        d.len() <= 255 ==> count_of(d) == d.len(),
        d.len() > 255 ==> count_of(d) == 255,
        given_producers(d).len() == 0 ==> host_producer(d) == common_producer(inferred_producers(d)),
        given_producers(d).len() > 0 ==> host_producer(d) == common_producer(given_producers(d)),
{
}

} // verus!
