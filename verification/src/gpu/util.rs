//! Readings that GPU tools print, and what they mean.

use crate::json;
use crate::outside;
use crate::shared::{GpuHostStatus, StatusV};
use crate::text;
use vstd::prelude::*;

verus! {

/// The status, at `now`, of a host without a GPU.
pub open spec fn unavailable(now: u64) -> StatusV {
    StatusV {
        available: false,
        utilization_pct: 0,
        memory_used_mb: 0,
        memory_total_mb: 0,
        memory_free_mb: 0,
        name: None,
        producer: None,
        architecture: None,
        driver_version: None,
        cuda_version: None,
        device_count: None,
        temperature_c: None,
        memory_utilization_pct: None,
        power_draw_w: None,
        source: Some("unavailable"@),
        sampled_at_unix: Some(now),
        devices: None,
    }
}

/// The status of a host without a GPU, read now.
pub fn unavailable_gpu_status() -> (r: GpuHostStatus)
    ensures
        r.sampled_at_unix matches Some(now) && r@ == unavailable(now),
{
    GpuHostStatus {
        available: false,
        utilization_pct: 0,
        memory_used_mb: 0,
        memory_total_mb: 0,
        memory_free_mb: 0,
        name: None,
        producer: None,
        architecture: None,
        driver_version: None,
        cuda_version: None,
        device_count: None,
        temperature_c: None,
        memory_utilization_pct: None,
        power_draw_w: None,
        source: Some(text::copy("unavailable")),
        sampled_at_unix: Some(outside::clock_secs()),
        devices: None,
    }
}

/// The maker of a GPU, by its name and by the runner that drives it.
pub open spec fn producer_of(name: Seq<char>, runner: Option<Seq<char>>) -> Option<Seq<char>> {
    let upper = text::upper(name);
    if text::has(upper, "NVIDIA"@) || (runner matches Some(r) && text::has(r, "cuda"@)) {
        Some("NVIDIA"@)
    } else if text::has(upper, "AMD"@) || text::has(upper, "RADEON"@) || (runner matches Some(r)
        && text::has(r, "rocm"@)) {
        Some("AMD"@)
    } else if text::has(upper, "INTEL"@) {
        Some("Intel"@)
    } else if text::has(upper, "APPLE"@) || text::has(upper, "M1"@) || text::has(upper, "M2"@)
        || text::has(upper, "M3"@) || text::has(upper, "M4"@) {
        Some("Apple"@)
    } else {
        None
    }
}

/// The maker of a GPU, by its name and by the runner that drives it.
pub fn infer_producer(name: &str, runner: Option<&str>) -> (r: Option<String>)
    ensures
        text::opt_view(r) == producer_of(name@, json::opt_str(runner)),
{
    let upper = text::to_upper(name);
    let (cuda, rocm) = match runner {
        Some(r) => (text::contains(r, "cuda"), text::contains(r, "rocm")),
        None => (false, false),
    };
    if text::contains(&upper, "NVIDIA") || cuda {
        return Some(text::copy("NVIDIA"));
    }
    if text::contains(&upper, "AMD") || text::contains(&upper, "RADEON") || rocm {
        return Some(text::copy("AMD"));
    }
    if text::contains(&upper, "INTEL") {
        return Some(text::copy("Intel"));
    }
    if text::contains(&upper, "APPLE") || text::contains(&upper, "M1") || text::contains(
        &upper,
        "M2",
    ) || text::contains(&upper, "M3") || text::contains(&upper, "M4") {
        return Some(text::copy("Apple"));
    }
    None
}

/// The architecture of an NVIDIA GPU, by its compute capability.
pub open spec fn nvidia_architecture(compute: Seq<char>) -> Seq<char> {
    let c = text::trimmed(compute);
    if c == "12.0"@ {
        "Blackwell"@
    } else if c == "9.0"@ || c == "8.9"@ {
        "Ada Lovelace"@
    } else if c == "8.6"@ || c == "8.7"@ || c == "8.0"@ {
        "Ampere"@
    } else if c == "7.5"@ {
        "Turing"@
    } else if c == "7.0"@ || c == "7.2"@ {
        "Volta"@
    } else if c == "6.1"@ {
        "Pascal"@
    } else if c.len() > 0 {
        "SM "@ + c
    } else {
        "Unknown"@
    }
}

/// The architecture of an NVIDIA GPU, by its compute capability.
pub fn nvidia_architecture_label(compute: &str) -> (r: String)
    ensures
        r@ == nvidia_architecture(compute@),
{
    let c = text::trim(compute);
    if text::str_eq(&c, "12.0") {
        text::copy("Blackwell")
    } else if text::str_eq(&c, "9.0") || text::str_eq(&c, "8.9") {
        text::copy("Ada Lovelace")
    } else if text::str_eq(&c, "8.6") || text::str_eq(&c, "8.7") || text::str_eq(&c, "8.0") {
        text::copy("Ampere")
    } else if text::str_eq(&c, "7.5") {
        text::copy("Turing")
    } else if text::str_eq(&c, "7.0") || text::str_eq(&c, "7.2") {
        text::copy("Volta")
    } else if text::str_eq(&c, "6.1") {
        text::copy("Pascal")
    } else if !c.as_str().is_empty() {
        text::concat2("SM ", &c)
    } else {
        text::copy("Unknown")
    }
}

/// The architecture of an AMD GPU, by its instruction set or else by its name.
pub open spec fn amd_architecture(name: Seq<char>, gfx: Option<Seq<char>>) -> Option<Seq<char>> {
    match gfx {
        Some(g) => {
            let g = text::lower(g);
            if text::has(g, "gfx120"@) {
                Some("RDNA 4"@)
            } else if text::has(g, "gfx110"@) {
                Some("RDNA 3"@)
            } else if text::has(g, "gfx103"@) || text::has(g, "gfx101"@) {
                Some("RDNA 2"@)
            } else if text::has(g, "gfx90"@) {
                Some("CDNA"@)
            } else {
                Some(g)
            }
        },
        None => {
            let upper = text::upper(name);
            if text::has(upper, "RX 7"@) || text::has(upper, "7900"@) || text::has(upper, "7800"@) {
                Some("RDNA 3"@)
            } else if text::has(upper, "RX 6"@) || text::has(upper, "6900"@) || text::has(
                upper,
                "6800"@,
            ) {
                Some("RDNA 2"@)
            } else {
                None
            }
        },
    }
}

/// The architecture of an AMD GPU, by its instruction set or else by its name.
pub fn amd_architecture_label(name: &str, gfx: Option<&str>) -> (r: Option<String>)
    ensures
        text::opt_view(r) == amd_architecture(name@, json::opt_str(gfx)),
{
    if let Some(g) = gfx {
        let g = text::to_lower(g);
        if text::contains(&g, "gfx120") {
            return Some(text::copy("RDNA 4"));
        }
        if text::contains(&g, "gfx110") {
            return Some(text::copy("RDNA 3"));
        }
        if text::contains(&g, "gfx103") || text::contains(&g, "gfx101") {
            return Some(text::copy("RDNA 2"));
        }
        if text::contains(&g, "gfx90") {
            return Some(text::copy("CDNA"));
        }
        return Some(g);
    }
    let upper = text::to_upper(name);
    if text::contains(&upper, "RX 7") || text::contains(&upper, "7900") || text::contains(
        &upper,
        "7800",
    ) {
        return Some(text::copy("RDNA 3"));
    }
    if text::contains(&upper, "RX 6") || text::contains(&upper, "6900") || text::contains(
        &upper,
        "6800",
    ) {
        return Some(text::copy("RDNA 2"));
    }
    None
}

/// The reading up to 255 that `raw` writes; none where it writes no number.
pub open spec fn u8_reading(raw: Seq<char>) -> Option<u8> {
    match text::parsed(text::trimmed(raw), u8::MAX as nat) {
        Some(n) => Some(n as u8),
        None => None,
    }
}

/// The reading up to 255 that `raw` writes; none where it writes no number, such
/// as `N/A`.
pub fn parse_optional_u8(raw: &str) -> (r: Option<u8>)
    ensures
        r == u8_reading(raw@),
{
    match text::parse_up_to(&text::trim(raw), 255) {
        Some(n) => Some(n as u8),
        None => None,
    }
}

/// The 32-bit reading that `raw` writes; none where it writes no number.
pub open spec fn u32_reading(raw: Seq<char>) -> Option<u32> {
    match text::parsed(text::trimmed(raw), u32::MAX as nat) {
        Some(n) => Some(n as u32),
        None => None,
    }
}

/// The 32-bit reading that `raw` writes; none where it writes no number, such as
/// `N/A`.
pub fn parse_optional_u32(raw: &str) -> (r: Option<u32>)
    ensures
        r == u32_reading(raw@),
{
    match text::parse_up_to(&text::trim(raw), 0xffff_ffff) {
        Some(n) => Some(n as u32),
        None => None,
    }
}

/// The sum of readings.
pub open spec fn sum_u8(values: Seq<u8>) -> nat
    decreases values.len(),
{
    if values.len() == 0 {
        0
    } else {
        sum_u8(values.drop_last()) + values.last() as nat
    }
}

/// The average of readings, rounded down; none where there are none.
pub open spec fn average(values: Seq<u8>) -> Option<u8> {
    if values.len() == 0 {
        None
    } else {
        Some((sum_u8(values) / values.len()) as u8)
    }
}

/// A sum of readings is at most as many times the highest reading.
pub proof fn lemma_sum_u8_bound(values: Seq<u8>)
    ensures
        sum_u8(values) <= 255 * values.len(),
    decreases values.len(),
{
    if values.len() > 0 {
        lemma_sum_u8_bound(values.drop_last());
    }
}

/// The average of readings, rounded down; none where there are none.
pub fn avg_optional_u8(values: &Vec<u8>) -> (r: Option<u8>)
    ensures
        r == average(values@),
{
    let mut total: u128 = 0;
    for i in 0..values.len()
        invariant
            total == sum_u8(values@.take(i as int)),
            total <= 255 * i,
    {
        assert(values@.take(i as int + 1).drop_last() =~= values@.take(i as int));
        total = total + values[i] as u128;
    }
    assert(values@.take(values@.len() as int) =~= values@);
    if values.len() == 0 {
        None
    } else {
        let n: u128 = values.len() as u128;
        proof {
            lemma_sum_u8_bound(values@);
            assert(total / n <= 255) by (nonlinear_arith)
                requires
                    total <= 255 * n,
                    n > 0,
            ;
        }
        Some((total / n) as u8)
    }
}

/// Bytes in whole mebibytes.
pub fn mb_from_bytes(bytes: u64) -> (r: u64)
    ensures
        r == bytes as int / 1048576,
{
    bytes / 1048576
}

/// How much of `total` is `used`, in whole percent up to 100; 0 of nothing.
pub open spec fn percent(used: nat, total: nat) -> u8 {
    if total == 0 {
        0
    } else if used * 100 / total > 100 {
        100
    } else {
        (used * 100 / total) as u8
    }
}

/// How much of `total` is `used`, in whole percent up to 100; 0 of nothing.
pub fn pct_from_used_total(used: u64, total: u64) -> (r: u8)
    ensures
        r == percent(used as nat, total as nat),
{
    if total == 0 {
        return 0;
    }
    let p: u128 = used as u128 * 100 / total as u128;
    if p > 100 {
        100
    } else {
        p as u8
    }
}

/// A reading is the number that its digits write, whatever white space stands around
/// them, where it is not too high for its kind.
pub proof fn law_reading_is_read_back(a: Seq<char>, n: nat, b: Seq<char>)
    requires
        text::is_blank(a),
        text::is_blank(b),
    ensures
        u8_reading(a + text::dec(n) + b) == if n <= u8::MAX {
            Some(n as u8)
        } else {
            None
        },
        u32_reading(a + text::dec(n) + b) == if n <= u32::MAX {
            Some(n as u32)
        } else {
            None
        },
{
    let d = text::dec(n);
    text::lemma_dec_value(n);
    assert(text::is_digit(d[0]) && text::is_digit(d[d.len() - 1]));
    text::law_trimming_takes_off_space(a, d, b);
    text::law_number_is_read_back(n, u8::MAX as nat);
    text::law_number_is_read_back(n, u32::MAX as nat);
}

/// A share in percent is rounded down and never above 100: of nothing it is 0, and of
/// all of it 100, and more of the same is never a smaller share.
pub proof fn law_share_in_percent(used: nat, total: nat, more: nat)
    requires
        used <= more,
    ensures
        percent(used, total) <= 100,
        total > 0 && used <= total ==> percent(used, total) * total <= used * 100
            && used * 100 < (percent(used, total) + 1) * total,
        total > 0 && used >= total ==> percent(used, total) == 100,
        total > 0 ==> percent(0, total) == 0,
        percent(used, total) <= percent(more, total),
{
    if total > 0 {
        vstd::arithmetic::div_mod::lemma_div_is_ordered(
            (used * 100) as int,
            (more * 100) as int,
            total as int,
        );
        vstd::arithmetic::div_mod::lemma_fundamental_div_mod((used * 100) as int, total as int);
        let q = used * 100 / total;
        let r = (used * 100) % total;
        assert(total * q == q * total) by (nonlinear_arith);
        assert((q + 1) * total == q * total + total) by (nonlinear_arith);
        if used <= total {
            assert(q <= 100) by (nonlinear_arith)
                requires
                    q * total <= used * 100,
                    used <= total,
                    total > 0,
            ;
        }
        if used >= total {
            assert(q >= 100) by (nonlinear_arith)
                requires
                    used * 100 < (q + 1) * total,
                    used >= total,
                    total > 0,
            ;
        }
    }
}

/// A GPU is NVIDIA's where its name says so, in letters of either case, or where it
/// runs on CUDA, whatever else its name says.
pub proof fn law_maker_stands_in_the_name(
    a: Seq<char>,
    word: Seq<char>,
    b: Seq<char>,
    runner: Seq<char>,
)
    requires
        text::is_ascii(a + word + b),
        text::ascii_upper(word) == "NVIDIA"@,
    ensures
        producer_of(a + word + b, None) == Some("NVIDIA"@),
        producer_of(a + word + b, Some(runner)) == Some("NVIDIA"@),
        text::has(runner, "cuda"@) ==> producer_of(a, Some(runner)) == Some("NVIDIA"@),
{
    let all = text::ascii_upper(a + word + b);
    let i = a.len() as int;
    assert(all.subrange(i, i + word.len()) =~= text::ascii_upper(word));
    assert(text::match_at(all, "NVIDIA"@, i));
}

} // verus!
