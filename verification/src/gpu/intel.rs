//! What `xpu-smi` and `intel_gpu_top` print.

use crate::gpu::aggregate;
use crate::gpu::amd;
use crate::gpu::readings;
use crate::gpu::util;
use crate::json;
use crate::json::{Json, JsonV};
use crate::shared;
use crate::shared::{DeviceV, GpuDeviceInfo, GpuHostStatus};
use crate::text;
use vstd::prelude::*;

verus! {

/// The entries for GPUs in what `xpu-smi discovery` prints: a list, or the
/// description of a single GPU.
pub open spec fn entries(b: JsonV) -> Option<Seq<JsonV>> {
    if json::arr_in(Some(b)) is Some {
        json::arr_in(Some(b))
    } else {
        let listed = json::arr_in(
            readings::either(
                json::field(b, "device_list"@),
                readings::either(json::field(b, "devices"@), json::field(b, "deviceList"@)),
            ),
        );
        if listed is Some {
            listed
        } else if json::field(b, "device_id"@) is Some || json::field(b, "device_name"@) is Some {
            Some(seq![b])
        } else {
            None
        }
    }
}

/// What a list of values says.
pub open spec fn refs_view(v: Seq<&Json>) -> Seq<JsonV> {
    v.map_values(|j: &Json| j@)
}

fn refs_of<'a>(v: &'a Vec<Json>) -> (r: Vec<&'a Json>)
    ensures
        refs_view(r@) == json::items_view(v@),
{
    let mut out: Vec<&'a Json> = Vec::new();
    for i in 0..v.len()
        invariant
            out@.len() == i,
            forall|k: int| 0 <= k < i ==> *(#[trigger] out@[k]) == v@[k],
    {
        out.push(&v[i]);
    }
    assert(refs_view(out@) =~= json::items_view(v@));
    out
}

/// The entries for GPUs in what `xpu-smi discovery` prints.
pub fn discovery_device_entries<'a>(body: &'a Json) -> (r: Option<Vec<&'a Json>>)
    ensures
        match r {
            Some(v) => entries(body@) == Some(refs_view(v@)),
            None => entries(body@) is None,
        },
{
    if let Some(v) = body.as_array() {
        return Some(refs_of(v));
    }
    let listed = match readings::first2(
        body.get("device_list"),
        readings::first2(body.get("devices"), body.get("deviceList")),
    ) {
        Some(j) => j.as_array(),
        None => None,
    };
    if let Some(v) = listed {
        return Some(refs_of(v));
    }
    if body.get("device_id").is_some() || body.get("device_name").is_some() {
        let mut out: Vec<&'a Json> = Vec::new();
        out.push(body);
        assert(refs_view(out@) =~= seq![body@]);
        return Some(out);
    }
    None
}

/// The number by which `xpu-smi` knows the GPU of the entry `e` at `i`.
pub open spec fn device_id(e: JsonV, i: nat) -> u64 {
    readings::or_u64(
        readings::whole(
            readings::either(
                json::field(e, "device_id"@),
                readings::either(json::field(e, "deviceId"@), json::field(e, "id"@)),
            ),
        ),
        i as u64,
    )
}

fn device_id_of(e: &Json, i: usize) -> (r: u64)
    ensures
        r == device_id(e@, i as nat),
{
    match readings::whole_of(
        readings::first2(
            e.get("device_id"),
            readings::first2(e.get("deviceId"), e.get("id")),
        ),
    ) {
        Some(n) => n,
        None => i as u64,
    }
}

/// The entries in the text of `xpu-smi discovery`.
pub open spec fn discovered(t: Seq<char>) -> Option<Seq<JsonV>> {
    match json::json_parse(t) {
        Some(b) => entries(b),
        None => None,
    }
}

/// The numbers of the GPUs whose statistics are worth asking for, in the order
/// of the entries of the discovery `body`.
pub fn device_ids_in(body: &Json) -> (r: Option<Vec<u64>>)
    ensures
        match entries(body@) {
            Some(es) => r matches Some(v) && v@ == Seq::new(
                es.len(),
                |i: int| device_id(es[i], i as nat),
            ),
            None => r is None,
        },
{
    let es = match discovery_device_entries(body) {
        Some(es) => es,
        None => {
            return None;
        },
    };
    let ghost ev = refs_view(es@);
    let mut out: Vec<u64> = Vec::new();
    for i in 0..es.len()
        invariant
            ev == refs_view(es@),
            out@.len() == i,
            forall|k: int| 0 <= k < i ==> #[trigger] out@[k] == device_id(ev[k], k as nat),
    {
        let id: u64 = device_id_of(es[i], i);
        out.push(id);
    }
    assert(out@ =~= Seq::new(ev.len(), |i: int| device_id(ev[i], i as nat)));
    Some(out)
}

/// The numbers of the GPUs whose statistics are worth asking for, in the order
/// of the entries of the text `discovery`.
pub fn xpu_device_ids(discovery: &str) -> (r: Option<Vec<u64>>)
    ensures
        match discovered(discovery@) {
            Some(es) => r matches Some(v) && v@ == Seq::new(
                es.len(),
                |i: int| device_id(es[i], i as nat),
            ),
            None => r is None,
        },
{
    match json::parse(discovery) {
        Some(b) => device_ids_in(&b),
        None => None,
    }
}

/// The load that the statistics give.
pub open spec fn stats_load(s: JsonV) -> u8 {
    let direct = readings::first_reading(
        s,
        seq![
            "/device_utilization"@,
            "/gpu_utilization"@,
            "/utilization"@,
            "/tile_level/0/gpu_utilization"@,
        ],
    );
    let found = if direct is Some {
        direct
    } else {
        match readings::at(s, "/device_level/gpu_util"@) {
            Some(v) => readings::number(v, false),
            None => None,
        }
    };
    readings::load(readings::or_u64(found, 0))
}

/// The memory in use that the statistics give.
pub open spec fn stats_used(s: JsonV) -> u64 {
    match readings::first_reading(
        s,
        seq!["/memory_used"@, "/gpu_memory_used"@, "/tile_level/0/gpu_memory_used"@],
    ) {
        Some(n) => readings::mem_mb(n),
        None => 0,
    }
}

/// The memory that the statistics, or else the entry, give.
pub open spec fn stats_total(s: JsonV, e: JsonV) -> u64 {
    match readings::first_reading(
        s,
        seq!["/memory_total"@, "/gpu_memory_total"@, "/tile_level/0/gpu_memory_total"@],
    ) {
        Some(n) => n,
        None => match json::u64_in(
            readings::either(
                json::field(e, "memory_physical_size_byte"@),
                json::field(e, "memory_size"@),
            ),
        ) {
            Some(n) => readings::mem_mb(n),
            None => 0,
        },
    }
}

/// The temperature that the statistics give.
pub open spec fn stats_temperature(s: JsonV) -> Option<u8> {
    match readings::first_reading(
        s,
        seq!["/gpu_temperature"@, "/temperature"@, "/tile_level/0/gpu_core_temperature"@],
    ) {
        Some(t) => Some(readings::byte(t)),
        None => None,
    }
}

/// The power that the statistics give, its low 32 bits.
pub open spec fn stats_power(s: JsonV) -> Option<u32> {
    match readings::first_reading(s, seq!["/power"@, "/gpu_power"@, "/tile_level/0/power"@]) {
        Some(p) => Some((p % 0x1_0000_0000) as u32),
        None => None,
    }
}

/// The name that the entry `e` gives.
pub open spec fn entry_name(e: JsonV) -> Seq<char> {
    match json::str_in(
        readings::either(
            json::field(e, "device_name"@),
            readings::either(
                json::field(e, "deviceName"@),
                readings::either(json::field(e, "name"@), json::field(e, "pci_device_name"@)),
            ),
        ),
    ) {
        Some(s) => s,
        None => "Intel GPU"@,
    }
}

/// The GPU that the entry `e` at `i` and the statistics `s` describe.
pub open spec fn xpu_device(e: JsonV, s: JsonV, i: nat) -> DeviceV {
    let used = stats_used(s);
    let total = stats_total(s, e);
    DeviceV {
        index: amd::number_at(i),
        name: entry_name(e),
        producer: Some("Intel"@),
        architecture: json::str_in(
            readings::either(
                json::field(e, "gfx_firmware_version"@),
                json::field(e, "device_type"@),
            ),
        ),
        driver_version: json::str_in(json::field(e, "driver_version"@)),
        pci_bus_id: json::str_in(
            readings::either(json::field(e, "pci_bdf_address"@), json::field(e, "pci_bdf"@)),
        ),
        utilization_pct: stats_load(s),
        memory_utilization_pct: if total > 0 {
            Some(util::percent(used as nat, total as nat))
        } else {
            None
        },
        memory_used_mb: used,
        memory_total_mb: total,
        temperature_c: stats_temperature(s),
        power_draw_w: stats_power(s),
        power_limit_w: None,
        fan_speed_pct: None,
    }
}

fn load_in(s: &Json) -> (r: u8)
    ensures
        r == stats_load(s@),
{
    let direct: Option<u64> = readings::reading_at4(
        s,
        "/device_utilization",
        "/gpu_utilization",
        "/utilization",
        "/tile_level/0/gpu_utilization",
    );
    let found: Option<u64> = if direct.is_some() {
        direct
    } else {
        match readings::point(s, "/device_level/gpu_util") {
            Some(v) => readings::number_of(v, false),
            None => None,
        }
    };
    readings::load_of(
        match found {
            Some(n) => n,
            None => 0,
        },
    )
}

fn total_in(s: &Json, e: &Json) -> (r: u64)
    ensures
        r == stats_total(s@, e@),
{
    match readings::reading_at3(
        s,
        "/memory_total",
        "/gpu_memory_total",
        "/tile_level/0/gpu_memory_total",
    ) {
        Some(n) => n,
        None => {
            let size: Option<u64> = match readings::first2(
                e.get("memory_physical_size_byte"),
                e.get("memory_size"),
            ) {
                Some(v) => v.as_u64(),
                None => None,
            };
            match size {
                Some(n) => readings::normalize_mem_to_mb(n),
                None => 0,
            }
        },
    }
}

fn device_of_xpu(e: &Json, s: &Json, i: usize) -> (r: GpuDeviceInfo)
    ensures
        r@ == xpu_device(e@, s@, i as nat),
{
    let name = match readings::text_of(
        readings::first2(
            e.get("device_name"),
            readings::first2(
                e.get("deviceName"),
                readings::first2(e.get("name"), e.get("pci_device_name")),
            ),
        ),
    ) {
        Some(s) => s,
        None => text::copy("Intel GPU"),
    };
    let used: u64 = match readings::reading_at3(
        s,
        "/memory_used",
        "/gpu_memory_used",
        "/tile_level/0/gpu_memory_used",
    ) {
        Some(n) => readings::normalize_mem_to_mb(n),
        None => 0,
    };
    let total: u64 = total_in(s, e);
    GpuDeviceInfo {
        index: amd::number_of(i),
        name,
        producer: Some(text::copy("Intel")),
        architecture: readings::text_of(
            readings::first2(e.get("gfx_firmware_version"), e.get("device_type")),
        ),
        driver_version: readings::text_of(e.get("driver_version")),
        pci_bus_id: readings::text_of(
            readings::first2(e.get("pci_bdf_address"), e.get("pci_bdf")),
        ),
        utilization_pct: load_in(s),
        memory_utilization_pct: if total > 0 {
            Some(util::pct_from_used_total(used, total))
        } else {
            None
        },
        memory_used_mb: used,
        memory_total_mb: total,
        temperature_c: match readings::reading_at3(
            s,
            "/gpu_temperature",
            "/temperature",
            "/tile_level/0/gpu_core_temperature",
        ) {
            Some(t) => Some(readings::byte_of(t)),
            None => None,
        },
        power_draw_w: match readings::reading_at3(
            s,
            "/power",
            "/gpu_power",
            "/tile_level/0/power",
        ) {
            Some(p) => Some((p % 0x1_0000_0000) as u32),
            None => None,
        },
        power_limit_w: None,
        fan_speed_pct: None,
    }
}

/// The statistics at `i`; null where there are none.
pub open spec fn stats_at(stats: Seq<JsonV>, i: int) -> JsonV {
    if i < stats.len() {
        stats[i]
    } else {
        JsonV::Null
    }
}

/// The GPUs that the entries and their statistics describe.
pub open spec fn xpu_devices(es: Seq<JsonV>, stats: Seq<JsonV>) -> Seq<DeviceV> {
    Seq::new(es.len(), |i: int| xpu_device(es[i], stats_at(stats, i), i as nat))
}

/// The status that the discovery `body`, and the statistics of its GPUs in their
/// order, describe; none where there is no GPU.
pub fn xpu_status(body: &Json, stats: &Vec<Json>) -> (r: Option<GpuHostStatus>)
    ensures
        match entries(body@) {
            Some(es) => aggregate::tells(
                r,
                xpu_devices(es, json::items_view(stats@)),
                None,
                "xpu-smi"@,
            ),
            None => r is None,
        },
{
    let es = match discovery_device_entries(body) {
        Some(es) => es,
        None => {
            return None;
        },
    };
    let ghost ev = refs_view(es@);
    let ghost sv = json::items_view(stats@);
    let ghost all = xpu_devices(ev, sv);
    let mut devices: Vec<GpuDeviceInfo> = Vec::new();
    let nothing = Json::Null;
    assert(shared::devices_view(devices@) =~= all.take(0));
    for i in 0..es.len()
        invariant
            ev == refs_view(es@),
            sv == json::items_view(stats@),
            all == xpu_devices(ev, sv),
            nothing@ == JsonV::Null,
            shared::devices_view(devices@) == all.take(i as int),
    {
        let s = if i < stats.len() {
            assert(sv[i as int] == stats@[i as int]@);
            &stats[i]
        } else {
            &nothing
        };
        let d = device_of_xpu(es[i], s, i);
        proof {
            shared::lemma_devices_push(devices@, d);
            assert(all.take(i as int + 1) =~= all.take(i as int).push(d@));
        }
        devices.push(d);
    }
    assert(all.take(all.len() as int) =~= all);
    aggregate::status_of(devices, None, "xpu-smi")
}

/// The statistics in a text; null where it holds none.
pub open spec fn stats_of(t: Option<Seq<char>>) -> JsonV {
    match t {
        Some(t) => match json::json_parse(t) {
            Some(b) => b,
            None => JsonV::Null,
        },
        None => JsonV::Null,
    }
}

/// The statistics in texts.
pub open spec fn stats_in(texts: Seq<Option<String>>) -> Seq<JsonV> {
    texts.map_values(|t: Option<String>| stats_of(text::opt_view(t)))
}

/// The status that the text of `xpu-smi discovery`, and the texts with the
/// statistics of its GPUs in their order, describe; none where there is no GPU.
pub fn probe_xpu_smi(discovery: &str, stats: &Vec<Option<String>>) -> (r: Option<GpuHostStatus>)
    ensures
        match discovered(discovery@) {
            Some(es) => aggregate::tells(r, xpu_devices(es, stats_in(stats@)), None, "xpu-smi"@),
            None => r is None,
        },
{
    let body = match json::parse(discovery) {
        Some(b) => b,
        None => {
            return None;
        },
    };
    let ghost all = stats_in(stats@);
    let mut read: Vec<Json> = Vec::new();
    assert(json::items_view(read@) =~= all.take(0));
    for i in 0..stats.len()
        invariant
            all == stats_in(stats@),
            json::items_view(read@) == all.take(i as int),
    {
        let s = match &stats[i] {
            Some(t) => match json::parse(t) {
                Some(b) => b,
                None => Json::Null,
            },
            None => Json::Null,
        };
        proof {
            json::lemma_items_push(read@, s);
            assert(all.take(i as int + 1) =~= all.take(i as int).push(s@));
        }
        read.push(s);
    }
    assert(all.take(all.len() as int) =~= all);
    xpu_status(&body, &read)
}

/// Where the brace that closes the first one of `s` stands, seen from `i` with
/// `depth` braces open.
pub open spec fn brace_close(s: Seq<char>, i: int, depth: int) -> Option<int>
    decreases s.len() - i,
{
    if i >= s.len() {
        None
    } else if s[i] == '{' {
        brace_close(s, i + 1, depth + 1)
    } else if s[i] == '}' {
        if depth == 1 {
            Some(i)
        } else {
            brace_close(s, i + 1, depth - 1)
        }
    } else {
        brace_close(s, i + 1, depth)
    }
}

fn find_close(cs: &Vec<char>) -> (r: Option<usize>)
    requires
        cs@.len() > 0,
        cs@[0] == '{',
    ensures
        match r {
            Some(i) => brace_close(cs@, 0, 0) == Some(i as int) && i < cs@.len(),
            None => brace_close(cs@, 0, 0) is None,
        },
{
    let mut depth: usize = 0;
    let mut i: usize = 0;
    while i < cs.len()
        invariant
            i <= cs@.len(),
            depth <= i,
            i > 0 ==> depth >= 1,
            cs@[0] == '{',
            brace_close(cs@, 0, 0) == brace_close(cs@, i as int, depth as int),
        decreases cs@.len() - i,
    {
        if cs[i] == '{' {
            depth += 1;
        } else if cs[i] == '}' {
            if depth == 1 {
                return Some(i);
            }
            depth -= 1;
        }
        i += 1;
    }
    None
}

/// The first block in braces of `s`: up to a closing brace at the end of a line,
/// or else up to the brace that closes it.
pub open spec fn first_block(s: Seq<char>) -> Option<Seq<char>> {
    match text::char_index(s, '{') {
        Some(start) => {
            let rest = s.skip(start);
            match text::index_of(rest, "}\n"@, 0) {
                Some(i) => Some(rest.take(i + 1)),
                None => match brace_close(rest, 0, 0) {
                    Some(i) => Some(rest.take(i + 1)),
                    None => None,
                },
            }
        },
        None => None,
    }
}

fn block_of(s: &str) -> (r: Option<String>)
    ensures
        text::opt_view(r) == first_block(s@),
{
    let start: usize = match text::find_char(s, '{') {
        Some(i) => i,
        None => {
            return None;
        },
    };
    proof {
        text::lemma_char_index(s@, '{');
    }
    let rest = text::skip(s, start);
    let cs = text::chars_of(&rest);
    proof {
        reveal_strlit("}\n");
    }
    match text::find(&rest, "}\n") {
        Some(i) => Some(text::take(&rest, i + 1)),
        None => match find_close(&cs) {
            Some(i) => {
                assert(i < cs.len());
                Some(text::take(&rest, i + 1))
            },
            None => None,
        },
    }
}

/// The reading of `intel_gpu_top` in a text: the whole text, or else its first
/// block in braces.
pub open spec fn top_body(t: Seq<char>) -> Option<JsonV> {
    let s = text::trimmed(t);
    match json::json_parse(s) {
        Some(b) => Some(b),
        None => match first_block(s) {
            Some(block) => json::json_parse(block),
            None => None,
        },
    }
}

/// The reading of `intel_gpu_top` in a text: the whole text, or else its first
/// block in braces.
pub fn intel_gpu_top_body(t: &str) -> (r: Option<Json>)
    ensures
        json::opt_owned(r) == top_body(t@),
{
    let s = text::trim(t);
    match json::parse(&s) {
        Some(b) => Some(b),
        None => match block_of(&s) {
            Some(block) => json::parse(&block),
            None => None,
        },
    }
}

/// `n` in decimal, with its sign where it is negative.
pub open spec fn int_text(n: int) -> Seq<char> {
    if n < 0 {
        seq!['-'] + text::dec((-n) as nat)
    } else {
        text::dec(n as nat)
    }
}

/// How busy the engine `e` is, as the text of a number.
pub open spec fn busy_text(e: JsonV) -> Option<Seq<char>> {
    match readings::either(json::field(e, "busy"@), json::field(e, "busy%"@)) {
        Some(JsonV::Int(n)) => Some(int_text(n)),
        Some(JsonV::Float(t)) => Some(t),
        Some(JsonV::Str(s)) => {
            let t = text::strip_trailing(s, '%');
            if readings::text_number(t) is Some {
                Some(t)
            } else {
                None
            }
        },
        _ => None,
    }
}

fn busy_of(e: &Json) -> (r: Option<String>)
    ensures
        text::opt_view(r) == busy_text(e@),
{
    match readings::first2(e.get("busy"), e.get("busy%")) {
        Some(Json::UInt(n)) => Some(text::dec_u64(*n)),
        Some(Json::NegInt(n)) => {
            if *n < 0 {
                let m: u64 = (-(*n as i128)) as u64;
                proof {
                    reveal_strlit("-");
                    assert("-"@ =~= seq!['-']);
                }
                Some(text::concat2("-", &text::dec_u64(m)))
            } else {
                Some(text::dec_u64(*n as u64))
            }
        },
        Some(Json::Float(n)) => Some(n.to_text()),
        Some(Json::Str(s)) => {
            let t = text::trim_end_char(s, '%');
            if readings::number_in_text(&t).is_some() {
                Some(t)
            } else {
                None
            }
        },
        _ => None,
    }
}

/// How busy the engines under the keys `ks` are.
pub open spec fn busy_texts(m: Map<Seq<char>, JsonV>, ks: Seq<Seq<char>>) -> Seq<Seq<char>>
    decreases ks.len(),
{
    if ks.len() == 0 {
        Seq::empty()
    } else {
        let before = busy_texts(m, ks.drop_last());
        match busy_text(m[ks.last()]) {
            Some(t) => before.push(t),
            None => before,
        }
    }
}

/// Whether `texts` says how busy the engines of `b` are, each once.
pub open spec fn tells_busy(b: JsonV, texts: Seq<Seq<char>>) -> bool {
    match json::field(b, "engines"@) {
        Some(JsonV::Obj(m)) => exists|ks: Seq<Seq<char>>| #[trigger]
            json::lists_keys(ks, m) && texts == busy_texts(m, ks),
        _ => texts.len() == 0,
    }
}

/// How busy the engines of a reading are, as texts of numbers: their average is
/// the load of the GPU.
pub fn engine_busy(body: &Json) -> (r: Vec<String>)
    ensures
        tells_busy(body@, text::views(r@)),
{
    let mut out: Vec<String> = Vec::new();
    let engines = match body.get("engines") {
        Some(e) => e,
        None => {
            return out;
        },
    };
    if !engines.is_object() {
        return out;
    }
    let ghost m = engines@->Obj_0;
    let keys = json::keys_of(engines);
    let ghost kv = text::views(keys@);
    assert(text::views(out@) =~= busy_texts(m, kv.take(0)));
    for i in 0..keys.len()
        invariant
            engines@ == JsonV::Obj(m),
            kv == text::views(keys@),
            json::lists_keys(kv, m),
            text::views(out@) == busy_texts(m, kv.take(i as int)),
    {
        proof {
            assert(kv.take(i as int + 1).drop_last() =~= kv.take(i as int));
            assert(kv[i as int] == keys@[i as int]@);
            assert(kv.contains(kv[i as int]));
        }
        if let Some(e) = engines.get(&keys[i]) {
            if let Some(t) = busy_of(e) {
                proof {
                    text::lemma_views_push(out@, t);
                }
                out.push(t);
            }
        }
    }
    assert(kv.take(kv.len() as int) =~= kv);
    out
}

/// The memory that one client uses.
pub open spec fn client_memory(c: JsonV) -> nat {
    match json::u64_in(
        readings::either(
            readings::at(c, "/memory/system/total"@),
            readings::at(c, "/memory/local/total"@),
        ),
    ) {
        Some(n) => n as nat,
        None => 0,
    }
}

/// The memory that the clients under the keys `ks` use.
pub open spec fn clients_memory(m: Map<Seq<char>, JsonV>, ks: Seq<Seq<char>>) -> nat
    decreases ks.len(),
{
    if ks.len() == 0 {
        0
    } else {
        clients_memory(m, ks.drop_last()) + client_memory(m[ks.last()])
    }
}

/// Whether `mb` is the memory that the clients of `b` use, in mebibytes.
pub open spec fn tells_memory(b: JsonV, mb: u64) -> bool {
    match readings::at(b, "/clients"@) {
        Some(JsonV::Obj(m)) => exists|ks: Seq<Seq<char>>| #[trigger]
            json::lists_keys(ks, m) && mb == aggregate::capped_u64(clients_memory(m, ks))
                / 1048576,
        _ => mb == 0,
    }
}

proof fn lemma_clients_memory_without(m: Map<Seq<char>, JsonV>, ks: Seq<Seq<char>>, i: int)
    requires
        0 <= i < ks.len(),
    ensures
        clients_memory(m, ks) == clients_memory(m, ks.remove(i)) + client_memory(m[ks[i]]),
    decreases ks.len(),
{
    if i == ks.len() - 1 {
        assert(ks.remove(i) =~= ks.drop_last());
    } else {
        lemma_clients_memory_without(m, ks.drop_last(), i);
        assert(ks.remove(i).drop_last() =~= ks.drop_last().remove(i));
        assert(ks.remove(i).last() == ks.last());
    }
}

proof fn lemma_clients_memory_of_any_order(
    m: Map<Seq<char>, JsonV>,
    a: Seq<Seq<char>>,
    b: Seq<Seq<char>>,
)
    requires
        a.no_duplicates(),
        b.no_duplicates(),
        forall|k: Seq<char>| a.contains(k) <==> #[trigger] b.contains(k),
    ensures
        clients_memory(m, a) == clients_memory(m, b),
    decreases a.len(),
{
    if a.len() == 0 {
        if b.len() > 0 {
            assert(b.contains(b[0]));
        }
    } else {
        let k = a.last();
        assert(a[a.len() - 1] == k);
        assert(a.contains(k));
        assert(b.contains(k));
        let i = choose|i: int| 0 <= i < b.len() && b[i] == k;
        let less = b.remove(i);
        lemma_clients_memory_without(m, b, i);
        assert forall|x: Seq<char>| a.drop_last().contains(x) <==> #[trigger] less.contains(x) by {
            if a.drop_last().contains(x) {
                let j = choose|j: int| 0 <= j < a.drop_last().len() && a.drop_last()[j] == x;
                assert(a[j] == x);
                assert(a.contains(x));
                assert(b.contains(x));
                let n = choose|n: int| 0 <= n < b.len() && b[n] == x;
                if n < i {
                    assert(less[n] == x);
                } else {
                    assert(n != i);
                    assert(less[n - 1] == x);
                }
            }
            if less.contains(x) {
                let n = choose|n: int| 0 <= n < less.len() && less[n] == x;
                let o = if n < i {
                    n
                } else {
                    n + 1
                };
                assert(b[o] == x && o != i);
                assert(b.contains(x));
                assert(a.contains(x));
                let j = choose|j: int| 0 <= j < a.len() && a[j] == x;
                assert(x != k);
                assert(a.drop_last()[j] == x);
            }
        }
        lemma_clients_memory_of_any_order(m, a.drop_last(), less);
    }
}

/// The clients of a reading use one amount of memory, in whatever order they are
/// added up.
pub proof fn law_memory_is_one(b: JsonV, x: u64, y: u64)
    requires
        tells_memory(b, x),
        tells_memory(b, y),
    ensures
        x == y,
{
    if let Some(JsonV::Obj(m)) = readings::at(b, "/clients"@) {
        let p = choose|ks: Seq<Seq<char>>| #[trigger]
            json::lists_keys(ks, m) && x == aggregate::capped_u64(clients_memory(m, ks)) / 1048576;
        let q = choose|ks: Seq<Seq<char>>| #[trigger]
            json::lists_keys(ks, m) && y == aggregate::capped_u64(clients_memory(m, ks)) / 1048576;
        assert forall|k: Seq<char>| p.contains(k) <==> #[trigger] q.contains(k) by {
            assert(p.contains(k) <==> m.dom().contains(k));
        }
        lemma_clients_memory_of_any_order(m, p, q);
    }
}

fn memory_of(body: &Json) -> (r: u64)
    ensures
        tells_memory(body@, r),
{
    let clients = match readings::point(body, "/clients") {
        Some(c) => c,
        None => {
            return 0;
        },
    };
    if !clients.is_object() {
        return 0;
    }
    let ghost m = clients@->Obj_0;
    let keys = json::keys_of(clients);
    let ghost kv = text::views(keys@);
    let mut sum: u64 = 0;
    for i in 0..keys.len()
        invariant
            clients@ == JsonV::Obj(m),
            kv == text::views(keys@),
            json::lists_keys(kv, m),
            sum == aggregate::capped_u64(clients_memory(m, kv.take(i as int))),
    {
        proof {
            assert(kv.take(i as int + 1).drop_last() =~= kv.take(i as int));
            assert(kv[i as int] == keys@[i as int]@);
            assert(kv.contains(kv[i as int]));
        }
        if let Some(c) = clients.get(&keys[i]) {
            let used: Option<u64> = match readings::first2(
                readings::point(c, "/memory/system/total"),
                readings::point(c, "/memory/local/total"),
            ) {
                Some(v) => v.as_u64(),
                None => None,
            };
            if let Some(n) = used {
                sum = if n > u64::MAX - sum {
                    u64::MAX
                } else {
                    sum + n
                };
            }
        }
    }
    assert(kv.take(kv.len() as int) =~= kv);
    util::mb_from_bytes(sum)
}

/// A reading of power in whole watts, where it is not negative and 32 bits hold
/// it.
pub open spec fn watts(v: JsonV) -> Option<u32> {
    match v {
        JsonV::Int(n) => if 0 <= n <= u32::MAX {
            Some(n as u32)
        } else {
            None
        },
        JsonV::Float(t) => if t.len() > 0 && t[0] == '-' {
            None
        } else {
            match readings::number(v, true) {
                Some(n) => if n <= u32::MAX {
                    Some(n as u32)
                } else {
                    None
                },
                None => None,
            }
        },
        _ => None,
    }
}

fn watts_of(v: &Json) -> (r: Option<u32>)
    ensures
        r == watts(v@),
{
    match v {
        Json::UInt(n) => if *n <= 0xffff_ffff {
            Some(*n as u32)
        } else {
            None
        },
        Json::NegInt(n) => if *n >= 0 && *n <= 0xffff_ffff {
            Some(*n as u32)
        } else {
            None
        },
        Json::Float(x) => {
            let t = text::chars_of(&x.to_text());
            if t.len() > 0 && t[0] == '-' {
                return None;
            }
            match readings::number_of(v, true) {
                Some(n) => if n <= 0xffff_ffff {
                    Some(n as u32)
                } else {
                    None
                },
                None => None,
            }
        },
        _ => None,
    }
}

/// The GPU that the reading `b` describes, under the load `load`, with `mb` of
/// memory in use.
pub open spec fn top_device(b: JsonV, load: Option<u8>, mb: u64) -> DeviceV {
    DeviceV {
        index: 0,
        name: match json::str_in(
            readings::either(json::field(b, "name"@), json::field(b, "device"@)),
        ) {
            Some(s) => s,
            None => "Intel GPU"@,
        },
        producer: Some("Intel"@),
        architecture: None,
        driver_version: None,
        pci_bus_id: None,
        utilization_pct: match load {
            Some(n) => n,
            None => 0,
        },
        memory_utilization_pct: None,
        memory_used_mb: mb,
        memory_total_mb: 0,
        temperature_c: match json::str_in(json::field(b, "temperature"@)) {
            Some(t) => util::u8_reading(t),
            None => None,
        },
        power_draw_w: match readings::either(
            readings::at(b, "/power/GPU"@),
            readings::at(b, "/power/gpu"@),
        ) {
            Some(v) => watts(v),
            None => None,
        },
        power_limit_w: None,
        fan_speed_pct: None,
    }
}

fn device_of_top(b: &Json, load: Option<u8>, mb: u64) -> (r: GpuDeviceInfo)
    ensures
        r@ == top_device(b@, load, mb),
{
    let name = match readings::text_of(readings::first2(b.get("name"), b.get("device"))) {
        Some(s) => s,
        None => text::copy("Intel GPU"),
    };
    GpuDeviceInfo {
        index: 0,
        name,
        producer: Some(text::copy("Intel")),
        architecture: None,
        driver_version: None,
        pci_bus_id: None,
        utilization_pct: match load {
            Some(n) => n,
            None => 0,
        },
        memory_utilization_pct: None,
        memory_used_mb: mb,
        memory_total_mb: 0,
        temperature_c: match b.get_str("temperature") {
            Some(t) => util::parse_optional_u8(t),
            None => None,
        },
        power_draw_w: match readings::first2(
            readings::point(b, "/power/GPU"),
            readings::point(b, "/power/gpu"),
        ) {
            Some(v) => watts_of(v),
            None => None,
        },
        power_limit_w: None,
        fan_speed_pct: None,
    }
}

/// Whether `r` is the status that the reading `b` describes under the load
/// `load`.
pub open spec fn tells_top(b: JsonV, load: Option<u8>, r: GpuHostStatus) -> bool {
    exists|mb: u64, now: u64| #[trigger]
        tells_memory(b, mb) && r@ == #[trigger] aggregate::aggregated(
            seq![top_device(b, load, mb)],
            None,
            "intel_gpu_top"@,
            now,
        )
}

/// The status that the reading `body` describes, where its engines are under the
/// load `load`.
pub fn top_status(body: &Json, load: Option<u8>) -> (r: GpuHostStatus)
    ensures
        tells_top(body@, load, r),
{
    let mb: u64 = memory_of(body);
    let d = device_of_top(body, load, mb);
    let mut devices: Vec<GpuDeviceInfo> = Vec::new();
    devices.push(d);
    assert(shared::devices_view(devices@) =~= seq![top_device(body@, load, mb)]);
    aggregate::aggregate_gpu_devices(devices, None, "intel_gpu_top")
}

/// The status that a text of `intel_gpu_top` describes, where its engines are
/// under the load `load`; none where it holds no reading.
pub fn parse_intel_gpu_top_json(t: &str, load: Option<u8>) -> (r: Option<GpuHostStatus>)
    ensures
        match top_body(t@) {
            Some(b) => r matches Some(s) && tells_top(b, load, s),
            None => r is None,
        },
{
    match intel_gpu_top_body(t) {
        Some(b) => Some(top_status(&b, load)),
        None => None,
    }
}

/// What `xpu-smi` says of a GPU is reported: from its statistics the load, the memory,
/// the heat and the power, and from its entry the name.
pub proof fn law_entry_is_reported(
    e: JsonV,
    s: JsonV,
    i: nat,
    total: u64,
    used: u64,
    busy: u8,
    heat: u8,
    power: u32,
)
    requires
        readings::at(s, "/memory_total"@) == Some(JsonV::Int(total as int)),
        readings::at(s, "/memory_used"@) == Some(JsonV::Int(used as int)),
        readings::at(s, "/device_utilization"@) == Some(JsonV::Int(busy as int)),
        readings::at(s, "/gpu_temperature"@) == Some(JsonV::Int(heat as int)),
        readings::at(s, "/power"@) == Some(JsonV::Int(power as int)),
        used <= 1_000_000,
        busy <= 100,
    ensures
        ({
            let d = xpu_device(e, s, i);
            &&& d.memory_total_mb == total
            &&& d.memory_used_mb == used
            &&& d.utilization_pct == busy
            &&& d.temperature_c == Some(heat)
            &&& d.power_draw_w == Some(power)
            &&& d.producer == Some("Intel"@)
            &&& json::field(e, "device_name"@) matches Some(JsonV::Str(name)) ==> d.name == name
        }),
{
}

/// The GPUs of a host are those that `xpu-smi` lists, in their order, each with its own
/// statistics.
pub proof fn law_listed_gpus_are_read(es: Seq<JsonV>, stats: Seq<JsonV>, i: int)
    requires
        0 <= i < es.len(),
    ensures
        xpu_devices(es, stats).len() == es.len(),
        i < stats.len() ==> xpu_devices(es, stats)[i] == xpu_device(es[i], stats[i], i as nat),
        i >= stats.len() ==> xpu_devices(es, stats)[i] == xpu_device(es[i], JsonV::Null, i as nat),
        entries(JsonV::Arr(es)) == Some(es),
{
}

/// What `intel_gpu_top` says of a GPU is reported: its name, the load of its engines, the
/// memory that its clients use, and the power in whole watts.
pub proof fn law_top_is_reported(b: JsonV, load: u8, mb: u64, name: Seq<char>, power: u32)
    requires
        json::field(b, "name"@) == Some(JsonV::Str(name)),
        readings::at(b, "/power/GPU"@) == Some(JsonV::Int(power as int)),
    ensures
        top_device(b, Some(load), mb).name == name,
        top_device(b, Some(load), mb).utilization_pct == load,
        top_device(b, None, mb).utilization_pct == 0,
        top_device(b, Some(load), mb).memory_used_mb == mb,
        top_device(b, Some(load), mb).power_draw_w == Some(power),
        top_device(b, Some(load), mb).producer == Some("Intel"@),
{
}

/// A text of `intel_gpu_top` is read as the JSON that it is, white space around it apart,
/// or else as the first block that ends a line in it.
pub proof fn law_top_text_is_read(
    a: Seq<char>,
    s: Seq<char>,
    c: Seq<char>,
    v: JsonV,
    block: Seq<char>,
    more: Seq<char>,
)
    requires
        text::is_blank(a),
        text::is_blank(c),
        text::is_tight(s),
    ensures
        json::reads_as(s, v) ==> top_body(a + s + c) == Some(v),
        json::json_parse(s) is None && s == block + "}\n"@ + more && block.len() > 0 && block[0]
            == '{' && (forall|i: int| 0 <= i < block.len() ==> !text::match_at(s, "}\n"@, i))
            && json::reads_as(block + "}"@, v) ==> top_body(a + s + c) == Some(v),
{
    text::law_trimming_takes_off_space(a, s, c);
    if json::json_parse(s) is None && s == block + "}\n"@ + more && block.len() > 0 && block[0]
        == '{' && (forall|i: int| 0 <= i < block.len() ==> !text::match_at(s, "}\n"@, i)) {
        reveal_strlit("}\n");
        reveal_strlit("}");
        assert(s[0] == '{');
        assert(text::char_index(s, '{') == Some(0int));
        assert(s.skip(0) =~= s);
        text::lemma_index_of(s, "}\n"@, 0);
        let n = block.len() as int;
        assert(s.subrange(n, n + 2) =~= "}\n"@);
        assert(text::match_at(s, "}\n"@, n));
        let i = text::index_of(s, "}\n"@, 0)->0;
        assert(i == n);
        assert(s.take(n + 1) =~= block + "}"@);
    }
}

/// A GPU goes by the number that it is given, or else by its position.
pub proof fn law_gpu_goes_by_its_number(e: JsonV, n: u64, i: nat)
    requires
        i <= u64::MAX,
    ensures
        json::field(e, "device_id"@) == Some(JsonV::Int(n as int)) ==> device_id(e, i) == n,
        json::field(e, "device_id"@) is None && json::field(e, "deviceId"@) is None && json::field(
            e,
            "id"@,
        ) is None ==> device_id(e, i) == i,
{
}

/// An engine is as busy as it says, as a number or as a text with a percent sign.
pub proof fn law_engine_is_busy_as_it_says(e: JsonV, n: nat)
    requires
        n <= u64::MAX,
    ensures
        json::field(e, "busy"@) == Some(JsonV::Int(n as int)) ==> busy_text(e) == Some(text::dec(n)),
        json::field(e, "busy"@) == Some(JsonV::Str(text::dec(n) + seq!['%'])) ==> busy_text(e)
            == Some(text::dec(n)),
        json::field(e, "busy"@) is None && json::field(e, "busy%"@) is None ==> busy_text(e) is None,
{
    let d = text::dec(n);
    text::lemma_dec_value(n);
    assert(text::is_digit(d[d.len() - 1]));
    text::law_trailing_is_taken_off(d, '%', seq!['%']);
    text::law_number_is_read_back(n, u64::MAX as nat);
}

/// How busy the engines are is told engine by engine; an engine that does not say it is
/// left out.
pub proof fn law_engines_tell_their_load(m: Map<Seq<char>, JsonV>, ks: Seq<Seq<char>>, k: Seq<char>)
    ensures
        busy_texts(m, Seq::<Seq<char>>::empty()).len() == 0,
        busy_text(m[k]) is None ==> busy_texts(m, ks.push(k)) == busy_texts(m, ks),
        busy_text(m[k]) matches Some(t) ==> busy_texts(m, ks.push(k)) == busy_texts(m, ks).push(t),
{
    assert(ks.push(k).drop_last() =~= ks);
}

} // verus!
