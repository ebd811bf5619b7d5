//! What `amd-smi` and `rocm-smi` print.

use crate::gpu::aggregate;
use crate::gpu::readings;
use crate::gpu::util;
use crate::json;
use crate::json::{Json, JsonV};
use crate::shared;
use crate::shared::{DeviceV, GpuDeviceInfo, GpuHostStatus};
use crate::text;
use vstd::prelude::*;

verus! {

/// The entries for GPUs in what `amd-smi` prints.
pub open spec fn entries(b: JsonV) -> Option<Seq<JsonV>> {
    if json::arr_in(Some(b)) is Some {
        json::arr_in(Some(b))
    } else if json::arr_in(json::field(b, "gpus"@)) is Some {
        json::arr_in(json::field(b, "gpus"@))
    } else {
        json::arr_in(json::field(b, "gpu_data"@))
    }
}

/// What an optional list of values says.
pub open spec fn opt_items(o: Option<&Vec<Json>>) -> Option<Seq<JsonV>> {
    match o {
        Some(v) => Some(json::items_view(v@)),
        None => None,
    }
}

fn array_under<'a>(b: &'a Json, k: &str) -> (r: Option<&'a Vec<Json>>)
    ensures
        opt_items(r) == json::arr_in(json::field(b@, k@)),
{
    match b.get(k) {
        Some(v) => v.as_array(),
        None => None,
    }
}

fn entries_of<'a>(b: &'a Json) -> (r: Option<&'a Vec<Json>>)
    ensures
        opt_items(r) == entries(b@),
{
    let own = b.as_array();
    if own.is_some() {
        return own;
    }
    let gpus = array_under(b, "gpus");
    if gpus.is_some() {
        return gpus;
    }
    array_under(b, "gpu_data")
}

/// The number by which an entry names its GPU.
pub open spec fn gpu_id(e: JsonV) -> Option<u64> {
    readings::whole(
        readings::either(
            json::field(e, "gpu"@),
            readings::either(json::field(e, "gpu_id"@), json::field(e, "id"@)),
        ),
    )
}

fn gpu_id_of(e: &Json) -> (r: Option<u64>)
    ensures
        r == gpu_id(e@),
{
    readings::whole_of(
        readings::first2(e.get("gpu"), readings::first2(e.get("gpu_id"), e.get("id"))),
    )
}

/// The first entry for the GPU `id`.
pub open spec fn entry_for(es: Seq<JsonV>, id: u64) -> Option<JsonV>
    decreases es.len(),
{
    if es.len() == 0 {
        None
    } else if gpu_id(es[0]) == Some(id) {
        Some(es[0])
    } else {
        entry_for(es.skip(1), id)
    }
}

fn find_entry<'a>(es: &'a Vec<Json>, id: u64) -> (r: Option<&'a Json>)
    ensures
        json::opt(r) == entry_for(json::items_view(es@), id),
{
    let ghost v = json::items_view(es@);
    assert(v.skip(0) =~= v);
    for i in 0..es.len()
        invariant
            v == json::items_view(es@),
            v.len() == es@.len(),
            entry_for(v, id) == entry_for(v.skip(i as int), id),
    {
        proof {
            assert(v.skip(i as int)[0] == es@[i as int]@);
            assert(v.skip(i as int).skip(1) =~= v.skip(i as int + 1));
        }
        if let Some(n) = gpu_id_of(&es[i]) {
            if n == id {
                return Some(&es[i]);
            }
        }
    }
    None
}

/// What `f` says of a value that is there.
pub open spec fn in_opt<T>(o: Option<JsonV>, f: spec_fn(JsonV) -> Option<T>) -> Option<T> {
    match o {
        Some(v) => f(v),
        None => None,
    }
}

/// The memory in use that a metric gives.
pub open spec fn metric_used(m: JsonV) -> Option<u64> {
    readings::whole(
        readings::either(
            readings::at(m, "/memory/used/vram"@),
            readings::either(readings::at(m, "/vram/used"@), json::field(m, "vram_used"@)),
        ),
    )
}

/// The load that a metric gives.
pub open spec fn metric_load(m: JsonV) -> Option<u64> {
    readings::whole(
        readings::either(
            readings::at(m, "/utilization/gfx"@),
            readings::either(json::field(m, "gpu_utilization"@), json::field(m, "gfx_activity"@)),
        ),
    )
}

/// The temperature that a metric gives.
pub open spec fn metric_temperature(m: JsonV) -> Option<u64> {
    readings::whole(
        readings::either(
            readings::at(m, "/temperature/hotspot"@),
            readings::either(
                readings::at(m, "/temperature/edge"@),
                json::field(m, "temperature"@),
            ),
        ),
    )
}

/// The power that a metric gives.
pub open spec fn metric_power(m: JsonV) -> Option<u64> {
    match readings::either(readings::at(m, "/power/average"@), json::field(m, "power"@)) {
        Some(v) => readings::number(v, true),
        None => None,
    }
}

/// The memory that an entry gives.
pub open spec fn entry_total(e: JsonV) -> u64 {
    readings::or_u64(
        match readings::whole(
            readings::either(
                readings::at(e, "/memory/total/vram"@),
                readings::either(readings::at(e, "/vram/total"@), json::field(e, "vram_total"@)),
            ),
        ) {
            Some(n) => Some(readings::mem_mb(n)),
            None => None,
        },
        0,
    )
}

/// The name that an entry gives.
pub open spec fn entry_name(e: JsonV) -> Seq<char> {
    match json::str_in(
        readings::either(
            json::field(e, "card_series"@),
            readings::either(
                json::field(e, "card_model"@),
                readings::either(json::field(e, "name"@), json::field(e, "product_name"@)),
            ),
        ),
    ) {
        Some(s) => s,
        None => "AMD GPU"@,
    }
}

/// The position `i` as the number of a GPU.
pub open spec fn number_at(i: nat) -> u8 {
    if i > 255 {
        255
    } else {
        i as u8
    }
}

/// The position `i` as the number of a GPU.
pub fn number_of(i: usize) -> (r: u8)
    ensures
        r == number_at(i as nat),
{
    if i > 255 {
        255
    } else {
        i as u8
    }
}

/// The metric that goes with the entry `e` at `i`.
pub open spec fn metric_for(ms: Option<Seq<JsonV>>, e: JsonV, i: nat) -> Option<JsonV> {
    let id = match gpu_id(e) {
        Some(n) => n,
        None => i as u64,
    };
    match ms {
        Some(s) => entry_for(s, id),
        None => None,
    }
}

/// The GPU that the entry `e` at `i` and its metric `m` describe.
pub open spec fn entry_device(e: JsonV, m: Option<JsonV>, i: nat) -> DeviceV {
    let name = entry_name(e);
    let total = entry_total(e);
    let used = match in_opt(m, |v: JsonV| metric_used(v)) {
        Some(n) => readings::mem_mb(n),
        None => 0,
    };
    DeviceV {
        index: number_at(i),
        name,
        producer: Some("AMD"@),
        architecture: util::amd_architecture(
            name,
            json::str_in(
                readings::either(json::field(e, "gfx_version"@), json::field(e, "gfx"@)),
            ),
        ),
        driver_version: json::str_in(
            readings::either(json::field(e, "driver_version"@), json::field(e, "driver"@)),
        ),
        pci_bus_id: json::str_in(
            readings::either(json::field(e, "bdf"@), json::field(e, "pci_bdf"@)),
        ),
        utilization_pct: readings::load(
            readings::or_u64(in_opt(m, |v: JsonV| metric_load(v)), 0),
        ),
        memory_utilization_pct: if total > 0 {
            Some(util::percent(used as nat, total as nat))
        } else {
            None
        },
        memory_used_mb: used,
        memory_total_mb: total,
        temperature_c: match in_opt(m, |v: JsonV| metric_temperature(v)) {
            Some(t) => Some(readings::byte(t)),
            None => None,
        },
        power_draw_w: match in_opt(m, |v: JsonV| metric_power(v)) {
            Some(p) => Some(aggregate::capped_u32(p as nat)),
            None => None,
        },
        power_limit_w: None,
        fan_speed_pct: None,
    }
}

/// The GPUs that the entries and the metrics describe.
pub open spec fn entry_devices(es: Seq<JsonV>, ms: Option<Seq<JsonV>>) -> Seq<DeviceV> {
    Seq::new(
        es.len(),
        |i: int| entry_device(es[i], metric_for(ms, es[i], i as nat), i as nat),
    )
}

fn cap32(n: u64) -> (r: u32)
    ensures
        r == aggregate::capped_u32(n as nat),
{
    if n > 0xffff_ffff {
        0xffff_ffff
    } else {
        n as u32
    }
}

struct Metric {
    used: Option<u64>,
    load: Option<u64>,
    temperature: Option<u64>,
    power: Option<u64>,
}

fn read_metric(m: Option<&Json>) -> (r: Metric)
    ensures
        r.used == in_opt(json::opt(m), |v: JsonV| metric_used(v)),
        r.load == in_opt(json::opt(m), |v: JsonV| metric_load(v)),
        r.temperature == in_opt(json::opt(m), |v: JsonV| metric_temperature(v)),
        r.power == in_opt(json::opt(m), |v: JsonV| metric_power(v)),
{
    match m {
        Some(m) => Metric {
            used: readings::whole_of(
                readings::first2(
                    readings::point(m, "/memory/used/vram"),
                    readings::first2(readings::point(m, "/vram/used"), m.get("vram_used")),
                ),
            ),
            load: readings::whole_of(
                readings::first2(
                    readings::point(m, "/utilization/gfx"),
                    readings::first2(m.get("gpu_utilization"), m.get("gfx_activity")),
                ),
            ),
            temperature: readings::whole_of(
                readings::first2(
                    readings::point(m, "/temperature/hotspot"),
                    readings::first2(
                        readings::point(m, "/temperature/edge"),
                        m.get("temperature"),
                    ),
                ),
            ),
            power: match readings::first2(readings::point(m, "/power/average"), m.get("power")) {
                Some(v) => readings::number_of(v, true),
                None => None,
            },
        },
        None => Metric { used: None, load: None, temperature: None, power: None },
    }
}

fn entry_total_of(e: &Json) -> (r: u64)
    ensures
        r == entry_total(e@),
{
    match readings::whole_of(
        readings::first2(
            readings::point(e, "/memory/total/vram"),
            readings::first2(readings::point(e, "/vram/total"), e.get("vram_total")),
        ),
    ) {
        Some(n) => readings::normalize_mem_to_mb(n),
        None => 0,
    }
}

fn device_of_entry(e: &Json, m: Option<&Json>, i: usize) -> (r: GpuDeviceInfo)
    ensures
        r@ == entry_device(e@, json::opt(m), i as nat),
{
    let name = match readings::text_of(
        readings::first2(
            e.get("card_series"),
            readings::first2(
                e.get("card_model"),
                readings::first2(e.get("name"), e.get("product_name")),
            ),
        ),
    ) {
        Some(s) => s,
        None => text::copy("AMD GPU"),
    };
    let gfx = match readings::first2(e.get("gfx_version"), e.get("gfx")) {
        Some(v) => v.as_str(),
        None => None,
    };
    let metric = read_metric(m);
    let total: u64 = entry_total_of(e);
    let used: u64 = match metric.used {
        Some(n) => readings::normalize_mem_to_mb(n),
        None => 0,
    };
    let load: u64 = match metric.load {
        Some(n) => n,
        None => 0,
    };
    let architecture = util::amd_architecture_label(&name, gfx);
    GpuDeviceInfo {
        index: number_of(i),
        name,
        producer: Some(text::copy("AMD")),
        architecture,
        driver_version: readings::text_of(
            readings::first2(e.get("driver_version"), e.get("driver")),
        ),
        pci_bus_id: readings::text_of(readings::first2(e.get("bdf"), e.get("pci_bdf"))),
        utilization_pct: readings::load_of(load),
        memory_utilization_pct: if total > 0 {
            Some(util::pct_from_used_total(used, total))
        } else {
            None
        },
        memory_used_mb: used,
        memory_total_mb: total,
        temperature_c: match metric.temperature {
            Some(t) => Some(readings::byte_of(t)),
            None => None,
        },
        power_draw_w: match metric.power {
            Some(p) => Some(cap32(p)),
            None => None,
        },
        power_limit_w: None,
        fan_speed_pct: None,
    }
}

/// The status that the entries of `amd-smi static` and the metrics of
/// `amd-smi metric` describe; none where there is no entry.
pub fn parse_amd_smi_json(static_body: &Json, metric_body: &Json) -> (r: Option<GpuHostStatus>)
    ensures
        match entries(static_body@) {
            Some(es) => aggregate::tells(
                r,
                entry_devices(es, entries(metric_body@)),
                None,
                "amd-smi"@,
            ),
            None => r is None,
        },
{
    let es = match entries_of(static_body) {
        Some(es) => es,
        None => {
            return None;
        },
    };
    let ms = entries_of(metric_body);
    let ghost ev = json::items_view(es@);
    let ghost mv = entries(metric_body@);
    let ghost all = entry_devices(ev, mv);
    let mut devices: Vec<GpuDeviceInfo> = Vec::new();
    assert(shared::devices_view(devices@) =~= all.take(0));
    for i in 0..es.len()
        invariant
            ev == json::items_view(es@),
            ev.len() == es@.len(),
            mv == opt_items(ms),
            all == entry_devices(ev, mv),
            shared::devices_view(devices@) == all.take(i as int),
    {
        let id: u64 = match gpu_id_of(&es[i]) {
            Some(n) => n,
            None => i as u64,
        };
        let metric = match ms {
            Some(v) => find_entry(v, id),
            None => None,
        };
        let d = device_of_entry(&es[i], metric, i);
        proof {
            shared::lemma_devices_push(devices@, d);
            assert(all.take(i as int + 1) =~= all.take(i as int).push(d@));
        }
        devices.push(d);
    }
    assert(all.take(all.len() as int) =~= all);
    aggregate::status_of(devices, None, "amd-smi")
}

/// The status that the texts of `amd-smi static` and of `amd-smi metric`, where
/// it printed one, describe; none where the first holds no entry. A second text
/// that is no JSON counts as none.
pub fn probe_amd_smi_json(static_text: &str, metric_text: Option<&str>) -> (r: Option<
    GpuHostStatus,
>)
    ensures
        match json::json_parse(static_text@) {
            Some(b) => match entries(b) {
                Some(es) => aggregate::tells(
                    r,
                    entry_devices(es, entries(metrics_in(json::opt_str(metric_text)))),
                    None,
                    "amd-smi"@,
                ),
                None => r is None,
            },
            None => r is None,
        },
{
    let static_body = match json::parse(static_text) {
        Some(b) => b,
        None => {
            return None;
        },
    };
    let metric_body = match metric_text {
        Some(t) => if t.is_empty() {
            Json::Null
        } else {
            match json::parse(t) {
                Some(b) => b,
                None => Json::Null,
            }
        },
        None => Json::Null,
    };
    parse_amd_smi_json(&static_body, &metric_body)
}

/// The metrics in a text.
pub open spec fn metrics_in(t: Option<Seq<char>>) -> JsonV {
    match t {
        Some(t) => if t.len() == 0 {
            JsonV::Null
        } else {
            match json::json_parse(t) {
                Some(b) => b,
                None => JsonV::Null,
            }
        },
        None => JsonV::Null,
    }
}

/// The reading up to 255 in the field at `i`.
pub open spec fn u8_at(p: Seq<Seq<char>>, i: int) -> Option<u8> {
    if i < p.len() {
        util::u8_reading(p[i])
    } else {
        None
    }
}

/// The 32-bit reading in the field at `i`.
pub open spec fn u32_at(p: Seq<Seq<char>>, i: int) -> Option<u32> {
    if i < p.len() {
        util::u32_reading(p[i])
    } else {
        None
    }
}

/// The number in the field at `i`.
pub open spec fn u64_at(p: Seq<Seq<char>>, i: int) -> Option<u64> {
    if i < p.len() {
        match text::parsed(p[i], u64::MAX as nat) {
            Some(n) => Some(n as u64),
            None => None,
        }
    } else {
        None
    }
}

fn read_u8(p: &Vec<String>, i: usize) -> (r: Option<u8>)
    ensures
        r == u8_at(text::views(p@), i as int),
{
    if i < p.len() {
        assert(text::views(p@)[i as int] == p@[i as int]@);
        util::parse_optional_u8(&p[i])
    } else {
        None
    }
}

fn read_u32(p: &Vec<String>, i: usize) -> (r: Option<u32>)
    ensures
        r == u32_at(text::views(p@), i as int),
{
    if i < p.len() {
        assert(text::views(p@)[i as int] == p@[i as int]@);
        util::parse_optional_u32(&p[i])
    } else {
        None
    }
}

fn read_u64(p: &Vec<String>, i: usize) -> (r: Option<u64>)
    ensures
        r == u64_at(text::views(p@), i as int),
{
    if i < p.len() {
        assert(text::views(p@)[i as int] == p@[i as int]@);
        text::parse_up_to(&p[i], u64::MAX)
    } else {
        None
    }
}

/// The card that the first field of a row names.
pub open spec fn card_of(f: Seq<char>) -> Seq<char> {
    text::trimmed(text::strip_prefixes(f, "card"@))
}

/// Whether a row of `rocm-smi` describes a GPU.
pub open spec fn describes_card(row: Seq<char>) -> bool {
    let p = text::fields_of(row, ',');
    let card = card_of(p[0]);
    &&& !text::starts(row, "card,"@)
    &&& text::ascii_lower(row) != text::ascii_lower("card, gpu use (%),"@)
    &&& p.len() >= 2
    &&& card.len() > 0
    &&& text::ascii_lower(card) != text::ascii_lower("card"@)
}

/// The GPU that the row at `i` of `rocm-smi` describes.
pub open spec fn card_device(row: Seq<char>, i: nat) -> DeviceV {
    let p = text::fields_of(row, ',');
    let name = if p.len() > 5 {
        p[5]
    } else {
        "AMD GPU "@ + card_of(p[0])
    };
    DeviceV {
        index: number_at(i),
        name,
        producer: Some("AMD"@),
        architecture: util::amd_architecture(name, None),
        driver_version: None,
        pci_bus_id: None,
        utilization_pct: match u8_at(p, 1) {
            Some(n) => n,
            None => 0,
        },
        memory_utilization_pct: u8_at(p, 2),
        memory_used_mb: 0,
        memory_total_mb: 0,
        temperature_c: u8_at(p, 3),
        power_draw_w: u32_at(p, 4),
        power_limit_w: None,
        fan_speed_pct: None,
    }
}

/// The GPUs that the rows of `rocm-smi` describe.
pub open spec fn card_devices(rows: Seq<Seq<char>>) -> Seq<DeviceV>
    decreases rows.len(),
{
    if rows.len() == 0 {
        Seq::empty()
    } else {
        let before = card_devices(rows.drop_last());
        if describes_card(rows.last()) {
            before.push(card_device(rows.last(), (rows.len() - 1) as nat))
        } else {
            before
        }
    }
}

fn device_of_card(row: &str, i: usize) -> (r: Option<GpuDeviceInfo>)
    ensures
        match r {
            Some(d) => describes_card(row@) && d@ == card_device(row@, i as nat),
            None => !describes_card(row@),
        },
{
    let p = text::fields(row, ',');
    let ghost v = text::views(p@);
    assert(v.len() == p@.len() && v[0] == p@[0]@);
    if text::starts_with(row, "card,") || text::eq_ignore_ascii_case(row, "card, gpu use (%),")
        || p.len() < 2 {
        return None;
    }
    let card = text::trim(&text::trim_start_matches(&p[0], "card"));
    if card.as_str().is_empty() || text::eq_ignore_ascii_case(&card, "card") {
        return None;
    }
    let name = if p.len() > 5 {
        assert(v[5] == p@[5]@);
        text::copy(&p[5])
    } else {
        text::concat2("AMD GPU ", &card)
    };
    let architecture = util::amd_architecture_label(&name, None);
    Some(
        GpuDeviceInfo {
            index: number_of(i),
            name,
            producer: Some(text::copy("AMD")),
            architecture,
            driver_version: None,
            pci_bus_id: None,
            utilization_pct: match read_u8(&p, 1) {
                Some(n) => n,
                None => 0,
            },
            memory_utilization_pct: read_u8(&p, 2),
            memory_used_mb: 0,
            memory_total_mb: 0,
            temperature_c: read_u8(&p, 3),
            power_draw_w: read_u32(&p, 4),
            power_limit_w: None,
            fan_speed_pct: None,
        },
    )
}

/// The card, the used and the total bytes that a row on memory gives.
pub open spec fn memory_row(row: Seq<char>) -> Option<(nat, u64, u64)> {
    let p = text::fields_of(row, ',');
    if text::starts(row, "card,"@) || p.len() < 4 {
        None
    } else {
        match (text::parsed(card_of(p[0]), usize::MAX as nat), u64_at(p, 2), u64_at(p, 3)) {
            (Some(i), Some(used), Some(total)) => Some((i, used, total)),
            _ => None,
        }
    }
}

/// The GPU `d` with its memory known.
pub open spec fn with_memory(d: DeviceV, used: u64, total: u64) -> DeviceV {
    let used_mb = used / 1048576;
    let total_mb = total / 1048576;
    DeviceV {
        memory_used_mb: used_mb,
        memory_total_mb: total_mb,
        memory_utilization_pct: Some(util::percent(used_mb as nat, total_mb as nat)),
        ..d
    }
}

/// The GPUs `d` with the memory that the rows give; a later row of a card wins.
pub open spec fn enriched(d: Seq<DeviceV>, rows: Seq<Seq<char>>) -> Seq<DeviceV>
    decreases rows.len(),
{
    if rows.len() == 0 {
        d
    } else {
        let before = enriched(d, rows.drop_last());
        match memory_row(rows.last()) {
            Some((i, used, total)) => if i < before.len() {
                before.update(i as int, with_memory(before[i as int], used, total))
            } else {
                before
            },
            None => before,
        }
    }
}

fn read_memory_row(row: &str) -> (r: Option<(usize, u64, u64)>)
    ensures
        match r {
            Some((i, used, total)) => memory_row(row@) == Some((i as nat, used, total)),
            None => memory_row(row@) is None,
        },
{
    let p = text::fields(row, ',');
    assert(text::views(p@).len() == p@.len() && text::views(p@)[0] == p@[0]@);
    if text::starts_with(row, "card,") || p.len() < 4 {
        return None;
    }
    let card = text::trim(&text::trim_start_matches(&p[0], "card"));
    match (text::parse_up_to(&card, usize::MAX as u64), read_u64(&p, 2), read_u64(&p, 3)) {
        (Some(i), Some(used), Some(total)) => Some((i as usize, used, total)),
        _ => None,
    }
}

/// Puts the memory that `mem_text` gives into `devices`.
pub fn enrich_rocm_memory(devices: &mut Vec<GpuDeviceInfo>, mem_text: &str)
    ensures
        shared::devices_view(final(devices)@) == enriched(
            shared::devices_view(old(devices)@),
            text::rows_of(mem_text@),
        ),
{
    let rows = text::rows(mem_text);
    let ghost rv = text::rows_of(mem_text@);
    let ghost d0 = shared::devices_view(devices@);
    for i in 0..rows.len()
        invariant
            text::views(rows@) == rv,
            shared::devices_view(devices@) == enriched(d0, rv.take(i as int)),
    {
        proof {
            assert(rv.take(i as int + 1).drop_last() =~= rv.take(i as int));
            assert(rv.take(i as int + 1).last() == rows@[i as int]@);
            assert(shared::devices_view(devices@).len() == devices@.len());
        }
        if let Some((k, used, total)) = read_memory_row(&rows[i]) {
            if k < devices.len() {
                let mut d = devices[k].copy();
                let used_mb: u64 = util::mb_from_bytes(used);
                let total_mb: u64 = util::mb_from_bytes(total);
                d.memory_used_mb = used_mb;
                d.memory_total_mb = total_mb;
                d.memory_utilization_pct = Some(util::pct_from_used_total(used_mb, total_mb));
                let ghost before = devices@;
                devices.set(k, d);
                assert(shared::devices_view(devices@) =~= shared::devices_view(before).update(
                    k as int,
                    d@,
                ));
            }
        }
    }
    assert(rv.take(rv.len() as int) =~= rv);
}

/// The status that the text of `rocm-smi`, and its text on memory where it
/// printed one, describe; none where no row describes a GPU.
pub fn parse_rocm_smi_csv(csv: &str, mem_text: Option<&str>) -> (r: Option<GpuHostStatus>)
    ensures
        aggregate::tells(
            r,
            match mem_text {
                Some(m) => enriched(card_devices(text::rows_of(csv@)), text::rows_of(m@)),
                None => card_devices(text::rows_of(csv@)),
            },
            None,
            "rocm-smi"@,
        ),
{
    let rows = text::rows(csv);
    let ghost rv = text::rows_of(csv@);
    let mut devices: Vec<GpuDeviceInfo> = Vec::new();
    assert(shared::devices_view(devices@) =~= card_devices(rv.take(0)));
    for i in 0..rows.len()
        invariant
            text::views(rows@) == rv,
            shared::devices_view(devices@) == card_devices(rv.take(i as int)),
    {
        proof {
            assert(rv.take(i as int + 1).drop_last() =~= rv.take(i as int));
            assert(rv.take(i as int + 1).last() == rows@[i as int]@);
        }
        if let Some(d) = device_of_card(&rows[i], i) {
            proof {
                shared::lemma_devices_push(devices@, d);
            }
            devices.push(d);
        }
    }
    assert(rv.take(rv.len() as int) =~= rv);
    if let Some(m) = mem_text {
        enrich_rocm_memory(&mut devices, m);
    }
    aggregate::status_of(devices, None, "rocm-smi")
}

/// Whether a row of `amd-smi monitor` describes a GPU.
pub open spec fn describes_gpu(row: Seq<char>) -> bool {
    !text::starts(row, "gpu,"@) && !text::starts(row, "GPU,"@) && text::fields_of(
        row,
        ',',
    ).len() >= 4
}

/// The GPU that the row at `i` of `amd-smi monitor` describes.
pub open spec fn monitor_device(row: Seq<char>, i: nat) -> DeviceV {
    let p = text::fields_of(row, ',');
    let name = "AMD GPU "@ + p[0];
    let used = readings::or_u64(u64_at(p, 4), 0);
    let total = readings::or_u64(u64_at(p, 5), 0);
    DeviceV {
        index: number_at(i),
        name,
        producer: Some("AMD"@),
        architecture: util::amd_architecture(name, None),
        driver_version: None,
        pci_bus_id: None,
        utilization_pct: match u8_at(p, 2) {
            Some(n) => n,
            None => 0,
        },
        memory_utilization_pct: if total > 0 {
            Some(util::percent(used as nat, total as nat))
        } else {
            None
        },
        memory_used_mb: used,
        memory_total_mb: total,
        temperature_c: u8_at(p, 3),
        power_draw_w: u32_at(p, 1),
        power_limit_w: None,
        fan_speed_pct: None,
    }
}

/// The GPUs that the rows of `amd-smi monitor` describe.
pub open spec fn monitor_devices(rows: Seq<Seq<char>>) -> Seq<DeviceV>
    decreases rows.len(),
{
    if rows.len() == 0 {
        Seq::empty()
    } else {
        let before = monitor_devices(rows.drop_last());
        if describes_gpu(rows.last()) {
            before.push(monitor_device(rows.last(), (rows.len() - 1) as nat))
        } else {
            before
        }
    }
}

fn device_of_monitor(row: &str, i: usize) -> (r: Option<GpuDeviceInfo>)
    ensures
        match r {
            Some(d) => describes_gpu(row@) && d@ == monitor_device(row@, i as nat),
            None => !describes_gpu(row@),
        },
{
    let p = text::fields(row, ',');
    assert(text::views(p@).len() == p@.len() && text::views(p@)[0] == p@[0]@);
    if text::starts_with(row, "gpu,") || text::starts_with(row, "GPU,") || p.len() < 4 {
        return None;
    }
    let name = text::concat2("AMD GPU ", &p[0]);
    let used: u64 = match read_u64(&p, 4) {
        Some(n) => n,
        None => 0,
    };
    let total: u64 = match read_u64(&p, 5) {
        Some(n) => n,
        None => 0,
    };
    let architecture = util::amd_architecture_label(&name, None);
    Some(
        GpuDeviceInfo {
            index: number_of(i),
            name,
            producer: Some(text::copy("AMD")),
            architecture,
            driver_version: None,
            pci_bus_id: None,
            utilization_pct: match read_u8(&p, 2) {
                Some(n) => n,
                None => 0,
            },
            memory_utilization_pct: if total > 0 {
                Some(util::pct_from_used_total(used, total))
            } else {
                None
            },
            memory_used_mb: used,
            memory_total_mb: total,
            temperature_c: read_u8(&p, 3),
            power_draw_w: read_u32(&p, 1),
            power_limit_w: None,
            fan_speed_pct: None,
        },
    )
}

/// The status that the text of `amd-smi monitor` describes; none where no row
/// describes a GPU.
pub fn parse_amd_monitor_csv(csv: &str, source: &str) -> (r: Option<GpuHostStatus>)
    ensures
        aggregate::tells(r, monitor_devices(text::rows_of(csv@)), None, source@),
{
    let rows = text::rows(csv);
    let ghost rv = text::rows_of(csv@);
    let mut devices: Vec<GpuDeviceInfo> = Vec::new();
    assert(shared::devices_view(devices@) =~= monitor_devices(rv.take(0)));
    for i in 0..rows.len()
        invariant
            text::views(rows@) == rv,
            shared::devices_view(devices@) == monitor_devices(rv.take(i as int)),
    {
        proof {
            assert(rv.take(i as int + 1).drop_last() =~= rv.take(i as int));
            assert(rv.take(i as int + 1).last() == rows@[i as int]@);
        }
        if let Some(d) = device_of_monitor(&rows[i], i) {
            proof {
                shared::lemma_devices_push(devices@, d);
            }
            devices.push(d);
        }
    }
    assert(rv.take(rv.len() as int) =~= rv);
    aggregate::status_of(devices, None, source)
}

/// The GPUs that the text of `amd-smi static`, where it printed one, and that of
/// `amd-smi metric` describe.
pub open spec fn told_devices(
    static_text: Option<Seq<char>>,
    metric_text: Option<Seq<char>>,
) -> Seq<DeviceV> {
    match static_text {
        Some(t) => match json::json_parse(t) {
            Some(b) => match entries(b) {
                Some(es) => entry_devices(es, entries(metrics_in(metric_text))),
                None => Seq::empty(),
            },
            None => Seq::empty(),
        },
        None => Seq::empty(),
    }
}

/// The status that the tool `amd-smi` tells: by its two JSON texts, or else by
/// the table that its monitor printed.
pub fn probe_amd_smi(
    static_text: Option<&str>,
    metric_text: Option<&str>,
    monitor_csv: Option<&str>,
) -> (r: Option<GpuHostStatus>)
    ensures
        ({
            let told = told_devices(json::opt_str(static_text), json::opt_str(metric_text));
            aggregate::tells(
                r,
                if told.len() > 0 {
                    told
                } else {
                    match monitor_csv {
                        Some(csv) => monitor_devices(text::rows_of(csv@)),
                        None => Seq::empty(),
                    }
                },
                None,
                "amd-smi"@,
            )
        }),
{
    if let Some(t) = static_text {
        let told = probe_amd_smi_json(t, metric_text);
        if told.is_some() {
            return told;
        }
    }
    match monitor_csv {
        Some(csv) => parse_amd_monitor_csv(csv, "amd-smi"),
        None => None,
    }
}

/// What `amd-smi` says of a GPU is reported: the memory it has, and, from the metric
/// that goes with it, the memory in use, the load, the heat and the power.
pub proof fn law_entry_is_reported(
    e: JsonV,
    m: JsonV,
    i: nat,
    total: u64,
    used: u64,
    busy: u8,
    heat: u8,
    power: u32,
)
    requires
        readings::at(e, "/memory/total/vram"@) == Some(JsonV::Int(total as int)),
        readings::at(m, "/memory/used/vram"@) == Some(JsonV::Int(used as int)),
        readings::at(m, "/utilization/gfx"@) == Some(JsonV::Int(busy as int)),
        readings::at(m, "/temperature/hotspot"@) == Some(JsonV::Int(heat as int)),
        readings::at(m, "/power/average"@) == Some(JsonV::Int(power as int)),
        total <= 1_000_000,
        used <= 1_000_000,
        busy <= 100,
    ensures
        ({
            let d = entry_device(e, Some(m), i);
            &&& d.memory_total_mb == total
            &&& d.memory_used_mb == used
            &&& d.utilization_pct == busy
            &&& d.temperature_c == Some(heat)
            &&& d.power_draw_w == Some(power)
            &&& d.producer == Some("AMD"@)
            &&& i <= 255 ==> d.index == i
            &&& json::field(e, "card_series"@) matches Some(JsonV::Str(name)) ==> d.name == name
        }),
{
}

/// A GPU goes with the first metric under its own number, and without a number with
/// that under its position.
pub proof fn law_metric_goes_with_its_gpu(ms: Seq<JsonV>, k: int, e: JsonV, id: u64, i: nat)
    requires
        0 <= k < ms.len(),
        json::field(e, "gpu"@) == Some(JsonV::Int(id as int)),
        json::field(ms[k], "gpu"@) == Some(JsonV::Int(id as int)),
        forall|j: int| 0 <= j < k ==> gpu_id(#[trigger] ms[j]) != Some(id),
    ensures
        metric_for(Some(ms), e, i) == Some(ms[k]),
{
    lemma_entry_for(ms, k, id);
}

proof fn lemma_entry_for(es: Seq<JsonV>, k: int, id: u64)
    requires
        0 <= k < es.len(),
        gpu_id(es[k]) == Some(id),
        forall|j: int| 0 <= j < k ==> gpu_id(#[trigger] es[j]) != Some(id),
    ensures
        entry_for(es, id) == Some(es[k]),
    decreases k,
{
    if k > 0 {
        let rest = es.skip(1);
        assert(rest[k - 1] == es[k]);
        assert(gpu_id(es[0]) != Some(id));
        assert forall|j: int| 0 <= j < k - 1 implies gpu_id(#[trigger] rest[j]) != Some(id) by {
            assert(rest[j] == es[j + 1]);
        }
        lemma_entry_for(rest, k - 1, id);
    }
}

/// Memory that `rocm-smi` reports for one card is that card's, in whole megabytes; the
/// others stay, and so does everything else of it.
pub proof fn law_memory_goes_to_its_card(
    d: Seq<DeviceV>,
    rows: Seq<Seq<char>>,
    row: Seq<char>,
    i: nat,
    used: u64,
    total: u64,
)
    requires
        memory_row(row) == Some((i, used, total)),
        i < d.len(),
    ensures
        ({
            let before = enriched(d, rows);
            let after = enriched(d, rows.push(row));
            &&& before.len() == d.len()
            &&& after.len() == d.len()
            &&& forall|k: int| 0 <= k < d.len() && k != i ==> #[trigger] after[k] == before[k]
            &&& after[i as int].memory_total_mb * 1048576 <= total < (
            after[i as int].memory_total_mb + 1) * 1048576
            &&& after[i as int].memory_used_mb * 1048576 <= used < (after[i as int].memory_used_mb
                + 1) * 1048576
            &&& after[i as int].name == before[i as int].name
            &&& after[i as int].temperature_c == before[i as int].temperature_c
            &&& after[i as int].utilization_pct == before[i as int].utilization_pct
        }),
{
    assert(rows.push(row).drop_last() =~= rows);
    lemma_enriched_len(d, rows);
}

proof fn lemma_enriched_len(d: Seq<DeviceV>, rows: Seq<Seq<char>>)
    ensures
        enriched(d, rows).len() == d.len(),
    decreases rows.len(),
{
    if rows.len() > 0 {
        lemma_enriched_len(d, rows.drop_last());
    }
}

/// Every GPU that `amd-smi` lists is one of the host, in the order of the list, with the
/// metric that goes with it.
pub proof fn law_listed_gpus_are_read(es: Seq<JsonV>, ms: Seq<JsonV>, i: int)
    requires
        0 <= i < es.len(),
    ensures
        entry_devices(es, Some(ms)).len() == es.len(),
        entry_devices(es, Some(ms))[i] == entry_device(
            es[i],
            metric_for(Some(ms), es[i], i as nat),
            i as nat,
        ),
        entries(JsonV::Arr(es)) == Some(es),
{
}

/// A row of `rocm-smi` is read as it was written: the load, the memory's share, the heat,
/// the power and the name of the card.
pub proof fn law_card_is_read_back(
    row: Seq<char>,
    i: nat,
    load: u8,
    memory: u8,
    heat: u8,
    power: u32,
)
    requires
        text::fields_of(row, ',').len() > 5,
        text::fields_of(row, ',')[1] == text::dec(load as nat),
        text::fields_of(row, ',')[2] == text::dec(memory as nat),
        text::fields_of(row, ',')[3] == text::dec(heat as nat),
        text::fields_of(row, ',')[4] == text::dec(power as nat),
    ensures
        ({
            let d = card_device(row, i);
            &&& d.name == text::fields_of(row, ',')[5]
            &&& d.utilization_pct == load
            &&& d.memory_utilization_pct == Some(memory)
            &&& d.temperature_c == Some(heat)
            &&& d.power_draw_w == Some(power)
            &&& d.producer == Some("AMD"@)
            &&& i <= 255 ==> d.index == i
        }),
{
    let p = text::fields_of(row, ',');
    let none = Seq::<char>::empty();
    util::law_reading_is_read_back(none, load as nat, none);
    util::law_reading_is_read_back(none, memory as nat, none);
    util::law_reading_is_read_back(none, heat as nat, none);
    util::law_reading_is_read_back(none, power as nat, none);
    assert(none + p[1] + none =~= p[1]);
    assert(none + p[2] + none =~= p[2]);
    assert(none + p[3] + none =~= p[3]);
    assert(none + p[4] + none =~= p[4]);
}

/// A row of the monitor of `amd-smi` is read as it was written: the power, the load, the
/// heat, and the memory in use and in all.
pub proof fn law_monitored_gpu_is_read_back(
    row: Seq<char>,
    i: nat,
    power: u32,
    load: u8,
    heat: u8,
    used: u64,
    total: u64,
)
    requires
        text::fields_of(row, ',').len() > 5,
        text::fields_of(row, ',')[1] == text::dec(power as nat),
        text::fields_of(row, ',')[2] == text::dec(load as nat),
        text::fields_of(row, ',')[3] == text::dec(heat as nat),
        text::fields_of(row, ',')[4] == text::dec(used as nat),
        text::fields_of(row, ',')[5] == text::dec(total as nat),
    ensures
        ({
            let d = monitor_device(row, i);
            &&& d.power_draw_w == Some(power)
            &&& d.utilization_pct == load
            &&& d.temperature_c == Some(heat)
            &&& d.memory_used_mb == used
            &&& d.memory_total_mb == total
            &&& d.producer == Some("AMD"@)
        }),
{
    let p = text::fields_of(row, ',');
    let none = Seq::<char>::empty();
    util::law_reading_is_read_back(none, power as nat, none);
    util::law_reading_is_read_back(none, load as nat, none);
    util::law_reading_is_read_back(none, heat as nat, none);
    text::law_number_is_read_back(used as nat, u64::MAX as nat);
    text::law_number_is_read_back(total as nat, u64::MAX as nat);
    assert(none + p[1] + none =~= p[1]);
    assert(none + p[2] + none =~= p[2]);
    assert(none + p[3] + none =~= p[3]);
}

/// Every row that describes a card or a GPU is one, in the order of the rows, and a head
/// line or a row that is too short is none.
pub proof fn law_rows_are_gpus(rows: Seq<Seq<char>>, row: Seq<char>)
    ensures
        card_devices(Seq::<Seq<char>>::empty()).len() == 0,
        monitor_devices(Seq::<Seq<char>>::empty()).len() == 0,
        describes_card(row) ==> card_devices(rows.push(row)) == card_devices(rows).push(
            card_device(row, rows.len()),
        ),
        !describes_card(row) ==> card_devices(rows.push(row)) == card_devices(rows),
        describes_gpu(row) ==> monitor_devices(rows.push(row)) == monitor_devices(rows).push(
            monitor_device(row, rows.len()),
        ),
        !describes_gpu(row) ==> monitor_devices(rows.push(row)) == monitor_devices(rows),
        text::starts(row, "card,"@) ==> !describes_card(row),
        text::starts(row, "gpu,"@) || text::starts(row, "GPU,"@) ==> !describes_gpu(row),
        text::fields_of(row, ',').len() < 4 ==> !describes_gpu(row),
        text::fields_of(row, ',').len() >= 4 && !text::starts(row, "gpu,"@) && !text::starts(
            row,
            "GPU,"@,
        ) ==> describes_gpu(row),
{
    assert(rows.push(row).drop_last() =~= rows);
}

/// The memory of a GPU counts wherever its entry gives it; the place of the newer tool
/// counts first.
pub proof fn law_memory_is_found_elsewhere(e: JsonV, total: u64)
    requires
        total <= 1_000_000,
        readings::at(e, "/memory/total/vram"@) is None,
    ensures
        readings::at(e, "/vram/total"@) == Some(JsonV::Int(total as int)) ==> entry_total(e) == total,
        readings::at(e, "/vram/total"@) is None && json::field(e, "vram_total"@) == Some(
            JsonV::Int(total as int),
        ) ==> entry_total(e) == total,
        readings::at(e, "/vram/total"@) is None && json::field(e, "vram_total"@) is None
            ==> entry_total(e) == 0,
{
}

/// What the two texts of `amd-smi` say is put together, GPU by GPU; without the metrics
/// the GPUs are still told.
pub proof fn law_both_texts_are_read(
    s: Seq<char>,
    m: Seq<char>,
    es: Seq<JsonV>,
    ms: Seq<JsonV>,
)
    requires
        json::reads_as(s, JsonV::Arr(es)),
        json::reads_as(m, JsonV::Arr(ms)),
        m.len() > 0,
    ensures
        told_devices(Some(s), Some(m)) == entry_devices(es, Some(ms)),
        told_devices(Some(s), None).len() == es.len(),
        told_devices(None, Some(m)).len() == 0,
{
}

} // verus!
