use peer::client_config::ClientConfig;
use peer::decimal::decimal_number;
use peer::gpu::aggregate::{aggregate_gpu_devices, merge_vendor_statuses};
use peer::gpu::amd::{enrich_rocm_memory, parse_amd_monitor_csv, parse_amd_smi_json, parse_rocm_smi_csv, probe_amd_smi, probe_amd_smi_json};
use peer::gpu::apple::{extract_ioreg_number, parse_ioreg_performance, probe_apple};
use peer::gpu::command::{expand_path_env, first_row, nvidia_smi_candidates, printed};
use peer::gpu::intel::{
    discovery_device_entries, engine_busy, intel_gpu_top_body, parse_intel_gpu_top_json,
    probe_xpu_smi, xpu_device_ids,
};
use peer::gpu::nvidia::{probe_cuda_version, probe_nvidia_smi};
use peer::gpu::ollama::{info_url, parse_gpu_from_ollama_info};
use peer::gpu::readings::{normalize_mem_to_mb, number_in_text, point};
use peer::gpu::registry::vendor_filter;
use peer::gpu::util::nvidia_architecture_label;
use peer::gpu::{gpu_probe_mode, probe_gpu_host, probe_native_vendors, GpuProbeMode};
use peer::gpu_history::GpuHistoryTracker;
use peer::gpu_thermal_guard::{default_gpu_thermal_settings, GpuThermalGuardTracker, ThermalAction};
use peer::json::{parse, Json};
use peer::shared::{GpuDeviceInfo, GpuHostStatus, GpuThermalGuardStatus};
use peer::strmap::StrMap;
use peer::text::fields;

fn value(text: &str) -> Json {
    parse(text).expect("JSON")
}

fn sample_device(name: &str, producer: &str, util: u8) -> GpuDeviceInfo {
    GpuDeviceInfo {
        index: 0,
        name: name.to_string(),
        producer: Some(producer.to_string()),
        architecture: None,
        driver_version: None,
        pci_bus_id: None,
        utilization_pct: util,
        memory_utilization_pct: Some(50),
        memory_used_mb: 8000,
        memory_total_mb: 24000,
        temperature_c: Some(60),
        power_draw_w: Some(100),
        power_limit_w: None,
        fan_speed_pct: None,
    }
}

fn sample_gpu() -> GpuHostStatus {
    GpuHostStatus {
        available: true,
        utilization_pct: 42,
        memory_used_mb: 1000,
        memory_total_mb: 24000,
        memory_free_mb: 23000,
        name: Some("Test GPU".to_string()),
        producer: Some("NVIDIA".to_string()),
        architecture: Some("8.9".to_string()),
        driver_version: Some("550".to_string()),
        cuda_version: Some("12.4".to_string()),
        device_count: Some(1),
        temperature_c: Some(65),
        memory_utilization_pct: Some(10),
        power_draw_w: Some(120),
        source: Some("test".to_string()),
        sampled_at_unix: Some(1_700_000_000),
        devices: None,
    }
}

#[test]
fn parse_rocm_smi_sample() {
    let text = "card, gpu use (%), memory use (%), temperature, power, product name\n\
                0, 45, 30, 62, 120, AMD Radeon RX 7900 XTX\n\
                1, 10, 5, 55, 80, AMD Radeon RX 7900 XTX";
    let status = parse_rocm_smi_csv(text, None).expect("parsed");
    assert_eq!(status.device_count, Some(2));
    assert_eq!(status.producer.as_deref(), Some("AMD"));
    assert_eq!(status.source.as_deref(), Some("rocm-smi"));
    assert_eq!(status.utilization_pct, 27);
}

#[test]
fn parse_ioreg_sample() {
    let text = r#"
            "PerformanceStatistics" = {
                "Device Utilization %"=42
                "In use system memory"=3623878656
                "recommendedMaxWorkingSetSize"=26843545600
            }
        "#;
    let (util, used, total) = parse_ioreg_performance(text);
    assert_eq!(util, 42);
    assert_eq!(used, 3623878656);
    assert_eq!(total, 26843545600);
}

#[test]
fn expand_systemroot_style_path() {
    let env: StrMap<String> = StrMap::new();
    assert_eq!(expand_path_env("/usr/bin/nvidia-smi", false, &env), "/usr/bin/nvidia-smi");
    let mut env = StrMap::new();
    env.insert("SystemRoot".to_string(), r"C:\Windows".to_string());
    let s = expand_path_env(r"%SystemRoot%\System32\nvidia-smi.exe", true, &env);
    assert!(!s.contains("%SystemRoot%"));
    assert!(s.ends_with(r"System32\nvidia-smi.exe"));
}

#[test]
fn parse_xpu_discovery_and_stats_fields() {
    let discovery = value(
        r#"{"device_list": [{"device_id": 0, "device_name": "Intel Data Center GPU Max 1550", "pci_bdf_address": "0000:3a:00.0", "driver_version": "1.2.3", "memory_physical_size_byte": 51539607552}]}"#,
    );
    let entries = discovery_device_entries(&discovery).expect("entries");
    assert_eq!(entries.len(), 1);
    assert_eq!(entries[0].get_str("device_name"), Some("Intel Data Center GPU Max 1550"));
    assert_eq!(normalize_mem_to_mb(51539607552), 49152);
}

const TOP: &str = r#"{
            "engines": {
                "Render/3D": { "busy": 40.0 },
                "Blitter": { "busy": 10.0 },
                "Video": { "busy": 0.0 }
            },
            "clients": {
                "1234": {
                    "memory": { "system": { "total": 2147483648 } }
                }
            },
            "power": { "GPU": 25.5 }
        }"#;

#[test]
fn parse_intel_gpu_top_sample() {
    let body = intel_gpu_top_body(TOP).expect("body");
    let busy: Vec<f64> = engine_busy(&body).iter().map(|s| s.parse().unwrap()).collect();
    assert_eq!(busy.len(), 3);
    let average = (busy.iter().sum::<f64>() / busy.len() as f64).round() as u64;
    let load = average.min(100) as u8;
    let status = parse_intel_gpu_top_json(TOP, Some(load)).expect("parsed");
    assert!(status.available);
    assert_eq!(status.source.as_deref(), Some("intel_gpu_top"));
    assert_eq!(status.producer.as_deref(), Some("Intel"));
    assert_eq!(status.utilization_pct, 17);
    assert_eq!(status.memory_used_mb, 2048);
    assert_eq!(status.power_draw_w, Some(26));
    assert!(parse_intel_gpu_top_json("nothing", None).is_none());
}

#[test]
fn merge_nvidia_and_amd_devices() {
    let nvidia = aggregate_gpu_devices(
        vec![sample_device("RTX 4090", "NVIDIA", 40)],
        Some("12.4".to_string()),
        "nvidia-smi",
    );
    let amd =
        aggregate_gpu_devices(vec![sample_device("RX 7900 XTX", "AMD", 80)], None, "rocm-smi");
    let merged = merge_vendor_statuses(vec![nvidia, amd]);
    assert_eq!(merged.device_count, Some(2));
    assert_eq!(merged.producer.as_deref(), Some("Mixed"));
    assert_eq!(merged.source.as_deref(), Some("nvidia-smi+rocm-smi"));
    assert_eq!(merged.cuda_version.as_deref(), Some("12.4"));
    assert_eq!(merged.utilization_pct, 60);
    assert_eq!(merged.devices.as_ref().map(|d| d.len()), Some(2));
    // The moment of the reading comes from outside.
    assert!(merged.sampled_at_unix.unwrap() > 1_600_000_000);
}

#[test]
fn parse_ollama_gpu_info() {
    let body = value(
        r#"{"compute": {"supported_gpus": [{"gpu_id": "0", "name": "NVIDIA GeForce RTX 4090", "total_memory": 25769803776, "free_memory": 23622320128, "driver": "550.54", "compute": "8.9", "runner": "cuda_v12"}]}}"#,
    );
    let gpu = parse_gpu_from_ollama_info(&body).expect("gpu");
    assert!(gpu.available);
    assert_eq!(gpu.name.as_deref(), Some("NVIDIA GeForce RTX 4090"));
    assert_eq!(gpu.producer.as_deref(), Some("NVIDIA"));
    assert_eq!(gpu.architecture.as_deref(), Some("Ada Lovelace"));
    assert_eq!(gpu.source.as_deref(), Some("ollama"));
    assert_eq!(gpu.memory_total_mb, 24576);
    assert_eq!(gpu.memory_used_mb, 2048);
    assert_eq!(info_url("http://h:1/"), "http://h:1/api/info");
}

const NVIDIA_LINE: &str = "0, NVIDIA GeForce RTX 4090, 00000000:01:00.0, 550.54, 42, 10, 4096, 24576, 65, 120.5, 450.0, 30, 8.9";

#[test]
fn parse_nvidia_csv_line() {
    let parts = fields(NVIDIA_LINE, ',');
    assert_eq!(parts.len(), 13);
    assert_eq!(parts[1], "NVIDIA GeForce RTX 4090");
    assert_eq!(parts[4].parse::<u8>().unwrap(), 42);
    assert_eq!(nvidia_architecture_label(&parts[12]), "Ada Lovelace");
}

#[test]
fn nvidia_readings_become_a_status() {
    let banner = "| NVIDIA-SMI 550.54   Driver Version: 550.54   CUDA Version: 12.4     |";
    assert_eq!(probe_cuda_version(banner).as_deref(), Some("12.4"));
    let s = probe_nvidia_smi(NVIDIA_LINE, Some(banner)).expect("status");
    assert_eq!(s.device_count, Some(1));
    assert_eq!(s.utilization_pct, 42);
    assert_eq!(s.memory_used_mb, 4096);
    assert_eq!(s.memory_total_mb, 24576);
    assert_eq!(s.memory_free_mb, 20480);
    assert_eq!(s.temperature_c, Some(65));
    assert_eq!(s.cuda_version.as_deref(), Some("12.4"));
    assert_eq!(s.source.as_deref(), Some("nvidia-smi"));
    assert!(probe_nvidia_smi("", None).is_none());
}

#[test]
fn amd_readings_become_a_status() {
    let stat = r#"[{"gpu": 0, "asic": {"market_name": "AMD Instinct MI300X"}}]"#;
    let s = probe_amd_smi_json(stat, None).expect("status");
    assert_eq!(s.device_count, Some(1));
    assert_eq!(s.producer.as_deref(), Some("AMD"));
    assert!(probe_amd_smi_json("no json", None).is_none());
    assert!(parse_amd_smi_json(&value("{}"), &value("{}")).is_none());
    assert!(parse_amd_monitor_csv("", "amd-smi").is_none());
    assert!(probe_amd_smi(None, None, None).is_none());
    let s = probe_amd_smi(Some(stat), None, Some("")).expect("status");
    assert_eq!((s.device_count, s.source.as_deref()), (Some(1), Some("amd-smi")));
    assert!(probe_amd_smi(Some("no json"), None, Some("")).is_none());
    let mut devices = vec![sample_device("RX", "AMD", 1)];
    enrich_rocm_memory(&mut devices, "");
    assert_eq!(devices[0].memory_total_mb, 24000);
}

#[test]
fn intel_cards_are_asked_one_by_one() {
    let discovery = r#"{"device_list": [{"device_id": 3, "device_name": "Intel Data Center GPU Max 1550", "memory_physical_size_byte": 51539607552}]}"#;
    assert_eq!(xpu_device_ids(discovery), Some(vec![3]));
    let s = probe_xpu_smi(discovery, &vec![None]).expect("status");
    assert_eq!(s.source.as_deref(), Some("xpu-smi"));
    assert_eq!(s.memory_total_mb, 49152);
    assert!(xpu_device_ids("no json").is_none());
}

#[test]
fn apple_readings_become_a_status() {
    assert_eq!(extract_ioreg_number("\"In use system memory\"=12"), Some(12));
    let s = probe_apple("\"Device Utilization %\"=42", Some("Apple M3"), None);
    assert_eq!(s.utilization_pct, 42);
    assert_eq!(s.producer.as_deref(), Some("Apple"));
}

#[test]
fn what_a_command_prints_is_trimmed() {
    assert_eq!(printed("  a\n").as_deref(), Some("a"));
    assert_eq!(printed(" \n"), None);
    assert_eq!(first_row("\n  x \ny").as_deref(), Some("x"));
    assert!(nvidia_smi_candidates().contains(&"/usr/bin/nvidia-smi"));
    assert_eq!(number_in_text("25.5"), Some(26));
    assert_eq!(number_in_text("7"), Some(7));
    assert_eq!(number_in_text("x"), None);
    let list = value(r#"{"a": [10]}"#);
    assert_eq!(point(&list, "/a/0").and_then(|v| v.as_u64()), Some(10));
}

#[test]
fn vendors_and_modes_are_settings() {
    let f = vendor_filter(Some("nvidia,apple"));
    assert!(f.allows("nvidia") && f.allows("apple") && !f.allows("amd"));
    assert!(vendor_filter(None).allows("intel"));
    assert_eq!(gpu_probe_mode(None), GpuProbeMode::Auto);
    assert_eq!(gpu_probe_mode(Some("off")), GpuProbeMode::Off);
    assert!(probe_gpu_host(GpuProbeMode::Off, Some(sample_gpu()), None).is_none());
    assert!(!probe_gpu_host(GpuProbeMode::Force, None, None).unwrap().available);
    assert!(probe_gpu_host(GpuProbeMode::Auto, None, None).is_none());
    assert!(probe_native_vendors(vec![]).is_none());
    assert_eq!(probe_native_vendors(vec![sample_gpu()]).unwrap().utilization_pct, 42);
}

#[test]
fn short_buffer_keeps_last_60_samples() {
    let mut tracker = GpuHistoryTracker::new();
    for i in 0..70u64 {
        let mut gpu = sample_gpu();
        gpu.utilization_pct = i as u8;
        gpu.sampled_at_unix = Some(i);
        tracker.record(&gpu, i);
    }
    let snap = tracker.snapshot();
    assert_eq!(snap.short.len(), 60);
    assert_eq!(snap.short.first().map(|s| s.utilization_pct), Some(10));
    assert_eq!(snap.short.last().map(|s| s.utilization_pct), Some(69));
}

#[test]
fn long_buffer_only_records_on_interval() {
    let mut tracker = GpuHistoryTracker::new();
    for _ in 0..5 {
        tracker.record(&sample_gpu(), 0);
    }
    assert_eq!(tracker.snapshot().long.len(), 1);
    tracker.record(&sample_gpu(), 59_999);
    assert_eq!(tracker.snapshot().long.len(), 1);
    tracker.record(&sample_gpu(), 60_000);
    assert_eq!(tracker.snapshot().long.len(), 2);
}

#[test]
fn a_card_that_is_not_there_is_not_recorded() {
    let mut tracker = GpuHistoryTracker::new();
    let mut gpu = sample_gpu();
    gpu.available = false;
    tracker.record(&gpu, 0);
    assert!(tracker.snapshot().short.is_empty());
}

#[test]
fn max_temp_from_devices() {
    let mut gpu = sample_gpu();
    gpu.temperature_c = Some(70);
    let mut a = sample_device("A", "x", 0);
    a.temperature_c = Some(88);
    let mut b = sample_device("B", "x", 0);
    b.temperature_c = Some(82);
    gpu.devices = Some(vec![a, b]);
    assert_eq!(GpuThermalGuardTracker::max_temp_c(&gpu), Some(88));
}

fn at(temp: u8) -> GpuHostStatus {
    let mut gpu = sample_gpu();
    gpu.temperature_c = Some(temp);
    gpu
}

#[test]
fn the_guard_pauses_after_a_while_and_resumes_when_it_is_cool() {
    let mut cfg = ClientConfig::default();
    cfg.gpu_thermal_guard_enabled = Some(true);
    let settings = default_gpu_thermal_settings();
    assert_eq!(settings.threshold_c, 85);
    let mut guard = GpuThermalGuardTracker::default();
    let mut status = GpuThermalGuardStatus::default();
    assert_eq!(guard.evaluate(&at(90), &cfg, &mut status, 0), ThermalAction::Nothing);
    // A moment below the limit lets the time start anew.
    assert_eq!(guard.evaluate(&at(80), &cfg, &mut status, 30_000), ThermalAction::Nothing);
    assert_eq!(guard.evaluate(&at(90), &cfg, &mut status, 59_000), ThermalAction::Nothing);
    assert_eq!(guard.evaluate(&at(91), &cfg, &mut status, 100_000), ThermalAction::Nothing);
    assert_eq!(guard.evaluate(&at(90), &cfg, &mut status, 119_000), ThermalAction::Pause);
    guard.paused(true, 85, 119, &mut status);
    assert!(guard.caused_pause && status.active && status.caused_pause);
    assert_eq!(status.peak_temp_c, Some(91));
    assert_eq!(guard.evaluate(&at(80), &cfg, &mut status, 130_000), ThermalAction::Nothing);
    assert_eq!(guard.evaluate(&at(75), &cfg, &mut status, 140_000), ThermalAction::Resume);
    guard.resumed(true, &mut status);
    assert!(!guard.caused_pause && !status.active);
}

#[test]
fn decimal_numbers_are_read_as_doubles() {
    let texts = [
        "0.49999999999999999999",
        "0.49999999999999994",
        "0.4999999999999999722444243843710864894092082977294921875",
        "0.49999999999999997224442438437108648940920829772949218749",
        "0.25",
        "0.2499999999999999999999",
        "2.5",
        "2.4999999999999999999",
        "1.9999999999999999999",
        "1e-400",
        "12345678901234567.89",
        "9007199254740993",
        "9007199254740993.0",
        "9007199254740993.1",
        "9007199254740992.5",
        "4503599627370496.5",
        "4503599627370497.5",
        "4503599627370495.5",
        "4503599627370495.49999999999",
        "9223372036854775809.0",
        "18446744073709551615.0",
        "18446744073709549569e0",
        "1844674407370954956.8e1",
        "1e19",
        "1e30",
        "3.7E2",
        "-3.5",
        "+0.5",
        ".5",
        "7.",
    ];
    for text in texts {
        let expected = match text.parse::<u64>() {
            Ok(n) => n,
            Err(_) => text.parse::<f64>().unwrap().round() as u64,
        };
        assert_eq!(number_in_text(text), Some(expected), "{text}");
        let value = text.parse::<f64>().unwrap();
        assert_eq!(decimal_number(text, false), Some(value as u64), "{text}");
        assert_eq!(decimal_number(text, true), Some(value.round() as u64), "{text}");
    }
    assert_eq!(number_in_text("0.49999999999999999999"), Some(1));
    assert_eq!(decimal_number("9007199254740993.0", true), Some(9007199254740992));
    assert_eq!(decimal_number("9007199254740991", false), Some(9007199254740991));
    assert_eq!(decimal_number("1e", true), None);
}
