use gamer_monitor::snapshot::SensorData;

const RADEON_SENSORS: &str = "\
amdgpu-pci-0300\n\
Adapter: PCI adapter\n\
vddgpu:      762.00 mV\n\
fan1:        1071 RPM\n\
edge:         +45.0\u{b0}C\n\
junction:     +52.0\u{b0}C\n\
mem:          +58.0\u{b0}C\n\
\n\
nvme-pci-0400\n\
Adapter: PCI adapter\n\
Composite:    +38.9\u{b0}C\n\
";

fn radeon_snapshot() -> SensorData {
    let mut s = SensorData::new();
    s.identify_hardware(None, Some("AMD Radeon RX 7900 XTX\n"), None);
    s
}

#[test]
fn radeon_section_readings() {
    let mut s = radeon_snapshot();
    s.update(None, None, Some(RADEON_SENSORS), None, None);
    assert_eq!(s.gpu_edge, "45.0\u{b0}C");
    assert_eq!(s.gpu_hotspot, "52.0\u{b0}C");
    assert_eq!(s.gpu_memory, "58.0\u{b0}C");
    assert_eq!(s.gpu_fan, "1071 RPM");
}

#[test]
fn radeon_last_section_wins() {
    let two = "\
amdgpu-pci-0300\n\
edge:         +45.0\n\
junction:     +52.0\n\
mem:          +58.0\n\
fan1:         1071 RPM\n\
\n\
amdgpu-pci-0800\n\
edge:         +61.0\n\
";
    let mut s = radeon_snapshot();
    s.update(None, None, Some(two), None, None);
    // only the second section's values remain; readings it lacks are cleared
    assert_eq!(s.gpu_edge, "61.0");
    assert_eq!(s.gpu_hotspot, "");
    assert_eq!(s.gpu_memory, "");
    assert_eq!(s.gpu_fan, "");
}

#[test]
fn radeon_section_closed_by_device_header() {
    let text = "\
amdgpu-pci-0300\n\
edge:         +45.0\n\
nct6798-isa-0290\n\
edge:         +99.0\n\
";
    let mut s = radeon_snapshot();
    s.update(None, None, Some(text), None, None);
    // the second edge line is outside the amdgpu section
    assert_eq!(s.gpu_edge, "45.0");
}

#[test]
fn radeon_text_without_header_retains() {
    let mut s = radeon_snapshot();
    s.update(None, None, Some(RADEON_SENSORS), None, None);
    s.update(None, None, Some("nct6798-isa-0290\nfan2: 900 RPM\n"), None, None);
    assert_eq!(s.gpu_edge, "45.0\u{b0}C");
    assert_eq!(s.gpu_fan, "1071 RPM");
}

#[test]
fn nvidia_csv_readings() {
    let mut s = SensorData::new();
    s.identify_hardware(None, Some("NVIDIA GeForce RTX 4090\n"), None);
    s.update(None, None, Some(""), Some("45, 1200\n"), None);
    assert_eq!(s.gpu_edge, "45");
    assert_eq!(s.gpu_fan, "1200 RPM");
}

#[test]
fn nvidia_csv_single_field_leaves_fan() {
    let mut s = SensorData::new();
    s.identify_hardware(None, Some("NVIDIA GeForce RTX 4090\n"), None);
    s.update(None, None, Some(""), Some("45, 1200\n"), None);
    s.update(None, None, Some(""), Some("47\n"), None);
    assert_eq!(s.gpu_edge, "47");
    assert_eq!(s.gpu_fan, "1200 RPM");
}

#[test]
fn nvidia_failed_call_retains() {
    let mut s = SensorData::new();
    s.identify_hardware(None, Some("NVIDIA GeForce RTX 4090\n"), None);
    s.update(None, None, Some(""), Some("45, 1200\n"), None);
    s.update(None, None, Some(""), None, None);
    assert_eq!(s.gpu_edge, "45");
    assert_eq!(s.gpu_fan, "1200 RPM");
}

#[test]
fn nvme_three_composites_in_order() {
    let text = "\
nvme-pci-0400\n\
Composite:    +38.9\u{b0}C\n\
nvme-pci-0500\n\
Composite:    +42.0\u{b0}C\n\
nvme-pci-0600\n\
Composite:    +51.2\u{b0}C\n\
";
    let mut s = SensorData::new();
    s.update(None, None, Some(text), None, None);
    assert_eq!(s.nvme_temps, vec!["38.9", "42.0", "51.2"]);
}

#[test]
fn nvme_rebuilt_each_cycle() {
    let mut s = SensorData::new();
    s.update(None, None, Some("Composite:  +38.9\n"), None, None);
    assert_eq!(s.nvme_temps, vec!["38.9"]);
    s.update(None, None, Some("no drives here\n"), None, None);
    assert_eq!(s.nvme_temps, Vec::<String>::new());
    s.update(None, None, Some("Composite:  +40.0\n"), None, None);
    assert_eq!(s.nvme_temps, vec!["40.0"]);
    s.update(None, None, None, None, None);
    assert_eq!(s.nvme_temps, Vec::<String>::new());
}

#[test]
fn cpu_temp_priority_order() {
    let mut s = SensorData::new();
    s.update(None, None, Some("Tdie:  +47.5\u{b0}C\nTctl:  +48.5\u{b0}C\n"), None, None);
    assert_eq!(s.cpu_temp, "48.5");
    s.update(None, None, Some("Package id 0:  +51.0\u{b0}C\nCore 0:  +49.0\u{b0}C\n"), None, None);
    assert_eq!(s.cpu_temp, "51.0");
    s.update(None, None, Some("Core 0:  +49.0\u{b0}C\n"), None, None);
    assert_eq!(s.cpu_temp, "49.0");
}

#[test]
fn cpu_temp_no_match_retains() {
    let mut s = SensorData::new();
    s.update(None, None, Some("Tctl:  +48.5\n"), None, None);
    assert_eq!(s.cpu_temp, "48.5");
    s.update(None, None, Some("nothing relevant\n"), None, None);
    assert_eq!(s.cpu_temp, "48.5");
}

#[test]
fn fan_readings() {
    let text = "\
nct6798-isa-0290\n\
Adapter: ISA adapter\n\
fan2:        1071 RPM\n\
fan3:         820 RPM\n\
";
    let mut s = SensorData::new();
    s.update(None, None, Some(text), None, None);
    assert_eq!(s.cpu_fan, "1071 RPM");
    assert_eq!(s.chassis_fan1, "820 RPM");
}

#[test]
fn chassis_fan2_second_chip_pattern() {
    // the chip-qualified pattern reaches only as far as the line break,
    // so the fan must follow the chip tag on the same line
    let text = "nct6798-isa-0290 fan1: 900 RPM\n";
    let mut s = SensorData::new();
    s.update(None, None, Some(text), None, None);
    assert_eq!(s.chassis_fan2, "900 RPM");
}

#[test]
fn chassis_fan2_first_chip_pattern_wins() {
    let text = "nct6798-isa-0290 fan1: 900 RPM\nnct6799-isa-0290 fan1: 650 RPM\n";
    let mut s = SensorData::new();
    s.update(None, None, Some(text), None, None);
    assert_eq!(s.chassis_fan2, "650 RPM");
}

#[test]
fn cpu_usage_exact_value() {
    let stat1 = "cpu  100 0 100 200 0 0 0 0\ncpu0 50 0 50 100 0 0 0 0\n";
    let stat2 = "cpu  200 0 200 400 0 0 0 0\ncpu0 100 0 100 200 0 0 0 0\n";
    let mut s = SensorData::new();
    s.update(Some(stat1), Some(stat2), None, None, None);
    // total rises 400, idle rises 200: half the window was busy
    assert_eq!(s.cpu_usage_hundredths, 5000);
    assert!((s.cpu_usage_hundredths as f64 / 100.0 - 50.0).abs() < 1e-9);
}

#[test]
fn cpu_usage_zero_on_no_elapsed_time() {
    let stat = "cpu  100 0 100 200 0 0 0 0\n";
    let mut s = SensorData::new();
    s.update(Some(stat), Some(stat), None, None, None);
    assert_eq!(s.cpu_usage_hundredths, 0);
}

#[test]
fn cpu_usage_short_sample_retains() {
    let mut s = SensorData::new();
    s.update(
        Some("cpu  100 0 100 200 0 0 0 0\n"),
        Some("cpu  200 0 200 400 0 0 0 0\n"),
        None,
        None,
        None,
    );
    assert_eq!(s.cpu_usage_hundredths, 5000);
    // a sample with fewer than four counters is a failed read
    s.update(Some("cpu 1 2\n"), Some("cpu 5 6\n"), None, None, None);
    assert_eq!(s.cpu_usage_hundredths, 5000);
}

#[test]
fn cpu_usage_missing_provider_retains() {
    let mut s = SensorData::new();
    s.update(
        Some("cpu  100 0 100 200 0 0 0 0\n"),
        Some("cpu  200 0 200 400 0 0 0 0\n"),
        None,
        None,
        None,
    );
    assert_eq!(s.cpu_usage_hundredths, 5000);
    s.update(None, None, None, None, None);
    assert_eq!(s.cpu_usage_hundredths, 5000);
    s.update(Some("cpu  300 0 300 600 0 0 0 0\n"), None, None, None, None);
    assert_eq!(s.cpu_usage_hundredths, 5000);
}

#[test]
fn cpu_usage_in_range_on_odd_counters() {
    let stat1 = "cpu  900 0 0 100 0 0 0 0\n";
    let stat2 = "cpu  0 0 0 90000 0 0 0 0\n";
    let mut s = SensorData::new();
    s.update(Some(stat1), Some(stat2), None, None, None);
    assert!(s.cpu_usage_hundredths <= 10000);
}

#[test]
fn ram_exact_values() {
    let free = "\
              total        used        free      shared  buff/cache   available\n\
Mem:           32000       16000        8000        2000        6000       18000\n\
Swap:           8000           0        8000\n\
";
    let mut s = SensorData::new();
    s.update(None, None, None, None, Some(free));
    assert_eq!(s.ram_total_mb, 32000);
    assert_eq!(s.ram_used_mb, 16000);
    assert_eq!(s.ram_free_mb, 8000);
    assert_eq!(s.ram_available_mb, 18000);
    assert_eq!(s.ram_percent_hundredths, 5000);
    assert!((s.ram_total_mb as f64 / 1024.0 - 31.25).abs() < 1e-9);
    assert!((s.ram_used_mb as f64 / 1024.0 - 15.625).abs() < 1e-9);
    assert!((s.ram_available_mb as f64 / 1024.0 - 17.578).abs() < 1e-3);
    assert!((s.ram_percent_hundredths as f64 / 100.0 - 50.0).abs() < 1e-9);
}

#[test]
fn ram_short_line_retains() {
    let mut s = SensorData::new();
    s.update(None, None, None, None, Some("Mem: 1 2 3\n"));
    assert_eq!(s.ram_total_mb, 0);
    assert_eq!(s.ram_percent_hundredths, 0);
}

#[test]
fn ram_partial_parse_updates_siblings() {
    let good = "Mem: 32000 16000 8000 2000 6000 18000\n";
    let mut s = SensorData::new();
    s.update(None, None, None, None, Some(good));
    // the total fails to parse this cycle; the other fields still update
    let partial = "Mem: broken 20000 9000 2000 6000 17000\n";
    s.update(None, None, None, None, Some(partial));
    assert_eq!(s.ram_total_mb, 32000);
    assert_eq!(s.ram_used_mb, 20000);
    assert_eq!(s.ram_free_mb, 9000);
    assert_eq!(s.ram_available_mb, 17000);
    // the percentage is derived from the retained total and the fresh used
    assert_eq!(s.ram_percent_hundredths, 20000u64 * 10000 / 32000);
}

#[test]
fn ram_zero_total_keeps_percentage() {
    let mut s = SensorData::new();
    s.update(None, None, None, None, Some("Mem: 32000 16000 8000 2000 6000 18000\n"));
    assert_eq!(s.ram_percent_hundredths, 5000);
    s.update(None, None, None, None, Some("Mem: 0 1 1 0 0 1\n"));
    assert_eq!(s.ram_total_mb, 0);
    assert_eq!(s.ram_percent_hundredths, 5000);
}

#[test]
fn ram_overflowing_field_retains() {
    let mut s = SensorData::new();
    s.update(None, None, None, None, Some("Mem: 32000 16000 8000 2000 6000 18000\n"));
    s.update(None, None, None, None, Some("Mem: 99999999999999999999 1 2 0 0 3\n"));
    assert_eq!(s.ram_total_mb, 32000);
    assert_eq!(s.ram_used_mb, 1);
}

#[test]
fn missing_providers_retain_everything() {
    let mut s = SensorData::new();
    s.identify_hardware(
        Some("model name : Test CPU\n"),
        Some("NVIDIA Test GPU\n"),
        None,
    );
    s.update(
        Some("cpu  100 0 100 200 0 0 0 0\n"),
        Some("cpu  200 0 200 400 0 0 0 0\n"),
        Some("Tctl: +48.5\nComposite: +38.9\nfan2: 1071 RPM\nfan3: 820 RPM\n"),
        Some("45, 1200\n"),
        Some("Mem: 32000 16000 8000 2000 6000 18000\n"),
    );
    let before_temp = s.cpu_temp.clone();
    let before_fan = s.cpu_fan.clone();
    s.update(None, None, None, None, None);
    assert_eq!(s.cpu_name, "Test CPU");
    assert_eq!(s.gpu_name, "NVIDIA Test GPU");
    assert_eq!(s.cpu_temp, before_temp);
    assert_eq!(s.cpu_fan, before_fan);
    assert_eq!(s.chassis_fan1, "820 RPM");
    assert_eq!(s.gpu_edge, "45");
    assert_eq!(s.gpu_fan, "1200 RPM");
    assert_eq!(s.ram_total_mb, 32000);
    assert_eq!(s.ram_percent_hundredths, 5000);
    // the load reading is retained like every other field
    assert_eq!(s.cpu_usage_hundredths, 5000);
    // the drive list is the one exception: rebuilt from scratch, so empty
    assert!(s.nvme_temps.is_empty());
}

#[test]
fn names_survive_any_refresh() {
    let mut s = SensorData::new();
    s.identify_hardware(Some("model name : Test CPU\n"), Some("AMD Radeon Test\n"), None);
    s.update(
        Some("garbage"),
        Some("more garbage"),
        Some("amdgpu-pci-0300\nedge: +1.0\n"),
        Some("not,a,csv"),
        Some("Mem: x y z\n"),
    );
    assert_eq!(s.cpu_name, "Test CPU");
    assert_eq!(s.gpu_name, "AMD Radeon Test");
    s.update(None, None, None, None, None);
    assert_eq!(s.cpu_name, "Test CPU");
    assert_eq!(s.gpu_name, "AMD Radeon Test");
}
