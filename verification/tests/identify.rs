use gamer_monitor::model::GpuVendor;
use gamer_monitor::snapshot::SensorData;
use gamer_monitor::snapshot::classify_vendor;

#[test]
fn vendor_nvidia_case_insensitive() {
    assert_eq!(classify_vendor("NVIDIA GeForce RTX 4090"), GpuVendor::Nvidia);
    assert_eq!(classify_vendor("nVidia geforce"), GpuVendor::Nvidia);
}

#[test]
fn vendor_amd_case_sensitive() {
    assert_eq!(classify_vendor("AMD Radeon RX 7900"), GpuVendor::Amd);
    assert_eq!(classify_vendor("amd radeon rx"), GpuVendor::Other);
}

#[test]
fn vendor_fallback() {
    assert_eq!(classify_vendor("Intel UHD Graphics"), GpuVendor::Other);
    assert_eq!(classify_vendor(""), GpuVendor::Other);
}

#[test]
fn cpu_name_from_cpuinfo() {
    let cpuinfo = "processor\t: 0\nvendor_id\t: AuthenticAMD\nmodel name\t: AMD Ryzen 9 5950X 16-Core Processor\nmodel name\t: other\n";
    let mut s = SensorData::new();
    s.identify_hardware(Some(cpuinfo), None, None);
    assert_eq!(s.cpu_name, "AMD Ryzen 9 5950X 16-Core Processor");
}

#[test]
fn cpu_name_missing_provider_stays_empty() {
    let mut s = SensorData::new();
    s.identify_hardware(None, None, None);
    assert_eq!(s.cpu_name, "");
}

#[test]
fn cpu_name_line_without_colon_is_skipped() {
    let cpuinfo = "model name no colon here\nmodel name\t: Real Name\n";
    let mut s = SensorData::new();
    s.identify_hardware(Some(cpuinfo), None, None);
    assert_eq!(s.cpu_name, "Real Name");
}

#[test]
fn gpu_name_from_vendor_tool_wins() {
    let mut s = SensorData::new();
    s.identify_hardware(None, Some("NVIDIA GeForce RTX 4090\n"), Some("ignored"));
    assert_eq!(s.gpu_name, "NVIDIA GeForce RTX 4090");
    assert_eq!(s.gpu_vendor, GpuVendor::Nvidia);
}

#[test]
fn gpu_name_empty_tool_output_falls_through() {
    let pci = "01:00.0 VGA compatible controller: Intel Corporation UHD Graphics 630\n";
    let mut s = SensorData::new();
    s.identify_hardware(None, Some("   \n"), Some(pci));
    assert_eq!(s.gpu_name, "Intel Corporation UHD Graphics 630");
    assert_eq!(s.gpu_vendor, GpuVendor::Other);
}

#[test]
fn gpu_name_last_bracket_wins() {
    let pci = "00:1f.0 ISA bridge: Intel Corporation Device\n\
               03:00.0 VGA compatible controller: Advanced Micro Devices, Inc. [AMD/ATI] Navi 31 [Radeon RX 7900 XT/7900 XTX] (rev c8)\n";
    let mut s = SensorData::new();
    s.identify_hardware(None, None, Some(pci));
    assert_eq!(s.gpu_name, "Radeon RX 7900 XT/7900 XTX");
    assert_eq!(s.gpu_vendor, GpuVendor::Amd);
}

#[test]
fn gpu_name_amd_ati_bracket_alone_is_rejected() {
    let pci = "03:00.0 VGA compatible controller: Advanced Micro Devices, Inc. [AMD/ATI]\n";
    let mut s = SensorData::new();
    s.identify_hardware(None, None, Some(pci));
    // the only bracket is the vendor tag, so the text after `controller:` wins
    assert_eq!(s.gpu_name, "Advanced Micro Devices, Inc. [AMD/ATI]");
}

#[test]
fn gpu_name_unknown_when_nothing_matches() {
    let pci = "00:1f.0 ISA bridge: Intel Corporation Device\n";
    let mut s = SensorData::new();
    s.identify_hardware(None, None, Some(pci));
    assert_eq!(s.gpu_name, "Unknown GPU");
    assert_eq!(s.gpu_vendor, GpuVendor::Other);
}

#[test]
fn gpu_name_unknown_when_all_providers_missing() {
    let mut s = SensorData::new();
    s.identify_hardware(None, None, None);
    assert_eq!(s.gpu_name, "Unknown GPU");
}
