//! The snapshot record and the two operations on it: one-time hardware
//! identification, and the per-cycle refresh.
//!
//! Both take the provider texts as plain optional strings — the callers run
//! the commands and read the pseudo-files — and both are total: any provider
//! may be missing or malformed, and each function's contract states exactly
//! which fields then keep their previous values.

use vstd::prelude::*;
use vstd::string::*;

use crate::model::GpuScan;
use crate::model::GpuVendor;
use crate::model::SnapView;
use crate::model::cpu_name_apply;
use crate::model::cpu_name_of;
use crate::model::cpu_temp_apply;
use crate::model::cpu_usage_apply;
use crate::model::ctrl_tail;
use crate::model::fan_apply;
use crate::model::gpu_apply;
use crate::model::identify_spec;
use crate::model::init_view;
use crate::model::last_bracket;
use crate::model::last_bracket_rec;
use crate::model::mem_line_of;
use crate::model::nvidia_apply;
use crate::model::nvme_apply;
use crate::model::opt_view;
use crate::model::pci_gpu_name;
use crate::model::radeon_apply;
use crate::model::ram_apply;
use crate::model::update_spec;
use crate::model::vendor_of;
use crate::model::vga_line_name;
use crate::scan::extract_all_sensor_values;
use crate::scan::extract_chip_fan;
use crate::scan::extract_fan_value;
use crate::scan::extract_sensor_value;
use crate::stat::cpu_usage_hundredths;
use crate::stat::parse_stat_values;
use crate::text::contains;
use crate::text::contains_nocase;
use crate::text::find_char_from;
use crate::text::find_sub;
use crate::text::lemma_find_from;
use crate::text::parse_u64;
use crate::text::split_lines;
use crate::text::split_whitespace;
use crate::text::starts_with;
use crate::text::str_eq;
use crate::text::strip_plus;
use crate::text::trim;
use crate::text::trim_start;
use crate::text::with_rpm;

verus! {

/// The view of an optional owned capture.
pub open spec fn opt_string_view(o: Option<String>) -> Option<Seq<char>> {
    match o {
        Some(s) => Some(s@),
        None => None,
    }
}

/// The vendor classification, applied once to the resolved GPU name.
pub fn classify_vendor(name: &str) -> (r: GpuVendor)
    ensures
        r == vendor_of(name@),
{
    if contains(name, "Radeon") {
        GpuVendor::Amd
    } else if contains_nocase(name, "nvidia") {
        GpuVendor::Nvidia
    } else {
        GpuVendor::Other
    }
}

/// The CPU name from the cpuinfo lines.
fn scan_cpu_name(lines: &Vec<String>) -> (r: Option<String>)
    ensures
        match r {
            Some(n) => cpu_name_of(lines.deep_view()) == Some(n@),
            None => cpu_name_of(lines.deep_view()) is None,
        },
{
    let ghost dv = lines.deep_view();
    let n = lines.len();
    let mut k: usize = 0;
    proof {
        assert(dv.skip(0) =~= dv);
    }
    while k < n
        invariant
            0 <= k <= n,
            n == lines@.len(),
            dv == lines.deep_view(),
            dv.len() == n,
            cpu_name_of(dv) == cpu_name_of(dv.skip(k as int)),
        decreases n - k,
    {
        let l: &str = lines[k].as_str();
        proof {
            assert(dv.skip(k as int)[0] == dv[k as int]);
            assert(dv[k as int] == lines@[k as int]@);
            assert(dv.skip(k as int).drop_first() =~= dv.skip(k as int + 1));
        }
        let tr = trim_start(l);
        if starts_with(tr, "model name") {
            let l_len = l.unicode_len();
            match find_char_from(l, 0, ':') {
                Some(j) => {
                    let tail = l.substring_char(j + 1, l_len);
                    let out = trim(tail);
                    return Some(String::from_str(out));
                },
                None => {},
            }
        }
        k = k + 1;
    }
    None
}

/// The content of the last complete bracket pair of a PCI line.
fn last_bracket_exec(l: &str) -> (r: Option<String>)
    ensures
        last_bracket(l@) == opt_string_view(r),
{
    let len = l.unicode_len();
    let mut from: usize = 0;
    let mut cur: Option<String> = None;
    let mut stop = false;
    while !stop
        invariant
            0 <= from <= len,
            len == l@.len(),
            last_bracket(l@) == last_bracket_rec(l@, from as int, opt_string_view(cur)),
            stop ==> last_bracket_rec(l@, from as int, opt_string_view(cur)) == opt_string_view(
                cur,
            ),
        decreases (if stop {
            0int
        } else {
            len - from + 1
        }),
    {
        match find_char_from(l, from, '[') {
            None => {
                stop = true;
            },
            Some(a) => {
                match find_char_from(l, a, ']') {
                    None => {
                        stop = true;
                    },
                    Some(b) => {
                        proof {
                            lemma_find_from(l@, from as int, '[');
                            lemma_find_from(l@, a as int, ']');
                            assert(l@[a as int] == '[');
                            assert(l@[b as int] == ']');
                            assert(b > a);
                        }
                        cur = Some(String::from_str(l.substring_char(a + 1, b)));
                        from = b + 1;
                    },
                }
            },
        }
    }
    cur
}

/// The fallback name after `controller:` on a PCI line.
fn ctrl_tail_exec(l: &str) -> (r: Option<String>)
    ensures
        ctrl_tail(l@) == opt_string_view(r),
{
    let lab = "controller:";
    let l_len = l.unicode_len();
    let lab_len = lab.unicode_len();
    match find_sub(l, lab, 0) {
        None => None,
        Some(i) => {
            let tail = l.substring_char(i + lab_len, l_len);
            let t = trim(tail);
            if t.unicode_len() > 0 {
                Some(String::from_str(t))
            } else {
                None
            }
        },
    }
}

/// The GPU name one PCI line yields, if any.
fn vga_line_value(l: &str) -> (r: Option<String>)
    ensures
        vga_line_name(l@) == opt_string_view(r),
{
    if !contains(l, "VGA compatible controller") {
        return None;
    }
    match last_bracket_exec(l) {
        Some(c) => {
            if c.as_str().unicode_len() > 0 && !str_eq(c.as_str(), "AMD/ATI") {
                Some(c)
            } else {
                ctrl_tail_exec(l)
            }
        },
        None => ctrl_tail_exec(l),
    }
}

/// The GPU name from the PCI enumeration lines.
fn scan_pci_name(lines: &Vec<String>) -> (r: Option<String>)
    ensures
        pci_gpu_name(lines.deep_view()) == opt_string_view(r),
{
    let ghost dv = lines.deep_view();
    let n = lines.len();
    let mut k: usize = 0;
    proof {
        assert(dv.skip(0) =~= dv);
    }
    while k < n
        invariant
            0 <= k <= n,
            n == lines@.len(),
            dv == lines.deep_view(),
            dv.len() == n,
            pci_gpu_name(dv) == pci_gpu_name(dv.skip(k as int)),
        decreases n - k,
    {
        proof {
            assert(dv.skip(k as int)[0] == dv[k as int]);
            assert(dv[k as int] == lines@[k as int]@);
            assert(dv.skip(k as int).drop_first() =~= dv.skip(k as int + 1));
        }
        match vga_line_value(lines[k].as_str()) {
            Some(found) => {
                return Some(found);
            },
            None => {},
        }
        k = k + 1;
    }
    None
}

} // verus!

verus! {

/// The snapshot: one record per process, written by `identify_hardware`
/// once and by `update` each cycle, read by the display layer.
///
/// Scalar metrics are integers: percentages in hundredths of a percent
/// (divide by 100 for percent), memory sizes in megabytes (divide by 1024
/// for gigabytes). Readings the tools emit as free text stay text and are
/// never guaranteed parseable.
pub struct SensorData {
    pub cpu_name: String,
    pub cpu_temp: String,
    pub cpu_usage_hundredths: u32,
    pub gpu_name: String,
    pub gpu_vendor: GpuVendor,
    pub gpu_edge: String,
    pub gpu_hotspot: String,
    pub gpu_memory: String,
    pub gpu_fan: String,
    pub gpu_utilization_hundredths: u32,
    pub gpu_power: String,
    pub gpu_vram_used: String,
    pub gpu_vram_total: String,
    pub nvme_temps: Vec<String>,
    pub cpu_fan: String,
    pub chassis_fan1: String,
    pub chassis_fan2: String,
    pub ram_total_mb: u64,
    pub ram_used_mb: u64,
    pub ram_free_mb: u64,
    pub ram_available_mb: u64,
    pub ram_percent_hundredths: u64,
}

impl View for SensorData {
    type V = SnapView;

    open spec fn view(&self) -> SnapView {
        SnapView {
            cpu_name: self.cpu_name@,
            cpu_temp: self.cpu_temp@,
            cpu_usage_hundredths: self.cpu_usage_hundredths,
            gpu_name: self.gpu_name@,
            gpu_vendor: self.gpu_vendor,
            gpu_edge: self.gpu_edge@,
            gpu_hotspot: self.gpu_hotspot@,
            gpu_memory: self.gpu_memory@,
            gpu_fan: self.gpu_fan@,
            gpu_utilization_hundredths: self.gpu_utilization_hundredths,
            gpu_power: self.gpu_power@,
            gpu_vram_used: self.gpu_vram_used@,
            gpu_vram_total: self.gpu_vram_total@,
            nvme_temps: self.nvme_temps.deep_view(),
            cpu_fan: self.cpu_fan@,
            chassis_fan1: self.chassis_fan1@,
            chassis_fan2: self.chassis_fan2@,
            ram_total_mb: self.ram_total_mb,
            ram_used_mb: self.ram_used_mb,
            ram_free_mb: self.ram_free_mb,
            ram_available_mb: self.ram_available_mb,
            ram_percent_hundredths: self.ram_percent_hundredths,
        }
    }
}

impl SensorData {
    /// A snapshot with every field at its default: empty text, zero
    /// metrics, the generic vendor.
    pub fn new() -> (r: SensorData)
        ensures
            r@ == init_view(),
    {
        let r = SensorData {
            cpu_name: String::new(),
            cpu_temp: String::new(),
            cpu_usage_hundredths: 0,
            gpu_name: String::new(),
            gpu_vendor: GpuVendor::Other,
            gpu_edge: String::new(),
            gpu_hotspot: String::new(),
            gpu_memory: String::new(),
            gpu_fan: String::new(),
            gpu_utilization_hundredths: 0,
            gpu_power: String::new(),
            gpu_vram_used: String::new(),
            gpu_vram_total: String::new(),
            nvme_temps: Vec::new(),
            cpu_fan: String::new(),
            chassis_fan1: String::new(),
            chassis_fan2: String::new(),
            ram_total_mb: 0,
            ram_used_mb: 0,
            ram_free_mb: 0,
            ram_available_mb: 0,
            ram_percent_hundredths: 0,
        };
        proof {
            assert(r@ =~= init_view());
        }
        r
    }

    /// One-time identification: the CPU name from the cpuinfo text, the
    /// GPU name from the vendor query tool's output (when it succeeded
    /// with non-empty text) or else the PCI enumeration, and the vendor
    /// classification cached from the resolved name. Metrics are not
    /// touched; missing providers leave the names as they were (an
    /// unresolved empty GPU name becomes `Unknown GPU`).
    pub fn identify_hardware(
        &mut self,
        cpuinfo: Option<&str>,
        nvidia_name: Option<&str>,
        pci: Option<&str>,
    )
        ensures
            final(self)@ == identify_spec(
                old(self)@,
                opt_view(cpuinfo),
                opt_view(nvidia_name),
                opt_view(pci),
            ),
    {
        match cpuinfo {
            Some(t) => {
                let lines = split_lines(t);
                match scan_cpu_name(&lines) {
                    Some(n) => {
                        self.cpu_name = n;
                    },
                    None => {},
                }
            },
            None => {},
        }
        let ghost v1 = self@;
        proof {
            assert(v1 =~= cpu_name_apply(old(self)@, opt_view(cpuinfo)));
        }
        let mut named = false;
        match nvidia_name {
            Some(t) => {
                let tr = trim(t);
                if tr.unicode_len() > 0 {
                    self.gpu_name = String::from_str(tr);
                    named = true;
                }
            },
            None => {},
        }
        if !named {
            match pci {
                Some(t) => {
                    let lines = split_lines(t);
                    match scan_pci_name(&lines) {
                        Some(n) => {
                            self.gpu_name = n;
                            named = true;
                        },
                        None => {},
                    }
                },
                None => {},
            }
        }
        if !named && self.gpu_name.as_str().unicode_len() == 0 {
            self.gpu_name = String::from_str("Unknown GPU");
        }
        self.gpu_vendor = classify_vendor(self.gpu_name.as_str());
        proof {
            assert(self@ =~= identify_spec(
                old(self)@,
                opt_view(cpuinfo),
                opt_view(nvidia_name),
                opt_view(pci),
            ));
        }
    }
}

} // verus!

verus! {

/// Finds the first memory-table line labelled `Mem:` or `Mem.:`.
fn find_mem_line(lines: &Vec<String>) -> (r: Option<usize>)
    ensures
        match r {
            Some(i) => i < lines@.len() && mem_line_of(lines.deep_view()) == Some(
                lines.deep_view()[i as int],
            ),
            None => mem_line_of(lines.deep_view()) is None,
        },
{
    let ghost dv = lines.deep_view();
    let n = lines.len();
    let mut k: usize = 0;
    proof {
        assert(dv.skip(0) =~= dv);
    }
    while k < n
        invariant
            0 <= k <= n,
            n == lines@.len(),
            dv == lines.deep_view(),
            dv.len() == n,
            mem_line_of(dv) == mem_line_of(dv.skip(k as int)),
        decreases n - k,
    {
        proof {
            assert(dv.skip(k as int)[0] == dv[k as int]);
            assert(dv[k as int] == lines@[k as int]@);
            assert(dv.skip(k as int).drop_first() =~= dv.skip(k as int + 1));
        }
        let l: &str = lines[k].as_str();
        if starts_with(l, "Mem:") || starts_with(l, "Mem.:") {
            return Some(k);
        }
        k = k + 1;
    }
    None
}

impl SensorData {
    /// The CPU load from the two counter samples. A missing counter read,
    /// or a sample with fewer than the four standard counters, is a failed
    /// provider: the reading keeps its previous value. On two well-formed
    /// samples the load is computed, zero exactly when no counter time
    /// elapsed.
    pub fn update_cpu_usage(&mut self, stat1: Option<&str>, stat2: Option<&str>)
        ensures
            final(self)@ == cpu_usage_apply(old(self)@, opt_view(stat1), opt_view(stat2)),
    {
        match (stat1, stat2) {
            (Some(t1), Some(t2)) => {
                let v1 = parse_stat_values(t1);
                let v2 = parse_stat_values(t2);
                if v1.len() >= 4 && v2.len() >= 4 {
                    self.cpu_usage_hundredths = cpu_usage_hundredths(&v1, &v2);
                }
            },
            _ => {},
        }
        proof {
            assert(self@ =~= cpu_usage_apply(old(self)@, opt_view(stat1), opt_view(stat2)));
        }
    }

    /// The CPU temperature from the monitor text: the four labelled
    /// patterns in fixed priority order, first match wins; none leaves the
    /// reading as it was.
    pub fn update_cpu_info(&mut self, sensors_output: Option<&str>)
        ensures
            final(self)@ == cpu_temp_apply(old(self)@, opt_view(sensors_output)),
    {
        match sensors_output {
            None => {},
            Some(t) => {
                match extract_sensor_value(t, "Tctl:") {
                    Some(v) => {
                        self.cpu_temp = v;
                    },
                    None => match extract_sensor_value(t, "Tdie:") {
                        Some(v) => {
                            self.cpu_temp = v;
                        },
                        None => match extract_sensor_value(t, "Package id 0:") {
                            Some(v) => {
                                self.cpu_temp = v;
                            },
                            None => match extract_sensor_value(t, "Core 0:") {
                                Some(v) => {
                                    self.cpu_temp = v;
                                },
                                None => {},
                            },
                        },
                    },
                }
            },
        }
        proof {
            assert(self@ =~= cpu_temp_apply(old(self)@, opt_view(sensors_output)));
        }
    }

    /// The NVIDIA extraction: the vendor tool's CSV line, trimmed and
    /// split on commas; field one is the temperature, field two the fan
    /// speed with its unit. A failed call leaves the readings alone.
    pub fn update_nvidia_gpu_info(&mut self, nvidia_csv: Option<&str>)
        ensures
            final(self)@ == nvidia_apply(old(self)@, opt_view(nvidia_csv)),
    {
        match nvidia_csv {
            None => {},
            Some(t) => {
                let parts = crate::text::split_on(trim(t), ',');
                if parts.len() >= 1 {
                    proof {
                        assert(parts.deep_view()[0] == parts@[0]@);
                    }
                    self.gpu_edge = String::from_str(trim(parts[0].as_str()));
                }
                if parts.len() >= 2 {
                    proof {
                        assert(parts.deep_view()[1] == parts@[1]@);
                    }
                    self.gpu_fan = with_rpm(trim(parts[1].as_str()));
                }
            },
        }
        proof {
            assert(self@ =~= nvidia_apply(old(self)@, opt_view(nvidia_csv)));
        }
    }

    /// The AMD extraction: a stateful scan of the monitor text. An
    /// `amdgpu-pci-` header opens a section and clears the four readings;
    /// a non-indented device-header line closes it; inside, lines update
    /// the reading their first token names. With several amdgpu sections
    /// the last one scanned wins.
    pub fn update_radeon_gpu_info(&mut self, sensors_output: &str)
        ensures
            final(self)@ == radeon_apply(old(self)@, sensors_output@),
    {
        let lines = split_lines(sensors_output);
        let ghost dv = lines.deep_view();
        let ghost st0 = GpuScan {
            in_section: false,
            edge: old(self).gpu_edge@,
            hotspot: old(self).gpu_hotspot@,
            memory: old(self).gpu_memory@,
            fan: old(self).gpu_fan@,
        };
        let mut in_section = false;
        let n = lines.len();
        let mut k: usize = 0;
        proof {
            assert(dv.skip(0) =~= dv);
        }
        while k < n
            invariant
                0 <= k <= n,
                n == lines@.len(),
                dv == lines.deep_view(),
                dv.len() == n,
                crate::model::gpu_scan_lines(dv, st0) == crate::model::gpu_scan_lines(
                    dv.skip(k as int),
                    GpuScan {
                        in_section: in_section,
                        edge: self.gpu_edge@,
                        hotspot: self.gpu_hotspot@,
                        memory: self.gpu_memory@,
                        fan: self.gpu_fan@,
                    },
                ),
                self.cpu_name == old(self).cpu_name,
                self.cpu_temp == old(self).cpu_temp,
                self.cpu_usage_hundredths == old(self).cpu_usage_hundredths,
                self.gpu_name == old(self).gpu_name,
                self.gpu_vendor == old(self).gpu_vendor,
                self.gpu_utilization_hundredths == old(self).gpu_utilization_hundredths,
                self.gpu_power == old(self).gpu_power,
                self.gpu_vram_used == old(self).gpu_vram_used,
                self.gpu_vram_total == old(self).gpu_vram_total,
                self.nvme_temps == old(self).nvme_temps,
                self.cpu_fan == old(self).cpu_fan,
                self.chassis_fan1 == old(self).chassis_fan1,
                self.chassis_fan2 == old(self).chassis_fan2,
                self.ram_total_mb == old(self).ram_total_mb,
                self.ram_used_mb == old(self).ram_used_mb,
                self.ram_free_mb == old(self).ram_free_mb,
                self.ram_available_mb == old(self).ram_available_mb,
                self.ram_percent_hundredths == old(self).ram_percent_hundredths,
            decreases n - k,
        {
            let ghost st_in = GpuScan {
                in_section: in_section,
                edge: self.gpu_edge@,
                hotspot: self.gpu_hotspot@,
                memory: self.gpu_memory@,
                fan: self.gpu_fan@,
            };
            proof {
                assert(dv.skip(k as int)[0] == dv[k as int]);
                assert(dv[k as int] == lines@[k as int]@);
                assert(dv.skip(k as int).drop_first() =~= dv.skip(k as int + 1));
            }
            let l: &str = lines[k].as_str();
            let tr = trim_start(l);
            if starts_with(tr, "amdgpu-pci-") {
                in_section = true;
                self.gpu_edge = String::new();
                self.gpu_hotspot = String::new();
                self.gpu_memory = String::new();
                self.gpu_fan = String::new();
            } else if in_section {
                let l_len = l.unicode_len();
                let mut closes = false;
                if l_len > 0 {
                    let c0 = l.get_char(0);
                    if c0 != ' ' && c0 != '\t' {
                        if contains(l, "-isa-") || contains(l, "-pci-") || contains(l, "-i2c-") {
                            closes = true;
                        }
                    }
                }
                proof {
                    assert(closes == crate::model::closes_section(l@));
                }
                if closes {
                    in_section = false;
                } else {
                    let toks = split_whitespace(tr);
                    if toks.len() >= 2 {
                        proof {
                            assert(toks.deep_view()[0] == toks@[0]@);
                            assert(toks.deep_view()[1] == toks@[1]@);
                        }
                        if starts_with(toks[0].as_str(), "junction") {
                            self.gpu_hotspot = String::from_str(strip_plus(toks[1].as_str()));
                        } else if starts_with(toks[0].as_str(), "edge") {
                            self.gpu_edge = String::from_str(strip_plus(toks[1].as_str()));
                        } else if starts_with(toks[0].as_str(), "mem") {
                            self.gpu_memory = String::from_str(strip_plus(toks[1].as_str()));
                        } else if starts_with(toks[0].as_str(), "fan") {
                            self.gpu_fan = with_rpm(toks[1].as_str());
                        }
                    }
                }
            }
            proof {
                assert(GpuScan {
                    in_section: in_section,
                    edge: self.gpu_edge@,
                    hotspot: self.gpu_hotspot@,
                    memory: self.gpu_memory@,
                    fan: self.gpu_fan@,
                } =~= crate::model::gpu_scan_step(st_in, dv[k as int]));
            }
            k = k + 1;
        }
        proof {
            assert(dv.skip(n as int) =~= Seq::<Seq<char>>::empty());
            assert(self@ =~= radeon_apply(old(self)@, sensors_output@));
        }
    }

    /// The vendor dispatch: one extraction per cached vendor; the generic
    /// path extracts nothing of its own.
    pub fn update_gpu_info(&mut self, sensors_output: Option<&str>, nvidia_csv: Option<&str>)
        ensures
            final(self)@ == gpu_apply(old(self)@, opt_view(sensors_output), opt_view(nvidia_csv)),
    {
        match self.gpu_vendor {
            GpuVendor::Nvidia => {
                self.update_nvidia_gpu_info(nvidia_csv);
            },
            GpuVendor::Amd => {
                match sensors_output {
                    Some(t) => {
                        self.update_radeon_gpu_info(t);
                    },
                    None => {},
                }
            },
            GpuVendor::Other => {},
        }
    }

    /// The drive temperatures, rebuilt from scratch: every `Composite:`
    /// reading of the monitor text in order, or an empty sequence when the
    /// monitor was unavailable.
    pub fn update_nvme_info(&mut self, sensors_output: Option<&str>)
        ensures
            final(self)@ == nvme_apply(old(self)@, opt_view(sensors_output)),
    {
        match sensors_output {
            None => {
                self.nvme_temps = Vec::new();
            },
            Some(t) => {
                self.nvme_temps = extract_all_sensor_values(t, "Composite:");
            },
        }
        proof {
            assert(self@ =~= nvme_apply(old(self)@, opt_view(sensors_output)));
        }
    }

    /// The chassis and CPU fans: `fan2` and `fan3` directly, the second
    /// chassis fan through two chip-qualified patterns tried in order.
    pub fn update_fan_info(&mut self, sensors_output: Option<&str>)
        ensures
            final(self)@ == fan_apply(old(self)@, opt_view(sensors_output)),
    {
        match sensors_output {
            None => {},
            Some(t) => {
                match extract_fan_value(t, "fan2:") {
                    Some(d) => {
                        self.cpu_fan = with_rpm(d.as_str());
                    },
                    None => {},
                }
                match extract_fan_value(t, "fan3:") {
                    Some(d) => {
                        self.chassis_fan1 = with_rpm(d.as_str());
                    },
                    None => {},
                }
                let second = match extract_chip_fan(t, "nct6799-isa-0290", "fan1:") {
                    Some(d) => Some(d),
                    None => extract_chip_fan(t, "nct6798-isa-0290", "fan1:"),
                };
                match second {
                    Some(d) => {
                        self.chassis_fan2 = with_rpm(d.as_str());
                    },
                    None => {},
                }
            },
        }
        proof {
            assert(self@ =~= fan_apply(old(self)@, opt_view(sensors_output)));
        }
    }

    /// The RAM extraction: on the first `Mem:` line with at least seven
    /// columns, fields 1, 2, 3 and 6 are total, used, free and available
    /// megabytes, each parsed on its own so a malformed field keeps its
    /// previous value while its siblings update; the usage percentage is
    /// derived only when the total is positive.
    pub fn update_ram(&mut self, free_output: Option<&str>)
        ensures
            final(self)@ == ram_apply(old(self)@, opt_view(free_output)),
    {
        match free_output {
            None => {},
            Some(t) => {
                let lines = split_lines(t);
                match find_mem_line(&lines) {
                    None => {},
                    Some(i) => {
                        let p = split_whitespace(lines[i].as_str());
                        if p.len() >= 7 {
                            proof {
                                assert(p.deep_view()[1] == p@[1]@);
                                assert(p.deep_view()[2] == p@[2]@);
                                assert(p.deep_view()[3] == p@[3]@);
                                assert(p.deep_view()[6] == p@[6]@);
                            }
                            match parse_u64(p[1].as_str()) {
                                Some(v) => {
                                    self.ram_total_mb = v;
                                },
                                None => {},
                            }
                            match parse_u64(p[2].as_str()) {
                                Some(v) => {
                                    self.ram_used_mb = v;
                                },
                                None => {},
                            }
                            match parse_u64(p[3].as_str()) {
                                Some(v) => {
                                    self.ram_free_mb = v;
                                },
                                None => {},
                            }
                            match parse_u64(p[6].as_str()) {
                                Some(v) => {
                                    self.ram_available_mb = v;
                                },
                                None => {},
                            }
                            if self.ram_total_mb > 0 {
                                let pct128: u128 = (self.ram_used_mb as u128) * 10000 / (
                                self.ram_total_mb as u128);
                                self.ram_percent_hundredths = if pct128 > (u64::MAX as u128) {
                                    u64::MAX
                                } else {
                                    pct128 as u64
                                };
                            }
                        }
                    },
                }
            },
        }
        proof {
            assert(self@ =~= ram_apply(old(self)@, opt_view(free_output)));
        }
    }

    /// One refresh cycle: CPU load from the two counter samples, then CPU
    /// temperature, GPU readings, drive temperatures and fans from the
    /// monitor text, then RAM from the memory table. Total for every
    /// combination of missing or malformed provider texts; the names set
    /// at identification are never written.
    pub fn update(
        &mut self,
        stat1: Option<&str>,
        stat2: Option<&str>,
        sensors_output: Option<&str>,
        nvidia_csv: Option<&str>,
        free_output: Option<&str>,
    )
        ensures
            final(self)@ == update_spec(
                old(self)@,
                opt_view(stat1),
                opt_view(stat2),
                opt_view(sensors_output),
                opt_view(nvidia_csv),
                opt_view(free_output),
            ),
    {
        self.update_cpu_usage(stat1, stat2);
        self.update_cpu_info(sensors_output);
        self.update_gpu_info(sensors_output, nvidia_csv);
        self.update_nvme_info(sensors_output);
        self.update_fan_info(sensors_output);
        self.update_ram(free_output);
    }
}

} // verus!
