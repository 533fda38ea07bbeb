//! The mathematical model of the snapshot and of one identification or
//! refresh step.
//!
//! Every mutation of the snapshot record is specified here as a function
//! from the old view and the provider texts to the new view; the executable
//! code in the snapshot module proves it computes exactly these functions,
//! and the laws at the bottom are proved of the model alone.

use vstd::prelude::*;

use crate::scan::chip_fan_value;
use crate::scan::fan_value;
use crate::scan::temp_caps_from;
use crate::scan::temp_value;
use crate::stat::stat_values;
use crate::stat::usage_hundredths;
use crate::text::ci_match_at;
use crate::text::contains_ci;
use crate::text::contains_sub;
use crate::text::find_from;
use crate::text::find_sub_from;
use crate::text::is_prefix;
use crate::text::parse_u64_spec;
use crate::text::spec_lines;
use crate::text::split_ws;
use crate::text::strip_plus_spec;
use crate::text::trim_spec;
use crate::text::trim_start_spec;

verus! {

/// Which extraction strategy the snapshot's GPU fields follow, chosen once
/// at identification from the GPU name.
#[derive(Clone, Copy, PartialEq, Eq, Structural, Debug)]
pub enum GpuVendor {
    Amd,
    Nvidia,
    Other,
}

/// The classification rule: a name containing `Radeon` (case matters) is
/// AMD; otherwise a name containing `nvidia` up to ASCII case is NVIDIA;
/// anything else takes the generic path.
pub open spec fn vendor_of(name: Seq<char>) -> GpuVendor {
    if contains_sub(name, "Radeon"@) {
        GpuVendor::Amd
    } else if contains_ci(name, "nvidia"@) {
        GpuVendor::Nvidia
    } else {
        GpuVendor::Other
    }
}

/// The snapshot's value: scalar metrics as integers (percentages in
/// hundredths of a percent, memory sizes in megabytes), readings that the
/// tools emit as free text kept as character sequences.
#[verifier::ext_equal]
pub ghost struct SnapView {
    pub cpu_name: Seq<char>,
    pub cpu_temp: Seq<char>,
    pub cpu_usage_hundredths: u32,
    pub gpu_name: Seq<char>,
    pub gpu_vendor: GpuVendor,
    pub gpu_edge: Seq<char>,
    pub gpu_hotspot: Seq<char>,
    pub gpu_memory: Seq<char>,
    pub gpu_fan: Seq<char>,
    pub gpu_utilization_hundredths: u32,
    pub gpu_power: Seq<char>,
    pub gpu_vram_used: Seq<char>,
    pub gpu_vram_total: Seq<char>,
    pub nvme_temps: Seq<Seq<char>>,
    pub cpu_fan: Seq<char>,
    pub chassis_fan1: Seq<char>,
    pub chassis_fan2: Seq<char>,
    pub ram_total_mb: u64,
    pub ram_used_mb: u64,
    pub ram_free_mb: u64,
    pub ram_available_mb: u64,
    pub ram_percent_hundredths: u64,
}

/// The all-default value the snapshot is constructed with.
pub open spec fn init_view() -> SnapView {
    SnapView {
        cpu_name: Seq::empty(),
        cpu_temp: Seq::empty(),
        cpu_usage_hundredths: 0,
        gpu_name: Seq::empty(),
        gpu_vendor: GpuVendor::Other,
        gpu_edge: Seq::empty(),
        gpu_hotspot: Seq::empty(),
        gpu_memory: Seq::empty(),
        gpu_fan: Seq::empty(),
        gpu_utilization_hundredths: 0,
        gpu_power: Seq::empty(),
        gpu_vram_used: Seq::empty(),
        gpu_vram_total: Seq::empty(),
        nvme_temps: Seq::empty(),
        cpu_fan: Seq::empty(),
        chassis_fan1: Seq::empty(),
        chassis_fan2: Seq::empty(),
        ram_total_mb: 0,
        ram_used_mb: 0,
        ram_free_mb: 0,
        ram_available_mb: 0,
        ram_percent_hundredths: 0,
    }
}

/// The text a provider produced, or nothing when the call failed.
pub open spec fn opt_view(o: Option<&str>) -> Option<Seq<char>> {
    match o {
        Some(s) => Some(s@),
        None => None,
    }
}

// ---------------------------------------------------------------------------
// Identification
// ---------------------------------------------------------------------------

/// The CPU name read from the cpuinfo text: on the first line whose trimmed
/// content starts with `model name` and which holds a colon, the text after
/// the first colon, trimmed.
pub open spec fn cpu_name_of(lines: Seq<Seq<char>>) -> Option<Seq<char>>
    decreases lines.len(),
{
    if lines.len() == 0 {
        None
    } else {
        let l = lines[0];
        if is_prefix("model name"@, trim_start_spec(l)) && find_from(l, 0, ':') is Some {
            match find_from(l, 0, ':') {
                Some(j) => Some(trim_spec(l.subrange(j + 1, l.len() as int))),
                None => None,
            }
        } else {
            cpu_name_of(lines.drop_first())
        }
    }
}

pub open spec fn cpu_name_apply(v: SnapView, cpuinfo: Option<Seq<char>>) -> SnapView {
    match cpuinfo {
        None => v,
        Some(t) => match cpu_name_of(spec_lines(t)) {
            None => v,
            Some(n) => SnapView { cpu_name: n, ..v },
        },
    }
}

/// The content of the last complete `[...]` pair, scanned left to right as
/// the PCI line is read: each closing bracket found continues the search
/// after it. (The bound guards always hold where a bracket was found; they
/// make termination plain.)
pub open spec fn last_bracket_rec(s: Seq<char>, from: int, cur: Option<Seq<char>>) -> Option<
    Seq<char>,
>
    decreases s.len() - from,
    when 0 <= from <= s.len()
{
    match find_from(s, from, '[') {
        None => cur,
        Some(a) => if from <= a < s.len() {
            match find_from(s, a, ']') {
                None => cur,
                Some(b) => if a <= b < s.len() {
                    last_bracket_rec(s, b + 1, Some(s.subrange(a + 1, b)))
                } else {
                    cur
                },
            }
        } else {
            cur
        },
    }
}

pub open spec fn last_bracket(s: Seq<char>) -> Option<Seq<char>> {
    last_bracket_rec(s, 0, None)
}

/// The fallback GPU name on a PCI line: the text after `controller:`,
/// trimmed, when it is not empty.
pub open spec fn ctrl_tail(l: Seq<char>) -> Option<Seq<char>> {
    match find_sub_from(l, "controller:"@, 0) {
        None => None,
        Some(i) => {
            let t = trim_spec(l.subrange(i + "controller:"@.len(), l.len() as int));
            if t.len() > 0 {
                Some(t)
            } else {
                None
            }
        },
    }
}

/// The GPU name a display-controller PCI line yields: the last bracketed
/// hint unless it is empty or the literal vendor tag `AMD/ATI`, else the
/// text after `controller:`.
pub open spec fn vga_line_name(l: Seq<char>) -> Option<Seq<char>> {
    if contains_sub(l, "VGA compatible controller"@) {
        match last_bracket(l) {
            Some(c) => if c.len() > 0 && c != "AMD/ATI"@ {
                Some(c)
            } else {
                ctrl_tail(l)
            },
            None => ctrl_tail(l),
        }
    } else {
        None
    }
}

/// The first PCI line that yields a GPU name.
pub open spec fn pci_gpu_name(lines: Seq<Seq<char>>) -> Option<Seq<char>>
    decreases lines.len(),
{
    if lines.len() == 0 {
        None
    } else {
        match vga_line_name(lines[0]) {
            Some(n) => Some(n),
            None => pci_gpu_name(lines.drop_first()),
        }
    }
}

/// The GPU name resolution order: the vendor query tool's non-empty trimmed
/// output wins; then the PCI enumeration; then the previous name; an empty
/// previous name becomes the literal `Unknown GPU`.
pub open spec fn gpu_name_result(
    old_name: Seq<char>,
    nvidia: Option<Seq<char>>,
    pci: Option<Seq<char>>,
) -> Seq<char> {
    let from_tool: Option<Seq<char>> = match nvidia {
        Some(t) => if trim_spec(t).len() > 0 {
            Some(trim_spec(t))
        } else {
            None
        },
        None => None,
    };
    match from_tool {
        Some(n) => n,
        None => {
            let from_pci: Option<Seq<char>> = match pci {
                Some(t) => pci_gpu_name(spec_lines(t)),
                None => None,
            };
            match from_pci {
                Some(n) => n,
                None => if old_name.len() == 0 {
                    "Unknown GPU"@
                } else {
                    old_name
                },
            }
        },
    }
}

/// One identification step: the two name fields and the cached vendor;
/// nothing else moves.
pub open spec fn identify_spec(
    v: SnapView,
    cpuinfo: Option<Seq<char>>,
    nvidia: Option<Seq<char>>,
    pci: Option<Seq<char>>,
) -> SnapView {
    let v1 = cpu_name_apply(v, cpuinfo);
    let name = gpu_name_result(v1.gpu_name, nvidia, pci);
    SnapView { gpu_name: name, gpu_vendor: vendor_of(name), ..v1 }
}

} // verus!

verus! {

// ---------------------------------------------------------------------------
// Refresh: GPU section scanner
// ---------------------------------------------------------------------------

/// The scanner's state while it walks the monitor report line by line.
#[verifier::ext_equal]
pub ghost struct GpuScan {
    pub in_section: bool,
    pub edge: Seq<char>,
    pub hotspot: Seq<char>,
    pub memory: Seq<char>,
    pub fan: Seq<char>,
}

/// A line whose left-trimmed text starts an amdgpu device section.
pub open spec fn amdgpu_header(l: Seq<char>) -> bool {
    is_prefix("amdgpu-pci-"@, trim_start_spec(l))
}

/// A line that closes an open section: non-empty, starting at column zero,
/// and shaped like a device header (it names an `-isa-`, `-pci-` or
/// `-i2c-` chip).
pub open spec fn closes_section(l: Seq<char>) -> bool {
    &&& l.len() > 0
    &&& l[0] != ' '
    &&& l[0] != '\t'
    &&& (contains_sub(l, "-isa-"@) || contains_sub(l, "-pci-"@) || contains_sub(l, "-i2c-"@))
}

/// A labelled reading inside an open section: the first token picks the
/// field by prefix, the second is the value; a leading `+` is stripped from
/// temperatures, and the fan value carries the `RPM` unit. Lines with
/// fewer than two tokens, or an unrecognized label, change nothing.
pub open spec fn gpu_label_apply(st: GpuScan, l: Seq<char>) -> GpuScan {
    let toks = split_ws(trim_start_spec(l));
    if toks.len() >= 2 {
        if is_prefix("junction"@, toks[0]) {
            GpuScan { hotspot: strip_plus_spec(toks[1]), ..st }
        } else if is_prefix("edge"@, toks[0]) {
            GpuScan { edge: strip_plus_spec(toks[1]), ..st }
        } else if is_prefix("mem"@, toks[0]) {
            GpuScan { memory: strip_plus_spec(toks[1]), ..st }
        } else if is_prefix("fan"@, toks[0]) {
            GpuScan { fan: toks[1] + " RPM"@, ..st }
        } else {
            st
        }
    } else {
        st
    }
}

/// One line of the scan: an amdgpu header opens a section and clears the
/// four readings; inside a section, a device-header line closes it and a
/// reading line updates its field; outside, lines pass by.
pub open spec fn gpu_scan_step(st: GpuScan, l: Seq<char>) -> GpuScan {
    if amdgpu_header(l) {
        GpuScan {
            in_section: true,
            edge: Seq::empty(),
            hotspot: Seq::empty(),
            memory: Seq::empty(),
            fan: Seq::empty(),
        }
    } else if st.in_section {
        if closes_section(l) {
            GpuScan { in_section: false, ..st }
        } else {
            gpu_label_apply(st, l)
        }
    } else {
        st
    }
}

pub open spec fn gpu_scan_lines(lines: Seq<Seq<char>>, st: GpuScan) -> GpuScan
    decreases lines.len(),
{
    if lines.len() == 0 {
        st
    } else {
        gpu_scan_lines(lines.drop_first(), gpu_scan_step(st, lines[0]))
    }
}

/// The AMD extraction: run the scanner over the monitor text, starting
/// outside any section with the snapshot's current readings.
pub open spec fn radeon_apply(v: SnapView, t: Seq<char>) -> SnapView {
    let st0 = GpuScan {
        in_section: false,
        edge: v.gpu_edge,
        hotspot: v.gpu_hotspot,
        memory: v.gpu_memory,
        fan: v.gpu_fan,
    };
    let st = gpu_scan_lines(spec_lines(t), st0);
    SnapView {
        gpu_edge: st.edge,
        gpu_hotspot: st.hotspot,
        gpu_memory: st.memory,
        gpu_fan: st.fan,
        ..v
    }
}

// ---------------------------------------------------------------------------
// Refresh: the other providers
// ---------------------------------------------------------------------------

/// The NVIDIA extraction: the vendor tool's single CSV line, trimmed and
/// split on commas; the first field is the temperature, the second the fan
/// speed with the `RPM` unit; a missing second field leaves the fan alone.
pub open spec fn nvidia_apply(v: SnapView, csv: Option<Seq<char>>) -> SnapView {
    match csv {
        None => v,
        Some(t) => {
            let parts = crate::text::split_sep(trim_spec(t), ',');
            let v1 = if parts.len() >= 1 {
                SnapView { gpu_edge: trim_spec(parts[0]), ..v }
            } else {
                v
            };
            if parts.len() >= 2 {
                SnapView { gpu_fan: trim_spec(parts[1]) + " RPM"@, ..v1 }
            } else {
                v1
            }
        },
    }
}

/// The vendor dispatch: each refresh runs the one extraction the cached
/// vendor calls for; the generic path extracts nothing of its own.
pub open spec fn gpu_apply(
    v: SnapView,
    sensors: Option<Seq<char>>,
    csv: Option<Seq<char>>,
) -> SnapView {
    match v.gpu_vendor {
        GpuVendor::Nvidia => nvidia_apply(v, csv),
        GpuVendor::Amd => match sensors {
            None => v,
            Some(t) => radeon_apply(v, t),
        },
        GpuVendor::Other => v,
    }
}

/// The CPU temperature: four labelled patterns tried in fixed priority
/// order over the whole monitor text; no match keeps the previous reading.
pub open spec fn cpu_temp_value(t: Seq<char>) -> Option<Seq<char>> {
    match temp_value(t, "Tctl:"@) {
        Some(x) => Some(x),
        None => match temp_value(t, "Tdie:"@) {
            Some(x) => Some(x),
            None => match temp_value(t, "Package id 0:"@) {
                Some(x) => Some(x),
                None => temp_value(t, "Core 0:"@),
            },
        },
    }
}

pub open spec fn cpu_temp_apply(v: SnapView, sensors: Option<Seq<char>>) -> SnapView {
    match sensors {
        None => v,
        Some(t) => match cpu_temp_value(t) {
            None => v,
            Some(x) => SnapView { cpu_temp: x, ..v },
        },
    }
}

/// The drive temperatures: rebuilt from scratch every cycle from all
/// `Composite:` readings of the whole monitor text, in order of
/// appearance; with the monitor unavailable the sequence is empty, never
/// stale.
pub open spec fn nvme_apply(v: SnapView, sensors: Option<Seq<char>>) -> SnapView {
    match sensors {
        None => SnapView { nvme_temps: Seq::empty(), ..v },
        Some(t) => SnapView { nvme_temps: temp_caps_from(t, "Composite:"@, 0), ..v },
    }
}

/// The chassis and CPU fans, independent of any section state: `fan2` is
/// the CPU fan, `fan3` the first chassis fan; the second chassis fan tries
/// two chip-qualified patterns in order, to tolerate chip revisions.
pub open spec fn fan_apply(v: SnapView, sensors: Option<Seq<char>>) -> SnapView {
    match sensors {
        None => v,
        Some(t) => {
            let v1 = match fan_value(t, "fan2:"@) {
                Some(d) => SnapView { cpu_fan: d + " RPM"@, ..v },
                None => v,
            };
            let v2 = match fan_value(t, "fan3:"@) {
                Some(d) => SnapView { chassis_fan1: d + " RPM"@, ..v1 },
                None => v1,
            };
            let second = match chip_fan_value(t, "nct6799-isa-0290"@, "fan1:"@) {
                Some(d) => Some(d),
                None => chip_fan_value(t, "nct6798-isa-0290"@, "fan1:"@),
            };
            match second {
                Some(d) => SnapView { chassis_fan2: d + " RPM"@, ..v2 },
                None => v2,
            }
        },
    }
}

/// The CPU load: parsed from the two counter samples. A missing counter
/// read, or a sample with fewer than the four standard counters, is a
/// failed provider and the reading keeps its previous value; on two
/// well-formed samples the load is computed, and reads zero exactly when
/// no counter time elapsed between them.
pub open spec fn cpu_usage_apply(
    v: SnapView,
    stat1: Option<Seq<char>>,
    stat2: Option<Seq<char>>,
) -> SnapView {
    match (stat1, stat2) {
        (Some(t1), Some(t2)) => {
            let s1 = stat_values(t1);
            let s2 = stat_values(t2);
            if s1.len() >= 4 && s2.len() >= 4 {
                SnapView { cpu_usage_hundredths: usage_hundredths(s1, s2) as u32, ..v }
            } else {
                v
            }
        },
        _ => v,
    }
}

// ---------------------------------------------------------------------------
// Refresh: RAM
// ---------------------------------------------------------------------------

/// The first line of the memory table labelled `Mem:` (or the localized
/// `Mem.:`).
pub open spec fn mem_line_of(lines: Seq<Seq<char>>) -> Option<Seq<char>>
    decreases lines.len(),
{
    if lines.len() == 0 {
        None
    } else if is_prefix("Mem:"@, lines[0]) || is_prefix("Mem.:"@, lines[0]) {
        Some(lines[0])
    } else {
        mem_line_of(lines.drop_first())
    }
}

/// Used memory over total, in hundredths of a percent, saturated should
/// the inputs be inconsistent enough to overflow.
pub open spec fn pct_of(used: u64, total: u64) -> u64 {
    let x = (used as int) * 10000 / (total as int);
    if x <= u64::MAX {
        x as u64
    } else {
        u64::MAX
    }
}

pub open spec fn or_keep(p: Option<u64>, old_v: u64) -> u64 {
    match p {
        Some(v) => v,
        None => old_v,
    }
}

/// The RAM extraction: on the memory line, fields 1, 2, 3 and 6 are total,
/// used, free and available megabytes; each parses on its own, a failed
/// field keeping its previous value while its siblings still update. The
/// percentage is derived only when the (possibly retained) total is
/// positive.
pub open spec fn ram_apply(v: SnapView, free: Option<Seq<char>>) -> SnapView {
    match free {
        None => v,
        Some(t) => match mem_line_of(spec_lines(t)) {
            None => v,
            Some(l) => {
                let p = split_ws(l);
                if p.len() >= 7 {
                    let total = or_keep(parse_u64_spec(p[1]), v.ram_total_mb);
                    let used = or_keep(parse_u64_spec(p[2]), v.ram_used_mb);
                    let fr = or_keep(parse_u64_spec(p[3]), v.ram_free_mb);
                    let avail = or_keep(parse_u64_spec(p[6]), v.ram_available_mb);
                    let pct = if total > 0 {
                        pct_of(used, total)
                    } else {
                        v.ram_percent_hundredths
                    };
                    SnapView {
                        ram_total_mb: total,
                        ram_used_mb: used,
                        ram_free_mb: fr,
                        ram_available_mb: avail,
                        ram_percent_hundredths: pct,
                        ..v
                    }
                } else {
                    v
                }
            },
        },
    }
}

/// One refresh: CPU load from the counter samples, then CPU temperature,
/// GPU readings, drive temperatures and fans from the monitor text, then
/// RAM from the memory table.
pub open spec fn update_spec(
    v: SnapView,
    stat1: Option<Seq<char>>,
    stat2: Option<Seq<char>>,
    sensors: Option<Seq<char>>,
    csv: Option<Seq<char>>,
    free: Option<Seq<char>>,
) -> SnapView {
    ram_apply(
        fan_apply(
            nvme_apply(gpu_apply(cpu_temp_apply(cpu_usage_apply(v, stat1, stat2), sensors), sensors, csv), sensors),
            sensors,
        ),
        free,
    )
}

} // verus!

verus! {

// ---------------------------------------------------------------------------
// Laws
// ---------------------------------------------------------------------------

/// With every provider missing, a refresh leaves every field at its
/// previous value — the CPU load included — except the drive
/// temperatures, the one sequence rebuilt from scratch each cycle and
/// hence empty. No field is blanked.
pub proof fn lemma_missing_providers_retain(v: SnapView)
    ensures
        update_spec(v, None, None, None, None, None) == (SnapView {
            nvme_temps: Seq::empty(),
            ..v
        }),
{
    let u = update_spec(v, None, None, None, None, None);
    assert(u =~= SnapView { nvme_temps: Seq::empty(), ..v });
}

/// A failed counter read retains the load: with either sample missing, or
/// either parsing to fewer than the four standard counters, the CPU load
/// keeps its previous value.
pub proof fn lemma_failed_usage_sample_retains(
    v: SnapView,
    stat1: Option<Seq<char>>,
    stat2: Option<Seq<char>>,
)
    ensures
        (stat1 is None || stat2 is None) ==> cpu_usage_apply(v, stat1, stat2) == v,
        (match (stat1, stat2) {
            (Some(t1), Some(t2)) => stat_values(t1).len() < 4 || stat_values(t2).len() < 4,
            _ => true,
        }) ==> cpu_usage_apply(v, stat1, stat2) == v,
{
}

/// A scan that starts outside a section and meets no amdgpu header leaves
/// the readings untouched: without its device present, the monitor text
/// cannot blank the GPU fields.
pub proof fn lemma_no_header_scan_keeps(lines: Seq<Seq<char>>, st: GpuScan)
    requires
        !st.in_section,
        forall|i: int| 0 <= i < lines.len() ==> !amdgpu_header(lines[i]),
    ensures
        gpu_scan_lines(lines, st) == st,
    decreases lines.len(),
{
    if lines.len() > 0 {
        assert(!amdgpu_header(lines[0]));
        lemma_no_header_scan_keeps(lines.drop_first(), st);
    }
}

/// Malformed monitor text retains: each field whose pattern does not match
/// keeps its value, and for an AMD snapshot a text without an amdgpu
/// header keeps all four GPU readings.
pub proof fn lemma_unmatched_sensors_retain(v: SnapView, t: Seq<char>)
    ensures
        cpu_temp_value(t) is None ==> cpu_temp_apply(v, Some(t)).cpu_temp == v.cpu_temp,
        fan_value(t, "fan2:"@) is None ==> fan_apply(v, Some(t)).cpu_fan == v.cpu_fan,
        fan_value(t, "fan3:"@) is None ==> fan_apply(v, Some(t)).chassis_fan1 == v.chassis_fan1,
        chip_fan_value(t, "nct6799-isa-0290"@, "fan1:"@) is None && chip_fan_value(
            t,
            "nct6798-isa-0290"@,
            "fan1:"@,
        ) is None ==> fan_apply(v, Some(t)).chassis_fan2 == v.chassis_fan2,
        (forall|i: int| 0 <= i < spec_lines(t).len() ==> !amdgpu_header(spec_lines(t)[i]))
            ==> radeon_apply(v, t) == v,
        mem_line_of(spec_lines(t)) is None ==> ram_apply(v, Some(t)) == v,
{
    if forall|i: int| 0 <= i < spec_lines(t).len() ==> !amdgpu_header(spec_lines(t)[i]) {
        let st0 = GpuScan {
            in_section: false,
            edge: v.gpu_edge,
            hotspot: v.gpu_hotspot,
            memory: v.gpu_memory,
            fan: v.gpu_fan,
        };
        lemma_no_header_scan_keeps(spec_lines(t), st0);
        assert(radeon_apply(v, t) =~= v);
    }
}

/// Identification never touches a metric, and a refresh never touches the
/// names: `cpu_name`, `gpu_name` and the cached vendor are written by
/// identification alone and survive every refresh, whatever the providers
/// returned or failed to return.
pub proof fn lemma_refresh_keeps_identity(
    v: SnapView,
    stat1: Option<Seq<char>>,
    stat2: Option<Seq<char>>,
    sensors: Option<Seq<char>>,
    csv: Option<Seq<char>>,
    free: Option<Seq<char>>,
)
    ensures
        update_spec(v, stat1, stat2, sensors, csv, free).cpu_name == v.cpu_name,
        update_spec(v, stat1, stat2, sensors, csv, free).gpu_name == v.gpu_name,
        update_spec(v, stat1, stat2, sensors, csv, free).gpu_vendor == v.gpu_vendor,
{
}

/// The classification is decided by the GPU name alone, in fixed
/// precedence: a name containing `Radeon` (case exact) is AMD whatever
/// else it holds; otherwise one containing `nvidia` up to ASCII case is
/// NVIDIA; any other name takes the generic path.
pub proof fn lemma_vendor_rule(name: Seq<char>)
    ensures
        contains_sub(name, "Radeon"@) ==> vendor_of(name) == GpuVendor::Amd,
        !contains_sub(name, "Radeon"@) && contains_ci(name, "nvidia"@) ==> vendor_of(name)
            == GpuVendor::Nvidia,
        !contains_sub(name, "Radeon"@) && !contains_ci(name, "nvidia"@) ==> vendor_of(name)
            == GpuVendor::Other,
{
}

/// The rule on the three vendor archetypes, evaluated character by
/// character: a GeForce name (vendor mark in capitals) is NVIDIA under the
/// case-folding match, a Radeon name is AMD, and a name bearing neither
/// mark takes the generic path.
#[verifier::rlimit(60)]
pub proof fn lemma_vendor_examples()
    ensures
        vendor_of("NVIDIA GeForce RTX 4090"@) == GpuVendor::Nvidia,
        vendor_of("AMD Radeon RX 7900"@) == GpuVendor::Amd,
        vendor_of("Intel UHD Graphics"@) == GpuVendor::Other,
{
    reveal_strlit("NVIDIA GeForce RTX 4090");
    reveal_strlit("AMD Radeon RX 7900");
    reveal_strlit("Intel UHD Graphics");
    reveal_strlit("Radeon");
    reveal_strlit("nvidia");
    reveal_with_fuel(crate::text::find_sub_from, 25);
    reveal_with_fuel(crate::text::ci_find_from, 25);
    assert(ci_match_at("NVIDIA GeForce RTX 4090"@, "nvidia"@, 0));
    let nv = "NVIDIA GeForce RTX 4090"@;
    let rad = "Radeon"@;
    assert forall|i: int| 0 <= i <= 17 implies !crate::text::match_at(nv, rad, i) by {
        if i == 15 {
            // the one `R` in the name; the next character already differs
            assert(nv[16] != rad[1]);
        } else {
            assert(nv[i] != rad[0]);
        }
    }
    let intel = "Intel UHD Graphics"@;
    let pat = "nvidia"@;
    assert forall|i: int| 0 <= i <= 12 implies !crate::text::match_at(intel, rad, i) by {
        assert(intel[i] != rad[0]);
    }
    assert forall|i: int| 0 <= i <= 12 implies !ci_match_at(intel, pat, i) by {
        if i == 1 {
            // the one `n` in the name; the next character already differs
            assert(!crate::text::folds_to(intel[2], pat[1]));
        } else {
            assert(!crate::text::folds_to(intel[i], pat[0]));
        }
    }
}

/// The GPU step dispatches on the cached vendor exclusively. The generic
/// path changes nothing. The NVIDIA path reads only the vendor tool's CSV:
/// the monitor text cannot touch it, and the hotspot and memory readings
/// stay as they were. The AMD path reads only the monitor text: the CSV
/// cannot touch it.
pub proof fn lemma_vendor_dispatch(v: SnapView, sensors: Option<Seq<char>>, csv: Option<Seq<char>>)
    ensures
        v.gpu_vendor == GpuVendor::Other ==> gpu_apply(v, sensors, csv) == v,
        v.gpu_vendor == GpuVendor::Nvidia ==> gpu_apply(v, sensors, csv) == nvidia_apply(v, csv),
        v.gpu_vendor == GpuVendor::Nvidia ==> gpu_apply(v, sensors, csv).gpu_hotspot
            == v.gpu_hotspot && gpu_apply(v, sensors, csv).gpu_memory == v.gpu_memory,
        v.gpu_vendor == GpuVendor::Amd ==> gpu_apply(v, sensors, csv) == gpu_apply(
            v,
            sensors,
            None,
        ),
{
}

/// Scanning distributes over concatenation of line blocks.
pub proof fn lemma_scan_append(l1: Seq<Seq<char>>, l2: Seq<Seq<char>>, st: GpuScan)
    ensures
        gpu_scan_lines(l1 + l2, st) == gpu_scan_lines(l2, gpu_scan_lines(l1, st)),
    decreases l1.len(),
{
    if l1.len() == 0 {
        assert(l1 + l2 =~= l2);
    } else {
        assert((l1 + l2).drop_first() =~= l1.drop_first() + l2);
        assert((l1 + l2)[0] == l1[0]);
        lemma_scan_append(l1.drop_first(), l2, gpu_scan_step(st, l1[0]));
    }
}

/// A scan whose first line is an amdgpu header forgets the incoming state:
/// the header opens a fresh section with cleared readings.
pub proof fn lemma_header_scan_ignores_state(lines: Seq<Seq<char>>, st1: GpuScan, st2: GpuScan)
    requires
        lines.len() > 0,
        amdgpu_header(lines[0]),
    ensures
        gpu_scan_lines(lines, st1) == gpu_scan_lines(lines, st2),
{
    assert(gpu_scan_step(st1, lines[0]) == gpu_scan_step(st2, lines[0]));
}

/// When the monitor text holds several amdgpu sections, the last one wins:
/// the scan of the whole text equals the scan of the lines from the last
/// header on, from any starting state — earlier sections and the
/// snapshot's previous readings leave no trace.
pub proof fn lemma_last_amdgpu_section_wins(
    l1: Seq<Seq<char>>,
    l2: Seq<Seq<char>>,
    st1: GpuScan,
    st2: GpuScan,
)
    requires
        l2.len() > 0,
        amdgpu_header(l2[0]),
    ensures
        gpu_scan_lines(l1 + l2, st1) == gpu_scan_lines(l2, st2),
{
    lemma_scan_append(l1, l2, st1);
    lemma_header_scan_ignores_state(l2, gpu_scan_lines(l1, st1), st2);
}

/// The drive temperatures are derived fresh each refresh: with monitor
/// text present they are exactly its `Composite:` captures in order of
/// appearance, whatever the snapshot held before.
pub proof fn lemma_nvme_rebuilt(
    v: SnapView,
    stat1: Option<Seq<char>>,
    stat2: Option<Seq<char>>,
    t: Seq<char>,
    csv: Option<Seq<char>>,
    free: Option<Seq<char>>,
)
    ensures
        update_spec(v, stat1, stat2, Some(t), csv, free).nvme_temps == temp_caps_from(
            t,
            "Composite:"@,
            0,
        ),
        update_spec(v, stat1, stat2, None, csv, free).nvme_temps == Seq::<Seq<char>>::empty(),
{
}

} // verus!
