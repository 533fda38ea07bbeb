use gamer_monitor::scan::extract_all_sensor_values;
use gamer_monitor::scan::extract_chip_fan;
use gamer_monitor::scan::extract_fan_value;
use gamer_monitor::scan::extract_sensor_value;
use gamer_monitor::text::parse_u64;
use gamer_monitor::text::split_lines;
use gamer_monitor::text::split_whitespace;
use gamer_monitor::text::trim;

#[test]
fn sensor_value_basic() {
    assert_eq!(
        extract_sensor_value("Tctl:         +48.5\u{b0}C\n", "Tctl:"),
        Some("48.5".to_string())
    );
}

#[test]
fn sensor_value_requires_plus_sign() {
    assert_eq!(extract_sensor_value("Tctl:   48.5\n", "Tctl:"), None);
}

#[test]
fn sensor_value_skips_false_starts() {
    // the first occurrence of the label does not complete the pattern;
    // the match is the leftmost position where the whole pattern fits
    assert_eq!(
        extract_sensor_value("Tctl: x\nTctl:  +45.0\n", "Tctl:"),
        Some("45.0".to_string())
    );
}

#[test]
fn sensor_values_all_occurrences() {
    let out = extract_all_sensor_values("Composite: +1.0\nComposite: +2.5\n", "Composite:");
    assert_eq!(out, vec!["1.0", "2.5"]);
}

#[test]
fn fan_value_needs_unit() {
    assert_eq!(extract_fan_value("fan2:  1071 RPM\n", "fan2:"), Some("1071".to_string()));
    assert_eq!(extract_fan_value("fan2:  1071\n", "fan2:"), None);
}

#[test]
fn chip_fan_stops_at_line_break() {
    assert_eq!(
        extract_chip_fan("nct6798-isa-0290 fan1: 900 RPM\n", "nct6798-isa-0290", "fan1:"),
        Some("900".to_string())
    );
    assert_eq!(
        extract_chip_fan("nct6798-isa-0290\nfan1: 900 RPM\n", "nct6798-isa-0290", "fan1:"),
        None
    );
}

#[test]
fn parse_u64_shapes() {
    assert_eq!(parse_u64("32000"), Some(32000));
    assert_eq!(parse_u64("+7"), Some(7));
    assert_eq!(parse_u64("18446744073709551615"), Some(u64::MAX));
    assert_eq!(parse_u64("18446744073709551616"), None);
    assert_eq!(parse_u64(""), None);
    assert_eq!(parse_u64("+"), None);
    assert_eq!(parse_u64("12.5"), None);
    assert_eq!(parse_u64("-3"), None);
}

#[test]
fn split_lines_shapes() {
    let v = split_lines("a\r\nb\n\nc");
    assert_eq!(v, vec!["a", "b", "", "c"]);
    assert_eq!(split_lines(""), Vec::<String>::new());
    assert_eq!(split_lines("x\n"), vec!["x"]);
}

#[test]
fn split_whitespace_shapes() {
    assert_eq!(split_whitespace("  a\tbb  c \n"), vec!["a", "bb", "c"]);
    assert_eq!(split_whitespace("   "), Vec::<String>::new());
}

#[test]
fn trim_shapes() {
    assert_eq!(trim("  x y \t"), "x y");
    assert_eq!(trim("   "), "");
    assert_eq!(trim("x"), "x");
}
