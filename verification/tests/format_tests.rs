use std::time::Duration;

use registry_dag::timefmt::{fmt_duration_as_secs, fmt_secs_millis, pad3, u64_to_dec};
use registry_dag::walk::{is_package_file, keep_entry};

#[test]
fn decimal_rendering_is_exact() {
    assert_eq!(u64_to_dec(0), "0");
    assert_eq!(u64_to_dec(7), "7");
    assert_eq!(u64_to_dec(10), "10");
    assert_eq!(u64_to_dec(1234567890), "1234567890");
    assert_eq!(u64_to_dec(u64::MAX), "18446744073709551615");
}

#[test]
fn millisecond_padding_is_exact() {
    assert_eq!(pad3(0), "000");
    assert_eq!(pad3(7), "007");
    assert_eq!(pad3(42), "042");
    assert_eq!(pad3(999), "999");
}

#[test]
fn seconds_and_millis_render_as_duration_text() {
    assert_eq!(fmt_secs_millis(0, 0), "0.000 s");
    assert_eq!(fmt_secs_millis(1, 24), "1.024 s");
    assert_eq!(fmt_secs_millis(12, 345), "12.345 s");
}

#[test]
fn duration_renders_with_millisecond_precision() {
    assert_eq!(fmt_duration_as_secs(&Duration::new(2, 345_000_000)), "2.345 s");
    assert_eq!(fmt_duration_as_secs(&Duration::new(0, 999_999)), "0.000 s");
    assert_eq!(fmt_duration_as_secs(&Duration::new(61, 1_000_000)), "61.001 s");
}

#[test]
fn version_control_entries_are_skipped() {
    assert!(!keep_entry(".git"));
    assert!(keep_entry("serde"));
    assert!(keep_entry(".github"));
}

#[test]
fn only_files_below_the_shard_level_are_package_files() {
    assert!(is_package_file(2, true));
    assert!(is_package_file(3, true));
    assert!(!is_package_file(1, true));
    assert!(!is_package_file(0, true));
    assert!(!is_package_file(2, false));
}
