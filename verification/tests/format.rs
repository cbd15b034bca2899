//! Humanized durations and byte counts.

use fell::utils::{human_bytes, human_duration, u64_to_string};

#[test]
fn duration_under_a_minute() {
    assert_eq!(human_duration(0), "00:00:00");
    assert_eq!(human_duration(59), "00:00:59");
}

#[test]
fn duration_with_hours() {
    assert_eq!(human_duration(3661), "01:01:01");
    assert_eq!(human_duration(86399), "23:59:59");
}

#[test]
fn duration_of_one_day() {
    assert_eq!(human_duration(90061), "1 day, 01:01:01");
}

#[test]
fn duration_of_many_days() {
    assert_eq!(human_duration(2 * 86400 + 2 * 3600 + 3 * 60 + 5), "2 days, 02:03:05");
}

#[test]
fn bytes_small_counts_are_bare_digits() {
    assert_eq!(human_bytes(0, false), "0");
    assert_eq!(human_bytes(500, false), "500");
    assert_eq!(human_bytes(1024, false), "1024");
}

#[test]
fn bytes_small_counts_fixed_width() {
    assert_eq!(human_bytes(500, true), "    500");
}

#[test]
fn bytes_kibibytes_with_truncated_decimals() {
    // 1535 / 1024 = 1.499...: truncation gives 1.49k
    assert_eq!(human_bytes(1535, false), "1.49k");
    assert_eq!(human_bytes(1048576, false), "1024.00k");
}

#[test]
fn bytes_larger_units() {
    assert_eq!(human_bytes(10 * 1073741824, false), "10.00G");
    assert_eq!(human_bytes(2 * 1099511627776, false), "2.00T");
}

#[test]
fn bytes_fixed_width_pads_the_number_only() {
    assert_eq!(human_bytes(10 * 1073741824, true), "  10.00G");
    assert_eq!(human_bytes(1535, true), "   1.49k");
}

#[test]
fn bytes_largest_size() {
    assert_eq!(human_bytes(usize::MAX, false), "16777215.99T");
}

#[test]
fn decimal_rendering() {
    assert_eq!(u64_to_string(0), "0");
    assert_eq!(u64_to_string(7), "7");
    assert_eq!(u64_to_string(1234567890), "1234567890");
    assert_eq!(u64_to_string(u64::MAX), "18446744073709551615");
}
