use clash::display::{format_bytes, format_duration, u64_to_dec};

#[test]
fn decimal_digits_are_spelled_out() {
    assert_eq!(u64_to_dec(0), "0");
    assert_eq!(u64_to_dec(7), "7");
    assert_eq!(u64_to_dec(10), "10");
    assert_eq!(u64_to_dec(90210), "90210");
    assert_eq!(u64_to_dec(u64::MAX), "18446744073709551615");
}

#[test]
fn seconds_show_three_decimals() {
    assert_eq!(format_duration(1_500_000_000), "1.500s");
    assert_eq!(format_duration(2_000_400_000), "2.000s");
    assert_eq!(format_duration(59_999_400_000), "59.999s");
    // Rounding half up carries at the boundary.
    assert_eq!(format_duration(59_999_500_000), "60.000s");
}

#[test]
fn minutes_split_off_above_sixty_seconds() {
    assert_eq!(format_duration(65_250_000_000), "1m 5.250s");
    assert_eq!(format_duration(60_000_000_000), "1m 0.000s");
}

#[test]
fn milliseconds_show_one_decimal() {
    assert_eq!(format_duration(12_300_000), "12.3ms");
    assert_eq!(format_duration(1_000_000), "1.0ms");
    // Rounding can carry past the unit boundary.
    assert_eq!(format_duration(999_960_000), "1000.0ms");
}

#[test]
fn microseconds_below_one_millisecond() {
    assert_eq!(format_duration(250_000), "250\u{b5}s");
    assert_eq!(format_duration(0), "0\u{b5}s");
    assert_eq!(format_duration(999), "1\u{b5}s");
}

#[test]
fn zero_bytes_are_not_available() {
    assert_eq!(format_bytes(0), "N/A");
}

#[test]
fn small_counts_are_whole_bytes() {
    assert_eq!(format_bytes(1), "1 B");
    assert_eq!(format_bytes(512), "512 B");
    assert_eq!(format_bytes(1023), "1023 B");
}

#[test]
fn kilobytes_show_one_decimal() {
    assert_eq!(format_bytes(1024), "1.0 KB");
    assert_eq!(format_bytes(1536), "1.5 KB");
}

#[test]
fn megabytes_show_one_decimal() {
    assert_eq!(format_bytes(2_621_440), "2.5 MB");
    assert_eq!(format_bytes(1_048_576), "1.0 MB");
}

#[test]
fn gigabytes_show_one_decimal() {
    assert_eq!(format_bytes(1_073_741_824), "1.0 GB");
    assert_eq!(format_bytes(1_610_612_736), "1.5 GB");
}
