use tee_time_finder::text::{format_i64, format_padded, format_u64, parse_cents, parse_u32};

#[test]
fn u32_reading() {
    assert_eq!(parse_u32("18"), Some(18));
    assert_eq!(parse_u32("+7"), Some(7));
    assert_eq!(parse_u32("007"), Some(7));
    assert_eq!(parse_u32("4294967295"), Some(4294967295));
    assert_eq!(parse_u32("4294967296"), None);
    assert_eq!(parse_u32(""), None);
    assert_eq!(parse_u32("+"), None);
    assert_eq!(parse_u32("-1"), None);
    assert_eq!(parse_u32("1a"), None);
}

#[test]
fn cents_reading() {
    assert_eq!(parse_cents("45.00"), Some(4500));
    assert_eq!(parse_cents("45.5"), Some(4550));
    assert_eq!(parse_cents("45."), Some(4500));
    assert_eq!(parse_cents("45"), Some(4500));
    assert_eq!(parse_cents("0.07"), Some(7));
    assert_eq!(parse_cents(".50"), Some(50));
    assert_eq!(parse_cents("4.5.0"), None);
    assert_eq!(parse_cents("45.123"), Some(4512));
    assert_eq!(parse_cents("45.125"), Some(4513));
    assert_eq!(parse_cents("45.12999"), Some(4513));
    assert_eq!(parse_cents("-3.505"), Some(-351));
    assert_eq!(parse_cents("+2"), Some(200));
    assert_eq!(parse_cents("."), None);
    assert_eq!(parse_cents("-"), None);
    assert_eq!(parse_cents("1e2"), None);
    assert_eq!(parse_cents("4294967295.99"), Some(429496729599));
    assert_eq!(parse_cents("4294967296"), None);
    assert_eq!(parse_cents("abc"), None);
    assert_eq!(parse_cents(""), None);
}

#[test]
fn number_writing() {
    assert_eq!(format_u64(0), "0");
    assert_eq!(format_u64(18446744073709551615), "18446744073709551615");
    assert_eq!(format_i64(-9223372036854775808), "-9223372036854775808");
    assert_eq!(format_i64(42), "42");
    assert_eq!(format_padded(6, 2), "06");
    assert_eq!(format_padded(2024, 2), "2024");
    assert_eq!(format_padded(7, 4), "0007");
}
