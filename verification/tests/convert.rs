//! Field conversions: integers, booleans, colors and timestamps.

use asai::fields::{parse_bool, parse_color, LineField};
use asai::num::{parse_u32, parse_u64, parse_u8};
use asai::timestamp::{format_timestamp, parse_timestamp};

#[test]
fn integers_parse() {
    assert_eq!(parse_u32("42"), Some(42));
    assert_eq!(parse_u32("+7"), Some(7));
    assert_eq!(parse_u32("0"), Some(0));
    assert_eq!(parse_u32(""), None);
    assert_eq!(parse_u32("+"), None);
    assert_eq!(parse_u32("12a"), None);
    assert_eq!(parse_u32("-1"), None);
    assert_eq!(parse_u32("4294967295"), Some(u32::MAX));
    assert_eq!(parse_u32("4294967296"), None);
    assert_eq!(parse_u64("18446744073709551615"), Some(u64::MAX));
    assert_eq!(parse_u64("18446744073709551616"), None);
    assert_eq!(parse_u8("255"), Some(255));
    assert_eq!(parse_u8("256"), None);
}

#[test]
fn boolean_accepts_only_the_two_literals() {
    assert_eq!(parse_bool("0"), Some(false));
    assert_eq!(parse_bool("-1"), Some(true));
    assert_eq!(parse_bool("1"), None);
    assert_eq!(parse_bool("true"), None);
    assert_eq!(parse_bool(""), None);
}

#[test]
fn six_digit_color_always_has_alpha_255() {
    let c = parse_color("&H123456&").unwrap();
    assert_eq!(c.a, 255);
    assert_eq!(c.b, 0x12);
    assert_eq!(c.g, 0x34);
    assert_eq!(c.r, 0x56);
    let d = parse_color("&H000000&").unwrap();
    assert_eq!(d.a, 255);
    let e = parse_color("&HFfFfFf&").unwrap();
    assert_eq!(e.a, 255);
    assert_eq!(e.b, 255);
}

#[test]
fn eight_digit_color_reads_its_alpha() {
    let c = parse_color("&HAABBCCDD&").unwrap();
    assert_eq!(c.a, 0xAA);
    assert_eq!(c.b, 0xBB);
    assert_eq!(c.g, 0xCC);
    assert_eq!(c.r, 0xDD);
}

#[test]
fn malformed_colors_fail() {
    assert_eq!(parse_color("123456"), None);
    assert_eq!(parse_color("&H12345&"), None);
    assert_eq!(parse_color("&H1234567&"), None);
    assert_eq!(parse_color("&H12345G&"), None);
    assert_eq!(parse_color("&H123456"), None);
    assert_eq!(parse_color("&H&"), None);
}

#[test]
fn timestamp_parses_the_layout() {
    assert_eq!(parse_timestamp("0:00:01.00"), Some(1000));
    assert_eq!(parse_timestamp("0:00:02.00"), Some(2000));
    assert_eq!(parse_timestamp("1:02:03.45"), Some(3723450));
    assert_eq!(parse_timestamp("0:00:00.01"), Some(10));
}

#[test]
fn timestamp_rejects_wrong_shapes() {
    assert_eq!(parse_timestamp("0:00:01"), None);
    assert_eq!(parse_timestamp("0:01.00"), None);
    assert_eq!(parse_timestamp("a:00:01.00"), None);
    assert_eq!(parse_timestamp("0:00:01.00.00"), None);
    assert_eq!(parse_timestamp(""), None);
    assert_eq!(parse_timestamp("1:2:3:4.5"), None);
}

#[test]
fn timestamp_round_trips_within_a_centisecond() {
    for &ms in &[0u64, 10, 990, 1000, 3723450, 86_399_990, 123_456_789] {
        let text = format_timestamp(ms);
        let back = parse_timestamp(&text).unwrap();
        assert_eq!(back, ms / 10 * 10);
        assert!(ms - back < 10);
    }
    assert_eq!(format_timestamp(3723450), "1:02:03.45");
    assert_eq!(format_timestamp(1000), "0:00:01.00");
    let noncanonical = parse_timestamp("0:99:00.00").unwrap();
    let text = format_timestamp(noncanonical);
    assert_eq!(text, "1:39:00.00");
    assert_eq!(parse_timestamp(&text), Some(noncanonical));
}

#[test]
fn line_field_conversions() {
    let f = LineField::new("37");
    assert_eq!(f.value(), "37");
    assert_eq!(f.to_u32(), Ok(37));
    assert_eq!(f.to_u8(), Ok(37));
    assert!(LineField::new("-1").to_bool().unwrap());
    assert!(LineField::new("x").to_u32().is_err());
    assert_eq!(LineField::new("0:00:01.00").to_timestamp().unwrap().millis, 1000);
    let c = LineField::new("&H010203&").to_color().unwrap();
    assert_eq!((c.a, c.b, c.g, c.r), (255, 1, 2, 3));
}
