use pubsub::codec::{format_u64, parse_u64, utf8_decode, utf8_lossy};

#[test]
fn format_zero() {
    assert_eq!(format_u64(0), "0");
}

#[test]
fn format_small() {
    assert_eq!(format_u64(7), "7");
    assert_eq!(format_u64(42), "42");
    assert_eq!(format_u64(1000), "1000");
}

#[test]
fn format_max() {
    assert_eq!(format_u64(u64::MAX), "18446744073709551615");
}

#[test]
fn parse_simple() {
    assert_eq!(parse_u64("0"), Some(0));
    assert_eq!(parse_u64("42"), Some(42));
    assert_eq!(parse_u64("18446744073709551615"), Some(u64::MAX));
}

#[test]
fn parse_leading_zeros() {
    assert_eq!(parse_u64("007"), Some(7));
    assert_eq!(parse_u64("00"), Some(0));
}

#[test]
fn parse_rejects_empty() {
    assert_eq!(parse_u64(""), None);
}

#[test]
fn parse_rejects_non_digits() {
    assert_eq!(parse_u64("abc"), None);
    assert_eq!(parse_u64("-1"), None);
    assert_eq!(parse_u64("+1"), None);
    assert_eq!(parse_u64("1.5"), None);
    assert_eq!(parse_u64("4 2"), None);
}

#[test]
fn parse_rejects_overflow() {
    assert_eq!(parse_u64("18446744073709551616"), None);
    assert_eq!(parse_u64("99999999999999999999"), None);
}

#[test]
fn format_parse_roundtrip() {
    for n in [0u64, 1, 9, 10, 11, 99, 100, 12345, u64::MAX - 1, u64::MAX] {
        assert_eq!(parse_u64(&format_u64(n)), Some(n));
    }
}

#[test]
fn utf8_decode_valid() {
    assert_eq!(utf8_decode(&b"hello".to_vec()), Some(String::from("hello")));
    assert_eq!(utf8_decode(&Vec::new()), Some(String::new()));
}

#[test]
fn utf8_decode_invalid() {
    assert_eq!(utf8_decode(&vec![0xff, 0xfe]), None);
    assert_eq!(utf8_decode(&vec![0xc0]), None);
}

#[test]
fn utf8_lossy_valid_is_lossless() {
    assert_eq!(utf8_lossy(&b"topic".to_vec()), "topic");
}

#[test]
fn utf8_lossy_replaces_invalid() {
    assert_eq!(utf8_lossy(&vec![0xff]), "\u{FFFD}");
}
