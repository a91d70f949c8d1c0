use jetpack_hack::hex::{hex2_string, parse_spaced_hex, push_decimal, push_signed, reply_or, spaced_hex};
use jetpack_hack::text::{text_contains, text_eq};

#[test]
fn spaced_hex_formats_upper_case_pairs() {
    assert_eq!(spaced_hex(&[0x55, 0x02, 0x00, 0x00, 0x00, 0x00, 0xFC]), "55 02 00 00 00 00 FC");
    assert_eq!(spaced_hex(&[0xab]), "AB");
    assert_eq!(spaced_hex(&[]), "");
    assert_eq!(hex2_string(0x0f), "0F");
}

#[test]
fn parse_reads_back_spaced_hex() {
    let frame = [0x55, 0x08, 0x00, 0x03, 0x08, 0x05, 0xFE];
    assert_eq!(parse_spaced_hex(&spaced_hex(&frame)), Some(frame.to_vec()));
    assert_eq!(parse_spaced_hex(""), Some(vec![]));
}

#[test]
fn parse_follows_from_str_radix() {
    assert_eq!(parse_spaced_hex("  ff\t+0a\n5 "), Some(vec![0xFF, 0x0A, 0x05]));
    assert_eq!(parse_spaced_hex("00ff"), Some(vec![0xFF]));
    assert_eq!(parse_spaced_hex("100"), None);
    assert_eq!(parse_spaced_hex("55 zz"), None);
    assert_eq!(parse_spaced_hex("+"), None);
    assert_eq!(parse_spaced_hex("-1"), None);
    assert_eq!(parse_spaced_hex("55\u{3000}AA"), Some(vec![0x55, 0xAA]));
}

#[test]
fn numbers_in_decimal() {
    let mut s = String::new();
    push_decimal(&mut s, 0);
    s.push(' ');
    push_decimal(&mut s, 1234567890);
    s.push(' ');
    push_signed(&mut s, -72);
    s.push(' ');
    push_signed(&mut s, i32::MIN);
    assert_eq!(s, "0 1234567890 -72 -2147483648");
}

#[test]
fn reply_text_or_fallback() {
    assert_eq!(reply_or(&Some(vec![0x55, 0xFF, 0x01]), "(silent)"), "55 FF 01");
    assert_eq!(reply_or(&None, "(silent)"), "(silent)");
}

#[test]
fn text_search_and_equality() {
    assert!(text_contains("55 FF 01 00", "55 FF 01"));
    assert!(!text_contains("55 F", "55 FF"));
    assert!(text_contains("abc", ""));
    assert!(text_eq("(silent)", "(silent)"));
    assert!(!text_eq("(silent)", "(silent "));
}
