use greeniem::text::{
    decode_hex_12, int_to_string, is_blank, parse_bool, parse_i64, parse_u16, str_eq, trim_str,
    unsigned_abs,
};

#[test]
fn trim_removes_unicode_whitespace_on_both_ends() {
    assert_eq!(trim_str("  abc \t\n"), "abc");
    assert_eq!(trim_str("\u{3000}x y\u{00A0}"), "x y");
    assert_eq!(trim_str("   "), "");
    assert_eq!(trim_str(""), "");
}

#[test]
fn blank_text_is_whitespace_only() {
    assert!(is_blank(" \t "));
    assert!(is_blank(""));
    assert!(!is_blank(" a "));
}

#[test]
fn parse_i64_follows_std() {
    for s in ["0", "+5", "-5", "007", "9223372036854775807", "-9223372036854775808", "", "+", "-", " 1", "1 ", "9223372036854775808", "-9223372036854775809", "1a", "--1"] {
        assert_eq!(parse_i64(s), s.parse::<i64>().ok(), "input {s:?}");
    }
}

#[test]
fn parse_u16_follows_std() {
    for s in ["0", "+8080", "65535", "65536", "-1", "-0", "", "8o", "080"] {
        assert_eq!(parse_u16(s), s.parse::<u16>().ok(), "input {s:?}");
    }
}

#[test]
fn parse_bool_accepts_only_exact_words() {
    assert_eq!(parse_bool("true"), Some(true));
    assert_eq!(parse_bool("false"), Some(false));
    assert_eq!(parse_bool("True"), None);
    assert_eq!(parse_bool("1"), None);
}

#[test]
fn decimal_text_matches_display() {
    for v in [0i64, 7, -7, 10, 1_890_000, i64::MAX, i64::MIN] {
        assert_eq!(int_to_string(v), v.to_string());
    }
    assert_eq!(unsigned_abs(i64::MIN), 9_223_372_036_854_775_808u64);
    assert_eq!(unsigned_abs(-3), 3);
}

#[test]
fn hex_ids_decode_in_either_case() {
    let bytes = decode_hex_12("0123456789abcdefABCDEF00").unwrap();
    assert_eq!(bytes, [0x01, 0x23, 0x45, 0x67, 0x89, 0xab, 0xcd, 0xef, 0xab, 0xcd, 0xef, 0x00]);
    assert_eq!(decode_hex_12("0123456789abcdefABCDEF0"), None);
    assert_eq!(decode_hex_12("0123456789abcdefABCDEF0g"), None);
}

#[test]
fn string_equality() {
    assert!(str_eq("abc", "abc"));
    assert!(!str_eq("abc", "abd"));
    assert!(!str_eq("ab", "abc"));
}
