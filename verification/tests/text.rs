use invisible_ptt::bytes::{push_all, push_le16, push_le32};
use invisible_ptt::text::{
    chars_of, parse_hex_u16, same, strip_prefix, to_decimal, to_lower, to_padded_decimal,
    to_padded_hex, to_upper, trim,
};

#[test]
fn numbers_are_written_in_decimal_and_hexadecimal() {
    assert_eq!(to_decimal(0), "0");
    assert_eq!(to_decimal(1048576), "1048576");
    assert_eq!(to_decimal(u64::MAX), "18446744073709551615");
    assert_eq!(to_padded_decimal(7, 4), "0007");
    assert_eq!(to_padded_decimal(12345, 4), "12345");
    assert_eq!(to_padded_hex(0, 2), "00");
    assert_eq!(to_padded_hex(0xabc, 2), "abc");
    assert_eq!(to_padded_hex(0x1d4b, 4), "1d4b");
}

#[test]
fn hexadecimal_numbers_are_read() {
    assert_eq!(parse_hex_u16("13"), Some(0x13));
    assert_eq!(parse_hex_u16("FfFf"), Some(0xffff));
    assert_eq!(parse_hex_u16("+7c"), Some(0x7c));
    assert_eq!(parse_hex_u16("00000001"), Some(1));
    assert_eq!(parse_hex_u16("10000"), None);
    assert_eq!(parse_hex_u16(""), None);
    assert_eq!(parse_hex_u16("+"), None);
    assert_eq!(parse_hex_u16("-1"), None);
    assert_eq!(parse_hex_u16("g"), None);
    for n in [0u16, 1, 9, 10, 255, 4096, 65535] {
        assert_eq!(parse_hex_u16(&to_padded_hex(u64::from(n), 1)), Some(n));
    }
}

#[test]
fn case_is_an_ascii_matter() {
    assert_eq!(to_lower("ChRoMe.EXE \u{c4}"), "chrome.exe \u{c4}");
    assert_eq!(to_upper("f13 \u{e4}z@`{"), "F13 \u{e4}Z@`{");
    assert_eq!(to_lower(&to_upper("aZ09")), "az09");
}

#[test]
fn text_is_trimmed_compared_and_taken_apart() {
    assert_eq!(trim("  a b \t\n"), "a b");
    assert_eq!(trim(trim(" x ")), "x");
    assert_eq!(trim(""), "");
    assert!(same("abc", "abc"));
    assert!(!same("abc", "abd"));
    assert!(!same("abc", "ab"));
    assert_eq!(strip_prefix("key:x", "key:"), Some("x"));
    assert_eq!(strip_prefix("ke", "key:"), None);
    assert_eq!(strip_prefix("Key:x", "key:"), None);
    assert_eq!(chars_of("a\u{1f600}"), vec!['a', '\u{1f600}']);
}

#[test]
fn numbers_are_written_low_byte_first() {
    let mut out: Vec<u8> = Vec::new();
    push_le16(&mut out, 0x1234);
    push_le32(&mut out, 0x0102_0304_0506);
    push_all(&mut out, &[9, 8]);
    assert_eq!(out, vec![0x34, 0x12, 6, 5, 4, 3, 9, 8]);
}
