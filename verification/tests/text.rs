//! Text, against what the standard library makes of it.

use opus_api::table::Table;
use opus_api::text::{
    chars_of, hex, is_before, is_blank, is_made_of, is_named_with, is_white_space, join,
    lowercase, number, pad, parse_number, same, signed_number, split, split_once, starts_with,
    strip_prefix, trim, trim_end_of, trim_start_of, zero_padded_number, Charset,
};

#[test]
fn white_space_is_what_the_standard_says() {
    for code in 0..=0x10ffffu32 {
        if let Some(c) = char::from_u32(code) {
            assert_eq!(is_white_space(c), c.is_whitespace(), "{code:x}");
        }
    }
    for s in ["", " ", "a", " a b ", "\u{a0}x\u{2003}", "\t\n", "é "] {
        assert_eq!(trim(s), s.trim());
        assert_eq!(is_blank(s), s.trim().is_empty());
    }
}

#[test]
fn order_is_that_of_the_bytes() {
    let words = ["", "a", "ab", "b", "é", "z", "2026-01", "2026-02", "\u{10ffff}", "\u{ffff}"];
    for a in words {
        for b in words {
            assert_eq!(is_before(a, b), a < b, "{a} {b}");
            assert_eq!(same(a, b), a == b);
        }
    }
}

#[test]
fn texts_are_cut_and_joined() {
    for s in ["", ",", "a", "a,b", ",a,,b,", "é,ü"] {
        let parts: Vec<String> = s.split(',').map(str::to_owned).collect();
        assert_eq!(split(s, ','), parts);
        assert_eq!(join(&parts, ","), s);
        assert_eq!(split_once(s, ','), s.split_once(','));
    }
    assert_eq!(strip_prefix("Bearer x", "Bearer "), Some("x"));
    assert_eq!(strip_prefix("bearer x", "Bearer "), None);
    assert!(starts_with("osk_", "osk_"));
    assert!(!starts_with("osk", "osk_"));
    assert_eq!(trim_end_of("a//", '/'), "a");
    assert_eq!(trim_end_of("//", '/'), "");
    assert_eq!(trim_start_of("/é/", '/'), "é/");
    assert_eq!(chars_of("aé"), vec!['a', 'é']);
}

#[test]
fn numbers_are_written_and_read() {
    for n in [0u128, 1, 9, 10, 99, 12345, u64::MAX as u128, u128::MAX] {
        assert_eq!(number(n), n.to_string());
    }
    for n in [0i64, 1, -1, 42, i64::MAX, i64::MIN] {
        assert_eq!(signed_number(n), n.to_string());
    }
    for n in [0u64, 7, 123456, 1234567] {
        assert_eq!(zero_padded_number(n, 6), format!("{n:06}"));
    }
    for s in ["", "0", "7", "+7", "-7", "007", "4294967295", "4294967296", " 7", "7a", "+"] {
        assert_eq!(parse_number(s, u32::MAX), s.parse::<u32>().ok(), "{s}");
        assert_eq!(parse_number(s, 65535), s.parse::<u16>().ok().map(u32::from), "{s}");
    }
    assert_eq!(hex(&[0, 1, 0x9a, 0xff]), "00019aff");
}

#[test]
fn texts_are_padded_and_lowered() {
    for s in ["", "mac", "é", "exactly-sixteen-", "longer than sixteen chars"] {
        assert_eq!(pad(s, 16), format!("{s:<16}"));
    }
    for s in ["", "Not Found", "I'm a teapot", "ÄB"] {
        assert_eq!(lowercase(s), s.to_ascii_lowercase());
    }
}

#[test]
fn charsets_admit_what_they_name() {
    for c in (0u8..128).map(char::from) {
        let s = c.to_string();
        let id = c.is_ascii_alphanumeric() || c == '_' || c == '-';
        assert_eq!(is_made_of(&s, Charset::Id), id, "{c:?}");
        let address = c.is_ascii_alphanumeric() || matches!(c, '.' | ':' | '-');
        assert_eq!(is_made_of(&s, Charset::Address), address, "{c:?}");
    }
    assert!(!is_named_with("", Charset::Id, 4));
    assert!(is_named_with("abcd", Charset::Id, 4));
    assert!(!is_named_with("abcde", Charset::Id, 4));
}

#[test]
fn a_table_holds_the_latest_under_each_key() {
    let mut t: Table<u32> = Table::new();
    t.put("a", 10, 1);
    t.put("b", 20, 2);
    t.put("a", 30, 3);
    assert_eq!(t.len(), 2);
    assert_eq!(t.get("a"), Some((30, &3)));
    assert_eq!(t.get("c"), None);
    assert_eq!(t.take("b"), Some(2));
    assert_eq!(t.take("b"), None);
    t.put("b", 0, 9);
    t.sweep(35, 5);
    assert_eq!(t.get("b"), None);
    t.sweep(34, 5);
    assert_eq!(t.take("a"), None);
}
