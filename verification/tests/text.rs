use ente_api::float::{double_is_zero, double_less};
use ente_api::text::{
    contains, first_piece, i64_text, is_white_space, joined, parse_i64, parse_u16, parse_u64,
    parse_usize, same_text, strip_prefix, trim, trim_end, u64_text,
};
use ente_api::text_map::TextMap;

#[test]
fn white_space_is_that_of_unicode() {
    for v in 0..=0x10ffffu32 {
        if let Some(c) = char::from_u32(v) {
            assert_eq!(is_white_space(c), c.is_whitespace(), "{v:x}");
        }
    }
}

#[test]
fn trimming() {
    for s in ["", " ", "a", "  a b \t", "\u{3000}x\u{a0}", "\n\n"] {
        assert_eq!(trim(s), s.trim());
    }
    for s in ["", "/", "http://x/", "http://x///", "x"] {
        assert_eq!(trim_end(s, '/'), s.trim_end_matches('/'));
    }
}

#[test]
fn prefixes_pieces_and_parts() {
    assert_eq!(strip_prefix("Bearer abc", "Bearer "), Some("abc".to_string()));
    assert_eq!(strip_prefix("Bear", "Bearer "), None);
    assert_eq!(strip_prefix("xBearer ", "Bearer "), None);
    assert_eq!(strip_prefix("abc", ""), Some("abc".to_string()));
    assert_eq!(first_piece("12_ab_c", '_'), "12");
    assert_eq!(first_piece("12", '_'), "12");
    assert_eq!(first_piece("_12", '_'), "");
    for hay in ["", "a", "abab", "xaab", "äöü"] {
        for needle in ["", "a", "ab", "aab", "ö", "abc"] {
            assert_eq!(contains(hay, needle), hay.contains(needle), "{hay} {needle}");
        }
    }
    assert!(same_text("é", "é"));
    assert!(!same_text("e", "é"));
    assert_eq!(joined("a", "b"), "ab");
}

#[test]
fn numbers_print_and_parse_as_in_std() {
    for n in [0, 1, -1, 9, 10, -10, 12345, i64::MAX, i64::MIN] {
        assert_eq!(i64_text(n), n.to_string());
        assert_eq!(parse_i64(&i64_text(n)), Some(n));
    }
    for n in [0, 7, 10, u64::MAX] {
        assert_eq!(u64_text(n), n.to_string());
        assert_eq!(parse_u64(&u64_text(n)), Some(n));
    }
    for s in [
        "", "+", "-", "+5", "-5", "--5", "+-5", "5 ", " 5", "05", "-0", "1e3", "9223372036854775807",
        "9223372036854775808", "-9223372036854775808", "-9223372036854775809",
        "18446744073709551615", "18446744073709551616", "99999999999999999999999", "٣", "65535",
        "65536", "0x10",
    ] {
        assert_eq!(parse_i64(s), s.parse().ok(), "{s}");
        assert_eq!(parse_u64(s), s.parse().ok(), "{s}");
        assert_eq!(parse_u16(s), s.parse().ok(), "{s}");
        assert_eq!(parse_usize(s), s.parse().ok(), "{s}");
    }
}

#[test]
fn doubles_compare_as_in_std() {
    let values = [
        0.0,
        -0.0,
        1.0,
        -1.0,
        1e-310,
        -1e-310,
        52.5,
        f64::MAX,
        f64::MIN,
        f64::INFINITY,
        f64::NEG_INFINITY,
        f64::NAN,
        -f64::NAN,
    ];
    for a in values {
        assert_eq!(double_is_zero(a.to_bits()), a == 0.0, "{a}");
        for b in values {
            assert_eq!(double_less(a.to_bits(), b.to_bits()), a < b, "{a} {b}");
        }
    }
}

#[test]
fn text_map_finds_changes_and_forgets() {
    let mut map: TextMap<u32> = TextMap::new();
    for n in 0..20u32 {
        map.insert(&format!("k{n}"), n);
    }
    map.insert("k3", 33);
    assert_eq!(map.len(), 20);
    assert_eq!(map.get("k3"), Some(&33));
    assert_eq!(map.get("none"), None);
    assert!(map.contains_key("k7"));
    *map.get_mut("k7").unwrap() = 77;
    assert!(map.get_mut("none").is_none());
    assert_eq!(map.remove("k0"), Some(0));
    assert_eq!(map.remove("k0"), None);
    assert_eq!(map.remove("k19"), Some(19));
    let mut seen: Vec<(String, u32)> =
        (0..map.len()).map(|i| (map.key_at(i).clone(), *map.value_at(i))).collect();
    seen.sort();
    let mut expected: Vec<(String, u32)> = (1..19u32)
        .map(|n| (format!("k{n}"), if n == 3 { 33 } else if n == 7 { 77 } else { n }))
        .collect();
    expected.sort();
    assert_eq!(seen, expected);
    for (k, v) in expected {
        assert_eq!(map.get(&k), Some(&v));
    }
}
