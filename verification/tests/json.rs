use ente_api::float::{double_canonical, double_truncated};
use ente_api::json::{parse_json, Json};

fn json(s: &str) -> Json {
    parse_json(s.as_bytes()).unwrap()
}

#[test]
fn documents_are_read() {
    let v = json(r#"{"a": [1, "two", null, true, 2.5], "b": {"c": "x"}, "a2": false}"#);
    let items = v.list_field("a").unwrap();
    assert_eq!(items.len(), 5);
    assert_eq!(items[0].as_i64(), Some(1));
    assert_eq!(items[1].as_str().unwrap(), "two");
    assert!(matches!(items[2], Json::Null));
    assert!(matches!(items[3], Json::Bool(true)));
    assert_eq!(items[4].as_f64(), Some(2.5f64.to_bits()));
    assert_eq!(v.get("b").unwrap().str_field("c"), Some("x".to_string()));
    assert!(v.get("missing").is_none());
    assert!(items[0].get("x").is_none());
    assert!(parse_json(b"{").is_none());
    assert!(parse_json(b"1 2").is_none());
    assert!(parse_json(b"").is_none());
}

#[test]
fn readings_of_numbers_and_texts() {
    let v = json(
        r#"{"n": 7, "neg": -7, "frac": 2.9, "negfrac": -2.9, "big": 18446744073709551615,
            "huge": 1e300, "t": "42", "tf": "1.5", "bad": "x", "nan": "NaN", "flag": true}"#,
    );
    assert_eq!(v.i64_field("n"), Some(7));
    assert_eq!(v.i64_field("frac"), Some(2));
    assert_eq!(v.i64_field("negfrac"), Some(-2));
    assert_eq!(v.i64_field("big"), Some(i64::MAX));
    assert_eq!(v.i64_field("huge"), Some(i64::MAX));
    assert_eq!(v.i64_field("t"), Some(42));
    assert_eq!(v.i64_field("tf"), None);
    assert_eq!(v.i64_field("flag"), None);
    assert_eq!(v.i64_field("missing"), None);
    assert_eq!(v.plain_i64_field("neg"), Some(-7));
    assert_eq!(v.plain_i64_field("frac"), None);
    assert_eq!(v.plain_i64_field("t"), None);
    assert_eq!(v.u64_field("big"), Some(u64::MAX));
    assert_eq!(v.u64_field("neg"), None);
    assert_eq!(v.u64_field("t"), None);
    assert_eq!(v.f64_field("n"), Some(7.0f64.to_bits()));
    assert_eq!(v.f64_field("tf"), Some(1.5f64.to_bits()));
    assert_eq!(v.f64_field("bad"), None);
    assert!(f64::from_bits(v.f64_field("nan").unwrap()).is_nan());
    assert_eq!(v.printed("n"), Some("7".to_string()));
    assert_eq!(v.printed("frac"), Some("2.9".to_string()));
    assert_eq!(v.printed("t"), Some("42".to_string()));
    assert_eq!(v.printed("flag"), None);
    assert_eq!(v.str_field("n"), None);
    assert!(v.is_set("flag"));
    assert!(!v.is_set("n"));
}

#[test]
fn doubles_are_cut_to_integers() {
    for d in [
        0.0f64,
        -0.0,
        0.5,
        -0.999,
        1.0,
        1.5,
        -1.5,
        2.0f64.powi(-63),
        f64::MIN_POSITIVE,
        5e-324,
        1e-300,
        123456789.75,
        -123456789.75,
        4503599627370495.5,
        4503599627370496.0,
        9007199254740991.0,
        -9007199254740993.0,
        9007199254740994.0,
        4611686018427387904.0,
        9223372036854774784.0,
        9223372036854775808.0,
        -9223372036854774784.0,
        -9223372036854775808.0,
        -9223372036854777856.0,
        1.8446744073709552e19,
        1e300,
        -1e300,
        f64::MAX,
        f64::INFINITY,
        f64::NEG_INFINITY,
        f64::NAN,
        -f64::NAN,
    ] {
        assert_eq!(double_truncated(d.to_bits()), d as i64, "{d}");
    }
    // Every exponent, with both signs.
    for exponent in 0u64..2048 {
        for low in [0u64, 1, 0x5_5555_5555_5555, 0xf_ffff_ffff_ffff] {
            for sign in [0u64, 1 << 63] {
                let bits = sign | (exponent << 52) | low;
                assert_eq!(double_truncated(bits), f64::from_bits(bits) as i64);
            }
        }
    }
}

#[test]
fn texts_that_are_no_number_get_one_form() {
    let v = json(r#"{"a": "NaN", "b": "-nan", "c": "+NaN", "d": "-inf"}"#);
    assert_eq!(v.f64_field("a"), Some(0x7ff8_0000_0000_0000));
    assert_eq!(v.f64_field("b"), Some(0x7ff8_0000_0000_0000));
    assert_eq!(v.f64_field("c"), Some(0x7ff8_0000_0000_0000));
    assert_eq!(v.f64_field("d"), Some(f64::NEG_INFINITY.to_bits()));
    assert_eq!(double_canonical((-f64::NAN).to_bits()), 0x7ff8_0000_0000_0000);
    assert_eq!(double_canonical(1.5f64.to_bits()), 1.5f64.to_bits());
}

#[test]
fn lists_are_taken_out() {
    assert_eq!(json(r#"{"l": [1, 2]}"#).take_list("l").len(), 2);
    assert_eq!(json(r#"{"l": 3}"#).take_list("l").len(), 0);
    assert_eq!(json(r#"{"m": [1]}"#).take_list("l").len(), 0);
    assert_eq!(json("[1]").take_list("l").len(), 0);
}

#[test]
fn last_of_repeated_fields_counts() {
    assert_eq!(json(r#"{"a": 1, "a": 2}"#).i64_field("a"), Some(2));
}
