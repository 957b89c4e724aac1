use data_api::json::{Json, JsonNumber};
use data_api::text::{chars_of, parse_i64, parse_u32, string_of, to_lower_hex, trim, white_space};

fn s(t: &str) -> Json {
    Json::Str(t.to_string())
}

fn obj(members: Vec<(&str, Json)>) -> Json {
    Json::Object(members.into_iter().map(|(k, v)| (k.to_string(), v)).collect())
}

#[test]
fn trim_strips_unicode_white_space_at_both_ends() {
    assert_eq!(trim("  hello \t\n"), "hello");
    assert_eq!(trim("\u{3000}a b\u{00A0}"), "a b");
    assert_eq!(trim("   "), "");
    assert_eq!(trim(""), "");
    assert_eq!(trim("x"), "x");
}

#[test]
fn white_space_matches_std() {
    for c in ['\t', '\n', '\r', ' ', '\u{85}', '\u{A0}', '\u{2000}', '\u{3000}', 'a', '0', '\u{200B}'] {
        assert_eq!(white_space(c), c.is_whitespace(), "{:?}", c);
    }
}

#[test]
fn parse_i64_accepts_sign_and_digits_only() {
    assert_eq!(parse_i64("42"), Some(42));
    assert_eq!(parse_i64("+7"), Some(7));
    assert_eq!(parse_i64("-15"), Some(-15));
    assert_eq!(parse_i64("9223372036854775807"), Some(i64::MAX));
    assert_eq!(parse_i64("-9223372036854775808"), Some(i64::MIN));
    assert_eq!(parse_i64("9223372036854775808"), None);
    assert_eq!(parse_i64(""), None);
    assert_eq!(parse_i64("-"), None);
    assert_eq!(parse_i64("1:30"), None);
    assert_eq!(parse_i64(" 1"), None);
}

#[test]
fn parse_u32_matches_std() {
    for t in ["0", "23", "+5", "4294967295", "4294967296", "-1", "", "+", "1a", "007"] {
        assert_eq!(parse_u32(t), t.parse::<u32>().ok(), "{:?}", t);
    }
}

#[test]
fn lower_hex_of_bytes() {
    assert_eq!(to_lower_hex(&[0x00, 0x0f, 0xab, 0xff]), "000fabff");
    assert_eq!(to_lower_hex(&[]), "");
}

#[test]
fn chars_round_trip() {
    let cs = chars_of("héllo");
    assert_eq!(cs, vec!['h', 'é', 'l', 'l', 'o']);
    assert_eq!(string_of(&cs), "héllo");
}

#[test]
fn json_reads_members_by_key() {
    let v = obj(vec![
        ("a", s("x")),
        ("b", Json::Bool(true)),
        ("n", Json::Number(JsonNumber::NegInt(-3))),
        ("big", Json::Number(JsonNumber::PosInt(u64::MAX))),
    ]);
    assert_eq!(v.str_at("a"), Some("x"));
    assert_eq!(v.str_at("b"), None);
    assert_eq!(v.bool_at("b"), Some(true));
    assert_eq!(v.i64_at("n"), Some(-3));
    assert_eq!(v.i64_at("big"), None);
    assert_eq!(v.i64_at("missing"), None);
    assert!(v.get("missing").is_none());
    assert!(s("x").get("a").is_none());
}

#[test]
fn json_copy_is_deep_and_equal() {
    let v = obj(vec![("list", Json::Array(vec![s("a"), Json::Null])), ("o", obj(vec![("k", s("v"))]))]);
    let c = v.copy();
    assert_eq!(c, v);
}

#[test]
fn json_number_ranges() {
    assert!(JsonNumber::PosInt(1).unit_range());
    assert!(!JsonNumber::PosInt(2).unit_range());
    assert!(JsonNumber::Float(0.5f64.to_bits()).unit_range());
    assert!(JsonNumber::Float((-0.0f64).to_bits()).unit_range());
    assert!(!JsonNumber::Float((-0.5f64).to_bits()).unit_range());
    assert!(JsonNumber::Float(10.0f64.to_bits()).width_range());
    assert!(!JsonNumber::Float(10.5f64.to_bits()).width_range());
    assert!(!JsonNumber::PosInt(0).width_range());
    assert_eq!(JsonNumber::PosInt(5).as_i64(), Some(5));
}
