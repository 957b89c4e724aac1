use data_api::helpers::{
    client_key, digest_hex, feature_enabled, found_or, new_public_id, new_uuid, owned_or_empty,
    public_id_of, rate_decision, scope_key, settings_of, Retry,
};
use data_api::json::{Json, JsonNumber};
use data_api::rejection::Rejection;

fn s(t: &str) -> Json {
    Json::Str(t.to_string())
}

fn obj(members: Vec<(&str, Json)>) -> Json {
    Json::Object(members.into_iter().map(|(k, v)| (k.to_string(), v)).collect())
}

#[test]
fn settings_come_from_the_config_or_are_empty() {
    let cfg = obj(vec![("settings", obj(vec![("night", Json::Bool(true))]))]);
    assert_eq!(settings_of(Some(&cfg)), obj(vec![("night", Json::Bool(true))]));
    assert_eq!(settings_of(Some(&obj(vec![]))), obj(vec![]));
    assert_eq!(settings_of(None), obj(vec![]));
}

#[test]
fn feature_switch_truthiness() {
    let settings = obj(vec![
        ("t", Json::Bool(true)),
        ("f", Json::Bool(false)),
        ("null", Json::Null),
        ("empty_obj", obj(vec![])),
        ("obj", obj(vec![("q", s("?"))])),
        ("empty_arr", Json::Array(vec![])),
        ("arr", Json::Array(vec![Json::Null])),
        ("num", Json::Number(JsonNumber::PosInt(0))),
        ("text", s("")),
    ]);
    assert!(feature_enabled(&settings, "t"));
    assert!(!feature_enabled(&settings, "f"));
    assert!(!feature_enabled(&settings, "null"));
    assert!(!feature_enabled(&settings, "empty_obj"));
    assert!(feature_enabled(&settings, "obj"));
    assert!(!feature_enabled(&settings, "empty_arr"));
    assert!(feature_enabled(&settings, "arr"));
    assert!(!feature_enabled(&settings, "num"));
    assert!(!feature_enabled(&settings, "text"));
    assert!(!feature_enabled(&settings, "absent"));
}

#[test]
fn scope_key_is_the_digest_prefix() {
    assert_eq!(scope_key("1.2.3.4"), "6694f83c9f476da3");
    assert_eq!(scope_key("1.2.3.4").len(), 16);
}

#[test]
fn client_key_defaults_to_question_mark() {
    assert_eq!(client_key(&None), "8a8de823d5ed3e12");
    assert_eq!(client_key(&Some("?".to_string())), "8a8de823d5ed3e12");
    assert_eq!(client_key(&Some("1.2.3.4".to_string())), "6694f83c9f476da3");
}

#[test]
fn digest_hex_known_values() {
    assert_eq!(digest_hex("abc"), "ba7816bf8f01cfea414140de5dae2223b00361a396177a9cb410ff61f20015ad");
    assert_eq!(digest_hex(""), "e3b0c44298fc1c149afbf4c8996fb92427ae41e4649b934ca495991b7852b855");
}

#[test]
fn public_ids_are_unpadded_url_base64() {
    let bytes: [u8; 16] = [0, 1, 2, 3, 4, 5, 6, 7, 8, 9, 10, 11, 12, 13, 14, 15];
    assert_eq!(public_id_of(&bytes), "AAECAwQFBgcICQoLDA0ODw");
    let fresh = new_public_id();
    assert_eq!(fresh.len(), 22);
    assert!(fresh.chars().all(|c| c.is_ascii_alphanumeric() || c == '-' || c == '_'));
}

#[test]
fn fresh_uuids_are_version_4() {
    let a = new_uuid();
    let b = new_uuid();
    assert_eq!(a[6] >> 4, 4);
    assert_eq!(a[8] >> 6, 2);
    assert_ne!(a, b);
}

#[test]
fn rate_limit_refuses_a_full_window_and_says_when_to_retry() {
    assert_eq!(rate_decision(&vec![], 5_000, 1_000, 10), Ok(vec![5_000]));
    assert_eq!(rate_decision(&vec![3_000, 4_500], 5_000, 1_000, 3), Ok(vec![4_500, 5_000]));
    assert_eq!(
        rate_decision(&vec![4_200, 4_500], 5_000, 1_000, 2),
        Err(Retry { at_ms: 5_201, after_ms: 201 })
    );
    assert_eq!(rate_decision(&vec![4_200, 4_500], 5_201, 1_000, 2), Ok(vec![4_500, 5_201]));
    assert_eq!(rate_decision(&vec![4_200, 4_500], 5_200, 1_000, 2), Err(Retry { at_ms: 5_201, after_ms: 1 }));
    assert_eq!(rate_decision(&vec![], 7, 1_000, 0), Err(Retry { at_ms: i64::MAX, after_ms: i64::MAX - 7 }));
    assert_eq!(Rejection::RateLimited.status(), 429);
}

#[test]
fn no_span_of_the_window_lets_more_than_max_through() {
    let mut calls: Vec<i64> = vec![];
    let mut passed = vec![];
    for t in [0i64, 10, 11, 12, 20, 21, 30] {
        if let Ok(next) = rate_decision(&calls, t, 10, 2) {
            calls = next;
            passed.push(t);
        }
    }
    assert_eq!(passed, vec![0, 10, 11, 21, 30]);
    for a in 0..=30i64 {
        assert!(passed.iter().filter(|t| a <= **t && **t <= a + 10).count() <= 2);
    }
}

#[test]
fn found_or_reports_missing_rows() {
    assert_eq!(found_or(0, Rejection::NotOpen), Err(Rejection::NotOpen));
    assert_eq!(found_or(2, Rejection::NotOpen), Ok(()));
}

#[test]
fn owned_or_empty_copies() {
    assert_eq!(owned_or_empty(&Some("x".to_string())), "x");
    assert_eq!(owned_or_empty(&None), "");
}
