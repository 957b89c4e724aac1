use data_api::capsule::{capsule_cfg, capsule_view, check_capsule_body, opening, Opening};
use data_api::draw::{cards_from_cfg, deck_fingerprint, draw_deck, draw_write, lines_of, stored_day, today_key, DrawWrite};
use data_api::json::Json;
use data_api::moon::{is_north, lit_side, moon_hemisphere, LitSide};
use data_api::rejection::Rejection;

fn s(t: &str) -> Json {
    Json::Str(t.to_string())
}

fn obj(members: Vec<(&str, Json)>) -> Json {
    Json::Object(members.into_iter().map(|(k, v)| (k.to_string(), v)).collect())
}

#[test]
fn capsule_body_limit() {
    let ok = obj(vec![("capsule", obj(vec![("text", s(&"é".repeat(5000)))]))]);
    assert_eq!(check_capsule_body(&ok), Ok(()));
    let big = obj(vec![("capsule", obj(vec![("text", s(&"a".repeat(5001)))]))]);
    assert_eq!(check_capsule_body(&big), Err(Rejection::CapsuleTooLarge));
    assert_eq!(check_capsule_body(&obj(vec![])), Ok(()));
    assert_eq!(Rejection::CapsuleTooLarge.code(), "payload_too_large");
    assert_eq!(capsule_cfg(&obj(vec![])), obj(vec![]));
}

#[test]
fn capsule_opens_once_due_and_stays_open() {
    let at = (1_700_000_000i64, 500u32);
    assert!(matches!(opening(None, Some(at), (1_699_999_999, 999_999_999)), Opening::Sealed));
    assert!(matches!(opening(None, Some(at), (1_700_000_000, 499)), Opening::Sealed));
    assert!(matches!(opening(None, Some(at), (1_700_000_000, 500)), Opening::OpensNow));
    assert!(matches!(opening(None, Some(at), (1_800_000_000, 0)), Opening::OpensNow));
    assert!(matches!(opening(None, None, (1_800_000_000, 0)), Opening::Sealed));
    match opening(Some("2023-11-14T22:13:20+00:00"), Some(at), (0, 0)) {
        Opening::Opened(t) => assert_eq!(t, "2023-11-14T22:13:20+00:00"),
        _ => panic!("a recorded opening stands"),
    }
}

#[test]
fn capsule_view_reads_the_release_instant() {
    let cfg = obj(vec![("label", s("L")), ("at", s("2023-11-14T22:13:20Z")), ("text", s("hello"))]);
    let sealed = capsule_view(&cfg, &obj(vec![]), (1_700_000_000 - 1, 0));
    assert_eq!(sealed.label, "L");
    assert_eq!(sealed.at, "2023-11-14T22:13:20Z");
    assert_eq!(sealed.body, None);
    assert!(matches!(sealed.opening, Opening::Sealed));
    let due = capsule_view(&cfg, &obj(vec![]), (1_700_000_000, 0));
    assert!(matches!(due.opening, Opening::OpensNow));
    assert_eq!(due.body, Some("hello".to_string()));
    let offset = obj(vec![("at", s("2023-11-15T00:13:20+02:00"))]);
    assert!(matches!(capsule_view(&offset, &obj(vec![]), (1_700_000_000, 0)).opening, Opening::OpensNow));
    assert!(matches!(capsule_view(&offset, &obj(vec![]), (1_699_999_999, 0)).opening, Opening::Sealed));
    let unparsable = obj(vec![("at", s("tomorrow"))]);
    assert!(matches!(capsule_view(&unparsable, &obj(vec![]), (i64::MAX, 0)).opening, Opening::Sealed));
    let opened = obj(vec![("openedAt", s("then"))]);
    match capsule_view(&unparsable, &opened, (0, 0)).opening {
        Opening::Opened(t) => assert_eq!(t, "then"),
        _ => panic!("opened stays open"),
    }
}

#[test]
fn lines_split_on_line_feeds() {
    assert_eq!(lines_of("a\nb\r\n\nc"), vec!["a".to_string(), "b\r".to_string(), String::new(), "c".to_string()]);
    assert_eq!(lines_of(""), vec![String::new()]);
    assert_eq!(lines_of("x\n"), vec!["x".to_string(), String::new()]);
}

#[test]
fn deck_from_text_and_arrays() {
    let text = s(" one \r\n\n two\n  \nthree\n");
    assert_eq!(cards_from_cfg(&text), vec!["one".to_string(), "two".to_string(), "three".to_string()]);
    let arr = Json::Array(vec![s(" a "), Json::Null, s(""), s(&"x".repeat(161)), s("b")]);
    assert_eq!(cards_from_cfg(&arr), vec!["a".to_string(), "b".to_string()]);
    let many: Vec<Json> = (0..20).map(|i| s(&format!("card {}", i))).collect();
    let deck = cards_from_cfg(&Json::Array(many));
    assert_eq!(deck.len(), 12);
    assert_eq!(deck[11], "card 11");
    assert!(cards_from_cfg(&Json::Bool(true)).is_empty());
    let exact = s(&"y".repeat(160));
    assert_eq!(cards_from_cfg(&exact).len(), 1);
}

#[test]
fn draw_refusals() {
    assert_eq!(draw_deck(&obj(vec![])), Err(Rejection::FeatureOff));
    assert_eq!(draw_deck(&obj(vec![("draw", s("a\nb"))])), Err(Rejection::FeatureOff));
    assert_eq!(draw_deck(&obj(vec![("draw", Json::Bool(true))])), Err(Rejection::NoDeck));
    assert_eq!(draw_deck(&obj(vec![("draw", Json::Array(vec![s("  "), Json::Null]))])), Err(Rejection::NoDeck));
    assert_eq!(
        draw_deck(&obj(vec![("draw", Json::Array(vec![s(" a "), s("b")]))])),
        Ok(vec!["a".to_string(), "b".to_string()])
    );
}

#[test]
fn day_key_and_fingerprint() {
    assert_eq!(today_key(0), Some("1970-01-01".to_string()));
    assert_eq!(today_key(1_700_000_000), Some("2023-11-14".to_string()));
    assert_eq!(deck_fingerprint(&vec!["a".to_string(), "b\"".to_string()]), "[\"a\", \"b\\\"\"]");
    assert_eq!(deck_fingerprint(&vec![]), "[]");
}

#[test]
fn promotion_once_per_day() {
    assert_eq!(draw_write("2023-11-13", "2023-11-14", "x", "x"), DrawWrite::Promote);
    assert_eq!(draw_write("2023-11-14", "2023-11-14", "old", "new"), DrawWrite::Refresh);
    assert_eq!(draw_write("2023-11-14", "2023-11-14", "same", "same"), DrawWrite::Keep);
    assert_eq!(stored_day(&obj(vec![("day", s("2023-11-14"))])), "2023-11-14");
    assert_eq!(stored_day(&obj(vec![])), "");
}

#[test]
fn moon_hemisphere_and_side() {
    assert_eq!(moon_hemisphere(&obj(vec![])), Err(Rejection::FeatureOff));
    assert_eq!(moon_hemisphere(&obj(vec![("moon", Json::Bool(true))])), Ok("north".to_string()));
    let south = obj(vec![("moon", obj(vec![("hemisphere", s("South"))]))]);
    assert_eq!(moon_hemisphere(&south), Ok("South".to_string()));
    assert!(is_north("north"));
    assert!(is_north("NoRtH"));
    assert!(!is_north("south"));
    assert!(!is_north("northern"));
    assert_eq!(lit_side(true, true), LitSide::Right);
    assert_eq!(lit_side(false, false), LitSide::Right);
    assert_eq!(lit_side(true, false), LitSide::Left);
    assert_eq!(lit_side(false, true), LitSide::Left);
    assert_eq!(LitSide::Right.name(), "right");
    assert_eq!(LitSide::Left.name(), "left");
}
