use data_api::archive::{capture_reason, head_hash, is_unchanged, next_seq, redact, restore_seq, snapshot_of, CaptureBody, RestoreBody};
use data_api::asks::{
    check_question, draft_answer, list_gate, publish_check, publish_order, retention_caps, submit_gate,
    PublishStep, Submit,
};
use data_api::json::Json;
use data_api::rejection::Rejection;

fn s(t: &str) -> Json {
    Json::Str(t.to_string())
}

fn obj(members: Vec<(&str, Json)>) -> Json {
    Json::Object(members.into_iter().map(|(k, v)| (k.to_string(), v)).collect())
}

#[test]
fn capture_helpers() {
    assert_eq!(head_hash("{\"q\":\"x\"}"), "a69fbbcf7209c6f659a75067c9fa03037c2ae23f55a6f854d5994209129bbbf6");
    assert!(is_unchanged(Some("h"), "h"));
    assert!(!is_unchanged(Some("h"), "g"));
    assert!(!is_unchanged(None, "h"));
    assert_eq!(next_seq(Some(7)), 8);
    assert_eq!(next_seq(Some(0)), 1);
    assert_eq!(next_seq(None), 1);
    assert_eq!(next_seq(Some(i32::MAX)), 1);
    assert_eq!(capture_reason(&None), "profile update");
    assert_eq!(capture_reason(&Some("manual".to_string())), "manual");
    let b = CaptureBody { snapshot: None, reason: None, actor: None };
    assert_eq!(snapshot_of(&b), obj(vec![]));
    let b = CaptureBody { snapshot: Some(s("x")), reason: None, actor: None };
    assert_eq!(snapshot_of(&b), s("x"));
    assert_eq!(restore_seq(&RestoreBody { seq: Some(3), actor: None }), Ok(3));
    assert_eq!(restore_seq(&RestoreBody { seq: None, actor: None }), Err(Rejection::SeqRequired));
}

#[test]
fn restore_blanks_capsule_text_and_secret_words() {
    let snap = obj(vec![
        ("name", s("ada")),
        (
            "settings",
            obj(vec![
                ("capsule", obj(vec![("text", s("hidden")), ("label", s("L"))])),
                ("secret", obj(vec![("word", s("w")), ("url", s("u")), ("label", s("keep"))])),
                ("tags", Json::Array(vec![s("a")])),
            ]),
        ),
        ("capsule", obj(vec![("text", s("not the settings path"))])),
    ]);
    let want = obj(vec![
        ("name", s("ada")),
        (
            "settings",
            obj(vec![
                ("capsule", obj(vec![("text", s("")), ("label", s("L"))])),
                ("secret", obj(vec![("word", s("")), ("url", s("")), ("label", s("keep"))])),
                ("tags", Json::Array(vec![s("a")])),
            ]),
        ),
        ("capsule", obj(vec![("text", s("not the settings path"))])),
    ]);
    let once = redact(&snap);
    assert_eq!(once, want);
    assert_eq!(redact(&once), want);
}

#[test]
fn redact_reaches_into_arrays_and_leaves_non_strings() {
    let snap = obj(vec![(
        "settings",
        obj(vec![("capsule", obj(vec![("text", Json::Array(vec![s("a"), Json::Bool(true)]))])), ("secret", s("plain"))]),
    )]);
    let want = obj(vec![(
        "settings",
        obj(vec![("capsule", obj(vec![("text", Json::Array(vec![s(""), Json::Bool(true)]))])), ("secret", s("plain"))]),
    )]);
    assert_eq!(redact(&snap), want);
    assert_eq!(redact(&s("x")), s("x"));
}

#[test]
fn asks_gates() {
    assert_eq!(submit_gate(&obj(vec![])), Err(Rejection::FeatureOffForbidden));
    assert_eq!(submit_gate(&obj(vec![("asks", Json::Bool(true))])), Ok(()));
    assert_eq!(
        submit_gate(&obj(vec![("asks", Json::Bool(true)), ("asksAcceptNew", Json::Bool(false))])),
        Err(Rejection::AcceptNewOff)
    );
    assert_eq!(list_gate(&obj(vec![("asks", Json::Bool(true))])), Ok(()));
    assert_eq!(list_gate(&obj(vec![])), Err(Rejection::FeatureOff));
    assert_eq!(Rejection::FeatureOffForbidden.status(), 403);
    assert_eq!(Rejection::FeatureOff.status(), 404);
}

fn ask(q: Option<&str>, c: Option<&str>) -> Submit {
    Submit { question: q.map(|t| t.to_string()), contact: c.map(|t| t.to_string()), ip: None }
}

#[test]
fn questions_are_bounded() {
    let q = check_question(&ask(Some("why?"), Some(""))).ok().unwrap();
    assert_eq!(q.question, "why?");
    assert_eq!(q.contact, None);
    let q = check_question(&ask(Some("why?"), Some("me@x"))).ok().unwrap();
    assert_eq!(q.contact, Some("me@x".to_string()));
    assert_eq!(check_question(&ask(None, None)).err(), Some(Rejection::InvalidQuestion));
    assert_eq!(check_question(&ask(Some(&"q".repeat(501)), None)).err(), Some(Rejection::InvalidQuestion));
    assert!(check_question(&ask(Some(&"q".repeat(500)), None)).is_ok());
    assert_eq!(check_question(&ask(Some("q"), Some(&"c".repeat(201)))).err(), Some(Rejection::InvalidContact));
}

#[test]
fn retention_table() {
    let caps = retention_caps();
    assert_eq!(caps, [("pending", 400), ("draft", 200), ("published", 200), ("rejected", 400)]);
}

#[test]
fn publishing_needs_an_answer() {
    assert_eq!(publish_check("published", "q", None), Ok(PublishStep::Already));
    assert_eq!(publish_check("pending", "q", None), Err(Rejection::AnswerRequired));
    assert_eq!(publish_check("pending", "q", Some("")), Err(Rejection::AnswerRequired));
    assert_eq!(publish_check("pending", "q", Some(&"a".repeat(2001))), Err(Rejection::AnswerTooLong));
    assert_eq!(publish_check("draft", &"q".repeat(501), Some("a")), Err(Rejection::QuestionTooLong));
    assert_eq!(publish_check("draft", "q", Some("a")), Ok(PublishStep::Publish));
    assert_eq!(publish_order("draft", 4, Some(9)), 4);
    assert_eq!(publish_order("pending", 4, Some(9)), 10);
    assert_eq!(publish_order("pending", 4, None), 1);
}

#[test]
fn drafts_are_trimmed() {
    assert_eq!(draft_answer(&obj(vec![("answer", s("  yes "))])), Ok(Some("yes".to_string())));
    assert_eq!(draft_answer(&obj(vec![("answer", s("   "))])), Ok(None));
    assert_eq!(draft_answer(&obj(vec![])), Ok(None));
    assert_eq!(draft_answer(&obj(vec![("answer", Json::Bool(true))])), Ok(None));
    assert_eq!(draft_answer(&obj(vec![("answer", s(&"a".repeat(2001)))])), Err(Rejection::AnswerTooLong));
}
