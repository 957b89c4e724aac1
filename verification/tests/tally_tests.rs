use data_api::json::{Json, JsonNumber};
use data_api::rejection::Rejection;
use data_api::tally::{
    fingerprint, hmac_key, poll_view, publish_plan, validate_poll, vote_check, vote_insert_failure,
    vote_keys, vote_step, PollPublish, VoteBody, VoteStep,
};

fn s(t: &str) -> Json {
    Json::Str(t.to_string())
}

fn obj(members: Vec<(&str, Json)>) -> Json {
    Json::Object(members.into_iter().map(|(k, v)| (k.to_string(), v)).collect())
}

fn poll(q: Json, options: Vec<Json>) -> Json {
    obj(vec![("q", q), ("options", Json::Array(options))])
}

const POLL_ID: [u8; 16] = [0, 1, 2, 3, 4, 5, 6, 7, 8, 9, 10, 11, 12, 13, 14, 15];

#[test]
fn a_good_poll_is_accepted() {
    assert_eq!(validate_poll(&poll(s("Tea or coffee?"), vec![s("tea"), s("coffee")])), Ok(()));
}

#[test]
fn poll_refusals() {
    assert_eq!(validate_poll(&Json::Null), Err(Rejection::PollNeedsQuestion));
    assert_eq!(
        validate_poll(&poll(Json::Number(JsonNumber::PosInt(1)), vec![s("a"), s("b")])),
        Err(Rejection::PollNeedsQuestion)
    );
    assert_eq!(validate_poll(&poll(s(""), vec![s("a"), s("b")])), Err(Rejection::BadQuestion));
    assert_eq!(validate_poll(&poll(s(&"q".repeat(141)), vec![s("a"), s("b")])), Err(Rejection::BadQuestion));
    assert_eq!(validate_poll(&obj(vec![("q", s("q"))])), Err(Rejection::PollNeedsOptions));
    assert_eq!(validate_poll(&poll(s("q"), vec![s("a")])), Err(Rejection::BadOptions));
    let thirteen: Vec<Json> = (0..13).map(|i| s(&i.to_string())).collect();
    assert_eq!(validate_poll(&poll(s("q"), thirteen)), Err(Rejection::BadOptions));
    assert_eq!(validate_poll(&poll(s("q"), vec![s("a"), s("")])), Err(Rejection::BadOptionLength));
    assert_eq!(
        validate_poll(&poll(s("q"), vec![s("a"), s(&"o".repeat(65))])),
        Err(Rejection::BadOptionLength)
    );
    assert_eq!(validate_poll(&poll(s("q"), vec![s("a"), s("b"), s("a")])), Err(Rejection::DuplicateOption));
    assert_eq!(validate_poll(&poll(s("q"), vec![s("a"), Json::Null])), Err(Rejection::InvalidOption));
}

#[test]
fn accepted_poll_options_are_distinct() {
    let p = poll(s("q"), vec![s("a"), s("b"), s("c")]);
    assert_eq!(validate_poll(&p), Ok(()));
    let p2 = poll(s("q"), vec![s("a"), s("b"), s("b")]);
    assert!(validate_poll(&p2).is_err());
}

#[test]
fn fingerprint_is_the_text_digest() {
    assert_eq!(fingerprint("{\"q\":\"x\"}"), "a69fbbcf7209c6f659a75067c9fa03037c2ae23f55a6f854d5994209129bbbf6");
}

#[test]
fn publishing_the_open_poll_again_changes_nothing() {
    assert_eq!(publish_plan(None, "fp"), PollPublish::Create(1));
    assert_eq!(publish_plan(Some((4, "fp", "open")), "fp"), PollPublish::Unchanged(4));
    assert_eq!(publish_plan(Some((4, "fp", "closed")), "fp"), PollPublish::Create(5));
    assert_eq!(publish_plan(Some((4, "other", "open")), "fp"), PollPublish::Create(5));
}

fn vote(token: Option<&str>, option: Option<&str>, idem: Option<&str>) -> VoteBody {
    VoteBody {
        token: token.map(|t| t.to_string()),
        option: option.map(|t| t.to_string()),
        idem: idem.map(|t| t.to_string()),
    }
}

#[test]
fn vote_refusals() {
    let p = poll(s("q"), vec![s("a"), s("b")]);
    let good = vote(Some("t"), Some("a"), Some("i"));
    assert_eq!(vote_check(Some((&p, "open")), &good), Ok(()));
    assert_eq!(vote_check(None, &good), Err(Rejection::NoPoll));
    assert_eq!(vote_check(Some((&p, "closed")), &good), Err(Rejection::PollClosed));
    assert_eq!(vote_check(Some((&p, "open")), &vote(Some(""), Some("a"), Some("i"))), Err(Rejection::VoteTokenRequired));
    assert_eq!(vote_check(Some((&p, "open")), &vote(None, Some("a"), Some("i"))), Err(Rejection::VoteTokenRequired));
    assert_eq!(vote_check(Some((&p, "open")), &vote(Some("t"), Some("a"), None)), Err(Rejection::IdemRequired));
    assert_eq!(vote_check(Some((&p, "open")), &vote(Some("t"), Some("c"), Some("i"))), Err(Rejection::UnknownOption));
    assert_eq!(vote_check(Some((&p, "open")), &vote(Some("t"), None, Some("i"))), Err(Rejection::UnknownOption));
    assert_eq!(
        vote_check(Some((&obj(vec![]), "open")), &good),
        Err(Rejection::UnknownOption)
    );
}

#[test]
fn voter_keys_are_keyed_by_the_poll() {
    assert_eq!(hmac_key(&POLL_ID, "voter"), "TseOQQnrJ43vZOShee9rGr5czfdxWqq26SArWpzmgxQ");
    let (key, idem) = vote_keys(&POLL_ID, "voter");
    assert_eq!(key, "TseOQQnrJ43vZOShee9rGr5czfdxWqq26SArWpzmgxQ");
    assert_eq!(idem, "l1PwWkGTZuPtklfVbWTwNBSyWVcsPHS55IAUwhGh1vE");
    let mut other = POLL_ID;
    other[0] = 9;
    assert_ne!(hmac_key(&other, "voter"), key);
}

#[test]
fn a_repeated_vote_counts_once() {
    assert_eq!(vote_step(None, "a"), Ok(VoteStep::Record));
    assert_eq!(vote_step(Some("a"), "a"), Ok(VoteStep::Replay));
    assert_eq!(vote_step(Some("a"), "b"), Err(Rejection::AlreadyVoted));
}

#[test]
fn insert_failures() {
    assert_eq!(vote_insert_failure(Some("23505")), Rejection::AlreadyVoted);
    assert_eq!(vote_insert_failure(Some("40001")), Rejection::StoreError);
    assert_eq!(vote_insert_failure(None), Rejection::StoreError);
}

#[test]
fn totals_show_when_closed_or_always() {
    let p = poll(s("q"), vec![s("a"), s("b")]);
    let v = poll_view(&p, "open");
    assert!(!v.closed);
    assert_eq!(v.visibility, "afterVote");
    assert!(!v.show_totals);
    let v = poll_view(&p, "closed");
    assert!(v.closed && v.show_totals);
    let always = obj(vec![("visibility", s("always"))]);
    let v = poll_view(&always, "open");
    assert_eq!(v.visibility, "always");
    assert!(v.show_totals);
}
