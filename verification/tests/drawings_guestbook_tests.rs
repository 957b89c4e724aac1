use data_api::drawings::{
    board_capacity, check_submission, doodle_settings, pin_capacity, pin_order, pin_target, regex_color,
    validate_strokes, DoodleSettings, SubmitBody,
};
use data_api::guestbook::{
    approved_version, check_entry, guestbook_settings, inbox_status, intake_gate, moderation_step, page_count,
    page_window, pin_check, queue_capacity, GuestbookSettings, ListQuery, ModerationStep, Submit,
};
use data_api::json::{Json, JsonNumber};
use data_api::rejection::Rejection;

fn s(t: &str) -> Json {
    Json::Str(t.to_string())
}

fn obj(members: Vec<(&str, Json)>) -> Json {
    Json::Object(members.into_iter().map(|(k, v)| (k.to_string(), v)).collect())
}

fn f(x: f64) -> Json {
    Json::Number(JsonNumber::Float(x.to_bits()))
}

fn point(x: Json, y: Json) -> Json {
    Json::Array(vec![x, y])
}

fn stroke(points: Vec<Json>) -> Json {
    obj(vec![("points", Json::Array(points))])
}

#[test]
fn hex_colors() {
    assert!(regex_color("#fff"));
    assert!(regex_color("A0b1C2"));
    assert!(!regex_color("#ffff"));
    assert!(!regex_color("#ggg"));
    assert!(!regex_color("##fff"));
    assert!(!regex_color(""));
    assert!(!regex_color("#"));
}

#[test]
fn good_strokes_pass() {
    let strokes = Json::Array(vec![obj(vec![
        ("points", Json::Array(vec![point(f(0.0), f(1.0)), Json::Array(vec![f(0.5), f(0.5), f(0.25)])])),
        ("color", s("#abc")),
        ("width", f(2.5)),
    ])]);
    assert_eq!(validate_strokes(&strokes), Ok(()));
    let ints = Json::Array(vec![stroke(vec![point(Json::Number(JsonNumber::PosInt(1)), Json::Number(JsonNumber::PosInt(0)))])]);
    assert_eq!(validate_strokes(&ints), Ok(()));
}

#[test]
fn stroke_refusals() {
    assert_eq!(validate_strokes(&s("x")), Err(Rejection::InvalidStrokes));
    assert_eq!(validate_strokes(&Json::Array(vec![])), Err(Rejection::EmptyStrokes));
    let many: Vec<Json> = (0..101).map(|_| stroke(vec![])).collect();
    assert_eq!(validate_strokes(&Json::Array(many)), Err(Rejection::TooManyStrokes));
    assert_eq!(validate_strokes(&Json::Array(vec![obj(vec![])])), Err(Rejection::InvalidPoints));
    let heavy: Vec<Json> = (0..5001).map(|_| point(f(0.1), f(0.1))).collect();
    let twice = Json::Array(vec![stroke(heavy.iter().map(|p| p.copy()).collect()), stroke(heavy)]);
    assert_eq!(validate_strokes(&twice), Err(Rejection::TooManyPoints));
    assert_eq!(validate_strokes(&Json::Array(vec![stroke(vec![Json::Array(vec![f(0.1)])])])), Err(Rejection::InvalidPointShape));
    assert_eq!(validate_strokes(&Json::Array(vec![stroke(vec![point(s("a"), f(0.1))])])), Err(Rejection::InvalidPointValue));
    assert_eq!(validate_strokes(&Json::Array(vec![stroke(vec![point(f(1.5), f(0.1))])])), Err(Rejection::PointOutOfRange));
    let bad_color = Json::Array(vec![obj(vec![("points", Json::Array(vec![])), ("color", s("red"))])]);
    assert_eq!(validate_strokes(&bad_color), Err(Rejection::InvalidColor));
    let odd_color = Json::Array(vec![obj(vec![("points", Json::Array(vec![])), ("color", Json::Bool(true))])]);
    assert_eq!(validate_strokes(&odd_color), Ok(()));
    let bad_width = Json::Array(vec![obj(vec![("points", Json::Array(vec![])), ("width", f(0.5))])]);
    assert_eq!(validate_strokes(&bad_width), Err(Rejection::InvalidWidth));
    let neg_width = Json::Array(vec![obj(vec![("points", Json::Array(vec![])), ("width", Json::Number(JsonNumber::NegInt(-3)))])]);
    assert_eq!(validate_strokes(&neg_width), Err(Rejection::InvalidWidth));
}

fn doodle(strokes: Option<Json>, description: Option<&str>, schema: Option<i64>) -> SubmitBody {
    SubmitBody { strokes, description: description.map(|t| t.to_string()), schema_version: schema, color: None, width: None }
}

#[test]
fn doodle_submission() {
    let on = DoodleSettings { enabled: true, paused: false };
    let good = Json::Array(vec![stroke(vec![point(f(0.1), f(0.2))])]);
    assert_eq!(check_submission(&on, &doodle(Some(good.copy()), Some("hé"), Some(1)), 20), Ok(20 + 3 + 64));
    assert_eq!(check_submission(&DoodleSettings { enabled: false, paused: false }, &doodle(None, None, None), 4), Err(Rejection::FeatureOff));
    assert_eq!(check_submission(&DoodleSettings { enabled: true, paused: true }, &doodle(None, None, None), 4), Err(Rejection::IntakePaused));
    assert_eq!(check_submission(&on, &doodle(Some(good.copy()), None, Some(2)), 20), Err(Rejection::BadSchemaVersion));
    assert_eq!(check_submission(&on, &doodle(None, None, None), 4), Err(Rejection::InvalidStrokes));
    assert_eq!(check_submission(&on, &doodle(Some(good.copy()), Some(&"d".repeat(281)), None), 20), Err(Rejection::DescriptionTooLong));
    assert_eq!(check_submission(&on, &doodle(Some(good.copy()), None, None), 102_400 - 64), Ok(102_400));
    assert_eq!(check_submission(&on, &doodle(Some(good), None, None), 102_400 - 63), Err(Rejection::PayloadTooLarge));
}

#[test]
fn doodle_switches_and_caps() {
    let st = doodle_settings(&obj(vec![("doodles", Json::Bool(true)), ("doodlesPaused", Json::Bool(true))]));
    assert!(st.enabled && st.paused);
    let st = doodle_settings(&obj(vec![]));
    assert!(!st.enabled && !st.paused);
    assert_eq!(board_capacity(99), Ok(()));
    assert_eq!(board_capacity(100), Err(Rejection::BoardFull));
    assert_eq!(pin_target(Some("kept")), Ok(()));
    assert_eq!(pin_target(Some("pending")), Err(Rejection::NotKept));
    assert_eq!(pin_target(None), Err(Rejection::EntryNotFound));
    assert_eq!(pin_capacity(Some(2)), Ok(()));
    assert_eq!(pin_capacity(Some(3)), Err(Rejection::PinCap));
    assert_eq!(pin_capacity(None), Ok(()));
    assert_eq!(pin_order(Some(8)), 8);
    assert_eq!(pin_order(None), 1);
}

fn entry(name: Option<&str>, msg: Option<&str>) -> Submit {
    Submit { display_name: name.map(|t| t.to_string()), message: msg.map(|t| t.to_string()), ip: None }
}

#[test]
fn guestbook_intake() {
    let cfg = guestbook_settings(&obj(vec![("guestbook", Json::Bool(true)), ("guestbookPinning", Json::Bool(true))]));
    assert!(cfg.enabled && !cfg.paused && cfg.pinning);
    assert_eq!(intake_gate(&cfg), Ok(()));
    assert_eq!(intake_gate(&GuestbookSettings { enabled: false, paused: false, pinning: false }), Err(Rejection::FeatureOffForbidden));
    assert_eq!(intake_gate(&GuestbookSettings { enabled: true, paused: true, pinning: false }), Err(Rejection::IntakePaused));
    let e = check_entry(&entry(Some("Ada"), Some("hi"))).ok().unwrap();
    assert_eq!(e.display_name, "Ada");
    assert_eq!(e.message, "hi");
    assert_eq!(check_entry(&entry(None, Some("hi"))).err(), Some(Rejection::InvalidDisplayName));
    assert_eq!(check_entry(&entry(Some(&"n".repeat(41)), Some("hi"))).err(), Some(Rejection::InvalidDisplayName));
    assert_eq!(check_entry(&entry(Some("Ada"), Some(""))).err(), Some(Rejection::InvalidMessage));
    assert_eq!(check_entry(&entry(Some("Ada"), Some(&"m".repeat(201)))).err(), Some(Rejection::InvalidMessage));
    assert_eq!(queue_capacity(499), Ok(()));
    assert_eq!(queue_capacity(500), Err(Rejection::QueueFull));
}

#[test]
fn guestbook_pages() {
    let w = page_window(&ListQuery { page: None, page_size: None, status: None });
    assert_eq!((w.page, w.page_size, w.offset), (1, 20, 0));
    let w = page_window(&ListQuery { page: Some(3), page_size: Some(5), status: None });
    assert_eq!((w.page, w.page_size, w.offset), (3, 5, 10));
    let w = page_window(&ListQuery { page: Some(0), page_size: Some(50), status: None });
    assert_eq!((w.page, w.page_size, w.offset), (1, 20, 0));
    assert_eq!(page_count(0, 20), 0);
    assert_eq!(page_count(20, 20), 1);
    assert_eq!(page_count(21, 20), 2);
    assert_eq!(page_count(7, 3), 3);
}

#[test]
fn guestbook_inbox_filter() {
    assert_eq!(inbox_status(&None), Ok("pending".to_string()));
    assert_eq!(inbox_status(&Some("removed".to_string())), Ok("removed".to_string()));
    assert_eq!(inbox_status(&Some("spam".to_string())), Err(Rejection::BadStatus));
}

#[test]
fn guestbook_moderation() {
    assert_eq!(moderation_step(false, Some("pending"), "approved"), Err(Rejection::FeatureOff));
    assert_eq!(moderation_step(true, None, "approved"), Err(Rejection::EntryNotFound));
    assert_eq!(moderation_step(true, Some("pending"), "approved"), Ok(ModerationStep::Approve));
    assert_eq!(moderation_step(true, Some("approved"), "approved"), Ok(ModerationStep::AlreadyApproved));
    assert_eq!(moderation_step(true, Some("approved"), "rejected"), Ok(ModerationStep::Reject));
    assert_eq!(moderation_step(true, Some("approved"), "removed"), Ok(ModerationStep::Remove));
    assert_eq!(moderation_step(true, Some("approved"), "pinned"), Err(Rejection::BadAction));
    assert_eq!(approved_version(Some(4)), 5);
    assert_eq!(approved_version(None), 2);
}

#[test]
fn only_approved_entries_are_pinned() {
    let on = GuestbookSettings { enabled: true, paused: false, pinning: true };
    assert_eq!(pin_check(&on, Some("approved")), Ok(()));
    assert_eq!(pin_check(&on, Some("pending")), Err(Rejection::NotApproved));
    assert_eq!(pin_check(&on, None), Err(Rejection::EntryNotFound));
    assert_eq!(pin_check(&GuestbookSettings { enabled: true, paused: false, pinning: false }, Some("approved")), Err(Rejection::PinningOff));
    assert_eq!(pin_check(&GuestbookSettings { enabled: false, paused: false, pinning: true }, Some("approved")), Err(Rejection::FeatureOff));
}
