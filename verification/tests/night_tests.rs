use data_api::json::{Json, JsonNumber};
use data_api::night::{clock_text, in_window, local_minute_of_day, night_config, night_state, parse_hhmm};
use data_api::rejection::Rejection;

fn s(t: &str) -> Json {
    Json::Str(t.to_string())
}

fn obj(members: Vec<(&str, Json)>) -> Json {
    Json::Object(members.into_iter().map(|(k, v)| (k.to_string(), v)).collect())
}

#[test]
fn window_wraps_past_midnight() {
    assert!(in_window(23 * 60, 23 * 60, 5 * 60));
    assert!(in_window(2 * 60, 23 * 60, 5 * 60));
    assert!(!in_window(5 * 60, 23 * 60, 5 * 60));
    assert!(!in_window(12 * 60, 23 * 60, 5 * 60));
    assert!(in_window(600, 540, 1020));
    assert!(!in_window(1020, 540, 1020));
    assert!(in_window(100, 100, 100));
    assert!(!in_window(101, 100, 100));
}

#[test]
fn swapped_window_is_the_complement() {
    for m in [0u32, 299, 300, 720, 1379, 1380, 1439] {
        assert_ne!(in_window(m, 1380, 300), in_window(m, 300, 1380), "{}", m);
    }
}

#[test]
fn hhmm_from_text_and_numbers() {
    assert_eq!(parse_hhmm(Some(&s("22:30")), 23), 22 * 60 + 30);
    assert_eq!(parse_hhmm(Some(&s("25:75")), 23), 60 + 15);
    assert_eq!(parse_hhmm(Some(&s("x:10")), 23), 23 * 60 + 10);
    assert_eq!(parse_hhmm(Some(&s("7:y")), 23), 7 * 60);
    assert_eq!(parse_hhmm(Some(&s("1:2:3")), 5), 5 * 60);
    assert_eq!(parse_hhmm(Some(&s("nothing")), 5), 5 * 60);
    assert_eq!(parse_hhmm(Some(&s("90")), 5), 90);
    assert_eq!(parse_hhmm(Some(&s("-4")), 5), 0);
    assert_eq!(parse_hhmm(Some(&s("5000")), 5), 1439);
    assert_eq!(parse_hhmm(Some(&Json::Number(JsonNumber::PosInt(61))), 5), 61);
    assert_eq!(parse_hhmm(Some(&Json::Number(JsonNumber::NegInt(-1))), 5), 0);
    assert_eq!(parse_hhmm(Some(&Json::Number(JsonNumber::Float(2.5f64.to_bits()))), 5), 300);
    assert_eq!(parse_hhmm(Some(&Json::Bool(true)), 29), 300);
    assert_eq!(parse_hhmm(None, 23), 1380);
}

#[test]
fn clock_text_pads_to_two_digits() {
    assert_eq!(clock_text(0), "00:00");
    assert_eq!(clock_text(5 * 60 + 7), "05:07");
    assert_eq!(clock_text(1439), "23:59");
}

#[test]
fn night_config_defaults() {
    let settings = obj(vec![("night", Json::Bool(true))]);
    let c = night_config(&settings).unwrap();
    assert_eq!(c.zone, "UTC");
    assert_eq!(c.start, 23 * 60);
    assert_eq!(c.end, 5 * 60);
    let settings = obj(vec![(
        "night",
        obj(vec![("tz", s("Europe/Paris")), ("from", s("21:15")), ("to", s("06:00"))]),
    )]);
    let c = night_config(&settings).unwrap();
    assert_eq!(c.zone, "Europe/Paris");
    assert_eq!(c.start, 21 * 60 + 15);
    assert_eq!(c.end, 360);
    assert_eq!(night_config(&obj(vec![])).err(), Some(Rejection::FeatureOff));
    assert_eq!(night_config(&obj(vec![("night", Json::Bool(false))])).err(), Some(Rejection::FeatureOff));
}

#[test]
fn local_clock_in_named_zones() {
    assert_eq!(local_minute_of_day("UTC", 0), Some(0));
    assert_eq!(local_minute_of_day("Europe/Paris", 0), Some(60));
    assert_eq!(local_minute_of_day("America/New_York", 0), Some(19 * 60));
    assert_eq!(local_minute_of_day("Not/AZone", 3600 + 120), Some(62));
}

#[test]
fn night_state_reports_window() {
    let settings = obj(vec![("night", Json::Bool(true))]);
    let c = night_config(&settings).unwrap();
    let st = night_state(&c, 0);
    assert!(st.visible);
    assert_eq!(st.from, "23:00");
    assert_eq!(st.to, "05:00");
    assert!(!night_state(&c, 600).visible);
}
