use data_api::alive::{heartbeat_token, lease_of, lease_step, HeartbeatBody, LeaseStep};
use data_api::hits::{ascii_lowercase, dedup_key, hit_plan, is_bot, occurs, HitBody, HitPlan};
use data_api::rejection::Rejection;

fn beat(token: Option<&str>) -> HeartbeatBody {
    HeartbeatBody { token: token.map(|t| t.to_string()), lease_seconds: None }
}

#[test]
fn presence_token_is_trimmed_and_bounded_in_bytes() {
    assert_eq!(heartbeat_token(&beat(Some("  abc  "))), Ok("abc".to_string()));
    assert_eq!(heartbeat_token(&beat(Some(""))), Err(Rejection::PresenceTokenRequired));
    assert_eq!(heartbeat_token(&beat(Some(" \t "))), Err(Rejection::PresenceTokenRequired));
    assert_eq!(heartbeat_token(&beat(None)), Err(Rejection::PresenceTokenRequired));
    let max = "a".repeat(128);
    assert_eq!(heartbeat_token(&beat(Some(&max))), Ok(max.clone()));
    let over = "a".repeat(129);
    assert_eq!(heartbeat_token(&beat(Some(&over))), Err(Rejection::PresenceTokenRequired));
    let wide = "é".repeat(65);
    assert_eq!(heartbeat_token(&beat(Some(&wide))), Err(Rejection::PresenceTokenRequired));
    assert_eq!(Rejection::PresenceTokenRequired.code(), "token_required");
    assert_eq!(Rejection::PresenceTokenRequired.status(), 422);
}

#[test]
fn lease_is_clamped() {
    assert_eq!(lease_of(None), 60);
    assert_eq!(lease_of(Some(1)), 10);
    assert_eq!(lease_of(Some(-50)), 10);
    assert_eq!(lease_of(Some(10)), 10);
    assert_eq!(lease_of(Some(120)), 120);
    assert_eq!(lease_of(Some(300)), 300);
    assert_eq!(lease_of(Some(i64::MAX)), 300);
}

#[test]
fn only_live_leases_are_renewed() {
    assert_eq!(lease_step(true, true), LeaseStep::Renew);
    assert_eq!(lease_step(true, false), LeaseStep::Restart);
    assert_eq!(lease_step(false, false), LeaseStep::Open);
    assert_eq!(lease_step(false, true), LeaseStep::Open);
    assert!(LeaseStep::Renew.renewed());
    assert!(!LeaseStep::Restart.renewed());
    assert!(!LeaseStep::Open.renewed());
    assert!(LeaseStep::Renew.known());
    assert!(LeaseStep::Restart.known());
    assert!(!LeaseStep::Open.known());
    assert!(!lease_step(true, false).renewed());
}

#[test]
fn crawler_user_agents() {
    assert!(is_bot("Mozilla/5.0 (compatible; Googlebot/2.1)"));
    assert!(is_bot("HeadlessChrome/120"));
    assert!(is_bot("facebookexternalhit/1.1"));
    assert!(is_bot("Yahoo! Slurp"));
    assert!(is_bot("PRERENDER"));
    assert!(!is_bot("Mozilla/5.0 (X11; Linux x86_64) Firefox/120.0"));
    assert!(!is_bot(""));
    assert!(!is_bot("BÖT"));
}

#[test]
fn lowercase_and_search() {
    assert_eq!(ascii_lowercase("AbÉ"), vec!['a', 'b', 'É']);
    let h = ascii_lowercase("xxbot");
    assert!(occurs(&h, "bot"));
    assert!(occurs(&h, ""));
    assert!(!occurs(&h, "bots"));
    assert!(!occurs(&ascii_lowercase("bo"), "bot"));
}

fn hit(token: Option<&str>, skip: Option<bool>, ua: Option<&str>) -> HitBody {
    HitBody { token: token.map(|t| t.to_string()), skip, ua: ua.map(|t| t.to_string()) }
}

#[test]
fn hit_plans_in_order() {
    assert!(matches!(hit_plan(&hit(None, Some(true), Some("bot"))), Ok(HitPlan::Skipped)));
    assert!(matches!(hit_plan(&hit(Some("t"), Some(false), Some("a spider"))), Ok(HitPlan::Bot)));
    assert!(matches!(hit_plan(&hit(None, None, Some("Firefox"))), Err(Rejection::VisitorTokenRequired)));
    assert!(matches!(hit_plan(&hit(Some("  "), None, None)), Err(Rejection::VisitorTokenRequired)));
    match hit_plan(&hit(Some(" v1 "), None, None)) {
        Ok(HitPlan::Count(t)) => assert_eq!(t, "v1"),
        _ => panic!("expected a counted hit"),
    }
}

#[test]
fn dedup_key_digests_profile_and_token() {
    let uid: [u8; 16] = [0, 1, 2, 3, 4, 5, 6, 7, 8, 9, 10, 11, 12, 13, 14, 15];
    assert_eq!(dedup_key(&uid, "tok"), "61cee9928e25fab2cdf272fa4ac61e11688476ade9fda8a4fa9ad023ff04ab1e");
    assert_eq!(dedup_key(&uid, "tok"), dedup_key(&uid, "tok"));
    assert_ne!(dedup_key(&uid, "tok"), dedup_key(&uid, "tok2"));
}

#[test]
fn tokens_that_trim_alike_are_one_visitor() {
    let uid = [9u8; 16];
    let a = match hit_plan(&hit(Some(" v1 "), None, Some("Firefox"))) {
        Ok(HitPlan::Count(t)) => t,
        _ => panic!("expected a counted hit"),
    };
    let b = match hit_plan(&hit(Some("v1\t"), Some(false), None)) {
        Ok(HitPlan::Count(t)) => t,
        _ => panic!("expected a counted hit"),
    };
    assert_eq!(dedup_key(&uid, &a), dedup_key(&uid, &b));
}
