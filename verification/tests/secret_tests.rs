use data_api::json::{Json, JsonNumber};
use data_api::rejection::Rejection;
use data_api::secret::{
    cleared_state, do_verifier, next_version, redeem, seal, seal_with, secret_configured, secret_inputs,
    secret_state, unlock, verify, SetBody,
};

fn body(word: Option<&str>, url: Option<&str>, label: Option<&str>) -> SetBody {
    SetBody {
        word: word.map(|t| t.to_string()),
        url: url.map(|t| t.to_string()),
        label: label.map(|t| t.to_string()),
    }
}

const SALT: [u8; 16] = [7; 16];
const HASH_B64: &str = "Wq3Vuc39ThE2fowuQLjHVcQT9y5vgErrhHhq8z6Rm-Q";
const SALT_B64: &str = "BwcHBwcHBwcHBwcHBwcHBw";

#[test]
fn inputs_are_trimmed_and_bounded() {
    let ok = secret_inputs(&body(Some("  open sesame "), Some(" https://x.test "), None)).ok().unwrap();
    assert_eq!(ok.word, "open sesame");
    assert_eq!(ok.url, "https://x.test");
    assert_eq!(ok.label, "");
    assert_eq!(secret_inputs(&body(Some("   "), Some("u"), None)).err(), Some(Rejection::InvalidWord));
    assert_eq!(secret_inputs(&body(None, Some("u"), None)).err(), Some(Rejection::InvalidWord));
    let long = "w".repeat(257);
    assert_eq!(secret_inputs(&body(Some(&long), Some("u"), None)).err(), Some(Rejection::InvalidWord));
    let max = "é".repeat(256);
    assert!(secret_inputs(&body(Some(&max), Some("u"), None)).is_ok());
    assert_eq!(secret_inputs(&body(Some("w"), None, None)).err(), Some(Rejection::InvalidUrl));
    let long_url = "u".repeat(201);
    assert_eq!(secret_inputs(&body(Some("w"), Some(&long_url), None)).err(), Some(Rejection::InvalidUrl));
    let long_label = "l".repeat(65);
    assert_eq!(
        secret_inputs(&body(Some("w"), Some("u"), Some(&long_label))).err(),
        Some(Rejection::InvalidLabel)
    );
}

#[test]
fn verifier_is_scrypt_of_the_word() {
    let v = do_verifier("open sesame", &SALT);
    assert_eq!(v.len(), 32);
    let sealed = seal_with("open sesame", &SALT);
    assert_eq!(sealed.hash, HASH_B64);
    assert_eq!(sealed.salt, SALT_B64);
}

#[test]
fn verify_compares_against_the_stored_hash() {
    assert!(verify("open sesame", SALT_B64, HASH_B64));
    assert!(!verify("open sesame!", SALT_B64, HASH_B64));
    assert!(!verify("open sesame", "AAAAAAAAAAAAAAAAAAAAAA", HASH_B64));
    assert!(!verify("open sesame", SALT_B64, "not base64 !"));
}

#[test]
fn versions_count_up() {
    assert_eq!(next_version(&Json::Object(vec![])), 1);
    let st = Json::Object(vec![("version".to_string(), Json::Number(JsonNumber::PosInt(4)))]);
    assert_eq!(next_version(&st), 5);
}

#[test]
fn set_word_unlocks_and_grant_redeems() {
    let sealed = seal("open sesame");
    let state = secret_state(3, &sealed, "https://x.test", "door");
    assert_eq!(secret_configured(&state), Ok(()));
    let u = unlock(&state, "open sesame").ok().unwrap();
    assert_eq!(u.version, 3);
    assert_eq!(u.url, "https://x.test");
    assert_eq!(u.label, "door");
    assert_eq!(unlock(&state, "open sesame ").err(), Some(Rejection::WrongWord));
    assert_eq!(redeem(&state, Some(3)), Ok(("https://x.test".to_string(), "door".to_string())));
    assert_eq!(redeem(&state, Some(2)), Err(Rejection::GrantStale));
    assert_eq!(redeem(&state, None), Err(Rejection::GrantStale));
}

#[test]
fn fresh_salts_differ() {
    let a = seal("w");
    let b = seal("w");
    assert_ne!(a.salt, b.salt);
    assert_ne!(a.hash, b.hash);
}

#[test]
fn rotation_makes_old_grants_stale() {
    let first = secret_state(1, &seal_with("one", &SALT), "u1", "");
    let v2 = next_version(&first);
    assert_eq!(v2, 2);
    let second = secret_state(v2, &seal_with("two", &SALT), "u2", "");
    assert_eq!(redeem(&second, Some(1)), Err(Rejection::GrantStale));
    assert_eq!(unlock(&second, "one").err(), Some(Rejection::WrongWord));
    assert_eq!(unlock(&second, "two").ok().unwrap().version, 2);
}

#[test]
fn cleared_secret_is_not_set() {
    let st = cleared_state();
    assert_eq!(st.i64_at("version"), Some(0));
    assert_eq!(secret_configured(&st), Err(Rejection::NotSet));
    assert_eq!(secret_configured(&Json::Object(vec![])), Err(Rejection::NotSet));
    assert_eq!(redeem(&st, Some(0)), Ok((String::new(), String::new())));
}
