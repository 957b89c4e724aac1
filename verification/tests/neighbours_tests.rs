use data_api::json::Json;
use data_api::neighbours::{
    mutual_neighbours, neighbours_enabled, nominee_name, nominee_target, not_duplicate, owner_slots,
    slot_for, Nominate,
};
use data_api::rejection::Rejection;

fn obj(members: Vec<(&str, Json)>) -> Json {
    Json::Object(members.into_iter().map(|(k, v)| (k.to_string(), v)).collect())
}

#[test]
fn neighbours_switch() {
    assert!(neighbours_enabled(&obj(vec![("neighbours", Json::Bool(true))])));
    assert!(!neighbours_enabled(&obj(vec![("neighbours", Json::Bool(false))])));
    assert!(neighbours_enabled(&obj(vec![("neighbours", obj(vec![("x", Json::Null)]))])));
    assert!(!neighbours_enabled(&obj(vec![])));
}

#[test]
fn nominee_names() {
    let n = |t: Option<&str>| Nominate { to_username: t.map(|x| x.to_string()) };
    assert_eq!(nominee_name(&n(Some("  ada "))), Ok("ada".to_string()));
    assert_eq!(nominee_name(&n(Some(" "))), Err(Rejection::InvalidName));
    assert_eq!(nominee_name(&n(None)), Err(Rejection::InvalidName));
    assert_eq!(nominee_name(&n(Some(&"x".repeat(41)))), Err(Rejection::InvalidName));
    assert_eq!(nominee_name(&n(Some(&"x".repeat(40)))), Ok("x".repeat(40)));
}

#[test]
fn nomination_targets() {
    let me = [1u8; 16];
    let other = [2u8; 16];
    assert_eq!(nominee_target(None, &me), Err(Rejection::UserNotFound));
    assert_eq!(nominee_target(Some(me), &me), Err(Rejection::SelfNomination));
    assert_eq!(nominee_target(Some(other), &me), Ok(other));
}

#[test]
fn five_slots_at_most() {
    assert_eq!(slot_for(0), Ok(0));
    assert_eq!(slot_for(4), Ok(4));
    assert_eq!(slot_for(5), Err(Rejection::SlotsFull));
    assert_eq!(slot_for(9), Err(Rejection::SlotsFull));
    assert_eq!(not_duplicate(true), Err(Rejection::DuplicateNomination));
    assert_eq!(not_duplicate(false), Ok(()));
    assert_eq!(Rejection::DuplicateNomination.code(), "duplicate");
}

#[test]
fn owner_slot_figure_ends_at_zero() {
    assert_eq!(owner_slots(0), 0);
    assert_eq!(owner_slots(3), 0);
}

#[test]
fn public_list_keeps_mutual_nominations_in_order() {
    let names: Vec<String> = vec!["a".into(), "b".into(), "c".into(), "d".into()];
    let mutual = vec![true, false, true, false];
    assert_eq!(mutual_neighbours(&names, &mutual), vec!["a".to_string(), "c".to_string()]);
    assert!(mutual_neighbours(&vec![], &vec![]).is_empty());
}
