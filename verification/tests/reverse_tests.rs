use data_api::json::Json;
use data_api::rejection::Rejection;
use data_api::reverse::{placements_state, set_placements, stored_placements};

fn s(t: &str) -> Json {
    Json::Str(t.to_string())
}

fn obj(members: Vec<(&str, Json)>) -> Json {
    Json::Object(members.into_iter().map(|(k, v)| (k.to_string(), v)).collect())
}

fn place(id: &str, side: &str) -> Json {
    obj(vec![("id", s(id)), ("side", s(side))])
}

const A: &str = "67e55044-10b1-426f-9247-bb680e5fe0c8";
const B: &str = "a1a2a3a4-b1b2-c1c2-d1d2-d3d4d5d6d7d8";

#[test]
fn stored_placements_default_to_empty() {
    assert_eq!(stored_placements(&obj(vec![])), Json::Array(vec![]));
    let st = obj(vec![("placements", Json::Array(vec![place(A, "front")]))]);
    assert_eq!(stored_placements(&st), Json::Array(vec![place(A, "front")]));
}

#[test]
fn valid_placements_are_kept() {
    let body = obj(vec![("placements", Json::Array(vec![place(A, "front"), place(B, "back")]))]);
    assert_eq!(set_placements(&body), Ok(Json::Array(vec![place(A, "front"), place(B, "back")])));
    let empty = obj(vec![("placements", Json::Array(vec![]))]);
    assert_eq!(set_placements(&empty), Ok(Json::Array(vec![])));
}

#[test]
fn placement_refusals() {
    assert_eq!(set_placements(&obj(vec![])), Err(Rejection::InvalidPlacements));
    assert_eq!(set_placements(&obj(vec![("placements", s("x"))])), Err(Rejection::InvalidPlacements));
    let seven: Vec<Json> = (0..7).map(|_| place(A, "front")).collect();
    assert_eq!(set_placements(&obj(vec![("placements", Json::Array(seven))])), Err(Rejection::TooManyPlacements));
    let bad_side = obj(vec![("placements", Json::Array(vec![place(A, "top")]))]);
    assert_eq!(set_placements(&bad_side), Err(Rejection::InvalidPlacement));
    let bad_id = obj(vec![("placements", Json::Array(vec![place("nope", "front")]))]);
    assert_eq!(set_placements(&bad_id), Err(Rejection::InvalidPlacement));
    let no_id = obj(vec![("placements", Json::Array(vec![obj(vec![("side", s("back"))])]))]);
    assert_eq!(set_placements(&no_id), Err(Rejection::InvalidPlacement));
    let dup = obj(vec![("placements", Json::Array(vec![place(A, "front"), place(A, "back")]))]);
    assert_eq!(set_placements(&dup), Err(Rejection::DuplicatePlacement));
    let first_bad_wins = obj(vec![(
        "placements",
        Json::Array(vec![place(A, "front"), place(A, "back"), place("x", "front")]),
    )]);
    assert_eq!(set_placements(&first_bad_wins), Err(Rejection::DuplicatePlacement));
}

#[test]
fn accepted_placements_read_back() {
    let body = obj(vec![("placements", Json::Array(vec![place(A, "front"), place(B, "back")]))]);
    let accepted = set_placements(&body).unwrap();
    let state = placements_state(&accepted);
    assert_eq!(state, obj(vec![("placements", Json::Array(vec![place(A, "front"), place(B, "back")]))]));
    assert_eq!(stored_placements(&state), accepted);
}
