//! The reverse side: up to six placements of items, each on the front or
//! the back, each item placed at most once.
use vstd::prelude::*;
use crate::json::{Json, JVal};
use crate::outside::uuid_parses;
use crate::rejection::Rejection;
use crate::text::text_eq;

verus! {

pub const MAX_PLACEMENTS: usize = 6;

/// The stored placements: the `placements` member of the state, or an
/// empty array.
pub open spec fn stored_spec(state: JVal) -> JVal {
    match state.get("placements"@) {
        Some(p) => p,
        None => JVal::Array(Seq::empty()),
    }
}

pub fn stored_placements(state: &Json) -> (r: Json)
    ensures
        r@ == stored_spec(state@),
{
    match state.get("placements") {
        Some(p) => p.copy(),
        None => {
            let v: Vec<Json> = Vec::new();
            let r = Json::Array(v);
            assert(r@->Array_0 =~= Seq::<JVal>::empty());
            r
        },
    }
}

/// A text member of a placement, empty when missing or not text.
pub open spec fn text_member(p: JVal, key: Seq<char>) -> Seq<char> {
    match p.str_at(key) {
        Some(s) => s,
        None => Seq::empty(),
    }
}

/// A placement names a non-empty id that parses as a UUID, and the side
/// `front` or `back`.
pub open spec fn placement_ok(p: JVal) -> bool {
    let id = text_member(p, "id"@);
    let side = text_member(p, "side"@);
    id.len() > 0 && crate::outside::uuid_accepts(id) && (side == "front"@ || side == "back"@)
}

/// The verdict on a list of placements, item by item in order: the first
/// item that is malformed, or whose id an earlier item already used,
/// decides the refusal.
pub open spec fn placements_verdict(items: Seq<JVal>) -> Result<(), Rejection>
    decreases items.len(),
{
    if items.len() == 0 {
        Ok(())
    } else {
        match placements_verdict(items.drop_last()) {
            Err(e) => Err(e),
            Ok(()) => if !placement_ok(items.last()) {
                Err(Rejection::InvalidPlacement)
            } else if exists|j: int|
                0 <= j < items.len() - 1 && #[trigger] text_member(items[j], "id"@) == text_member(
                    items.last(),
                    "id"@,
                ) {
                Err(Rejection::DuplicatePlacement)
            } else {
                Ok(())
            },
        }
    }
}

/// A refusal decided by a prefix of the items stands for the whole list.
proof fn lemma_verdict_prefix(items: Seq<JVal>, k: int)
    requires
        0 <= k <= items.len(),
        placements_verdict(items.take(k)) is Err,
    ensures
        placements_verdict(items) == placements_verdict(items.take(k)),
    decreases items.len(),
{
    if k == items.len() {
        assert(items.take(k) =~= items);
    } else {
        assert(items.drop_last().take(k) =~= items.take(k));
        lemma_verdict_prefix(items.drop_last(), k);
    }
}

/// What a new set of placements is refused for, if anything.
pub open spec fn set_spec(body: JVal) -> Result<(), Rejection> {
    match body.get("placements"@) {
        Some(JVal::Array(a)) => if a.len() > MAX_PLACEMENTS {
            Err(Rejection::TooManyPlacements)
        } else {
            placements_verdict(a)
        },
        _ => Err(Rejection::InvalidPlacements),
    }
}

fn text_member_of<'a>(p: &'a Json, key: &str) -> (r: &'a str)
    ensures
        r@ == text_member(p@, key@),
{
    match p.str_at(key) {
        Some(s) => s,
        None => {
            let e = "";
            proof {
                reveal_strlit("");
            }
            e
        },
    }
}

fn placement_valid(p: &Json) -> (r: bool)
    ensures
        r == placement_ok(p@),
{
    let id = text_member_of(p, "id");
    let side = text_member_of(p, "side");
    if id.unicode_len() == 0 {
        return false;
    }
    if !uuid_parses(id) {
        return false;
    }
    text_eq(side, "front") || text_eq(side, "back")
}

/// Validates a new set of placements; on success, the placements array to
/// store.
pub fn set_placements(body: &Json) -> (r: Result<Json, Rejection>)
    ensures
        match r {
            Ok(p) => set_spec(body@) is Ok && Some(p@) == body@.get("placements"@),
            Err(e) => set_spec(body@) == Err::<(), Rejection>(e),
        },
{
    let pl = match body.get("placements") {
        Some(x) => x,
        None => return Err(Rejection::InvalidPlacements),
    };
    let items = match pl {
        Json::Array(a) => a,
        _ => return Err(Rejection::InvalidPlacements),
    };
    proof {
        crate::json::lemma_array_view(*items);
    }
    let ghost iv = crate::json::items_view(items@);
    if items.len() > MAX_PLACEMENTS {
        return Err(Rejection::TooManyPlacements);
    }
    let mut seen: Vec<&str> = Vec::new();
    for i in 0..items.len()
        invariant
            iv == crate::json::items_view(items@),
            iv.len() == items@.len(),
            iv.len() <= MAX_PLACEMENTS,
            body@.get("placements"@) == Some(JVal::Array(iv)),
            pl@ == JVal::Array(iv),
            placements_verdict(iv.take(i as int)) is Ok,
            seen@.len() == i,
            forall|j: int| 0 <= j < i ==> #[trigger] seen@[j]@ == text_member(iv[j], "id"@),
    {
        let p = &items[i];
        assert(iv.take(i + 1).drop_last() =~= iv.take(i as int));
        assert(iv[i as int] == p@);
        if !placement_valid(p) {
            proof {
                lemma_verdict_prefix(iv, i + 1);
            }
            return Err(Rejection::InvalidPlacement);
        }
        let id = text_member_of(p, "id");
        let mut k: usize = 0;
        while k < i
            invariant
                k <= i,
                i < iv.len(),
                seen@.len() == i,
                iv == crate::json::items_view(items@),
                iv.len() <= MAX_PLACEMENTS,
                body@.get("placements"@) == Some(JVal::Array(iv)),
                placements_verdict(iv.take(i as int)) is Ok,
                placement_ok(iv[i as int]),
                id@ == text_member(iv[i as int], "id"@),
                forall|j: int| 0 <= j < i ==> #[trigger] seen@[j]@ == text_member(iv[j], "id"@),
                forall|j: int| 0 <= j < k ==> text_member(iv[j], "id"@) != id@,
            decreases i - k,
        {
            if text_eq(seen[k], id) {
                assert(iv.take(i + 1).last() == iv[i as int]);
                assert(iv.take(i + 1)[k as int] == iv[k as int]);
                assert(iv.take(i + 1).drop_last() =~= iv.take(i as int));
                assert(text_member(iv.take(i + 1)[k as int], "id"@) == text_member(
                    iv.take(i + 1).last(),
                    "id"@,
                ));
                proof {
                    lemma_verdict_prefix(iv, i + 1);
                }
                return Err(Rejection::DuplicatePlacement);
            }
            k = k + 1;
        }
        assert(!exists|j: int|
            0 <= j < iv.take(i + 1).len() - 1 && #[trigger] text_member(iv.take(i + 1)[j], "id"@)
                == text_member(iv.take(i + 1).last(), "id"@));
        seen.push(id);
    }
    assert(iv.take(items.len() as int) =~= iv);
    Ok(pl.copy())
}


proof fn lemma_verdict_ok(items: Seq<JVal>)
    requires
        placements_verdict(items) is Ok,
    ensures
        forall|i: int| 0 <= i < items.len() ==> placement_ok(#[trigger] items[i]),
        forall|i: int, j: int|
            0 <= i < j < items.len() ==> text_member(#[trigger] items[i], "id"@) != text_member(
                #[trigger] items[j],
                "id"@,
            ),
    decreases items.len(),
{
    if items.len() > 0 {
        let init = items.drop_last();
        lemma_verdict_ok(init);
        assert forall|i: int| 0 <= i < items.len() implies placement_ok(#[trigger] items[i]) by {
            if i < items.len() - 1 {
                assert(items[i] == init[i]);
            }
        }
        assert forall|i: int, j: int| 0 <= i < j < items.len() implies text_member(
            #[trigger] items[i],
            "id"@,
        ) != text_member(#[trigger] items[j], "id"@) by {
            if j < items.len() - 1 {
                assert(items[i] == init[i]);
                assert(items[j] == init[j]);
            } else {
                if text_member(items[i], "id"@) == text_member(items.last(), "id"@) {
                    assert(0 <= i < items.len() - 1 && text_member(items[i], "id"@) == text_member(
                        items.last(),
                        "id"@,
                    ));
                }
            }
        }
    }
}

/// Accepted placements are at most `MAX_PLACEMENTS`, each well formed,
/// and no two of them place the same item.
pub proof fn lemma_accepted_placements(body: JVal)
    requires
        set_spec(body) is Ok,
    ensures
        body.get("placements"@) matches Some(JVal::Array(a)) && a.len() <= MAX_PLACEMENTS && (
        forall|i: int| 0 <= i < a.len() ==> placement_ok(#[trigger] a[i])) && (forall|i: int, j: int|
            0 <= i < j < a.len() ==> text_member(#[trigger] a[i], "id"@) != text_member(
                #[trigger] a[j],
                "id"@,
            )),
{
    match body.get("placements"@) {
        Some(JVal::Array(a)) => {
            lemma_verdict_ok(a);
        },
        _ => {},
    }
}


/// The state stored for accepted placements.
pub open spec fn placements_state_spec(placements: JVal) -> JVal {
    JVal::Object(seq![("placements"@, placements)])
}

pub fn placements_state(placements: &Json) -> (r: Json)
    ensures
        r@ == placements_state_spec(placements@),
{
    let mut members: Vec<(String, Json)> = Vec::new();
    members.push((String::from_str("placements"), placements.copy()));
    let r = Json::Object(members);
    proof {
        crate::json::lemma_object_view(members);
    }
    assert(r@->Object_0 =~= placements_state_spec(placements@)->Object_0);
    r
}

/// What a set stores reads back: after an accepted set, reading the stored
/// state gives the placements that the set was sent.
pub proof fn lemma_placements_read_back(body: JVal, placements: JVal)
    requires
        set_spec(body) is Ok,
        Some(placements) == body.get("placements"@),
    ensures
        stored_spec(placements_state_spec(placements)) == placements,
{
}


/// A placement in plain terms: a non-empty id that the `uuid` crate
/// accepts, and the side `front` or `back`.
pub open spec fn well_placed(p: JVal) -> bool {
    &&& text_member(p, "id"@).len() > 0
    &&& crate::outside::uuid_accepts(text_member(p, "id"@))
    &&& text_member(p, "side"@) == "front"@ || text_member(p, "side"@) == "back"@
}

proof fn lemma_verdict_from_parts(items: Seq<JVal>)
    requires
        forall|i: int| 0 <= i < items.len() ==> well_placed(#[trigger] items[i]),
        forall|i: int, j: int|
            0 <= i < j < items.len() ==> text_member(#[trigger] items[i], "id"@) != text_member(
                #[trigger] items[j],
                "id"@,
            ),
    ensures
        placements_verdict(items) is Ok,
    decreases items.len(),
{
    if items.len() > 0 {
        let init = items.drop_last();
        assert forall|i: int| 0 <= i < init.len() implies well_placed(#[trigger] init[i]) by {
            assert(init[i] == items[i]);
        }
        assert forall|i: int, j: int| 0 <= i < j < init.len() implies text_member(
            #[trigger] init[i],
            "id"@,
        ) != text_member(#[trigger] init[j], "id"@) by {
            assert(init[i] == items[i] && init[j] == items[j]);
        }
        lemma_verdict_from_parts(init);
        assert(well_placed(items[items.len() - 1]));
        assert(!exists|j: int|
            0 <= j < items.len() - 1 && #[trigger] text_member(items[j], "id"@) == text_member(
                items.last(),
                "id"@,
            ));
    }
}

/// A set of placements in plain terms: an array of at most six
/// placements, each with a non-empty UUID id and the side `front` or
/// `back`, no two with the same id.
pub open spec fn placements_well_formed(body: JVal) -> bool {
    &&& body.get("placements"@) matches Some(JVal::Array(a)) && a.len() <= 6
    &&& forall|i: int|
        0 <= i < body.get("placements"@)->Some_0->Array_0.len() ==> well_placed(
            #[trigger] body.get("placements"@)->Some_0->Array_0[i],
        )
    &&& forall|i: int, j: int|
        0 <= i < j < body.get("placements"@)->Some_0->Array_0.len() ==> text_member(
            #[trigger] body.get("placements"@)->Some_0->Array_0[i],
            "id"@,
        ) != text_member(#[trigger] body.get("placements"@)->Some_0->Array_0[j], "id"@)
}

/// A set of placements is taken exactly when it is well formed in those
/// plain terms.
pub proof fn lemma_placements_exact(body: JVal)
    ensures
        set_spec(body) is Ok <==> placements_well_formed(body),
{
    if set_spec(body) is Ok {
        lemma_accepted_placements(body);
        let a = body.get("placements"@)->Some_0->Array_0;
        assert forall|i: int| 0 <= i < a.len() implies well_placed(#[trigger] a[i]) by {
            assert(placement_ok(a[i]));
        }
    }
    if placements_well_formed(body) {
        lemma_verdict_from_parts(body.get("placements"@)->Some_0->Array_0);
    }
}

} // verus!
