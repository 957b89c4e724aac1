//! Neighbours: an owner nominates up to five other profiles; a public page
//! shows only the nominations that are returned.
use vstd::prelude::*;
use crate::json::Json;
use crate::rejection::Rejection;
use crate::text::trim;

verus! {

pub const SLOTS_MAX: i64 = 5;
pub const NAME_MAX: usize = 40;

/// A nomination.
pub struct Nominate {
    pub to_username: Option<String>,
}

/// The feature is on: the switch is on and is not the boolean `false`.
pub open spec fn neighbours_on(settings: crate::json::JVal) -> bool {
    crate::helpers::switched_on(settings, "neighbours"@) && match settings.bool_at(
        "neighbours"@,
    ) {
        Some(b) => b,
        None => true,
    }
}

pub fn neighbours_enabled(settings: &Json) -> (r: bool)
    ensures
        r == neighbours_on(settings@),
{
    crate::helpers::feature_enabled(settings, "neighbours") && match settings.bool_at(
        "neighbours",
    ) {
        Some(b) => b,
        None => true,
    }
}

pub open spec fn nominee_spec(to_username: Option<String>) -> Result<Seq<char>, Rejection> {
    let t = crate::text::trimmed(crate::helpers::text_or_empty(to_username));
    if t.len() == 0 || t.len() > NAME_MAX {
        Err(Rejection::InvalidName)
    } else {
        Ok(t)
    }
}

/// The nominated name: trimmed, 1 to `NAME_MAX` characters.
pub fn nominee_name(body: &Nominate) -> (r: Result<String, Rejection>)
    ensures
        match r {
            Ok(t) => nominee_spec(body.to_username) == Ok::<Seq<char>, Rejection>(t@),
            Err(e) => nominee_spec(body.to_username) == Err::<Seq<char>, Rejection>(e),
        },
{
    let to = match &body.to_username {
        Some(t) => trim(t.as_str()),
        None => String::new(),
    };
    assert(crate::text::trimmed(Seq::<char>::empty()) == Seq::<char>::empty());
    let n = to.as_str().unicode_len();
    if n == 0 || n > NAME_MAX {
        return Err(Rejection::InvalidName);
    }
    Ok(to)
}

/// The profile the name belongs to (`None` when no user has it): it must
/// exist and must not be the nominating owner.
pub fn nominee_target(to_id: Option<[u8; 16]>, user_id: &[u8; 16]) -> (r: Result<[u8; 16], Rejection>)
    ensures
        match to_id {
            None => r == Err::<[u8; 16], Rejection>(Rejection::UserNotFound),
            Some(t) => if t@ == user_id@ {
                r == Err::<[u8; 16], Rejection>(Rejection::SelfNomination)
            } else {
                r == Ok::<[u8; 16], Rejection>(t)
            },
        },
{
    match to_id {
        None => Err(Rejection::UserNotFound),
        Some(t) => {
            let mut same = true;
            for i in 0..16
                invariant
                    same == (forall|k: int| 0 <= k < i ==> t@[k] == user_id@[k]),
            {
                if t[i] != user_id[i] {
                    same = false;
                }
            }
            if same {
                assert(t@ =~= user_id@);
                Err(Rejection::SelfNomination)
            } else {
                Ok(t)
            }
        },
    }
}

pub open spec fn slot_spec(count: i64) -> Result<i64, Rejection> {
    if count >= SLOTS_MAX {
        Err(Rejection::SlotsFull)
    } else {
        Ok(count)
    }
}

/// With `count` nominations already made: a free slot gives the new
/// nomination its position `count`; five taken slots refuse it.
pub fn slot_for(count: i64) -> (r: Result<i64, Rejection>)
    ensures
        r == slot_spec(count),
        count >= SLOTS_MAX ==> r == Err::<i64, Rejection>(Rejection::SlotsFull),
        count < SLOTS_MAX ==> r == Ok::<i64, Rejection>(count),
        r matches Ok(ord) ==> ord < SLOTS_MAX,
{
    if count >= SLOTS_MAX {
        Err(Rejection::SlotsFull)
    } else {
        Ok(count)
    }
}

/// A name is nominated once.
pub fn not_duplicate(already: bool) -> (r: Result<(), Rejection>)
    ensures
        already ==> r == Err::<(), Rejection>(Rejection::DuplicateNomination),
        !already ==> r is Ok,
{
    if already {
        Err(Rejection::DuplicateNomination)
    } else {
        Ok(())
    }
}

/// The `slots` figure of the owner's page: it starts at the number of
/// nominations and drops by one for each of them listed, so it ends at 0.
pub fn owner_slots(rows: usize) -> (r: i64)
    requires
        rows <= i64::MAX,
    ensures
        r == 0,
{
    let mut slots: i64 = rows as i64;
    let mut i: usize = 0;
    while i < rows
        invariant
            i <= rows,
            rows <= i64::MAX,
            slots == rows - i,
        decreases rows - i,
    {
        slots = slots - 1;
        i = i + 1;
    }
    slots
}

/// The names whose flag is set, in their order.
pub open spec fn flagged(names: Seq<Seq<char>>, flags: Seq<bool>) -> Seq<Seq<char>>
    decreases names.len(),
{
    if names.len() == 0 {
        Seq::empty()
    } else {
        let rest = flagged(names.drop_last(), flags);
        if flags[names.len() - 1] {
            rest.push(names.last())
        } else {
            rest
        }
    }
}

/// The public list: the nominations that are mutual (`mutual[i]` tells
/// whether `names[i]` nominated the owner back), in nomination order.
pub fn mutual_neighbours(names: &Vec<String>, mutual: &Vec<bool>) -> (r: Vec<String>)
    requires
        names@.len() == mutual@.len(),
    ensures
        r@.map_values(|s: String| s@) == flagged(names@.map_values(|s: String| s@), mutual@),
{
    let mut out: Vec<String> = Vec::new();
    let ghost vs = names@.map_values(|s: String| s@);
    for i in 0..names.len()
        invariant
            names@.len() == mutual@.len(),
            vs == names@.map_values(|s: String| s@),
            out@.map_values(|s: String| s@) == flagged(vs.take(i as int), mutual@),
    {
        assert(vs.take(i + 1).drop_last() =~= vs.take(i as int));
        if mutual[i] {
            out.push(names[i].clone());
            assert(out@.map_values(|s: String| s@) =~= flagged(vs.take(i as int), mutual@).push(
                vs[i as int],
            ));
        }
    }
    assert(vs.take(names.len() as int) =~= vs);
    out
}


/// The number of nominations an owner holds after `tries` more
/// nominations, each stored once the slot rule lets it through.
pub open spec fn nominations_after(count: i64, tries: nat) -> i64
    decreases tries,
{
    if tries == 0 {
        count
    } else {
        nominations_after(
            match slot_spec(count) {
                Ok(_) => (count + 1) as i64,
                Err(_) => count,
            },
            (tries - 1) as nat,
        )
    }
}

/// No owner ever holds more than `SLOTS_MAX` nominations: from at most
/// five, any number of further nominations leaves at most five.
pub proof fn lemma_at_most_five_nominations(count: i64, tries: nat)
    requires
        0 <= count <= SLOTS_MAX,
    ensures
        0 <= nominations_after(count, tries) <= SLOTS_MAX,
    decreases tries,
{
    if tries > 0 {
        let next = match slot_spec(count) {
            Ok(_) => (count + 1) as i64,
            Err(_) => count,
        };
        lemma_at_most_five_nominations(next, (tries - 1) as nat);
    }
}


/// A nomination names a profile of 1 to 40 characters once trimmed, and
/// the name taken is the trimmed one.
pub proof fn lemma_nominee_bounds(to_username: Option<String>)
    ensures
        nominee_spec(to_username) is Ok <==> 1 <= crate::text::trimmed(
            crate::helpers::text_or_empty(to_username),
        ).len() <= 40,
        nominee_spec(to_username) matches Ok(t) ==> t == crate::text::trimmed(
            crate::helpers::text_or_empty(to_username),
        ),
{
}

} // verus!
