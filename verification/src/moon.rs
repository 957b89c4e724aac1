//! The moon widget: which hemisphere the owner names, and which side of the
//! moon shows lit there.
use vstd::prelude::*;
use crate::hits::{ascii_lower, ascii_lowercase};
use crate::json::{Json, JVal};
use crate::rejection::Rejection;

verus! {

/// The configured hemisphere: `settings.moon.hemisphere` when it is text,
/// `north` otherwise.
pub open spec fn hemisphere_spec(settings: JVal) -> Seq<char> {
    match settings.get("moon"@) {
        Some(m) => match m.str_at("hemisphere"@) {
            Some(h) => h,
            None => "north"@,
        },
        None => "north"@,
    }
}

/// The hemisphere of a profile with the moon switched on.
pub fn moon_hemisphere(settings: &Json) -> (r: Result<String, Rejection>)
    ensures
        !crate::helpers::switched_on(settings@, "moon"@) ==> r == Err::<String, Rejection>(
            Rejection::FeatureOff,
        ),
        crate::helpers::switched_on(settings@, "moon"@) ==> (r matches Ok(h) && h@
            == hemisphere_spec(settings@)),
{
    if !crate::helpers::feature_enabled(settings, "moon") {
        return Err(Rejection::FeatureOff);
    }
    let h = match settings.get("moon") {
        Some(m) => match m.str_at("hemisphere") {
            Some(h) => String::from_str(h),
            None => String::from_str("north"),
        },
        None => String::from_str("north"),
    };
    Ok(h)
}

/// The hemisphere is the northern one: it reads `north` in any ASCII case.
pub open spec fn is_north_spec(h: Seq<char>) -> bool {
    ascii_lower(h) == "north"@
}

pub fn is_north(h: &str) -> (r: bool)
    ensures
        r == is_north_spec(h@),
{
    let l = ascii_lowercase(h);
    let n = crate::text::chars_of("north");
    if l.len() != n.len() {
        return false;
    }
    let mut same = true;
    for i in 0..l.len()
        invariant
            l@.len() == n@.len(),
            same == (forall|k: int| 0 <= k < i ==> l@[k] == n@[k]),
    {
        if l[i] != n[i] {
            same = false;
        }
    }
    assert(same ==> l@ =~= n@);
    same
}

/// The lit side of the moon as seen from the owner's hemisphere.
#[derive(PartialEq, Eq, Structural, Clone, Copy, Debug)]
pub enum LitSide {
    Right,
    Left,
}

impl LitSide {
    pub open spec fn name_spec(self) -> Seq<char> {
        match self {
            LitSide::Right => "right"@,
            LitSide::Left => "left"@,
        }
    }

    pub fn name(&self) -> (r: &'static str)
        ensures
            r@ == self.name_spec(),
    {
        match self {
            LitSide::Right => "right",
            LitSide::Left => "left",
        }
    }
}

/// A waxing moon is lit on the right in the north and on the left in the
/// south; a waning one the other way round.
pub fn lit_side(waxing: bool, north: bool) -> (r: LitSide)
    ensures
        r == (if waxing == north {
            LitSide::Right
        } else {
            LitSide::Left
        }),
{
    if (waxing && north) || (!waxing && !north) {
        LitSide::Right
    } else {
        LitSide::Left
    }
}

} // verus!
