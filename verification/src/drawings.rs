//! Doodles that visitors draw for a profile: stroke validation, intake
//! limits, moderation and pinning.
use vstd::prelude::*;
use crate::helpers::feature_enabled;
use crate::json::{Json, JsonNumber, JVal, lemma_array_view};
use crate::rejection::Rejection;
use crate::text::{chars_of, text_eq};

verus! {

pub const STROKES_MAX: usize = 100;
pub const POINTS_MAX: usize = 10_000;
pub const PAYLOAD_MAX: usize = 102_400;
pub const DESC_MAX: usize = 280;
pub const PENDING_MAX: i64 = 100;
pub const PINNED_MAX: i64 = 3;
pub const GALLERY_MAX: i64 = 50;

/// An ASCII hexadecimal digit.
pub open spec fn is_hex_digit(c: char) -> bool {
    ('0' <= c && c <= '9') || ('a' <= c && c <= 'f') || ('A' <= c && c <= 'F')
}

/// `s` with one leading `#` removed, if it has one.
pub open spec fn strip_hash(s: Seq<char>) -> Seq<char> {
    if s.len() > 0 && s[0] == '#' {
        s.drop_first()
    } else {
        s
    }
}

/// A color is a hex value: after an optional `#`, 3 or 6 bytes, all
/// hexadecimal digits.
pub open spec fn hex_color(s: Seq<char>) -> bool {
    let h = strip_hash(s);
    let n = vstd::utf8::encode_utf8(h).len();
    &&& n == 3 || n == 6
    &&& forall|i: int| 0 <= i < h.len() ==> #[trigger] is_hex_digit(h[i])
}

pub fn regex_color(s: &str) -> (r: bool)
    ensures
        r == hex_color(s@),
{
    let n = s.unicode_len();
    let h: &str = if n > 0 && s.get_char(0) == '#' {
        s.substring_char(1, n)
    } else {
        s
    };
    assert(n > 0 && s@[0] == '#' ==> s@.subrange(1, n as int) =~= s@.drop_first());
    assert(h@ == strip_hash(s@));
    let cs = chars_of(h);
    let m = cs.len();
    for i in 0..m
        invariant
            m == cs@.len(),
            cs@ == h@,
            h@ == strip_hash(s@),
            forall|j: int| 0 <= j < i ==> #[trigger] is_hex_digit(h@[j]),
    {
        let c = cs[i];
        if !(('0' <= c && c <= '9') || ('a' <= c && c <= 'f') || ('A' <= c && c <= 'F')) {
            assert(!is_hex_digit(h@[i as int]));
            return false;
        }
    }
    proof {
        assert(vstd::utf8::is_ascii_chars(h@)) by {
            assert forall|i: int| 0 <= i < h@.len() implies '\0' <= #[trigger] h@[i] <= '\u{7f}' by {
                assert(is_hex_digit(h@[i]));
            }
        }
        vstd::utf8::is_ascii_chars_encode_utf8(h@);
    }
    m == 3 || m == 6
}

/// The verdict on the coordinates `c[j..]` of one point: the first that is
/// not a number, or not a finite value in `[0, 1]`, refuses the point.
pub open spec fn coords_from(c: Seq<JVal>, j: int) -> Result<(), Rejection>
    decreases c.len() - j,
{
    if j < 0 || j >= c.len() {
        Ok(())
    } else {
        match c[j] {
            JVal::Number(n) => if n.in_unit_range() {
                coords_from(c, j + 1)
            } else {
                Err(Rejection::PointOutOfRange)
            },
            _ => Err(Rejection::InvalidPointValue),
        }
    }
}

/// The verdict on one point: an array of two or three coordinates.
pub open spec fn point_verdict(p: JVal) -> Result<(), Rejection> {
    match p {
        JVal::Array(c) => if c.len() == 2 || c.len() == 3 {
            coords_from(c, 0)
        } else {
            Err(Rejection::InvalidPointShape)
        },
        _ => Err(Rejection::InvalidPointShape),
    }
}

/// The verdict on the points `p[j..]`: the first refused point decides.
pub open spec fn points_from(p: Seq<JVal>, j: int) -> Result<(), Rejection>
    decreases p.len() - j,
{
    if j < 0 || j >= p.len() {
        Ok(())
    } else {
        match point_verdict(p[j]) {
            Ok(()) => points_from(p, j + 1),
            Err(e) => Err(e),
        }
    }
}

/// A stroke's `color`, when it is a string, is a hex value.
pub open spec fn color_ok(stroke: JVal) -> bool {
    match stroke.get("color"@) {
        Some(JVal::Str(s)) => hex_color(s),
        _ => true,
    }
}

/// A stroke's `width`, when it is a number, lies in `[1, 10]`.
pub open spec fn width_ok(stroke: JVal) -> bool {
    match stroke.get("width"@) {
        Some(JVal::Number(n)) => n.in_width_range(),
        _ => true,
    }
}

/// The verdict on one stroke, given the points counted before it: the
/// running point count after it, or the refusal.
pub open spec fn stroke_verdict(stroke: JVal, before: int) -> Result<int, Rejection> {
    match stroke.get("points"@) {
        Some(JVal::Array(p)) => if before + p.len() > POINTS_MAX {
            Err(Rejection::TooManyPoints)
        } else {
            match points_from(p, 0) {
                Err(e) => Err(e),
                Ok(()) => if !color_ok(stroke) {
                    Err(Rejection::InvalidColor)
                } else if !width_ok(stroke) {
                    Err(Rejection::InvalidWidth)
                } else {
                    Ok(before + p.len())
                },
            }
        },
        _ => Err(Rejection::InvalidPoints),
    }
}

/// The verdict on the strokes `a[i..]`, given the points counted before.
pub open spec fn strokes_from(a: Seq<JVal>, i: int, before: int) -> Result<(), Rejection>
    decreases a.len() - i,
{
    if i < 0 || i >= a.len() {
        Ok(())
    } else {
        match stroke_verdict(a[i], before) {
            Ok(after) => strokes_from(a, i + 1, after),
            Err(e) => Err(e),
        }
    }
}

/// The verdict on a doodle's strokes: a non-empty array of at most
/// `STROKES_MAX` strokes, each with a `points` array, at most `POINTS_MAX`
/// points in all, each point two or three coordinates in `[0, 1]`, and a hex
/// `color` and a `width` in `[1, 10]` where given. The first fault found, in
/// that order, stroke by stroke, is the refusal.
pub open spec fn strokes_verdict(strokes: JVal) -> Result<(), Rejection> {
    match strokes {
        JVal::Array(a) => if a.len() == 0 {
            Err(Rejection::EmptyStrokes)
        } else if a.len() > STROKES_MAX {
            Err(Rejection::TooManyStrokes)
        } else {
            strokes_from(a, 0, 0)
        },
        _ => Err(Rejection::InvalidStrokes),
    }
}

fn check_coords(c: &Vec<Json>) -> (r: Result<(), Rejection>)
    ensures
        r == coords_from(crate::json::items_view(c@), 0),
{
    let ghost cv = crate::json::items_view(c@);
    let n = c.len();
    for j in 0..n
        invariant
            n == c@.len(),
            cv == crate::json::items_view(c@),
            coords_from(cv, 0) == coords_from(cv, j as int),
    {
        match &c[j] {
            Json::Number(num) => {
                if !num.unit_range() {
                    return Err(Rejection::PointOutOfRange);
                }
            },
            _ => {
                return Err(Rejection::InvalidPointValue);
            },
        }
    }
    Ok(())
}

fn check_point(p: &Json) -> (r: Result<(), Rejection>)
    ensures
        r == point_verdict(p@),
{
    match p {
        Json::Array(c) => {
            proof {
                lemma_array_view(*c);
            }
            if c.len() == 2 || c.len() == 3 {
                check_coords(c)
            } else {
                Err(Rejection::InvalidPointShape)
            }
        },
        _ => Err(Rejection::InvalidPointShape),
    }
}

fn check_points(p: &Vec<Json>) -> (r: Result<(), Rejection>)
    ensures
        r == points_from(crate::json::items_view(p@), 0),
{
    let ghost pv = crate::json::items_view(p@);
    let n = p.len();
    for j in 0..n
        invariant
            n == p@.len(),
            pv == crate::json::items_view(p@),
            points_from(pv, 0) == points_from(pv, j as int),
    {
        match check_point(&p[j]) {
            Ok(()) => {},
            Err(e) => {
                return Err(e);
            },
        }
    }
    Ok(())
}

fn check_color(stroke: &Json) -> (r: bool)
    ensures
        r == color_ok(stroke@),
{
    match stroke.get("color") {
        Some(Json::Str(s)) => regex_color(s.as_str()),
        _ => true,
    }
}

fn check_width(stroke: &Json) -> (r: bool)
    ensures
        r == width_ok(stroke@),
{
    match stroke.get("width") {
        Some(Json::Number(n)) => n.width_range(),
        _ => true,
    }
}

fn check_stroke(stroke: &Json, before: usize) -> (r: Result<usize, Rejection>)
    requires
        before <= POINTS_MAX,
    ensures
        match r {
            Ok(after) => stroke_verdict(stroke@, before as int) == Ok::<int, Rejection>(after as int)
                && after <= POINTS_MAX,
            Err(e) => stroke_verdict(stroke@, before as int) == Err::<int, Rejection>(e),
        },
{
    match stroke.get("points") {
        Some(Json::Array(p)) => {
            proof {
                lemma_array_view(*p);
            }
            if p.len() > POINTS_MAX - before {
                return Err(Rejection::TooManyPoints);
            }
            let after = before + p.len();
            match check_points(p) {
                Err(e) => Err(e),
                Ok(()) => if !check_color(stroke) {
                    Err(Rejection::InvalidColor)
                } else if !check_width(stroke) {
                    Err(Rejection::InvalidWidth)
                } else {
                    Ok(after)
                },
            }
        },
        _ => Err(Rejection::InvalidPoints),
    }
}

/// Checks a doodle's strokes.
pub fn validate_strokes(strokes: &Json) -> (r: Result<(), Rejection>)
    ensures
        r == strokes_verdict(strokes@),
{
    match strokes {
        Json::Array(a) => {
            proof {
                lemma_array_view(*a);
            }
            if a.len() == 0 {
                return Err(Rejection::EmptyStrokes);
            }
            if a.len() > STROKES_MAX {
                return Err(Rejection::TooManyStrokes);
            }
            let ghost av = crate::json::items_view(a@);
            let n = a.len();
            let mut points: usize = 0;
            for i in 0..n
                invariant
                    n == a@.len(),
                    av == crate::json::items_view(a@),
                    strokes@ == JVal::Array(av),
                    0 < n <= STROKES_MAX,
                    points <= POINTS_MAX,
                    strokes_from(av, 0, 0) == strokes_from(av, i as int, points as int),
            {
                match check_stroke(&a[i], points) {
                    Ok(after) => {
                        points = after;
                    },
                    Err(e) => {
                        return Err(e);
                    },
                }
            }
            Ok(())
        },
        _ => Err(Rejection::InvalidStrokes),
    }
}

/// A doodle as submitted. `width` is read from any JSON number.
pub struct SubmitBody {
    pub strokes: Option<Json>,
    pub description: Option<String>,
    pub schema_version: Option<i64>,
    pub color: Option<String>,
    pub width: Option<JsonNumber>,
}

/// The doodle switches of a profile.
pub struct DoodleSettings {
    pub enabled: bool,
    pub paused: bool,
}

pub fn doodle_settings(settings: &Json) -> (r: DoodleSettings)
    ensures
        r.enabled == crate::helpers::switched_on(settings@, "doodles"@),
        r.paused == (settings@.bool_at("doodlesPaused"@) == Some(true)),
{
    let enabled = feature_enabled(settings, "doodles");
    let paused = match settings.bool_at("doodlesPaused") {
        Some(b) => b,
        None => false,
    };
    DoodleSettings { enabled, paused }
}

/// The byte length that `str::len` reports for text `s`.
pub open spec fn byte_len(s: Seq<char>) -> usize {
    vstd::utf8::encode_utf8(s).len() as usize
}

/// The stored size of a doodle: its strokes' JSON text, its description's
/// bytes, and 64 bytes of overhead.
pub open spec fn payload_size(strokes_text_len: usize, description: Seq<char>) -> int {
    strokes_text_len + byte_len(description) + 64
}

/// The strokes of a body, `null` when absent.
pub open spec fn strokes_of(body: SubmitBody) -> JVal {
    match body.strokes {
        Some(s) => s@,
        None => JVal::Null,
    }
}

/// The description of a body, empty when absent.
pub open spec fn description_of(body: SubmitBody) -> Seq<char> {
    match body.description {
        Some(d) => d@,
        None => Seq::empty(),
    }
}

/// The verdict on a submitted doodle, before the board's capacity is
/// counted: the payload size when accepted.
pub open spec fn submission_spec(
    cfg: DoodleSettings,
    body: SubmitBody,
    strokes_text_len: usize,
) -> Result<int, Rejection> {
    if !cfg.enabled {
        Err(Rejection::FeatureOff)
    } else if cfg.paused {
        Err(Rejection::IntakePaused)
    } else if body.schema_version is Some && body.schema_version != Some(1i64) {
        Err(Rejection::BadSchemaVersion)
    } else if strokes_verdict(strokes_of(body)) is Err {
        Err(strokes_verdict(strokes_of(body))->Err_0)
    } else if description_of(body).len() > DESC_MAX {
        Err(Rejection::DescriptionTooLong)
    } else if payload_size(strokes_text_len, description_of(body)) > PAYLOAD_MAX {
        Err(Rejection::PayloadTooLarge)
    } else {
        Ok(payload_size(strokes_text_len, description_of(body)))
    }
}

/// Checks a submitted doodle; `strokes_text_len` is the length of the JSON
/// text of its strokes (of `null` when absent).
pub fn check_submission(cfg: &DoodleSettings, body: &SubmitBody, strokes_text_len: usize) -> (r:
    Result<usize, Rejection>)
    ensures
        match r {
            Ok(size) => submission_spec(*cfg, *body, strokes_text_len) == Ok::<int, Rejection>(
                size as int,
            ),
            Err(e) => submission_spec(*cfg, *body, strokes_text_len) == Err::<int, Rejection>(e),
        },
{
    if !cfg.enabled {
        return Err(Rejection::FeatureOff);
    }
    if cfg.paused {
        return Err(Rejection::IntakePaused);
    }
    match body.schema_version {
        Some(v) => if v != 1 {
            return Err(Rejection::BadSchemaVersion);
        },
        None => {},
    }
    let null = Json::Null;
    let strokes: &Json = match &body.strokes {
        Some(s) => s,
        None => &null,
    };
    match validate_strokes(strokes) {
        Err(e) => {
            return Err(e);
        },
        Ok(()) => {},
    }
    let empty = String::new();
    let description: &String = match &body.description {
        Some(d) => d,
        None => &empty,
    };
    if description.as_str().unicode_len() > DESC_MAX {
        return Err(Rejection::DescriptionTooLong);
    }
    let desc_bytes = description.as_str().len();
    let total: u128 = strokes_text_len as u128 + desc_bytes as u128 + 64;
    if total > PAYLOAD_MAX as u128 {
        return Err(Rejection::PayloadTooLarge);
    }
    Ok(total as usize)
}

/// A doodle is taken only while fewer than `PENDING_MAX` wait for moderation.
pub fn board_capacity(pending: i64) -> (r: Result<(), Rejection>)
    ensures
        r is Err <==> pending >= PENDING_MAX,
        r is Err ==> r == Err::<(), Rejection>(Rejection::BoardFull),
{
    if pending >= PENDING_MAX {
        Err(Rejection::BoardFull)
    } else {
        Ok(())
    }
}

/// Only a kept doodle can be pinned.
pub fn pin_target(status: Option<&str>) -> (r: Result<(), Rejection>)
    ensures
        r == match status {
            None => Err(Rejection::EntryNotFound),
            Some(s) => if s@ == "kept"@ {
                Ok(())
            } else {
                Err(Rejection::NotKept)
            },
        },
{
    match status {
        None => Err(Rejection::EntryNotFound),
        Some(s) => if text_eq(s, "kept") {
            Ok(())
        } else {
            Err(Rejection::NotKept)
        },
    }
}

/// A pin is refused once `PINNED_MAX` doodles are pinned; an unreadable
/// count is taken as none. An accepted pin leaves at most `PINNED_MAX`
/// pinned.
pub open spec fn pin_capacity_spec(pinned: Option<i64>) -> Result<(), Rejection> {
    if pinned matches Some(c) && c >= PINNED_MAX {
        Err(Rejection::PinCap)
    } else {
        Ok(())
    }
}

pub fn pin_capacity(pinned: Option<i64>) -> (r: Result<(), Rejection>)
    ensures
        r == pin_capacity_spec(pinned),
        r is Err <==> (pinned matches Some(c) && c >= PINNED_MAX),
        r is Err ==> r == Err::<(), Rejection>(Rejection::PinCap),
        r is Ok ==> (pinned matches Some(c) ==> c + 1 <= PINNED_MAX),
{
    let count = match pinned {
        Some(c) => c,
        None => 0,
    };
    if count >= PINNED_MAX {
        Err(Rejection::PinCap)
    } else {
        Ok(())
    }
}

/// The gallery position of a newly pinned doodle: after the last kept one;
/// an unreadable position reads as 1.
pub fn pin_order(next: Option<i32>) -> (r: i32)
    ensures
        r == match next {
            Some(n) => n,
            None => 1,
        },
{
    match next {
        Some(n) => n,
        None => 1,
    }
}


/// The number of pinned doodles after `tries` more pins of kept doodles,
/// each stored once the capacity rule lets it through.
pub open spec fn pins_after(pinned: i64, tries: nat) -> i64
    decreases tries,
{
    if tries == 0 {
        pinned
    } else {
        pins_after(
            match pin_capacity_spec(Some(pinned)) {
                Ok(_) => (pinned + 1) as i64,
                Err(_) => pinned,
            },
            (tries - 1) as nat,
        )
    }
}

/// No profile ever has more than `PINNED_MAX` pinned doodles: from at most
/// three, any number of further pins leaves at most three.
pub proof fn lemma_at_most_three_pins(pinned: i64, tries: nat)
    requires
        0 <= pinned <= PINNED_MAX,
    ensures
        0 <= pins_after(pinned, tries) <= PINNED_MAX,
    decreases tries,
{
    if tries > 0 {
        let next = match pin_capacity_spec(Some(pinned)) {
            Ok(_) => (pinned + 1) as i64,
            Err(_) => pinned,
        };
        lemma_at_most_three_pins(next, (tries - 1) as nat);
    }
}


/// A point is two or three numbers, each in `[0, 1]`.
pub open spec fn point_in_unit_square(p: JVal) -> bool {
    &&& p matches JVal::Array(c)
    &&& p->Array_0.len() == 2 || p->Array_0.len() == 3
    &&& forall|k: int|
        0 <= k < p->Array_0.len() ==> (#[trigger] p->Array_0[k] matches JVal::Number(n)
            && n.in_unit_range())
}

/// A stroke has a `points` array, and every point of it lies in the unit
/// square.
pub open spec fn stroke_points_in_range(s: JVal) -> bool {
    &&& s.get("points"@) matches Some(JVal::Array(ps))
    &&& forall|k: int|
        0 <= k < s.get("points"@)->Some_0->Array_0.len() ==> #[trigger] point_in_unit_square(
            s.get("points"@)->Some_0->Array_0[k],
        )
}

proof fn lemma_coords_accepted(c: Seq<JVal>, j: int)
    requires
        0 <= j,
        coords_from(c, j) is Ok,
    ensures
        forall|k: int| j <= k < c.len() ==> (#[trigger] c[k] matches JVal::Number(n) && n.in_unit_range()),
    decreases c.len() - j,
{
    if j < c.len() {
        lemma_coords_accepted(c, j + 1);
    }
}

proof fn lemma_points_accepted(p: Seq<JVal>, j: int)
    requires
        0 <= j,
        points_from(p, j) is Ok,
    ensures
        forall|k: int| j <= k < p.len() ==> #[trigger] point_in_unit_square(p[k]),
    decreases p.len() - j,
{
    if j < p.len() {
        lemma_points_accepted(p, j + 1);
        let c = p[j]->Array_0;
        lemma_coords_accepted(c, 0);
        assert(point_in_unit_square(p[j]));
    }
}

proof fn lemma_strokes_accepted(a: Seq<JVal>, i: int, before: int)
    requires
        0 <= i,
        strokes_from(a, i, before) is Ok,
    ensures
        forall|k: int| i <= k < a.len() ==> #[trigger] stroke_points_in_range(a[k]),
    decreases a.len() - i,
{
    if i < a.len() {
        let after = stroke_verdict(a[i], before)->Ok_0;
        lemma_strokes_accepted(a, i + 1, after);
        let ps = a[i].get("points"@)->Some_0->Array_0;
        lemma_points_accepted(ps, 0);
        assert(stroke_points_in_range(a[i]));
    }
}

/// Accepted strokes hold no point outside the unit square: every
/// coordinate of every point of every stroke, the last coordinate of a
/// point included, is a number in `[0, 1]`, and every point has two or
/// three of them. So a point with any coordinate outside `[0, 1]` gets the
/// strokes refused.
pub proof fn lemma_accepted_strokes_in_unit_square(strokes: JVal)
    requires
        strokes_verdict(strokes) is Ok,
    ensures
        strokes matches JVal::Array(a),
        1 <= strokes->Array_0.len() <= STROKES_MAX,
        forall|k: int|
            0 <= k < strokes->Array_0.len() ==> #[trigger] stroke_points_in_range(
                strokes->Array_0[k],
            ),
{
    lemma_strokes_accepted(strokes->Array_0, 0, 0);
}

/// A point that is two or three numbers in `[0, 1]` is never the reason
/// strokes are refused, and a point with a number coordinate outside
/// `[0, 1]` always is a reason: the coordinates are all checked.
pub proof fn lemma_point_verdict(p: JVal)
    ensures
        point_verdict(p) is Ok <==> point_in_unit_square(p),
        (p matches JVal::Array(c) && (c.len() == 2 || c.len() == 3) && (forall|k: int|
            0 <= k < c.len() ==> #[trigger] c[k] is Number) && exists|k: int|
            0 <= k < c.len() && (#[trigger] c[k] matches JVal::Number(n) && !n.in_unit_range()))
            ==> point_verdict(p) == Err::<(), Rejection>(Rejection::PointOutOfRange),
{
    if let JVal::Array(c) = p {
        if c.len() == 2 || c.len() == 3 {
            if point_verdict(p) is Ok {
                lemma_coords_accepted(c, 0);
            }
            if point_in_unit_square(p) {
                lemma_coords_in_range_ok(c, 0);
            }
            if (forall|k: int| 0 <= k < c.len() ==> #[trigger] c[k] is Number) {
                lemma_coords_numbers(c, 0);
            }
        }
    }
}

proof fn lemma_coords_in_range_ok(c: Seq<JVal>, j: int)
    requires
        0 <= j,
        forall|k: int| 0 <= k < c.len() ==> (#[trigger] c[k] matches JVal::Number(n) && n.in_unit_range()),
    ensures
        coords_from(c, j) is Ok,
    decreases c.len() - j,
{
    if j < c.len() {
        assert(c[j] matches JVal::Number(n) && n.in_unit_range());
        lemma_coords_in_range_ok(c, j + 1);
    }
}

proof fn lemma_coords_numbers(c: Seq<JVal>, j: int)
    requires
        0 <= j,
        forall|k: int| 0 <= k < c.len() ==> #[trigger] c[k] is Number,
    ensures
        coords_from(c, j) is Ok || coords_from(c, j) == Err::<(), Rejection>(Rejection::PointOutOfRange),
        coords_from(c, j) is Ok ==> forall|k: int|
            j <= k < c.len() ==> (#[trigger] c[k] matches JVal::Number(n) && n.in_unit_range()),
    decreases c.len() - j,
{
    if j < c.len() {
        assert(c[j] is Number);
        lemma_coords_numbers(c, j + 1);
    }
}


/// A doodle on an open board is taken exactly when its schema version is
/// absent or 1, its strokes pass, its description has at most 280
/// characters, and its stored size, the strokes' text length plus the
/// description's bytes plus 64, is at most 102400; that size is returned.
pub proof fn lemma_submission_bounds(body: SubmitBody, strokes_text_len: usize)
    ensures
        ({
            let open = DoodleSettings { enabled: true, paused: false };
            let size = strokes_text_len + vstd::utf8::encode_utf8(description_of(body)).len() + 64;
            submission_spec(open, body, strokes_text_len) is Ok <==> ((body.schema_version is None
                || body.schema_version == Some(1i64)) && strokes_verdict(strokes_of(body)) is Ok
                && description_of(body).len() <= 280 && size <= 102400)
        }),
        ({
            let open = DoodleSettings { enabled: true, paused: false };
            submission_spec(open, body, strokes_text_len) matches Ok(n) ==> n == strokes_text_len
                + vstd::utf8::encode_utf8(description_of(body)).len() + 64
        }),
{
    let d = description_of(body);
    lemma_utf8_len_bound(d);
}

/// Each character takes at most four bytes of UTF-8.
proof fn lemma_utf8_len_bound(s: Seq<char>)
    ensures
        vstd::utf8::encode_utf8(s).len() <= 4 * s.len(),
    decreases s.len(),
{
    if s.len() > 0 {
        lemma_utf8_len_bound(s.drop_first());
    }
}

/// A color after an optional `#` of ASCII hexadecimal digits is taken
/// exactly when there are 3 or 6 of them; a color holding any other
/// character is refused.
pub proof fn lemma_hex_colors(h: Seq<char>)
    ensures
        (forall|i: int| 0 <= i < h.len() ==> #[trigger] is_hex_digit(h[i])) ==> (hex_color(
            seq!['#'] + h,
        ) <==> (h.len() == 3 || h.len() == 6)),
        (exists|i: int| 0 <= i < h.len() && !#[trigger] is_hex_digit(h[i])) ==> !hex_color(
            seq!['#'] + h,
        ),
{
    let s = seq!['#'] + h;
    assert(strip_hash(s) =~= h);
    if forall|i: int| 0 <= i < h.len() ==> #[trigger] is_hex_digit(h[i]) {
        assert(vstd::utf8::is_ascii_chars(h)) by {
            assert forall|i: int| 0 <= i < h.len() implies '\0' <= #[trigger] h[i] <= '\u{7f}' by {
                assert(is_hex_digit(h[i]));
            }
        }
        vstd::utf8::is_ascii_chars_encode_utf8(h);
    }
}

} // verus!
