//! Night mode: a window of local clock time during which a profile shows
//! its night look.
use vstd::prelude::*;
use crate::helpers::feature_enabled;
use crate::json::{Json, JsonNumber, JVal};
use crate::outside::zoned_clock;
use crate::rejection::Rejection;
use crate::text::{chars_of, parse_i64, parse_u32, push_char};

verus! {

/// Whether `minutes` lies in the window from `start` (inclusive) to `end`
/// (exclusive), wrapping past midnight when `end < start`. An empty window
/// (`start == end`) holds exactly the minute `start`.
pub open spec fn spec_in_window(minutes: u32, start: u32, end: u32) -> bool {
    if start == end {
        minutes == start
    } else if start < end {
        start <= minutes && minutes < end
    } else {
        minutes >= start || minutes < end
    }
}

pub fn in_window(minutes: u32, start: u32, end: u32) -> (r: bool)
    ensures
        r == spec_in_window(minutes, start, end),
{
    if start == end {
        return minutes == start;
    }
    if start < end {
        minutes >= start && minutes < end
    } else {
        minutes >= start || minutes < end
    }
}

/// Swapping the ends of a non-empty window gives its complement: every
/// minute lies in exactly one of the two windows.
pub proof fn lemma_window_complement(minutes: u32, start: u32, end: u32)
    requires
        start != end,
    ensures
        spec_in_window(minutes, start, end) == !spec_in_window(minutes, end, start),
{
}

/// The start of hour `def` of the day, in minutes.
pub open spec fn default_minutes(def: u32) -> u32 {
    ((def % 24) * 60) as u32
}

/// `n.clamp(0, 1439)`.
pub open spec fn clamp_minutes(n: i64) -> u32 {
    if n < 0 {
        0
    } else if n > 1439 {
        1439
    } else {
        n as u32
    }
}

/// `s` holds exactly one `:`, at index `k`.
pub open spec fn single_colon_at(s: Seq<char>, k: int) -> bool {
    &&& 0 <= k < s.len()
    &&& s[k] == ':'
    &&& forall|j: int| 0 <= j < s.len() && j != k ==> s[j] != ':'
}

/// Minutes of the day that the text `raw` gives: a whole number of minutes
/// (clamped to the day), or `H:M` with each part read modulo 24 and 60 (an
/// unreadable hour falls back to `def`, an unreadable minute to 0); anything
/// else gives hour `def`.
pub open spec fn hhmm_text_spec(raw: Seq<char>, def: u32) -> u32 {
    match crate::text::parse_i64_spec(raw) {
        Some(n) => clamp_minutes(n),
        None => if exists|k: int| single_colon_at(raw, k) {
            let k = choose|k: int| single_colon_at(raw, k);
            let h = match crate::text::parse_u32_spec(raw.take(k)) {
                Some(v) => v,
                None => def % 24,
            } % 24;
            let m = match crate::text::parse_u32_spec(raw.skip(k + 1)) {
                Some(v) => v,
                None => 0,
            } % 60;
            (h * 60 + m) as u32
        } else {
            default_minutes(def)
        },
    }
}

/// Minutes of the day that a configured `from`/`to` value gives. A number
/// is read by its decimal text: an integer within `i64` is clamped to the
/// day; any other number (a float's text holds `.` or `e`, never `:`)
/// falls back to hour `def`, as does a missing value or one of another type.
pub open spec fn hhmm_spec(value: Option<JVal>, def: u32) -> u32 {
    match value {
        Some(JVal::Str(s)) => hhmm_text_spec(s, def),
        Some(JVal::Number(n)) => match n.int_value() {
            Some(i) => clamp_minutes(i),
            None => default_minutes(def),
        },
        _ => default_minutes(def),
    }
}

fn clamp_i64(n: i64) -> (r: u32)
    ensures
        r == clamp_minutes(n),
{
    if n < 0 {
        0
    } else if n > 1439 {
        1439
    } else {
        n as u32
    }
}

fn hhmm_text(raw: &str, def: u32) -> (r: u32)
    ensures
        r == hhmm_text_spec(raw@, def),
        r < 1440,
{
    if let Some(n) = parse_i64(raw) {
        return clamp_i64(n);
    }
    let cs = chars_of(raw);
    let len = cs.len();
    let mut colons: usize = 0;
    let mut at: usize = 0;
    let mut i: usize = 0;
    while i < len
        invariant
            i <= len,
            len == cs@.len(),
            cs@ == raw@,
            colons <= i,
            colons == 0 ==> forall|j: int| 0 <= j < i ==> raw@[j] != ':',
            colons == 1 ==> single_colon_at(raw@.take(i as int), at as int),
            colons == 1 ==> at < i,
            colons >= 2 ==> exists|a: int, b: int|
                #![trigger raw@[a], raw@[b]]
                0 <= a < b < i && raw@[a] == ':' && raw@[b] == ':',
        decreases len - i,
    {
        if cs[i] == ':' {
            if colons == 0 {
                at = i;
            } else if colons == 1 {
                assert(raw@.take(i as int)[at as int] == ':');
            }
            if colons < 2 {
                colons = colons + 1;
            }
        }
        proof {
            if colons == 1 {
                assert forall|j: int|
                    0 <= j < i + 1 && j != at implies #[trigger] raw@.take(i + 1)[j] != ':' by {
                    if j < i {
                        assert(raw@.take(i as int)[j] == raw@.take(i + 1)[j]);
                    }
                }
            }
        }
        i = i + 1;
    }
    assert(raw@.take(len as int) =~= raw@);
    if colons != 1 {
        proof {
            if exists|k: int| single_colon_at(raw@, k) {
                let k = choose|k: int| single_colon_at(raw@, k);
                if colons >= 2 {
                    let (a, b) = choose|a: int, b: int|
                        #![trigger raw@[a], raw@[b]]
                        0 <= a < b < len && raw@[a] == ':' && raw@[b] == ':';
                    assert(a == k || b == k);
                }
            }
        }
        return (def % 24) * 60;
    }
    proof {
        assert(single_colon_at(raw@, at as int));
        let k = choose|k: int| single_colon_at(raw@, k);
        assert(k == at);
    }
    let hour_text = raw.substring_char(0, at);
    let minute_text = raw.substring_char(at + 1, len);
    assert(raw@.subrange(0, at as int) =~= raw@.take(at as int));
    assert(raw@.subrange(at + 1, len as int) =~= raw@.skip(at + 1));
    let h: u32 = match parse_u32(hour_text) {
        Some(v) => v,
        None => def % 24,
    } % 24;
    let m: u32 = match parse_u32(minute_text) {
        Some(v) => v,
        None => 0,
    } % 60;
    h * 60 + m
}

/// Minutes of the day that a configured `from`/`to` value gives.
pub fn parse_hhmm(value: Option<&Json>, def: u32) -> (r: u32)
    ensures
        r == hhmm_spec(
            match value {
                Some(v) => Some(v@),
                None => None,
            },
            def,
        ),
        r < 1440,
{
    match value {
        Some(Json::Str(s)) => hhmm_text(s.as_str(), def),
        Some(Json::Number(n)) => match n.as_i64() {
            Some(i) => clamp_i64(i),
            None => (def % 24) * 60,
        },
        _ => (def % 24) * 60,
    }
}

/// The decimal digit character for `d < 10`.
pub open spec fn digit_char(d: int) -> char {
    (('0' as int) + d) as char
}

/// `HH:MM` for a minute of the day, as `format!("{:02}:{:02}", ..)` writes it.
pub open spec fn clock_text_spec(minutes: u32) -> Seq<char> {
    let h = minutes as int / 60;
    let m = minutes as int % 60;
    seq![digit_char(h / 10), digit_char(h % 10), ':', digit_char(m / 10), digit_char(m % 10)]
}

fn digit(d: u32) -> (c: char)
    requires
        d < 10,
    ensures
        c == digit_char(d as int),
{
    ((d as u8) + 48u8) as char
}

pub fn clock_text(minutes: u32) -> (r: String)
    requires
        minutes < 1440,
    ensures
        r@ == clock_text_spec(minutes),
{
    let h = minutes / 60;
    let m = minutes % 60;
    let mut out = String::new();
    push_char(&mut out, digit(h / 10));
    push_char(&mut out, digit(h % 10));
    push_char(&mut out, ':');
    push_char(&mut out, digit(m / 10));
    push_char(&mut out, digit(m % 10));
    assert(out@ =~= clock_text_spec(minutes));
    out
}

/// The night window a profile configured.
pub struct NightConfig {
    /// The IANA time zone name, `UTC` when none is given.
    pub zone: String,
    /// First minute of the window.
    pub start: u32,
    /// First minute after the window.
    pub end: u32,
}

/// The `night` settings object, or an empty object.
pub open spec fn night_settings(settings: JVal) -> JVal {
    match settings.get("night"@) {
        Some(v) => v,
        None => crate::json::empty_object(),
    }
}

/// The night window configured in `settings`; refused when the feature is off.
pub fn night_config(settings: &Json) -> (r: Result<NightConfig, Rejection>)
    ensures
        !crate::helpers::switched_on(settings@, "night"@) <==> r == Err::<NightConfig, Rejection>(
            Rejection::FeatureOff,
        ),
        r matches Ok(c) ==> {
            let cfg = night_settings(settings@);
            &&& c.zone@ == match cfg.str_at("tz"@) {
                Some(z) => z,
                None => "UTC"@,
            }
            &&& c.start == hhmm_spec(cfg.get("from"@), 23)
            &&& c.end == hhmm_spec(cfg.get("to"@), 5)
            &&& c.start < 1440 && c.end < 1440
        },
{
    if !feature_enabled(settings, "night") {
        return Err(Rejection::FeatureOff);
    }
    let empty = Json::new_object();
    let cfg: &Json = match settings.get("night") {
        Some(v) => v,
        None => &empty,
    };
    let zone = match cfg.str_at("tz") {
        Some(z) => String::from_str(z),
        None => String::from_str("UTC"),
    };
    let start = parse_hhmm(cfg.get("from"), 23);
    let end = parse_hhmm(cfg.get("to"), 5);
    Ok(NightConfig { zone, start, end })
}

/// The local minute of the day at Unix second `secs` in the zone named
/// `zone`; an unknown zone name reads the clock in UTC. `None` only when the
/// instant lies outside what the calendar can represent.
pub fn local_minute_of_day(zone: &str, secs: i64) -> (r: Option<u32>)
    ensures
        r == match crate::outside::zoned_clock_at(zone@, secs) {
            Some((h, m)) => Some((h * 60 + m) as u32),
            None => match crate::outside::zoned_clock_at("UTC"@, secs) {
                Some((h, m)) => Some((h * 60 + m) as u32),
                None => None,
            },
        },
        r matches Some(v) ==> v < 1440,
{
    let clock = match zoned_clock(zone, secs) {
        Some(c) => Some(c),
        None => zoned_clock("UTC", secs),
    };
    match clock {
        Some((h, m)) => Some(h * 60 + m),
        None => None,
    }
}

/// What the night endpoint shows.
pub struct NightState {
    pub visible: bool,
    pub from: String,
    pub to: String,
}

pub fn night_state(config: &NightConfig, minutes: u32) -> (r: NightState)
    requires
        config.start < 1440,
        config.end < 1440,
    ensures
        r.visible == spec_in_window(minutes, config.start, config.end),
        r.from@ == clock_text_spec(config.start),
        r.to@ == clock_text_spec(config.end),
{
    NightState {
        visible: in_window(minutes, config.start, config.end),
        from: clock_text(config.start),
        to: clock_text(config.end),
    }
}


/// A non-empty window holds its first minute and not the minute it ends
/// at; a window that does not wrap holds exactly the minutes between.
pub proof fn lemma_window_ends(minutes: u32, start: u32, end: u32)
    ensures
        start != end ==> spec_in_window(start, start, end) && !spec_in_window(end, start, end),
        start < end ==> (spec_in_window(minutes, start, end) <==> start <= minutes < end),
        start > end ==> (spec_in_window(minutes, start, end) <==> !(end <= minutes < start)),
{
}


proof fn lemma_digit_char(d: int)
    requires
        0 <= d < 10,
    ensures
        crate::text::is_digit(digit_char(d)),
        crate::text::digit_value(digit_char(d)) == d,
        digit_char(d) != ':' && digit_char(d) != '-' && digit_char(d) != '+',
{
    assert(('0' as int) == 48);
    assert((48 + d) as char as int == 48 + d);
}

proof fn lemma_two_digits(a: int, b: int)
    requires
        0 <= a < 10,
        0 <= b < 10,
    ensures
        crate::text::parse_u32_spec(seq![digit_char(a), digit_char(b)]) == Some((a * 10 + b) as u32),
{
    lemma_digit_char(a);
    lemma_digit_char(b);
    let s = seq![digit_char(a), digit_char(b)];
    assert(s.drop_last() =~= seq![digit_char(a)]);
    assert(seq![digit_char(a)].drop_last() =~= Seq::<char>::empty());
    assert(crate::text::decimal_value(Seq::<char>::empty()) == 0);
    assert(crate::text::decimal_value(seq![digit_char(a)]) == a);
    assert(crate::text::decimal_value(s) == a * 10 + b);
    assert(crate::text::all_digits(s));
    assert(s[0] != '+');
}

/// Reading back the `HH:MM` text that the night endpoint shows for a
/// minute of the day gives that minute, whatever the fallback hour.
pub proof fn lemma_clock_text_reads_back(minutes: u32, def: u32)
    requires
        minutes < 1440,
    ensures
        hhmm_spec(Some(JVal::Str(clock_text_spec(minutes))), def) == minutes,
{
    let h = minutes as int / 60;
    let m = minutes as int % 60;
    let s = clock_text_spec(minutes);
    lemma_digit_char(h / 10);
    lemma_digit_char(h % 10);
    lemma_digit_char(m / 10);
    lemma_digit_char(m % 10);
    assert(!crate::text::is_digit(s[2]));
    assert(!crate::text::all_digits(s));
    assert(crate::text::parse_i64_spec(s) is None);
    assert(single_colon_at(s, 2));
    let k = choose|k: int| single_colon_at(s, k);
    assert(k == 2);
    assert(s.take(2) =~= seq![digit_char(h / 10), digit_char(h % 10)]);
    assert(s.skip(3) =~= seq![digit_char(m / 10), digit_char(m % 10)]);
    lemma_two_digits(h / 10, h % 10);
    lemma_two_digits(m / 10, m % 10);
}

} // verus!
