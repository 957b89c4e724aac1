//! Shared rules: reading the settings of a profile, feature switches,
//! visitor fingerprints, fresh identifiers and the windowed rate limit.
use vstd::prelude::*;
use crate::json::{Json, JVal};
use crate::outside::{base64_url_encode, random_uuid, sha256};
use crate::rejection::Rejection;
use crate::text::to_lower_hex;

verus! {

/// The `settings` member of a profile configuration, or an empty object.
pub open spec fn settings_spec(config: Option<JVal>) -> JVal {
    match config {
        Some(c) => match c.get("settings"@) {
            Some(s) => s,
            None => crate::json::empty_object(),
        },
        None => crate::json::empty_object(),
    }
}

pub fn settings_of(config: Option<&Json>) -> (r: Json)
    ensures
        r@ == settings_spec(
            match config {
                Some(c) => Some(c@),
                None => None,
            },
        ),
{
    match config {
        Some(c) => match c.get("settings") {
            Some(s) => s.copy(),
            None => Json::new_object(),
        },
        None => Json::new_object(),
    }
}

/// A feature switch `settings.<key>` is on: `true`, or a non-empty object
/// or array. Absent, `null`, `false`, empty containers, numbers and strings
/// are off.
pub open spec fn switched_on(settings: JVal, key: Seq<char>) -> bool {
    match settings.get(key) {
        None => false,
        Some(JVal::Bool(b)) => b,
        Some(JVal::Null) => false,
        Some(JVal::Object(m)) => m.len() > 0,
        Some(JVal::Array(a)) => a.len() > 0,
        Some(JVal::Number(_)) => false,
        Some(JVal::Str(_)) => false,
    }
}

pub fn feature_enabled(settings: &Json, key: &str) -> (r: bool)
    ensures
        r == switched_on(settings@, key@),
{
    match settings.get(key) {
        None => false,
        Some(Json::Bool(b)) => *b,
        Some(Json::Null) => false,
        Some(Json::Object(m)) => m.len() > 0,
        Some(Json::Array(a)) => a.len() > 0,
        Some(Json::Number(_)) => false,
        Some(Json::Str(_)) => false,
    }
}

/// The short fingerprint of a source address: the first 16 hexadecimal
/// digits of the SHA-256 digest of its bytes. The address itself is never
/// kept.
pub open spec fn scope_key_spec(ip: &str) -> Seq<char> {
    crate::text::lower_hex(crate::outside::sha256_digest(vstd::utf8::encode_utf8(ip@))).take(16)
}

pub fn scope_key(ip: &str) -> (r: String)
    ensures
        r@ == scope_key_spec(ip),
        r@.len() == 16,
{
    let digest = sha256(ip.as_bytes());
    let hex = to_lower_hex(digest.as_slice());
    proof {
        crate::text::lemma_lower_hex_len(digest@);
    }
    let head = hex.as_str().substring_char(0, 16);
    assert(hex@.subrange(0, 16) =~= hex@.take(16));
    String::from_str(head)
}

/// A fresh random identifier (a version 4 UUID, as its 16 bytes).
pub fn new_uuid() -> (r: [u8; 16])
    ensures
        r@[6] / 16 == 4,
        r@[8] / 64 == 2,
{
    random_uuid()
}

/// The public identifier shown for an identifier with bytes `bytes`.
pub fn public_id_of(bytes: &[u8; 16]) -> (r: String)
    ensures
        r@ == crate::outside::base64_url_text(bytes@),
{
    base64_url_encode(bytes)
}

/// A fresh public identifier: the unpadded URL-safe Base64 text of a fresh
/// random version 4 UUID.
pub fn new_public_id() -> (r: String)
    ensures
        exists|b: Seq<u8>|
            b.len() == 16 && b[6] / 16 == 4 && b[8] / 64 == 2 && r@ == crate::outside::base64_url_text(
                b,
            ),
{
    let bytes = new_uuid();
    let r = public_id_of(&bytes);
    let ghost b = bytes@;
    assert(b.len() == 16 && b[6] / 16 == 4 && b[8] / 64 == 2 && r@ == crate::outside::base64_url_text(b));
    r
}

/// When a refused caller may try again: the instant (Unix milliseconds) at
/// which a slot of the window frees up, and how many milliseconds away that
/// is.
#[derive(PartialEq, Eq, Structural, Clone, Copy, Debug)]
pub struct Retry {
    pub at_ms: i64,
    pub after_ms: i64,
}

/// `x` held to the range of `i64`.
pub open spec fn clamp_i64(x: int) -> i64 {
    if x > i64::MAX {
        i64::MAX
    } else if x < i64::MIN {
        i64::MIN
    } else {
        x as i64
    }
}

/// The recorded calls (Unix milliseconds) that still lie in the window of
/// `window_ms` milliseconds ending at `now_ms`, in their order.
pub open spec fn live_calls(calls: Seq<i64>, now_ms: int, window_ms: int) -> Seq<i64>
    decreases calls.len(),
{
    if calls.len() == 0 {
        Seq::empty()
    } else {
        let rest = live_calls(calls.drop_last(), now_ms, window_ms);
        if calls.last() >= now_ms - window_ms {
            rest.push(calls.last())
        } else {
            rest
        }
    }
}

/// When a refused call may be retried: once the oldest calls have left the
/// window so that fewer than `max` remain. With no room at all (`max <= 0`)
/// that never comes.
pub open spec fn retry_of(live: Seq<i64>, now_ms: i64, window_ms: i64, max: i64) -> Retry {
    let at = if max <= 0 {
        i64::MAX
    } else {
        clamp_i64(live[live.len() - max] + window_ms + 1)
    };
    Retry { at_ms: at, after_ms: clamp_i64(at - now_ms) }
}

/// The sliding-window limiter on a call at `now_ms`, given the calls
/// recorded for the key: calls older than `window_ms` are dropped; with
/// `max` or more left the call is refused, with when to retry; otherwise it
/// is recorded. `Ok` holds the calls to store.
pub open spec fn rate_spec(calls: Seq<i64>, now_ms: i64, window_ms: i64, max: i64) -> Result<
    Seq<i64>,
    Retry,
> {
    let live = live_calls(calls, now_ms as int, window_ms as int);
    if live.len() >= max {
        Err(retry_of(live, now_ms, window_ms, max))
    } else {
        Ok(live.push(now_ms))
    }
}

fn clamp_wide(x: i128) -> (r: i64)
    ensures
        r == clamp_i64(x as int),
{
    if x > 0x7fff_ffff_ffff_ffff {
        0x7fff_ffff_ffff_ffff
    } else if x < -0x8000_0000_0000_0000 {
        -0x8000_0000_0000_0000
    } else {
        x as i64
    }
}

/// The limiter's decision on a call at `now_ms`; a refusal carries when the
/// caller may try again and records nothing.
pub fn rate_decision(calls: &Vec<i64>, now_ms: i64, window_ms: i64, max: i64) -> (r: Result<
    Vec<i64>,
    Retry,
>)
    ensures
        match r {
            Ok(v) => rate_spec(calls@, now_ms, window_ms, max) == Ok::<Seq<i64>, Retry>(v@),
            Err(e) => rate_spec(calls@, now_ms, window_ms, max) == Err::<Seq<i64>, Retry>(e),
        },
{
    let mut live: Vec<i64> = Vec::new();
    let from: i128 = (now_ms as i128) - (window_ms as i128);
    for i in 0..calls.len()
        invariant
            from == now_ms - window_ms,
            live@ == live_calls(calls@.take(i as int), now_ms as int, window_ms as int),
    {
        assert(calls@.take(i + 1).drop_last() =~= calls@.take(i as int));
        if (calls[i] as i128) >= from {
            live.push(calls[i]);
        }
    }
    assert(calls@.take(calls.len() as int) =~= calls@);
    let n = live.len();
    if (n as i128) >= (max as i128) {
        let at: i64 = if max <= 0 {
            0x7fff_ffff_ffff_ffff
        } else {
            let idx = n - (max as usize);
            clamp_wide((live[idx] as i128) + (window_ms as i128) + 1)
        };
        let after = clamp_wide((at as i128) - (now_ms as i128));
        Err(Retry { at_ms: at, after_ms: after })
    } else {
        live.push(now_ms);
        Ok(live)
    }
}

/// The calls at instants `times`, in order, against a key with nothing
/// recorded: the calls recorded at the end, and the instants of the calls
/// that were let through.
pub open spec fn rate_run(times: Seq<i64>, window_ms: i64, max: i64) -> (Seq<i64>, Seq<i64>)
    decreases times.len(),
{
    if times.len() == 0 {
        (Seq::empty(), Seq::empty())
    } else {
        let (calls, passed) = rate_run(times.drop_last(), window_ms, max);
        match rate_spec(calls, times.last(), window_ms, max) {
            Ok(next) => (next, passed.push(times.last())),
            Err(_) => (calls, passed),
        }
    }
}

/// How many of the instants `s` lie in the span from `a` to `a + window_ms`.
pub open spec fn count_span(s: Seq<i64>, a: int, window_ms: int) -> nat
    decreases s.len(),
{
    if s.len() == 0 {
        0
    } else {
        count_span(s.drop_last(), a, window_ms) + if a <= s.last() <= a + window_ms {
            1nat
        } else {
            0nat
        }
    }
}

/// How many of the instants `s` are at or after `x`.
pub open spec fn count_from(s: Seq<i64>, x: int) -> nat
    decreases s.len(),
{
    if s.len() == 0 {
        0
    } else {
        count_from(s.drop_last(), x) + if s.last() >= x {
            1nat
        } else {
            0nat
        }
    }
}

/// Instants that never go back.
pub open spec fn in_order(times: Seq<i64>) -> bool {
    forall|i: int, j: int| 0 <= i <= j < times.len() ==> times[i] <= times[j]
}

proof fn lemma_live_len(s: Seq<i64>, now: int, w: int)
    ensures
        live_calls(s, now, w).len() == count_from(s, now - w),
    decreases s.len(),
{
    if s.len() > 0 {
        lemma_live_len(s.drop_last(), now, w);
    }
}

proof fn lemma_live_twice(s: Seq<i64>, c: int, n: int, w: int)
    requires
        c <= n,
    ensures
        live_calls(live_calls(s, c, w), n, w) == live_calls(s, n, w),
    decreases s.len(),
{
    if s.len() > 0 {
        let r = live_calls(s.drop_last(), c, w);
        lemma_live_twice(s.drop_last(), c, n, w);
        if s.last() >= c - w {
            assert(r.push(s.last()).drop_last() =~= r);
        }
    }
}

proof fn lemma_span_within_from(s: Seq<i64>, a: int, w: int)
    ensures
        count_span(s, a, w) <= count_from(s, a),
    decreases s.len(),
{
    if s.len() > 0 {
        lemma_span_within_from(s.drop_last(), a, w);
    }
}

proof fn lemma_from_monotone(s: Seq<i64>, x: int, y: int)
    requires
        y <= x,
    ensures
        count_from(s, x) <= count_from(s, y),
    decreases s.len(),
{
    if s.len() > 0 {
        lemma_from_monotone(s.drop_last(), x, y);
    }
}

/// What holds after every prefix of a run: the recorded calls are the
/// passed calls still in the window of the last one passed, every passed
/// call lies at or before the last instant, and no span of `window_ms`
/// holds more than `max` passed calls.
proof fn lemma_run_invariant(times: Seq<i64>, window_ms: i64, max: i64)
    requires
        window_ms >= 0,
        max >= 0,
        in_order(times),
    ensures
        ({
            let (calls, passed) = rate_run(times, window_ms, max);
            &&& passed.len() == 0 ==> calls.len() == 0
            &&& passed.len() > 0 ==> calls == live_calls(passed, passed.last() as int, window_ms as int)
            &&& times.len() > 0 ==> forall|i: int| 0 <= i < passed.len() ==> passed[i] <= times.last()
            &&& forall|a: int| #[trigger] count_span(passed, a, window_ms as int) <= max
        }),
    decreases times.len(),
{
    if times.len() > 0 {
        let prev = times.drop_last();
        assert(in_order(prev)) by {
            assert forall|i: int, j: int| 0 <= i <= j < prev.len() implies prev[i] <= prev[j] by {
                assert(prev[i] == times[i] && prev[j] == times[j]);
            }
        }
        lemma_run_invariant(prev, window_ms, max);
        let (calls, passed) = rate_run(prev, window_ms, max);
        let s = times.last();
        let w = window_ms as int;
        if prev.len() > 0 {
            assert(prev.last() <= s);
        }
        let live = live_calls(calls, s as int, w);
        if passed.len() > 0 {
            lemma_live_twice(passed, passed.last() as int, s as int, w);
            assert(live == live_calls(passed, s as int, w));
        } else {
            assert(live == live_calls(passed, s as int, w));
        }
        lemma_live_len(passed, s as int, w);
        if live.len() < max {
            let np = passed.push(s);
            assert(np.drop_last() =~= passed);
            assert(live_calls(np, s as int, w) == live.push(s));
            assert forall|a: int| #[trigger] count_span(np, a, w) <= max by {
                if a <= s <= a + w {
                    lemma_span_within_from(passed, a, w);
                    lemma_from_monotone(passed, a, s - w);
                    assert(count_span(passed, a, w) <= max);
                }
            }
        }
    }
}

/// A sliding window: however the calls fall, no span of `window_ms`
/// milliseconds holds more than `max` calls that were let through.
pub proof fn lemma_sliding_window(times: Seq<i64>, window_ms: i64, max: i64, a: int)
    requires
        window_ms >= 0,
        max >= 0,
        in_order(times),
    ensures
        count_span(rate_run(times, window_ms, max).1, a, window_ms as int) <= max,
{
    lemma_run_invariant(times, window_ms, max);
}

proof fn lemma_from_bounded(l: Seq<i64>, x: int, k: int)
    requires
        0 <= k <= l.len(),
        forall|j: int| 0 <= j < k ==> l[j] < x,
    ensures
        count_from(l, x) <= l.len() - k,
    decreases l.len(),
{
    if l.len() > k {
        lemma_from_bounded(l.drop_last(), x, k);
    } else if l.len() > 0 {
        lemma_from_bounded(l.drop_last(), x, k - 1);
    }
}

proof fn lemma_from_at_least(l: Seq<i64>, x: int, k: int)
    requires
        0 <= k <= l.len(),
        forall|j: int| k <= j < l.len() ==> l[j] >= x,
    ensures
        count_from(l, x) >= l.len() - k,
    decreases l.len(),
{
    if l.len() > k {
        lemma_from_at_least(l.drop_last(), x, k);
    }
}

/// The retry instant of a refusal is exact: with the recorded calls in
/// order, a call at any instant from the refusal on is refused before the
/// retry instant and let through from it on (short of the end of the
/// clock's range).
pub proof fn lemma_retry_is_exact(calls: Seq<i64>, now_ms: i64, later_ms: i64, window_ms: i64, max: i64)
    requires
        in_order(calls),
        max >= 1,
        rate_spec(calls, now_ms, window_ms, max) is Err,
        now_ms <= later_ms,
        live_calls(calls, now_ms as int, window_ms as int).len() >= max,
        ({
            let live = live_calls(calls, now_ms as int, window_ms as int);
            live[live.len() - max] + window_ms + 1 <= i64::MAX
        }),
    ensures
        ({
            let retry = rate_spec(calls, now_ms, window_ms, max)->Err_0;
            &&& later_ms < retry.at_ms ==> rate_spec(calls, later_ms, window_ms, max) is Err
            &&& later_ms >= retry.at_ms ==> rate_spec(calls, later_ms, window_ms, max) is Ok
        }),
{
    let w = window_ms as int;
    let live = live_calls(calls, now_ms as int, w);
    lemma_live_in_order(calls, now_ms as int, w);
    lemma_live_twice(calls, now_ms as int, later_ms as int, w);
    let later = live_calls(live, later_ms as int, w);
    lemma_live_len(live, later_ms as int, w);
    let k = live.len() - max;
    if later_ms < live[k] + w + 1 {
        lemma_from_at_least(live, later_ms - w, k);
    } else {
        lemma_from_bounded(live, later_ms - w, k + 1);
    }
}

proof fn lemma_live_in_order(s: Seq<i64>, now: int, w: int)
    requires
        in_order(s),
    ensures
        in_order(live_calls(s, now, w)),
        forall|i: int| 0 <= i < live_calls(s, now, w).len() ==> s.contains(#[trigger] live_calls(s, now, w)[i]),
    decreases s.len(),
{
    if s.len() > 0 {
        let init = s.drop_last();
        assert(in_order(init)) by {
            assert forall|i: int, j: int| 0 <= i <= j < init.len() implies init[i] <= init[j] by {
                assert(init[i] == s[i] && init[j] == s[j]);
            }
        }
        lemma_live_in_order(init, now, w);
        let r = live_calls(init, now, w);
        assert forall|i: int| 0 <= i < r.len() implies s.contains(#[trigger] r[i]) by {
            let k = choose|k: int| 0 <= k < init.len() && init[k] == r[i];
            assert(s[k] == r[i]);
        }
        if s.last() >= now - w {
            let r2 = r.push(s.last());
            assert forall|i: int, j: int| 0 <= i <= j < r2.len() implies r2[i] <= r2[j] by {
                if j == r.len() && i < j {
                    let k = choose|k: int| 0 <= k < init.len() && init[k] == r[i];
                    assert(s[k] <= s[s.len() - 1]);
                }
            }
            assert forall|i: int| 0 <= i < r2.len() implies s.contains(#[trigger] r2[i]) by {
                if i < r.len() {
                    assert(s.contains(r[i]));
                } else {
                    assert(s[s.len() - 1] == r2[i]);
                }
            }
        }
    }
}

} // verus!

verus! {

/// The source address of a request body, `?` when it names none.
pub open spec fn client_of(ip: Option<String>) -> Seq<char> {
    match ip {
        Some(s) => s@,
        None => "?"@,
    }
}

/// The rate-limit key of a request: the fingerprint of its source address.
pub fn client_key(ip: &Option<String>) -> (r: String)
    ensures
        r@ == crate::text::lower_hex(
            crate::outside::sha256_digest(vstd::utf8::encode_utf8(client_of(*ip))),
        ).take(16),
{
    match ip {
        Some(s) => scope_key(s.as_str()),
        None => scope_key("?"),
    }
}

/// An update that touched no row found nothing to act on.
pub fn found_or(rows_affected: u64, missing: Rejection) -> (r: Result<(), Rejection>)
    ensures
        rows_affected == 0 ==> r == Err::<(), Rejection>(missing),
        rows_affected != 0 ==> r is Ok,
{
    if rows_affected == 0 {
        Err(missing)
    } else {
        Ok(())
    }
}

/// The text of an optional field, empty when absent.
pub open spec fn text_or_empty(s: Option<String>) -> Seq<char> {
    match s {
        Some(t) => t@,
        None => Seq::empty(),
    }
}

/// A copy of an optional field's text, empty when absent.
pub fn owned_or_empty(s: &Option<String>) -> (r: String)
    ensures
        r@ == text_or_empty(*s),
{
    match s {
        Some(t) => t.clone(),
        None => String::new(),
    }
}

} // verus!

verus! {

/// The lower-case hexadecimal SHA-256 digest of the bytes of `text`.
pub open spec fn digest_hex_spec(text: Seq<char>) -> Seq<char> {
    crate::text::lower_hex(crate::outside::sha256_digest(vstd::utf8::encode_utf8(text)))
}

pub fn digest_hex(text: &str) -> (r: String)
    ensures
        r@ == digest_hex_spec(text@),
        r@.len() == 64,
{
    let digest = sha256(text.as_bytes());
    proof {
        crate::text::lemma_lower_hex_len(digest@);
    }
    to_lower_hex(digest.as_slice())
}

} // verus!
