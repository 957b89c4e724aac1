//! The hit counter: unique visitors are counted once per session token;
//! skipped hits and crawlers are not counted.
use vstd::prelude::*;
use crate::outside::sha256;
use crate::rejection::Rejection;
use crate::text::{chars_of, to_lower_hex, trim};

verus! {

/// A hit.
pub struct HitBody {
    pub token: Option<String>,
    pub skip: Option<bool>,
    pub ua: Option<String>,
}

/// `c` with an ASCII capital letter made small, as
/// `char::to_ascii_lowercase` does; other characters are kept.
pub open spec fn ascii_lower_char(c: char) -> char {
    if 'A' <= c && c <= 'Z' {
        ((c as u32) + 32) as char
    } else {
        c
    }
}

pub open spec fn ascii_lower(s: Seq<char>) -> Seq<char> {
    s.map_values(|c: char| ascii_lower_char(c))
}

fn lower_char(c: char) -> (r: char)
    ensures
        r == ascii_lower_char(c),
{
    if 'A' <= c && c <= 'Z' {
        let u = (c as u32) + 32;
        assert(0x61 <= u <= 0x7A);
        char_from_ascii(u)
    } else {
        c
    }
}

fn char_from_ascii(u: u32) -> (r: char)
    requires
        u < 128,
    ensures
        r == u as char,
{
    let b = u as u8;
    b as char
}

/// The characters of `s` with ASCII capitals made small.
pub fn ascii_lowercase(s: &str) -> (r: Vec<char>)
    ensures
        r@ == ascii_lower(s@),
{
    let cs = chars_of(s);
    let mut out: Vec<char> = Vec::new();
    for i in 0..cs.len()
        invariant
            cs@ == s@,
            out@ == ascii_lower(s@.take(i as int)),
    {
        let c = lower_char(cs[i]);
        assert(ascii_lower(s@.take(i + 1)) =~= ascii_lower(s@.take(i as int)).push(c));
        out.push(c);
    }
    assert(s@.take(cs.len() as int) =~= s@);
    out
}

/// `p` occurs in `h` starting at position `i`.
pub open spec fn occurs_at(h: Seq<char>, p: Seq<char>, i: int) -> bool {
    0 <= i && i + p.len() <= h.len() && h.subrange(i, i + p.len()) == p
}

/// `p` occurs somewhere in `h`.
pub open spec fn occurs_in(h: Seq<char>, p: Seq<char>) -> bool {
    exists|i: int| occurs_at(h, p, i)
}

/// Whether `p` occurs in `h` at `i`, compared character by character.
fn matches_at(h: &Vec<char>, p: &Vec<char>, i: usize) -> (r: bool)
    requires
        i + p@.len() <= h@.len(),
    ensures
        r == occurs_at(h@, p@, i as int),
{
    let n = p.len();
    let hn = h.len();
    let mut k: usize = 0;
    while k < n
        invariant
            n == p@.len(),
            hn == h@.len(),
            i + n <= h@.len(),
            k <= n,
            forall|j: int| 0 <= j < k ==> h@[i + j] == p@[j],
        decreases n - k,
    {
        if h[i + k] != p[k] {
            assert(h@.subrange(i as int, i + n)[k as int] != p@[k as int]);
            return false;
        }
        k = k + 1;
    }
    assert(h@.subrange(i as int, i + n) =~= p@);
    true
}

/// Whether `pattern` occurs in `h`.
pub fn occurs(h: &Vec<char>, pattern: &str) -> (r: bool)
    ensures
        r == occurs_in(h@, pattern@),
{
    let p = chars_of(pattern);
    if p.len() > h.len() {
        assert forall|i: int| !occurs_at(h@, p@, i) by {}
        return false;
    }
    let last = h.len() - p.len();
    let mut i: usize = 0;
    loop
        invariant_except_break
            p@ == pattern@,
            last == h@.len() - p@.len(),
            i <= last,
            forall|j: int| 0 <= j < i ==> !occurs_at(h@, p@, j),
        ensures
            p@ == pattern@,
            forall|j: int| 0 <= j <= last ==> !occurs_at(h@, p@, j),
        decreases last - i,
    {
        if matches_at(h, &p, i) {
            return true;
        }
        if i == last {
            break;
        }
        i = i + 1;
    }
    assert forall|j: int| !occurs_at(h@, p@, j) by {
        if 0 <= j <= last {
        }
    }
    false
}

/// A user agent names a crawler: its ASCII-lower-cased text contains one
/// of the known crawler words.
pub open spec fn is_bot_spec(ua: Seq<char>) -> bool {
    let l = ascii_lower(ua);
    ||| occurs_in(l, "bot"@)
    ||| occurs_in(l, "crawler"@)
    ||| occurs_in(l, "spider"@)
    ||| occurs_in(l, "slurp"@)
    ||| occurs_in(l, "bingpreview"@)
    ||| occurs_in(l, "facebookexternalhit"@)
    ||| occurs_in(l, "headless"@)
    ||| occurs_in(l, "prerender"@)
}

pub fn is_bot(ua: &str) -> (r: bool)
    ensures
        r == is_bot_spec(ua@),
{
    let l = ascii_lowercase(ua);
    occurs(&l, "bot") || occurs(&l, "crawler") || occurs(&l, "spider") || occurs(&l, "slurp")
        || occurs(&l, "bingpreview") || occurs(&l, "facebookexternalhit") || occurs(&l, "headless")
        || occurs(&l, "prerender")
}

/// What happens to a hit.
pub enum HitPlan {
    /// The page asked not to be counted.
    Skipped,
    /// A crawler: not counted.
    Bot,
    /// Counted once for this (trimmed) visitor token.
    Count(String),
}

pub open spec fn hit_spec(skip: Option<bool>, ua: Seq<char>, token: Seq<char>) -> Result<
    Option<Seq<char>>,
    Rejection,
> {
    if skip == Some(true) {
        Ok(None)
    } else if is_bot_spec(ua) {
        Ok(None)
    } else if crate::text::trimmed(token).len() == 0 {
        Err(Rejection::VisitorTokenRequired)
    } else {
        Ok(Some(crate::text::trimmed(token)))
    }
}

/// Skipped hits are dropped first, then crawlers; any other hit needs a
/// non-empty (trimmed) visitor token.
pub fn hit_plan(body: &HitBody) -> (r: Result<HitPlan, Rejection>)
    ensures
        ({
            let ua = crate::helpers::text_or_empty(body.ua);
            let tok = crate::helpers::text_or_empty(body.token);
            match r {
                Ok(HitPlan::Skipped) => body.skip == Some(true),
                Ok(HitPlan::Bot) => body.skip != Some(true) && is_bot_spec(ua),
                Ok(HitPlan::Count(t)) => hit_spec(body.skip, ua, tok) == Ok::<
                    Option<Seq<char>>,
                    Rejection,
                >(Some(t@)),
                Err(e) => hit_spec(body.skip, ua, tok) == Err::<Option<Seq<char>>, Rejection>(e),
            }
        }),
{
    if body.skip == Some(true) {
        return Ok(HitPlan::Skipped);
    }
    let none = String::new();
    let bot = match &body.ua {
        Some(u) => is_bot(u.as_str()),
        None => is_bot(none.as_str()),
    };
    if bot {
        return Ok(HitPlan::Bot);
    }
    let token = match &body.token {
        Some(t) => trim(t.as_str()),
        None => trim(none.as_str()),
    };
    if token.as_str().unicode_len() == 0 {
        return Err(Rejection::VisitorTokenRequired);
    }
    Ok(HitPlan::Count(token))
}

/// The de-duplication key of a visitor of a profile: the lower-case
/// hexadecimal SHA-256 digest of the profile's 16 identifier bytes followed
/// by the bytes of the token.
pub open spec fn dedup_key_spec(user_id: Seq<u8>, token: Seq<char>) -> Seq<char> {
    crate::text::lower_hex(
        crate::outside::sha256_digest(user_id + vstd::utf8::encode_utf8(token)),
    )
}

pub fn dedup_key(user_id: &[u8; 16], token: &str) -> (r: String)
    ensures
        r@ == dedup_key_spec(user_id@, token@),
        r@.len() == 64,
{
    let mut data: Vec<u8> = Vec::new();
    let tb = token.as_bytes();
    for i in 0..16
        invariant
            data@ == user_id@.take(i as int),
    {
        data.push(user_id[i]);
        assert(user_id@.take(i + 1) =~= user_id@.take(i as int).push(user_id@[i as int]));
    }
    let n = tb.len();
    for j in 0..n
        invariant
            n == tb@.len(),
            data@ == user_id@ + tb@.take(j as int),
    {
        data.push(tb[j]);
        assert(user_id@ + tb@.take(j + 1) =~= (user_id@ + tb@.take(j as int)).push(tb@[j as int]));
    }
    assert(user_id@.take(16) =~= user_id@);
    assert(tb@.take(n as int) =~= tb@);
    let digest = sha256(data.as_slice());
    proof {
        crate::text::lemma_lower_hex_len(digest@);
    }
    to_lower_hex(digest.as_slice())
}


/// A visitor is keyed by the trimmed token: two counted hits on one
/// profile whose tokens trim to the same text share one de-duplication
/// key, so the second finds the first and is not counted again.
pub proof fn lemma_same_visitor_same_key(
    user_id: Seq<u8>,
    skip: Option<bool>,
    ua: Seq<char>,
    first: Seq<char>,
    second: Seq<char>,
)
    requires
        crate::text::trimmed(first) == crate::text::trimmed(second),
    ensures
        hit_spec(skip, ua, first) == hit_spec(skip, ua, second),
        hit_spec(skip, ua, first) matches Ok(Some(k)) ==> dedup_key_spec(user_id, k)
            == dedup_key_spec(user_id, crate::text::trimmed(second)),
{
}


/// Every user agent whose ASCII-lower-cased text contains one of the
/// crawler words `bot`, `crawler`, `spider`, `slurp`, `bingpreview`,
/// `facebookexternalhit`, `headless` or `prerender` is a crawler, and its
/// hit (unless skipped) is not counted, whatever its token.
pub proof fn lemma_crawler_words(ua: Seq<char>, skip: Option<bool>, token: Seq<char>)
    ensures
        ({
            let l = ascii_lower(ua);
            (occurs_in(l, "bot"@) || occurs_in(l, "crawler"@) || occurs_in(l, "spider"@) || occurs_in(
                l,
                "slurp"@,
            ) || occurs_in(l, "bingpreview"@) || occurs_in(l, "facebookexternalhit"@) || occurs_in(
                l,
                "headless"@,
            ) || occurs_in(l, "prerender"@)) ==> is_bot_spec(ua) && hit_spec(skip, ua, token) == Ok::<
                Option<Seq<char>>,
                Rejection,
            >(None)
        }),
        is_bot_spec(ua) ==> hit_spec(skip, ua, token) == Ok::<Option<Seq<char>>, Rejection>(None),
{
}

/// Whether a user agent is a crawler depends only on its ASCII-lower-cased
/// text: two agents that differ only in ASCII letter case are judged alike.
pub proof fn lemma_bot_ignores_ascii_case(ua: Seq<char>, other: Seq<char>)
    requires
        ascii_lower(ua) == ascii_lower(other),
    ensures
        is_bot_spec(ua) == is_bot_spec(other),
{
}

} // verus!
