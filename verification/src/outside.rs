//! The calls this library makes into outside crates: digests, message
//! authentication, Base64, scrypt, UUIDs, randomness and calendar time.
//! Each item here is trusted: its contract is believed, not proved.
use vstd::prelude::*;
use base64::Engine;
use chrono::Timelike;
use hmac::Mac;
use sha2::Digest;

verus! {

/// The `Debug` text of a list of strings.
pub uninterp spec fn debug_text_of(items: Seq<Seq<char>>) -> Seq<char>;

/// The SHA-256 digest of `data`.
pub uninterp spec fn sha256_digest(data: Seq<u8>) -> Seq<u8>;

/// The HMAC-SHA256 tag of `msg` under `key`.
pub uninterp spec fn hmac_sha256_tag(key: Seq<u8>, msg: Seq<u8>) -> Seq<u8>;

/// The URL-safe, unpadded Base64 text of `data`.
pub uninterp spec fn base64_url_text(data: Seq<u8>) -> Seq<char>;

/// The bytes that URL-safe, unpadded Base64 `text` decodes to, if it decodes.
pub uninterp spec fn base64_url_bytes(text: Seq<char>) -> Option<Seq<u8>>;

/// The scrypt key derived from `password` and `salt` with cost parameters
/// `log_n`, `r`, `p` and output length `len`.
pub uninterp spec fn scrypt_key(
    password: Seq<u8>,
    salt: Seq<u8>,
    log_n: u8,
    r: u32,
    p: u32,
    len: usize,
) -> Seq<u8>;

/// Whether the `uuid` crate accepts `text` as a UUID.
pub uninterp spec fn uuid_accepts(text: Seq<char>) -> bool;

/// The instant that RFC 3339 `text` denotes, as Unix seconds and the
/// nanoseconds past them, if `text` parses.
pub uninterp spec fn rfc3339_instant(text: Seq<char>) -> Option<(i64, u32)>;

/// The `YYYY-MM-DD` UTC calendar date of Unix second `secs`, when chrono
/// can represent that instant.
pub uninterp spec fn utc_iso_date(secs: i64) -> Option<Seq<char>>;

/// The local `(hour, minute)` at Unix second `secs` in the IANA time zone
/// named `zone`, when the name is known and the instant representable.
pub uninterp spec fn zoned_clock_at(zone: Seq<char>, secs: i64) -> Option<(u32, u32)>;

/// `sha2::Sha256::digest`: the contract claims the result is the SHA-256
/// digest of `data`, 32 bytes long (the digest's output size).
#[verifier::external_body]
pub(crate) fn sha256(data: &[u8]) -> (r: Vec<u8>)
    ensures
        r@ == sha256_digest(data@),
        r@.len() == 32,
{
    sha2::Sha256::digest(data).to_vec()
}

/// `hmac::Hmac::<Sha256>` keyed with `key`, fed `msg`, finalized: the
/// contract claims the result is the HMAC-SHA256 tag, 32 bytes long. Any key
/// length is accepted by HMAC, so the key setup does not fail.
#[verifier::external_body]
pub(crate) fn hmac_sha256(key: &[u8], msg: &[u8]) -> (r: Vec<u8>)
    ensures
        r@ == hmac_sha256_tag(key@, msg@),
        r@.len() == 32,
{
    let mut mac = <hmac::Hmac<sha2::Sha256> as Mac>::new_from_slice(key).expect("hmac key");
    mac.update(msg);
    mac.finalize().into_bytes().to_vec()
}

/// `base64::engine::general_purpose::URL_SAFE_NO_PAD.encode`: the contract
/// claims that the text is the named encoding of `data`, that it has the
/// unpadded length `ceil(4n/3)` that `base64::encoded_len` computes, and that
/// the same engine's decoder gives `data` back from it (the engine writes no
/// padding and its decoder requires none).
#[verifier::external_body]
pub(crate) fn base64_url_encode(data: &[u8]) -> (r: String)
    ensures
        r@ == base64_url_text(data@),
        r@.len() == (4 * data@.len() + 2) / 3,
        base64_url_bytes(r@) == Some(data@),
{
    base64::engine::general_purpose::URL_SAFE_NO_PAD.encode(data)
}

/// `base64::engine::general_purpose::URL_SAFE_NO_PAD.decode`: the contract
/// claims the result is the named decoding, `None` where decoding fails.
#[verifier::external_body]
pub(crate) fn base64_url_decode(text: &str) -> (r: Option<Vec<u8>>)
    ensures
        match r {
            Some(v) => base64_url_bytes(text@) == Some(v@),
            None => base64_url_bytes(text@) is None,
        },
{
    match base64::engine::general_purpose::URL_SAFE_NO_PAD.decode(text) {
        Ok(v) => Some(v),
        Err(_) => None,
    }
}

/// `scrypt::Params::new` then `scrypt::scrypt` into a buffer of `len`
/// bytes. The `requires` keeps the parameters inside what `Params::new`
/// accepts and the output length inside what `scrypt` accepts, so neither
/// fails. The contract claims the result is the named key, `len` bytes long.
#[verifier::external_body]
pub(crate) fn scrypt_derive(password: &[u8], salt: &[u8], log_n: u8, r: u32, p: u32, len: usize) -> (out:
    Vec<u8>)
    requires
        log_n < 16,
        0 < r <= 8,
        0 < p <= 8,
        10 <= len <= 64,
    ensures
        out@ == scrypt_key(password@, salt@, log_n, r, p, len),
        out@.len() == len,
{
    let params = scrypt::Params::new(log_n, r, p, len).expect("scrypt params");
    let mut out = vec![0u8; len];
    scrypt::scrypt(password, salt, &params, &mut out).expect("scrypt output");
    out
}

/// `rand::random::<[u8; 16]>()`: nothing is claimed of the bytes.
#[verifier::external_body]
pub(crate) fn random_bytes() -> (r: [u8; 16]) {
    rand::random::<[u8; 16]>()
}

/// `uuid::Uuid::new_v4`, as its 16 bytes. The contract claims what the
/// crate sets on every outcome: the version nibble is 4 and the variant bits
/// are `10`.
#[verifier::external_body]
pub(crate) fn random_uuid() -> (r: [u8; 16])
    ensures
        r@[6] / 16 == 4,
        r@[8] / 64 == 2,
{
    uuid::Uuid::new_v4().into_bytes()
}

/// The hyphenated lower-case text of the UUID with bytes `b`:
/// 8, 4, 4, 4 and 12 hexadecimal digits joined by `-`.
pub open spec fn uuid_hyphenated(b: Seq<u8>) -> Seq<char> {
    let h = crate::text::lower_hex(b);
    h.subrange(0, 8) + seq!['-'] + h.subrange(8, 12) + seq!['-'] + h.subrange(12, 16) + seq!['-']
        + h.subrange(16, 20) + seq!['-'] + h.subrange(20, 32)
}

/// `uuid::Uuid::from_bytes(..).to_string()`: the contract claims the
/// hyphenated lower-case form that the crate documents for `Display`.
#[verifier::external_body]
pub(crate) fn uuid_text(bytes: &[u8; 16]) -> (r: String)
    ensures
        r@ == uuid_hyphenated(bytes@),
{
    uuid::Uuid::from_bytes(*bytes).to_string()
}

/// `uuid::Uuid::parse_str(text).is_ok()`: the contract claims the result is
/// the named acceptance.
#[verifier::external_body]
pub(crate) fn uuid_parses(text: &str) -> (r: bool)
    ensures
        r == uuid_accepts(text@),
{
    uuid::Uuid::parse_str(text).is_ok()
}

/// `chrono::DateTime::parse_from_rfc3339`, read as Unix seconds and
/// sub-second nanoseconds: the contract claims the named instant.
#[verifier::external_body]
pub(crate) fn parse_rfc3339(text: &str) -> (r: Option<(i64, u32)>)
    ensures
        r == rfc3339_instant(text@),
{
    match chrono::DateTime::parse_from_rfc3339(text) {
        Ok(d) => Some((d.timestamp(), d.timestamp_subsec_nanos())),
        Err(_) => None,
    }
}

/// `chrono::DateTime::from_timestamp(secs, 0)` formatted as `%Y-%m-%d`:
/// the contract claims the named date text.
#[verifier::external_body]
pub(crate) fn iso_date(secs: i64) -> (r: Option<String>)
    ensures
        match r {
            Some(s) => utc_iso_date(secs) == Some(s@),
            None => utc_iso_date(secs) is None,
        },
{
    match chrono::DateTime::from_timestamp(secs, 0) {
        Some(d) => Some(d.format("%Y-%m-%d").to_string()),
        None => None,
    }
}

/// `zone.parse::<chrono_tz::Tz>()`, then the instant `secs` seen in that
/// zone, read by `Timelike::hour` and `Timelike::minute`. The contract
/// claims the named clock and the ranges that `Timelike` documents.
#[verifier::external_body]
pub(crate) fn zoned_clock(zone: &str, secs: i64) -> (r: Option<(u32, u32)>)
    ensures
        r == zoned_clock_at(zone@, secs),
        r matches Some((h, m)) ==> h < 24 && m < 60,
{
    match zone.parse::<chrono_tz::Tz>() {
        Ok(tz) => match chrono::DateTime::from_timestamp(secs, 0) {
            Some(d) => {
                let local = d.with_timezone(&tz);
                Some((local.hour(), local.minute()))
            },
            None => None,
        },
        Err(_) => None,
    }
}

/// `format!("{:?}", items)` on a list of strings: the contract claims the
/// named `Debug` text of the items.
#[verifier::external_body]
pub(crate) fn debug_list(items: &Vec<String>) -> (r: String)
    ensures
        r@ == debug_text_of(items@.map_values(|x: String| x@)),
{
    format!("{:?}", items)
}

} // verus!
