//! The secret word: the owner sets a word that unlocks a link; a visitor
//! who knows it gets a short-lived, single-use grant for the link.
use vstd::prelude::*;
use crate::json::{Json, JsonNumber, JVal};
use crate::outside::{base64_url_decode, base64_url_encode, random_bytes, scrypt_derive};
use crate::rejection::Rejection;
use crate::text::trim;

verus! {

pub const WORD_MAX: usize = 256;
pub const URL_MAX: usize = 200;
pub const LABEL_MAX: usize = 64;
pub const RATE_MAX: i64 = 10;
pub const RATE_WINDOW_MS: i64 = 600_000;
pub const GRANT_TTL_MIN: i64 = 5;
pub const SCRYPT_LOG_N: u8 = 14;
pub const SCRYPT_R: u32 = 8;
pub const SCRYPT_P: u32 = 1;
pub const SCRYPT_LEN: usize = 32;

/// The owner's new secret.
pub struct SetBody {
    pub word: Option<String>,
    pub url: Option<String>,
    pub label: Option<String>,
}

/// A visitor's attempt.
pub struct TryBody {
    pub word: Option<String>,
    pub ip: Option<String>,
}

/// The verifier of `word` under `salt`: its scrypt key with this library's
/// cost parameters.
pub open spec fn verifier_of(word: Seq<char>, salt: Seq<u8>) -> Seq<u8> {
    crate::outside::scrypt_key(
        vstd::utf8::encode_utf8(word),
        salt,
        SCRYPT_LOG_N,
        SCRYPT_R,
        SCRYPT_P,
        SCRYPT_LEN,
    )
}

pub fn do_verifier(word: &str, salt: &[u8]) -> (r: Vec<u8>)
    ensures
        r@ == verifier_of(word@, salt@),
        r@.len() == SCRYPT_LEN,
{
    scrypt_derive(word.as_bytes(), salt, SCRYPT_LOG_N, SCRYPT_R, SCRYPT_P, SCRYPT_LEN)
}

/// A validated new secret: all three fields trimmed.
pub struct SecretInputs {
    pub word: String,
    pub url: String,
    pub label: String,
}

pub open spec fn inputs_spec(word: Seq<char>, url: Seq<char>, label: Seq<char>) -> Result<
    (),
    Rejection,
> {
    if word.len() == 0 || word.len() > WORD_MAX {
        Err(Rejection::InvalidWord)
    } else if url.len() == 0 || url.len() > URL_MAX {
        Err(Rejection::InvalidUrl)
    } else if label.len() > LABEL_MAX {
        Err(Rejection::InvalidLabel)
    } else {
        Ok(())
    }
}

/// A word of 1 to `WORD_MAX` characters, a URL of 1 to `URL_MAX` and a
/// label of at most `LABEL_MAX`, each counted after trimming.
pub fn secret_inputs(body: &SetBody) -> (r: Result<SecretInputs, Rejection>)
    ensures
        ({
            let w = crate::text::trimmed(crate::helpers::text_or_empty(body.word));
            let u = crate::text::trimmed(crate::helpers::text_or_empty(body.url));
            let l = crate::text::trimmed(crate::helpers::text_or_empty(body.label));
            match r {
                Ok(x) => inputs_spec(w, u, l) is Ok && x.word@ == w && x.url@ == u && x.label@ == l,
                Err(e) => inputs_spec(w, u, l) == Err::<(), Rejection>(e),
            }
        }),
{
    let word = match &body.word {
        Some(t) => trim(t.as_str()),
        None => String::new(),
    };
    assert(crate::text::trimmed(Seq::<char>::empty()) == Seq::<char>::empty());
    let wn = word.as_str().unicode_len();
    if wn == 0 || wn > WORD_MAX {
        return Err(Rejection::InvalidWord);
    }
    let url = match &body.url {
        Some(t) => trim(t.as_str()),
        None => String::new(),
    };
    let un = url.as_str().unicode_len();
    if un == 0 || un > URL_MAX {
        return Err(Rejection::InvalidUrl);
    }
    let label = match &body.label {
        Some(t) => trim(t.as_str()),
        None => String::new(),
    };
    if label.as_str().unicode_len() > LABEL_MAX {
        return Err(Rejection::InvalidLabel);
    }
    Ok(SecretInputs { word, url, label })
}

/// The version a new secret gets: one past the stored one (0 when none).
pub fn next_version(state: &Json) -> (r: i64)
    requires
        state@.i64_at("version"@) != Some(i64::MAX),
    ensures
        r == match state@.i64_at("version"@) {
            Some(v) => v + 1,
            None => 1,
        },
{
    match state.i64_at("version") {
        Some(v) => v + 1,
        None => 1,
    }
}

/// The stored form of a word: its verifier and its salt, each in unpadded
/// URL-safe Base64.
pub struct Sealed {
    pub hash: String,
    pub salt: String,
}

pub fn seal_with(word: &str, salt: &[u8; 16]) -> (r: Sealed)
    ensures
        r.hash@ == crate::outside::base64_url_text(verifier_of(word@, salt@)),
        r.salt@ == crate::outside::base64_url_text(salt@),
        crate::outside::base64_url_bytes(r.hash@) == Some(verifier_of(word@, salt@)),
        crate::outside::base64_url_bytes(r.salt@) == Some(salt@),
        r.hash@.len() > 0,
{
    let hash = do_verifier(word, salt);
    Sealed { hash: base64_url_encode(hash.as_slice()), salt: base64_url_encode(salt) }
}

/// Seals `word` under a fresh random 16-byte salt.
pub fn seal(word: &str) -> (r: Sealed)
    ensures
        exists|salt: Seq<u8>|
            salt.len() == 16 && r.hash@ == crate::outside::base64_url_text(verifier_of(word@, salt))
                && r.salt@ == crate::outside::base64_url_text(salt) && crate::outside::base64_url_bytes(
                r.hash@,
            ) == Some(verifier_of(word@, salt)) && crate::outside::base64_url_bytes(r.salt@) == Some(
                salt,
            ),
        r.hash@.len() > 0,
{
    let salt = random_bytes();
    let r = seal_with(word, &salt);
    assert(salt@.len() == 16);
    let ghost s = salt@;
    assert(s.len() == 16 && r.hash@ == crate::outside::base64_url_text(verifier_of(word@, s))
        && r.salt@ == crate::outside::base64_url_text(s)
        && crate::outside::base64_url_bytes(r.hash@) == Some(verifier_of(word@, s))
        && crate::outside::base64_url_bytes(r.salt@) == Some(s));
    r
}

/// An `i64` as a JSON number.
pub open spec fn number_of(v: i64) -> JsonNumber {
    if v >= 0 {
        JsonNumber::PosInt(v as u64)
    } else {
        JsonNumber::NegInt(v)
    }
}

/// The stored state of a set secret.
pub open spec fn state_spec(version: i64, hash: Seq<char>, salt: Seq<char>, url: Seq<char>, label: Seq<
    char,
>) -> JVal {
    JVal::Object(
        seq![
            ("version"@, JVal::Number(number_of(version))),
            ("hash"@, JVal::Str(hash)),
            ("salt"@, JVal::Str(salt)),
            ("url"@, JVal::Str(url)),
            ("label"@, JVal::Str(label)),
        ],
    )
}

fn number(v: i64) -> (r: JsonNumber)
    ensures
        r == number_of(v),
{
    if v >= 0 {
        JsonNumber::PosInt(v as u64)
    } else {
        JsonNumber::NegInt(v)
    }
}

/// The state stored for a new secret.
pub fn secret_state(version: i64, sealed: &Sealed, url: &str, label: &str) -> (r: Json)
    ensures
        r@ == state_spec(version, sealed.hash@, sealed.salt@, url@, label@),
{
    let mut members: Vec<(String, Json)> = Vec::new();
    members.push((String::from_str("version"), Json::Number(number(version))));
    members.push((String::from_str("hash"), Json::Str(sealed.hash.clone())));
    members.push((String::from_str("salt"), Json::Str(sealed.salt.clone())));
    members.push((String::from_str("url"), Json::Str(String::from_str(url))));
    members.push((String::from_str("label"), Json::Str(String::from_str(label))));
    let r = Json::Object(members);
    proof {
        crate::json::lemma_object_view(members);
    }
    assert(r@->Object_0 =~= state_spec(version, sealed.hash@, sealed.salt@, url@, label@)->Object_0);
    r
}

/// The stored state after the secret is cleared.
pub fn cleared_state() -> (r: Json)
    ensures
        r@ == JVal::Object(seq![("version"@, JVal::Number(JsonNumber::PosInt(0)))]),
{
    let mut members: Vec<(String, Json)> = Vec::new();
    members.push((String::from_str("version"), Json::Number(JsonNumber::PosInt(0))));
    let r = Json::Object(members);
    proof {
        crate::json::lemma_object_view(members);
    }
    assert(r@->Object_0 =~= seq![("version"@, JVal::Number(JsonNumber::PosInt(0)))]);
    r
}

/// The bytes a stored Base64 field decodes to, none when it does not decode.
pub open spec fn decoded_or_empty(text: Seq<char>) -> Seq<u8> {
    match crate::outside::base64_url_bytes(text) {
        Some(b) => b,
        None => Seq::empty(),
    }
}

/// `word` matches a stored verifier: its verifier under the stored salt
/// equals the stored hash.
pub open spec fn verify_spec(word: Seq<char>, salt_b64: Seq<char>, hash_b64: Seq<char>) -> bool {
    verifier_of(word, decoded_or_empty(salt_b64)) == decoded_or_empty(hash_b64)
}

/// Compares the verifier of `word` with the stored hash, byte by byte,
/// without stopping at the first difference.
pub fn verify(word: &str, salt_b64: &str, hash_b64: &str) -> (r: bool)
    ensures
        r == verify_spec(word@, salt_b64@, hash_b64@),
{
    let salt = match base64_url_decode(salt_b64) {
        Some(v) => v,
        None => Vec::new(),
    };
    let expected = match base64_url_decode(hash_b64) {
        Some(v) => v,
        None => Vec::new(),
    };
    let actual = do_verifier(word, salt.as_slice());
    if actual.len() != expected.len() {
        return false;
    }
    let n = actual.len();
    let mut same = true;
    for i in 0..n
        invariant
            n == actual@.len(),
            n == expected@.len(),
            same == forall|k: int| 0 <= k < i ==> actual@[k] == expected@[k],
    {
        if actual[i] != expected[i] {
            same = false;
        }
    }
    assert(same ==> actual@ =~= expected@);
    same
}

/// The stored verifier hash, empty when none is set.
pub open spec fn hash_of(state: JVal) -> Seq<char> {
    match state.str_at("hash"@) {
        Some(h) => h,
        None => Seq::empty(),
    }
}

/// Attempts are only taken when a secret is set.
pub fn secret_configured(state: &Json) -> (r: Result<(), Rejection>)
    ensures
        r is Ok <==> hash_of(state@).len() > 0,
        r is Err ==> r == Err::<(), Rejection>(Rejection::NotSet),
{
    let empty = match state.str_at("hash") {
        Some(h) => h.unicode_len() == 0,
        None => true,
    };
    if empty {
        Err(Rejection::NotSet)
    } else {
        Ok(())
    }
}

/// What an unlocked secret hands out.
pub struct Unlocked {
    pub version: i64,
    pub url: String,
    pub label: String,
}

pub open spec fn str_or_empty(state: JVal, key: Seq<char>) -> Seq<char> {
    match state.str_at(key) {
        Some(s) => s,
        None => Seq::empty(),
    }
}

pub open spec fn unlock_spec(state: JVal, word: Seq<char>) -> Result<(i64, Seq<char>, Seq<char>), Rejection> {
    if !verify_spec(word, str_or_empty(state, "salt"@), hash_of(state)) {
        Err(Rejection::WrongWord)
    } else {
        Ok(
            (
                match state.i64_at("version"@) {
                    Some(v) => v,
                    None => 1,
                },
                str_or_empty(state, "url"@),
                str_or_empty(state, "label"@),
            ),
        )
    }
}

fn str_field(state: &Json, key: &str) -> (r: String)
    ensures
        r@ == str_or_empty(state@, key@),
{
    match state.str_at(key) {
        Some(s) => String::from_str(s),
        None => String::new(),
    }
}

/// An attempt with `word`: the grant's version, link and label when the word
/// matches.
pub fn unlock(state: &Json, word: &str) -> (r: Result<Unlocked, Rejection>)
    ensures
        match r {
            Ok(u) => unlock_spec(state@, word@) == Ok::<(i64, Seq<char>, Seq<char>), Rejection>(
                (u.version, u.url@, u.label@),
            ),
            Err(e) => unlock_spec(state@, word@) == Err::<(i64, Seq<char>, Seq<char>), Rejection>(e),
        },
{
    let salt = str_field(state, "salt");
    let hash = str_field(state, "hash");
    if !verify(word, salt.as_str(), hash.as_str()) {
        return Err(Rejection::WrongWord);
    }
    let version = match state.i64_at("version") {
        Some(v) => v,
        None => 1,
    };
    Ok(Unlocked { version, url: str_field(state, "url"), label: str_field(state, "label") })
}

pub open spec fn redeem_spec(state: JVal, grant_version: Option<i32>) -> Result<(Seq<char>, Seq<char>), Rejection> {
    let version = match state.i64_at("version"@) {
        Some(v) => v,
        None => 0,
    };
    match grant_version {
        Some(g) => if g == version as i32 {
            Ok((str_or_empty(state, "url"@), str_or_empty(state, "label"@)))
        } else {
            Err(Rejection::GrantStale)
        },
        None => Err(Rejection::GrantStale),
    }
}

/// Redeeming a live grant (`grant_version` is the version it was issued at,
/// `None` when there is no live grant): only a grant of the current version
/// gives the link.
pub fn redeem(state: &Json, grant_version: Option<i32>) -> (r: Result<(String, String), Rejection>)
    ensures
        match r {
            Ok((u, l)) => redeem_spec(state@, grant_version) == Ok::<
                (Seq<char>, Seq<char>),
                Rejection,
            >((u@, l@)),
            Err(e) => redeem_spec(state@, grant_version) == Err::<(Seq<char>, Seq<char>), Rejection>(
                e,
            ),
        },
{
    let version = match state.i64_at("version") {
        Some(v) => v,
        None => 0,
    };
    match grant_version {
        Some(g) => if g == version as i32 {
            Ok((str_field(state, "url"), str_field(state, "label")))
        } else {
            Err(Rejection::GrantStale)
        },
        None => Err(Rejection::GrantStale),
    }
}

/// The state that `secret_state` stores for a secret sealed as
/// (`hash_text`, `salt_text`): the word it was sealed from unlocks it and
/// hands out the stored version, link and label; a grant of that version
/// redeems the link, and a grant of any other version is stale.
pub proof fn lemma_set_word_unlocks(
    version: i64,
    word: Seq<char>,
    salt: Seq<u8>,
    hash_text: Seq<char>,
    salt_text: Seq<char>,
    url: Seq<char>,
    label: Seq<char>,
    other: i32,
)
    requires
        crate::outside::base64_url_bytes(hash_text) == Some(verifier_of(word, salt)),
        crate::outside::base64_url_bytes(salt_text) == Some(salt),
        hash_text.len() > 0,
        other != version as i32,
    ensures
        hash_of(state_spec(version, hash_text, salt_text, url, label)).len() > 0,
        unlock_spec(state_spec(version, hash_text, salt_text, url, label), word) == Ok::<
            (i64, Seq<char>, Seq<char>),
            Rejection,
        >((version, url, label)),
        redeem_spec(state_spec(version, hash_text, salt_text, url, label), Some(version as i32))
            == Ok::<(Seq<char>, Seq<char>), Rejection>((url, label)),
        redeem_spec(state_spec(version, hash_text, salt_text, url, label), Some(other)) == Err::<
            (Seq<char>, Seq<char>),
            Rejection,
        >(Rejection::GrantStale),
{
    lemma_state_reads(version, hash_text, salt_text, url, label);
}

/// The fields of a stored state read back as they were written.
proof fn lemma_state_reads(
    version: i64,
    hash: Seq<char>,
    salt: Seq<char>,
    url: Seq<char>,
    label: Seq<char>,
)
    ensures
        state_spec(version, hash, salt, url, label).i64_at("version"@) == Some(version),
        state_spec(version, hash, salt, url, label).str_at("hash"@) == Some(hash),
        state_spec(version, hash, salt, url, label).str_at("salt"@) == Some(salt),
        state_spec(version, hash, salt, url, label).str_at("url"@) == Some(url),
        state_spec(version, hash, salt, url, label).str_at("label"@) == Some(label),
{
    reveal_strlit("version");
    reveal_strlit("hash");
    reveal_strlit("salt");
    reveal_strlit("url");
    reveal_strlit("label");
    let m = state_spec(version, hash, salt, url, label)->Object_0;
    assert("version"@.len() == 7 && "hash"@.len() == 4 && "salt"@.len() == 4);
    assert("url"@.len() == 3 && "label"@.len() == 5);
    assert("hash"@[0] != "salt"@[0]);
    assert("version"@ != "hash"@);
    assert("version"@ != "salt"@);
    assert("version"@ != "url"@);
    assert("version"@ != "label"@);
    assert("hash"@ != "salt"@);
    assert("hash"@ != "url"@);
    assert("hash"@ != "label"@);
    assert("salt"@ != "url"@);
    assert("salt"@ != "label"@);
    assert("url"@ != "label"@);
    crate::json::lemma_lookup_at(m, "hash"@, 1);
    crate::json::lemma_lookup_at(m, "salt"@, 2);
    crate::json::lemma_lookup_at(m, "url"@, 3);
    crate::json::lemma_lookup_at(m, "label"@, 4);
}

/// A rotation bumps the version, so a grant issued at the version before it
/// no longer redeems; after a clear no secret is configured.
pub proof fn lemma_rotation_invalidates(
    version: i64,
    hash: Seq<char>,
    salt: Seq<char>,
    url: Seq<char>,
    label: Seq<char>,
)
    requires
        version < i64::MAX,
    ensures
        redeem_spec(state_spec((version + 1) as i64, hash, salt, url, label), Some(version as i32))
            == Err::<(Seq<char>, Seq<char>), Rejection>(Rejection::GrantStale),
        hash_of(JVal::Object(seq![("version"@, JVal::Number(JsonNumber::PosInt(0)))])).len() == 0,
{
    lemma_state_reads((version + 1) as i64, hash, salt, url, label);
    assert(((version + 1) as i64) as i32 != version as i32) by (bit_vector)
        requires
            version < 0x7fff_ffff_ffff_ffffi64,
    ;
    reveal_strlit("version");
    reveal_strlit("hash");
    assert("version"@.len() == 7 && "hash"@.len() == 4);
    assert("version"@ != "hash"@);
    let m = seq![("version"@, JVal::Number(JsonNumber::PosInt(0)))];
    crate::json::lemma_lookup_at(m, "hash"@, 1);
}


/// A new secret is taken exactly when its (trimmed) word has 1 to 256
/// characters, its link 1 to 200 and its label at most 64.
pub proof fn lemma_secret_input_bounds(word: Seq<char>, url: Seq<char>, label: Seq<char>)
    ensures
        inputs_spec(word, url, label) is Ok <==> (1 <= word.len() <= 256 && 1 <= url.len() <= 200
            && label.len() <= 64),
        !(1 <= word.len() <= 256) ==> inputs_spec(word, url, label) == Err::<(), Rejection>(
            Rejection::InvalidWord,
        ),
{
}

} // verus!
