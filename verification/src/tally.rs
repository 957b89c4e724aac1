//! Polls: the owner publishes a question with options, visitors vote once
//! each, and totals are shown when the poll allows it.
use vstd::prelude::*;
use crate::json::{Json, JVal, lemma_array_view};
use crate::outside::{base64_url_encode, hmac_sha256, uuid_text};
use crate::rejection::Rejection;
use crate::text::text_eq;

verus! {

pub const Q_MIN: usize = 1;
pub const Q_MAX: usize = 140;
pub const OPTIONS_MIN: usize = 2;
pub const OPTIONS_MAX: usize = 12;
pub const OPTION_MAX: usize = 64;

/// A poll as published.
pub struct PublishBody {
    pub poll: Option<Json>,
}

/// A vote.
pub struct VoteBody {
    pub token: Option<String>,
    pub option: Option<String>,
    pub idem: Option<String>,
}

/// The verdict on options `o[i..]`: each a string of 1 to `OPTION_MAX`
/// characters that no earlier option repeats.
pub open spec fn options_from(o: Seq<JVal>, i: int) -> Result<(), Rejection>
    decreases o.len() - i,
{
    if i < 0 || i >= o.len() {
        Ok(())
    } else {
        match o[i] {
            JVal::Str(s) => if s.len() == 0 || s.len() > OPTION_MAX {
                Err(Rejection::BadOptionLength)
            } else if exists|j: int| 0 <= j < i && o[j] == JVal::Str(s) {
                Err(Rejection::DuplicateOption)
            } else {
                options_from(o, i + 1)
            },
            _ => Err(Rejection::InvalidOption),
        }
    }
}

/// The verdict on a poll: a question `q` of `Q_MIN` to `Q_MAX` characters
/// and `OPTIONS_MIN` to `OPTIONS_MAX` distinct options.
pub open spec fn poll_verdict(poll: JVal) -> Result<(), Rejection> {
    match poll.get("q"@) {
        Some(JVal::Str(q)) => if q.len() < Q_MIN || q.len() > Q_MAX {
            Err(Rejection::BadQuestion)
        } else {
            match poll.get("options"@) {
                Some(JVal::Array(o)) => if o.len() < OPTIONS_MIN || o.len() > OPTIONS_MAX {
                    Err(Rejection::BadOptions)
                } else {
                    options_from(o, 0)
                },
                _ => Err(Rejection::PollNeedsOptions),
            }
        },
        _ => Err(Rejection::PollNeedsQuestion),
    }
}

proof fn lemma_options_accepted(o: Seq<JVal>, i: int)
    requires
        0 <= i <= o.len(),
        options_from(o, i) is Ok,
    ensures
        forall|k: int|
            i <= k < o.len() ==> (#[trigger] o[k] matches JVal::Str(s) && 0 < s.len()
                <= OPTION_MAX),
        forall|j: int, k: int| 0 <= j < k && i <= k < o.len() ==> #[trigger] o[j] != #[trigger] o[k],
    decreases o.len() - i,
{
    if i < o.len() {
        lemma_options_accepted(o, i + 1);
    }
}

/// An accepted poll has `OPTIONS_MIN` to `OPTIONS_MAX` options, each a
/// string of 1 to `OPTION_MAX` characters, no two alike.
pub proof fn lemma_accepted_poll_options(poll: JVal)
    requires
        poll_verdict(poll) is Ok,
    ensures
        poll.get("options"@) matches Some(JVal::Array(o)) && OPTIONS_MIN <= o.len() <= OPTIONS_MAX
            && (forall|k: int|
            0 <= k < o.len() ==> (#[trigger] o[k] matches JVal::Str(s) && 0 < s.len()
                <= OPTION_MAX)) && (forall|j: int, k: int|
            0 <= j < k < o.len() ==> #[trigger] o[j] != #[trigger] o[k]),
{
    let o = poll.get("options"@)->Some_0->Array_0;
    lemma_options_accepted(o, 0);
}

fn check_options(o: &Vec<Json>) -> (r: Result<(), Rejection>)
    ensures
        r == options_from(crate::json::items_view(o@), 0),
{
    let ghost ov = crate::json::items_view(o@);
    let n = o.len();
    for i in 0..n
        invariant
            n == o@.len(),
            ov == crate::json::items_view(o@),
            options_from(ov, 0) == options_from(ov, i as int),
            forall|k: int| 0 <= k < i ==> (#[trigger] ov[k]) is Str,
    {
        match &o[i] {
            Json::Str(s) => {
                let len = s.as_str().unicode_len();
                if len == 0 || len > OPTION_MAX {
                    return Err(Rejection::BadOptionLength);
                }
                let mut j: usize = 0;
                while j < i
                    invariant
                        j <= i < n,
                        n == o@.len(),
                        ov == crate::json::items_view(o@),
                        ov[i as int] == JVal::Str(s@),
                        0 < s@.len() <= OPTION_MAX,
                        options_from(ov, 0) == options_from(ov, i as int),
                        forall|k: int| 0 <= k < i ==> (#[trigger] ov[k]) is Str,
                        forall|k: int| 0 <= k < j ==> ov[k] != JVal::Str(s@),
                    decreases i - j,
                {
                    match &o[j] {
                        Json::Str(t) => {
                            if text_eq(t.as_str(), s.as_str()) {
                                assert(ov[j as int] == JVal::Str(s@));
                                return Err(Rejection::DuplicateOption);
                            }
                        },
                        _ => {
                            assert(ov[j as int] is Str);
                        },
                    }
                    j = j + 1;
                }
            },
            _ => {
                return Err(Rejection::InvalidOption);
            },
        }
    }
    Ok(())
}

/// Checks a poll.
pub fn validate_poll(poll: &Json) -> (r: Result<(), Rejection>)
    ensures
        r == poll_verdict(poll@),
{
    let q = match poll.get("q") {
        Some(Json::Str(s)) => s,
        _ => {
            return Err(Rejection::PollNeedsQuestion);
        },
    };
    let qn = q.as_str().unicode_len();
    if qn < Q_MIN || qn > Q_MAX {
        return Err(Rejection::BadQuestion);
    }
    match poll.get("options") {
        Some(Json::Array(o)) => {
            proof {
                lemma_array_view(*o);
            }
            let on = o.len();
            if on < OPTIONS_MIN || on > OPTIONS_MAX {
                return Err(Rejection::BadOptions);
            }
            check_options(o)
        },
        _ => Err(Rejection::PollNeedsOptions),
    }
}

/// The fingerprint of a poll: the lower-case hexadecimal SHA-256 digest of
/// its JSON text.
pub fn fingerprint(poll_text: &str) -> (r: String)
    ensures
        r@ == crate::helpers::digest_hex_spec(poll_text@),
{
    crate::helpers::digest_hex(poll_text)
}

/// What publishing a poll does, given the latest poll of the profile.
#[derive(PartialEq, Eq, Structural, Clone, Copy, Debug)]
pub enum PollPublish {
    /// The same poll is open already, at this revision.
    Unchanged(i32),
    /// Store the poll as a new open poll at this revision.
    Create(i32),
}

/// Publishing the poll that is open already changes nothing; any other
/// poll opens one revision past the latest (revision 1 for the first).
pub fn publish_plan(latest: Option<(i32, &str, &str)>, fingerprint: &str) -> (r: PollPublish)
    requires
        latest matches Some((rev, _, _)) ==> rev < i32::MAX,
    ensures
        r == match latest {
            Some((rev, fp, status)) => if status@ == "open"@ && fp@ == fingerprint@ {
                PollPublish::Unchanged(rev)
            } else {
                PollPublish::Create((rev + 1) as i32)
            },
            None => PollPublish::Create(1),
        },
{
    match latest {
        Some((rev, fp, status)) => if text_eq(status, "open") && text_eq(fp, fingerprint) {
            PollPublish::Unchanged(rev)
        } else {
            PollPublish::Create(rev + 1)
        },
        None => PollPublish::Create(1),
    }
}

/// The options of a poll, empty when it has no `options` array.
pub open spec fn options_of(poll: JVal) -> Seq<JVal> {
    match poll.get("options"@) {
        Some(JVal::Array(o)) => o,
        _ => Seq::empty(),
    }
}

/// `option` is one of the poll's options.
pub open spec fn option_listed(poll: JVal, option: Seq<char>) -> bool {
    exists|i: int| 0 <= i < options_of(poll).len() && options_of(poll)[i] == JVal::Str(option)
}

pub open spec fn vote_spec(latest: Option<(JVal, Seq<char>)>, body: VoteBody) -> Result<(), Rejection> {
    match latest {
        None => Err(Rejection::NoPoll),
        Some((poll, status)) => if status != "open"@ {
            Err(Rejection::PollClosed)
        } else if crate::helpers::text_or_empty(body.token).len() == 0 {
            Err(Rejection::VoteTokenRequired)
        } else if crate::helpers::text_or_empty(body.idem).len() == 0 {
            Err(Rejection::IdemRequired)
        } else if !option_listed(poll, crate::helpers::text_or_empty(body.option)) {
            Err(Rejection::UnknownOption)
        } else {
            Ok(())
        },
    }
}

fn listed(options: &Vec<Json>, option: &str) -> (r: bool)
    ensures
        r == exists|i: int|
            0 <= i < options@.len() && crate::json::items_view(options@)[i] == JVal::Str(option@),
{
    let ghost ov = crate::json::items_view(options@);
    let n = options.len();
    for i in 0..n
        invariant
            n == options@.len(),
            ov == crate::json::items_view(options@),
            forall|k: int| 0 <= k < i ==> ov[k] != JVal::Str(option@),
    {
        match &options[i] {
            Json::Str(s) => if text_eq(s.as_str(), option) {
                assert(ov[i as int] == JVal::Str(option@));
                return true;
            },
            _ => {},
        }
    }
    false
}

/// A vote is taken for a listed option of the latest poll while it is
/// open, with a voter token and an idempotency key.
pub fn vote_check(latest: Option<(&Json, &str)>, body: &VoteBody) -> (r: Result<(), Rejection>)
    ensures
        r == vote_spec(
            match latest {
                Some((p, s)) => Some((p@, s@)),
                None => None,
            },
            *body,
        ),
{
    let (poll, status) = match latest {
        None => {
            return Err(Rejection::NoPoll);
        },
        Some(x) => x,
    };
    if !text_eq(status, "open") {
        return Err(Rejection::PollClosed);
    }
    let token_empty = match &body.token {
        Some(t) => t.as_str().unicode_len() == 0,
        None => true,
    };
    if token_empty {
        return Err(Rejection::VoteTokenRequired);
    }
    let idem_empty = match &body.idem {
        Some(t) => t.as_str().unicode_len() == 0,
        None => true,
    };
    if idem_empty {
        return Err(Rejection::IdemRequired);
    }
    let option: &str = match &body.option {
        Some(o) => o.as_str(),
        None => "",
    };
    proof {
        reveal_strlit("");
    }
    let found = match poll.get("options") {
        Some(Json::Array(o)) => {
            proof {
                lemma_array_view(*o);
                assert(options_of(poll@) == crate::json::items_view(o@));
            }
            listed(o, option)
        },
        _ => false,
    };
    assert(option@ == crate::helpers::text_or_empty(body.option));
    if !found {
        return Err(Rejection::UnknownOption);
    }
    Ok(())
}

/// The keyed fingerprint of `input` for the poll with id `poll_id`: the
/// HMAC-SHA256 tag of `input` keyed with the poll id's hyphenated text, in
/// unpadded URL-safe Base64.
pub open spec fn poll_key_spec(poll_id: Seq<u8>, input: Seq<char>) -> Seq<char> {
    crate::outside::base64_url_text(
        crate::outside::hmac_sha256_tag(
            vstd::utf8::encode_utf8(crate::outside::uuid_hyphenated(poll_id)),
            vstd::utf8::encode_utf8(input),
        ),
    )
}

pub fn hmac_key(poll_id: &[u8; 16], input: &str) -> (r: String)
    ensures
        r@ == poll_key_spec(poll_id@, input@),
{
    let key_text = uuid_text(poll_id);
    let tag = hmac_sha256(key_text.as_str().as_bytes(), input.as_bytes());
    base64_url_encode(tag.as_slice())
}

/// The two keys a vote is stored under: one per voter token, one per
/// idempotency replay (`idem:` then the token).
pub fn vote_keys(poll_id: &[u8; 16], token: &str) -> (r: (String, String))
    ensures
        r.0@ == poll_key_spec(poll_id@, token@),
        r.1@ == poll_key_spec(poll_id@, "idem:"@ + token@),
{
    let key = hmac_key(poll_id, token);
    let prefixed = String::from_str("idem:").concat(token);
    let idem = hmac_key(poll_id, prefixed.as_str());
    (key, idem)
}

/// What a vote does given the option already recorded for its voter key.
#[derive(PartialEq, Eq, Structural, Clone, Copy, Debug)]
pub enum VoteStep {
    /// The same choice again: answered as already counted, counted once.
    Replay,
    /// A first vote: record it.
    Record,
}

pub fn vote_step(recorded: Option<&str>, option: &str) -> (r: Result<VoteStep, Rejection>)
    ensures
        r == match recorded {
            Some(o) => if o@ == option@ {
                Ok(VoteStep::Replay)
            } else {
                Err(Rejection::AlreadyVoted)
            },
            None => Ok(VoteStep::Record),
        },
{
    match recorded {
        Some(o) => if text_eq(o, option) {
            Ok(VoteStep::Replay)
        } else {
            Err(Rejection::AlreadyVoted)
        },
        None => Ok(VoteStep::Record),
    }
}

/// A failed vote insert: a unique-key violation (SQLSTATE `23505`) means
/// the voter raced a vote in; anything else is a store failure.
pub fn vote_insert_failure(sqlstate: Option<&str>) -> (r: Rejection)
    ensures
        r == if sqlstate matches Some(c) && c@ == "23505"@ {
            Rejection::AlreadyVoted
        } else {
            Rejection::StoreError
        },
{
    match sqlstate {
        Some(c) => if text_eq(c, "23505") {
            Rejection::AlreadyVoted
        } else {
            Rejection::StoreError
        },
        None => Rejection::StoreError,
    }
}

/// How the latest poll is shown.
pub struct PollView {
    pub closed: bool,
    pub visibility: String,
    pub show_totals: bool,
}

/// A closed poll, or one whose `visibility` is `always`, shows its totals;
/// visibility defaults to `afterVote`.
pub fn poll_view(poll: &Json, status: &str) -> (r: PollView)
    ensures
        r.closed == (status@ == "closed"@),
        r.visibility@ == match poll@.str_at("visibility"@) {
            Some(v) => v,
            None => "afterVote"@,
        },
        r.show_totals == (r.closed || r.visibility@ == "always"@),
{
    let closed = text_eq(status, "closed");
    let visibility = match poll.str_at("visibility") {
        Some(v) => String::from_str(v),
        None => String::from_str("afterVote"),
    };
    let show_totals = closed || text_eq(visibility.as_str(), "always");
    PollView { closed, visibility, show_totals }
}


/// On an open poll, with a voter token and an idempotency key, a vote is
/// taken exactly when its option is one of the poll's options, whichever
/// place that option holds; only an option that equals none of them is
/// refused, and then as unknown.
pub proof fn lemma_vote_for_any_listed_option(poll: JVal, status: Seq<char>, body: VoteBody)
    requires
        status == "open"@,
        crate::helpers::text_or_empty(body.token).len() > 0,
        crate::helpers::text_or_empty(body.idem).len() > 0,
    ensures
        (poll.get("options"@) matches Some(JVal::Array(o)) && exists|i: int|
            0 <= i < o.len() && #[trigger] o[i] == JVal::Str(crate::helpers::text_or_empty(body.option)))
            ==> vote_spec(Some((poll, status)), body) == Ok::<(), Rejection>(()),
        vote_spec(Some((poll, status)), body) is Err ==> vote_spec(Some((poll, status)), body)
            == Err::<(), Rejection>(Rejection::UnknownOption) && !(poll.get("options"@) matches Some(
            JVal::Array(o),
        ) && exists|i: int|
            0 <= i < o.len() && #[trigger] o[i] == JVal::Str(crate::helpers::text_or_empty(body.option))),
{
}

/// The vote for the option in place `i` of an open poll is taken.
pub proof fn lemma_vote_for_option_at(poll: JVal, body: VoteBody, i: int)
    requires
        crate::helpers::text_or_empty(body.token).len() > 0,
        crate::helpers::text_or_empty(body.idem).len() > 0,
        poll.get("options"@) matches Some(JVal::Array(o)) && 0 <= i < o.len() && o[i] == JVal::Str(
            crate::helpers::text_or_empty(body.option),
        ),
    ensures
        vote_spec(Some((poll, "open"@)), body) == Ok::<(), Rejection>(()),
{
    lemma_vote_for_any_listed_option(poll, "open"@, body);
}


proof fn lemma_options_from_parts(o: Seq<JVal>, i: int)
    requires
        0 <= i <= o.len(),
        forall|k: int| 0 <= k < o.len() ==> (#[trigger] o[k] matches JVal::Str(s) && 1 <= s.len() <= 64),
        forall|j: int, k: int| 0 <= j < k < o.len() ==> #[trigger] o[j] != #[trigger] o[k],
    ensures
        options_from(o, i) is Ok,
    decreases o.len() - i,
{
    if i < o.len() {
        assert(o[i] matches JVal::Str(s) && 1 <= s.len() <= 64);
        assert(!exists|j: int| 0 <= j < i && o[j] == o[i]);
        lemma_options_from_parts(o, i + 1);
    }
}

/// A poll in plain terms: a text question `q` of 1 to 140 characters and
/// an `options` array of 2 to 12 texts, each of 1 to 64 characters, no two
/// alike.
pub open spec fn poll_well_formed(poll: JVal) -> bool {
    &&& poll.get("q"@) matches Some(JVal::Str(q)) && 1 <= q.len() <= 140
    &&& poll.get("options"@) matches Some(JVal::Array(o)) && 2 <= o.len() <= 12
    &&& forall|k: int|
        0 <= k < options_of(poll).len() ==> (#[trigger] options_of(poll)[k] matches JVal::Str(s)
            && 1 <= s.len() <= 64)
    &&& forall|j: int, k: int|
        0 <= j < k < options_of(poll).len() ==> #[trigger] options_of(poll)[j]
            != #[trigger] options_of(poll)[k]
}

/// A poll is taken exactly when it is well formed in those plain terms.
pub proof fn lemma_poll_exact(poll: JVal)
    ensures
        poll_verdict(poll) is Ok <==> poll_well_formed(poll),
{
    if poll_verdict(poll) is Ok {
        lemma_accepted_poll_options(poll);
    }
    if poll.get("options"@) matches Some(JVal::Array(o)) {
        let o = poll.get("options"@)->Some_0->Array_0;
        if poll_well_formed(poll) {
            lemma_options_from_parts(o, 0);
        }
    }
}

} // verus!
