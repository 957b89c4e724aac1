//! Profile revision history: snapshots are captured when the profile
//! changes, listed, and restored with capsule and secret material redacted.
use vstd::prelude::*;
use crate::json::{Json, JVal, lemma_array_view, lemma_object_view};
use crate::rejection::Rejection;
use crate::text::{chars_of, text_eq};

verus! {

pub const MAX_REVISIONS: i32 = 12;

/// A capture request. Identifiers are held by their 16 bytes.
pub struct CaptureBody {
    pub snapshot: Option<Json>,
    pub reason: Option<String>,
    pub actor: Option<[u8; 16]>,
}

/// A restore request.
pub struct RestoreBody {
    pub seq: Option<i32>,
    pub actor: Option<[u8; 16]>,
}

/// The head hash of a snapshot: the lower-case hexadecimal SHA-256 digest of
/// its JSON text.
pub fn head_hash(snapshot_text: &str) -> (r: String)
    ensures
        r@ == crate::helpers::digest_hex_spec(snapshot_text@),
{
    crate::helpers::digest_hex(snapshot_text)
}

/// A snapshot whose head hash equals the latest revision's is not stored
/// again.
pub fn is_unchanged(latest_hash: Option<&str>, head: &str) -> (r: bool)
    ensures
        r == (latest_hash matches Some(h) && h@ == head@),
{
    match latest_hash {
        Some(h) => text_eq(h, head),
        None => false,
    }
}

/// The sequence number of a new revision, given the highest one stored
/// (`None` when there is none, or it cannot be read): one past it, or 1.
/// A highest number at the top of the `i32` range cannot be passed, and
/// starts again at 1, as an overflowing store sum that reads as unreadable
/// does.
pub fn next_seq(highest: Option<i32>) -> (r: i32)
    ensures
        r == match highest {
            Some(s) => if s < i32::MAX {
                (s + 1) as i32
            } else {
                1
            },
            None => 1,
        },
{
    match highest {
        Some(s) => if s < 0x7fff_ffff {
            s + 1
        } else {
            1
        },
        None => 1,
    }
}

/// The reason recorded with a capture: `profile update` when none is given.
pub fn capture_reason(reason: &Option<String>) -> (r: String)
    ensures
        r@ == match *reason {
            Some(s) => s@,
            None => "profile update"@,
        },
{
    match reason {
        Some(s) => s.clone(),
        None => String::from_str("profile update"),
    }
}

/// The snapshot to capture: an empty object when none is given.
pub fn snapshot_of(body: &CaptureBody) -> (r: Json)
    ensures
        r@ == match body.snapshot {
            Some(s) => s@,
            None => crate::json::empty_object(),
        },
{
    match &body.snapshot {
        Some(s) => s.copy(),
        None => Json::new_object(),
    }
}

/// The revision a restore names; it must name one.
pub fn restore_seq(body: &RestoreBody) -> (r: Result<i32, Rejection>)
    ensures
        r == match body.seq {
            Some(s) => Ok(s),
            None => Err(Rejection::SeqRequired),
        },
{
    match body.seq {
        Some(s) => Ok(s),
        None => Err(Rejection::SeqRequired),
    }
}

/// The dotted path of member `key` under `path`.
pub open spec fn join_path(path: Seq<char>, key: Seq<char>) -> Seq<char> {
    if path.len() == 0 {
        key
    } else {
        path + seq!['.'] + key
    }
}

/// The path whose string values a restore blanks.
pub open spec fn capsule_text_path() -> Seq<char> {
    "settings.capsule.text"@
}

/// `j`, found at dotted path `path`, with every string at the capsule text
/// path blanked. Array items share their array's path.
pub open spec fn redacted(j: JVal, path: Seq<char>) -> JVal
    decreases j,
{
    match j {
        JVal::Object(m) => JVal::Object(
            Seq::new(
                m.len(),
                |i: int|
                    if 0 <= i < m.len() {
                        (m[i].0, redacted(m[i].1, join_path(path, m[i].0)))
                    } else {
                        (Seq::empty(), JVal::Null)
                    },
            ),
        ),
        JVal::Array(a) => JVal::Array(
            Seq::new(
                a.len(),
                |i: int|
                    if 0 <= i < a.len() {
                        redacted(a[i], path)
                    } else {
                        JVal::Null
                    },
            ),
        ),
        JVal::Str(s) => if path == capsule_text_path() {
            JVal::Str(Seq::empty())
        } else {
            JVal::Str(s)
        },
        _ => j,
    }
}

fn chars_equal(a: &Vec<char>, b: &Vec<char>) -> (r: bool)
    ensures
        r == (a@ == b@),
{
    if a.len() != b.len() {
        return false;
    }
    let n = a.len();
    for i in 0..n
        invariant
            n == a@.len(),
            n == b@.len(),
            forall|k: int| 0 <= k < i ==> a@[k] == b@[k],
    {
        if a[i] != b[i] {
            return false;
        }
    }
    assert(a@ =~= b@);
    true
}

fn joined(path: &Vec<char>, key: &str) -> (r: Vec<char>)
    ensures
        r@ == join_path(path@, key@),
{
    let k = chars_of(key);
    if path.len() == 0 {
        return k;
    }
    let mut out: Vec<char> = Vec::new();
    let n = path.len();
    for i in 0..n
        invariant
            n == path@.len(),
            out@ == path@.take(i as int),
    {
        out.push(path[i]);
        assert(out@ =~= path@.take(i + 1));
    }
    assert(path@.take(n as int) =~= path@);
    out.push('.');
    let m = k.len();
    for i in 0..m
        invariant
            m == k@.len(),
            k@ == key@,
            out@ == path@ + seq!['.'] + key@.take(i as int),
    {
        out.push(k[i]);
        assert(out@ =~= path@ + seq!['.'] + key@.take(i + 1));
    }
    assert(key@.take(m as int) =~= key@);
    out
}

fn redact_into(j: &Json, path: &Vec<char>, target: &Vec<char>) -> (r: Json)
    requires
        target@ == capsule_text_path(),
    ensures
        r@ == redacted(j@, path@),
    decreases j,
{
    match j {
        Json::Object(members) => {
            proof {
                lemma_object_view(*members);
            }
            let ghost mv = crate::json::members_view(members@);
            let n = members.len();
            let mut out: Vec<(String, Json)> = Vec::new();
            for i in 0..n
                invariant
                    n == members@.len(),
                    mv == crate::json::members_view(members@),
                    target@ == capsule_text_path(),
                    j@ == JVal::Object(mv),
                    *j == Json::Object(*members),
                    out@.len() == i,
                    forall|k: int|
                        0 <= k < i ==> (#[trigger] out@[k]).0@ == mv[k].0 && out@[k].1@
                            == redacted(mv[k].1, join_path(path@, mv[k].0)),
            {
                proof {
                    assert(decreases_to!(*j => *members));
                    assert(decreases_to!(*members => members@));
                    assert(decreases_to!(members@ => members@[i as int]));
                    assert(decreases_to!(members@[i as int] => members@[i as int].1));
                }
                let key = members[i].0.clone();
                let child_path = joined(path, key.as_str());
                let v = redact_into(&members[i].1, &child_path, target);
                out.push((key, v));
            }
            let r = Json::Object(out);
            proof {
                lemma_object_view(out);
            }
            assert(r@->Object_0 =~= redacted(j@, path@)->Object_0);
            r
        },
        Json::Array(items) => {
            proof {
                lemma_array_view(*items);
            }
            let ghost iv = crate::json::items_view(items@);
            let n = items.len();
            let mut out: Vec<Json> = Vec::new();
            for i in 0..n
                invariant
                    n == items@.len(),
                    iv == crate::json::items_view(items@),
                    target@ == capsule_text_path(),
                    j@ == JVal::Array(iv),
                    *j == Json::Array(*items),
                    out@.len() == i,
                    forall|k: int| 0 <= k < i ==> (#[trigger] out@[k])@ == redacted(iv[k], path@),
            {
                proof {
                    assert(decreases_to!(*j => *items));
                    assert(decreases_to!(*items => items@));
                    assert(decreases_to!(items@ => items@[i as int]));
                }
                let v = redact_into(&items[i], path, target);
                out.push(v);
            }
            let r = Json::Array(out);
            proof {
                lemma_array_view(out);
            }
            assert(r@->Array_0 =~= redacted(j@, path@)->Array_0);
            r
        },
        Json::Str(s) => {
            if chars_equal(path, target) {
                Json::Str(String::new())
            } else {
                Json::Str(s.clone())
            }
        },
        _ => j.copy(),
    }
}

/// The index of the first member named `key`, `m.len()` when none is.
pub open spec fn first_member(m: Seq<(Seq<char>, JVal)>, key: Seq<char>) -> int
    decreases m.len(),
{
    if m.len() == 0 {
        0
    } else if m[0].0 == key {
        0
    } else {
        1 + first_member(m.drop_first(), key)
    }
}

pub proof fn lemma_first_member(m: Seq<(Seq<char>, JVal)>, key: Seq<char>)
    ensures
        0 <= first_member(m, key) <= m.len(),
        forall|j: int| 0 <= j < first_member(m, key) ==> m[j].0 != key,
        first_member(m, key) < m.len() ==> m[first_member(m, key)].0 == key,
        crate::json::lookup(m, key) == if first_member(m, key) < m.len() {
            Some(m[first_member(m, key)].1)
        } else {
            None
        },
    decreases m.len(),
{
    if m.len() > 0 && m[0].0 != key {
        let t = m.drop_first();
        lemma_first_member(t, key);
        assert forall|j: int| 0 <= j < first_member(m, key) implies m[j].0 != key by {
            if j > 0 {
                assert(m[j] == t[j - 1]);
            }
        }
    }
}

/// `m` with the value of its first member named `key` replaced by `v`.
pub open spec fn set_member(m: Seq<(Seq<char>, JVal)>, key: Seq<char>, v: JVal) -> Seq<(Seq<char>, JVal)> {
    let i = first_member(m, key);
    if i < m.len() {
        m.update(i, (m[i].0, v))
    } else {
        m
    }
}

/// A `secret` object with its `word` and `url` members, where present,
/// emptied.
pub open spec fn blank_secret_words(sec: JVal) -> JVal {
    match sec {
        JVal::Object(m) => JVal::Object(
            set_member(set_member(m, "word"@, JVal::Str(Seq::empty())), "url"@, JVal::Str(Seq::empty())),
        ),
        _ => sec,
    }
}

/// A `settings` object with its `secret` member's words emptied.
pub open spec fn blank_settings(s: JVal) -> JVal {
    match s {
        JVal::Object(m) => {
            let i = first_member(m, "secret"@);
            if i < m.len() {
                JVal::Object(m.update(i, (m[i].0, blank_secret_words(m[i].1))))
            } else {
                s
            }
        },
        _ => s,
    }
}

/// A profile snapshot with `settings.secret.word` and `.url` emptied.
pub open spec fn blank_snapshot(j: JVal) -> JVal {
    match j {
        JVal::Object(m) => {
            let i = first_member(m, "settings"@);
            if i < m.len() {
                JVal::Object(m.update(i, (m[i].0, blank_settings(m[i].1))))
            } else {
                j
            }
        },
        _ => j,
    }
}

/// The snapshot that a restore writes: capsule text blanked everywhere,
/// then the secret's word and url emptied.
pub open spec fn redact_spec(j: JVal) -> JVal {
    blank_snapshot(redacted(j, Seq::empty()))
}

fn find_member(members: &Vec<(String, Json)>, key: &str) -> (r: usize)
    ensures
        r == first_member(crate::json::members_view(members@), key@),
{
    let ghost mv = crate::json::members_view(members@);
    proof {
        lemma_first_member(mv, key@);
    }
    let n = members.len();
    let mut i: usize = 0;
    while i < n
        invariant
            n == members@.len(),
            mv == crate::json::members_view(members@),
            i <= n,
            0 <= first_member(mv, key@) <= n,
            forall|j: int| 0 <= j < first_member(mv, key@) ==> mv[j].0 != key@,
            first_member(mv, key@) < n ==> mv[first_member(mv, key@)].0 == key@,
            forall|j: int| 0 <= j < i ==> mv[j].0 != key@,
        decreases n - i,
    {
        if text_eq(members[i].0.as_str(), key) {
            assert(mv[i as int].0 == key@);
            return i;
        }
        i = i + 1;
    }
    n
}

fn set_blank(members: &mut Vec<(String, Json)>, key: &str)
    ensures
        crate::json::members_view(final(members)@) == set_member(
            crate::json::members_view(old(members)@),
            key@,
            JVal::Str(Seq::empty()),
        ),
{
    let i = find_member(members, key);
    if i < members.len() {
        let k = members[i].0.clone();
        members.set(i, (k, Json::Str(String::new())));
        assert(crate::json::members_view(members@) =~= set_member(
            crate::json::members_view(old(members)@),
            key@,
            JVal::Str(Seq::empty()),
        ));
    }
}

fn blank_words(sec: Json) -> (r: Json)
    ensures
        r@ == blank_secret_words(sec@),
{
    match sec {
        Json::Object(members) => {
            proof {
                lemma_object_view(members);
            }
            let mut members = members;
            set_blank(&mut members, "word");
            set_blank(&mut members, "url");
            proof {
                lemma_object_view(members);
            }
            Json::Object(members)
        },
        other => other,
    }
}

fn blank_in_settings(settings: Json) -> (r: Json)
    ensures
        r@ == blank_settings(settings@),
{
    match settings {
        Json::Object(members) => {
            proof {
                lemma_object_view(members);
            }
            let mut members = members;
            let i = find_member(&members, "secret");
            if i < members.len() {
                let k = members[i].0.clone();
                let v = blank_words(members[i].1.copy());
                let ghost before = crate::json::members_view(members@);
                members.set(i, (k, v));
                assert(crate::json::members_view(members@) =~= before.update(
                    i as int,
                    (before[i as int].0, blank_secret_words(before[i as int].1)),
                ));
                proof {
                    lemma_object_view(members);
                }
                Json::Object(members)
            } else {
                Json::Object(members)
            }
        },
        other => other,
    }
}

/// The snapshot a restore writes back: every string at
/// `settings.capsule.text` blanked, and `settings.secret.word` and
/// `settings.secret.url` emptied where present, so that an old revision
/// cannot bring capsule or secret material back.
pub fn redact(snapshot: &Json) -> (r: Json)
    ensures
        r@ == redact_spec(snapshot@),
{
    let target = chars_of("settings.capsule.text");
    let root: Vec<char> = Vec::new();
    let red = redact_into(snapshot, &root, &target);
    assert(root@ =~= Seq::<char>::empty());
    match red {
        Json::Object(members) => {
            proof {
                lemma_object_view(members);
            }
            let mut members = members;
            let i = find_member(&members, "settings");
            if i < members.len() {
                let k = members[i].0.clone();
                let v = blank_in_settings(members[i].1.copy());
                let ghost before = crate::json::members_view(members@);
                members.set(i, (k, v));
                assert(crate::json::members_view(members@) =~= before.update(
                    i as int,
                    (before[i as int].0, blank_settings(before[i as int].1)),
                ));
                proof {
                    lemma_object_view(members);
                }
                Json::Object(members)
            } else {
                Json::Object(members)
            }
        },
        other => other,
    }
}

proof fn lemma_set_member_reads(m: Seq<(Seq<char>, JVal)>, key: Seq<char>, v: JVal, other: Seq<char>)
    ensures
        crate::json::lookup(set_member(m, key, v), key) == if first_member(m, key) < m.len() {
            Some(v)
        } else {
            None::<JVal>
        },
        other != key ==> crate::json::lookup(set_member(m, key, v), other) == crate::json::lookup(
            m,
            other,
        ),
{
    lemma_first_member(m, key);
    lemma_first_member(m, other);
    let u = set_member(m, key, v);
    lemma_first_member(u, key);
    lemma_first_member(u, other);
    let i = first_member(m, key);
    if i < m.len() {
        assert(u.len() == m.len());
        assert forall|j: int| 0 <= j < u.len() && j != i implies #[trigger] u[j] == m[j] by {}
        if first_member(u, key) < i {
            assert(u[first_member(u, key)] == m[first_member(u, key)]);
        }
        if first_member(u, key) > i {
            assert(u[i].0 == key);
        }
        if other != key {
            let a = first_member(m, other);
            let b = first_member(u, other);
            if a < b && a < m.len() {
                assert(u[a].0 == m[a].0);
            }
            if b < a && b < u.len() {
                assert(u[b].0 == m[b].0);
            }
        }
    }
}

proof fn lemma_redacted_idempotent(j: JVal, p: Seq<char>)
    ensures
        redacted(redacted(j, p), p) == redacted(j, p),
    decreases j,
{
    match j {
        JVal::Object(m) => {
            let r = redacted(j, p);
            let rr = redacted(r, p);
            assert forall|i: int| 0 <= i < m.len() implies rr->Object_0[i] == r->Object_0[i] by {
                assert(decreases_to!(j => m));
                assert(decreases_to!(m => m[i]));
                assert(decreases_to!(m[i] => m[i].1));
                lemma_redacted_idempotent(m[i].1, join_path(p, m[i].0));
            }
            assert(rr->Object_0 =~= r->Object_0);
        },
        JVal::Array(a) => {
            let r = redacted(j, p);
            let rr = redacted(r, p);
            assert forall|i: int| 0 <= i < a.len() implies rr->Array_0[i] == r->Array_0[i] by {
                assert(decreases_to!(j => a));
                assert(decreases_to!(a => a[i]));
                lemma_redacted_idempotent(a[i], p);
            }
            assert(rr->Array_0 =~= r->Array_0);
        },
        _ => {},
    }
}

proof fn lemma_redacted_update(m: Seq<(Seq<char>, JVal)>, i: int, w: JVal, p: Seq<char>)
    requires
        0 <= i < m.len(),
    ensures
        redacted(JVal::Object(m.update(i, (m[i].0, w))), p) == JVal::Object(
            redacted(JVal::Object(m), p)->Object_0.update(
                i,
                (m[i].0, redacted(w, join_path(p, m[i].0))),
            ),
        ),
{
    let lhs = redacted(JVal::Object(m.update(i, (m[i].0, w))), p);
    let rhs = redacted(JVal::Object(m), p)->Object_0.update(
        i,
        (m[i].0, redacted(w, join_path(p, m[i].0))),
    );
    assert(lhs->Object_0 =~= rhs);
}

proof fn lemma_first_member_redacted(m: Seq<(Seq<char>, JVal)>, p: Seq<char>, key: Seq<char>)
    ensures
        first_member(redacted(JVal::Object(m), p)->Object_0, key) == first_member(m, key),
{
    let r = redacted(JVal::Object(m), p)->Object_0;
    lemma_first_member(m, key);
    lemma_first_member(r, key);
    let a = first_member(m, key);
    let b = first_member(r, key);
    if a < b {
        assert(r[a].0 == m[a].0);
    }
    if b < a {
        assert(r[b].0 == m[b].0);
    }
}

proof fn lemma_set_member_redacted(m: Seq<(Seq<char>, JVal)>, key: Seq<char>, p: Seq<char>)
    ensures
        redacted(JVal::Object(set_member(m, key, JVal::Str(Seq::empty()))), p) == JVal::Object(
            set_member(redacted(JVal::Object(m), p)->Object_0, key, JVal::Str(Seq::empty())),
        ),
{
    lemma_first_member(m, key);
    lemma_first_member_redacted(m, p, key);
    let i = first_member(m, key);
    let r = redacted(JVal::Object(m), p)->Object_0;
    assert(r.len() == m.len());
    if i < m.len() {
        lemma_redacted_update(m, i, JVal::Str(Seq::empty()), p);
        assert(redacted(JVal::Str(Seq::empty()), join_path(p, m[i].0)) == JVal::Str(Seq::empty()));
        assert(r[i].0 == m[i].0);
    }
}

proof fn lemma_blank_words_commutes(w: JVal, q: Seq<char>)
    ensures
        redacted(blank_secret_words(w), q) == blank_secret_words(redacted(w, q)),
{
    if let JVal::Object(wm) = w {
        let w1 = set_member(wm, "word"@, JVal::Str(Seq::empty()));
        lemma_set_member_redacted(wm, "word"@, q);
        lemma_set_member_redacted(w1, "url"@, q);
    }
}

proof fn lemma_blank_settings_commutes(s: JVal, q: Seq<char>)
    ensures
        redacted(blank_settings(s), q) == blank_settings(redacted(s, q)),
{
    if let JVal::Object(sm) = s {
        lemma_first_member(sm, "secret"@);
        lemma_first_member_redacted(sm, q, "secret"@);
        let k = first_member(sm, "secret"@);
        if k < sm.len() {
            let w = sm[k].1;
            lemma_redacted_update(sm, k, blank_secret_words(w), q);
            lemma_blank_words_commutes(w, join_path(q, sm[k].0));
        }
    }
}

proof fn lemma_blank_snapshot_commutes(j: JVal, q: Seq<char>)
    ensures
        redacted(blank_snapshot(j), q) == blank_snapshot(redacted(j, q)),
{
    if let JVal::Object(m) = j {
        lemma_first_member(m, "settings"@);
        lemma_first_member_redacted(m, q, "settings"@);
        let i = first_member(m, "settings"@);
        if i < m.len() {
            let s = m[i].1;
            lemma_redacted_update(m, i, blank_settings(s), q);
            lemma_blank_settings_commutes(s, join_path(q, m[i].0));
        }
    }
}

/// A restored snapshot holds no capsule text: redacting it again changes
/// nothing, so every string at `settings.capsule.text` in it is empty.
pub proof fn lemma_restore_leaves_no_capsule_text(snapshot: JVal)
    ensures
        redacted(redact_spec(snapshot), Seq::empty()) == redact_spec(snapshot),
{
    let red = redacted(snapshot, Seq::empty());
    lemma_blank_snapshot_commutes(red, Seq::empty());
    lemma_redacted_idempotent(snapshot, Seq::empty());
}

proof fn lemma_update_reads(m: Seq<(Seq<char>, JVal)>, key: Seq<char>, v: JVal)
    requires
        first_member(m, key) < m.len(),
    ensures
        crate::json::lookup(m.update(first_member(m, key), (m[first_member(m, key)].0, v)), key)
            == Some(v),
{
    lemma_first_member(m, key);
    let i = first_member(m, key);
    let u = m.update(i, (m[i].0, v));
    lemma_first_member(u, key);
    if first_member(u, key) < i {
        assert(u[first_member(u, key)] == m[first_member(u, key)]);
    }
    if first_member(u, key) > i {
        assert(u[i].0 == key);
    }
}

/// A restored snapshot holds no secret material: its
/// `settings.secret.word` and `settings.secret.url`, wherever present, are
/// empty strings.
pub proof fn lemma_restore_blanks_secret(snapshot: JVal)
    ensures
        redact_spec(snapshot).get("settings"@) matches Some(settings) ==> (settings.get("secret"@)
            matches Some(secret) ==> {
            &&& secret.get("word"@) matches Some(w) ==> w == JVal::Str(Seq::empty())
            &&& secret.get("url"@) matches Some(u) ==> u == JVal::Str(Seq::empty())
        }),
{
    let red = redacted(snapshot, Seq::empty());
    let r = redact_spec(snapshot);
    if let JVal::Object(m) = red {
        lemma_first_member(m, "settings"@);
        let i = first_member(m, "settings"@);
        if i < m.len() {
            let s = m[i].1;
            lemma_update_reads(m, "settings"@, blank_settings(s));
            assert(r.get("settings"@) == Some(blank_settings(s)));
            if let JVal::Object(sm) = s {
                lemma_first_member(sm, "secret"@);
                let k = first_member(sm, "secret"@);
                if k < sm.len() {
                    let w = sm[k].1;
                    lemma_update_reads(sm, "secret"@, blank_secret_words(w));
                    assert(blank_settings(s).get("secret"@) == Some(blank_secret_words(w)));
                    if let JVal::Object(wm) = w {
                        let w1 = set_member(wm, "word"@, JVal::Str(Seq::empty()));
                        reveal_strlit("word");
                        reveal_strlit("url");
                        assert("word"@.len() != "url"@.len());
                        lemma_set_member_reads(wm, "word"@, JVal::Str(Seq::empty()), "url"@);
                        lemma_set_member_reads(w1, "url"@, JVal::Str(Seq::empty()), "word"@);
                        lemma_first_member(wm, "word"@);
                        lemma_first_member(w1, "url"@);
                    }
                }
            }
        }
    }
}


proof fn lemma_same_keys_first(m: Seq<(Seq<char>, JVal)>, u: Seq<(Seq<char>, JVal)>, key: Seq<char>)
    requires
        m.len() == u.len(),
        forall|j: int| 0 <= j < m.len() ==> (#[trigger] u[j]).0 == m[j].0,
    ensures
        first_member(u, key) == first_member(m, key),
{
    lemma_first_member(m, key);
    lemma_first_member(u, key);
    let a = first_member(m, key);
    let b = first_member(u, key);
    if a < b {
        assert(u[a].0 == m[a].0);
    }
    if b < a {
        assert(u[b].0 == m[b].0);
    }
}

/// Replacing a member's value keeps where each name first occurs.
proof fn lemma_update_keeps_first(m: Seq<(Seq<char>, JVal)>, i: int, v: JVal, key: Seq<char>)
    requires
        0 <= i < m.len(),
    ensures
        first_member(m.update(i, (m[i].0, v)), key) == first_member(m, key),
{
    let u = m.update(i, (m[i].0, v));
    assert forall|j: int| 0 <= j < m.len() implies (#[trigger] u[j]).0 == m[j].0 by {}
    lemma_same_keys_first(m, u, key);
}

proof fn lemma_set_member_twice(m: Seq<(Seq<char>, JVal)>, key: Seq<char>, v: JVal)
    ensures
        set_member(set_member(m, key, v), key, v) == set_member(m, key, v),
{
    lemma_first_member(m, key);
    let i = first_member(m, key);
    if i < m.len() {
        lemma_update_keeps_first(m, i, v, key);
        let u = set_member(m, key, v);
        assert(set_member(u, key, v) =~= u);
    }
}

proof fn lemma_blank_words_twice(w: JVal)
    ensures
        blank_secret_words(blank_secret_words(w)) == blank_secret_words(w),
{
    if let JVal::Object(m) = w {
        let e = JVal::Str(Seq::empty());
        let w1 = set_member(m, "word"@, e);
        let w2 = set_member(w1, "url"@, e);
        reveal_strlit("word");
        reveal_strlit("url");
        assert("word"@.len() != "url"@.len());
        lemma_first_member(m, "word"@);
        lemma_first_member(w1, "url"@);
        let i = first_member(m, "word"@);
        let k = first_member(w1, "url"@);
        if i < m.len() {
            lemma_update_keeps_first(m, i, e, "url"@);
            lemma_update_keeps_first(m, i, e, "word"@);
        }
        if k < w1.len() {
            lemma_update_keeps_first(w1, k, e, "word"@);
            lemma_update_keeps_first(w1, k, e, "url"@);
        }
        // the word is blank in w2 already, so blanking it again keeps w2
        lemma_first_member(w2, "word"@);
        let i2 = first_member(w2, "word"@);
        if i2 < w2.len() {
            assert(i2 == i);
            assert(w2[i2] == w1[i2]);
        }
        assert(set_member(w2, "word"@, e) =~= w2);
        lemma_set_member_twice(w1, "url"@, e);
    }
}

proof fn lemma_blank_settings_twice(s: JVal)
    ensures
        blank_settings(blank_settings(s)) == blank_settings(s),
{
    if let JVal::Object(m) = s {
        lemma_first_member(m, "secret"@);
        let k = first_member(m, "secret"@);
        if k < m.len() {
            let w = m[k].1;
            lemma_update_keeps_first(m, k, blank_secret_words(w), "secret"@);
            lemma_blank_words_twice(w);
            let u = m.update(k, (m[k].0, blank_secret_words(w)));
            assert(u.update(k, (u[k].0, blank_secret_words(u[k].1))) =~= u);
        }
    }
}

proof fn lemma_blank_snapshot_twice(j: JVal)
    ensures
        blank_snapshot(blank_snapshot(j)) == blank_snapshot(j),
{
    if let JVal::Object(m) = j {
        lemma_first_member(m, "settings"@);
        let i = first_member(m, "settings"@);
        if i < m.len() {
            let s = m[i].1;
            lemma_update_keeps_first(m, i, blank_settings(s), "settings"@);
            lemma_blank_settings_twice(s);
            let u = m.update(i, (m[i].0, blank_settings(s)));
            assert(u.update(i, (u[i].0, blank_settings(u[i].1))) =~= u);
        }
    }
}

/// Redacting a restored snapshot again changes nothing: the whole
/// redaction is idempotent.
pub proof fn lemma_redact_idempotent(snapshot: JVal)
    ensures
        redact_spec(redact_spec(snapshot)) == redact_spec(snapshot),
{
    lemma_restore_leaves_no_capsule_text(snapshot);
    lemma_blank_snapshot_twice(redacted(snapshot, Seq::empty()));
}


/// The paths whose values a restore may blank: the capsule text, and the
/// secret's word and URL.
pub open spec fn blankable(path: Seq<char>) -> bool {
    path == capsule_text_path() || path == "settings.secret.word"@ || path == "settings.secret.url"@
}

/// `r` is `j` (found at `path`) with at most some values at blankable
/// paths replaced by the empty string: every other value, member name,
/// member order and array length is kept.
pub open spec fn only_blanked(j: JVal, r: JVal, path: Seq<char>) -> bool
    decreases j, 0int,
{
    if r == j {
        true
    } else if blankable(path) && r == JVal::Str(Seq::empty()) {
        true
    } else {
        match j {
            JVal::Object(m) => match r {
                JVal::Object(n) => m.len() == n.len() && members_blanked(m, n, path, m.len() as int),
                _ => false,
            },
            JVal::Array(a) => match r {
                JVal::Array(b) => a.len() == b.len() && items_blanked(a, b, path, a.len() as int),
                _ => false,
            },
            _ => false,
        }
    }
}

/// The first `k` members of `n` have the names of those of `m`, and values
/// changed only as `only_blanked` allows.
pub open spec fn members_blanked(
    m: Seq<(Seq<char>, JVal)>,
    n: Seq<(Seq<char>, JVal)>,
    path: Seq<char>,
    k: int,
) -> bool
    decreases m, k,
{
    if k <= 0 || k > m.len() {
        true
    } else {
        proof {
            assert(decreases_to!(m => m[k - 1]));
            assert(decreases_to!(m[k - 1] => m[k - 1].1));
        }
        members_blanked(m, n, path, k - 1) && n[k - 1].0 == m[k - 1].0 && only_blanked(
            m[k - 1].1,
            n[k - 1].1,
            join_path(path, m[k - 1].0),
        )
    }
}

/// The first `k` items of `b` are those of `a`, changed only as
/// `only_blanked` allows.
pub open spec fn items_blanked(a: Seq<JVal>, b: Seq<JVal>, path: Seq<char>, k: int) -> bool
    decreases a, k,
{
    if k <= 0 || k > a.len() {
        true
    } else {
        proof {
            assert(decreases_to!(a => a[k - 1]));
        }
        items_blanked(a, b, path, k - 1) && only_blanked(a[k - 1], b[k - 1], path)
    }
}

proof fn lemma_members_blanked(
    m: Seq<(Seq<char>, JVal)>,
    n: Seq<(Seq<char>, JVal)>,
    path: Seq<char>,
    k: int,
)
    requires
        0 <= k <= m.len(),
        m.len() == n.len(),
    ensures
        members_blanked(m, n, path, k) ==> forall|i: int|
            0 <= i < k ==> (#[trigger] n[i]).0 == m[i].0 && only_blanked(
                m[i].1,
                n[i].1,
                join_path(path, m[i].0),
            ),
        (forall|i: int|
            0 <= i < k ==> (#[trigger] n[i]).0 == m[i].0 && only_blanked(
                m[i].1,
                n[i].1,
                join_path(path, m[i].0),
            )) ==> members_blanked(m, n, path, k),
    decreases k,
{
    if k > 0 {
        lemma_members_blanked(m, n, path, k - 1);
        let last = n[k - 1].0 == m[k - 1].0 && only_blanked(
            m[k - 1].1,
            n[k - 1].1,
            join_path(path, m[k - 1].0),
        );
        assert(members_blanked(m, n, path, k) == (members_blanked(m, n, path, k - 1) && last));
        if members_blanked(m, n, path, k) {
            assert forall|i: int| 0 <= i < k implies (#[trigger] n[i]).0 == m[i].0 && only_blanked(
                m[i].1,
                n[i].1,
                join_path(path, m[i].0),
            ) by {
                assert(members_blanked(m, n, path, k - 1));
                assert(last);
                if i < k - 1 {
                    assert(only_blanked(m[i].1, n[i].1, join_path(path, m[i].0)));
                }
            }
        }
        if forall|i: int|
            0 <= i < k ==> (#[trigger] n[i]).0 == m[i].0 && only_blanked(
                m[i].1,
                n[i].1,
                join_path(path, m[i].0),
            ) {
            assert(only_blanked(m[k - 1].1, n[k - 1].1, join_path(path, m[k - 1].0)));
            assert(last);
            assert forall|i: int| 0 <= i < k - 1 implies (#[trigger] n[i]).0 == m[i].0 && only_blanked(
                m[i].1,
                n[i].1,
                join_path(path, m[i].0),
            ) by {}
            assert(members_blanked(m, n, path, k - 1));
        }
    }
}

proof fn lemma_items_blanked(a: Seq<JVal>, b: Seq<JVal>, path: Seq<char>, k: int)
    requires
        0 <= k <= a.len(),
        a.len() == b.len(),
    ensures
        items_blanked(a, b, path, k) ==> forall|i: int|
            0 <= i < k ==> #[trigger] only_blanked(a[i], b[i], path),
        (forall|i: int| 0 <= i < k ==> #[trigger] only_blanked(a[i], b[i], path)) ==> items_blanked(
            a,
            b,
            path,
            k,
        ),
    decreases k,
{
    if k > 0 {
        lemma_items_blanked(a, b, path, k - 1);
        let last = only_blanked(a[k - 1], b[k - 1], path);
        assert(items_blanked(a, b, path, k) == (items_blanked(a, b, path, k - 1) && last));
        if items_blanked(a, b, path, k) {
            assert forall|i: int| 0 <= i < k implies #[trigger] only_blanked(a[i], b[i], path) by {
                assert(items_blanked(a, b, path, k - 1));
                assert(last);
            }
        }
        if forall|i: int| 0 <= i < k ==> #[trigger] only_blanked(a[i], b[i], path) {
            assert(only_blanked(a[k - 1], b[k - 1], path));
            assert forall|i: int| 0 <= i < k - 1 implies #[trigger] only_blanked(a[i], b[i], path) by {}
            assert(items_blanked(a, b, path, k - 1));
        }
    }
}

proof fn lemma_redacted_only_blanks(j: JVal, p: Seq<char>)
    ensures
        only_blanked(j, redacted(j, p), p),
    decreases j,
{
    let r = redacted(j, p);
    match j {
        JVal::Object(m) => {
            let n = r->Object_0;
            assert forall|i: int| 0 <= i < m.len() implies (#[trigger] n[i]).0 == m[i].0 && only_blanked(
                m[i].1,
                n[i].1,
                join_path(p, m[i].0),
            ) by {
                assert(decreases_to!(j => m));
                assert(decreases_to!(m => m[i]));
                assert(decreases_to!(m[i] => m[i].1));
                lemma_redacted_only_blanks(m[i].1, join_path(p, m[i].0));
            }
            lemma_members_blanked(m, n, p, m.len() as int);
        },
        JVal::Array(a) => {
            let b = r->Array_0;
            assert forall|i: int| 0 <= i < a.len() implies #[trigger] only_blanked(a[i], b[i], p) by {
                assert(decreases_to!(j => a));
                assert(decreases_to!(a => a[i]));
                lemma_redacted_only_blanks(a[i], p);
            }
            lemma_items_blanked(a, b, p, a.len() as int);
        },
        _ => {},
    }
}

proof fn lemma_only_blanked_chain(a: JVal, b: JVal, c: JVal, p: Seq<char>)
    requires
        only_blanked(a, b, p),
        only_blanked(b, c, p),
    ensures
        only_blanked(a, c, p),
    decreases a,
{
    if b == a || c == b || (blankable(p) && c == JVal::Str(Seq::empty())) {
    } else if blankable(p) && b == JVal::Str(Seq::empty()) {
    } else {
        match a {
            JVal::Object(m) => {
                assert(b is Object);
                let n = b->Object_0;
                assert(c is Object);
                let o = c->Object_0;
                assert(m.len() == n.len() && n.len() == o.len());
                lemma_members_blanked(m, n, p, m.len() as int);
                lemma_members_blanked(n, o, p, n.len() as int);
                lemma_members_blanked(m, o, p, m.len() as int);
                assert forall|i: int| 0 <= i < m.len() implies (#[trigger] o[i]).0 == m[i].0 && only_blanked(
                    m[i].1,
                    o[i].1,
                    join_path(p, m[i].0),
                ) by {
                    assert(decreases_to!(a => m));
                    assert(decreases_to!(m => m[i]));
                    assert(decreases_to!(m[i] => m[i].1));
                    assert(only_blanked(m[i].1, n[i].1, join_path(p, m[i].0)));
                    assert(n[i].0 == m[i].0);
                    assert(only_blanked(n[i].1, o[i].1, join_path(p, n[i].0)));
                    lemma_only_blanked_chain(m[i].1, n[i].1, o[i].1, join_path(p, m[i].0));
                }
            },
            JVal::Array(x) => {
                assert(b is Array);
                let y = b->Array_0;
                assert(c is Array);
                let z = c->Array_0;
                lemma_items_blanked(x, y, p, x.len() as int);
                lemma_items_blanked(y, z, p, y.len() as int);
                lemma_items_blanked(x, z, p, x.len() as int);
                assert forall|i: int| 0 <= i < x.len() implies #[trigger] only_blanked(x[i], z[i], p) by {
                    assert(decreases_to!(a => x));
                    assert(decreases_to!(x => x[i]));
                    lemma_only_blanked_chain(x[i], y[i], z[i], p);
                }
            },
            _ => {},
        }
    }
}

/// Replacing the value of member `i` so that it changes only as allowed at
/// its path changes the object only as allowed.
proof fn lemma_only_blanked_update(m: Seq<(Seq<char>, JVal)>, i: int, v: JVal, p: Seq<char>)
    requires
        0 <= i < m.len(),
        only_blanked(m[i].1, v, join_path(p, m[i].0)),
    ensures
        only_blanked(JVal::Object(m), JVal::Object(m.update(i, (m[i].0, v))), p),
{
    let n = m.update(i, (m[i].0, v));
    assert forall|k: int| 0 <= k < m.len() implies (#[trigger] n[k]).0 == m[k].0 && only_blanked(
        m[k].1,
        n[k].1,
        join_path(p, m[k].0),
    ) by {
        if k != i {
            assert(n[k] == m[k]);
        }
    }
    lemma_members_blanked(m, n, p, m.len() as int);
}

proof fn lemma_set_member_only_blanks(m: Seq<(Seq<char>, JVal)>, key: Seq<char>, p: Seq<char>)
    requires
        blankable(join_path(p, key)),
    ensures
        only_blanked(JVal::Object(m), JVal::Object(set_member(m, key, JVal::Str(Seq::empty()))), p),
{
    lemma_first_member(m, key);
    let i = first_member(m, key);
    if i < m.len() {
        lemma_only_blanked_update(m, i, JVal::Str(Seq::empty()), p);
    }
}

proof fn lemma_paths()
    ensures
        join_path(Seq::empty(), "settings"@) == "settings"@,
        join_path("settings"@, "secret"@) == "settings.secret"@,
        join_path("settings.secret"@, "word"@) == "settings.secret.word"@,
        join_path("settings.secret"@, "url"@) == "settings.secret.url"@,
{
    reveal_strlit("settings");
    reveal_strlit("secret");
    reveal_strlit("word");
    reveal_strlit("url");
    reveal_strlit("settings.secret");
    reveal_strlit("settings.secret.word");
    reveal_strlit("settings.secret.url");
    assert("settings"@ + seq!['.'] + "secret"@ =~= "settings.secret"@);
    assert("settings.secret"@ + seq!['.'] + "word"@ =~= "settings.secret.word"@);
    assert("settings.secret"@ + seq!['.'] + "url"@ =~= "settings.secret.url"@);
}

proof fn lemma_blank_snapshot_only_blanks(j: JVal)
    ensures
        only_blanked(j, blank_snapshot(j), Seq::empty()),
{
    lemma_paths();
    if let JVal::Object(m) = j {
        lemma_first_member(m, "settings"@);
        let i = first_member(m, "settings"@);
        if i < m.len() {
            let s = m[i].1;
            let sp = join_path(Seq::empty(), m[i].0);
            assert(sp == "settings"@);
            if let JVal::Object(sm) = s {
                lemma_first_member(sm, "secret"@);
                let k = first_member(sm, "secret"@);
                if k < sm.len() {
                    let w = sm[k].1;
                    let wp = join_path(sp, sm[k].0);
                    assert(wp == "settings.secret"@);
                    if let JVal::Object(wm) = w {
                        let w1 = set_member(wm, "word"@, JVal::Str(Seq::empty()));
                        lemma_set_member_only_blanks(wm, "word"@, wp);
                        lemma_set_member_only_blanks(w1, "url"@, wp);
                        lemma_only_blanked_chain(
                            w,
                            JVal::Object(w1),
                            blank_secret_words(w),
                            wp,
                        );
                    }
                    lemma_only_blanked_update(sm, k, blank_secret_words(w), sp);
                }
            }
            lemma_only_blanked_update(m, i, blank_settings(s), Seq::empty());
        }
    }
}

/// A restore changes a snapshot only where it must: every difference
/// between a snapshot and its restored form is a value at
/// `settings.capsule.text` (array items included), `settings.secret.word`
/// or `settings.secret.url` that became the empty string; all other
/// values, member names and orders, and array lengths are kept.
pub proof fn lemma_redact_only_blanks(snapshot: JVal)
    ensures
        only_blanked(snapshot, redact_spec(snapshot), Seq::empty()),
{
    let red = redacted(snapshot, Seq::empty());
    lemma_redacted_only_blanks(snapshot, Seq::empty());
    lemma_blank_snapshot_only_blanks(red);
    lemma_only_blanked_chain(snapshot, red, redact_spec(snapshot), Seq::empty());
}

} // verus!
