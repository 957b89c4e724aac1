//! The time capsule: a text sealed until a release instant; the first view
//! at or after that instant opens it for good.
use vstd::prelude::*;
use crate::json::{Json, JVal};
use crate::outside::parse_rfc3339;
use crate::rejection::Rejection;

verus! {

pub const BODY_MAX: usize = 5000;

/// The `capsule` member of the settings, or an empty object.
pub open spec fn capsule_cfg_spec(settings: JVal) -> JVal {
    match settings.get("capsule"@) {
        Some(c) => c,
        None => crate::json::empty_object(),
    }
}

pub fn capsule_cfg(settings: &Json) -> (r: Json)
    ensures
        r@ == capsule_cfg_spec(settings@),
{
    match settings.get("capsule") {
        Some(c) => c.copy(),
        None => Json::new_object(),
    }
}

/// A text member of the capsule's configuration, empty when missing.
pub open spec fn cfg_text(cfg: JVal, key: Seq<char>) -> Seq<char> {
    match cfg.str_at(key) {
        Some(s) => s,
        None => Seq::empty(),
    }
}

fn cfg_text_of(cfg: &Json, key: &str) -> (r: String)
    ensures
        r@ == cfg_text(cfg@, key@),
{
    match cfg.str_at(key) {
        Some(s) => String::from_str(s),
        None => String::new(),
    }
}

/// Publishing refuses a capsule text of more than `BODY_MAX` characters.
pub fn check_capsule_body(settings: &Json) -> (r: Result<(), Rejection>)
    ensures
        r is Ok <==> cfg_text(capsule_cfg_spec(settings@), "text"@).len() <= BODY_MAX,
        r is Err ==> r == Err::<(), Rejection>(Rejection::CapsuleTooLarge),
{
    let cfg = capsule_cfg(settings);
    let body = cfg_text_of(&cfg, "text");
    if body.as_str().unicode_len() > BODY_MAX {
        Err(Rejection::CapsuleTooLarge)
    } else {
        Ok(())
    }
}

/// Instant `now` is at or after instant `at`; both are Unix seconds and
/// the nanoseconds past them.
pub open spec fn reached(now: (i64, u32), at: (i64, u32)) -> bool {
    now.0 > at.0 || (now.0 == at.0 && now.1 >= at.1)
}

/// Where the capsule stands at a view.
pub enum Opening {
    /// Opened before, at the recorded instant.
    Opened(String),
    /// Due and not yet opened: this view opens it (and records the instant).
    OpensNow,
    /// Not due yet.
    Sealed,
}

pub open spec fn opening_spec(opened_at: Option<Seq<char>>, release: Option<(i64, u32)>, now: (
    i64,
    u32,
)) -> Option<Option<Seq<char>>> {
    match opened_at {
        Some(o) => Some(Some(o)),
        None => match release {
            Some(at) => if reached(now, at) {
                Some(None)
            } else {
                None
            },
            None => None,
        },
    }
}

/// A recorded opening stands; otherwise a parsed release instant that
/// `now` has reached opens the capsule; otherwise it stays sealed (also
/// when the release instant does not parse).
pub fn opening(opened_at: Option<&str>, release: Option<(i64, u32)>, now: (i64, u32)) -> (r:
    Opening)
    ensures
        opening_spec(
            match opened_at {
                Some(o) => Some(o@),
                None => None,
            },
            release,
            now,
        ) == match r {
            Opening::Opened(o) => Some(Some(o@)),
            Opening::OpensNow => Some(None::<Seq<char>>),
            Opening::Sealed => None::<Option<Seq<char>>>,
        },
{
    match opened_at {
        Some(o) => Opening::Opened(String::from_str(o)),
        None => match release {
            Some(at) => if now.0 > at.0 || (now.0 == at.0 && now.1 >= at.1) {
                Opening::OpensNow
            } else {
                Opening::Sealed
            },
            None => Opening::Sealed,
        },
    }
}

/// What a view of the capsule shows.
pub struct CapsuleView {
    pub label: String,
    /// The configured release instant, as configured.
    pub at: String,
    /// The capsule text, shown only once the capsule is open.
    pub body: Option<String>,
    pub opening: Opening,
}

/// The recorded opening instant of the capsule's state, if any.
pub open spec fn opened_spec(state: JVal) -> Option<Seq<char>> {
    state.str_at("openedAt"@)
}

/// The view at instant `now` (Unix seconds, nanoseconds), given the
/// capsule's configuration and its recorded state; the release instant is
/// the configured `at` text read as RFC 3339.
pub fn capsule_view(cfg: &Json, state: &Json, now: (i64, u32)) -> (r: CapsuleView)
    ensures
        r.label@ == cfg_text(cfg@, "label"@),
        r.at@ == cfg_text(cfg@, "at"@),
        r.body is Some <==> (opened_spec(state@) is Some || (crate::outside::rfc3339_instant(
            cfg_text(cfg@, "at"@),
        ) matches Some(t) && reached(now, t))),
        r.body matches Some(b) ==> b@ == cfg_text(cfg@, "text"@),
        opening_spec(
            opened_spec(state@),
            crate::outside::rfc3339_instant(cfg_text(cfg@, "at"@)),
            now,
        ) == match r.opening {
            Opening::Opened(o) => Some(Some(o@)),
            Opening::OpensNow => Some(None::<Seq<char>>),
            Opening::Sealed => None::<Option<Seq<char>>>,
        },
{
    let label = cfg_text_of(cfg, "label");
    let at = cfg_text_of(cfg, "at");
    let body = cfg_text_of(cfg, "text");
    let release = parse_rfc3339(at.as_str());
    let o = opening(state.str_at("openedAt"), release, now);
    let shown = match o {
        Opening::Sealed => None,
        _ => Some(body),
    };
    CapsuleView { label, at, body: shown, opening: o }
}


/// Once an opening is recorded the capsule shows open, whatever the
/// release instant and the clock say.
pub proof fn lemma_opened_stays_open(opened: Seq<char>, release: Option<(i64, u32)>, now: (i64, u32))
    ensures
        opening_spec(Some(opened), release, now) == Some(Some(opened)),
{
}

/// A capsule due at one instant is due at every later instant: time never
/// seals it again.
pub proof fn lemma_due_stays_due(release: Option<(i64, u32)>, earlier: (i64, u32), later: (i64, u32))
    requires
        reached(later, earlier),
        opening_spec(None, release, earlier) == Some(None::<Seq<char>>),
    ensures
        opening_spec(None, release, later) == Some(None::<Seq<char>>),
{
}

} // verus!
