//! Presence: visitors send heartbeats carrying a token; each token holds a
//! lease that a live heartbeat renews and a stale one restarts.
use vstd::prelude::*;
use crate::rejection::Rejection;
use crate::text::trim;

verus! {

pub const LEASE_MIN_S: i64 = 10;
pub const LEASE_MAX_S: i64 = 300;
pub const LEASE_DEFAULT_S: i64 = 60;
pub const TOKEN_MAX_BYTES: usize = 128;

/// A heartbeat.
pub struct HeartbeatBody {
    pub token: Option<String>,
    pub lease_seconds: Option<i64>,
}

/// The presence token of a heartbeat: its trimmed text, when that is
/// non-empty and at most `TOKEN_MAX_BYTES` bytes of UTF-8.
pub open spec fn token_spec(token: Option<String>) -> Result<Seq<char>, Rejection> {
    let t = crate::text::trimmed(crate::helpers::text_or_empty(token));
    if t.len() == 0 || vstd::utf8::encode_utf8(t).len() > TOKEN_MAX_BYTES {
        Err(Rejection::PresenceTokenRequired)
    } else {
        Ok(t)
    }
}

pub fn heartbeat_token(body: &HeartbeatBody) -> (r: Result<String, Rejection>)
    ensures
        match r {
            Ok(t) => token_spec(body.token) == Ok::<Seq<char>, Rejection>(t@),
            Err(e) => token_spec(body.token) == Err::<Seq<char>, Rejection>(e),
        },
{
    let token = match &body.token {
        Some(t) => trim(t.as_str()),
        None => String::new(),
    };
    assert(crate::text::trimmed(Seq::<char>::empty()) == Seq::<char>::empty());
    let empty = token.as_str().unicode_len() == 0;
    if empty || token.as_str().as_bytes().len() > TOKEN_MAX_BYTES {
        return Err(Rejection::PresenceTokenRequired);
    }
    Ok(token)
}

/// The lease a heartbeat asks for, clamped to `[LEASE_MIN_S, LEASE_MAX_S]`;
/// `LEASE_DEFAULT_S` when it names none.
pub open spec fn lease_spec(lease_seconds: Option<i64>) -> i64 {
    match lease_seconds {
        Some(s) => if s < LEASE_MIN_S {
            LEASE_MIN_S
        } else if s > LEASE_MAX_S {
            LEASE_MAX_S
        } else {
            s
        },
        None => LEASE_DEFAULT_S,
    }
}

pub fn lease_of(lease_seconds: Option<i64>) -> (r: i64)
    ensures
        r == lease_spec(lease_seconds),
        LEASE_MIN_S <= r <= LEASE_MAX_S,
{
    match lease_seconds {
        Some(s) => if s < LEASE_MIN_S {
            LEASE_MIN_S
        } else if s > LEASE_MAX_S {
            LEASE_MAX_S
        } else {
            s
        },
        None => LEASE_DEFAULT_S,
    }
}

/// What a heartbeat does to the lease of its token.
#[derive(PartialEq, Eq, Structural, Clone, Copy, Debug)]
pub enum LeaseStep {
    /// A live lease: push its expiry out.
    Renew,
    /// An expired lease of a known token: start it afresh.
    Restart,
    /// An unknown token: open a lease for it.
    Open,
}

impl LeaseStep {
    /// The answer's `renewed` flag: only a live lease is renewed; an
    /// expired lease that starts afresh is not.
    pub open spec fn renewed_spec(self) -> bool {
        self == LeaseStep::Renew
    }

    pub fn renewed(&self) -> (r: bool)
        ensures
            r == self.renewed_spec(),
    {
        match self {
            LeaseStep::Renew => true,
            _ => false,
        }
    }

    /// The token was known already (its lease renewed or restarted); such a
    /// heartbeat also clears the owner's expired leases.
    pub open spec fn known_spec(self) -> bool {
        self != LeaseStep::Open
    }

    pub fn known(&self) -> (r: bool)
        ensures
            r == self.known_spec(),
    {
        match self {
            LeaseStep::Open => false,
            _ => true,
        }
    }
}

pub open spec fn lease_step_spec(known: bool, alive: bool) -> LeaseStep {
    if !known {
        LeaseStep::Open
    } else if alive {
        LeaseStep::Renew
    } else {
        LeaseStep::Restart
    }
}

/// Given whether the token already has a lease, and whether that lease is
/// still live: only live leases are renewed; a stale token starts fresh.
pub fn lease_step(known: bool, alive: bool) -> (r: LeaseStep)
    ensures
        r == lease_step_spec(known, alive),
{
    if !known {
        LeaseStep::Open
    } else if alive {
        LeaseStep::Renew
    } else {
        LeaseStep::Restart
    }
}


/// A lease asked for within 10 to 300 seconds is granted as asked; a
/// shorter one is raised to 10, a longer one lowered to 300, and none asked
/// gives 60.
pub proof fn lemma_lease_bounds(asked: i64)
    ensures
        10 <= asked <= 300 ==> lease_spec(Some(asked)) == asked,
        asked < 10 ==> lease_spec(Some(asked)) == 10,
        asked > 300 ==> lease_spec(Some(asked)) == 300,
        lease_spec(None) == 60,
{
}

/// Only a known token whose lease is live is renewed; a known token with an
/// expired lease restarts it, and an unknown token opens one.
pub proof fn lemma_only_live_leases_renew(known: bool, alive: bool)
    ensures
        lease_step_spec(known, alive).renewed_spec() <==> (known && alive),
        lease_step_spec(known, alive).known_spec() <==> known,
{
}

} // verus!
