//! The guestbook: visitors leave a name and a message, the owner approves,
//! rejects, removes or pins entries, and approved entries are listed in pages.
use vstd::prelude::*;
use crate::helpers::{feature_enabled, owned_or_empty};
use crate::json::Json;
use crate::rejection::Rejection;
use crate::text::text_eq;

verus! {

pub const NAME_MAX: usize = 40;
pub const MESSAGE_MAX: usize = 200;
pub const QUEUE_MAX: i64 = 500;
pub const VISIBLE_MAX: usize = 20;
pub const RATE_MAX: i64 = 30;
pub const RATE_WINDOW_MS: i64 = 600_000;

/// A submitted entry.
pub struct Submit {
    pub display_name: Option<String>,
    pub message: Option<String>,
    pub ip: Option<String>,
}

/// Paging and filtering of a listing.
pub struct ListQuery {
    pub page: Option<u32>,
    pub page_size: Option<u32>,
    pub status: Option<String>,
}

/// The guestbook switches of a profile.
pub struct GuestbookSettings {
    pub enabled: bool,
    pub paused: bool,
    pub pinning: bool,
}

pub fn guestbook_settings(settings: &Json) -> (r: GuestbookSettings)
    ensures
        r.enabled == crate::helpers::switched_on(settings@, "guestbook"@),
        r.paused == (settings@.bool_at("guestbookPaused"@) == Some(true)),
        r.pinning == (settings@.bool_at("guestbookPinning"@) == Some(true)),
{
    let enabled = feature_enabled(settings, "guestbook");
    let paused = match settings.bool_at("guestbookPaused") {
        Some(b) => b,
        None => false,
    };
    let pinning = match settings.bool_at("guestbookPinning") {
        Some(b) => b,
        None => false,
    };
    GuestbookSettings { enabled, paused, pinning }
}

/// New entries are taken while the guestbook is on and not paused.
pub fn intake_gate(cfg: &GuestbookSettings) -> (r: Result<(), Rejection>)
    ensures
        r == if !cfg.enabled {
            Err(Rejection::FeatureOffForbidden)
        } else if cfg.paused {
            Err(Rejection::IntakePaused)
        } else {
            Ok(())
        },
{
    if !cfg.enabled {
        Err(Rejection::FeatureOffForbidden)
    } else if cfg.paused {
        Err(Rejection::IntakePaused)
    } else {
        Ok(())
    }
}

/// An accepted entry.
pub struct Entry {
    pub display_name: String,
    pub message: String,
}

/// The verdict on the fields of an entry: a name of 1 to `NAME_MAX`
/// characters and a message of 1 to `MESSAGE_MAX` characters.
pub open spec fn entry_spec(name: Seq<char>, message: Seq<char>) -> Result<(), Rejection> {
    if name.len() == 0 || name.len() > NAME_MAX {
        Err(Rejection::InvalidDisplayName)
    } else if message.len() == 0 || message.len() > MESSAGE_MAX {
        Err(Rejection::InvalidMessage)
    } else {
        Ok(())
    }
}

pub fn check_entry(body: &Submit) -> (r: Result<Entry, Rejection>)
    ensures
        match r {
            Ok(e) => entry_spec(
                crate::helpers::text_or_empty(body.display_name),
                crate::helpers::text_or_empty(body.message),
            ) is Ok && e.display_name@ == crate::helpers::text_or_empty(body.display_name)
                && e.message@ == crate::helpers::text_or_empty(body.message),
            Err(x) => entry_spec(
                crate::helpers::text_or_empty(body.display_name),
                crate::helpers::text_or_empty(body.message),
            ) == Err::<(), Rejection>(x),
        },
{
    let name = owned_or_empty(&body.display_name);
    let message = owned_or_empty(&body.message);
    let n = name.as_str().unicode_len();
    if n == 0 || n > NAME_MAX {
        return Err(Rejection::InvalidDisplayName);
    }
    let m = message.as_str().unicode_len();
    if m == 0 || m > MESSAGE_MAX {
        return Err(Rejection::InvalidMessage);
    }
    Ok(Entry { display_name: name, message })
}

/// New entries wait for moderation only while fewer than `QUEUE_MAX` do.
pub fn queue_capacity(pending: i64) -> (r: Result<(), Rejection>)
    ensures
        r is Err <==> pending >= QUEUE_MAX,
        r is Err ==> r == Err::<(), Rejection>(Rejection::QueueFull),
{
    if pending >= QUEUE_MAX {
        Err(Rejection::QueueFull)
    } else {
        Ok(())
    }
}

/// Which page of approved entries to show.
pub struct PageWindow {
    pub page: u32,
    pub page_size: usize,
    pub offset: i64,
}

pub open spec fn page_size_spec(q: ListQuery) -> int {
    match q.page_size {
        Some(v) => if v < VISIBLE_MAX {
            v as int
        } else {
            VISIBLE_MAX as int
        },
        None => VISIBLE_MAX as int,
    }
}

pub open spec fn page_spec(q: ListQuery) -> int {
    match q.page {
        Some(p) => if p < 1 {
            1
        } else {
            p as int
        },
        None => 1,
    }
}

/// The page requested (at least 1), its size (at most `VISIBLE_MAX`,
/// `VISIBLE_MAX` when not given) and the entries skipped before it.
pub fn page_window(q: &ListQuery) -> (r: PageWindow)
    ensures
        r.page == page_spec(*q),
        r.page_size == page_size_spec(*q),
        r.offset == (r.page - 1) * r.page_size,
        1 <= r.page,
        r.page_size <= VISIBLE_MAX,
{
    let page_size: usize = match q.page_size {
        Some(v) => if (v as usize) < VISIBLE_MAX {
            v as usize
        } else {
            VISIBLE_MAX
        },
        None => VISIBLE_MAX,
    };
    let page: u32 = match q.page {
        Some(p) => if p < 1 {
            1
        } else {
            p
        },
        None => 1,
    };
    assert((page - 1) as int * page_size as int <= 0xffff_ffff * 20) by (nonlinear_arith)
        requires
            page_size <= 20,
            1 <= page <= 0xffff_ffff,
    ;
    let offset = ((page - 1) as i64) * (page_size as i64);
    PageWindow { page, page_size, offset }
}

/// The number of pages `total` entries fill at `page_size` a page.
pub fn page_count(total: i64, page_size: usize) -> (r: usize)
    requires
        0 < page_size <= VISIBLE_MAX,
        0 <= total <= usize::MAX - VISIBLE_MAX,
    ensures
        r == (total + page_size - 1) / (page_size as int),
        r * page_size >= total,
        total > 0 ==> (r - 1) * page_size < total,
{
    let r = (total as usize + page_size - 1) / page_size;
    assert(r * page_size >= total && (total > 0 ==> (r - 1) * page_size < total)) by (nonlinear_arith)
        requires
            r == (total + page_size - 1) / (page_size as int),
            page_size > 0,
            total >= 0,
    ;
    r
}

/// The statuses an owner can filter the inbox by.
pub open spec fn is_entry_status(s: Seq<char>) -> bool {
    s == "pending"@ || s == "approved"@ || s == "rejected"@ || s == "removed"@
}

/// The inbox filter: `pending` by default, one of the entry statuses.
pub fn inbox_status(status: &Option<String>) -> (r: Result<String, Rejection>)
    ensures
        match r {
            Ok(s) => s@ == match *status {
                Some(t) => t@,
                None => "pending"@,
            } && is_entry_status(s@),
            Err(e) => e == Rejection::BadStatus && !is_entry_status(
                match *status {
                    Some(t) => t@,
                    None => "pending"@,
                },
            ),
        },
{
    let s = match status {
        Some(t) => t.clone(),
        None => String::from_str("pending"),
    };
    let v = s.as_str();
    if text_eq(v, "pending") || text_eq(v, "approved") || text_eq(v, "rejected") || text_eq(
        v,
        "removed",
    ) {
        Ok(s)
    } else {
        Err(Rejection::BadStatus)
    }
}

/// What a moderation request does to an entry.
#[derive(PartialEq, Eq, Structural, Clone, Copy, Debug)]
pub enum ModerationStep {
    /// Approving an approved entry changes nothing.
    AlreadyApproved,
    /// Approve: unpinned, with a fresh public id and a new version.
    Approve,
    /// Reject: unpinned and no longer approved.
    Reject,
    /// Remove: unpinned, no longer approved, stamped as removed.
    Remove,
}

pub open spec fn moderation_spec(enabled: bool, current: Option<Seq<char>>, target: Seq<char>) -> Result<
    ModerationStep,
    Rejection,
> {
    if !enabled {
        Err(Rejection::FeatureOff)
    } else if current is None {
        Err(Rejection::EntryNotFound)
    } else if target == "approved"@ {
        if current == Some("approved"@) {
            Ok(ModerationStep::AlreadyApproved)
        } else {
            Ok(ModerationStep::Approve)
        }
    } else if target == "rejected"@ {
        Ok(ModerationStep::Reject)
    } else if target == "removed"@ {
        Ok(ModerationStep::Remove)
    } else {
        Err(Rejection::BadAction)
    }
}

/// The moderation of an entry whose current status is `current` (`None`
/// when there is no such entry) towards status `target`.
pub fn moderation_step(enabled: bool, current: Option<&str>, target: &str) -> (r: Result<
    ModerationStep,
    Rejection,
>)
    ensures
        r == moderation_spec(
            enabled,
            match current {
                Some(c) => Some(c@),
                None => None,
            },
            target@,
        ),
{
    if !enabled {
        return Err(Rejection::FeatureOff);
    }
    let cur = match current {
        Some(c) => c,
        None => {
            return Err(Rejection::EntryNotFound);
        },
    };
    if text_eq(target, "approved") {
        if text_eq(cur, "approved") {
            Ok(ModerationStep::AlreadyApproved)
        } else {
            Ok(ModerationStep::Approve)
        }
    } else if text_eq(target, "rejected") {
        Ok(ModerationStep::Reject)
    } else if text_eq(target, "removed") {
        Ok(ModerationStep::Remove)
    } else {
        Err(Rejection::BadAction)
    }
}

/// The version an approval writes: one past the stored version, read as 1
/// when it cannot be read (so 2 then).
pub fn approved_version(stored: Option<i32>) -> (r: i32)
    requires
        stored matches Some(v) ==> v < i32::MAX,
    ensures
        r == match stored {
            Some(v) => v + 1,
            None => 2,
        },
{
    match stored {
        Some(v) => v + 1,
        None => 2,
    }
}

/// Only an approved entry can be pinned, and only while pinning is on.
pub open spec fn pin_spec(cfg: GuestbookSettings, status: Option<Seq<char>>) -> Result<(), Rejection> {
    if !cfg.enabled {
        Err(Rejection::FeatureOff)
    } else if !cfg.pinning {
        Err(Rejection::PinningOff)
    } else {
        match status {
            Some(s) => if s == "approved"@ {
                Ok(())
            } else {
                Err(Rejection::NotApproved)
            },
            None => Err(Rejection::EntryNotFound),
        }
    }
}

pub fn pin_check(cfg: &GuestbookSettings, status: Option<&str>) -> (r: Result<(), Rejection>)
    ensures
        r == pin_spec(
            *cfg,
            match status {
                Some(s) => Some(s@),
                None => None,
            },
        ),
{
    if !cfg.enabled {
        return Err(Rejection::FeatureOff);
    }
    if !cfg.pinning {
        return Err(Rejection::PinningOff);
    }
    match status {
        Some(s) => if text_eq(s, "approved") {
            Ok(())
        } else {
            Err(Rejection::NotApproved)
        },
        None => Err(Rejection::EntryNotFound),
    }
}

/// The moderated state of one entry.
pub struct EntryState {
    pub status: Seq<char>,
    pub pinned: bool,
}

/// The state of an entry after an accepted moderation step.
pub open spec fn after_moderation(e: EntryState, step: ModerationStep) -> EntryState {
    match step {
        ModerationStep::AlreadyApproved => e,
        ModerationStep::Approve => EntryState { status: "approved"@, pinned: false },
        ModerationStep::Reject => EntryState { status: "rejected"@, pinned: false },
        ModerationStep::Remove => EntryState { status: "removed"@, pinned: false },
    }
}

/// The state of an entry after an accepted pin.
pub open spec fn after_pin(e: EntryState) -> EntryState {
    EntryState { status: e.status, pinned: true }
}

/// Only approved entries are pinned.
pub open spec fn pin_consistent(e: EntryState) -> bool {
    e.pinned ==> e.status == "approved"@
}

/// Every accepted moderation step and every accepted pin keeps the rule
/// that only approved entries are pinned.
pub proof fn lemma_pins_stay_on_approved(
    e: EntryState,
    enabled: bool,
    target: Seq<char>,
    cfg: GuestbookSettings,
)
    requires
        pin_consistent(e),
    ensures
        moderation_spec(enabled, Some(e.status), target) matches Ok(step) ==> pin_consistent(
            after_moderation(e, step),
        ),
        pin_spec(cfg, Some(e.status)) is Ok ==> pin_consistent(after_pin(e)),
{
}

/// Approving an entry twice changes nothing the second time.
pub proof fn lemma_approve_idempotent(e: EntryState, enabled: bool)
    requires
        enabled,
    ensures
        moderation_spec(enabled, Some(e.status), "approved"@) matches Ok(step) ==> {
            let once = after_moderation(e, step);
            moderation_spec(enabled, Some(once.status), "approved"@) == Ok::<
                ModerationStep,
                Rejection,
            >(ModerationStep::AlreadyApproved) && after_moderation(
                once,
                ModerationStep::AlreadyApproved,
            ) == once
        },
{
}


/// Approving an existing entry with the guestbook on answers "already
/// approved" exactly when the entry is approved; from any other status it
/// approves, and the entry's status is then `approved`, unpinned.
/// Rejecting and removing always apply, and leave the entry unpinned.
pub proof fn lemma_moderation_outcomes(current: Seq<char>, e: EntryState)
    requires
        e.status == current,
    ensures
        current == "approved"@ ==> moderation_spec(true, Some(current), "approved"@) == Ok::<
            ModerationStep,
            Rejection,
        >(ModerationStep::AlreadyApproved) && after_moderation(e, ModerationStep::AlreadyApproved)
            == e,
        current != "approved"@ ==> moderation_spec(true, Some(current), "approved"@) == Ok::<
            ModerationStep,
            Rejection,
        >(ModerationStep::Approve) && after_moderation(e, ModerationStep::Approve).status
            == "approved"@ && !after_moderation(e, ModerationStep::Approve).pinned,
        moderation_spec(true, Some(current), "rejected"@) matches Ok(step) && after_moderation(
            e,
            step,
        ).status == "rejected"@ && !after_moderation(e, step).pinned,
        moderation_spec(true, Some(current), "removed"@) matches Ok(step) && after_moderation(
            e,
            step,
        ).status == "removed"@ && !after_moderation(e, step).pinned,
{
    reveal_strlit("approved");
    reveal_strlit("rejected");
    reveal_strlit("removed");
    assert("approved"@[0] != "rejected"@[0]);
    assert("approved"@ != "rejected"@);
    assert("approved"@.len() != "removed"@.len());
    assert("approved"@ != "removed"@);
}

/// An entry is taken exactly when its display name has 1 to 40 characters
/// and its message 1 to 200 characters; a bad name is reported before a
/// bad message.
pub proof fn lemma_entry_bounds(name: Seq<char>, message: Seq<char>)
    ensures
        entry_spec(name, message) is Ok <==> (1 <= name.len() <= 40 && 1 <= message.len() <= 200),
        !(1 <= name.len() <= 40) ==> entry_spec(name, message) == Err::<(), Rejection>(
            Rejection::InvalidDisplayName,
        ),
        (1 <= name.len() <= 40 && !(1 <= message.len() <= 200)) ==> entry_spec(name, message)
            == Err::<(), Rejection>(Rejection::InvalidMessage),
{
}


/// A page holds at most 20 entries (20 when no size is asked); pages count
/// from 1, and a page starts after the entries of the pages before it.
pub proof fn lemma_page_bounds(q: ListQuery)
    ensures
        (q.page_size matches Some(v) && v <= 20) ==> page_size_spec(q) == q.page_size->Some_0,
        (q.page_size matches Some(v) && v > 20) ==> page_size_spec(q) == 20,
        q.page_size is None ==> page_size_spec(q) == 20,
        (q.page matches Some(p) && p >= 1) ==> page_spec(q) == q.page->Some_0,
        !(q.page matches Some(p) && p >= 1) ==> page_spec(q) == 1,
{
}

} // verus!
