//! The background refresh driver's decision core.  Each dataset has one
//! long-lived loop: sleep until the next scheduled refresh, re-pull the
//! dataset through the external collaborator, persist it, and on success
//! drop every cache entry under the dataset's tags.  The loop's I/O lives
//! outside; this module decides, from the current phase and what just
//! happened, the next phase, the action to perform, and the timestamp to
//! publish.  A failed fetch or persist is swallowed and retried after the
//! same interval, never surfaced to a live request.

use vstd::prelude::*;

use crate::tags::{spec_tags_to_invalidate, tags_to_invalidate, Dataset, GroupTag};

verus! {

/// Where a dataset's refresh loop stands.
#[derive(Clone, Copy, PartialEq, Eq, Structural, Debug)]
pub enum RefreshPhase {
    Sleeping,
    Fetching,
    Persisting,
    Invalidating,
}

/// What the surrounding loop reports back after performing an action.
#[derive(Clone, Copy, PartialEq, Eq, Structural, Debug)]
pub enum RefreshEvent {
    Woke,
    FetchOk,
    FetchFailed,
    PersistOk,
    PersistFailed,
    Invalidated,
}

/// What the surrounding loop must do next.
#[derive(Clone, PartialEq, Eq, Debug)]
pub enum RefreshAction {
    /// Sleep until the published timestamp.
    Sleep,
    /// Re-pull the dataset from the upstream provider.
    Fetch,
    /// Persist the fetched snapshot transactionally.
    Persist,
    /// Drop every cache entry under these tags.
    Invalidate(Vec<GroupTag>),
    /// The reported event does not belong to the current phase.
    Ignore,
}

/// One decision of the refresh loop.
pub struct RefreshStep {
    pub phase: RefreshPhase,
    pub action: RefreshAction,
    /// The next-refresh timestamp to publish before sleeping, so readers
    /// can always report an accurate countdown.  `None` leaves the
    /// published timer unchanged.
    pub next_refresh_at: Option<u64>,
}

pub open spec fn spec_phase_after(p: RefreshPhase, e: RefreshEvent) -> RefreshPhase {
    match (p, e) {
        (RefreshPhase::Sleeping, RefreshEvent::Woke) => RefreshPhase::Fetching,
        (RefreshPhase::Fetching, RefreshEvent::FetchOk) => RefreshPhase::Persisting,
        (RefreshPhase::Fetching, RefreshEvent::FetchFailed) => RefreshPhase::Sleeping,
        (RefreshPhase::Persisting, RefreshEvent::PersistOk) => RefreshPhase::Invalidating,
        (RefreshPhase::Persisting, RefreshEvent::PersistFailed) => RefreshPhase::Sleeping,
        (RefreshPhase::Invalidating, RefreshEvent::Invalidated) => RefreshPhase::Sleeping,
        _ => p,
    }
}

/// Advances one dataset's refresh loop.  Entering the sleeping phase
/// publishes `now + interval` so the countdown is accurate before the
/// sleep begins; failures re-enter it the same way, which is how a failed
/// cycle retries after one interval.  Reaching the invalidating phase
/// hands back the dataset's own tag and its derived-view tags.
pub fn refresh_step(d: Dataset, p: RefreshPhase, e: RefreshEvent, now: u64, interval: u64) -> (
    r: RefreshStep)
    requires
        now + interval <= u64::MAX,
    ensures
        r.phase == spec_phase_after(p, e),
        r.phase == RefreshPhase::Sleeping && p != RefreshPhase::Sleeping ==> r.action
            == RefreshAction::Sleep && r.next_refresh_at == Some((now + interval) as u64),
        r.phase == RefreshPhase::Fetching && p == RefreshPhase::Sleeping ==> r.action
            == RefreshAction::Fetch && r.next_refresh_at is None,
        r.phase == RefreshPhase::Persisting && p == RefreshPhase::Fetching ==> r.action
            == RefreshAction::Persist && r.next_refresh_at is None,
        p == RefreshPhase::Persisting && r.phase == RefreshPhase::Invalidating ==> (match r.action {
            RefreshAction::Invalidate(ts) => ts@ == spec_tags_to_invalidate(d),
            _ => false,
        }) && r.next_refresh_at is None,
        r.phase == p && !(p == RefreshPhase::Sleeping && e == RefreshEvent::Woke) ==> r.action
            == RefreshAction::Ignore && r.next_refresh_at is None,
{
    match (p, e) {
        (RefreshPhase::Sleeping, RefreshEvent::Woke) => RefreshStep {
            phase: RefreshPhase::Fetching,
            action: RefreshAction::Fetch,
            next_refresh_at: None,
        },
        (RefreshPhase::Fetching, RefreshEvent::FetchOk) => RefreshStep {
            phase: RefreshPhase::Persisting,
            action: RefreshAction::Persist,
            next_refresh_at: None,
        },
        (RefreshPhase::Fetching, RefreshEvent::FetchFailed) => RefreshStep {
            phase: RefreshPhase::Sleeping,
            action: RefreshAction::Sleep,
            next_refresh_at: Some(now + interval),
        },
        (RefreshPhase::Persisting, RefreshEvent::PersistOk) => RefreshStep {
            phase: RefreshPhase::Invalidating,
            action: RefreshAction::Invalidate(tags_to_invalidate(d)),
            next_refresh_at: None,
        },
        (RefreshPhase::Persisting, RefreshEvent::PersistFailed) => RefreshStep {
            phase: RefreshPhase::Sleeping,
            action: RefreshAction::Sleep,
            next_refresh_at: Some(now + interval),
        },
        (RefreshPhase::Invalidating, RefreshEvent::Invalidated) => RefreshStep {
            phase: RefreshPhase::Sleeping,
            action: RefreshAction::Sleep,
            next_refresh_at: Some(now + interval),
        },
        _ => RefreshStep { phase: p, action: RefreshAction::Ignore, next_refresh_at: None },
    }
}

/// Seconds until the published next refresh, saturating at zero once the
/// moment has passed; what the stats endpoints report as the countdown.
pub fn time_until_refresh(next_refresh_at: u64, now: u64) -> (r: u64)
    ensures
        r == if next_refresh_at >= now {
            next_refresh_at - now
        } else {
            0
        },
{
    if next_refresh_at >= now {
        next_refresh_at - now
    } else {
        0
    }
}

/// Whether the low-frequency sweeper deletes a per-user row: only when its
/// last activity lies further back than the retention window.
pub fn should_evict_preferences(last_visited: u64, now: u64, retention: u64) -> (r: bool)
    ensures
        r == (now >= retention && last_visited < now - retention),
{
    now >= retention && last_visited < now - retention
}

} // verus!
