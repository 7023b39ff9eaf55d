//! The rate-limit governor.
//!
//! Every endpoint response carries a snapshot of the remaining call
//! budget. After each page the crawl loop asks the governor whether to
//! suspend; the governor answers with a wait in seconds when the budget
//! is exhausted, and the caller sleeps that long before the next fetch.

use vstd::prelude::*;

verus! {

/// Seconds added past the advertised reset instant, so that clock skew or
/// a race on the reset boundary cannot produce an immediate second
/// over-limit refusal.
pub const RATE_LIMIT_MARGIN_SECONDS: u64 = 10;

/// The call-budget snapshot attached to an endpoint response: calls left
/// in the window, the window's total budget, and the epoch second at
/// which the window resets.
#[derive(Clone, Copy, Debug, PartialEq, Eq, Structural)]
pub struct RateLimit {
    pub limit: i32,
    pub remaining: i32,
    pub reset: i32,
}

/// How long a phase must suspend after seeing `limit` at epoch second
/// `now`: nothing while budget remains, else until the window resets,
/// plus the safety margin, and never less than the margin itself.
pub open spec fn spec_wait_seconds(limit: RateLimit, now: i64) -> Option<u64> {
    if limit.remaining <= 1 {
        if limit.reset > now {
            Some((limit.reset - now + RATE_LIMIT_MARGIN_SECONDS) as u64)
        } else {
            Some(RATE_LIMIT_MARGIN_SECONDS)
        }
    } else {
        None
    }
}

/// The governor's decision after one page fetch.
pub fn wait_seconds(limit: &RateLimit, now: i64) -> (r: Option<u64>)
    requires
        now >= 0,
    ensures
        r == spec_wait_seconds(*limit, now),
{
    if limit.remaining <= 1 {
        let reset: i64 = limit.reset as i64;
        if reset > now {
            Some((reset - now) as u64 + RATE_LIMIT_MARGIN_SECONDS)
        } else {
            Some(RATE_LIMIT_MARGIN_SECONDS)
        }
    } else {
        None
    }
}

/// An exhausted budget suspends the phase until the window resets: with
/// one call or less left, the wait runs from `now` to the reset instant
/// plus the safety margin.
pub proof fn lemma_exhausted_budget_suspends(limit: RateLimit, now: i64)
    requires
        now >= 0,
        limit.remaining <= 1,
        limit.reset > now,
    ensures
        spec_wait_seconds(limit, now) == Some(
            (limit.reset - now + RATE_LIMIT_MARGIN_SECONDS) as u64,
        ),
{
}

/// A budget with calls to spare never suspends the phase.
pub proof fn lemma_remaining_budget_runs_on(limit: RateLimit, now: i64)
    requires
        now >= 0,
        limit.remaining >= 2,
    ensures
        spec_wait_seconds(limit, now).is_none(),
{
}

} // verus!
