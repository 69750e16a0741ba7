//! Figures derived from a session: the projected number of successes and the
//! time since the last one.
use vstd::prelude::*;
use crate::timekeeping::remaining_secs;

verus! {

/// The projected number of successes at the end of a session of `duration`
/// seconds, after `successes` of them in `elapsed` seconds: the count so far
/// plus the whole successes that the same rate gives over the time left.
/// There is no projection before the first success or at time zero.
pub open spec fn pace_projection(successes: nat, elapsed: nat, duration: nat) -> Option<nat> {
    if successes == 0 || elapsed == 0 {
        None
    } else {
        Some(successes + successes * remaining_secs(elapsed, duration) / elapsed)
    }
}

/// Seconds from `then` to `now`, or zero when `then` lies after `now`.
pub open spec fn seconds_between(then: nat, now: nat) -> nat {
    if then >= now {
        0
    } else {
        (now - then) as nat
    }
}

/// Projects the number of successes at the end of the session from the rate
/// so far, in whole successes.
pub fn project_total(successes: usize, elapsed: u32, duration: u32) -> (r: Option<u128>)
    ensures
        r matches Some(v) ==> pace_projection(successes as nat, elapsed as nat, duration as nat)
            == Some(v as nat),
        r is None ==> pace_projection(successes as nat, elapsed as nat, duration as nat) is None,
{
    if successes == 0 || elapsed == 0 {
        return None;
    }
    let remaining = duration.saturating_sub(elapsed);
    let n = successes as u128;
    assert(n * remaining <= 0x1_0000_0000_0000_0000u128 * 0x1_0000_0000u128) by (nonlinear_arith)
        requires
            n < 0x1_0000_0000_0000_0000u128,
            remaining < 0x1_0000_0000u128,
    ;
    let extra = n * (remaining as u128) / (elapsed as u128);
    assert(extra <= n * remaining) by (nonlinear_arith)
        requires
            extra == n * remaining / (elapsed as int),
            elapsed >= 1,
            n * remaining >= 0,
    ;
    Some(n + extra)
}

} // verus!
