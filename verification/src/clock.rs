//! Time as milliseconds on a monotonic clock, and the expiry rule: a path
//! is expired when more than the configured timeout has passed since it
//! last received a datagram.

use vstd::prelude::*;

verus! {

/// Milliseconds elapsed from `last` to `now`; zero if `last` lies ahead of
/// `now`, as a monotonic clock difference saturates.
pub open spec fn spec_elapsed_ms(now: u64, last: u64) -> int {
    if now >= last {
        now - last
    } else {
        0
    }
}

pub fn elapsed_ms(now: u64, last: u64) -> (r: u64)
    ensures
        r == spec_elapsed_ms(now, last),
{
    if now >= last {
        now - last
    } else {
        0
    }
}

/// More than `timeout_secs` seconds have passed since `last`.
pub open spec fn spec_expired(now: u64, last: u64, timeout_secs: u64) -> bool {
    spec_elapsed_ms(now, last) > timeout_secs * 1000
}

pub fn is_expired(now: u64, last: u64, timeout_secs: u64) -> (r: bool)
    ensures
        r == spec_expired(now, last, timeout_secs),
{
    let elapsed: u128 = elapsed_ms(now, last) as u128;
    let limit: u128 = (timeout_secs as u128) * 1000;
    elapsed > limit
}

} // verus!
