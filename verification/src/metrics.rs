//! Operation counters.

use vstd::prelude::*;

verus! {

/// A counter after one more event. Counters wrap at 2^64.
pub open spec fn bumped(count: u64) -> u64 {
    if count == u64::MAX {
        0
    } else {
        (count + 1) as u64
    }
}

/// A counter after `n` more events.
pub open spec fn bumped_by(count: u64, n: nat) -> u64
    decreases n,
{
    if n == 0 {
        count
    } else {
        bumped(bumped_by(count, (n - 1) as nat))
    }
}

/// Counts one more event.
pub fn bump(count: &mut u64)
    ensures
        *final(count) == bumped(*old(count)),
{
    if *count == u64::MAX {
        *count = 0;
    } else {
        *count = *count + 1;
    }
}

/// How often each operation succeeded, was refused while suspended, or
/// found nothing to act on.
#[derive(Clone, Copy, Debug, PartialEq, Eq, Structural)]
pub struct Metrics {
    pub successful_push_counter: u64,
    pub suspended_push_counter: u64,
    pub missing_push_counter: u64,
    pub successful_poll_counter: u64,
    pub suspended_poll_counter: u64,
    pub missing_poll_counter: u64,
    pub empty_poll_counter: u64,
    pub successful_update_counter: u64,
    pub suspended_update_counter: u64,
    pub missing_update_counter: u64,
    pub successful_delete_counter: u64,
    pub suspended_delete_counter: u64,
    pub missing_delete_counter: u64,
}

impl Metrics {
    /// All counters at zero.
    pub fn new() -> (m: Metrics)
        ensures
            m == Metrics::zero(),
    {
        Metrics {
            successful_push_counter: 0,
            suspended_push_counter: 0,
            missing_push_counter: 0,
            successful_poll_counter: 0,
            suspended_poll_counter: 0,
            missing_poll_counter: 0,
            empty_poll_counter: 0,
            successful_update_counter: 0,
            suspended_update_counter: 0,
            missing_update_counter: 0,
            successful_delete_counter: 0,
            suspended_delete_counter: 0,
            missing_delete_counter: 0,
        }
    }

    /// All counters at zero.
    pub open spec fn zero() -> Metrics {
        Metrics {
            successful_push_counter: 0,
            suspended_push_counter: 0,
            missing_push_counter: 0,
            successful_poll_counter: 0,
            suspended_poll_counter: 0,
            missing_poll_counter: 0,
            empty_poll_counter: 0,
            successful_update_counter: 0,
            suspended_update_counter: 0,
            missing_update_counter: 0,
            successful_delete_counter: 0,
            suspended_delete_counter: 0,
            missing_delete_counter: 0,
        }
    }
}

} // verus!
