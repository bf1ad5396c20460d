//! Wall-clock time.

use vstd::prelude::*;

verus! {

/// Calls `chrono::Utc::now` and takes the `timestamp` of the result.
///
/// Trusted: the call returns. Nothing is claimed of the value, which is
/// whatever the system clock says, in whole seconds since the Unix epoch.
#[verifier::external_body]
pub(crate) fn now_secs() -> (now: i64) {
    chrono::Utc::now().timestamp()
}

/// `now + timeout_secs`, where that is a representable timestamp.
pub open spec fn visible_at(now: i64, timeout_secs: i64) -> Option<i64> {
    if i64::MIN <= now + timeout_secs <= i64::MAX {
        Some((now + timeout_secs) as i64)
    } else {
        None
    }
}

/// The instant `timeout_secs` after `now`, or `None` where it does not fit
/// in a 64-bit timestamp.
pub fn visible_time(now: i64, timeout_secs: i64) -> (at: Option<i64>)
    ensures
        at == visible_at(now, timeout_secs),
{
    now.checked_add(timeout_secs)
}

} // verus!
