//! Time as the editor's panes see it: a count of milliseconds on a clock
//! that never runs backward. The caller reads the clock and passes the
//! reading in.

use vstd::prelude::*;

verus! {

/// The time that has passed between two clock readings; none where the
/// second is the earlier one.
pub open spec fn elapsed(since: u64, now: u64) -> int {
    if now >= since {
        now - since
    } else {
        0
    }
}

/// Computes the time that has passed between two clock readings.
pub fn elapsed_since(since: u64, now: u64) -> (passed: u64)
    ensures
        passed == elapsed(since, now),
{
    if now >= since {
        now - since
    } else {
        0
    }
}

} // verus!
