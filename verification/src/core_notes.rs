//! Shared vocabulary of the application: events, states and a counter sum.

pub mod events;
pub mod state;

use vstd::prelude::*;

verus! {

/// Sum of two counters.
pub fn add(left: u64, right: u64) -> (sum: u64)
    requires
        left + right <= u64::MAX,
    ensures
        sum == left + right,
{
    left + right
}

/// Does nothing; keeps the module from being empty for its users.
pub fn placeholder() {
}

} // verus!
