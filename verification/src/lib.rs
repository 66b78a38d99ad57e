pub mod apps;
pub mod common;
pub mod database;
pub mod resource;
pub mod router;

use vstd::prelude::*;

verus! {

/// Adds two counters.
pub fn add(left: u64, right: u64) -> (sum: u64)
    requires
        left + right <= u64::MAX,
    ensures
        sum == left + right,
{
    left + right
}

} // verus!
