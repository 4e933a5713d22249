//! How many deliveries are worked on at once.

use vstd::prelude::*;

verus! {

/// The number of deliveries to work on at once where `count` are asked for.
pub open spec fn prefetch_limit(count: u16) -> u16 {
    if count == 0 {
        1
    } else {
        count
    }
}

/// The prefetch limit to use where `count` is asked for: never less than one delivery.
pub fn clamp_prefetch(count: u16) -> (r: u16)
    ensures
        r == prefetch_limit(count),
        r >= 1,
        count >= 1 ==> r == count,
        count == 0 ==> r == 1,
{
    if count < 1 {
        1
    } else {
        count
    }
}

/// The prefetch limit is the smallest number that is neither less than what is asked for nor
/// less than one.
pub proof fn prefetch_limit_is_least(count: u16, other: u16)
    ensures
        prefetch_limit(count) >= count,
        prefetch_limit(count) >= 1,
        other >= count && other >= 1 ==> prefetch_limit(count) <= other,
{
}

} // verus!
