//! Cache prefetch hints. A hint has no functional effect; what is computed
//! here is where it points, so that the caller can issue it on hardware that
//! has the instruction and skip it elsewhere.

use vstd::prelude::*;

verus! {

/// The address `distance` bytes ahead of `address`, wrapping around the
/// address space.
pub open spec fn hint_address(address: usize, distance: usize) -> usize {
    if address + distance > usize::MAX {
        (address + distance - usize::MAX - 1) as usize
    } else {
        (address + distance) as usize
    }
}

/// Where to point a prefetch hint for an access at `address`: `distance`
/// bytes ahead when hints are enabled, nowhere when they are not. The target
/// need not lie inside anything; a hint never faults.
pub fn maybe_prefetch(address: usize, distance: usize, enabled: bool) -> (target: Option<usize>)
    ensures
        target == if enabled {
            Some(hint_address(address, distance))
        } else {
            None
        },
{
    if enabled {
        Some(address.wrapping_add(distance))
    } else {
        None
    }
}

} // verus!
