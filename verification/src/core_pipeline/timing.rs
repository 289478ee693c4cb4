//! Timestamps and cache hints for the stages of the pipeline.

use vstd::prelude::*;

verus! {

/// The current value of the high-resolution counter. No counter is wired in:
/// the value is always zero.
pub fn timestamp() -> (ticks: u64)
    ensures
        ticks == 0,
{
    0
}

/// Asks for the cache line at `_address` to be loaded. No hint is issued.
pub fn prefetch(_address: usize) {
}

} // verus!
