//! Offline statistics over recorded data.

use vstd::prelude::*;

verus! {

/// Entry point for offline statistics. It holds no data of its own.
pub struct Statistics {}

impl Statistics {
    /// A statistics engine with nothing loaded.
    pub fn new() -> (statistics: Statistics) {
        Statistics {  }
    }

    /// Runs the offline computations. With nothing loaded there is nothing to do.
    pub fn compute(&self) {
    }
}

} // verus!
