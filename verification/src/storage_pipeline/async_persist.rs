//! Background persistence.

use vstd::prelude::*;

verus! {

/// Drains events to storage in the background.
pub struct AsyncPersist {}

impl AsyncPersist {
    /// A persister that has not been started.
    pub fn new() -> (persist: AsyncPersist) {
        AsyncPersist {  }
    }

    /// Starts draining. There is no queue to drain, so nothing is started.
    pub fn start(&self) {
    }
}

} // verus!
