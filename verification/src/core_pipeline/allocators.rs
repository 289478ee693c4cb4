//! Memory allocation strategy of the pipeline.

use vstd::prelude::*;

verus! {

/// Installs the allocation strategy of the pipeline. The system allocator is
/// kept, so nothing is done.
pub fn init_custom_allocator() {
}

} // verus!
