//! Detection of optional CPU capabilities that hot paths may specialise on.

use vstd::prelude::*;

verus! {

/// Whether the processor offers the AVX vector extension.
///
/// No detection is wired in: every caller is told to take the portable path.
pub fn has_avx() -> (supported: bool)
    ensures
        !supported,
{
    false
}

} // verus!
