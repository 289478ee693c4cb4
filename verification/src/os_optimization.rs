//! Host tuning for the whole pipeline, on builds where NUMA binding is
//! always available.

use vstd::prelude::*;
use crate::optim_circular_buffer::config::OSOptimizationConfig;
use crate::optim_circular_buffer::os_optimization::{
    tuning_verdict, StepOutcome, TuningAction, TuningStep,
};

verus! {

/// Drives host tuning one measure at a time, with NUMA binding supported:
/// the next measure after `last`, `None` when tuning is complete, or the
/// error that ends startup.
pub fn apply_os_optimizations(
    cfg: &OSOptimizationConfig,
    last: Option<(TuningStep, StepOutcome)>,
) -> (result: Result<Option<TuningAction>, String>)
    ensures
        match tuning_verdict(*cfg, true, last) {
            Ok(None) => result matches Ok(None),
            Ok(Some(step)) => result matches Ok(Some(action)) && action.carries_out(*cfg, step),
            Err(text) => result matches Err(message) && message@ == text,
        },
{
    crate::optim_circular_buffer::os_optimization::apply_os_optimizations(cfg, true, last)
}

} // verus!
