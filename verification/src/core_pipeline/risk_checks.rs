//! Limits that every order must pass before it is sent.

use vstd::prelude::*;

verus! {

/// Checks orders against a size limit.
pub struct RiskChecker {
    max_order_size: u64,
}

impl RiskChecker {
    /// The largest order size this checker lets through.
    pub closed spec fn limit(&self) -> u64 {
        self.max_order_size
    }

    /// A checker that lets through orders of at most `max_order_size`.
    pub fn new(max_order_size: u64) -> (checker: RiskChecker)
        ensures
            checker.limit() == max_order_size,
    {
        RiskChecker { max_order_size }
    }

    /// Whether an order of `size` is within the limit.
    pub fn check_order_size(&self, size: u64) -> (within: bool)
        ensures
            within == (size <= self.limit()),
    {
        size <= self.max_order_size
    }
}

} // verus!
