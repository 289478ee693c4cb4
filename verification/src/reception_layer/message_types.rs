//! Normalised market messages. Prices are in ticks.

use vstd::prelude::*;

verus! {

/// One normalised market event.
#[derive(Debug)]
pub enum MarketMessage {
    Quote { symbol: String, price: i64, size: u64, timestamp: u64 },
    Trade { symbol: String, price: i64, size: u64, timestamp: u64 },
    OrderUpdate { symbol: String, order_id: u64, price: i64, size: u64, timestamp: u64 },
}

} // verus!
