//! The limit order book. Prices are in ticks.

use vstd::prelude::*;

verus! {

/// A limit order book. It keeps no price levels.
pub struct OrderBook {}

impl OrderBook {
    /// An empty book.
    pub fn new() -> (book: OrderBook) {
        OrderBook {  }
    }

    /// Applies a quote to the book. No level is kept, so the book stays empty.
    pub fn apply_quote(&mut self, _symbol: &str, _price: i64, _size: u64)
        ensures
            *final(self) == *old(self),
    {
    }

    /// Best bid and best ask of a symbol, each as price and size. The book is
    /// empty, so there is neither.
    pub fn best_bid_ask(&self, _symbol: &str) -> (best: (Option<(i64, u64)>, Option<(i64, u64)>))
        ensures
            best.0 is None,
            best.1 is None,
    {
        (None, None)
    }
}

} // verus!
