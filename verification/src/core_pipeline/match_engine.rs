//! Matching of incoming orders against the order book.

use vstd::prelude::*;
use super::order_book::OrderBook;

verus! {

/// Matches orders against one order book.
pub struct MatchEngine<'a> {
    _order_book: &'a mut OrderBook,
}

impl<'a> MatchEngine<'a> {
    /// An engine over `order_book`.
    pub fn new(order_book: &'a mut OrderBook) -> (engine: MatchEngine<'a>) {
        MatchEngine { _order_book: order_book }
    }

    /// Matches an order and gives the trade as price and size. The book holds
    /// no resting orders, so nothing ever trades.
    pub fn match_order(&mut self, _symbol: &str, _size: u64, _is_buy: bool) -> (trade: Option<
        (i64, u64),
    >)
        ensures
            trade is None,
    {
        None
    }
}

} // verus!
