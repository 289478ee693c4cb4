//! The stages between reception and storage: book keeping, matching, risk
//! limits and the plumbing between them.

pub mod allocators;
pub mod lock_free_queues;
pub mod match_engine;
pub mod order_book;
pub mod risk_checks;
pub mod timing;
