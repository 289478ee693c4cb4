//! Queues that pass items between stages without blocking.

use vstd::prelude::*;

verus! {

/// A queue between two stages. It has no storage: whatever is pushed is
/// dropped, and there is never anything to pop.
pub struct LockFreeQueue<T> {
    _phantom: std::marker::PhantomData<T>,
}

impl<T> LockFreeQueue<T> {
    /// An empty queue.
    pub fn new() -> (queue: LockFreeQueue<T>) {
        LockFreeQueue { _phantom: std::marker::PhantomData }
    }

    /// Offers an item. The item is dropped.
    pub fn push(&self, _item: T) {
    }

    /// Takes the oldest item. There is never one.
    pub fn pop(&self) -> (item: Option<T>)
        ensures
            item is None,
    {
        None
    }
}

} // verus!
