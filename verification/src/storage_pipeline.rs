//! Persistence of events off the hot path.

pub mod async_persist;
pub mod journal;
pub mod mem_mapped;
