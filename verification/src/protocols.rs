//! Wire protocols.

pub mod sbe_protocol;
