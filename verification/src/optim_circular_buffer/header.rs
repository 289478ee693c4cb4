//! A segment header that carries the length of an embedded configuration and
//! a lock mode beside the write cursor.

use vstd::prelude::*;

verus! {

/// Header of a segment whose configuration follows it in the segment.
#[derive(Debug, Clone, Copy, PartialEq, Eq, Structural)]
pub struct SharedHeader {
    /// Length in bytes of the configuration that follows the header.
    pub config_len: usize,
    /// Number of rows ever written.
    pub head: usize,
    /// 1 when writers take a lock, 0 when they do not.
    pub lock_mode: u8,
}

impl SharedHeader {
    /// The header of a segment before the first write.
    pub fn new(config_len: usize, locked: bool) -> (header: SharedHeader)
        ensures
            header.config_len == config_len,
            header.head == 0,
            header.lock_mode == if locked {
                1u8
            } else {
                0u8
            },
    {
        SharedHeader {
            config_len,
            head: 0,
            lock_mode: if locked {
                1
            } else {
                0
            },
        }
    }
}

} // verus!
