//! Persistence through a memory-mapped file.

use vstd::prelude::*;

verus! {

/// Writes into a memory-mapped file.
pub struct MemMappedWriter {}

impl MemMappedWriter {
    /// A writer for the file at `_path`. No file is mapped.
    pub fn new(_path: &str) -> (writer: MemMappedWriter) {
        MemMappedWriter {  }
    }

    /// Writes `_data`. No file is mapped, so the data is dropped.
    pub fn write(&self, _data: &[u8]) {
    }
}

} // verus!
