//! Simple Binary Encoding messages.

use vstd::prelude::*;

verus! {

/// Decoder for Simple Binary Encoding.
pub struct SBEProtocol;

impl SBEProtocol {
    /// Decodes the fields of one message. No schema is loaded, so nothing is
    /// extracted.
    pub fn decode(_data: &[u8]) {
    }
}

} // verus!
