//! Decoding of raw packets into normalised messages.

use vstd::prelude::*;
use super::message_types::MarketMessage;

verus! {

/// Turns raw packets into market messages.
pub struct ProtocolDecoder;

impl ProtocolDecoder {
    /// A decoder with no protocol loaded.
    pub fn new() -> (decoder: ProtocolDecoder) {
        ProtocolDecoder
    }

    /// Decodes one packet. With no protocol loaded no packet is understood.
    pub fn decode(&self, _raw: &[u8]) -> (message: Option<MarketMessage>)
        ensures
            message is None,
    {
        None
    }
}

} // verus!
