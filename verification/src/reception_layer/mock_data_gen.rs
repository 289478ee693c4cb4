//! Synthetic market data packets.

use vstd::prelude::*;

verus! {

/// Produces synthetic packets.
pub struct MockDataGenerator {}

impl MockDataGenerator {
    /// A generator in its initial state.
    pub fn new() -> (generator: MockDataGenerator) {
        MockDataGenerator {  }
    }

    /// The next packet: always the three bytes `01 02 03`.
    pub fn generate(&mut self) -> (packet: Vec<u8>)
        ensures
            packet@ == seq![1u8, 2u8, 3u8],
    {
        let mut packet: Vec<u8> = Vec::new();
        packet.push(1);
        packet.push(2);
        packet.push(3);
        proof {
            assert(packet@ =~= seq![1u8, 2u8, 3u8]);
        }
        packet
    }
}

} // verus!
