//! Reception of raw packets from an exchange endpoint.

use vstd::prelude::*;

verus! {

/// A connection to one exchange endpoint.
pub struct NetworkIngest;

impl NetworkIngest {
    /// An ingest for `_endpoint`. No connection is opened.
    pub fn new(_endpoint: &str) -> (ingest: NetworkIngest) {
        NetworkIngest
    }

    /// The next packet that has arrived. Without a connection there is never one.
    pub fn poll_data(&mut self) -> (packet: Option<&[u8]>)
        ensures
            packet is None,
    {
        None
    }
}

} // verus!
