//! Where market data enters: ingest, decoding and normalised messages.

pub mod message_types;
pub mod mock_data_gen;
pub mod network_ingest;
pub mod protocol_decode;
