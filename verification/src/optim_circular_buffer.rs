//! The ring itself and the latency-engineering layer around it.

pub mod circular_buffer;
pub mod config;
pub mod delta_encoding;
pub mod header;
pub mod mock_process;
pub mod model;
pub mod numa_support;
pub mod os_optimization;
pub mod prefetch;
pub mod profiling;
pub mod rdma;

pub use circular_buffer::CircularBuffer;
