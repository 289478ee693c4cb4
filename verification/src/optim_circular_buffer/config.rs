//! Configuration of a ring deployment, fixed for the lifetime of a segment.

use vstd::prelude::*;

verus! {

/// One column of a row: its label, its declared element type and whether its
/// cells are stored as differences from the previous row.
#[derive(Debug, Clone)]
pub struct ColumnConfig {
    pub name: String,
    pub element_type: String,
    pub delta_encoding: bool,
}

/// The shape of the ring: how many rows it holds and what a row is made of.
#[derive(Debug)]
pub struct BufferConfig {
    pub num_rows: usize,
    pub num_cols: usize,
    pub columns: Vec<ColumnConfig>,
}

/// Which host-level guarantees the deployment asks for before the hot path starts.
#[derive(Debug)]
pub struct OSOptimizationConfig {
    pub use_huge_pages: bool,
    pub lock_memory: bool,
    pub realtime_priority: i32,
    pub cpu_affinity: usize,
    pub numa_node: usize,
    pub disable_numa: bool,
}

/// Whether the segment is registered for remote direct memory access.
#[derive(Debug)]
pub struct RDMAConfig {
    pub enable: bool,
}

/// Cache prefetch hints: whether to issue them and how many bytes ahead.
#[derive(Debug)]
pub struct PrefetchingConfig {
    pub enabled: bool,
    pub distance: usize,
}

/// Latency recording: whether samples are kept and where the report goes.
#[derive(Debug)]
pub struct ProfilingConfig {
    pub enable: bool,
    pub output_path: String,
}

/// Everything a deployment is started with.
#[derive(Debug)]
pub struct Config {
    pub buffer: BufferConfig,
    pub os_optimization: OSOptimizationConfig,
    pub rdma: RDMAConfig,
    pub prefetching: PrefetchingConfig,
    pub profiling: ProfilingConfig,
}

} // verus!
