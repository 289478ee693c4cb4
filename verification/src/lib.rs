//! Low-latency transport for time-series rows: a fixed-capacity ring of
//! fixed-width rows laid out in one contiguous segment, the per-column delta
//! codec that goes with it, and the decision logic for host tuning, remote
//! registration and latency profiling that surrounds the hot path. The
//! pipeline stages that feed the ring and drain it are present as interfaces.
//!
//! Values are 64-bit signed integers throughout: a price or a measurement is
//! carried as a count of ticks, so that every difference between two values
//! is exact. Privileged calls into the operating system, file output and
//! signal handling are left to the caller; the library decides, computes and
//! lays out bytes.

pub mod analytics_pipeline;
pub mod common;
pub mod config;
pub mod core_pipeline;
pub mod optim_circular_buffer;
pub mod os_optimization;
pub mod protocols;
pub mod reception_layer;
pub mod runtime;
pub mod storage_pipeline;
pub mod sys_pinning;
