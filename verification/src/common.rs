//! Helpers shared by every pipeline stage.

pub mod byte_utils;
pub mod cpu_features;
