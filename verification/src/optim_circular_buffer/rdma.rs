//! Registration of the segment for remote direct memory access.
//!
//! Device setup is outside this library. What is decided here is whether a
//! registration is asked for and whether the region offered can be registered.

use vstd::prelude::*;
use super::config::RDMAConfig;

verus! {

/// Stands for one registration of a memory region.
#[derive(Debug)]
pub struct RDMAHandle {
    _dummy: usize,
}

impl RDMAHandle {
    /// The number a handle carries where device state would be kept.
    pub closed spec fn filler(&self) -> usize {
        self._dummy
    }

    /// A handle for a registration that has just been made. No device state
    /// is kept, and the number carried in its place is zero.
    pub fn new() -> (handle: RDMAHandle)
        ensures
            handle.filler() == 0,
    {
        RDMAHandle { _dummy: 0 }
    }
}

/// What `setup_rdma` decides for a region that starts at `address` and is
/// `size` bytes long: `Ok(false)` for no registration, `Ok(true)` for a
/// registration, or the error text.
pub open spec fn rdma_verdict(enable: bool, address: usize, size: usize) -> Result<bool, Seq<char>> {
    if !enable {
        Ok(false)
    } else if address == 0 || size == 0 {
        Err("Invalid memory region for RDMA registration"@)
    } else {
        Ok(true)
    }
}

/// Registers the region of `size` bytes at `address` for remote access if the
/// configuration asks for it.
///
/// Disabled: `Ok(None)`, whatever the region. Enabled: a null address or an
/// empty region is an error; any other region gets a fresh handle.
pub fn setup_rdma(cfg: &RDMAConfig, address: usize, size: usize) -> (result: Result<
    Option<RDMAHandle>,
    String,
>)
    ensures
        match rdma_verdict(cfg.enable, address, size) {
            Ok(registered) => result matches Ok(handle) && (handle is Some <==> registered) && (
            handle matches Some(made) ==> made.filler() == 0),
            Err(text) => result matches Err(message) && message@ == text,
        },
{
    if !cfg.enable {
        return Ok(None);
    }
    if address == 0 || size == 0 {
        return Err("Invalid memory region for RDMA registration".to_string());
    }
    Ok(Some(RDMAHandle::new()))
}

} // verus!
