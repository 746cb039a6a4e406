//! Memory-mapped register writes computed by the drivers.  The driver code
//! decides which register gets which value; the caller performs the store.
use vstd::prelude::*;

verus! {

/// A 64-bit store of `value` at physical address `address`.
#[derive(Debug, Clone, Copy, PartialEq, Eq, Structural)]
pub struct MmioWrite64 {
    pub address: u64,
    pub value: u64,
}

/// A 32-bit store of `value` at physical address `address`.
#[derive(Debug, Clone, Copy, PartialEq, Eq, Structural)]
pub struct MmioWrite32 {
    pub address: u64,
    pub value: u32,
}

} // verus!
