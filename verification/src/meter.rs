//! The storage meter: turns a count of persisted bytes into a value cost at a
//! fixed price per byte. Measuring the byte count itself is a host primitive
//! (the host reports its usage before and after an operation); the core only
//! prices the counts it is handed.

use vstd::prelude::*;

verus! {

/// Value units charged for each byte of persistent storage.
pub const STORAGE_PRICE_PER_BYTE: u128 = 10_000_000_000_000_000_000;

/// The value cost of `bytes` bytes of storage.
pub open spec fn storage_cost_spec(bytes: u64) -> int {
    bytes * STORAGE_PRICE_PER_BYTE
}

/// Prices a byte count. The product always fits in 128 bits: even the largest
/// byte count priced at `STORAGE_PRICE_PER_BYTE` stays under `u128::MAX`.
pub fn storage_cost(bytes: u64) -> (r: u128)
    ensures
        r == storage_cost_spec(bytes),
{
    proof {
        assert((bytes as int) * (STORAGE_PRICE_PER_BYTE as int) <= (u64::MAX as int) * (
        STORAGE_PRICE_PER_BYTE as int)) by (nonlinear_arith)
            requires
                bytes as int <= u64::MAX as int,
        ;
    }
    (bytes as u128) * STORAGE_PRICE_PER_BYTE
}

} // verus!
