//! Addresses as plain values.

use vstd::prelude::*;

verus! {

/// A Bitcoin address, by its encoded bytes.
#[derive(Debug, Clone, PartialEq, Eq)]
pub struct BitcoinAddress {
    pub bytes: Vec<u8>,
}

/// A Kanari account address: its 32 bytes as two big-endian halves, which
/// order addresses as their bytes do.
#[derive(Debug, Clone, Copy, PartialEq, Eq, Structural, Hash)]
pub struct KanariAddress {
    pub high: u128,
    pub low: u128,
}

impl KanariAddress {
    /// The key that orders and finds the address.
    pub open spec fn key(self) -> (u128, u128) {
        (self.high, self.low)
    }
}

} // verus!
