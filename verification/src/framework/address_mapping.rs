//! The address mapping objects of the Kanari framework.

use vstd::prelude::*;

verus! {

/// The object that maps multichain addresses to Kanari addresses.
#[derive(Debug, Clone, Copy, Default, PartialEq, Eq, Structural)]
pub struct MultiChainAddressMapping {
    _placeholder: bool,
}

/// The object that maps Kanari addresses to Bitcoin addresses.
#[derive(Debug, Clone, Copy, Default, PartialEq, Eq, Structural)]
pub struct KanariToBitcoinAddressMapping {
    _placeholder: bool,
}

} // verus!
