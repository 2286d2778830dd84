//! Block ranges and their submit states.

use vstd::prelude::*;

verus! {

/// A DA block: a number and the inclusive range of transaction orders in it.
#[derive(Debug, Copy, Clone, PartialEq, Eq, Structural)]
pub struct BlockRange {
    pub block_number: u128,
    pub tx_order_start: u64,
    pub tx_order_end: u64,
}

/// A range is legal when it is not empty and ends at or before `last_order`.
pub open spec fn range_is_legal(r: BlockRange, last_order: u64) -> bool {
    r.tx_order_start <= r.tx_order_end && r.tx_order_end <= last_order
}

impl BlockRange {
    /// Whether the range is not empty and ends at or before `last_order`.
    pub fn is_legal(&self, last_order: u64) -> (r: bool)
        ensures
            r == range_is_legal(*self, last_order),
    {
        self.tx_order_start <= self.tx_order_end && self.tx_order_end <= last_order
    }
}

/// Whether a DA block has been submitted, with the hash of its batch once it has.
#[derive(Debug, Copy, Clone, PartialEq, Eq)]
pub struct BlockSubmitState {
    pub block_range: BlockRange,
    pub done: bool,
    pub batch_hash: Option<[u8; 32]>,
}

/// The state of a block that is waiting to be submitted.
pub open spec fn pending_state(block_number: u128, start: u64, end: u64) -> BlockSubmitState {
    BlockSubmitState {
        block_range: BlockRange { block_number, tx_order_start: start, tx_order_end: end },
        done: false,
        batch_hash: None,
    }
}

/// The state of a block whose batch has been submitted.
pub open spec fn done_state(block_number: u128, start: u64, end: u64, hash: [u8; 32]) -> BlockSubmitState {
    BlockSubmitState {
        block_range: BlockRange { block_number, tx_order_start: start, tx_order_end: end },
        done: true,
        batch_hash: Some(hash),
    }
}

impl BlockSubmitState {
    pub fn new(block_number: u128, tx_order_start: u64, tx_order_end: u64) -> (r: Self)
        ensures
            r == pending_state(block_number, tx_order_start, tx_order_end),
    {
        BlockSubmitState {
            block_range: BlockRange { block_number, tx_order_start, tx_order_end },
            done: false,
            batch_hash: None,
        }
    }

    pub fn new_done(block_number: u128, tx_order_start: u64, tx_order_end: u64, batch_hash: [u8; 32]) -> (r: Self)
        ensures
            r == done_state(block_number, tx_order_start, tx_order_end, batch_hash),
    {
        BlockSubmitState {
            block_range: BlockRange { block_number, tx_order_start, tx_order_end },
            done: true,
            batch_hash: Some(batch_hash),
        }
    }
}

} // verus!
