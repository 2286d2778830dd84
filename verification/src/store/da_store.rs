//! The DA meta store: the submit state of every DA block, the number of the
//! last block and the cursor of the background submitter, with the checks
//! that keep blocks contiguous and the procedures that repair them.

use crate::store::batch::{
    BlockRange, BlockSubmitState, done_state, pending_state, range_is_legal,
};
use crate::store::da_laws::lemma_submitting_blocks_sorted;
use std::collections::BTreeMap;
use vstd::prelude::*;

verus! {

broadcast use vstd::std_specs::btree::group_btree_axioms;

pub const SUBMITTING_BLOCKS_PAGE_SIZE: usize = 64;

/// At most this many transactions go into one block made while repairing.
pub const MAX_TXS_PER_BLOCK_IN_FIX: usize = 8192;

/// Why an operation on the DA meta store failed.
#[derive(Debug, Copy, Clone, PartialEq, Eq, Structural)]
pub enum DAStoreError {
    /// No submit state is stored for the block.
    BlockStateNotFound(u128),
    /// `tx_order_end` is before `tx_order_start`.
    InvalidTxOrderRange { tx_order_start: u64, tx_order_end: u64 },
    /// `tx_order_start` does not follow the last block's `tx_order_end`.
    DiscontinuousTxOrder { last_tx_order_end: u64, tx_order_start: u64 },
    /// A block breaks the order of transactions and fast fail was asked for.
    IllegalBlock { first_illegal: u128, last_order: u64, last_block_number: u128 },
}

/// The contents of the store.
pub ghost struct DAMeta {
    /// The submit state of each block, by block number.
    pub states: Map<u128, BlockSubmitState>,
    /// The number of the last block, if any block was made.
    pub last_block_number: Option<u128>,
    /// Blocks up to this number have been submitted, as the background submitter saw.
    pub background_cursor: Option<u128>,
}

/// The DA meta store.
pub struct DAMetaDBStore {
    block_submit_states: BTreeMap<u128, BlockSubmitState>,
    last_block_number: Option<u128>,
    background_submit_block_cursor: Option<u128>,
}

impl View for DAMetaDBStore {
    type V = DAMeta;

    closed spec fn view(&self) -> DAMeta {
        DAMeta {
            states: self.block_submit_states@,
            last_block_number: self.last_block_number,
            background_cursor: self.background_submit_block_cursor,
        }
    }
}

/// The result of reading a block's state that must exist.
pub open spec fn block_state_result(m: DAMeta, block_number: u128) -> Result<BlockSubmitState, DAStoreError> {
    if m.states.contains_key(block_number) {
        Ok(m.states[block_number])
    } else {
        Err(DAStoreError::BlockStateNotFound(block_number))
    }
}

/// The number the next appended block gets.
pub open spec fn next_block_number(last: Option<u128>) -> int {
    match last {
        Some(l) => l + 1,
        None => 0,
    }
}

/// The check made before a block with the given range is appended.
pub open spec fn check_append_result(m: DAMeta, last: Option<u128>, start: u64, end: u64) -> Result<(), DAStoreError> {
    if end < start {
        Err(DAStoreError::InvalidTxOrderRange { tx_order_start: start, tx_order_end: end })
    } else {
        match last {
            None => Ok(()),
            Some(l) => if !m.states.contains_key(l) {
                Err(DAStoreError::BlockStateNotFound(l))
            } else if m.states[l].block_range.tx_order_end + 1 != start {
                Err(
                    DAStoreError::DiscontinuousTxOrder {
                        last_tx_order_end: m.states[l].block_range.tx_order_end,
                        tx_order_start: start,
                    },
                )
            } else {
                Ok(())
            },
        }
    }
}

/// Each state is stored under its own block number.
pub open spec fn numbered_states(states: Map<u128, BlockSubmitState>) -> bool {
    forall|k: u128| states.contains_key(k) ==> (#[trigger] states[k]).block_range.block_number == k
}

impl DAMetaDBStore {
    /// Each stored state carries its own block number.
    #[verifier::type_invariant]
    spec fn states_numbered(self) -> bool {
        numbered_states(self.block_submit_states@)
    }

    /// Takes the states out of the store, leaving it with none.
    fn take_states(&mut self) -> (r: BTreeMap<u128, BlockSubmitState>)
        ensures
            r@ == old(self)@.states,
            numbered_states(r@),
            final(self)@ == (DAMeta { states: Map::empty(), ..old(self)@ }),
    {
        proof {
            use_type_invariant(&*self);
        }
        let mut states: BTreeMap<u128, BlockSubmitState> = BTreeMap::new();
        std::mem::swap(&mut states, &mut self.block_submit_states);
        states
    }

    /// Puts states into a store whose states were taken out.
    fn put_states(&mut self, states: BTreeMap<u128, BlockSubmitState>)
        requires
            numbered_states(states@),
        ensures
            final(self)@ == (DAMeta { states: states@, ..old(self)@ }),
    {
        self.block_submit_states = states;
    }

    /// An empty store.
    pub fn new() -> (r: Self)
        ensures
            r@.states == Map::<u128, BlockSubmitState>::empty(),
            r@.last_block_number is None,
            r@.background_cursor is None,
    {
        DAMetaDBStore {
            block_submit_states: BTreeMap::new(),
            last_block_number: None,
            background_submit_block_cursor: None,
        }
    }

    fn get_block_state_opt(&self, block_number: u128) -> (r: Option<BlockSubmitState>)
        ensures
            r == (if self@.states.contains_key(block_number) {
                Some(self@.states[block_number])
            } else {
                None::<BlockSubmitState>
            }),
    {
        match self.block_submit_states.get(&block_number) {
            Some(s) => Some(*s),
            None => None,
        }
    }

    /// The state of a block, which must be stored.
    pub fn get_block_state(&self, block_number: u128) -> (r: Result<BlockSubmitState, DAStoreError>)
        ensures
            r == block_state_result(self@, block_number),
    {
        match self.get_block_state_opt(block_number) {
            Some(s) => Ok(s),
            None => Err(DAStoreError::BlockStateNotFound(block_number)),
        }
    }

    /// The state of a block, if it is stored.
    pub fn try_get_block_state(&self, block_number: u128) -> (r: Option<BlockSubmitState>)
        ensures
            r == (if self@.states.contains_key(block_number) {
                Some(self@.states[block_number])
            } else {
                None::<BlockSubmitState>
            }),
    {
        self.get_block_state_opt(block_number)
    }

    pub fn get_last_block_number(&self) -> (r: Option<u128>)
        ensures
            r == self@.last_block_number,
    {
        self.last_block_number
    }

    pub fn get_background_submit_block_cursor(&self) -> (r: Option<u128>)
        ensures
            r == self@.background_cursor,
    {
        self.background_submit_block_cursor
    }

    pub fn set_background_submit_block_cursor(&mut self, cursor: u128)
        ensures
            final(self)@ == (DAMeta { background_cursor: Some(cursor), ..old(self)@ }),
    {
        proof {
            use_type_invariant(&*self);
        }
        self.background_submit_block_cursor = Some(cursor);
    }

    fn remove_background_submit_block_cursor(&mut self)
        ensures
            final(self)@ == (DAMeta { background_cursor: None, ..old(self)@ }),
    {
        proof {
            use_type_invariant(&*self);
        }
        self.background_submit_block_cursor = None;
    }

    /// Checks that a block with the range `[tx_order_start, tx_order_end]`
    /// may follow the block `last_block_number`.
    fn check_append(&self, last_block_number: Option<u128>, tx_order_start: u64, tx_order_end: u64) -> (r: Result<(), DAStoreError>)
        ensures
            r == check_append_result(self@, last_block_number, tx_order_start, tx_order_end),
    {
        if tx_order_end < tx_order_start {
            return Err(DAStoreError::InvalidTxOrderRange { tx_order_start, tx_order_end });
        }
        match last_block_number {
            None => Ok(()),
            Some(block_number) => {
                let last_block_state = self.get_block_state(block_number)?;
                let last_end = last_block_state.block_range.tx_order_end;
                if last_end as u128 + 1 != tx_order_start as u128 {
                    return Err(
                        DAStoreError::DiscontinuousTxOrder {
                            last_tx_order_end: last_end,
                            tx_order_start,
                        },
                    );
                }
                Ok(())
            },
        }
    }

    /// Appends a new block waiting to be submitted with the range
    /// `[tx_order_start, tx_order_end]`, and returns its number.
    pub fn append_submitting_block(&mut self, tx_order_start: u64, tx_order_end: u64) -> (r: Result<u128, DAStoreError>)
        requires
            old(self)@.last_block_number == Some(u128::MAX) ==> check_append_result(
                old(self)@,
                old(self)@.last_block_number,
                tx_order_start,
                tx_order_end,
            ) is Err,
        ensures
            match check_append_result(old(self)@, old(self)@.last_block_number, tx_order_start, tx_order_end) {
                Err(e) => r == Err::<u128, DAStoreError>(e) && final(self)@ == old(self)@,
                Ok(_) => {
                    let n = next_block_number(old(self)@.last_block_number);
                    &&& r == Ok::<u128, DAStoreError>(n as u128)
                    &&& final(self)@ == (DAMeta {
                        states: old(self)@.states.insert(n as u128, pending_state(n as u128, tx_order_start, tx_order_end)),
                        last_block_number: Some(n as u128),
                        ..old(self)@
                    })
                },
            },
    {
        let last_block_number = self.get_last_block_number();
        self.check_append(last_block_number, tx_order_start, tx_order_end)?;
        let block_number: u128 = match last_block_number {
            Some(last_block_number) => last_block_number + 1,
            None => 0,
        };
        let submit_state = BlockSubmitState::new(block_number, tx_order_start, tx_order_end);
        let mut states = self.take_states();
        states.insert(block_number, submit_state);
        self.put_states(states);
        self.last_block_number = Some(block_number);
        Ok(block_number)
    }

    /// Marks a block as submitted with the hash of its batch.
    pub fn set_submitting_block_done(&mut self, block_number: u128, tx_order_start: u64, tx_order_end: u64, batch_hash: [u8; 32])
        ensures
            final(self)@ == (DAMeta {
                states: old(self)@.states.insert(block_number, done_state(block_number, tx_order_start, tx_order_end, batch_hash)),
                ..old(self)@
            }),
    {
        let state = BlockSubmitState::new_done(block_number, tx_order_start, tx_order_end, batch_hash);
        let mut states = self.take_states();
        states.insert(block_number, state);
        self.put_states(states);
    }
}


/// The smaller of two integers.
pub open spec fn min_int(a: int, b: int) -> int {
    if a < b { a } else { b }
}

/// The blocks found when walking down from block `bn` while blocks end
/// after `last_order`: their numbers, highest first.
pub open spec fn remove_walk(states: Map<u128, BlockSubmitState>, bn: u128, last_order: u64) -> Result<Seq<u128>, DAStoreError>
    decreases bn,
{
    if !states.contains_key(bn) {
        Err(DAStoreError::BlockStateNotFound(bn))
    } else if states[bn].block_range.tx_order_end > last_order {
        if bn == 0 {
            Ok(seq![0u128])
        } else {
            match remove_walk(states, (bn - 1) as u128, last_order) {
                Ok(rest) => Ok(seq![bn] + rest),
                Err(e) => Err(e),
            }
        }
    } else {
        Ok(Seq::<u128>::empty())
    }
}

/// The blocks to remove so that no block ends after `last_order`, found by
/// walking down from the last block.
pub open spec fn remove_blocks_after_order_spec(m: DAMeta, last: Option<u128>, last_order: u64) -> Result<Seq<u128>, DAStoreError> {
    match last {
        Some(l) => remove_walk(m.states, l, last_order),
        None => Ok(Seq::<u128>::empty()),
    }
}

/// Prepends `p` to a successful result.
pub open spec fn prepend_ok<T>(p: Seq<T>, r: Result<Seq<T>, DAStoreError>) -> Result<Seq<T>, DAStoreError> {
    match r {
        Ok(s) => Ok(p + s),
        Err(e) => Err(e),
    }
}

/// Blocks that carry the transaction orders `start..=last_order`, at most
/// `MAX_TXS_PER_BLOCK_IN_FIX` per block, numbered from `first`.
pub open spec fn append_blocks_spec(first: int, start: int, last_order: int) -> Seq<BlockRange>
    decreases last_order - start + 1,
{
    if start > last_order {
        Seq::<BlockRange>::empty()
    } else {
        let end = min_int(start + MAX_TXS_PER_BLOCK_IN_FIX - 1, last_order);
        seq![BlockRange { block_number: first as u128, tx_order_start: start as u64, tx_order_end: end as u64 }]
            + append_blocks_spec(first + 1, end + 1, last_order)
    }
}

/// The blocks to append so that blocks reach `last_order`, following the
/// block `last` (or starting at order 1 with block 0).
pub open spec fn generate_append_blocks_spec(m: DAMeta, last: Option<u128>, last_order: u64) -> Result<Seq<BlockRange>, DAStoreError> {
    match last {
        None => Ok(append_blocks_spec(0, 1, last_order as int)),
        Some(l) => if !m.states.contains_key(l) {
            Err(DAStoreError::BlockStateNotFound(l))
        } else {
            Ok(append_blocks_spec(l + 1, m.states[l].block_range.tx_order_end + 1, last_order as int))
        },
    }
}

/// What must hold before blocks are generated after `last`: the last block
/// ends before `last_order`, and the numbers involved fit their types.
pub open spec fn append_blocks_bounds(m: DAMeta, last: Option<u128>, last_order: u64) -> bool {
    &&& last_order + MAX_TXS_PER_BLOCK_IN_FIX <= u64::MAX
    &&& match last {
        Some(l) => l + last_order + 2 <= u128::MAX && (m.states.contains_key(l)
            ==> m.states[l].block_range.tx_order_end < last_order),
        None => true,
    }
}

/// The states after inserting a pending state for each range, in order.
pub open spec fn insert_ranges(states: Map<u128, BlockSubmitState>, ranges: Seq<BlockRange>) -> Map<u128, BlockSubmitState>
    decreases ranges.len(),
{
    if ranges.len() == 0 {
        states
    } else {
        let r = ranges.last();
        insert_ranges(states, ranges.drop_last()).insert(
            r.block_number,
            pending_state(r.block_number, r.tx_order_start, r.tx_order_end),
        )
    }
}

/// The highest block number among non-empty ranges.
pub open spec fn max_block_number(ranges: Seq<BlockRange>) -> u128
    decreases ranges.len(),
{
    if ranges.len() <= 1 {
        ranges[0].block_number
    } else {
        let m = max_block_number(ranges.drop_last());
        if ranges.last().block_number > m { ranges.last().block_number } else { m }
    }
}

/// The store after appending pending blocks for the ranges.
pub open spec fn append_ranges_spec(m: DAMeta, ranges: Seq<BlockRange>) -> DAMeta {
    if ranges.len() == 0 {
        m
    } else {
        DAMeta {
            states: insert_ranges(m.states, ranges),
            last_block_number: Some(max_block_number(ranges)),
            ..m
        }
    }
}

/// The states after removing the blocks, in order.
pub open spec fn remove_all(states: Map<u128, BlockSubmitState>, rm: Seq<u128>) -> Map<u128, BlockSubmitState>
    decreases rm.len(),
{
    if rm.len() == 0 {
        states
    } else {
        remove_all(states, rm.drop_last()).remove(rm.last())
    }
}

/// The lowest number of a non-empty sequence.
pub open spec fn seq_min(s: Seq<u128>) -> u128
    decreases s.len(),
{
    if s.len() <= 1 {
        s[0]
    } else {
        let m = seq_min(s.drop_last());
        if s.last() < m { s.last() } else { m }
    }
}

/// The store after rolling back to just below the lowest removed block:
/// the blocks are removed, the last block number becomes the one below the
/// lowest removed block, and the background cursor is lowered to it (or
/// dropped when no block is left).
pub open spec fn rollback_spec(m: DAMeta, rm: Seq<u128>) -> DAMeta {
    if rm.len() == 0 {
        m
    } else {
        let mn = seq_min(rm);
        let states = remove_all(m.states, rm);
        if mn == 0 {
            DAMeta { states, last_block_number: None, background_cursor: None }
        } else {
            let nl = (mn - 1) as u128;
            DAMeta {
                states,
                last_block_number: Some(nl),
                background_cursor: match m.background_cursor {
                    Some(c) => if c > nl { Some(nl) } else { Some(c) },
                    None => None,
                },
            }
        }
    }
}

/// Scanning blocks `i..=last` for the first one that is not legal or does
/// not follow the previous block's end `prev_end`.
pub open spec fn first_illegal_scan(states: Map<u128, BlockSubmitState>, i: int, last: int, prev_end: int, last_order: u64) -> Result<Option<u128>, DAStoreError>
    decreases last - i + 1,
{
    if i > last {
        Ok(None)
    } else if !states.contains_key(i as u128) {
        Err(DAStoreError::BlockStateNotFound(i as u128))
    } else {
        let r = states[i as u128].block_range;
        if !range_is_legal(r, last_order) || r.tx_order_start != prev_end + 1 {
            Ok(Some(i as u128))
        } else {
            first_illegal_scan(states, i + 1, last, r.tx_order_end as int, last_order)
        }
    }
}

/// The first block in `0..=last` that is not legal, or does not start
/// right after the previous block's end.
pub open spec fn first_illegal_spec(m: DAMeta, last: u128, last_order: u64) -> Result<Option<u128>, DAStoreError> {
    if !m.states.contains_key(0) {
        Err(DAStoreError::BlockStateNotFound(0))
    } else if !range_is_legal(m.states[0].block_range, last_order) {
        Ok(Some(0))
    } else {
        first_illegal_scan(m.states, 1, last as int, m.states[0].block_range.tx_order_end as int, last_order)
    }
}

impl DAMetaDBStore {
    /// The blocks to remove, walking down from `last_block_number` while
    /// blocks end after `last_order`: their numbers, highest first.
    pub fn generate_remove_blocks_after_order(&self, last_block_number: Option<u128>, last_order: u64) -> (r: Result<Vec<u128>, DAStoreError>)
        ensures
            match remove_blocks_after_order_spec(self@, last_block_number, last_order) {
                Ok(s) => r matches Ok(v) && v@ == s,
                Err(e) => r == Err::<Vec<u128>, DAStoreError>(e),
            },
    {
        let mut blocks: Vec<u128> = Vec::new();
        if let Some(l) = last_block_number {
            let mut block_number: u128 = l;
            loop
                invariant
                    block_number <= l,
                    remove_walk(self@.states, l, last_order) == prepend_ok(
                        blocks@,
                        remove_walk(self@.states, block_number, last_order),
                    ),
                    last_block_number == Some(l),
                decreases block_number,
            {
                let ghost old_blocks = blocks@;
                let block_state = self.get_block_state(block_number)?;
                let block_range = block_state.block_range;
                if block_range.tx_order_end > last_order {
                    blocks.push(block_number);
                } else {
                    proof {
                        assert(blocks@ + Seq::<u128>::empty() =~= blocks@);
                    }
                    return Ok(blocks);
                }
                if block_number == 0 {
                    proof {
                        assert(blocks@ =~= blocks@.drop_last() + seq![0u128]);
                    }
                    return Ok(blocks);
                }
                proof {
                    let rest = remove_walk(self@.states, (block_number - 1) as u128, last_order);
                    assert(remove_walk(self@.states, block_number, last_order) == match rest {
                        Ok(t) => Ok(seq![block_number] + t),
                        Err(e) => Err(e),
                    });
                    match rest {
                        Ok(t) => {
                            assert(blocks@ == old_blocks.push(block_number));
                            assert(old_blocks + (seq![block_number] + t) =~= blocks@ + t);
                        },
                        Err(_) => {},
                    }
                }
                block_number = block_number - 1;
            }
        }
        Ok(blocks)
    }

    /// The blocks that bring the store up to `last_order` after the block
    /// `last_block_number`: contiguous orders, at most
    /// `MAX_TXS_PER_BLOCK_IN_FIX` per block, consecutive numbers.
    pub fn generate_append_blocks(&self, last_block_number: Option<u128>, last_order: u64) -> (r: Result<Vec<BlockRange>, DAStoreError>)
        requires
            append_blocks_bounds(self@, last_block_number, last_order),
        ensures
            match generate_append_blocks_spec(self@, last_block_number, last_order) {
                Ok(s) => r matches Ok(v) && v@ == s,
                Err(e) => r == Err::<Vec<BlockRange>, DAStoreError>(e),
            },
    {
        let max_txs: u64 = MAX_TXS_PER_BLOCK_IN_FIX as u64;
        let mut blocks: Vec<BlockRange> = Vec::new();
        let mut block_number: u128 = 0;
        let mut tx_order_start: u64 = 1;
        let mut tx_order_end: u64 = if max_txs < last_order { max_txs } else { last_order };
        if let Some(l) = last_block_number {
            let last_block_state = self.get_block_state(l)?;
            let last_range = last_block_state.block_range;
            block_number = l + 1;
            tx_order_start = last_range.tx_order_end + 1;
            tx_order_end = if tx_order_start + (max_txs - 1) < last_order {
                tx_order_start + (max_txs - 1)
            } else {
                last_order
            };
        }
        let ghost first = block_number as int;
        let ghost start0 = tx_order_start as int;
        let ghost total = append_blocks_spec(first, start0, last_order as int);
        assert(generate_append_blocks_spec(self@, last_block_number, last_order) == Ok::<Seq<BlockRange>, DAStoreError>(total));
        while tx_order_start <= last_order
            invariant
                max_txs == MAX_TXS_PER_BLOCK_IN_FIX,
                last_order + MAX_TXS_PER_BLOCK_IN_FIX <= u64::MAX,
                1 <= start0 <= tx_order_start <= last_order + 1,
                block_number - first <= tx_order_start - start0,
                first + last_order + 1 <= u128::MAX,
                tx_order_end == min_int(tx_order_start + MAX_TXS_PER_BLOCK_IN_FIX - 1, last_order as int),
                blocks@ + append_blocks_spec(block_number as int, tx_order_start as int, last_order as int) == total,
            decreases last_order + 1 - tx_order_start,
        {
            let range = BlockRange { block_number, tx_order_start, tx_order_end };
            proof {
                let rest = append_blocks_spec(block_number + 1, tx_order_end + 1, last_order as int);
                assert(append_blocks_spec(block_number as int, tx_order_start as int, last_order as int) == seq![range] + rest);
                assert(blocks@.push(range) + rest =~= blocks@ + (seq![range] + rest));
            }
            blocks.push(range);
            tx_order_start = tx_order_end + 1;
            tx_order_end = if tx_order_start + (max_txs - 1) < last_order {
                tx_order_start + (max_txs - 1)
            } else {
                last_order
            };
            block_number = block_number + 1;
        }
        proof {
            assert(blocks@ + Seq::<BlockRange>::empty() =~= blocks@);
        }
        Ok(blocks)
    }
}


/// The block numbers `first..=last`, in order.
pub open spec fn block_numbers_from(first: u128, last: u128) -> Seq<u128> {
    Seq::new((last - first + 1) as nat, |i: int| (first + i) as u128)
}

/// The outcome of repairing the tx orders: nothing to do without blocks or
/// when every block is legal; otherwise an error under fast fail, or a
/// rollback to just below the first illegal block.
pub open spec fn repair_orders_spec(m: DAMeta, last_order: u64, fast_fail: bool) -> Result<(DAMeta, nat), DAStoreError> {
    match m.last_block_number {
        None => Ok((m, 0)),
        Some(l) => match first_illegal_spec(m, l, last_order) {
            Err(e) => Err(e),
            Ok(None) => Ok((m, 0)),
            Ok(Some(f)) => if fast_fail {
                Err(DAStoreError::IllegalBlock { first_illegal: f, last_order, last_block_number: l })
            } else {
                Ok((rollback_spec(m, block_numbers_from(f, l)), (l - f + 1) as nat))
            },
        },
    }
}

/// Scanning blocks `b..=hi` while they are stored and submitted; the last
/// such block, or `acc` if there is none.
pub open spec fn max_submitted_scan(states: Map<u128, BlockSubmitState>, b: int, hi: int, acc: Option<u128>) -> Option<u128>
    decreases hi - b + 1,
{
    if b > hi {
        acc
    } else if states.contains_key(b as u128) && states[b as u128].done {
        max_submitted_scan(states, b + 1, hi, Some(b as u128))
    } else {
        acc
    }
}

/// The background cursor after its repair: kept when it is at or below
/// the lowest block to submit, else lowered to the highest block of an
/// unbroken run of submitted blocks from there, or dropped when there is none.
pub open spec fn repair_cursor_spec(m: DAMeta, da_min_block_to_submit: Option<u128>) -> DAMeta {
    match m.background_cursor {
        None => m,
        Some(c) => {
            let lo = match da_min_block_to_submit { Some(v) => v, None => 0 };
            if lo >= c {
                m
            } else {
                match max_submitted_scan(m.states, lo as int, c as int, None) {
                    Some(x) => if x != c { DAMeta { background_cursor: Some(x), ..m } } else { m },
                    None => DAMeta { background_cursor: None, ..m },
                }
            }
        },
    }
}

proof fn lemma_insert_ranges_push(states: Map<u128, BlockSubmitState>, ranges: Seq<BlockRange>, r: BlockRange)
    ensures
        insert_ranges(states, ranges.push(r)) == insert_ranges(states, ranges).insert(
            r.block_number,
            pending_state(r.block_number, r.tx_order_start, r.tx_order_end),
        ),
{
    assert(ranges.push(r).drop_last() =~= ranges);
}

proof fn lemma_max_block_number_push(ranges: Seq<BlockRange>, r: BlockRange)
    requires
        ranges.len() > 0,
    ensures
        max_block_number(ranges.push(r)) == (if r.block_number > max_block_number(ranges) {
            r.block_number
        } else {
            max_block_number(ranges)
        }),
{
    assert(ranges.push(r).drop_last() =~= ranges);
}

proof fn lemma_remove_all_push(states: Map<u128, BlockSubmitState>, rm: Seq<u128>, b: u128)
    ensures
        remove_all(states, rm.push(b)) == remove_all(states, rm).remove(b),
{
    assert(rm.push(b).drop_last() =~= rm);
}

proof fn lemma_seq_min_push(s: Seq<u128>, b: u128)
    requires
        s.len() > 0,
    ensures
        seq_min(s.push(b)) == (if b < seq_min(s) { b } else { seq_min(s) }),
{
    assert(s.push(b).drop_last() =~= s);
}

impl DAMetaDBStore {
    /// Stores a pending state for each range and makes the highest block
    /// number the last one.
    fn append_submitting_blocks(&mut self, ranges: Vec<BlockRange>)
        ensures
            final(self)@ == append_ranges_spec(old(self)@, ranges@),
    {
        if ranges.len() == 0 {
            return;
        }
        let mut max_number: u128 = ranges[0].block_number;
        let mut i: usize = 0;
        let mut states = self.take_states();
        while i < ranges.len()
            invariant
                0 <= i <= ranges@.len(),
                ranges@.len() > 0,
                states@ == insert_ranges(old(self)@.states, ranges@.take(i as int)),
                numbered_states(states@),
                self@.last_block_number == old(self)@.last_block_number,
                self@.background_cursor == old(self)@.background_cursor,
                i == 0 ==> max_number == ranges@[0].block_number,
                i > 0 ==> max_number == max_block_number(ranges@.take(i as int)),
            decreases ranges@.len() - i,
        {
            let r = ranges[i];
            proof {
                assert(ranges@.take(i + 1) =~= ranges@.take(i as int).push(r));
                lemma_insert_ranges_push(old(self)@.states, ranges@.take(i as int), r);
                if i > 0 {
                    lemma_max_block_number_push(ranges@.take(i as int), r);
                } else {
                    assert(ranges@.take(1) =~= seq![r]);
                }
            }
            states.insert(r.block_number, BlockSubmitState::new(r.block_number, r.tx_order_start, r.tx_order_end));
            if r.block_number > max_number {
                max_number = r.block_number;
            }
            i = i + 1;
        }
        proof {
            assert(ranges@.take(ranges@.len() as int) =~= ranges@);
        }
        self.put_states(states);
        self.last_block_number = Some(max_number);
    }

    /// Appends the blocks that bring the store up to `last_order` after
    /// `last_block_number`, and returns how many there were.
    fn append_block_by_repair(&mut self, last_block_number: Option<u128>, last_order: u64) -> (r: Result<usize, DAStoreError>)
        requires
            append_blocks_bounds(old(self)@, last_block_number, last_order),
        ensures
            match generate_append_blocks_spec(old(self)@, last_block_number, last_order) {
                Ok(s) => r == Ok::<usize, DAStoreError>(s.len() as usize) && final(self)@
                    == append_ranges_spec(old(self)@, s),
                Err(e) => r == Err::<usize, DAStoreError>(e) && final(self)@ == old(self)@,
            },
    {
        let block_ranges = self.generate_append_blocks(last_block_number, last_order)?;
        let append_count = block_ranges.len();
        self.append_submitting_blocks(block_ranges);
        Ok(append_count)
    }

    /// Rolls back to just below the lowest of `remove_blocks`: removes those
    /// blocks, makes the one below the last block (none if block 0 was
    /// removed) and lowers the background cursor to it.
    fn inner_rollback(&mut self, remove_blocks: Vec<u128>)
        ensures
            final(self)@ == rollback_spec(old(self)@, remove_blocks@),
    {
        if remove_blocks.len() == 0 {
            return;
        }
        let mut min_block: u128 = remove_blocks[0];
        let mut i: usize = 0;
        let mut states = self.take_states();
        while i < remove_blocks.len()
            invariant
                0 <= i <= remove_blocks@.len(),
                remove_blocks@.len() > 0,
                states@ == remove_all(old(self)@.states, remove_blocks@.take(i as int)),
                numbered_states(states@),
                self@.last_block_number == old(self)@.last_block_number,
                self@.background_cursor == old(self)@.background_cursor,
                i == 0 ==> min_block == remove_blocks@[0],
                i > 0 ==> min_block == seq_min(remove_blocks@.take(i as int)),
            decreases remove_blocks@.len() - i,
        {
            let b = remove_blocks[i];
            proof {
                assert(remove_blocks@.take(i + 1) =~= remove_blocks@.take(i as int).push(b));
                lemma_remove_all_push(old(self)@.states, remove_blocks@.take(i as int), b);
                if i > 0 {
                    lemma_seq_min_push(remove_blocks@.take(i as int), b);
                } else {
                    assert(remove_blocks@.take(1) =~= seq![b]);
                }
            }
            states.remove(&b);
            if b < min_block {
                min_block = b;
            }
            i = i + 1;
        }
        proof {
            assert(remove_blocks@.take(remove_blocks@.len() as int) =~= remove_blocks@);
        }
        self.put_states(states);
        if min_block == 0 {
            self.last_block_number = None;
            self.background_submit_block_cursor = None;
        } else {
            let new_last = min_block - 1;
            self.last_block_number = Some(new_last);
            if let Some(cursor) = self.background_submit_block_cursor {
                if cursor > new_last {
                    self.background_submit_block_cursor = Some(new_last);
                }
            }
        }
    }

    /// The first block in `0..=last_block_number` that is not legal or does
    /// not start right after the previous block's end.
    pub fn try_find_first_illegal(&self, last_block_number: u128, last_order: u64) -> (r: Result<Option<u128>, DAStoreError>)
        ensures
            r == first_illegal_spec(self@, last_block_number, last_order),
    {
        let block_0_range = self.get_block_state(0)?.block_range;
        if !block_0_range.is_legal(last_order) {
            return Ok(Some(0));
        }
        let mut last_block_tx_order_end: u64 = block_0_range.tx_order_end;
        if last_block_number == 0 {
            return Ok(None);
        }
        let mut i: u128 = 1;
        loop
            invariant
                1 <= i <= last_block_number,
                first_illegal_spec(self@, last_block_number, last_order) == first_illegal_scan(
                    self@.states,
                    i as int,
                    last_block_number as int,
                    last_block_tx_order_end as int,
                    last_order,
                ),
            decreases last_block_number - i,
        {
            let block_state = self.get_block_state(i)?;
            let block_range = BlockRange {
                block_number: i,
                tx_order_start: block_state.block_range.tx_order_start,
                tx_order_end: block_state.block_range.tx_order_end,
            };
            if !block_range.is_legal(last_order) {
                return Ok(Some(i));
            }
            if block_range.tx_order_start as u128 != last_block_tx_order_end as u128 + 1 {
                return Ok(Some(i));
            }
            last_block_tx_order_end = block_range.tx_order_end;
            if i == last_block_number {
                assert(first_illegal_scan(self@.states, i + 1, last_block_number as int, last_block_tx_order_end as int, last_order) == Ok::<Option<u128>, DAStoreError>(None));
                return Ok(None);
            }
            i = i + 1;
        }
    }

    /// Finds the first block that breaks the tx orders and rolls back to just
    /// below it (or fails when `fast_fail`); returns `(issues, fixed)`.
    pub fn try_repair_orders(&mut self, last_order: u64, fast_fail: bool) -> (r: Result<(usize, usize), DAStoreError>)
        requires
            old(self)@.last_block_number matches Some(l) ==> l < usize::MAX,
        ensures
            match repair_orders_spec(old(self)@, last_order, fast_fail) {
                Ok((m, n)) => r == Ok::<(usize, usize), DAStoreError>((n as usize, n as usize))
                    && final(self)@ == m,
                Err(e) => r == Err::<(usize, usize), DAStoreError>(e) && final(self)@ == old(self)@,
            },
    {
        let last_block_number = self.get_last_block_number();
        match last_block_number {
            None => Ok((0, 0)),
            Some(last_block_number) => {
                let first_illegal = self.try_find_first_illegal(last_block_number, last_order)?;
                match first_illegal {
                    None => Ok((0, 0)),
                    Some(first_illegal) => {
                        if fast_fail {
                            return Err(
                                DAStoreError::IllegalBlock {
                                    first_illegal,
                                    last_order,
                                    last_block_number,
                                },
                            );
                        }
                        let mut remove_blocks: Vec<u128> = Vec::new();
                        let mut b: u128 = first_illegal;
                        proof {
                            lemma_first_illegal_in_range(self@, last_block_number, last_order);
                        }
                        while b < last_block_number
                            invariant
                                first_illegal <= b <= last_block_number,
                                last_block_number < usize::MAX,
                                remove_blocks@ == block_numbers_from(first_illegal, last_block_number).take(
                                    (b - first_illegal) as int,
                                ),
                            decreases last_block_number - b,
                        {
                            proof {
                                assert(block_numbers_from(first_illegal, last_block_number).take((b + 1 - first_illegal) as int)
                                    =~= block_numbers_from(first_illegal, last_block_number).take((b - first_illegal) as int).push(b));
                            }
                            remove_blocks.push(b);
                            b = b + 1;
                        }
                        proof {
                            assert(block_numbers_from(first_illegal, last_block_number)
                                =~= block_numbers_from(first_illegal, last_block_number).take((b - first_illegal) as int).push(b));
                        }
                        remove_blocks.push(b);
                        let issues = remove_blocks.len();
                        self.inner_rollback(remove_blocks);
                        Ok((issues, issues))
                    },
                }
            },
        }
    }

    /// The highest block of the unbroken run of submitted blocks from `lo`
    /// within `lo..=hi`.
    fn search_max_submitted_block_number(&self, lo: u128, hi: u128) -> (r: Option<u128>)
        ensures
            r == max_submitted_scan(self@.states, lo as int, hi as int, None),
    {
        if lo > hi {
            return None;
        }
        let mut max_submitted_block_number: Option<u128> = None;
        let mut b: u128 = lo;
        loop
            invariant
                lo <= b <= hi,
                max_submitted_scan(self@.states, lo as int, hi as int, None) == max_submitted_scan(
                    self@.states,
                    b as int,
                    hi as int,
                    max_submitted_block_number,
                ),
            decreases hi - b,
        {
            match self.try_get_block_state(b) {
                Some(block_state) => {
                    if block_state.done {
                        max_submitted_block_number = Some(b);
                    } else {
                        return max_submitted_block_number;
                    }
                },
                None => {
                    return max_submitted_block_number;
                },
            }
            if b == hi {
                assert(max_submitted_scan(self@.states, b + 1, hi as int, max_submitted_block_number) == max_submitted_block_number);
                return max_submitted_block_number;
            }
            b = b + 1;
        }
    }

    /// Lowers the background cursor to the highest block actually submitted
    /// above `da_min_block_to_submit`, or drops it when none is.
    fn try_repair_background_submit_block_cursor(&mut self, da_min_block_to_submit_opt: Option<u128>)
        ensures
            final(self)@ == repair_cursor_spec(old(self)@, da_min_block_to_submit_opt),
    {
        let background_submit_block_cursor = self.get_background_submit_block_cursor();
        match background_submit_block_cursor {
            Some(background_submit_block_cursor) => {
                let da_min_block_to_submit = match da_min_block_to_submit_opt {
                    Some(v) => v,
                    None => 0,
                };
                if da_min_block_to_submit >= background_submit_block_cursor {
                } else {
                    let max_submitted_block_number = self.search_max_submitted_block_number(
                        da_min_block_to_submit,
                        background_submit_block_cursor,
                    );
                    if let Some(max_submitted_block_number) = max_submitted_block_number {
                        if max_submitted_block_number != background_submit_block_cursor {
                            self.set_background_submit_block_cursor(max_submitted_block_number);
                        }
                    } else {
                        self.remove_background_submit_block_cursor();
                    }
                }
            },
            None => {},
        }
    }
}

proof fn lemma_first_illegal_scan_in_range(states: Map<u128, BlockSubmitState>, i: int, last: int, prev_end: int, last_order: u64)
    requires
        0 <= i,
        last <= u128::MAX,
    ensures
        first_illegal_scan(states, i, last, prev_end, last_order) matches Ok(Some(f)) ==> i <= f <= last,
    decreases last - i + 1,
{
    if i <= last && states.contains_key(i as u128) {
        let r = states[i as u128].block_range;
        if range_is_legal(r, last_order) && r.tx_order_start == prev_end + 1 {
            lemma_first_illegal_scan_in_range(states, i + 1, last, r.tx_order_end as int, last_order);
        }
    }
}

proof fn lemma_first_illegal_in_range(m: DAMeta, last: u128, last_order: u64)
    ensures
        first_illegal_spec(m, last, last_order) matches Ok(Some(f)) ==> f <= last,
{
    if m.states.contains_key(0) && range_is_legal(m.states[0].block_range, last_order) {
        lemma_first_illegal_scan_in_range(m.states, 1, last as int, m.states[0].block_range.tx_order_end as int, last_order);
    }
}


/// How many block numbers there are up to the last block.
pub open spec fn block_count(last: Option<u128>) -> nat {
    match last {
        Some(l) => (l + 1) as nat,
        None => 0,
    }
}

/// The blocks found walking down from `bn` are `bn, bn - 1, ...`, at least
/// `bn` itself when it ends after `last_order`.
pub proof fn lemma_remove_walk_shape(states: Map<u128, BlockSubmitState>, bn: u128, last_order: u64)
    ensures
        remove_walk(states, bn, last_order) matches Ok(rm) ==> {
            &&& rm.len() <= bn + 1
            &&& forall|i: int| 0 <= i < rm.len() ==> #[trigger] rm[i] == bn - i
        },
        states.contains_key(bn) && states[bn].block_range.tx_order_end > last_order ==> (
        remove_walk(states, bn, last_order) matches Ok(rm) ==> rm.len() >= 1),
    decreases bn,
{
    if states.contains_key(bn) && states[bn].block_range.tx_order_end > last_order && bn > 0 {
        lemma_remove_walk_shape(states, (bn - 1) as u128, last_order);
        match remove_walk(states, (bn - 1) as u128, last_order) {
            Ok(rest) => {
                let rm = seq![bn] + rest;
                assert forall|i: int| 0 <= i < rm.len() implies #[trigger] rm[i] == bn - i by {
                    if i > 0 {
                        assert(rm[i] == rest[i - 1]);
                    }
                }
            },
            Err(_) => {},
        }
    }
}

/// The lowest of `top, top - 1, ...` is the last one.
pub proof fn lemma_seq_min_descending(s: Seq<u128>, top: int)
    requires
        s.len() >= 1,
        forall|i: int| 0 <= i < s.len() ==> #[trigger] s[i] == top - i,
    ensures
        seq_min(s) == top - s.len() + 1,
    decreases s.len(),
{
    if s.len() > 1 {
        let t = s.drop_last();
        assert forall|i: int| 0 <= i < t.len() implies #[trigger] t[i] == top - i by {
            assert(t[i] == s[i]);
        }
        lemma_seq_min_descending(t, top);
    }
}

/// The rollback after removing the walk from the last block lowers the
/// number of blocks.
pub proof fn lemma_rollback_walk_decreases(m: DAMeta, l: u128, last_order: u64)
    requires
        m.last_block_number == Some(l),
        m.states.contains_key(l),
        m.states[l].block_range.tx_order_end > last_order,
    ensures
        remove_walk(m.states, l, last_order) matches Ok(rm) ==> {
            &&& rm.len() >= 1
            &&& block_count(rollback_spec(m, rm).last_block_number) == l + 1 - rm.len()
        },
{
    lemma_remove_walk_shape(m.states, l, last_order);
    match remove_walk(m.states, l, last_order) {
        Ok(rm) => {
            lemma_seq_min_descending(rm, l as int);
        },
        Err(_) => {},
    }
}

/// What a repair did: the store afterwards, how many blocks it appended or
/// removed, and the error that stopped it, if one did.
pub ghost struct RepairOutcome {
    pub meta: DAMeta,
    pub count: nat,
    pub error: Option<DAStoreError>,
}

/// The outcome of repairing the blocks against `last_order`.
pub open spec fn repair_blocks_spec(m: DAMeta, last_order: u64) -> RepairOutcome
    decreases block_count(m.last_block_number),
{
    match m.last_block_number {
        Some(l) => if !m.states.contains_key(l) {
            RepairOutcome { meta: m, count: 0, error: Some(DAStoreError::BlockStateNotFound(l)) }
        } else {
            let end = m.states[l].block_range.tx_order_end;
            if last_order > end {
                let blocks = append_blocks_spec(l + 1, end + 1, last_order as int);
                RepairOutcome { meta: append_ranges_spec(m, blocks), count: blocks.len(), error: None }
            } else if last_order < end {
                match remove_walk(m.states, l, last_order) {
                    Err(e) => RepairOutcome { meta: m, count: 0, error: Some(e) },
                    Ok(rm) => {
                        let m2 = rollback_spec(m, rm);
                        proof {
                            lemma_rollback_walk_decreases(m, l, last_order);
                        }
                        let o = repair_blocks_spec(m2, last_order);
                        RepairOutcome { count: o.count + rm.len(), ..o }
                    },
                }
            } else {
                RepairOutcome { meta: m, count: 0, error: None }
            }
        },
        None => if last_order == 0 {
            RepairOutcome { meta: m, count: 0, error: None }
        } else {
            let blocks = append_blocks_spec(0, 1, last_order as int);
            RepairOutcome { meta: append_ranges_spec(m, blocks), count: blocks.len(), error: None }
        },
    }
}

/// The limits within which repairing the blocks does not overflow.
pub open spec fn repair_blocks_bounds(m: DAMeta, last_order: u64) -> bool {
    &&& last_order + MAX_TXS_PER_BLOCK_IN_FIX <= u64::MAX
    &&& m.last_block_number matches Some(l) ==> l + last_order + 2 <= u128::MAX
}

/// The outcome of a full repair: the tx orders first when `thorough`, then
/// the blocks unless `sync_mode`, then the background cursor; the count is
/// both the issues found and the issues fixed.
pub open spec fn repair_da_meta_spec(
    m: DAMeta,
    last_order: u64,
    thorough: bool,
    da_min_block_to_submit: Option<u128>,
    fast_fail: bool,
    sync_mode: bool,
) -> RepairOutcome {
    let o1 = if thorough {
        match repair_orders_spec(m, last_order, fast_fail) {
            Ok((m1, n)) => RepairOutcome { meta: m1, count: n, error: None },
            Err(e) => RepairOutcome { meta: m, count: 0, error: Some(e) },
        }
    } else {
        RepairOutcome { meta: m, count: 0, error: None }
    };
    if o1.error is Some {
        o1
    } else {
        let o2 = if !sync_mode {
            repair_blocks_spec(o1.meta, last_order)
        } else {
            RepairOutcome { meta: o1.meta, count: 0, error: None }
        };
        if o2.error is Some {
            RepairOutcome { count: o1.count + o2.count, ..o2 }
        } else {
            RepairOutcome {
                meta: repair_cursor_spec(o2.meta, da_min_block_to_submit),
                count: o1.count + o2.count,
                error: None,
            }
        }
    }
}

proof fn lemma_repair_orders_lowers_last(m: DAMeta, last_order: u64, fast_fail: bool)
    ensures
        repair_orders_spec(m, last_order, fast_fail) matches Ok((m1, n)) ==> block_count(
            m1.last_block_number,
        ) <= block_count(m.last_block_number),
{
    match m.last_block_number {
        Some(l) => {
            lemma_first_illegal_in_range(m, l, last_order);
            match first_illegal_spec(m, l, last_order) {
                Ok(Some(f)) => {
                    let rm = block_numbers_from(f, l);
                    if !fast_fail {
                        assert(rm[0] == f);
                        lemma_seq_min_ascending(rm, f as int);
                    }
                },
                _ => {},
            }
        },
        None => {},
    }
}

/// The lowest of `lo, lo + 1, ...` is the first one.
pub proof fn lemma_seq_min_ascending(s: Seq<u128>, lo: int)
    requires
        s.len() >= 1,
        forall|i: int| 0 <= i < s.len() ==> #[trigger] s[i] == lo + i,
    ensures
        seq_min(s) == lo,
    decreases s.len(),
{
    if s.len() > 1 {
        let t = s.drop_last();
        assert forall|i: int| 0 <= i < t.len() implies #[trigger] t[i] == lo + i by {
            assert(t[i] == s[i]);
        }
        lemma_seq_min_ascending(t, lo);
    }
}

impl DAMetaDBStore {
    /// Brings the blocks in line with `last_order`: appends blocks up to it
    /// when the last block ends before it, or removes the blocks that end
    /// after it and repairs again; adds the number of blocks appended or
    /// removed to both `issues` and `fixed`.
    pub fn try_repair_blocks(&mut self, last_order: u64, issues: usize, fixed: usize) -> (r: Result<(usize, usize), DAStoreError>)
        requires
            repair_blocks_bounds(old(self)@, last_order),
            issues + repair_blocks_spec(old(self)@, last_order).count <= usize::MAX,
            fixed + repair_blocks_spec(old(self)@, last_order).count <= usize::MAX,
        ensures
            final(self)@ == repair_blocks_spec(old(self)@, last_order).meta,
            match repair_blocks_spec(old(self)@, last_order).error {
                None => r == Ok::<(usize, usize), DAStoreError>(
                    (
                        (issues + repair_blocks_spec(old(self)@, last_order).count) as usize,
                        (fixed + repair_blocks_spec(old(self)@, last_order).count) as usize,
                    ),
                ),
                Some(e) => r == Err::<(usize, usize), DAStoreError>(e),
            },
        decreases block_count(old(self)@.last_block_number),
    {
        let last_block_number = self.get_last_block_number();
        match last_block_number {
            Some(last_block_number) => {
                let last_block_state = self.get_block_state(last_block_number)?;
                let last_block_order_end = last_block_state.block_range.tx_order_end;
                if last_order > last_block_order_end {
                    let append_count = self.append_block_by_repair(Some(last_block_number), last_order)?;
                    Ok((issues + append_count, fixed + append_count))
                } else if last_order < last_block_order_end {
                    let remove_blocks = self.generate_remove_blocks_after_order(
                        Some(last_block_number),
                        last_order,
                    )?;
                    let remove_blocks_len = remove_blocks.len();
                    proof {
                        lemma_rollback_walk_decreases(self@, last_block_number, last_order);
                    }
                    self.inner_rollback(remove_blocks);
                    self.try_repair_blocks(last_order, issues + remove_blocks_len, fixed + remove_blocks_len)
                } else {
                    Ok((issues, fixed))
                }
            },
            None => {
                if last_order == 0 {
                    Ok((issues, fixed))
                } else {
                    let append_count = self.append_block_by_repair(None, last_order)?;
                    Ok((issues + append_count, fixed + append_count))
                }
            },
        }
    }

    /// Repairs the store against `last_order`: the tx orders first when
    /// `thorough`, then the blocks unless `sync_mode` (no DA block is made
    /// then), then the background cursor; returns `(issues, fixed)`.
    pub fn try_repair_da_meta(
        &mut self,
        last_order: u64,
        thorough: bool,
        da_min_block_to_submit: Option<u128>,
        fast_fail: bool,
        sync_mode: bool,
    ) -> (r: Result<(usize, usize), DAStoreError>)
        requires
            repair_blocks_bounds(old(self)@, last_order),
            old(self)@.last_block_number matches Some(l) ==> l < usize::MAX,
            repair_da_meta_spec(old(self)@, last_order, thorough, da_min_block_to_submit, fast_fail, sync_mode).count
                <= usize::MAX,
        ensures
            ({
                let o = repair_da_meta_spec(old(self)@, last_order, thorough, da_min_block_to_submit, fast_fail, sync_mode);
                &&& final(self)@ == o.meta
                &&& match o.error {
                    None => r == Ok::<(usize, usize), DAStoreError>((o.count as usize, o.count as usize)),
                    Some(e) => r == Err::<(usize, usize), DAStoreError>(e),
                }
            }),
    {
        let mut issues: usize = 0;
        let mut fixed: usize = 0;
        proof {
            lemma_repair_orders_lowers_last(self@, last_order, fast_fail);
        }
        if thorough {
            let (order_issues, order_fixed) = self.try_repair_orders(last_order, fast_fail)?;
            issues = order_issues;
            fixed = order_fixed;
        }
        if !sync_mode {
            let (i, f) = self.try_repair_blocks(last_order, issues, fixed)?;
            issues = i;
            fixed = f;
        }
        self.try_repair_background_submit_block_cursor(da_min_block_to_submit);
        Ok((issues, fixed))
    }
}


/// The ranges of the blocks not yet submitted among the next `remaining`
/// blocks from `b`, stopping at the first block that is not stored.
pub open spec fn submitting_scan(states: Map<u128, BlockSubmitState>, b: int, remaining: nat) -> Seq<BlockRange>
    decreases remaining,
{
    if remaining == 0 || b < 0 || b > u128::MAX || !states.contains_key(b as u128) {
        Seq::<BlockRange>::empty()
    } else {
        let st = states[b as u128];
        let head = if !st.done { seq![st.block_range] } else { Seq::<BlockRange>::empty() };
        head + submitting_scan(states, b + 1, (remaining - 1) as nat)
    }
}

impl DAMetaDBStore {
    /// The blocks not yet submitted among the `exp_count` (64 when not given)
    /// blocks from `start_block`, stopping at the first block not stored;
    /// sorted by block number.
    pub fn get_submitting_blocks(&self, start_block: u128, exp_count: Option<usize>) -> (r: Vec<BlockRange>)
        ensures
            r@ == submitting_scan(
                self@.states,
                start_block as int,
                match exp_count {
                    Some(c) => c as nat,
                    None => SUBMITTING_BLOCKS_PAGE_SIZE as nat,
                },
            ),
            forall|i: int, j: int| 0 <= i < j < r@.len() ==> (#[trigger] r@[i]).block_number < (#[trigger] r@[j]).block_number,
    {
        proof {
            use_type_invariant(self);
            lemma_submitting_blocks_sorted(
                self@,
                start_block as int,
                match exp_count {
                    Some(c) => c as nat,
                    None => SUBMITTING_BLOCKS_PAGE_SIZE as nat,
                },
            );
        }
        let count = match exp_count {
            Some(c) => c,
            None => SUBMITTING_BLOCKS_PAGE_SIZE,
        };
        let mut blocks: Vec<BlockRange> = Vec::new();
        let mut k: usize = 0;
        while k < count
            invariant
                0 <= k <= count,
                count as nat == match exp_count {
                    Some(c) => c as nat,
                    None => SUBMITTING_BLOCKS_PAGE_SIZE as nat,
                },
                blocks@ + submitting_scan(self@.states, start_block + k, (count - k) as nat)
                    == submitting_scan(self@.states, start_block as int, count as nat),
                forall|i: int, j: int|
                    0 <= i < j < submitting_scan(self@.states, start_block as int, count as nat).len()
                        ==> (#[trigger] submitting_scan(self@.states, start_block as int, count as nat)[i]).block_number
                        < (#[trigger] submitting_scan(self@.states, start_block as int, count as nat)[j]).block_number,
            decreases count - k,
        {
            if start_block as u128 > u128::MAX - (k as u128) {
                proof {
                    assert(blocks@ + Seq::<BlockRange>::empty() =~= blocks@);
                }
                return blocks;
            }
            let b: u128 = start_block + k as u128;
            match self.try_get_block_state(b) {
                Some(state) => {
                    let ghost old_blocks = blocks@;
                    if !state.done {
                        blocks.push(
                            BlockRange {
                                block_number: state.block_range.block_number,
                                tx_order_start: state.block_range.tx_order_start,
                                tx_order_end: state.block_range.tx_order_end,
                            },
                        );
                    }
                    proof {
                        let rest = submitting_scan(self@.states, b + 1, (count - k - 1) as nat);
                        if !state.done {
                            assert(old_blocks + (seq![state.block_range] + rest) =~= blocks@ + rest);
                        } else {
                            assert(old_blocks + (Seq::<BlockRange>::empty() + rest) =~= blocks@ + rest);
                        }
                    }
                },
                None => {
                    proof {
                        assert(blocks@ + Seq::<BlockRange>::empty() =~= blocks@);
                    }
                    return blocks;
                },
            }
            k = k + 1;
        }
        proof {
            assert(blocks@ + Seq::<BlockRange>::empty() =~= blocks@);
        }
        blocks
    }
}

} // verus!
