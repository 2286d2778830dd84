//! The batch maker: groups consecutive transactions into DA blocks once a
//! batch has spanned the batch interval.

use crate::store::da_store::{DAMeta, DAMetaDBStore, DAStoreError, check_append_result, next_block_number};
use crate::store::batch::pending_state;
use crate::store::da_laws::{appended, blocks_contiguous, lemma_append_keeps_contiguous};
use vstd::prelude::*;

verus! {

/// How long a batch collects transactions before it is closed, in the unit
/// of the transaction timestamps (milliseconds).
pub const KANARI_BATCH_INTERVAL: u64 = 3_600_000;

/// The batch being collected: the range of orders in it and the timestamp of
/// its first transaction (0 while the batch is empty).
pub struct InProgressBatch {
    pub tx_order_start: u64,
    pub tx_order_end: u64,
    pub start_timestamp: u64,
}

/// The empty batch.
pub open spec fn empty_batch() -> InProgressBatch {
    InProgressBatch { tx_order_start: 0, tx_order_end: 0, start_timestamp: 0 }
}

/// A batch that begins with the transaction `tx_order` at `tx_timestamp`
/// (a timestamp of 0 counts as 1, so that the batch is not empty).
pub open spec fn begun_batch(tx_order: u64, tx_timestamp: u64) -> InProgressBatch {
    InProgressBatch {
        tx_order_start: tx_order,
        tx_order_end: tx_order,
        start_timestamp: if tx_timestamp == 0 { 1 } else { tx_timestamp },
    }
}

/// Whether a transaction at `tx_timestamp` closes a batch started at
/// `start`: it is not earlier, and at least the batch interval has passed.
pub open spec fn closes_batch(start: u64, tx_timestamp: u64) -> bool {
    tx_timestamp >= start && tx_timestamp - start >= KANARI_BATCH_INTERVAL
}

/// The batch after appending a transaction, and the range to make a block
/// of, if the batch is due: an empty batch begins with it; a transaction
/// whose order does not follow the batch is ignored; otherwise it extends
/// the batch, and the batch's range is returned when the transaction closes it.
pub open spec fn append_to_batch(b: InProgressBatch, tx_order: u64, tx_timestamp: u64) -> (InProgressBatch, Option<(u64, u64)>) {
    if b.start_timestamp == 0 {
        (begun_batch(tx_order, tx_timestamp), None)
    } else if tx_order != b.tx_order_end + 1 {
        (b, None)
    } else {
        let b2 = InProgressBatch { tx_order_end: tx_order, ..b };
        if closes_batch(b.start_timestamp, tx_timestamp) {
            (b2, Some((b.tx_order_start, tx_order)))
        } else {
            (b2, None)
        }
    }
}

impl InProgressBatch {
    /// A batch's orders run from its start to its end.
    pub open spec fn wf(&self) -> bool {
        self.tx_order_start <= self.tx_order_end
    }

    pub fn init() -> (r: Self)
        ensures
            r == empty_batch(),
    {
        InProgressBatch { tx_order_start: 0, tx_order_end: 0, start_timestamp: 0 }
    }

    pub fn reset(&mut self)
        ensures
            *final(self) == empty_batch(),
    {
        *self = Self::init();
    }

    /// Begins a new batch with the transaction `tx_order`.
    pub fn begin_with(&mut self, tx_order: u64, tx_timestamp: u64)
        ensures
            *final(self) == begun_batch(tx_order, tx_timestamp),
    {
        let mut tx_timestamp = tx_timestamp;
        if tx_timestamp == 0 {
            tx_timestamp = 1;
        }
        self.tx_order_start = tx_order;
        self.tx_order_end = tx_order;
        self.start_timestamp = tx_timestamp;
    }

    /// Appends a transaction to the batch and returns the batch's range when
    /// the batch is due.
    pub fn append_transaction(&mut self, tx_order: u64, tx_timestamp: u64) -> (r: Option<(u64, u64)>)
        ensures
            (*final(self), r) == append_to_batch(*old(self), tx_order, tx_timestamp),
    {
        if self.start_timestamp == 0 {
            self.begin_with(tx_order, tx_timestamp);
            return None;
        }
        let last_tx_order_end = self.tx_order_end;
        if tx_order as u128 != last_tx_order_end as u128 + 1 {
            return None;
        }
        self.tx_order_end = tx_order;
        if tx_timestamp < self.start_timestamp || tx_timestamp - self.start_timestamp < KANARI_BATCH_INTERVAL {
            return None;
        }
        Some((self.tx_order_start, self.tx_order_end))
    }
}

/// The transaction waiting to join a batch (order 0 means none).
pub struct PendingTx {
    pub tx_order: u64,
    pub tx_timestamp: u64,
}

impl PendingTx {
    pub fn new() -> (r: Self)
        ensures
            r.tx_order == 0 && r.tx_timestamp == 0,
    {
        PendingTx { tx_order: 0, tx_timestamp: 0 }
    }

    /// Drops the pending transaction if it is `tx_order`.
    pub fn revert(&mut self, tx_order: u64) -> (r: Result<(), BatchError>)
        ensures
            old(self).tx_order == tx_order ==> r is Ok && final(self).tx_order == 0
                && final(self).tx_timestamp == 0,
            old(self).tx_order != tx_order ==> r == Err::<(), BatchError>(
                BatchError::RevertNotPending { pending_tx_order: old(self).tx_order, revert_tx_order: tx_order },
            ) && *final(self) == *old(self),
    {
        let pending_tx_order = self.tx_order;
        if tx_order != pending_tx_order {
            return Err(BatchError::RevertNotPending { pending_tx_order, revert_tx_order: tx_order });
        }
        self.tx_order = 0;
        self.tx_timestamp = 0;
        Ok(())
    }

    /// Makes `tx_order` the pending transaction and returns the one it
    /// replaces, if there was one.
    pub fn push(&mut self, tx_order: u64, tx_timestamp: u64) -> (r: Option<PendingTx>)
        ensures
            final(self).tx_order == tx_order && final(self).tx_timestamp == tx_timestamp,
            old(self).tx_order == 0 ==> r is None,
            old(self).tx_order != 0 ==> (r matches Some(p) && p.tx_order == old(self).tx_order
                && p.tx_timestamp == old(self).tx_timestamp),
    {
        let old = if self.tx_order == 0 {
            None
        } else {
            Some(PendingTx { tx_order: self.tx_order, tx_timestamp: self.tx_timestamp })
        };
        self.tx_order = tx_order;
        self.tx_timestamp = tx_timestamp;
        old
    }
}

/// Why the batch maker refused a request.
#[derive(Debug, Copy, Clone, PartialEq, Eq, Structural)]
pub enum BatchError {
    /// The transaction to revert is not the pending one.
    RevertNotPending { pending_tx_order: u64, revert_tx_order: u64 },
}

/// Makes DA blocks out of the stream of transactions: each transaction waits
/// as pending until the next one arrives (so that it can still be reverted),
/// then joins the batch; a due batch becomes a block in the store.
pub struct BatchMaker {
    pending_tx: PendingTx,
    in_progress_batch: InProgressBatch,
    da_meta_store: DAMetaDBStore,
}

/// The batch and store after offering a batch's due range to the store:
/// when the store accepts the block, the batch is emptied; otherwise the
/// batch stays and nothing is made.
pub open spec fn add_range_to_store(batch: InProgressBatch, store: DAMeta, range: Option<(u64, u64)>) -> (InProgressBatch, DAMeta, Option<u128>) {
    match range {
        None => (batch, store, None),
        Some((s, e)) => if check_append_result(store, store.last_block_number, s, e) is Ok {
            let n = next_block_number(store.last_block_number) as u128;
            (
                empty_batch(),
                DAMeta {
                    states: store.states.insert(n, pending_state(n, s, e)),
                    last_block_number: Some(n),
                    ..store
                },
                Some(n),
            )
        } else {
            (batch, store, None)
        },
    }
}

/// Whether handing the transaction `tx` (order 0 for none) to the batch
/// would make a block after the store's last possible block number: the
/// batch is due and the store accepts the block.
pub open spec fn makes_block_past_max(batch: InProgressBatch, store: DAMeta, tx: (u64, u64)) -> bool {
    &&& tx.0 != 0
    &&& store.last_block_number == Some(u128::MAX)
    &&& append_to_batch(batch, tx.0, tx.1).1 matches Some((s, e))
    &&& check_append_result(store, store.last_block_number, s, e) is Ok
}

impl BatchMaker {
    pub closed spec fn pending(&self) -> (u64, u64) {
        (self.pending_tx.tx_order, self.pending_tx.tx_timestamp)
    }

    pub closed spec fn batch(&self) -> InProgressBatch {
        self.in_progress_batch
    }

    pub closed spec fn store(&self) -> DAMeta {
        self.da_meta_store@
    }

    /// A batch maker with nothing pending, an empty batch, and the given store.
    pub fn new(da_meta_store: DAMetaDBStore) -> (r: Self)
        ensures
            r.pending() == (0u64, 0u64),
            r.batch() == empty_batch(),
            r.store() == da_meta_store@,
    {
        BatchMaker { pending_tx: PendingTx::new(), in_progress_batch: InProgressBatch::init(), da_meta_store }
    }

    /// The store the blocks go to.
    pub fn da_meta_store(&self) -> (r: &DAMetaDBStore)
        ensures
            r@ == self.store(),
    {
        &self.da_meta_store
    }

    /// Makes `tx_order` pending; the transaction it replaces joins the batch,
    /// and the number of the block made is returned when the batch was due.
    pub fn append_transaction(&mut self, tx_order: u64, tx_timestamp: u64) -> (r: Option<u128>)
        requires
            !makes_block_past_max(old(self).batch(), old(self).store(), old(self).pending()),
        ensures
            final(self).pending() == (tx_order, tx_timestamp),
            old(self).pending().0 == 0 ==> r is None && final(self).batch() == old(self).batch()
                && final(self).store() == old(self).store(),
            old(self).pending().0 != 0 ==> {
                let (b1, range) = append_to_batch(old(self).batch(), old(self).pending().0, old(self).pending().1);
                let (b2, m2, made) = add_range_to_store(b1, old(self).store(), range);
                &&& final(self).batch() == b2
                &&& final(self).store() == m2
                &&& r == made
            },
    {
        if let Some(old) = self.pending_tx.push(tx_order, tx_timestamp) {
            if let Some(block_number) = self.add_to_batch(old.tx_order, old.tx_timestamp) {
                return Some(block_number);
            }
        }
        None
    }

    /// Drops the pending transaction if it is `tx_order`.
    pub fn revert_transaction(&mut self, tx_order: u64) -> (r: Result<(), BatchError>)
        ensures
            final(self).batch() == old(self).batch(),
            final(self).store() == old(self).store(),
            old(self).pending().0 == tx_order ==> r is Ok && final(self).pending() == (0u64, 0u64),
            old(self).pending().0 != tx_order ==> r == Err::<(), BatchError>(
                BatchError::RevertNotPending { pending_tx_order: old(self).pending().0, revert_tx_order: tx_order },
            ) && final(self).pending() == old(self).pending(),
    {
        self.pending_tx.revert(tx_order)
    }

    /// Adds a transaction to the batch, and makes a block of the batch in the
    /// store when it is due; returns the block's number.
    fn add_to_batch(&mut self, tx_order: u64, tx_timestamp: u64) -> (r: Option<u128>)
        requires
            tx_order != 0,
            !makes_block_past_max(old(self).batch(), old(self).store(), (tx_order, tx_timestamp)),
        ensures
            final(self).pending() == old(self).pending(),
            ({
                let (b1, range) = append_to_batch(old(self).batch(), tx_order, tx_timestamp);
                let (b2, m2, made) = add_range_to_store(b1, old(self).store(), range);
                &&& final(self).batch() == b2
                &&& final(self).store() == m2
                &&& r == made
            }),
    {
        let order_range = self.in_progress_batch.append_transaction(tx_order, tx_timestamp);
        if let Some((tx_order_start, tx_order_end)) = order_range {
            match self.da_meta_store.append_submitting_block(tx_order_start, tx_order_end) {
                Ok(block_number) => {
                    self.in_progress_batch.reset();
                    return Some(block_number);
                },
                Err(_e) => {},
            }
        }
        None
    }
}

/// A batch keeps its orders in range: appending a transaction to a batch
/// whose start is not after its end gives a batch that keeps this, and a
/// due range runs from the batch's start to the appended transaction.
pub proof fn lemma_batch_range_well_formed(b: InProgressBatch, tx_order: u64, tx_timestamp: u64)
    requires
        b.wf(),
    ensures
        append_to_batch(b, tx_order, tx_timestamp).0.wf(),
        append_to_batch(b, tx_order, tx_timestamp).1 matches Some((s, e)) ==> (s == b.tx_order_start
            && e == tx_order && s <= e),
{
}

/// Once a transaction is appended, the batch is never empty, and a batch is
/// only closed by a transaction at least the batch interval after its start.
pub proof fn lemma_batch_closes_after_interval(b: InProgressBatch, tx_order: u64, tx_timestamp: u64)
    ensures
        append_to_batch(b, tx_order, tx_timestamp).0.start_timestamp != 0,
        append_to_batch(b, tx_order, tx_timestamp).1 is Some ==> b.start_timestamp != 0
            && tx_timestamp >= b.start_timestamp + KANARI_BATCH_INTERVAL,
{
}

/// The batch maker keeps the store's blocks contiguous: whatever range a
/// batch hands it, the store after offering the range is contiguous again.
pub proof fn lemma_batch_maker_keeps_blocks_contiguous(batch: InProgressBatch, store: DAMeta, range: Option<(u64, u64)>)
    requires
        blocks_contiguous(store),
        store.last_block_number != Some(u128::MAX),
    ensures
        blocks_contiguous(add_range_to_store(batch, store, range).1),
{
    if let Some((s, e)) = range {
        if check_append_result(store, store.last_block_number, s, e) is Ok {
            lemma_append_keeps_contiguous(store, s, e);
            assert(add_range_to_store(batch, store, range).1 == appended(store, s, e));
        }
    }
}

/// A new batch maker holds nothing: on any store its first two appends may
/// be made, the transaction the second one hands on starts a batch, so
/// neither makes a block or changes the store (the first only makes its
/// transaction pending), and with nothing pending no order but 0 can be
/// reverted.
pub proof fn lemma_new_batch_maker_first_appends(m: DAMeta, o1: u64, t1: u64)
    ensures
        !makes_block_past_max(empty_batch(), m, (0u64, 0u64)),
        !makes_block_past_max(empty_batch(), m, (o1, t1)),
        ({
            let (b1, range) = append_to_batch(empty_batch(), o1, t1);
            let (b2, m2, made) = add_range_to_store(b1, m, range);
            &&& range is None
            &&& b1 == begun_batch(o1, t1)
            &&& m2 == m
            &&& made is None
        }),
{
}

} // verus!
