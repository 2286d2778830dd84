use kanari::da::openda::{derive_identifier, OpenDAScheme};
use kanari::da::batcher::{BatchError, BatchMaker, InProgressBatch, PendingTx, KANARI_BATCH_INTERVAL};
use kanari::store::da_store::DAMetaDBStore;

#[test]
fn test_in_progress_batch() {
    let mut in_progress_batch = InProgressBatch::init();
    assert_eq!(in_progress_batch.append_transaction(1, 1), None);

    assert_eq!(in_progress_batch.append_transaction(2, 2), None);

    assert_eq!(in_progress_batch.append_transaction(3, 3), None);

    assert_eq!(in_progress_batch.append_transaction(4, 4), None);

    assert_eq!(
        in_progress_batch.append_transaction(5, 1 + KANARI_BATCH_INTERVAL),
        Some((1, 5))
    );

    assert_eq!(in_progress_batch.append_transaction(6, 6), None);

    assert_eq!(in_progress_batch.append_transaction(7, 7), None);

    assert_eq!(in_progress_batch.append_transaction(8, 8), None);

    assert_eq!(
        in_progress_batch.append_transaction(9, 6 + KANARI_BATCH_INTERVAL),
        Some((1, 9))
    );

    in_progress_batch.reset();

    assert_eq!(in_progress_batch.append_transaction(6, 6), None);

    assert_eq!(in_progress_batch.append_transaction(7, 7), None);

    assert_eq!(in_progress_batch.append_transaction(8, 8), None);

    assert_eq!(
        in_progress_batch.append_transaction(9, 6 + KANARI_BATCH_INTERVAL),
        Some((6, 9))
    );
}

#[test]
fn batch_ignores_discontinuous_order() {
    let mut b = InProgressBatch::init();
    assert_eq!(b.append_transaction(10, 100), None);
    assert_eq!(b.append_transaction(12, 100 + KANARI_BATCH_INTERVAL), None);
    assert_eq!(b.tx_order_end, 10);
    assert_eq!(b.append_transaction(11, 100 + KANARI_BATCH_INTERVAL), Some((10, 11)));
}

#[test]
fn batch_begun_at_time_zero_counts_as_one() {
    let mut b = InProgressBatch::init();
    b.begin_with(3, 0);
    assert_eq!(b.start_timestamp, 1);
    assert_eq!(b.tx_order_start, 3);
    assert_eq!(b.tx_order_end, 3);
}

#[test]
fn batch_does_not_close_on_earlier_timestamp() {
    let mut b = InProgressBatch::init();
    assert_eq!(b.append_transaction(1, 1000), None);
    assert_eq!(b.append_transaction(2, 999), None);
    assert_eq!(b.append_transaction(3, 1000 + KANARI_BATCH_INTERVAL - 1), None);
    assert_eq!(b.append_transaction(4, 1000 + KANARI_BATCH_INTERVAL), Some((1, 4)));
}

#[test]
fn pending_tx_push_and_revert() {
    let mut p = PendingTx::new();
    assert!(p.push(1, 10).is_none());
    let old = p.push(2, 20).unwrap();
    assert_eq!((old.tx_order, old.tx_timestamp), (1, 10));
    assert_eq!(
        p.revert(1),
        Err(BatchError::RevertNotPending { pending_tx_order: 2, revert_tx_order: 1 })
    );
    assert_eq!(p.revert(2), Ok(()));
    assert_eq!((p.tx_order, p.tx_timestamp), (0, 0));
}

#[test]
fn batch_maker_makes_block_when_batch_is_due() {
    let mut maker = BatchMaker::new(DAMetaDBStore::new());
    assert_eq!(maker.append_transaction(1, 1), None);
    assert_eq!(maker.append_transaction(2, 2), None);
    assert_eq!(maker.append_transaction(3, 2 + KANARI_BATCH_INTERVAL), None);
    // transaction 3 becomes part of the batch only when 4 arrives
    assert_eq!(maker.append_transaction(4, 5 + KANARI_BATCH_INTERVAL), Some(0));
    let store = maker.da_meta_store();
    assert_eq!(store.get_last_block_number(), Some(0));
    let state = store.get_block_state(0).unwrap();
    assert_eq!(state.block_range.tx_order_start, 1);
    assert_eq!(state.block_range.tx_order_end, 3);
    assert!(!state.done);
}

#[test]
fn batch_maker_revert_drops_pending() {
    let mut maker = BatchMaker::new(DAMetaDBStore::new());
    assert_eq!(maker.append_transaction(1, 1), None);
    assert_eq!(maker.revert_transaction(1), Ok(()));
    assert_eq!(
        maker.revert_transaction(1),
        Err(BatchError::RevertNotPending { pending_tx_order: 0, revert_tx_order: 1 })
    );
    assert_eq!(maker.da_meta_store().get_last_block_number(), None);
}

#[test]
fn new_batch_maker_holds_nothing() {
    let mut store = DAMetaDBStore::new();
    store.append_submitting_block(1, 5).unwrap();
    let mut maker = BatchMaker::new(store);
    assert!(maker.revert_transaction(7).is_err());
    assert_eq!(maker.revert_transaction(0), Ok(()));
    assert_eq!(maker.append_transaction(6, 1), None);
    assert_eq!(maker.append_transaction(7, 2 + KANARI_BATCH_INTERVAL), None);
    assert_eq!(maker.da_meta_store().get_last_block_number(), Some(0));
}

#[test]
fn openda_identifiers() {
    assert_eq!(derive_identifier(OpenDAScheme::Celestia), "openda-celestia");
    assert_eq!(derive_identifier(OpenDAScheme::S3), "openda-s3");
    assert_eq!(derive_identifier(OpenDAScheme::Fs), "openda-fs");
}
