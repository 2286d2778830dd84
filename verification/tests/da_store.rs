use kanari::store::batch::{BlockRange, BlockSubmitState};
use kanari::store::da_store::{DAMetaDBStore, DAStoreError, MAX_TXS_PER_BLOCK_IN_FIX};

fn store_with(ranges: &[(u64, u64)]) -> DAMetaDBStore {
    let mut store = DAMetaDBStore::new();
    for (s, e) in ranges {
        store.append_submitting_block(*s, *e).unwrap();
    }
    store
}

#[test]
fn append_numbers_blocks_from_zero() {
    let mut store = DAMetaDBStore::new();
    assert_eq!(store.append_submitting_block(1, 10), Ok(0));
    assert_eq!(store.append_submitting_block(11, 20), Ok(1));
    assert_eq!(store.get_last_block_number(), Some(1));
    let st = store.get_block_state(1).unwrap();
    assert_eq!(st.block_range, BlockRange { block_number: 1, tx_order_start: 11, tx_order_end: 20 });
    assert!(!st.done);
    assert_eq!(st.batch_hash, None);
}

#[test]
fn append_rejects_inverted_range() {
    let mut store = DAMetaDBStore::new();
    assert_eq!(
        store.append_submitting_block(5, 4),
        Err(DAStoreError::InvalidTxOrderRange { tx_order_start: 5, tx_order_end: 4 })
    );
    assert_eq!(store.get_last_block_number(), None);
}

#[test]
fn append_rejects_gap() {
    let mut store = store_with(&[(1, 10)]);
    assert_eq!(
        store.append_submitting_block(12, 20),
        Err(DAStoreError::DiscontinuousTxOrder { last_tx_order_end: 10, tx_order_start: 12 })
    );
    assert_eq!(store.get_last_block_number(), Some(0));
}

#[test]
fn missing_block_state_is_an_error() {
    let store = DAMetaDBStore::new();
    assert_eq!(store.get_block_state(7), Err(DAStoreError::BlockStateNotFound(7)));
    assert!(store.try_get_block_state(7).is_none());
}

#[test]
fn set_done_records_hash() {
    let mut store = store_with(&[(1, 10)]);
    store.set_submitting_block_done(0, 1, 10, [7u8; 32]);
    let st = store.get_block_state(0).unwrap();
    assert!(st.done);
    assert_eq!(st.batch_hash, Some([7u8; 32]));
    assert_eq!(st, BlockSubmitState::new_done(0, 1, 10, [7u8; 32]));
}

#[test]
fn background_cursor_set_and_get() {
    let mut store = DAMetaDBStore::new();
    assert_eq!(store.get_background_submit_block_cursor(), None);
    store.set_background_submit_block_cursor(3);
    assert_eq!(store.get_background_submit_block_cursor(), Some(3));
}

#[test]
fn generate_append_blocks_splits_by_limit() {
    let store = DAMetaDBStore::new();
    let limit = MAX_TXS_PER_BLOCK_IN_FIX as u64;
    let blocks = store.generate_append_blocks(None, limit + 5).unwrap();
    assert_eq!(
        blocks,
        vec![
            BlockRange { block_number: 0, tx_order_start: 1, tx_order_end: limit },
            BlockRange { block_number: 1, tx_order_start: limit + 1, tx_order_end: limit + 5 },
        ]
    );
}

#[test]
fn generate_append_blocks_follows_last_block() {
    let store = store_with(&[(1, 10)]);
    let blocks = store.generate_append_blocks(Some(0), 12).unwrap();
    assert_eq!(blocks, vec![BlockRange { block_number: 1, tx_order_start: 11, tx_order_end: 12 }]);
    assert_eq!(
        store.generate_append_blocks(Some(4), 12),
        Err(DAStoreError::BlockStateNotFound(4))
    );
}

#[test]
fn generate_remove_blocks_walks_down() {
    let store = store_with(&[(1, 10), (11, 20), (21, 30)]);
    assert_eq!(store.generate_remove_blocks_after_order(Some(2), 15), Ok(vec![2, 1]));
    assert_eq!(store.generate_remove_blocks_after_order(Some(2), 30), Ok(vec![]));
    assert_eq!(store.generate_remove_blocks_after_order(Some(2), 0), Ok(vec![2, 1, 0]));
    assert_eq!(store.generate_remove_blocks_after_order(None, 0), Ok(vec![]));
}

#[test]
fn repair_blocks_appends_up_to_last_order() {
    let mut store = store_with(&[(1, 10)]);
    assert_eq!(store.try_repair_blocks(25, 0, 0), Ok((1, 1)));
    assert_eq!(store.get_last_block_number(), Some(1));
    assert_eq!(store.get_block_state(1).unwrap().block_range.tx_order_end, 25);
}

#[test]
fn repair_blocks_rolls_back_past_last_order() {
    let mut store = store_with(&[(1, 10), (11, 20), (21, 30)]);
    store.set_background_submit_block_cursor(2);
    assert_eq!(store.try_repair_blocks(15, 0, 0), Ok((3, 3)));
    // blocks 1 and 2 are removed, then a block 11..=15 is appended
    assert_eq!(store.get_last_block_number(), Some(1));
    let st = store.get_block_state(1).unwrap();
    assert_eq!(st.block_range, BlockRange { block_number: 1, tx_order_start: 11, tx_order_end: 15 });
    assert!(store.try_get_block_state(2).is_none());
    assert_eq!(store.get_background_submit_block_cursor(), Some(0));
}

#[test]
fn repair_blocks_on_empty_store_with_no_orders_does_nothing() {
    let mut store = DAMetaDBStore::new();
    assert_eq!(store.try_repair_blocks(0, 0, 0), Ok((0, 0)));
    assert_eq!(store.get_last_block_number(), None);
}

#[test]
fn find_first_illegal_block() {
    let store = store_with(&[(1, 10), (11, 20), (21, 30)]);
    assert_eq!(store.try_find_first_illegal(2, 30), Ok(None));
    assert_eq!(store.try_find_first_illegal(2, 25), Ok(Some(2)));
    assert_eq!(store.try_find_first_illegal(2, 5), Ok(Some(0)));
}

#[test]
fn repair_orders_fast_fail_reports_illegal_block() {
    let mut store = store_with(&[(1, 10), (11, 20), (21, 30)]);
    assert_eq!(
        store.try_repair_orders(25, true),
        Err(DAStoreError::IllegalBlock { first_illegal: 2, last_order: 25, last_block_number: 2 })
    );
    assert_eq!(store.get_last_block_number(), Some(2));
}

#[test]
fn repair_orders_rolls_back_illegal_blocks() {
    let mut store = store_with(&[(1, 10), (11, 20), (21, 30)]);
    assert_eq!(store.try_repair_orders(15, false), Ok((2, 2)));
    assert_eq!(store.get_last_block_number(), Some(0));
    assert!(store.try_get_block_state(1).is_none());
}

#[test]
fn repair_da_meta_thorough_then_blocks() {
    let mut store = store_with(&[(1, 10), (11, 20), (21, 30)]);
    assert_eq!(store.try_repair_da_meta(15, true, None, false, false), Ok((3, 3)));
    assert_eq!(store.get_last_block_number(), Some(1));
    assert_eq!(store.get_block_state(1).unwrap().block_range.tx_order_end, 15);
}

#[test]
fn repair_da_meta_sync_mode_keeps_blocks() {
    let mut store = store_with(&[(1, 10)]);
    assert_eq!(store.try_repair_da_meta(50, false, None, false, true), Ok((0, 0)));
    assert_eq!(store.get_last_block_number(), Some(0));
}

#[test]
fn repair_da_meta_lowers_background_cursor() {
    let mut store = store_with(&[(1, 10), (11, 20), (21, 30)]);
    store.set_submitting_block_done(0, 1, 10, [1u8; 32]);
    store.set_background_submit_block_cursor(2);
    assert_eq!(store.try_repair_da_meta(30, false, None, false, false), Ok((0, 0)));
    assert_eq!(store.get_background_submit_block_cursor(), Some(0));
}

#[test]
fn repair_da_meta_drops_cursor_without_submitted_blocks() {
    let mut store = store_with(&[(1, 10), (11, 20)]);
    store.set_background_submit_block_cursor(1);
    assert_eq!(store.try_repair_da_meta(20, false, None, false, false), Ok((0, 0)));
    assert_eq!(store.get_background_submit_block_cursor(), None);
}

#[test]
fn submitting_blocks_skip_done_ones() {
    let mut store = store_with(&[(1, 10), (11, 20), (21, 30)]);
    store.set_submitting_block_done(1, 11, 20, [2u8; 32]);
    assert_eq!(
        store.get_submitting_blocks(0, None),
        vec![
            BlockRange { block_number: 0, tx_order_start: 1, tx_order_end: 10 },
            BlockRange { block_number: 2, tx_order_start: 21, tx_order_end: 30 },
        ]
    );
    assert_eq!(
        store.get_submitting_blocks(0, Some(1)),
        vec![BlockRange { block_number: 0, tx_order_start: 1, tx_order_end: 10 }]
    );
    assert_eq!(store.get_submitting_blocks(5, None), vec![]);
}

#[test]
fn block_range_legality() {
    let r = BlockRange { block_number: 0, tx_order_start: 3, tx_order_end: 5 };
    assert!(r.is_legal(5));
    assert!(!r.is_legal(4));
    let inverted = BlockRange { block_number: 0, tx_order_start: 6, tx_order_end: 5 };
    assert!(!inverted.is_legal(10));
}
