use kanari::indexer::query::ObjectTypeFilter;
use kanari::indexer::reader::{
    get_table_name_by_state_type, query_events_with_filter, query_fields_with_filter,
    query_last_indexer_state_id, query_last_state_index_by_tx_order,
    query_stored_object_state_infos_with_filter, query_transactions_with_filter, EventFilter,
    FieldFilter, IndexerError, IndexerEventID, IndexerStateID, ObjectStateFilter,
    ObjectStateType, TransactionFilter,
};

fn framed(body: &str) -> String {
    format!("\n                {}\n            ", body)
}

#[test]
fn events_query_by_type_ascending_from_start() {
    let q = query_events_with_filter(
        &EventFilter::EventType("0x3::coin::CoinEvent".to_string()),
        None,
        10,
        false,
        None,
    )
    .unwrap();
    assert_eq!(
        q,
        framed("SELECT * FROM events WHERE event_type = \"0x3::coin::CoinEvent\" AND (tx_order > -1 OR (tx_order = -1 AND event_index > 0)) ORDER BY tx_order ASC, event_index ASC LIMIT 10")
    );
}

#[test]
fn events_query_with_cursor_descending() {
    let q = query_events_with_filter(
        &EventFilter::EventTypeWithSender {
            event_type: "0x1::e::E".to_string(),
            sender: "0x42".to_string(),
        },
        Some(IndexerEventID { tx_order: 7, event_index: 2 }),
        5,
        true,
        None,
    )
    .unwrap();
    assert_eq!(
        q,
        framed("SELECT * FROM events WHERE sender = \"0x42\" AND event_type = \"0x1::e::E\" AND (tx_order < 7 OR (tx_order = 7 AND event_index < 2)) ORDER BY tx_order DESC, event_index DESC LIMIT 5")
    );
}

#[test]
fn events_query_descending_starts_after_latest() {
    let q = query_events_with_filter(
        &EventFilter::TimeRange { start_time: 100, end_time: 200 },
        None,
        3,
        true,
        Some((41, 3)),
    )
    .unwrap();
    assert_eq!(
        q,
        framed("SELECT * FROM events WHERE (created_at >= 100 AND created_at < 200) AND (tx_order < 41 OR (tx_order = 41 AND event_index < 4)) ORDER BY tx_order DESC, event_index DESC LIMIT 3")
    );
}

#[test]
fn events_query_other_filters() {
    let cursor = Some(IndexerEventID { tx_order: 1, event_index: 0 });
    let cases = vec![
        (EventFilter::EventHandle("0xab".to_string()), "event_handle_id = \"0xab\""),
        (
            EventFilter::EventHandleWithSender { event_handle_id: "0xab".to_string(), sender: "0x1".to_string() },
            "sender = \"0x1\" AND event_handle_id = \"0xab\"",
        ),
        (EventFilter::Sender("0x1".to_string()), "sender = \"0x1\""),
        (EventFilter::TxHash("0xff".to_string()), "tx_hash = \"0xff\""),
        (EventFilter::TxOrderRange { from_order: 2, to_order: 9 }, "(tx_order >= 2 AND tx_order < 9)"),
    ];
    for (f, w) in cases {
        let q = query_events_with_filter(&f, cursor, 1, false, None).unwrap();
        assert_eq!(
            q,
            framed(&format!("SELECT * FROM events WHERE {} AND (tx_order > 1 OR (tx_order = 1 AND event_index > 0)) ORDER BY tx_order ASC, event_index ASC LIMIT 1", w))
        );
    }
}

#[test]
fn events_query_refuses_all_and_missing_latest() {
    assert_eq!(
        query_events_with_filter(&EventFilter::All, None, 1, false, None),
        Err(IndexerError::NotSupportedError("Not implemented".to_string()))
    );
    assert_eq!(
        query_events_with_filter(&EventFilter::Sender("0x1".to_string()), None, 1, true, None),
        Err(IndexerError::SQLiteReadError("Record not found".to_string()))
    );
}

#[test]
fn transactions_query_by_hashes() {
    let q = query_transactions_with_filter(
        &TransactionFilter::TxHashes(vec!["0xaa".to_string(), "0xbb".to_string()]),
        Some(5),
        20,
        false,
        None,
    )
    .unwrap();
    assert_eq!(
        q,
        framed("SELECT * FROM transactions WHERE tx_hash in (\"0xaa\",\"0xbb\") AND (tx_order > 5) ORDER BY tx_order ASC LIMIT 20")
    );
}

#[test]
fn transactions_query_descending_from_latest() {
    let q = query_transactions_with_filter(
        &TransactionFilter::Sender("0x9".to_string()),
        None,
        2,
        true,
        Some(99),
    )
    .unwrap();
    assert_eq!(
        q,
        framed("SELECT * FROM transactions WHERE sender = \"0x9\" AND (tx_order < 100) ORDER BY tx_order DESC LIMIT 2")
    );
}

#[test]
fn transactions_query_ranges_and_errors() {
    let q = query_transactions_with_filter(
        &TransactionFilter::TxOrderRange { from_order: 0, to_order: 10 },
        None,
        4,
        false,
        None,
    )
    .unwrap();
    assert_eq!(
        q,
        framed("SELECT * FROM transactions WHERE (tx_order >= 0 AND tx_order < 10) AND (tx_order > -1) ORDER BY tx_order ASC LIMIT 4")
    );
    let q = query_transactions_with_filter(
        &TransactionFilter::TimeRange { start_time: 1, end_time: 2 },
        Some(3),
        4,
        true,
        None,
    )
    .unwrap();
    assert_eq!(
        q,
        framed("SELECT * FROM transactions WHERE (created_at >= 1 AND created_at < 2) AND (tx_order < 3) ORDER BY tx_order DESC LIMIT 4")
    );
    let empty = query_transactions_with_filter(&TransactionFilter::TxHashes(vec![]), Some(0), 1, false, None).unwrap();
    assert_eq!(
        empty,
        framed("SELECT * FROM transactions WHERE tx_hash in () AND (tx_order > 0) ORDER BY tx_order ASC LIMIT 1")
    );
    assert_eq!(
        query_transactions_with_filter(&TransactionFilter::All, Some(0), 1, false, None),
        Err(IndexerError::NotSupportedError("Not implemented".to_string()))
    );
    assert_eq!(
        query_transactions_with_filter(&TransactionFilter::Sender("0x1".to_string()), None, 1, true, None),
        Err(IndexerError::SQLiteReadError("Record not found".to_string()))
    );
}

#[test]
fn object_states_query_by_owner_and_type() {
    let filter = ObjectStateFilter::ObjectTypeWithOwner {
        object_type: ObjectTypeFilter { object_type: "0x3::coin::Coin".to_string(), has_type_params: false },
        owner: "0x7".to_string(),
        filter_out: false,
    };
    let q = query_stored_object_state_infos_with_filter(&filter, None, 10, false, ObjectStateType::ObjectState, None);
    assert_eq!(
        q,
        framed("SELECT id,tx_order,state_index FROM object_states WHERE owner = \"0x7\" AND (object_type = \"0x3::coin::Coin\" OR (object_type >= \"0x3::coin::Coin<\" AND object_type < \"0x3::coin::Coin=\" AND object_type < \"0x3::coin::Coio\")) AND (tx_order > -1 OR (tx_order = -1 AND state_index > 0)) ORDER BY tx_order ASC, state_index ASC LIMIT 10")
    );
    let q = query_stored_object_state_infos_with_filter(&filter, None, 10, false, ObjectStateType::UTXO, None);
    assert_eq!(
        q,
        framed("SELECT id,tx_order,state_index FROM utxos WHERE owner = \"0x7\" AND (tx_order > -1 OR (tx_order = -1 AND state_index > 0)) ORDER BY tx_order ASC, state_index ASC LIMIT 10")
    );
}

#[test]
fn object_states_query_filter_out_type() {
    let filter = ObjectStateFilter::ObjectTypeWithOwner {
        object_type: ObjectTypeFilter { object_type: "0x3::a::B<u8>".to_string(), has_type_params: true },
        owner: "0x7".to_string(),
        filter_out: true,
    };
    let q = query_stored_object_state_infos_with_filter(
        &filter,
        Some(IndexerStateID { tx_order: 3, state_index: 1 }),
        2,
        true,
        ObjectStateType::ObjectState,
        None,
    );
    assert_eq!(
        q,
        framed("SELECT id,tx_order,state_index FROM object_states WHERE owner = \"0x7\" AND object_type != \"0x3::a::B<u8>\" AND (tx_order < 3 OR (tx_order = 3 AND state_index < 1)) ORDER BY tx_order DESC, state_index DESC LIMIT 2")
    );
}

#[test]
fn object_states_query_type_alone_on_inscriptions_has_no_condition() {
    let filter = ObjectStateFilter::ObjectType(ObjectTypeFilter {
        object_type: "0x4::ord::Inscription".to_string(),
        has_type_params: false,
    });
    let q = query_stored_object_state_infos_with_filter(&filter, None, 1, true, ObjectStateType::Inscription, Some((8, 2)));
    assert_eq!(
        q,
        framed("SELECT id,tx_order,state_index FROM inscriptions WHERE     (tx_order < 8 OR (tx_order = 8 AND state_index < 3)) ORDER BY tx_order DESC, state_index DESC LIMIT 1")
    );
}

#[test]
fn object_states_query_descending_without_states_starts_at_zero() {
    let q = query_stored_object_state_infos_with_filter(
        &ObjectStateFilter::ObjectId(vec!["0x1".to_string(), "0x2".to_string()]),
        None,
        5,
        true,
        ObjectStateType::ObjectState,
        None,
    );
    assert_eq!(
        q,
        framed("SELECT id,tx_order,state_index FROM object_states WHERE id IN (\"0x1\",\"0x2\") AND (tx_order < 0 OR (tx_order = 0 AND state_index < 0)) ORDER BY tx_order DESC, state_index DESC LIMIT 5")
    );
    let q = query_stored_object_state_infos_with_filter(
        &ObjectStateFilter::Owner("0x5".to_string()),
        None,
        5,
        false,
        ObjectStateType::UTXO,
        None,
    );
    assert_eq!(
        q,
        framed("SELECT id,tx_order,state_index FROM utxos WHERE owner = \"0x5\" AND (tx_order > -1 OR (tx_order = -1 AND state_index > 0)) ORDER BY tx_order ASC, state_index ASC LIMIT 5")
    );
}

#[test]
fn last_state_queries() {
    assert_eq!(
        query_last_indexer_state_id(ObjectStateType::UTXO),
        framed("SELECT tx_order,state_index FROM utxos ORDER BY tx_order DESC, state_index DESC LIMIT 1")
    );
    assert_eq!(
        query_last_state_index_by_tx_order(12, ObjectStateType::ObjectState),
        framed("SELECT tx_order,state_index FROM object_states WHERE tx_order = \"12\" ORDER BY tx_order DESC, state_index DESC LIMIT 1")
    );
    assert_eq!(
        query_last_state_index_by_tx_order(u64::MAX, ObjectStateType::Inscription),
        framed("SELECT tx_order,state_index FROM inscriptions WHERE tx_order = \"-1\" ORDER BY tx_order DESC, state_index DESC LIMIT 1")
    );
    assert_eq!(get_table_name_by_state_type(ObjectStateType::ObjectState), "object_states");
}

#[test]
fn fields_query_pages() {
    let filter = FieldFilter::ObjectId(vec!["0xa".to_string()]);
    assert_eq!(
        query_fields_with_filter(&filter, 0, 10, false),
        framed("SELECT * FROM fields WHERE parent_id IN (\"0xa\") ORDER BY parent_id ASC, sort_key ASC LIMIT 0, 10")
    );
    assert_eq!(
        query_fields_with_filter(&filter, 1, 10, false),
        framed("SELECT * FROM fields WHERE parent_id IN (\"0xa\") ORDER BY parent_id ASC, sort_key ASC LIMIT 0, 10")
    );
    assert_eq!(
        query_fields_with_filter(&filter, 3, 10, true),
        framed("SELECT * FROM fields WHERE parent_id IN (\"0xa\") ORDER BY parent_id DESC, sort_key DESC LIMIT 19, 10")
    );
}
