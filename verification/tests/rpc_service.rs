use kanari::indexer::reader::IndexerStateID;
use kanari::rpc::server::{
    plan_server_start, service_routes, RouteHandler, RouteMethod, ServiceType, StartError, StartPlan,
};
use kanari::rpc::service::{
    check_object_id_count, direct_object_rows, join_found, repair_target, spread_over_flags,
    RepairIndexerType, ServiceError, MAX_OBJECT_IDS_PER_QUERY,
};
use kanari::types::chain_id::ChainID;

fn ids(n: usize) -> Vec<String> {
    (0..n).map(|i| format!("0x{:x}", i)).collect()
}

fn pos(tx_order: u64, state_index: u64) -> IndexerStateID {
    IndexerStateID { tx_order, state_index }
}

#[test]
fn direct_rows_pair_each_id_with_the_default_position() {
    let rows = direct_object_rows(vec!["0x1".to_string(), "0x2".to_string()]).unwrap();
    assert_eq!(rows, vec![("0x1".to_string(), pos(0, 0)), ("0x2".to_string(), pos(0, 0))]);
    assert_eq!(direct_object_rows(vec![]).unwrap(), vec![]);
}

#[test]
fn direct_rows_bound() {
    assert_eq!(MAX_OBJECT_IDS_PER_QUERY, 100);
    assert_eq!(direct_object_rows(ids(100)).unwrap().len(), 100);
    assert_eq!(direct_object_rows(ids(101)), Err(ServiceError::TooManyObjectIds));
}

#[test]
fn join_drops_rows_whose_item_is_gone() {
    let found = vec![Some("a"), None, Some("c")];
    let rows = vec![pos(1, 0), pos(1, 1), pos(2, 0)];
    assert_eq!(join_found(found, rows), vec![("a", pos(1, 0)), ("c", pos(2, 0))]);
}

#[test]
fn join_keeps_every_found_row_in_order() {
    let found = vec![Some(10u32), Some(20), Some(30)];
    let rows = vec!["x", "y", "z"];
    assert_eq!(join_found(found, rows), vec![(10, "x"), (20, "y"), (30, "z")]);
}

#[test]
fn join_stops_at_the_shorter_side() {
    assert_eq!(join_found(vec![Some(1u8), Some(2)], vec!["x"]), vec![(1, "x")]);
    assert_eq!(join_found(vec![Some(1u8)], vec!["x", "y"]), vec![(1, "x")]);
    assert_eq!(join_found(Vec::<Option<u8>>::new(), vec!["x"]), vec![]);
}

#[test]
fn repair_targets() {
    assert_eq!(repair_target(RepairIndexerType::ObjectState, Some(ids(3))), Ok(ids(3)));
    assert_eq!(
        repair_target(RepairIndexerType::ObjectState, Some(ids(101))),
        Err(ServiceError::TooManyObjectIds)
    );
    assert_eq!(
        repair_target(RepairIndexerType::ObjectState, None),
        Err(ServiceError::InvalidObjectStateRepairParams)
    );
    assert_eq!(
        repair_target(RepairIndexerType::Transaction, Some(ids(1))),
        Err(ServiceError::TransactionRepairNotSupported)
    );
    assert_eq!(
        repair_target(RepairIndexerType::Event, None),
        Err(ServiceError::EventRepairNotSupported)
    );
}

fn plan(
    seq_key: bool,
    prop_key: bool,
    chain: u64,
    genesis: &str,
    sequencer: &str,
    active: bool,
    btc: bool,
    eth: bool,
    burst: Option<u32>,
) -> Result<StartPlan, StartError> {
    plan_server_start(
        seq_key,
        prop_key,
        ChainID::new(chain),
        &genesis.to_string(),
        &sequencer.to_string(),
        active,
        btc,
        eth,
        burst,
    )
}

#[test]
fn start_needs_both_key_pairs() {
    assert_eq!(
        plan(false, true, 4, "a", "a", true, false, false, None),
        Err(StartError::InvalidSequencerOrProposerOrRelayerKeyPair)
    );
    assert_eq!(
        plan(true, false, 4, "a", "a", true, false, false, None),
        Err(StartError::InvalidSequencerOrProposerOrRelayerKeyPair)
    );
}

#[test]
fn start_on_local_chain() {
    let p = plan(true, true, 4, "genesis", "other", true, true, false, None).unwrap();
    assert_eq!(
        p,
        StartPlan {
            mock_genesis_account: true,
            connect_bitcoin_client: true,
            process_sequenced_on_startup: true,
            start_relayer: true,
            traffic_burst_size: 5000,
        }
    );
}

#[test]
fn start_on_public_chain_checks_the_sequencer() {
    assert_eq!(
        plan(true, true, 2, "bc1qa", "bc1qb", true, false, false, None),
        Err(StartError::SequencerMismatch)
    );
    let p = plan(true, true, 2, "bc1qa", "bc1qa", false, true, true, None).unwrap();
    assert_eq!(
        p,
        StartPlan {
            mock_genesis_account: false,
            connect_bitcoin_client: false,
            process_sequenced_on_startup: false,
            start_relayer: false,
            traffic_burst_size: 200,
        }
    );
    let p = plan(true, true, 2, "bc1qa", "bc1qa", true, false, true, Some(7)).unwrap();
    assert!(p.start_relayer);
    assert!(!p.connect_bitcoin_client);
    assert_eq!(p.traffic_burst_size, 7);
}

#[test]
fn routes_of_each_service_type() {
    let paths = |t| service_routes(t).iter().map(|r| (r.path, r.method, r.handler)).collect::<Vec<_>>();
    assert_eq!(
        paths(ServiceType::Http),
        vec![
            ("/", RouteMethod::Post, RouteHandler::JsonRpc),
            ("/subscribe/sse/events", RouteMethod::Get, RouteHandler::EventStream),
            ("/subscribe/sse/transactions", RouteMethod::Get, RouteHandler::TransactionStream),
        ]
    );
    assert_eq!(
        paths(ServiceType::WebSocket),
        vec![
            ("/", RouteMethod::Get, RouteHandler::WebSocketUpgrade),
            ("/subscribe", RouteMethod::Get, RouteHandler::WebSocketUpgrade),
        ]
    );
    assert_eq!(service_routes(ServiceType::Both).len(), 5);
}

#[test]
fn object_id_count_bound() {
    assert_eq!(check_object_id_count(0), Ok(()));
    assert_eq!(check_object_id_count(100), Ok(()));
    assert_eq!(check_object_id_count(101), Err(ServiceError::TooManyObjectIds));
}

#[test]
fn spread_gives_each_flagged_position_the_next_value() {
    let flags = vec![true, false, true, true, false];
    let fetched = vec![Some("d1"), None, Some("d3")];
    assert_eq!(
        spread_over_flags(&flags, fetched),
        vec![Some("d1"), None, None, Some("d3"), None]
    );
}

#[test]
fn spread_with_no_flags() {
    let flags = vec![false, false];
    assert_eq!(spread_over_flags(&flags, Vec::<Option<u8>>::new()), vec![None, None]);
    assert_eq!(spread_over_flags(&Vec::new(), vec![Some(1u8)]), vec![]);
}
