use kanari::indexer::reader::{IndexerStateID, ObjectStateType};
use kanari::indexer::repair::{
    has_new_objects, repair_rows, select_object_states_to_repair, RepairError, RepairUpdate,
    StateSummary,
};

fn st(id: &str, is_utxo: bool, is_inscription: bool) -> Option<StateSummary> {
    Some(StateSummary { id: id.to_string(), is_utxo, is_inscription })
}

fn ids(v: &[&str]) -> Vec<String> {
    v.iter().map(|s| s.to_string()).collect()
}

#[test]
fn selection_by_kind() {
    let states = vec![st("a", false, false), None, st("b", true, false), st("c", false, true)];
    let object_ids = ids(&["a", "x", "b", "c"]);
    let sel = select_object_states_to_repair(&states, &object_ids, ObjectStateType::ObjectState);
    assert_eq!(sel.update, vec![("a".to_string(), 0), ("b".to_string(), 2), ("c".to_string(), 3)]);
    assert_eq!(sel.remove, ids(&["x"]));
    let sel = select_object_states_to_repair(&states, &object_ids, ObjectStateType::UTXO);
    assert_eq!(sel.update, vec![("b".to_string(), 2)]);
    assert_eq!(sel.remove, ids(&["x"]));
    let sel = select_object_states_to_repair(&states, &object_ids, ObjectStateType::Inscription);
    assert_eq!(sel.update, vec![("c".to_string(), 3)]);
}

#[test]
fn selection_keeps_last_state_of_an_id() {
    let states = vec![st("a", true, false), st("b", true, false), st("a", true, false)];
    let object_ids = ids(&["a", "b", "a"]);
    let sel = select_object_states_to_repair(&states, &object_ids, ObjectStateType::UTXO);
    assert_eq!(sel.update, vec![("a".to_string(), 2), ("b".to_string(), 1)]);
    assert!(sel.remove.is_empty());
}

#[test]
fn rows_keep_indexer_positions_and_number_new_ones() {
    let selected = vec![("a".to_string(), 0), ("b".to_string(), 2), ("c".to_string(), 3)];
    let found = vec![("b".to_string(), IndexerStateID { tx_order: 9, state_index: 4 })];
    assert!(has_new_objects(&selected, &found));
    let rows = repair_rows(&selected, &found, Some(6)).unwrap();
    assert_eq!(
        rows,
        vec![
            RepairUpdate { state: 2, tx_order: 9, state_index: 4 },
            RepairUpdate { state: 0, tx_order: 0, state_index: 7 },
            RepairUpdate { state: 3, tx_order: 0, state_index: 8 },
        ]
    );
    let rows = repair_rows(&selected, &found, None).unwrap();
    assert_eq!(rows[1], RepairUpdate { state: 0, tx_order: 0, state_index: 0 });
}

#[test]
fn rows_when_indexer_has_every_object() {
    let selected = vec![("a".to_string(), 1)];
    let found = vec![("a".to_string(), IndexerStateID { tx_order: 3, state_index: 0 })];
    assert!(!has_new_objects(&selected, &found));
    assert_eq!(
        repair_rows(&selected, &found, None),
        Ok(vec![RepairUpdate { state: 1, tx_order: 3, state_index: 0 }])
    );
}

#[test]
fn rows_refuse_unexpected_object() {
    let selected = vec![("a".to_string(), 1)];
    let found = vec![("z".to_string(), IndexerStateID { tx_order: 3, state_index: 0 })];
    assert_eq!(
        repair_rows(&selected, &found, None),
        Err(RepairError::UnexpectedObject("z".to_string()))
    );
}
