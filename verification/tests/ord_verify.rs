use kanari::data_verify::ord_verify::{
    check_ord_data, match_inscription_data, InscriptionBody, InscriptionStateView,
    OrdInscriptionInfo, Transaction,
};

fn tx() -> Transaction {
    Transaction {
        id: "i0".to_string(),
        txid: "abcd".to_string(),
        index: "0".to_string(),
        address: "bc1qexample".to_string(),
    }
}

fn ord_info() -> OrdInscriptionInfo {
    OrdInscriptionInfo::new(
        tx(),
        InscriptionBody { body: "48656c6c6f".to_string(), content_type: "text/plain".to_string() },
    )
}

fn kanari_view() -> InscriptionStateView {
    InscriptionStateView {
        owner_bitcoin_address: Some("bc1qexample".to_string()),
        content_type: Some("text/plain".to_string()),
        body: "0x48656c6c6f".to_string(),
    }
}

#[test]
fn ord_info_takes_fields_from_tx_and_body() {
    let info = ord_info();
    assert_eq!(info.id, "i0");
    assert_eq!(info.txid, "abcd");
    assert_eq!(info.index, "0");
    assert_eq!(info.address, "bc1qexample");
    assert_eq!(info.body, "48656c6c6f");
    assert_eq!(info.content_type, "text/plain");
}

#[test]
fn matching_inscription() {
    assert!(match_inscription_data(ord_info(), kanari_view()));
}

#[test]
fn mismatch_on_owner_content_type_or_body() {
    let mut v = kanari_view();
    v.owner_bitcoin_address = None;
    assert!(!match_inscription_data(ord_info(), v));
    let mut v = kanari_view();
    v.owner_bitcoin_address = Some("bc1qother".to_string());
    assert!(!match_inscription_data(ord_info(), v));
    let mut v = kanari_view();
    v.content_type = None;
    assert!(!match_inscription_data(ord_info(), v));
    let mut v = kanari_view();
    v.body = "48656c6c6f".to_string();
    assert!(!match_inscription_data(ord_info(), v));
}

#[test]
fn check_lines() {
    assert_eq!(
        check_ord_data(&tx(), ord_info(), Ok(Some(kanari_view()))),
        "[STAT] check_ord_data match succ, txid: abcd index 0 "
    );
    let mut v = kanari_view();
    v.body = "0x00".to_string();
    assert_eq!(
        check_ord_data(&tx(), ord_info(), Ok(Some(v))),
        "[STAT] check_ord_data match fail, txid: abcd index 0 "
    );
    assert_eq!(
        check_ord_data(&tx(), ord_info(), Ok(None)),
        "[STAT] check_ord_data fail, txid: abcd index 0 kanari_inscription_info is none"
    );
    assert_eq!(
        check_ord_data(&tx(), ord_info(), Err("timeout".to_string())),
        "[STAT] check_ord_data txid: abcd index 0 occurs error timeout"
    );
}
