use kanari::keystore::base_keystore::BaseKeyStore;
use kanari::keystore::file_keystore::FileBasedKeystore;
use kanari::keystore::memory_keystore::InMemKeystore;
use kanari::keystore::types::{EncryptionData, KeystoreError, MnemonicData, SessionKey};
use kanari::keystore::Keystore;
use kanari::types::address::KanariAddress;

fn enc(tag: u8) -> EncryptionData {
    EncryptionData {
        hashed_password: "h".to_string(),
        nonce: vec![tag],
        ciphertext: vec![tag, tag],
        tag: vec![tag],
    }
}

fn addr(high: u128, low: u128) -> KanariAddress {
    KanariAddress { high, low }
}

fn session_key(auth: Vec<u8>) -> SessionKey {
    SessionKey {
        app_name: "app".to_string(),
        app_url: "https://app".to_string(),
        authentication_key: auth,
        scopes: vec![],
        create_time: 1,
        last_active_time: 2,
        max_inactive_interval: 3,
    }
}

#[test]
fn new_keystore_is_empty_with_empty_password() {
    let k = BaseKeyStore::new();
    assert!(k.keys.is_empty());
    assert!(k.mnemonic.is_none());
    assert!(k.session_keys.is_empty());
    assert_eq!(k.get_password_hash(), "");
    assert!(k.get_if_password_is_empty());
}

#[test]
fn adding_a_key_keeps_the_first() {
    let mut k = BaseKeyStore::new();
    let a = addr(0, 1);
    assert!(!k.contains_address(&a));
    assert_eq!(k.add_address_encryption_data_to_keys(a, enc(1)), Ok(()));
    assert!(k.contains_address(&a));
    assert_eq!(k.add_address_encryption_data_to_keys(a, enc(2)), Ok(()));
    assert_eq!(k.get_key_encryption(&a), Ok(&enc(1)));
    assert_eq!(k.get_key_encryption(&addr(9, 9)), Err(KeystoreError::KeyNotFound(addr(9, 9))));
}

#[test]
fn mnemonic_data_lifecycle() {
    let mut k = BaseKeyStore::new();
    let a = addr(0, 1);
    assert_eq!(k.add_addresses_to_mnemonic_data(a), Err(KeystoreError::MnemonicDataMissing));
    assert_eq!(k.get_mnemonic_data(), Err(KeystoreError::MnemonicDataMissing));
    let d = MnemonicData { addresses: vec![a], mnemonic_phrase_encryption: enc(7) };
    assert_eq!(k.init_mnemonic_data(d.clone()), Ok(()));
    assert_eq!(k.init_mnemonic_data(d), Err(KeystoreError::MnemonicDataExists));
    assert_eq!(k.add_addresses_to_mnemonic_data(addr(0, 2)), Ok(()));
    assert_eq!(k.get_mnemonic_data().unwrap().addresses, vec![a, addr(0, 2)]);
}

#[test]
fn mnemonic_without_addresses_refuses_more() {
    let mut k = BaseKeyStore::new();
    k.init_mnemonic_data(MnemonicData { addresses: vec![], mnemonic_phrase_encryption: enc(7) })
        .unwrap();
    assert_eq!(k.add_addresses_to_mnemonic_data(addr(0, 2)), Err(KeystoreError::MnemonicAddressesEmpty));
}

#[test]
fn nullify_forgets_key_and_first_mnemonic_address() {
    let mut k = BaseKeyStore::new();
    let a = addr(0, 1);
    let b = addr(0, 2);
    k.add_address_encryption_data_to_keys(a, enc(1)).unwrap();
    k.add_address_encryption_data_to_keys(b, enc(2)).unwrap();
    k.init_mnemonic_data(MnemonicData { addresses: vec![a, b, a], mnemonic_phrase_encryption: enc(7) })
        .unwrap();
    assert_eq!(k.nullify(&a), Ok(()));
    assert!(!k.contains_address(&a));
    assert!(k.contains_address(&b));
    assert_eq!(k.get_mnemonic_data().unwrap().addresses, vec![b, a]);
    assert_eq!(k.nullify(&addr(5, 5)), Ok(()));
    assert_eq!(k.get_mnemonic_data().unwrap().addresses, vec![b, a]);
}

#[test]
fn addresses_list_keys_then_session_keys_in_order() {
    let mut k = BaseKeyStore::new();
    k.add_address_encryption_data_to_keys(addr(1, 0), enc(1)).unwrap();
    k.add_address_encryption_data_to_keys(addr(0, 5), enc(2)).unwrap();
    k.add_address_encryption_data_to_keys(addr(0, 3), enc(3)).unwrap();
    k.add_session_key(&addr(0, 5), vec![1, 2], enc(4));
    k.add_session_key(&addr(0, 1), vec![3], enc(5));
    assert_eq!(
        k.addresses(),
        vec![addr(0, 3), addr(0, 5), addr(1, 0), addr(0, 1), addr(0, 5)]
    );
    assert!(k.has_session_key(&addr(0, 5)));
    assert!(!k.has_session_key(&addr(1, 0)));
}

#[test]
fn session_key_binding() {
    let mut k = BaseKeyStore::new();
    let a = addr(0, 1);
    assert_eq!(
        k.binding_session_key(a, session_key(vec![9])),
        Err(KeystoreError::SessionKeyNotFound(a))
    );
    // a failed binding still leaves an (empty) session map for the address
    assert!(k.has_session_key(&a));
    k.add_session_key(&a, vec![9], enc(3));
    assert_eq!(k.binding_session_key(a, session_key(vec![9])), Ok(()));
    let entries = k.session_keys.get(&(0, 1)).unwrap();
    assert_eq!(entries.len(), 1);
    assert_eq!(entries[0].local_session_key.session_key, Some(session_key(vec![9])));
    assert_eq!(entries[0].local_session_key.private_key, enc(3));
}

#[test]
fn adding_a_session_key_replaces_the_same_authentication_key() {
    let mut k = BaseKeyStore::new();
    let a = addr(0, 1);
    k.add_session_key(&a, vec![1], enc(1));
    k.add_session_key(&a, vec![2], enc(2));
    k.add_session_key(&a, vec![1], enc(3));
    let entries = k.session_keys.get(&(0, 1)).unwrap();
    assert_eq!(entries.len(), 2);
    assert_eq!(entries[0].local_session_key.private_key, enc(3));
}

#[test]
fn session_key_lookups() {
    let mut k = BaseKeyStore::new();
    let a = addr(0, 1);
    assert_eq!(k.get_session_key(&a, &vec![1]), Err(KeystoreError::SessionKeyNotFound(a)));
    assert_eq!(k.get_session_key_for_signing(&a, &vec![1]), Err(KeystoreError::NoSessionKeysForAddress(a)));
    k.add_session_key(&a, vec![1], enc(1));
    assert_eq!(k.get_session_key(&a, &vec![1]), Ok(Some(&enc(1))));
    assert_eq!(k.get_session_key(&a, &vec![2]), Ok(None));
    assert_eq!(k.get_session_key_for_signing(&a, &vec![1]), Ok(&enc(1)));
    assert_eq!(k.get_session_key_for_signing(&a, &vec![2]), Err(KeystoreError::SessionKeyNotFound(a)));
}

#[test]
fn password_hash() {
    let mut k = BaseKeyStore::new();
    assert_eq!(k.set_password_hash_with_indicator("abc".to_string(), false), Ok(()));
    assert_eq!(k.get_password_hash(), "abc");
    assert!(!k.get_if_password_is_empty());
}

#[test]
fn keystore_dispatch_and_text() {
    let mut file = Keystore::File(FileBasedKeystore::new(BaseKeyStore::new(), "/tmp/k.json".to_string()));
    let mut mem = Keystore::InMem(InMemKeystore::new());
    let a = addr(0, 7);
    for ks in [&mut file, &mut mem] {
        ks.add_address_encryption_data_to_keys(a, enc(1)).unwrap();
        assert!(ks.contains_address(&a));
        assert_eq!(ks.addresses(), vec![a]);
        ks.nullify(&a).unwrap();
        assert!(!ks.contains_address(&a));
        ks.set_password_hash_with_indicator("p".to_string(), false).unwrap();
        assert_eq!(ks.get_password_hash(), "p");
        assert!(!ks.get_if_password_is_empty());
    }
    assert_eq!(file.to_string(), "Keystore Type : Kanari File\nKeystore Path : Some(\"/tmp/k.json\")");
    assert_eq!(mem.to_string(), "Keystore Type : Kanari InMem\n");
    let mut f = FileBasedKeystore::new(BaseKeyStore::new(), "a".to_string());
    f.set_path("b/c");
    assert_eq!(f.path, Some("b/c".to_string()));
    f.path = None;
    assert_eq!(Keystore::File(f).to_string(), "Keystore Type : Kanari File\nKeystore Path : None");
    let quoted = FileBasedKeystore::new(BaseKeyStore::new(), "it's/k.json".to_string());
    let expected_path = Some(std::path::PathBuf::from("it's/k.json"));
    assert_eq!(
        Keystore::File(quoted).to_string(),
        format!("Keystore Type : Kanari File\nKeystore Path : {:?}", expected_path)
    );
}

#[test]
fn recording_initial_and_derived_keys() {
    let mut k = BaseKeyStore::new();
    assert_eq!(k.next_account_index(), Err(KeystoreError::MnemonicDataMissing));
    assert_eq!(k.record_derived_key(addr(0, 9), enc(9)), Err(KeystoreError::MnemonicDataMissing));
    // the key is kept though the mnemonic refused the address
    assert!(k.contains_address(&addr(0, 9)));
    assert_eq!(k.record_initial_key(addr(0, 1), enc(1), enc(2)), Ok(()));
    assert_eq!(k.get_mnemonic_data().unwrap().addresses, vec![addr(0, 1)]);
    assert_eq!(k.get_mnemonic_data().unwrap().mnemonic_phrase_encryption, enc(2));
    assert_eq!(k.next_account_index(), Ok(1));
    assert_eq!(k.record_derived_key(addr(0, 2), enc(3)), Ok(()));
    assert_eq!(k.next_account_index(), Ok(2));
    assert_eq!(k.record_initial_key(addr(0, 3), enc(4), enc(5)), Err(KeystoreError::MnemonicDataExists));
    assert!(k.contains_address(&addr(0, 3)));
    assert_eq!(k.get_mnemonic_data().unwrap().addresses, vec![addr(0, 1), addr(0, 2)]);
}

#[test]
fn keystore_records_keys_through_dispatch() {
    let mut ks = Keystore::InMem(InMemKeystore::new());
    assert_eq!(ks.record_initial_key(addr(0, 1), enc(1), enc(2)), Ok(()));
    assert_eq!(ks.record_derived_key(addr(0, 2), enc(3)), Ok(()));
    assert_eq!(ks.base_ref().next_account_index(), Ok(2));
    assert_eq!(ks.addresses(), vec![addr(0, 1), addr(0, 2)]);
}
