use kanari::error::KanariError;
use kanari::framework::auth_validator::BuiltinAuthValidator;
use kanari::types::chain_id::ChainID;
use kanari::types::kanari_network::{BuiltinChainID, KanariChainID};
use kanari::types::multichain_id::{KanariMultiChainID, MultiChainID};

#[test]
fn builtin_chain_ids_round_trip() {
    for b in BuiltinChainID::chain_ids() {
        let id = b.to_u64();
        assert_eq!(BuiltinChainID::try_from_u64(id), Ok(b));
        assert_eq!(BuiltinChainID::from_str(&b.chain_name()), Ok(b));
        assert_eq!(u64::from(b), id);
    }
    assert_eq!(BuiltinChainID::Local.to_u64(), 4);
    assert_eq!(BuiltinChainID::Dev.to_u64(), 3);
    assert_eq!(BuiltinChainID::Test.to_u64(), 2);
    assert_eq!(BuiltinChainID::Main.to_u64(), 1);
}

#[test]
fn builtin_chain_id_rejects_unknown() {
    assert_eq!(BuiltinChainID::try_from_u64(5), Err(KanariError::InvalidChainID(5)));
    assert_eq!(BuiltinChainID::try_from_chain_id(ChainID::new(0)), Err(KanariError::NotBuiltinChainID(0)));
    assert_eq!(BuiltinChainID::from_str("mainnet"), Err(KanariError::UnknownChain("mainnet".to_string())));
}

#[test]
fn builtin_chain_name_ignores_case() {
    assert_eq!(BuiltinChainID::from_str("MAIN"), Ok(BuiltinChainID::Main));
    assert_eq!(BuiltinChainID::from_str("Dev"), Ok(BuiltinChainID::Dev));
    assert_eq!(BuiltinChainID::Test.chain_name(), "test");
}

#[test]
fn builtin_test_dev_local_checks() {
    assert!(BuiltinChainID::Local.is_test_or_dev_or_local());
    assert!(!BuiltinChainID::Main.is_test_or_dev_or_local());
    assert_eq!(BuiltinChainID::Dev.assert_test_or_dev_or_local(), Ok(()));
    assert_eq!(
        BuiltinChainID::Main.assert_test_or_dev_or_local(),
        Err(KanariError::NotTestOrDevOrLocalNetwork)
    );
    assert_eq!(BuiltinChainID::default(), BuiltinChainID::Local);
}

#[test]
fn kanari_chain_id_from_number_normalizes_builtin() {
    assert_eq!(KanariChainID::from_chain_id(ChainID::new(2)), KanariChainID::Builtin(BuiltinChainID::Test));
    assert_eq!(KanariChainID::from_chain_id(ChainID::new(42)), KanariChainID::Custom(ChainID::new(42)));
    assert!(KanariChainID::from_chain_id(ChainID::new(42)).is_custom());
    assert_eq!(KanariChainID::from_builtin(BuiltinChainID::Main).chain_id().id(), 1);
}

#[test]
fn kanari_chain_id_from_text() {
    assert_eq!(KanariChainID::from_str("LOCAL"), Ok(KanariChainID::Builtin(BuiltinChainID::Local)));
    assert_eq!(KanariChainID::from_str("1000"), Ok(KanariChainID::Custom(ChainID::new(1000))));
    assert_eq!(KanariChainID::from_str("+7"), Ok(KanariChainID::Custom(ChainID::new(7))));
    assert_eq!(KanariChainID::from_str("abc"), Err(KanariError::InvalidChainIDText));
    assert_eq!(KanariChainID::from_str(""), Err(KanariError::InvalidChainIDText));
    assert_eq!(KanariChainID::from_str("18446744073709551616"), Err(KanariError::InvalidChainIDText));
}

#[test]
fn kanari_chain_id_names() {
    assert_eq!(KanariChainID::Builtin(BuiltinChainID::Dev).chain_name(), "dev");
    assert_eq!(KanariChainID::Custom(ChainID::new(1234)).chain_name(), "1234");
    assert_eq!(KanariChainID::Custom(ChainID::new(0)).to_string(), "0");
    assert_eq!(KanariChainID::Builtin(BuiltinChainID::Main).dir_name(), "main");
    assert_eq!(KanariChainID::default(), KanariChainID::Builtin(BuiltinChainID::Local));
}

#[test]
fn kanari_chain_id_predicates() {
    let local = KanariChainID::Builtin(BuiltinChainID::Local);
    let main = KanariChainID::Builtin(BuiltinChainID::Main);
    let custom = KanariChainID::Custom(ChainID::new(99));
    assert!(!local.is_builtin());
    assert!(main.is_builtin());
    assert!(!custom.is_builtin());
    assert!(local.is_test_or_dev_or_local());
    assert_eq!(local.assert_test_or_dev_or_local(), Ok(()));
    assert_eq!(custom.assert_test_or_dev_or_local(), Err(KanariError::NotTestOrDevOrLocalChainID));
    assert!(main.is_main() && !main.is_local() && !main.is_dev() && !main.is_test());
}

#[test]
fn chain_id_text() {
    assert_eq!(ChainID::new(18446744073709551615).to_string(), "18446744073709551615");
    assert_eq!(ChainID::from_str("42"), Some(ChainID::new(42)));
    assert_eq!(ChainID::from_str("-1"), None);
    assert_eq!(ChainID::from_str("4 2"), None);
}

#[test]
fn multichain_ids_round_trip() {
    for k in KanariMultiChainID::multichain_ids() {
        assert_eq!(KanariMultiChainID::try_from_u64(k.to_u64()), Ok(k));
        assert_eq!(KanariMultiChainID::from_str(&k.multichain_name()), Ok(k));
        assert_eq!(KanariMultiChainID::try_from_multichain_id(k.multichain_id()), Ok(k));
    }
    assert_eq!(KanariMultiChainID::Bitcoin.to_u64(), 0);
    assert_eq!(KanariMultiChainID::Ether.to_u64(), 60);
    assert_eq!(KanariMultiChainID::Nostr.to_u64(), 1237);
    assert_eq!(KanariMultiChainID::Kanari.to_u64(), 20230101);
    assert_eq!(u64::from(KanariMultiChainID::Kanari), 20230101);
}

#[test]
fn multichain_rejects_unknown() {
    assert_eq!(KanariMultiChainID::try_from_u64(784), Err(KanariError::InvalidMultiChainID(784)));
    assert_eq!(KanariMultiChainID::from_str("Bitcoin"), Err(KanariError::UnknownMultiChain("Bitcoin".to_string())));
    assert_eq!(KanariMultiChainID::Ether.to_string(), "ether");
}

#[test]
fn multichain_id_numbers() {
    assert!(MultiChainID::new(60).is_ethereum());
    assert!(MultiChainID::new(784).is_sui());
    assert!(MultiChainID::new(0).is_bitcoin());
    assert!(MultiChainID::new(1237).is_nostr());
    assert_eq!(MultiChainID::new(20230101).to_string(), "20230101");
    assert_eq!(MultiChainID::from_str("60"), Ok(MultiChainID::new(60)));
    assert_eq!(MultiChainID::from_str("x"), Err(KanariError::InvalidMultiChainIDText));
    assert_eq!(MultiChainID::new(5).id(), 5);
}

#[test]
fn auth_validator_flags() {
    assert_eq!(BuiltinAuthValidator::Session.flag(), 0);
    assert_eq!(BuiltinAuthValidator::Bitcoin.flag(), 1);
    assert_eq!(BuiltinAuthValidator::BitcoinMultisign.flag(), 2);
    assert_eq!(BuiltinAuthValidator::Ethereum.flag(), 3);
    for b in 0u8..4 {
        assert_eq!(BuiltinAuthValidator::from_flag_byte(b).unwrap().flag(), b);
    }
    assert_eq!(BuiltinAuthValidator::from_flag_byte(4), Err(KanariError::KeyConversionError));
}

#[test]
fn auth_validator_from_decimal_flag() {
    assert_eq!(BuiltinAuthValidator::from_flag("1"), Ok(BuiltinAuthValidator::Bitcoin));
    assert_eq!(BuiltinAuthValidator::from_flag("3"), Ok(BuiltinAuthValidator::Ethereum));
    assert_eq!(BuiltinAuthValidator::from_flag("256"), Err(KanariError::KeyConversionError));
    assert_eq!(BuiltinAuthValidator::from_flag("9"), Err(KanariError::KeyConversionError));
    assert_eq!(BuiltinAuthValidator::from_flag("bitcoin"), Err(KanariError::KeyConversionError));
    assert_eq!(BuiltinAuthValidator::BitcoinMultisign.to_string(), "bitcoinmultisign");
}

#[test]
fn error_messages() {
    let msg = |e: KanariError| e.message();
    assert_eq!(
        BuiltinChainID::Main.assert_test_or_dev_or_local().unwrap_err().message(),
        Some("Only support test or dev or local network.".to_string())
    );
    assert_eq!(
        KanariChainID::Custom(ChainID::new(9)).assert_test_or_dev_or_local().unwrap_err().message(),
        Some("Only support test or dev or local chain_id.".to_string())
    );
    assert_eq!(msg(KanariError::InvalidChainID(5)), Some("chain id 5 is invalid".to_string()));
    assert_eq!(msg(KanariError::NotBuiltinChainID(0)), Some("0 is not a builtin chain id".to_string()));
    assert_eq!(
        BuiltinChainID::from_str("MainNet").unwrap_err().message(),
        Some("Unknown chain: mainnet".to_string())
    );
    assert_eq!(msg(KanariError::InvalidMultiChainID(784)), Some("multichain id 784 is invalid".to_string()));
    assert_eq!(
        KanariMultiChainID::try_from_multichain_id(MultiChainID::new(784)).unwrap_err().message(),
        Some("784 is not a builtin multichain id".to_string())
    );
    assert_eq!(
        KanariMultiChainID::from_str("Bitcoin").unwrap_err().message(),
        Some("Unknown multichain: Bitcoin".to_string())
    );
    assert_eq!(msg(KanariError::KeyConversionError), Some("Invalid key auth validator".to_string()));
    assert_eq!(msg(KanariError::InvalidChainIDText), None);
    assert_eq!(msg(KanariError::InvalidMultiChainIDText), None);
}

#[test]
fn multichain_id_u64_conversions() {
    for x in [0u64, 60, 784, u64::MAX] {
        assert_eq!(MultiChainID::new(x).id(), x);
        assert_eq!(MultiChainID::from(x), MultiChainID::new(x));
        assert_eq!(Into::<u64>::into(MultiChainID::new(x)), x);
    }
}
