use kanari::error::KanariError;
use kanari::executor::{l1_block_call, l1_tx_admit, l1_tx_check, L1BlockCall, L1Error};
use kanari::types::multichain_id::KanariMultiChainID;

#[test]
fn l1_blocks_of_bitcoin_and_ethereum() {
    assert_eq!(l1_block_call(0), Ok(L1BlockCall::Bitcoin));
    assert_eq!(l1_block_call(60), Ok(L1BlockCall::Ethereum));
}

#[test]
fn l1_blocks_of_other_chains_are_refused() {
    assert_eq!(l1_block_call(1237), Err(L1Error::ChainNotSupported(KanariMultiChainID::Nostr)));
    assert_eq!(l1_block_call(20230101), Err(L1Error::ChainNotSupported(KanariMultiChainID::Kanari)));
    assert_eq!(l1_block_call(784), Err(L1Error::Chain(KanariError::InvalidMultiChainID(784))));
}

#[test]
fn l1_transactions_of_bitcoin_only() {
    assert_eq!(l1_tx_check(0, false), Ok(true));
    assert_eq!(l1_tx_check(0, true), Ok(false));
    assert_eq!(l1_tx_check(60, false), Err(L1Error::ChainNotSupported(KanariMultiChainID::Ether)));
    assert_eq!(l1_tx_check(7, true), Err(L1Error::Chain(KanariError::InvalidMultiChainID(7))));
}

#[test]
fn executed_l1_transactions_are_refused() {
    assert_eq!(l1_tx_admit(Some(false)), Err(L1Error::L1TxAlreadyExecuted));
    assert_eq!(l1_tx_admit(Some(true)), Ok(()));
    assert_eq!(l1_tx_admit(None), Ok(()));
}
