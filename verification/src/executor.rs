//! The executor's admission of transactions from other chains: which chains
//! it executes blocks and transactions of, and when it asks whether a
//! transaction was executed before.

use crate::error::KanariError;
use crate::types::multichain_id::{multichain_from_value, KanariMultiChainID};
use vstd::prelude::*;

verus! {

/// Why the executor refused a block or transaction of another chain.
#[derive(Debug, Clone, PartialEq, Eq)]
pub enum L1Error {
    /// The chain id is not that of a known multichain.
    Chain(KanariError),
    /// The chain is known but its blocks or transactions are not executed.
    ChainNotSupported(KanariMultiChainID),
    /// The transaction was executed before.
    L1TxAlreadyExecuted,
}

/// The system call that executes a block of another chain.
#[derive(Debug, Clone, Copy, PartialEq, Eq, Structural)]
pub enum L1BlockCall {
    /// The Bitcoin module's block execution.
    Bitcoin,
    /// The Ethereum module's block execution.
    Ethereum,
}

/// How a block of the chain `chain_id` is executed: Bitcoin and Ethereum
/// blocks each by their module; any other known chain is not supported.
pub open spec fn l1_block_call_spec(chain_id: u64) -> Result<L1BlockCall, L1Error> {
    match multichain_from_value(chain_id) {
        None => Err(L1Error::Chain(KanariError::InvalidMultiChainID(chain_id))),
        Some(KanariMultiChainID::Bitcoin) => Ok(L1BlockCall::Bitcoin),
        Some(KanariMultiChainID::Ether) => Ok(L1BlockCall::Ethereum),
        Some(k) => Err(L1Error::ChainNotSupported(k)),
    }
}

/// The call that executes a block of the chain `chain_id`, or why the block
/// is refused.
pub fn l1_block_call(chain_id: u64) -> (r: Result<L1BlockCall, L1Error>)
    ensures
        r == l1_block_call_spec(chain_id),
{
    match KanariMultiChainID::try_from_u64(chain_id) {
        Err(e) => Err(L1Error::Chain(e)),
        Ok(KanariMultiChainID::Bitcoin) => Ok(L1BlockCall::Bitcoin),
        Ok(KanariMultiChainID::Ether) => Ok(L1BlockCall::Ethereum),
        Ok(k) => Err(L1Error::ChainNotSupported(k)),
    }
}

/// Whether a transaction of the chain `chain_id` is checked against the
/// record of executed transactions before it runs: only Bitcoin
/// transactions are executed, and the check is skipped when asked to.
pub open spec fn l1_tx_check_spec(chain_id: u64, bypass_executed_check: bool) -> Result<bool, L1Error> {
    match multichain_from_value(chain_id) {
        None => Err(L1Error::Chain(KanariError::InvalidMultiChainID(chain_id))),
        Some(KanariMultiChainID::Bitcoin) => Ok(!bypass_executed_check),
        Some(k) => Err(L1Error::ChainNotSupported(k)),
    }
}

/// Whether the executor must ask if the transaction was executed before
/// (`Ok(true)`), may run it at once (`Ok(false)`), or refuses it.
pub fn l1_tx_check(chain_id: u64, bypass_executed_check: bool) -> (r: Result<bool, L1Error>)
    ensures
        r == l1_tx_check_spec(chain_id, bypass_executed_check),
{
    match KanariMultiChainID::try_from_u64(chain_id) {
        Err(e) => Err(L1Error::Chain(e)),
        Ok(KanariMultiChainID::Bitcoin) => Ok(!bypass_executed_check),
        Ok(k) => Err(L1Error::ChainNotSupported(k)),
    }
}

/// The admission of a Bitcoin transaction once the validator was asked
/// (`not_executed` is its answer, `None` when it was not asked): refused
/// when the validator says it was executed before.
pub fn l1_tx_admit(not_executed: Option<bool>) -> (r: Result<(), L1Error>)
    ensures
        r is Err <==> not_executed == Some(false),
        r is Err ==> r == Err::<(), L1Error>(L1Error::L1TxAlreadyExecuted),
{
    match not_executed {
        Some(false) => Err(L1Error::L1TxAlreadyExecuted),
        _ => Ok(()),
    }
}

/// Only blocks of Bitcoin (chain 0) and Ethereum (chain 60) are executed,
/// each by its own chain's call; only Bitcoin transactions are executed,
/// and they are checked against the executed ones exactly when the check
/// is not bypassed.
pub proof fn lemma_l1_admission(chain_id: u64, bypass_executed_check: bool)
    ensures
        l1_block_call_spec(chain_id) is Ok <==> (chain_id == 0 || chain_id == 60),
        chain_id == 0 ==> l1_block_call_spec(chain_id) == Ok::<L1BlockCall, L1Error>(L1BlockCall::Bitcoin),
        chain_id == 60 ==> l1_block_call_spec(chain_id) == Ok::<L1BlockCall, L1Error>(L1BlockCall::Ethereum),
        l1_tx_check_spec(chain_id, bypass_executed_check) is Ok <==> chain_id == 0,
        chain_id == 0 ==> l1_tx_check_spec(chain_id, bypass_executed_check) == Ok::<bool, L1Error>(
            !bypass_executed_check,
        ),
{
}

} // verus!
