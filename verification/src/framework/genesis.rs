//! The genesis context handed to the framework's genesis function, the gas
//! schedule a genesis starts with, and the check of a stored genesis
//! against the one this node carries.

use crate::types::address::BitcoinAddress;
use crate::types::chain_id::ChainID;
use crate::types::kanari_network::{builtin_id_value, BuiltinChainID};
use vstd::prelude::*;

verus! {

/// The chain id, the sequencer account and the DAO account of a genesis.
#[derive(Debug, Clone)]
pub struct GenesisContext {
    pub chain_id: u64,
    /// Sequencer account
    pub sequencer: BitcoinAddress,
    /// The kanari dao account
    pub kanari_dao: BitcoinAddress,
}

impl GenesisContext {
    pub fn new(chain_id: u64, sequencer: BitcoinAddress, kanari_dao: BitcoinAddress) -> (r: Self)
        ensures
            r.chain_id == chain_id,
            r.sequencer == sequencer,
            r.kanari_dao == kanari_dao,
    {
        GenesisContext { chain_id, sequencer, kanari_dao }
    }
}

/// The gas schedule a genesis is built with.
#[derive(Debug, Clone, Copy, PartialEq, Eq, Structural)]
pub enum GenesisGasSchedule {
    /// The schedule the main network started with.
    Initial,
    /// The first revision, which the test network started with.
    V1,
    /// The newest schedule.
    Latest,
}

/// The gas schedule of the genesis of a chain: the main network keeps the
/// initial schedule, the test network the first revision, every other chain
/// starts with the newest.
pub open spec fn genesis_gas_schedule_spec(chain_id: ChainID) -> GenesisGasSchedule {
    if chain_id.spec_id() == builtin_id_value(BuiltinChainID::Main) {
        GenesisGasSchedule::Initial
    } else if chain_id.spec_id() == builtin_id_value(BuiltinChainID::Test) {
        GenesisGasSchedule::V1
    } else {
        GenesisGasSchedule::Latest
    }
}

/// The gas schedule the genesis of the chain `chain_id` is built with.
pub fn genesis_gas_schedule(chain_id: ChainID) -> (r: GenesisGasSchedule)
    ensures
        r == genesis_gas_schedule_spec(chain_id),
{
    if chain_id.id() == BuiltinChainID::Main.chain_id().id() {
        GenesisGasSchedule::Initial
    } else if chain_id.id() == BuiltinChainID::Test.chain_id().id() {
        GenesisGasSchedule::V1
    } else {
        GenesisGasSchedule::Latest
    }
}

/// Why a genesis cannot be used.
#[derive(Debug, Clone, Copy, PartialEq, Eq, Structural)]
pub enum GenesisError {
    /// The stored genesis is neither of the versions this node carries.
    GenesisVersionMismatch,
}

/// Whether two byte strings are the same.
fn same_bytes(a: &[u8], b: &[u8]) -> (r: bool)
    ensures
        r == (a@ == b@),
{
    if a.len() != b.len() {
        return false;
    }
    let mut i: usize = 0;
    while i < a.len()
        invariant
            a@.len() == b@.len(),
            i <= a@.len(),
            forall|k: int| 0 <= k < i ==> a@[k] == b@[k],
        decreases a@.len() - i,
    {
        if a[i] != b[i] {
            return false;
        }
        i = i + 1;
    }
    proof {
        assert(a@ =~= b@);
    }
    true
}

/// Checks the package hash of the stored genesis against the hashes of the
/// genesis this node carries, in its current and its first encoding: the
/// stored genesis is accepted when it matches either.
pub fn check_genesis_version(from_store: &[u8], from_binary: &[u8], from_binary_v1: &[u8]) -> (r: Result<
    (),
    GenesisError,
>)
    ensures
        r is Ok <==> (from_store@ == from_binary@ || from_store@ == from_binary_v1@),
        r is Err ==> r == Err::<(), GenesisError>(GenesisError::GenesisVersionMismatch),
{
    if !same_bytes(from_store, from_binary) && !same_bytes(from_store, from_binary_v1) {
        Err(GenesisError::GenesisVersionMismatch)
    } else {
        Ok(())
    }
}

/// The main network (chain 1) keeps the initial gas schedule, the test
/// network (chain 2) the first revision, and every other chain starts with
/// the newest.
pub proof fn lemma_genesis_gas_schedule_by_chain(chain_id: ChainID)
    ensures
        chain_id.spec_id() == 1 ==> genesis_gas_schedule_spec(chain_id) == GenesisGasSchedule::Initial,
        chain_id.spec_id() == 2 ==> genesis_gas_schedule_spec(chain_id) == GenesisGasSchedule::V1,
        chain_id.spec_id() != 1 && chain_id.spec_id() != 2 ==> genesis_gas_schedule_spec(chain_id)
            == GenesisGasSchedule::Latest,
{
}

} // verus!
