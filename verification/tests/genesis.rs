use kanari::framework::genesis::{check_genesis_version, genesis_gas_schedule, GenesisError, GenesisGasSchedule};
use kanari::types::chain_id::ChainID;

#[test]
fn gas_schedule_of_each_chain() {
    assert_eq!(genesis_gas_schedule(ChainID::new(1)), GenesisGasSchedule::Initial);
    assert_eq!(genesis_gas_schedule(ChainID::new(2)), GenesisGasSchedule::V1);
    assert_eq!(genesis_gas_schedule(ChainID::new(3)), GenesisGasSchedule::Latest);
    assert_eq!(genesis_gas_schedule(ChainID::new(4)), GenesisGasSchedule::Latest);
    assert_eq!(genesis_gas_schedule(ChainID::new(42)), GenesisGasSchedule::Latest);
}

#[test]
fn stored_genesis_matches_either_encoding() {
    let a = [1u8; 32];
    let b = [2u8; 32];
    let c = [3u8; 32];
    assert_eq!(check_genesis_version(&a, &a, &b), Ok(()));
    assert_eq!(check_genesis_version(&b, &a, &b), Ok(()));
    assert_eq!(check_genesis_version(&c, &a, &b), Err(GenesisError::GenesisVersionMismatch));
    assert_eq!(check_genesis_version(&a[..31], &a, &a), Err(GenesisError::GenesisVersionMismatch));
}
