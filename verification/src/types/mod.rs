pub mod address;
pub mod chain_id;
pub mod kanari_key;
pub mod kanari_network;
pub mod multichain_id;
