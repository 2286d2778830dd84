//! Verified core logic of the Kanari node: chain and multichain identifiers,
//! decimal text codecs, the DA batch maker and the DA meta store with its
//! repair procedures, the indexer's object-type range queries, the account
//! keystore bookkeeping, the secret-key parser, and the RPC service's
//! query and start-up decisions.

pub mod block_files;
pub mod da;
pub mod data_verify;
pub mod error;
pub mod executor;
pub mod faucet;
pub mod framework;
pub mod indexer;
pub mod keystore;
pub mod notify;
pub mod proposer;
pub mod rpc;
pub mod store;
pub mod text;
pub mod types;
