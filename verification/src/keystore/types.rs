//! The records a keystore holds: encrypted keys, the mnemonic, session keys
//! and the accounts it lists. Encryption and key derivation happen outside
//! the library; these records carry their results.

use crate::types::address::{BitcoinAddress, KanariAddress};
use vstd::prelude::*;

verus! {

/// A secret encrypted under the keystore password: the hash of the
/// password, and the nonce, ciphertext and tag of the encryption.
#[derive(Debug, Clone, PartialEq, Eq)]
pub struct EncryptionData {
    pub hashed_password: String,
    pub nonce: Vec<u8>,
    pub ciphertext: Vec<u8>,
    pub tag: Vec<u8>,
}

/// The mnemonic of a keystore: the addresses derived from it, in the order
/// of their derivation, and the encrypted phrase.
#[derive(Debug, Clone, PartialEq, Eq)]
pub struct MnemonicData {
    pub addresses: Vec<KanariAddress>,
    pub mnemonic_phrase_encryption: EncryptionData,
}

/// A function a session key may call.
#[derive(Debug, Clone, PartialEq, Eq)]
pub struct SessionScope {
    pub module_address: String,
    pub module_name: String,
    pub function_name: String,
}

/// A session key as the chain records it.
#[derive(Debug, Clone, PartialEq, Eq)]
pub struct SessionKey {
    pub app_name: String,
    pub app_url: String,
    pub authentication_key: Vec<u8>,
    pub scopes: Vec<SessionScope>,
    pub create_time: u64,
    pub last_active_time: u64,
    pub max_inactive_interval: u64,
}

/// A session key of the keystore: its encrypted private key, and the
/// on-chain session key once it is bound.
#[derive(Debug, Clone, PartialEq, Eq)]
pub struct LocalSessionKey {
    pub session_key: Option<SessionKey>,
    pub private_key: EncryptionData,
}

/// A local session key under its authentication key.
#[derive(Debug, Clone, PartialEq, Eq)]
pub struct SessionKeyEntry {
    pub authentication_key: Vec<u8>,
    pub local_session_key: LocalSessionKey,
}

/// An account of the keystore as it is listed: its addresses, its public
/// key, and whether it has session keys.
#[derive(Debug, Clone, PartialEq, Eq)]
pub struct LocalAccount {
    pub address: KanariAddress,
    pub bitcoin_address: BitcoinAddress,
    pub nostr_bech32_public_key: String,
    pub public_key: Vec<u8>,
    pub has_session_key: bool,
}

/// An account imported from a mnemonic: its address and encrypted key.
#[derive(Debug, Clone, PartialEq, Eq)]
pub struct ImportedMnemonic {
    pub address: KanariAddress,
    pub encryption: EncryptionData,
}

/// Why a keystore operation failed.
#[derive(Debug, Copy, Clone, PartialEq, Eq, Structural)]
pub enum KeystoreError {
    /// The keystore already has mnemonic data.
    MnemonicDataExists,
    /// The keystore has no mnemonic data yet.
    MnemonicDataMissing,
    /// The mnemonic data lists no address.
    MnemonicAddressesEmpty,
    /// No key is stored for the address.
    KeyNotFound(KanariAddress),
    /// No session key is stored for the address and authentication key.
    SessionKeyNotFound(KanariAddress),
    /// No session key at all is stored for the address.
    NoSessionKeysForAddress(KanariAddress),
}

} // verus!
