//! Keystores: the keys of the accounts, either in memory or kept in a file,
//! behind one type that dispatches to the kind it is.

pub mod base_keystore;
pub mod file_keystore;
pub mod laws;
pub mod memory_keystore;
pub mod types;

use crate::keystore::base_keystore::{
    BaseKeyStore, add_key_post, add_mnemonic_address_post, add_session_key_post,
    binding_session_key_post, init_mnemonic_post, lists_addresses, nullify_post, same_password,
    set_password_post, with_key,
};
use crate::keystore::file_keystore::FileBasedKeystore;
use crate::keystore::memory_keystore::InMemKeystore;
use crate::keystore::types::{EncryptionData, KeystoreError, MnemonicData, SessionKey};
use crate::types::address::KanariAddress;
use vstd::prelude::*;

verus! {

/// A keystore, kept in a file or in memory.
#[derive(Debug)]
pub enum Keystore {
    File(FileBasedKeystore),
    InMem(InMemKeystore),
}

/// The text of a path as Rust's `Debug` writes it: between double quotes,
/// with quotes, backslashes and control characters escaped.
pub uninterp spec fn debug_path(s: Seq<char>) -> Seq<char>;

/// The `Debug` text of the path `s`.
///
/// Trusted: calls `format!("{:?}", Path::new(s))`, std's `Debug` for a
/// path, which depends on the text alone; the result is named, not described.
#[verifier::external_body]
fn path_debug_text(s: &str) -> (r: String)
    ensures
        r@ == debug_path(s@),
{
    format!("{:?}", std::path::Path::new(s))
}

/// The text that describes a keystore: its kind and, for a file, its path
/// as `Debug` writes an optional path.
pub open spec fn keystore_text(k: Keystore) -> Seq<char> {
    match k {
        Keystore::File(f) => "Keystore Type : Kanari File\n"@ + "Keystore Path : "@ + match f.path {
            Some(p) => "Some("@ + debug_path(p@) + ")"@,
            None => "None"@,
        },
        Keystore::InMem(_) => "Keystore Type : Kanari InMem\n"@,
    }
}

impl Keystore {
    /// The keys of the keystore, whatever its kind.
    pub open spec fn base(&self) -> BaseKeyStore {
        match self {
            Keystore::File(f) => f.keystore,
            Keystore::InMem(m) => m.keystore,
        }
    }

    /// `new` is of the kind of `old`, at the same path for a file.
    pub open spec fn same_kind(old: Keystore, new: Keystore) -> bool {
        match (old, new) {
            (Keystore::File(a), Keystore::File(b)) => a.path == b.path,
            (Keystore::InMem(_), Keystore::InMem(_)) => true,
            _ => false,
        }
    }

    pub fn init_mnemonic_data(&mut self, mnemonic_data: MnemonicData) -> (r: Result<(), KeystoreError>)
        ensures
            Self::same_kind(*old(self), *final(self)),
            init_mnemonic_post(old(self).base(), final(self).base(), mnemonic_data, r),
    {
        match self {
            Keystore::File(f) => f.keystore.init_mnemonic_data(mnemonic_data),
            Keystore::InMem(m) => m.keystore.init_mnemonic_data(mnemonic_data),
        }
    }

    pub fn add_addresses_to_mnemonic_data(&mut self, address: KanariAddress) -> (r: Result<(), KeystoreError>)
        ensures
            Self::same_kind(*old(self), *final(self)),
            add_mnemonic_address_post(old(self).base(), final(self).base(), address, r),
    {
        match self {
            Keystore::File(f) => f.keystore.add_addresses_to_mnemonic_data(address),
            Keystore::InMem(m) => m.keystore.add_addresses_to_mnemonic_data(address),
        }
    }

    pub fn contains_address(&self, address: &KanariAddress) -> (r: bool)
        ensures
            r == self.base().keys@.contains_key(address.key()),
    {
        match self {
            Keystore::File(f) => f.keystore.contains_address(address),
            Keystore::InMem(m) => m.keystore.contains_address(address),
        }
    }

    pub fn add_address_encryption_data_to_keys(&mut self, address: KanariAddress, encryption: EncryptionData) -> (r: Result<(), KeystoreError>)
        ensures
            Self::same_kind(*old(self), *final(self)),
            add_key_post(old(self).base(), final(self).base(), address, encryption, r),
    {
        match self {
            Keystore::File(f) => f.keystore.add_address_encryption_data_to_keys(address, encryption),
            Keystore::InMem(m) => m.keystore.add_address_encryption_data_to_keys(address, encryption),
        }
    }

    pub fn nullify(&mut self, address: &KanariAddress) -> (r: Result<(), KeystoreError>)
        ensures
            Self::same_kind(*old(self), *final(self)),
            nullify_post(old(self).base(), final(self).base(), *address, r),
    {
        match self {
            Keystore::File(f) => f.keystore.nullify(address),
            Keystore::InMem(m) => m.keystore.nullify(address),
        }
    }

    pub fn add_session_key(&mut self, address: &KanariAddress, authentication_key: Vec<u8>, private_key: EncryptionData)
        ensures
            Self::same_kind(*old(self), *final(self)),
            add_session_key_post(old(self).base(), final(self).base(), *address, authentication_key, private_key),
    {
        match self {
            Keystore::File(f) => f.keystore.add_session_key(address, authentication_key, private_key),
            Keystore::InMem(m) => m.keystore.add_session_key(address, authentication_key, private_key),
        }
    }

    pub fn binding_session_key(&mut self, address: KanariAddress, session_key: SessionKey) -> (r: Result<(), KeystoreError>)
        ensures
            Self::same_kind(*old(self), *final(self)),
            binding_session_key_post(old(self).base(), final(self).base(), address, session_key, r),
    {
        match self {
            Keystore::File(f) => f.keystore.binding_session_key(address, session_key),
            Keystore::InMem(m) => m.keystore.binding_session_key(address, session_key),
        }
    }

    pub fn addresses(&self) -> (r: Vec<KanariAddress>)
        ensures
            lists_addresses(self.base(), r@),
    {
        match self {
            Keystore::File(f) => f.keystore.addresses(),
            Keystore::InMem(m) => m.keystore.addresses(),
        }
    }

    pub fn set_password_hash_with_indicator(&mut self, password_hash: String, is_password_empty: bool) -> (r: Result<(), KeystoreError>)
        ensures
            Self::same_kind(*old(self), *final(self)),
            set_password_post(old(self).base(), final(self).base(), password_hash, is_password_empty, r),
    {
        match self {
            Keystore::File(f) => f.keystore.set_password_hash_with_indicator(password_hash, is_password_empty),
            Keystore::InMem(m) => m.keystore.set_password_hash_with_indicator(password_hash, is_password_empty),
        }
    }

    pub fn get_password_hash(&self) -> (r: String)
        ensures
            self.base().password_hash matches Some(h) ==> r@ == h@,
            self.base().password_hash is None ==> r@ == Seq::<char>::empty(),
    {
        match self {
            Keystore::File(f) => f.keystore.get_password_hash(),
            Keystore::InMem(m) => m.keystore.get_password_hash(),
        }
    }

    pub fn get_if_password_is_empty(&self) -> (r: bool)
        ensures
            r == self.base().is_password_empty,
    {
        match self {
            Keystore::File(f) => f.keystore.get_if_password_is_empty(),
            Keystore::InMem(m) => m.keystore.get_if_password_is_empty(),
        }
    }

    /// The keys of the keystore, to read.
    pub fn base_ref(&self) -> (r: &BaseKeyStore)
        ensures
            *r == self.base(),
    {
        match self {
            Keystore::File(f) => &f.keystore,
            Keystore::InMem(m) => &m.keystore,
        }
    }

    pub fn record_initial_key(
        &mut self,
        address: KanariAddress,
        private_key_encryption: EncryptionData,
        mnemonic_phrase_encryption: EncryptionData,
    ) -> (r: Result<(), KeystoreError>)
        ensures
            Self::same_kind(*old(self), *final(self)),
            final(self).base().keys@ == with_key(old(self).base().keys@, address, private_key_encryption),
            final(self).base().session_keys == old(self).base().session_keys,
            same_password(old(self).base(), final(self).base()),
            old(self).base().mnemonic is Some ==> r == Err::<(), KeystoreError>(KeystoreError::MnemonicDataExists)
                && final(self).base().mnemonic == old(self).base().mnemonic,
            old(self).base().mnemonic is None ==> r is Ok && (final(self).base().mnemonic matches Some(d)
                && d.addresses@ == seq![address] && d.mnemonic_phrase_encryption == mnemonic_phrase_encryption),
    {
        match self {
            Keystore::File(f) => f.keystore.record_initial_key(address, private_key_encryption, mnemonic_phrase_encryption),
            Keystore::InMem(m) => m.keystore.record_initial_key(address, private_key_encryption, mnemonic_phrase_encryption),
        }
    }

    pub fn record_derived_key(&mut self, address: KanariAddress, private_key_encryption: EncryptionData) -> (r: Result<(), KeystoreError>)
        ensures
            Self::same_kind(*old(self), *final(self)),
            final(self).base().keys@ == with_key(old(self).base().keys@, address, private_key_encryption),
            final(self).base().session_keys == old(self).base().session_keys,
            same_password(old(self).base(), final(self).base()),
            match old(self).base().mnemonic {
                None => r == Err::<(), KeystoreError>(KeystoreError::MnemonicDataMissing)
                    && final(self).base().mnemonic is None,
                Some(d) => if d.addresses@.len() == 0 {
                    r == Err::<(), KeystoreError>(KeystoreError::MnemonicAddressesEmpty)
                        && final(self).base().mnemonic == old(self).base().mnemonic
                } else {
                    r is Ok && (final(self).base().mnemonic matches Some(d2) && d2.addresses@ == d.addresses@.push(
                        address,
                    ) && d2.mnemonic_phrase_encryption == d.mnemonic_phrase_encryption)
                },
            },
    {
        match self {
            Keystore::File(f) => f.keystore.record_derived_key(address, private_key_encryption),
            Keystore::InMem(m) => m.keystore.record_derived_key(address, private_key_encryption),
        }
    }

    /// The text that describes the keystore.
    pub fn to_string(&self) -> (r: String)
        ensures
            r@ == keystore_text(*self),
    {
        match self {
            Keystore::File(f) => {
                let mut s = String::from_str("Keystore Type : Kanari File\n");
                s.append("Keystore Path : ");
                match &f.path {
                    Some(p) => {
                        s.append("Some(");
                        let d = path_debug_text(p.as_str());
                        s.append(d.as_str());
                        s.append(")");
                    },
                    None => {
                        s.append("None");
                    },
                }
                s
            },
            Keystore::InMem(_) => String::from_str("Keystore Type : Kanari InMem\n"),
        }
    }
}

} // verus!
