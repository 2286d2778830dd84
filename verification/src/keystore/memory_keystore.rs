//! A keystore held in memory only.

use crate::keystore::base_keystore::BaseKeyStore;
use vstd::prelude::*;

verus! {

/// A keystore held in memory only.
#[derive(Debug)]
pub struct InMemKeystore {
    pub keystore: BaseKeyStore,
}

impl InMemKeystore {
    /// An empty in-memory keystore.
    pub fn new() -> (r: Self)
        ensures
            r.keystore.keys@.is_empty(),
            r.keystore.mnemonic is None,
            r.keystore.session_keys@.is_empty(),
            r.keystore.password_hash is None,
            r.keystore.is_password_empty,
    {
        InMemKeystore { keystore: BaseKeyStore::new() }
    }
}

} // verus!
