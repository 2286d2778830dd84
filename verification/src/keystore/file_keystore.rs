//! A keystore kept in a file: the keys and the path they are written to.
//! Reading and writing the file is the caller's part; every change to the
//! keys is to be written back to the path.

use crate::keystore::base_keystore::BaseKeyStore;
use vstd::prelude::*;

verus! {

/// A keystore kept in a file at `path`.
#[derive(Debug)]
pub struct FileBasedKeystore {
    pub keystore: BaseKeyStore,
    pub path: Option<String>,
}

impl FileBasedKeystore {
    /// A keystore at `path` with the keys read from it (an empty keystore
    /// when the file does not exist).
    pub fn new(keystore: BaseKeyStore, path: String) -> (r: Self)
        ensures
            r.keystore == keystore,
            r.path == Some(path),
    {
        FileBasedKeystore { keystore, path: Some(path) }
    }

    /// Moves the keystore to another path.
    pub fn set_path(&mut self, path: &str)
        ensures
            final(self).keystore == old(self).keystore,
            final(self).path matches Some(p) && p@ == path@,
    {
        self.path = Some(String::from_str(path));
    }
}

} // verus!
