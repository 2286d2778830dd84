//! The bookkeeping of a keystore: encrypted keys by address, the mnemonic
//! and its derived addresses, session keys by address and authentication
//! key, and the password hash.

use crate::keystore::types::{
    EncryptionData, KeystoreError, LocalSessionKey, MnemonicData, SessionKey, SessionKeyEntry,
};
use crate::types::address::KanariAddress;
use std::collections::BTreeMap;
use vstd::prelude::*;
use vstd::std_specs::btree::increasing_seq;
use vstd::std_specs::cmp::OrdSpec;
use vstd::std_specs::iter::IteratorSpec;

verus! {

broadcast use {vstd::std_specs::btree::group_btree_axioms, vstd::laws_cmp::group_laws_cmp};

/// The keys of a keystore: encrypted keys and session keys by the key of
/// their address.
#[derive(Debug)]
pub struct BaseKeyStore {
    pub keys: BTreeMap<(u128, u128), EncryptionData>,
    pub mnemonic: Option<MnemonicData>,
    pub session_keys: BTreeMap<(u128, u128), Vec<SessionKeyEntry>>,
    pub password_hash: Option<String>,
    pub is_password_empty: bool,
}

/// `i` is the first entry of `s` under the authentication key `k`.
pub open spec fn is_first_entry(s: Seq<SessionKeyEntry>, k: Seq<u8>, i: int) -> bool {
    &&& 0 <= i < s.len()
    &&& s[i].authentication_key@ == k
    &&& forall|j: int| 0 <= j < i ==> s[j].authentication_key@ != k
}

/// No entry of `s` is under the authentication key `k`.
pub open spec fn has_no_entry(s: Seq<SessionKeyEntry>, k: Seq<u8>) -> bool {
    forall|j: int| 0 <= j < s.len() ==> s[j].authentication_key@ != k
}

/// The session keys stored for an address (none when it has no map).
pub open spec fn session_entries(m: Map<(u128, u128), Vec<SessionKeyEntry>>, a: KanariAddress) -> Seq<SessionKeyEntry> {
    if m.contains_key(a.key()) {
        m[a.key()]@
    } else {
        Seq::<SessionKeyEntry>::empty()
    }
}

/// `i` is the first position of the address `a` in `s`.
pub open spec fn is_first_address(s: Seq<KanariAddress>, a: KanariAddress, i: int) -> bool {
    &&& 0 <= i < s.len()
    &&& s[i] == a
    &&& forall|j: int| 0 <= j < i ==> s[j] != a
}

/// Addresses in strictly increasing order of their keys.
pub open spec fn keys_increasing(s: Seq<(u128, u128)>) -> bool {
    forall|i: int, j: int|
        0 <= i < j < s.len() ==> s[i].0 < s[j].0 || (s[i].0 == s[j].0 && s[i].1 < s[j].1)
}

/// `s` lists the keys of `d` once each, in increasing order.
pub open spec fn lists_in_order(s: Seq<(u128, u128)>, d: Set<(u128, u128)>) -> bool {
    &&& s.to_set() == d
    &&& s.no_duplicates()
    &&& keys_increasing(s)
}

/// `r` lists the addresses with a stored key, then those with session keys,
/// each in increasing order.
pub open spec fn lists_addresses(k: BaseKeyStore, r: Seq<KanariAddress>) -> bool {
    exists|a: Seq<(u128, u128)>, b: Seq<(u128, u128)>|
        {
            &&& lists_in_order(a, k.keys@.dom())
            &&& lists_in_order(b, k.session_keys@.dom())
            &&& r == (a + b).map_values(|x: (u128, u128)| KanariAddress { high: x.0, low: x.1 })
        }
}

fn bytes_eq(a: &Vec<u8>, b: &Vec<u8>) -> (r: bool)
    ensures
        r == (a@ == b@),
{
    if a.len() != b.len() {
        return false;
    }
    let mut i: usize = 0;
    while i < a.len()
        invariant
            0 <= i <= a@.len() == b@.len(),
            forall|k: int| 0 <= k < i ==> a@[k] == b@[k],
        decreases a@.len() - i,
    {
        if a[i] != b[i] {
            return false;
        }
        i = i + 1;
    }
    proof {
        assert(a@ =~= b@);
    }
    true
}

/// The position of the first entry under the authentication key `k`.
fn find_entry(entries: &Vec<SessionKeyEntry>, k: &Vec<u8>) -> (r: Option<usize>)
    ensures
        match r {
            Some(i) => is_first_entry(entries@, k@, i as int),
            None => has_no_entry(entries@, k@),
        },
{
    let mut i: usize = 0;
    while i < entries.len()
        invariant
            0 <= i <= entries@.len(),
            forall|j: int| 0 <= j < i ==> entries@[j].authentication_key@ != k@,
        decreases entries@.len() - i,
    {
        if bytes_eq(&entries[i].authentication_key, k) {
            return Some(i);
        }
        i = i + 1;
    }
    None
}

/// The position of the first occurrence of `a`.
fn find_address(s: &Vec<KanariAddress>, a: KanariAddress) -> (r: Option<usize>)
    ensures
        match r {
            Some(i) => is_first_address(s@, a, i as int),
            None => !s@.contains(a),
        },
{
    let mut i: usize = 0;
    while i < s.len()
        invariant
            0 <= i <= s@.len(),
            forall|j: int| 0 <= j < i ==> s@[j] != a,
        decreases s@.len() - i,
    {
        if s[i].high == a.high && s[i].low == a.low {
            return Some(i);
        }
        i = i + 1;
    }
    None
}

proof fn lemma_increasing_at<K: Ord>(s: Seq<K>, i: int, j: int)
    requires
        vstd::laws_cmp::obeys_cmp::<K>(),
        increasing_seq(s),
        0 <= i < j < s.len(),
    ensures
        s[i].cmp_spec(&s[j]) is Less,
{
    vstd::std_specs::btree::axiom_increasing_seq_meaning(s);
}

/// The keys of a map, in the order a map walk yields them, are in
/// increasing order of their two halves.
proof fn lemma_walked_keys_increasing(rs: Seq<&(u128, u128)>, s: Seq<(u128, u128)>)
    requires
        increasing_seq(rs),
        rs.unref() == s,
    ensures
        keys_increasing(s),
{
    assert(vstd::laws_cmp::obeys_cmp::<(u128, u128)>());
    assert(vstd::laws_cmp::obeys_cmp::<&(u128, u128)>());
    assert forall|i: int, j: int| 0 <= i < j < s.len() implies s[i].0 < s[j].0 || (s[i].0 == s[j].0
        && s[i].1 < s[j].1) by {
        lemma_increasing_at(rs, i, j);
    }
}

fn push_keys_in_order<V>(m: &BTreeMap<(u128, u128), V>, out: &mut Vec<KanariAddress>)
    ensures
        exists|s: Seq<(u128, u128)>|
            {
                &&& lists_in_order(s, m@.dom())
                &&& final(out)@ == old(out)@ + s.map_values(|k: (u128, u128)| KanariAddress { high: k.0, low: k.1 })
            },
{
    let ghost s = m.keys().remaining().unref();
    let ghost o = out@;
    for k in it: m.keys()
        invariant
            it.seq().unref() == s,
            out@ == o + s.take(it.index() as int).map_values(
                |k: (u128, u128)| KanariAddress { high: k.0, low: k.1 },
            ),
    {
        out.push(KanariAddress { high: k.0, low: k.1 });
        proof {
            assert(s.take(it.index() + 1) =~= s.take(it.index() as int).push(*k));
            assert(out@ =~= o + s.take(it.index() + 1).map_values(
                |k: (u128, u128)| KanariAddress { high: k.0, low: k.1 },
            ));
        }
    }
    proof {
        assert(s.take(s.len() as int) =~= s);
        lemma_walked_keys_increasing(m.keys().remaining(), s);
        assert(lists_in_order(s, m@.dom()));
    }
}

/// The parts of the keystore other than its keys, mnemonic and session keys
/// are those of `old`.
pub open spec fn same_password(old: BaseKeyStore, new: BaseKeyStore) -> bool {
    new.password_hash == old.password_hash && new.is_password_empty == old.is_password_empty
}

/// Recording the mnemonic data: refused when the keystore has one.
pub open spec fn init_mnemonic_post(
    old: BaseKeyStore,
    new: BaseKeyStore,
    mnemonic_data: MnemonicData,
    r: Result<(), KeystoreError>,
) -> bool {
    match old.mnemonic {
        Some(_) => r == Err::<(), KeystoreError>(KeystoreError::MnemonicDataExists) && new == old,
        None => {
            &&& r is Ok
            &&& new.mnemonic == Some(mnemonic_data)
            &&& new.keys == old.keys
            &&& new.session_keys == old.session_keys
            &&& same_password(old, new)
        },
    }
}

/// Appending a derived address: refused without mnemonic data or when it
/// lists no address.
pub open spec fn add_mnemonic_address_post(
    old: BaseKeyStore,
    new: BaseKeyStore,
    address: KanariAddress,
    r: Result<(), KeystoreError>,
) -> bool {
    match old.mnemonic {
        None => r == Err::<(), KeystoreError>(KeystoreError::MnemonicDataMissing) && new == old,
        Some(d) => if d.addresses@.len() == 0 {
            r == Err::<(), KeystoreError>(KeystoreError::MnemonicAddressesEmpty) && new == old
        } else {
            &&& r is Ok
            &&& (new.mnemonic matches Some(d2) && d2.addresses@ == d.addresses@.push(address)
                && d2.mnemonic_phrase_encryption == d.mnemonic_phrase_encryption)
            &&& new.keys == old.keys
            &&& new.session_keys == old.session_keys
            &&& same_password(old, new)
        },
    }
}

/// The keys with `e` stored for the address, unless a key is stored for it.
pub open spec fn with_key(keys: Map<(u128, u128), EncryptionData>, address: KanariAddress, e: EncryptionData) -> Map<(u128, u128), EncryptionData> {
    if keys.contains_key(address.key()) {
        keys
    } else {
        keys.insert(address.key(), e)
    }
}

/// Storing an encrypted key: a key already stored for the address is kept.
pub open spec fn add_key_post(
    old: BaseKeyStore,
    new: BaseKeyStore,
    address: KanariAddress,
    encryption: EncryptionData,
    r: Result<(), KeystoreError>,
) -> bool {
    &&& r is Ok
    &&& new.keys@ == with_key(old.keys@, address, encryption)
    &&& new.mnemonic == old.mnemonic
    &&& new.session_keys == old.session_keys
    &&& same_password(old, new)
}

/// Forgetting an address: its key, and its first occurrence among the
/// mnemonic addresses.
pub open spec fn nullify_post(old: BaseKeyStore, new: BaseKeyStore, address: KanariAddress, r: Result<(), KeystoreError>) -> bool {
    &&& r is Ok
    &&& new.keys@ == old.keys@.remove(address.key())
    &&& match old.mnemonic {
        None => new.mnemonic is None,
        Some(d) => new.mnemonic matches Some(d2) && d2.mnemonic_phrase_encryption == d.mnemonic_phrase_encryption
            && (if d.addresses@.contains(address) {
            exists|i: int| is_first_address(d.addresses@, address, i) && d2.addresses@ == d.addresses@.remove(i)
        } else {
            d2.addresses@ == d.addresses@
        }),
    }
    &&& new.session_keys == old.session_keys
    &&& same_password(old, new)
}

/// The session maps of `new` are those of `old` but for the address, which
/// has one.
pub open spec fn only_session_map_of(old: BaseKeyStore, new: BaseKeyStore, address: KanariAddress) -> bool {
    &&& new.session_keys@.contains_key(address.key())
    &&& new.session_keys@.remove(address.key()) == old.session_keys@.remove(address.key())
    &&& new.keys == old.keys
    &&& new.mnemonic == old.mnemonic
    &&& same_password(old, new)
}

/// Storing a new session key under its authentication key, with no on-chain
/// session key yet; an entry under the same key is replaced.
pub open spec fn add_session_key_post(
    old: BaseKeyStore,
    new: BaseKeyStore,
    address: KanariAddress,
    authentication_key: Vec<u8>,
    private_key: EncryptionData,
) -> bool {
    let old_s = session_entries(old.session_keys@, address);
    let new_s = session_entries(new.session_keys@, address);
    let entry = SessionKeyEntry {
        authentication_key,
        local_session_key: LocalSessionKey { session_key: None, private_key },
    };
    &&& only_session_map_of(old, new, address)
    &&& has_no_entry(old_s, authentication_key@) ==> new_s == old_s.push(entry)
    &&& forall|i: int| is_first_entry(old_s, authentication_key@, i) ==> new_s == old_s.update(i, entry)
}

/// The entry with the on-chain session key bound to it.
pub open spec fn bound_entry(e: SessionKeyEntry, session_key: SessionKey) -> SessionKeyEntry {
    SessionKeyEntry {
        authentication_key: e.authentication_key,
        local_session_key: LocalSessionKey {
            session_key: Some(session_key),
            private_key: e.local_session_key.private_key,
        },
    }
}

/// Binding an on-chain session key to the local one under its
/// authentication key: refused when there is none; the address has a
/// session map afterwards either way.
pub open spec fn binding_session_key_post(
    old: BaseKeyStore,
    new: BaseKeyStore,
    address: KanariAddress,
    session_key: SessionKey,
    r: Result<(), KeystoreError>,
) -> bool {
    let old_s = session_entries(old.session_keys@, address);
    let new_s = session_entries(new.session_keys@, address);
    let k = session_key.authentication_key@;
    &&& only_session_map_of(old, new, address)
    &&& has_no_entry(old_s, k) ==> r == Err::<(), KeystoreError>(KeystoreError::SessionKeyNotFound(address))
        && new_s == old_s
    &&& forall|i: int|
        is_first_entry(old_s, k, i) ==> r is Ok && new_s == old_s.update(i, bound_entry(old_s[i], session_key))
}

/// Recording the password hash and whether the password is empty.
pub open spec fn set_password_post(
    old: BaseKeyStore,
    new: BaseKeyStore,
    password_hash: String,
    is_password_empty: bool,
    r: Result<(), KeystoreError>,
) -> bool {
    &&& r is Ok
    &&& new.password_hash == Some(password_hash)
    &&& new.is_password_empty == is_password_empty
    &&& new.keys == old.keys
    &&& new.mnemonic == old.mnemonic
    &&& new.session_keys == old.session_keys
}

impl BaseKeyStore {
    /// An empty keystore whose password is empty.
    pub fn new() -> (r: Self)
        ensures
            r.keys@ == Map::<(u128, u128), EncryptionData>::empty(),
            r.mnemonic is None,
            r.session_keys@ == Map::<(u128, u128), Vec<SessionKeyEntry>>::empty(),
            r.password_hash is None,
            r.is_password_empty,
    {
        BaseKeyStore {
            keys: BTreeMap::new(),
            mnemonic: None,
            session_keys: BTreeMap::new(),
            password_hash: None,
            is_password_empty: true,
        }
    }

    /// Records the mnemonic data; fails when the keystore already has one.
    pub fn init_mnemonic_data(&mut self, mnemonic_data: MnemonicData) -> (r: Result<(), KeystoreError>)
        ensures
            init_mnemonic_post(*old(self), *final(self), mnemonic_data, r),
    {
        if self.mnemonic.is_some() {
            return Err(KeystoreError::MnemonicDataExists);
        }
        self.mnemonic = Some(mnemonic_data);
        Ok(())
    }

    /// Appends an address derived from the mnemonic; fails without mnemonic
    /// data, or when it lists no address yet.
    pub fn add_addresses_to_mnemonic_data(&mut self, address: KanariAddress) -> (r: Result<(), KeystoreError>)
        ensures
            add_mnemonic_address_post(*old(self), *final(self), address, r),
    {
        match self.mnemonic.take() {
            None => Err(KeystoreError::MnemonicDataMissing),
            Some(mut d) => {
                if d.addresses.len() == 0 {
                    self.mnemonic = Some(d);
                    return Err(KeystoreError::MnemonicAddressesEmpty);
                }
                d.addresses.push(address);
                self.mnemonic = Some(d);
                Ok(())
            },
        }
    }

    /// Records the first account of a new keystore: its encrypted key, then
    /// the mnemonic data listing its address (refused, with the key kept,
    /// when the keystore already has mnemonic data).
    pub fn record_initial_key(
        &mut self,
        address: KanariAddress,
        private_key_encryption: EncryptionData,
        mnemonic_phrase_encryption: EncryptionData,
    ) -> (r: Result<(), KeystoreError>)
        ensures
            final(self).keys@ == with_key(old(self).keys@, address, private_key_encryption),
            final(self).session_keys == old(self).session_keys,
            same_password(*old(self), *final(self)),
            old(self).mnemonic is Some ==> r == Err::<(), KeystoreError>(KeystoreError::MnemonicDataExists)
                && final(self).mnemonic == old(self).mnemonic,
            old(self).mnemonic is None ==> r is Ok && (final(self).mnemonic matches Some(d) && d.addresses@
                == seq![address] && d.mnemonic_phrase_encryption == mnemonic_phrase_encryption),
    {
        let _ = self.add_address_encryption_data_to_keys(address, private_key_encryption);
        let mut addresses: Vec<KanariAddress> = Vec::new();
        addresses.push(address);
        let r = self.init_mnemonic_data(MnemonicData { addresses, mnemonic_phrase_encryption });
        proof {
            if old(self).mnemonic is None {
                assert(self.mnemonic.unwrap().addresses@ =~= seq![address]);
            }
        }
        r
    }

    /// The derivation index of the next account: the number of addresses
    /// derived from the mnemonic (taken as a 32-bit number).
    pub fn next_account_index(&self) -> (r: Result<u32, KeystoreError>)
        ensures
            self.mnemonic matches Some(d) ==> r == Ok::<u32, KeystoreError>(d.addresses@.len() as u32),
            self.mnemonic is None ==> r == Err::<u32, KeystoreError>(KeystoreError::MnemonicDataMissing),
    {
        match &self.mnemonic {
            Some(d) => Ok(d.addresses.len() as u32),
            None => Err(KeystoreError::MnemonicDataMissing),
        }
    }

    /// Records an account derived from the mnemonic: its encrypted key, then
    /// its address among the mnemonic's (refused as appending is, with the
    /// key kept).
    pub fn record_derived_key(&mut self, address: KanariAddress, private_key_encryption: EncryptionData) -> (r: Result<(), KeystoreError>)
        ensures
            final(self).keys@ == with_key(old(self).keys@, address, private_key_encryption),
            final(self).session_keys == old(self).session_keys,
            same_password(*old(self), *final(self)),
            match old(self).mnemonic {
                None => r == Err::<(), KeystoreError>(KeystoreError::MnemonicDataMissing) && final(self).mnemonic
                    is None,
                Some(d) => if d.addresses@.len() == 0 {
                    r == Err::<(), KeystoreError>(KeystoreError::MnemonicAddressesEmpty) && final(self).mnemonic
                        == old(self).mnemonic
                } else {
                    r is Ok && (final(self).mnemonic matches Some(d2) && d2.addresses@ == d.addresses@.push(address)
                        && d2.mnemonic_phrase_encryption == d.mnemonic_phrase_encryption)
                },
            },
    {
        let _ = self.add_address_encryption_data_to_keys(address, private_key_encryption);
        self.add_addresses_to_mnemonic_data(address)
    }

    /// Whether a key is stored for the address.
    pub fn contains_address(&self, address: &KanariAddress) -> (r: bool)
        ensures
            r == self.keys@.contains_key(address.key()),
    {
        self.keys.contains_key(&(address.high, address.low))
    }

    /// Stores the encrypted key of an address, unless one is stored already
    /// (the stored one is then kept).
    pub fn add_address_encryption_data_to_keys(&mut self, address: KanariAddress, encryption: EncryptionData) -> (r: Result<(), KeystoreError>)
        ensures
            add_key_post(*old(self), *final(self), address, encryption, r),
    {
        let k = (address.high, address.low);
        if !self.keys.contains_key(&k) {
            self.keys.insert(k, encryption);
        }
        Ok(())
    }

    /// Forgets the key of an address, and the address among those derived
    /// from the mnemonic (its first occurrence).
    pub fn nullify(&mut self, address: &KanariAddress) -> (r: Result<(), KeystoreError>)
        ensures
            nullify_post(*old(self), *final(self), *address, r),
    {
        self.keys.remove(&(address.high, address.low));
        match self.mnemonic.take() {
            None => {},
            Some(mut d) => {
                match find_address(&d.addresses, *address) {
                    Some(i) => {
                        d.addresses.remove(i);
                    },
                    None => {},
                }
                self.mnemonic = Some(d);
            },
        }
        Ok(())
    }

    /// The encrypted key of an address.
    pub fn get_key_encryption(&self, address: &KanariAddress) -> (r: Result<&EncryptionData, KeystoreError>)
        ensures
            self.keys@.contains_key(address.key()) ==> (r matches Ok(e) && *e == self.keys@[address.key()]),
            !self.keys@.contains_key(address.key()) ==> r == Err::<&EncryptionData, KeystoreError>(
                KeystoreError::KeyNotFound(*address),
            ),
    {
        match self.keys.get(&(address.high, address.low)) {
            Some(e) => Ok(e),
            None => Err(KeystoreError::KeyNotFound(*address)),
        }
    }

    /// The mnemonic data; fails before the keystore is initialised.
    pub fn get_mnemonic_data(&self) -> (r: Result<&MnemonicData, KeystoreError>)
        ensures
            self.mnemonic matches Some(d) ==> (r matches Ok(d2) && *d2 == d),
            self.mnemonic is None ==> r == Err::<&MnemonicData, KeystoreError>(
                KeystoreError::MnemonicDataMissing,
            ),
    {
        match &self.mnemonic {
            Some(d) => Ok(d),
            None => Err(KeystoreError::MnemonicDataMissing),
        }
    }

    /// Whether the address has a map of session keys.
    pub fn has_session_key(&self, address: &KanariAddress) -> (r: bool)
        ensures
            r == self.session_keys@.contains_key(address.key()),
    {
        self.session_keys.contains_key(&(address.high, address.low))
    }

    /// Stores a new session key of an address under its authentication key,
    /// with its encrypted private key and no on-chain session key yet; an
    /// entry under the same authentication key is replaced.
    pub fn add_session_key(&mut self, address: &KanariAddress, authentication_key: Vec<u8>, private_key: EncryptionData)
        ensures
            add_session_key_post(*old(self), *final(self), *address, authentication_key, private_key),
    {
        let k = (address.high, address.low);
        let mut entries = match self.session_keys.remove(&k) {
            Some(v) => v,
            None => Vec::new(),
        };
        let ghost old_s = entries@;
        let entry = SessionKeyEntry {
            authentication_key,
            local_session_key: LocalSessionKey { session_key: None, private_key },
        };
        match find_entry(&entries, &entry.authentication_key) {
            Some(i) => {
                entries.set(i, entry);
                proof {
                    assert forall|j: int| is_first_entry(old_s, entry.authentication_key@, j) implies entries@
                        == old_s.update(j, entry) by {
                        if j < i {
                            assert(old_s[j].authentication_key@ != entry.authentication_key@);
                        } else if j > i {
                            assert(old_s[i as int].authentication_key@ != entry.authentication_key@);
                        }
                    }
                }
            },
            None => {
                entries.push(entry);
            },
        }
        self.session_keys.insert(k, entries);
        proof {
            assert(final(self).session_keys@.remove(address.key()) =~= old(self).session_keys@.remove(address.key()));
        }
    }

    /// Binds the on-chain session key to the local session key under its
    /// authentication key; fails when the address has none under it. The
    /// address has a (possibly empty) map of session keys afterwards.
    pub fn binding_session_key(&mut self, address: KanariAddress, session_key: SessionKey) -> (r: Result<(), KeystoreError>)
        ensures
            binding_session_key_post(*old(self), *final(self), address, session_key, r),
    {
        let k = (address.high, address.low);
        let mut entries = match self.session_keys.remove(&k) {
            Some(v) => v,
            None => Vec::new(),
        };
        let ghost old_s = entries@;
        let ghost sk = session_key.authentication_key@;
        let r = match find_entry(&entries, &session_key.authentication_key) {
            Some(i) => {
                let mut entry = entries.remove(i);
                entry.local_session_key.session_key = Some(session_key);
                entries.insert(i, entry);
                proof {
                    assert(entries@ =~= old_s.update(i as int, entry));
                    assert forall|j: int| is_first_entry(old_s, sk, j) implies j == i by {
                        if j < i {
                            assert(old_s[j].authentication_key@ != sk);
                        } else if j > i {
                            assert(old_s[i as int].authentication_key@ != sk);
                        }
                    }
                }
                Ok(())
            },
            None => Err(KeystoreError::SessionKeyNotFound(address)),
        };
        self.session_keys.insert(k, entries);
        proof {
            assert(final(self).session_keys@.remove(address.key()) =~= old(self).session_keys@.remove(address.key()));
        }
        r
    }

    /// The encrypted private key of a session key, if the address has one
    /// under the authentication key; fails when the address has no session
    /// keys at all.
    pub fn get_session_key(&self, address: &KanariAddress, authentication_key: &Vec<u8>) -> (r: Result<Option<&EncryptionData>, KeystoreError>)
        ensures
            !self.session_keys@.contains_key(address.key()) ==> r == Err::<Option<&EncryptionData>, KeystoreError>(
                KeystoreError::SessionKeyNotFound(*address),
            ),
            self.session_keys@.contains_key(address.key()) ==> {
                let s = self.session_keys@[address.key()]@;
                &&& has_no_entry(s, authentication_key@) ==> r == Ok::<Option<&EncryptionData>, KeystoreError>(None)
                &&& forall|i: int|
                    is_first_entry(s, authentication_key@, i) ==> (r matches Ok(Some(e)) && *e
                        == s[i].local_session_key.private_key)
            },
    {
        match self.session_keys.get(&(address.high, address.low)) {
            None => Err(KeystoreError::SessionKeyNotFound(*address)),
            Some(entries) => match find_entry(entries, authentication_key) {
                Some(i) => {
                    proof {
                        assert forall|j: int| is_first_entry(entries@, authentication_key@, j) implies j == i by {
                            if j < i {
                                assert(entries@[j].authentication_key@ != authentication_key@);
                            } else if j > i {
                                assert(entries@[i as int].authentication_key@ != authentication_key@);
                            }
                        }
                    }
                    Ok(Some(&entries[i].local_session_key.private_key))
                },
                None => Ok(None),
            },
        }
    }

    /// The encrypted private key to sign with for a session key; fails when
    /// the address has no session keys, or none under the authentication key.
    pub fn get_session_key_for_signing(&self, address: &KanariAddress, authentication_key: &Vec<u8>) -> (r: Result<&EncryptionData, KeystoreError>)
        ensures
            !self.session_keys@.contains_key(address.key()) ==> r == Err::<&EncryptionData, KeystoreError>(
                KeystoreError::NoSessionKeysForAddress(*address),
            ),
            self.session_keys@.contains_key(address.key()) ==> {
                let s = self.session_keys@[address.key()]@;
                &&& has_no_entry(s, authentication_key@) ==> r == Err::<&EncryptionData, KeystoreError>(
                    KeystoreError::SessionKeyNotFound(*address),
                )
                &&& forall|i: int|
                    is_first_entry(s, authentication_key@, i) ==> (r matches Ok(e) && *e
                        == s[i].local_session_key.private_key)
            },
    {
        match self.get_session_key(address, authentication_key) {
            Err(_e) => Err(KeystoreError::NoSessionKeysForAddress(*address)),
            Ok(None) => Err(KeystoreError::SessionKeyNotFound(*address)),
            Ok(Some(e)) => Ok(e),
        }
    }

    /// The addresses with a stored key, then those with session keys, each
    /// in increasing order.
    pub fn addresses(&self) -> (r: Vec<KanariAddress>)
        ensures
            lists_addresses(*self, r@),
    {
        let mut out: Vec<KanariAddress> = Vec::new();
        push_keys_in_order(&self.keys, &mut out);
        let ghost mid = out@;
        push_keys_in_order(&self.session_keys, &mut out);
        proof {
            let a = choose|s: Seq<(u128, u128)>|
                lists_in_order(s, self.keys@.dom()) && mid == Seq::<KanariAddress>::empty() + s.map_values(
                    |k: (u128, u128)| KanariAddress { high: k.0, low: k.1 },
                );
            let b = choose|s: Seq<(u128, u128)>|
                lists_in_order(s, self.session_keys@.dom()) && out@ == mid + s.map_values(
                    |k: (u128, u128)| KanariAddress { high: k.0, low: k.1 },
                );
            assert(out@ =~= (a + b).map_values(|k: (u128, u128)| KanariAddress { high: k.0, low: k.1 }));
        }
        out
    }

    /// Records the password hash and whether the password is empty.
    pub fn set_password_hash_with_indicator(&mut self, password_hash: String, is_password_empty: bool) -> (r: Result<(), KeystoreError>)
        ensures
            set_password_post(*old(self), *final(self), password_hash, is_password_empty, r),
    {
        self.password_hash = Some(password_hash);
        self.is_password_empty = is_password_empty;
        Ok(())
    }

    /// The password hash, or the empty text when none is set.
    pub fn get_password_hash(&self) -> (r: String)
        ensures
            self.password_hash matches Some(h) ==> r@ == h@,
            self.password_hash is None ==> r@ == Seq::<char>::empty(),
    {
        match &self.password_hash {
            Some(h) => h.clone(),
            None => String::new(),
        }
    }

    pub fn get_if_password_is_empty(&self) -> (r: bool)
        ensures
            r == self.is_password_empty,
    {
        self.is_password_empty
    }
}

} // verus!
