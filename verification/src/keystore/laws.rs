//! What the keystore operations promise together.

use crate::keystore::base_keystore::{
    BaseKeyStore, add_key_post, only_session_map_of, add_session_key_post, binding_session_key_post, bound_entry,
    has_no_entry, is_first_entry, lists_addresses, lists_in_order, nullify_post, session_entries,
};
use crate::keystore::types::{EncryptionData, KeystoreError, LocalSessionKey, SessionKey, SessionKeyEntry};
use crate::types::address::KanariAddress;
use vstd::prelude::*;

verus! {

/// After a key is stored for an address the keystore contains the address,
/// and a key stored before is not overwritten.
pub proof fn lemma_add_key_keeps_first(
    s0: BaseKeyStore,
    s1: BaseKeyStore,
    a: KanariAddress,
    e: EncryptionData,
    r: Result<(), KeystoreError>,
)
    requires
        add_key_post(s0, s1, a, e, r),
    ensures
        s1.keys@.contains_key(a.key()),
        s0.keys@.contains_key(a.key()) ==> s1.keys@[a.key()] == s0.keys@[a.key()],
        !s0.keys@.contains_key(a.key()) ==> s1.keys@[a.key()] == e,
{
}

/// Nullifying an address after storing its key leaves no key for it, and
/// the keys of the other addresses as they were before both.
pub proof fn lemma_add_then_nullify(
    s0: BaseKeyStore,
    s1: BaseKeyStore,
    s2: BaseKeyStore,
    a: KanariAddress,
    e: EncryptionData,
    r1: Result<(), KeystoreError>,
    r2: Result<(), KeystoreError>,
)
    requires
        add_key_post(s0, s1, a, e, r1),
        nullify_post(s1, s2, a, r2),
    ensures
        !s2.keys@.contains_key(a.key()),
        s2.keys@ == s0.keys@.remove(a.key()),
{
    assert(s2.keys@ =~= s0.keys@.remove(a.key()));
}

/// A session key just stored can be bound: binding the on-chain session key
/// with its authentication key succeeds and keeps the stored private key.
pub proof fn lemma_bind_after_add_session_key(
    s0: BaseKeyStore,
    s1: BaseKeyStore,
    s2: BaseKeyStore,
    a: KanariAddress,
    private_key: EncryptionData,
    session_key: SessionKey,
    r: Result<(), KeystoreError>,
)
    requires
        add_session_key_post(s0, s1, a, session_key.authentication_key, private_key),
        binding_session_key_post(s1, s2, a, session_key, r),
    ensures
        r is Ok,
        exists|i: int|
            #![trigger session_entries(s2.session_keys@, a)[i]]
            {
                &&& 0 <= i < session_entries(s2.session_keys@, a).len()
                &&& session_entries(s2.session_keys@, a)[i].authentication_key@ == session_key.authentication_key@
                &&& session_entries(s2.session_keys@, a)[i].local_session_key.session_key == Some(session_key)
                &&& session_entries(s2.session_keys@, a)[i].local_session_key.private_key == private_key
            },
{
    let k = session_key.authentication_key@;
    let s0e = session_entries(s0.session_keys@, a);
    let s1e = session_entries(s1.session_keys@, a);
    let s2e = session_entries(s2.session_keys@, a);
    let i = lemma_added_entry_is_first(s0e, s1e, k, session_key.authentication_key, private_key);
    assert(s2e == s1e.update(i, bound_entry(s1e[i], session_key)));
    assert(s2e[i] == bound_entry(s1e[i], session_key));
}

/// After a session key is stored under `k`, its entry is the first under `k`.
proof fn lemma_added_entry_is_first(
    s0e: Seq<SessionKeyEntry>,
    s1e: Seq<SessionKeyEntry>,
    k: Seq<u8>,
    authentication_key: Vec<u8>,
    private_key: EncryptionData,
) -> (i: int)
    requires
        authentication_key@ == k,
        has_no_entry(s0e, k) ==> s1e == s0e.push(new_entry(authentication_key, private_key)),
        forall|j: int| is_first_entry(s0e, k, j) ==> s1e == s0e.update(j, new_entry(authentication_key, private_key)),
    ensures
        is_first_entry(s1e, k, i),
        s1e[i] == new_entry(authentication_key, private_key),
{
    if exists|j: int| is_first_entry(s0e, k, j) {
        let j = choose|j: int| is_first_entry(s0e, k, j);
        assert(s1e == s0e.update(j, new_entry(authentication_key, private_key)));
        j
    } else {
        assert forall|j: int| 0 <= j < s0e.len() implies s0e[j].authentication_key@ != k by {
            if s0e[j].authentication_key@ == k {
                lemma_first_exists(s0e, k, j);
            }
        }
        assert(s1e == s0e.push(new_entry(authentication_key, private_key)));
        s0e.len() as int
    }
}

/// A new local session key entry, with no on-chain session key yet.
pub open spec fn new_entry(authentication_key: Vec<u8>, private_key: EncryptionData) -> SessionKeyEntry {
    SessionKeyEntry { authentication_key, local_session_key: LocalSessionKey { session_key: None, private_key } }
}

/// Some entry under `k` means a first one.
proof fn lemma_first_exists(s: Seq<SessionKeyEntry>, k: Seq<u8>, j: int)
    requires
        0 <= j < s.len(),
        s[j].authentication_key@ == k,
    ensures
        exists|i: int| is_first_entry(s, k, i),
    decreases j,
{
    if exists|m: int| 0 <= m < j && s[m].authentication_key@ == k {
        let m = choose|m: int| 0 <= m < j && s[m].authentication_key@ == k;
        lemma_first_exists(s, k, m);
    } else {
        assert(is_first_entry(s, k, j));
    }
}

/// Every address with a stored key is listed among the addresses.
pub proof fn lemma_addresses_list_keys(k: BaseKeyStore, r: Seq<KanariAddress>, a: KanariAddress)
    requires
        lists_addresses(k, r),
        k.keys@.contains_key(a.key()),
    ensures
        r.contains(a),
{
    let (x, y) = choose|x: Seq<(u128, u128)>, y: Seq<(u128, u128)>|
        {
            &&& lists_in_order(x, k.keys@.dom())
            &&& lists_in_order(y, k.session_keys@.dom())
            &&& r == (x + y).map_values(|v: (u128, u128)| KanariAddress { high: v.0, low: v.1 })
        };
    assert(x.to_set().contains(a.key()));
    let i = choose|i: int| 0 <= i < x.len() && x[i] == a.key();
    assert((x + y)[i] == a.key());
    assert(r[i] == a);
}

/// No two session keys of an address share an authentication key.
pub open spec fn entries_unique(s: Seq<SessionKeyEntry>) -> bool {
    forall|i: int, j: int|
        0 <= i < j < s.len() ==> (#[trigger] s[i]).authentication_key@ != (#[trigger] s[j]).authentication_key@
}

/// Every address's session keys have distinct authentication keys.
pub open spec fn session_keys_unique(k: BaseKeyStore) -> bool {
    forall|a: (u128, u128)| k.session_keys@.contains_key(a) ==> entries_unique(#[trigger] k.session_keys@[a]@)
}

/// With distinct authentication keys, an entry under `k` is the first one.
proof fn lemma_unique_entry_is_first(s: Seq<SessionKeyEntry>, k: Seq<u8>) -> (i: int)
    requires
        entries_unique(s),
        !has_no_entry(s, k),
    ensures
        is_first_entry(s, k, i),
{
    let i = choose|i: int| 0 <= i < s.len() && s[i].authentication_key@ == k;
    assert forall|j: int| 0 <= j < i implies s[j].authentication_key@ != k by {
        assert(s[j].authentication_key@ != s[i].authentication_key@);
    }
    i
}

/// The session maps of the other addresses are unchanged, so they keep
/// their distinct authentication keys.
proof fn lemma_other_session_maps_unique(old: BaseKeyStore, new: BaseKeyStore, address: KanariAddress)
    requires
        session_keys_unique(old),
        only_session_map_of(old, new, address),
        entries_unique(session_entries(new.session_keys@, address)),
    ensures
        session_keys_unique(new),
{
    assert forall|a: (u128, u128)| new.session_keys@.contains_key(a) implies entries_unique(
        #[trigger] new.session_keys@[a]@,
    ) by {
        if a != address.key() {
            assert(new.session_keys@.remove(address.key()).contains_key(a));
            assert(old.session_keys@.remove(address.key())[a] == new.session_keys@[a]);
            assert(old.session_keys@.contains_key(a));
        }
    }
}

/// Adding a session key keeps each address's session keys under distinct
/// authentication keys: a key already there is replaced, not repeated.
pub proof fn lemma_add_session_key_keeps_unique(
    old: BaseKeyStore,
    new: BaseKeyStore,
    address: KanariAddress,
    authentication_key: Vec<u8>,
    private_key: EncryptionData,
)
    requires
        session_keys_unique(old),
        add_session_key_post(old, new, address, authentication_key, private_key),
    ensures
        session_keys_unique(new),
{
    let old_s = session_entries(old.session_keys@, address);
    let new_s = session_entries(new.session_keys@, address);
    let k = authentication_key@;
    assert(entries_unique(old_s));
    if has_no_entry(old_s, k) {
        assert(new_s.len() == old_s.len() + 1);
        assert forall|i: int, j: int| 0 <= i < j < new_s.len() implies (#[trigger] new_s[i]).authentication_key@
            != (#[trigger] new_s[j]).authentication_key@ by {
            if j == old_s.len() {
                assert(new_s[i] == old_s[i]);
            } else {
                assert(new_s[i] == old_s[i] && new_s[j] == old_s[j]);
            }
        }
    } else {
        let i0 = lemma_unique_entry_is_first(old_s, k);
        let entry = SessionKeyEntry {
            authentication_key,
            local_session_key: LocalSessionKey { session_key: None, private_key },
        };
        assert(new_s == old_s.update(i0, entry));
        assert(new_s[i0].authentication_key@ == old_s[i0].authentication_key@);
        assert forall|i: int, j: int| 0 <= i < j < new_s.len() implies (#[trigger] new_s[i]).authentication_key@
            != (#[trigger] new_s[j]).authentication_key@ by {
            assert(old_s[i].authentication_key@ != old_s[j].authentication_key@);
        }
    }
    lemma_other_session_maps_unique(old, new, address);
}

/// Binding an on-chain session key keeps each address's session keys under
/// distinct authentication keys.
pub proof fn lemma_binding_session_key_keeps_unique(
    old: BaseKeyStore,
    new: BaseKeyStore,
    address: KanariAddress,
    session_key: SessionKey,
    r: Result<(), KeystoreError>,
)
    requires
        session_keys_unique(old),
        binding_session_key_post(old, new, address, session_key, r),
    ensures
        session_keys_unique(new),
{
    let old_s = session_entries(old.session_keys@, address);
    let new_s = session_entries(new.session_keys@, address);
    let k = session_key.authentication_key@;
    assert(entries_unique(old_s));
    if !has_no_entry(old_s, k) {
        let i0 = lemma_unique_entry_is_first(old_s, k);
        assert(new_s == old_s.update(i0, bound_entry(old_s[i0], session_key)));
        assert(new_s[i0].authentication_key@ == old_s[i0].authentication_key@);
        assert forall|i: int, j: int| 0 <= i < j < new_s.len() implies (#[trigger] new_s[i]).authentication_key@
            != (#[trigger] new_s[j]).authentication_key@ by {
            assert(old_s[i].authentication_key@ != old_s[j].authentication_key@);
        }
    }
    lemma_other_session_maps_unique(old, new, address);
}

} // verus!
