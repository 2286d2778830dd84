//! Multichain identifiers, following the SLIP-0044 coin types.

use crate::error::KanariError;
use crate::text::{
    decimal_chars, lemma_decimal_roundtrip, parse_u64_bytes, parse_unsigned_spec, u64_to_decimal_string,
};
use vstd::prelude::*;
use vstd::string::StringSliceAdditionalSpecFns;
use vstd::utf8::encode_utf8;

verus! {

pub const BITCOIN: u64 = 0;
pub const ETHER: u64 = 60;
pub const SUI: u64 = 784;
pub const NOSTR: u64 = 1237;
/// Place holder until SLIP-0044 assigns one.
pub const KANARI: u64 = 20230101;

/// Any multichain id.
#[derive(Debug, Copy, Clone, PartialEq, Eq, Structural, Hash, PartialOrd, Ord, Default)]
pub struct MultiChainID {
    pub id: u64,
}

impl MultiChainID {
    pub fn new(id: u64) -> (r: Self)
        ensures
            r.id == id,
    {
        MultiChainID { id }
    }

    pub fn id(self) -> (r: u64)
        ensures
            r == self.id,
    {
        self.id
    }

    pub fn is_ethereum(self) -> (r: bool)
        ensures
            r == (self.id == ETHER),
    {
        self.id == ETHER
    }

    pub fn is_sui(self) -> (r: bool)
        ensures
            r == (self.id == SUI),
    {
        self.id == SUI
    }

    pub fn is_bitcoin(self) -> (r: bool)
        ensures
            r == (self.id == BITCOIN),
    {
        self.id == BITCOIN
    }

    pub fn is_nostr(self) -> (r: bool)
        ensures
            r == (self.id == NOSTR),
    {
        self.id == NOSTR
    }

    /// The decimal text of the id.
    pub fn to_string(&self) -> (s: String)
        ensures
            s@ == decimal_chars(self.id as nat),
    {
        u64_to_decimal_string(self.id)
    }

    /// Parses the decimal text of an id, as `u64::from_str` reads it.
    pub fn from_str(s: &str) -> (r: Result<Self, KanariError>)
        ensures
            match parse_unsigned_spec(s.spec_bytes(), u64::MAX as nat) {
                Some(v) => r == Ok::<Self, KanariError>(MultiChainID { id: v as u64 }),
                None => r == Err::<Self, KanariError>(KanariError::InvalidMultiChainIDText),
            },
    {
        match parse_u64_bytes(s.as_bytes()) {
            Some(id) => Ok(MultiChainID::new(id)),
            None => Err(KanariError::InvalidMultiChainIDText),
        }
    }
}

impl From<u64> for MultiChainID {
    fn from(id: u64) -> (r: Self) {
        MultiChainID::new(id)
    }
}

impl vstd::std_specs::convert::FromSpecImpl<u64> for MultiChainID {
    open spec fn obeys_from_spec() -> bool {
        true
    }

    open spec fn from_spec(v: u64) -> MultiChainID {
        MultiChainID { id: v }
    }
}

impl From<MultiChainID> for u64 {
    fn from(multichain_id: MultiChainID) -> (r: u64) {
        multichain_id.id()
    }
}

impl vstd::std_specs::convert::FromSpecImpl<MultiChainID> for u64 {
    open spec fn obeys_from_spec() -> bool {
        true
    }

    open spec fn from_spec(v: MultiChainID) -> u64 {
        v.id
    }
}


/// The multichains that Kanari supports.
#[derive(Debug, Copy, Clone, PartialEq, Eq, Structural, Hash)]
pub enum KanariMultiChainID {
    Bitcoin,
    Ether,
    Nostr,
    Kanari,
}

/// The number of a builtin multichain.
pub open spec fn multichain_value(k: KanariMultiChainID) -> u64 {
    match k {
        KanariMultiChainID::Bitcoin => BITCOIN,
        KanariMultiChainID::Ether => ETHER,
        KanariMultiChainID::Nostr => NOSTR,
        KanariMultiChainID::Kanari => KANARI,
    }
}

/// The builtin multichain with a number, if there is one.
pub open spec fn multichain_from_value(v: u64) -> Option<KanariMultiChainID> {
    if v == BITCOIN {
        Some(KanariMultiChainID::Bitcoin)
    } else if v == ETHER {
        Some(KanariMultiChainID::Ether)
    } else if v == NOSTR {
        Some(KanariMultiChainID::Nostr)
    } else if v == KANARI {
        Some(KanariMultiChainID::Kanari)
    } else {
        None
    }
}

/// The name of a builtin multichain.
pub open spec fn multichain_name_spec(k: KanariMultiChainID) -> Seq<char> {
    match k {
        KanariMultiChainID::Bitcoin => seq!['b', 'i', 't', 'c', 'o', 'i', 'n'],
        KanariMultiChainID::Ether => seq!['e', 't', 'h', 'e', 'r'],
        KanariMultiChainID::Nostr => seq!['n', 'o', 's', 't', 'r'],
        KanariMultiChainID::Kanari => seq!['k', 'a', 'n', 'a', 'r', 'i'],
    }
}

/// The builtin multichain with a name (exact, case-sensitive).
pub open spec fn multichain_from_name(s: Seq<char>) -> Option<KanariMultiChainID> {
    if s == multichain_name_spec(KanariMultiChainID::Bitcoin) {
        Some(KanariMultiChainID::Bitcoin)
    } else if s == multichain_name_spec(KanariMultiChainID::Ether) {
        Some(KanariMultiChainID::Ether)
    } else if s == multichain_name_spec(KanariMultiChainID::Nostr) {
        Some(KanariMultiChainID::Nostr)
    } else if s == multichain_name_spec(KanariMultiChainID::Kanari) {
        Some(KanariMultiChainID::Kanari)
    } else {
        None
    }
}

fn str_eq(a: &str, b: &str) -> (r: bool)
    ensures
        r == (a@ == b@),
{
    let sa = String::from_str(a);
    let sb = String::from_str(b);
    sa == sb
}

impl From<KanariMultiChainID> for u64 {
    fn from(multichain_id: KanariMultiChainID) -> (r: u64) {
        match multichain_id {
            KanariMultiChainID::Bitcoin => BITCOIN,
            KanariMultiChainID::Ether => ETHER,
            KanariMultiChainID::Nostr => NOSTR,
            KanariMultiChainID::Kanari => KANARI,
        }
    }
}

impl vstd::std_specs::convert::FromSpecImpl<KanariMultiChainID> for u64 {
    open spec fn obeys_from_spec() -> bool {
        true
    }

    open spec fn from_spec(v: KanariMultiChainID) -> u64 {
        multichain_value(v)
    }
}

impl KanariMultiChainID {
    pub fn to_u64(self) -> (r: u64)
        ensures
            r == multichain_value(self),
    {
        u64::from(self)
    }

    /// The builtin multichain with the number `value`.
    pub fn try_from_u64(value: u64) -> (r: Result<Self, KanariError>)
        ensures
            match multichain_from_value(value) {
                Some(k) => r == Ok::<Self, KanariError>(k),
                None => r == Err::<Self, KanariError>(KanariError::InvalidMultiChainID(value)),
            },
    {
        if value == BITCOIN {
            Ok(KanariMultiChainID::Bitcoin)
        } else if value == ETHER {
            Ok(KanariMultiChainID::Ether)
        } else if value == NOSTR {
            Ok(KanariMultiChainID::Nostr)
        } else if value == KANARI {
            Ok(KanariMultiChainID::Kanari)
        } else {
            Err(KanariError::InvalidMultiChainID(value))
        }
    }

    /// The builtin multichain with the id `multichain_id`.
    pub fn try_from_multichain_id(multichain_id: MultiChainID) -> (r: Result<Self, KanariError>)
        ensures
            match multichain_from_value(multichain_id.id) {
                Some(k) => r == Ok::<Self, KanariError>(k),
                None => r == Err::<Self, KanariError>(KanariError::NotBuiltinMultiChainID(multichain_id.id)),
            },
    {
        match Self::try_from_u64(multichain_id.id()) {
            Ok(k) => Ok(k),
            Err(_e) => Err(KanariError::NotBuiltinMultiChainID(multichain_id.id())),
        }
    }

    /// The builtin multichain named exactly `s`.
    pub fn from_str(s: &str) -> (r: Result<Self, KanariError>)
        ensures
            match multichain_from_name(s@) {
                Some(k) => r == Ok::<Self, KanariError>(k),
                None => r matches Err(KanariError::UnknownMultiChain(t)) && t@ == s@,
            },
    {
        proof {
            reveal_strlit("bitcoin");
            reveal_strlit("ether");
            reveal_strlit("nostr");
            reveal_strlit("kanari");
            assert("bitcoin"@ =~= multichain_name_spec(KanariMultiChainID::Bitcoin));
            assert("ether"@ =~= multichain_name_spec(KanariMultiChainID::Ether));
            assert("nostr"@ =~= multichain_name_spec(KanariMultiChainID::Nostr));
            assert("kanari"@ =~= multichain_name_spec(KanariMultiChainID::Kanari));
        }
        if str_eq(s, "bitcoin") {
            Ok(KanariMultiChainID::Bitcoin)
        } else if str_eq(s, "ether") {
            Ok(KanariMultiChainID::Ether)
        } else if str_eq(s, "nostr") {
            Ok(KanariMultiChainID::Nostr)
        } else if str_eq(s, "kanari") {
            Ok(KanariMultiChainID::Kanari)
        } else {
            Err(KanariError::UnknownMultiChain(String::from_str(s)))
        }
    }

    /// The name of the multichain.
    pub fn multichain_name(self) -> (s: String)
        ensures
            s@ == multichain_name_spec(self),
    {
        let s = match self {
            KanariMultiChainID::Bitcoin => String::from_str("bitcoin"),
            KanariMultiChainID::Ether => String::from_str("ether"),
            KanariMultiChainID::Nostr => String::from_str("nostr"),
            KanariMultiChainID::Kanari => String::from_str("kanari"),
        };
        proof {
            reveal_strlit("bitcoin");
            reveal_strlit("ether");
            reveal_strlit("nostr");
            reveal_strlit("kanari");
            assert(s@ =~= multichain_name_spec(self));
        }
        s
    }

    /// The text form of the multichain: its name.
    pub fn to_string(self) -> (s: String)
        ensures
            s@ == multichain_name_spec(self),
    {
        self.multichain_name()
    }

    pub fn multichain_id(self) -> (r: MultiChainID)
        ensures
            r.id == multichain_value(self),
    {
        MultiChainID::new(self.to_u64())
    }

    pub fn is_bitcoin(self) -> (r: bool)
        ensures
            r == (self == KanariMultiChainID::Bitcoin),
    {
        matches!(self, KanariMultiChainID::Bitcoin)
    }

    pub fn is_ethereum(self) -> (r: bool)
        ensures
            r == (self == KanariMultiChainID::Ether),
    {
        matches!(self, KanariMultiChainID::Ether)
    }

    pub fn is_nostr(self) -> (r: bool)
        ensures
            r == (self == KanariMultiChainID::Nostr),
    {
        matches!(self, KanariMultiChainID::Nostr)
    }

    pub fn is_kanari(self) -> (r: bool)
        ensures
            r == (self == KanariMultiChainID::Kanari),
    {
        matches!(self, KanariMultiChainID::Kanari)
    }

    /// All builtin multichains, in the order bitcoin, ether, nostr, kanari.
    pub fn multichain_ids() -> (r: Vec<KanariMultiChainID>)
        ensures
            r@ == seq![
                KanariMultiChainID::Bitcoin,
                KanariMultiChainID::Ether,
                KanariMultiChainID::Nostr,
                KanariMultiChainID::Kanari,
            ],
    {
        vec![
            KanariMultiChainID::Bitcoin,
            KanariMultiChainID::Ether,
            KanariMultiChainID::Nostr,
            KanariMultiChainID::Kanari,
        ]
    }
}

/// Converting a builtin multichain to its number and back gives it back.
pub proof fn lemma_multichain_value_roundtrip(k: KanariMultiChainID)
    ensures
        multichain_from_value(multichain_value(k)) == Some(k),
{
}

/// A number read as a builtin multichain gives that number back.
pub proof fn lemma_multichain_value_injective(v: u64)
    ensures
        multichain_from_value(v) matches Some(k) ==> multichain_value(k) == v,
{
}

/// Reading the name of a builtin multichain gives it back.
pub proof fn lemma_multichain_name_roundtrip(k: KanariMultiChainID)
    ensures
        multichain_from_name(multichain_name_spec(k)) == Some(k),
{
    assert(multichain_name_spec(KanariMultiChainID::Bitcoin)[0] != multichain_name_spec(KanariMultiChainID::Ether)[0]);
    assert(multichain_name_spec(KanariMultiChainID::Bitcoin)[0] != multichain_name_spec(KanariMultiChainID::Nostr)[0]);
    assert(multichain_name_spec(KanariMultiChainID::Bitcoin)[0] != multichain_name_spec(KanariMultiChainID::Kanari)[0]);
    assert(multichain_name_spec(KanariMultiChainID::Ether)[0] != multichain_name_spec(KanariMultiChainID::Nostr)[0]);
    assert(multichain_name_spec(KanariMultiChainID::Ether)[0] != multichain_name_spec(KanariMultiChainID::Kanari)[0]);
    assert(multichain_name_spec(KanariMultiChainID::Nostr)[0] != multichain_name_spec(KanariMultiChainID::Kanari)[0]);
}

/// The builtin multichain of a builtin multichain's id is that multichain,
/// and its id is a bitcoin, ethereum or nostr id exactly when it is that chain.
pub proof fn lemma_multichain_id_agrees(k: KanariMultiChainID)
    ensures
        multichain_from_value(multichain_value(k)) == Some(k),
        (multichain_value(k) == BITCOIN) == (k == KanariMultiChainID::Bitcoin),
        (multichain_value(k) == ETHER) == (k == KanariMultiChainID::Ether),
        (multichain_value(k) == NOSTR) == (k == KanariMultiChainID::Nostr),
{
}

/// Writing a multichain id in decimal and reading the text back gives the id.
pub proof fn lemma_multichain_id_text_roundtrip(m: MultiChainID)
    ensures
        parse_unsigned_spec(encode_utf8(decimal_chars(m.id as nat)), u64::MAX as nat) == Some(m.id as nat),
{
    lemma_decimal_roundtrip(m.id);
}

} // verus!
