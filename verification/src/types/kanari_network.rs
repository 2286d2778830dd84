//! Builtin and custom chain identifiers of the Kanari networks.

use crate::error::KanariError;
use crate::text::{decimal_chars, lemma_decimal_chars_digits, lemma_decimal_roundtrip, parse_unsigned_spec};
use crate::types::chain_id::ChainID;
use vstd::prelude::*;
use vstd::string::StringSliceAdditionalSpecFns;
use vstd::utf8::{encode_utf8, is_ascii_chars};

verus! {

pub const CHAIN_ID_LOCAL: u64 = 4;
pub const CHAIN_ID_DEV: u64 = 3;
pub const CHAIN_ID_TEST: u64 = 2;
pub const CHAIN_ID_MAIN: u64 = 1;

/// The networks that Kanari ships with.
#[derive(Debug, Copy, Clone, PartialEq, Eq, Structural, Hash)]
pub enum BuiltinChainID {
    /// A temp network just for developer test.
    /// The data is stored in the temporary directory and will be cleared after restarting.
    Local,
    /// A ephemeral network just for developer test.
    Dev,
    /// Kanari test network.
    /// The data on the chain will be cleaned up periodically.
    Test,
    /// Kanari main net.
    Main,
}

/// The numeric chain id of a builtin network.
pub open spec fn builtin_id_value(b: BuiltinChainID) -> u64 {
    match b {
        BuiltinChainID::Local => CHAIN_ID_LOCAL,
        BuiltinChainID::Dev => CHAIN_ID_DEV,
        BuiltinChainID::Test => CHAIN_ID_TEST,
        BuiltinChainID::Main => CHAIN_ID_MAIN,
    }
}

/// The builtin network with the given numeric id, if there is one.
pub open spec fn builtin_from_id(v: u64) -> Option<BuiltinChainID> {
    if v == CHAIN_ID_LOCAL {
        Some(BuiltinChainID::Local)
    } else if v == CHAIN_ID_DEV {
        Some(BuiltinChainID::Dev)
    } else if v == CHAIN_ID_TEST {
        Some(BuiltinChainID::Test)
    } else if v == CHAIN_ID_MAIN {
        Some(BuiltinChainID::Main)
    } else {
        None
    }
}

/// The (lowercase) name of a builtin network.
pub open spec fn builtin_name(b: BuiltinChainID) -> Seq<char> {
    match b {
        BuiltinChainID::Local => seq!['l', 'o', 'c', 'a', 'l'],
        BuiltinChainID::Dev => seq!['d', 'e', 'v'],
        BuiltinChainID::Test => seq!['t', 'e', 's', 't'],
        BuiltinChainID::Main => seq!['m', 'a', 'i', 'n'],
    }
}

/// The builtin network with the given name, if there is one.
pub open spec fn builtin_from_name(s: Seq<char>) -> Option<BuiltinChainID> {
    if s == builtin_name(BuiltinChainID::Local) {
        Some(BuiltinChainID::Local)
    } else if s == builtin_name(BuiltinChainID::Dev) {
        Some(BuiltinChainID::Dev)
    } else if s == builtin_name(BuiltinChainID::Test) {
        Some(BuiltinChainID::Test)
    } else if s == builtin_name(BuiltinChainID::Main) {
        Some(BuiltinChainID::Main)
    } else {
        None
    }
}

/// What std's `str::to_lowercase` returns for a text.
pub uninterp spec fn lowercase(s: Seq<char>) -> Seq<char>;

/// Whether every char is an ASCII lowercase letter or digit.
pub open spec fn is_lower_alnum(s: Seq<char>) -> bool {
    forall|i: int| 0 <= i < s.len() ==> ('a' <= #[trigger] s[i] <= 'z' || '0' <= s[i] <= '9')
}

/// The lowercase of an ASCII char: `A` to `Z` become `a` to `z`, any other
/// char stays.
pub open spec fn ascii_lower_char(c: char) -> char {
    if 'A' <= c <= 'Z' {
        ((c as u32) + 32) as char
    } else {
        c
    }
}

/// The ASCII lowercase of a text, char by char.
pub open spec fn ascii_lower(s: Seq<char>) -> Seq<char> {
    s.map_values(|c: char| ascii_lower_char(c))
}

/// Lowercases a text.
///
/// Trusted: calls `str::to_lowercase`; the contract names its result, which
/// depends on the text alone, and states that a text of ASCII chars comes
/// back with `A` to `Z` lowered to `a` to `z` and every other char kept, as
/// Unicode's lowercase mapping does for ASCII (the mapping of other chars is
/// left unsaid).
#[verifier::external_body]
fn str_to_lowercase(s: &str) -> (r: String)
    ensures
        r@ == lowercase(s@),
        is_ascii_chars(s@) ==> r@ == ascii_lower(s@),
{
    s.to_lowercase()
}

/// Whether two strings hold the same characters.
fn string_eq(a: &String, b: &String) -> (r: bool)
    ensures
        r == (a@ == b@),
{
    *a == *b
}

impl Default for BuiltinChainID {
    fn default() -> (r: Self)
        ensures
            r == BuiltinChainID::Local,
    {
        BuiltinChainID::Local
    }
}

impl From<BuiltinChainID> for u64 {
    fn from(chain_id: BuiltinChainID) -> (r: u64) {
        match chain_id {
            BuiltinChainID::Local => CHAIN_ID_LOCAL,
            BuiltinChainID::Dev => CHAIN_ID_DEV,
            BuiltinChainID::Test => CHAIN_ID_TEST,
            BuiltinChainID::Main => CHAIN_ID_MAIN,
        }
    }
}

impl vstd::std_specs::convert::FromSpecImpl<BuiltinChainID> for u64 {
    open spec fn obeys_from_spec() -> bool {
        true
    }

    open spec fn from_spec(v: BuiltinChainID) -> u64 {
        builtin_id_value(v)
    }
}

impl BuiltinChainID {
    /// The numeric chain id.
    pub fn to_u64(self) -> (r: u64)
        ensures
            r == builtin_id_value(self),
    {
        u64::from(self)
    }

    /// The builtin network whose numeric id is `value`.
    pub fn try_from_u64(value: u64) -> (r: Result<Self, KanariError>)
        ensures
            match builtin_from_id(value) {
                Some(b) => r == Ok::<Self, KanariError>(b),
                None => r == Err::<Self, KanariError>(KanariError::InvalidChainID(value)),
            },
    {
        if value == CHAIN_ID_LOCAL {
            Ok(BuiltinChainID::Local)
        } else if value == CHAIN_ID_DEV {
            Ok(BuiltinChainID::Dev)
        } else if value == CHAIN_ID_TEST {
            Ok(BuiltinChainID::Test)
        } else if value == CHAIN_ID_MAIN {
            Ok(BuiltinChainID::Main)
        } else {
            Err(KanariError::InvalidChainID(value))
        }
    }

    /// The builtin network whose id is `id`.
    pub fn try_from_chain_id(id: ChainID) -> (r: Result<Self, KanariError>)
        ensures
            match builtin_from_id(id.spec_id()) {
                Some(b) => r == Ok::<Self, KanariError>(b),
                None => r == Err::<Self, KanariError>(KanariError::NotBuiltinChainID(id.spec_id())),
            },
    {
        match Self::try_from_u64(id.id()) {
            Ok(b) => Ok(b),
            Err(_e) => Err(KanariError::NotBuiltinChainID(id.id())),
        }
    }

    /// The builtin network whose name is exactly `name` (already lowercase).
    pub fn from_lowercase_name(name: &String) -> (r: Result<Self, KanariError>)
        ensures
            match builtin_from_name(name@) {
                Some(b) => r == Ok::<Self, KanariError>(b),
                None => r matches Err(KanariError::UnknownChain(t)) && t@ == name@,
            },
    {
        let local = String::from_str("local");
        let dev = String::from_str("dev");
        let test = String::from_str("test");
        let main = String::from_str("main");
        proof {
            reveal_strlit("local");
            reveal_strlit("dev");
            reveal_strlit("test");
            reveal_strlit("main");
            assert(local@ =~= builtin_name(BuiltinChainID::Local));
            assert(dev@ =~= builtin_name(BuiltinChainID::Dev));
            assert(test@ =~= builtin_name(BuiltinChainID::Test));
            assert(main@ =~= builtin_name(BuiltinChainID::Main));
        }
        if string_eq(name, &local) {
            Ok(BuiltinChainID::Local)
        } else if string_eq(name, &dev) {
            Ok(BuiltinChainID::Dev)
        } else if string_eq(name, &test) {
            Ok(BuiltinChainID::Test)
        } else if string_eq(name, &main) {
            Ok(BuiltinChainID::Main)
        } else {
            Err(KanariError::UnknownChain(name.clone()))
        }
    }

    /// The builtin network named `s`, compared without regard to case.
    pub fn from_str(s: &str) -> (r: Result<Self, KanariError>)
        ensures
            match builtin_from_name(lowercase(s@)) {
                Some(b) => r == Ok::<Self, KanariError>(b),
                None => r matches Err(KanariError::UnknownChain(t)) && t@ == lowercase(s@),
            },
            is_ascii_chars(s@) ==> match builtin_from_name(ascii_lower(s@)) {
                Some(b) => r == Ok::<Self, KanariError>(b),
                None => r matches Err(KanariError::UnknownChain(t)) && t@ == ascii_lower(s@),
            },
    {
        let lower = str_to_lowercase(s);
        Self::from_lowercase_name(&lower)
    }

    /// The lowercase name of the network.
    pub fn chain_name(self) -> (s: String)
        ensures
            s@ == builtin_name(self),
    {
        let s = match self {
            BuiltinChainID::Local => String::from_str("local"),
            BuiltinChainID::Dev => String::from_str("dev"),
            BuiltinChainID::Test => String::from_str("test"),
            BuiltinChainID::Main => String::from_str("main"),
        };
        proof {
            reveal_strlit("local");
            reveal_strlit("dev");
            reveal_strlit("test");
            reveal_strlit("main");
            assert(s@ =~= builtin_name(self));
        }
        s
    }

    /// The chain id of the network.
    pub fn chain_id(self) -> (r: ChainID)
        ensures
            r.spec_id() == builtin_id_value(self),
    {
        ChainID::new(self.to_u64())
    }

    pub fn is_local(self) -> (r: bool)
        ensures
            r == (self == BuiltinChainID::Local),
    {
        matches!(self, BuiltinChainID::Local)
    }

    pub fn is_dev(self) -> (r: bool)
        ensures
            r == (self == BuiltinChainID::Dev),
    {
        matches!(self, BuiltinChainID::Dev)
    }

    pub fn is_test(self) -> (r: bool)
        ensures
            r == (self == BuiltinChainID::Test),
    {
        matches!(self, BuiltinChainID::Test)
    }

    pub fn is_main(self) -> (r: bool)
        ensures
            r == (self == BuiltinChainID::Main),
    {
        matches!(self, BuiltinChainID::Main)
    }

    pub fn is_test_or_dev_or_local(self) -> (r: bool)
        ensures
            r == (self == BuiltinChainID::Test || self == BuiltinChainID::Dev || self
                == BuiltinChainID::Local),
    {
        matches!(self, BuiltinChainID::Test | BuiltinChainID::Dev | BuiltinChainID::Local)
    }

    /// Fails unless the network is test, dev or local.
    pub fn assert_test_or_dev_or_local(self) -> (r: Result<(), KanariError>)
        ensures
            r is Ok <==> (self == BuiltinChainID::Test || self == BuiltinChainID::Dev || self
                == BuiltinChainID::Local),
            r is Err ==> r == Err::<(), KanariError>(KanariError::NotTestOrDevOrLocalNetwork),
    {
        if !self.is_test_or_dev_or_local() {
            return Err(KanariError::NotTestOrDevOrLocalNetwork);
        }
        Ok(())
    }

    /// All builtin networks, in the order local, dev, test, main.
    pub fn chain_ids() -> (r: Vec<BuiltinChainID>)
        ensures
            r@ == seq![
                BuiltinChainID::Local,
                BuiltinChainID::Dev,
                BuiltinChainID::Test,
                BuiltinChainID::Main,
            ],
    {
        vec![BuiltinChainID::Local, BuiltinChainID::Dev, BuiltinChainID::Test, BuiltinChainID::Main]
    }
}

/// A chain id: one of the builtin networks or any other number.
#[derive(Debug, Copy, Clone, PartialEq, Eq, Structural, Hash)]
pub enum KanariChainID {
    Builtin(BuiltinChainID),
    Custom(ChainID),
}

/// The chain id that a number denotes: builtin where it is a builtin id.
pub open spec fn kanari_chain_id_of(c: ChainID) -> KanariChainID {
    match builtin_from_id(c.spec_id()) {
        Some(b) => KanariChainID::Builtin(b),
        None => KanariChainID::Custom(c),
    }
}

/// The number of a chain id.
pub open spec fn kanari_chain_id_value(k: KanariChainID) -> u64 {
    match k {
        KanariChainID::Builtin(b) => builtin_id_value(b),
        KanariChainID::Custom(c) => c.spec_id(),
    }
}

/// The name of a chain id: the builtin name, or the decimal number.
pub open spec fn kanari_chain_name(k: KanariChainID) -> Seq<char> {
    match k {
        KanariChainID::Builtin(b) => builtin_name(b),
        KanariChainID::Custom(c) => decimal_chars(c.spec_id() as nat),
    }
}

/// What parsing a chain-id text gives: a builtin network where the
/// lowercased text names one, else a custom id from the decimal text.
pub open spec fn kanari_chain_id_from_text(s: Seq<char>, bytes: Seq<u8>) -> Option<KanariChainID> {
    kanari_chain_id_from_lowered(lowercase(s), bytes)
}

/// What parsing a chain-id text gives, from its lowercased text `lower`
/// and its bytes: a builtin network where `lower` names one, else a custom
/// id from the decimal text.
pub open spec fn kanari_chain_id_from_lowered(lower: Seq<char>, bytes: Seq<u8>) -> Option<KanariChainID> {
    match builtin_from_name(lower) {
        Some(b) => Some(KanariChainID::Builtin(b)),
        None => match parse_unsigned_spec(bytes, u64::MAX as nat) {
            Some(v) => Some(KanariChainID::Custom(ChainID { id: v as u64 })),
            None => None,
        },
    }
}

impl Default for KanariChainID {
    fn default() -> (r: Self)
        ensures
            r == KanariChainID::Builtin(BuiltinChainID::Local),
    {
        KanariChainID::Builtin(BuiltinChainID::default())
    }
}

impl KanariChainID {
    pub fn from_builtin(chain_id: BuiltinChainID) -> (r: Self)
        ensures
            r == KanariChainID::Builtin(chain_id),
    {
        KanariChainID::Builtin(chain_id)
    }

    /// The chain id of a number: builtin where the number is a builtin id.
    pub fn from_chain_id(chain_id: ChainID) -> (r: Self)
        ensures
            r == kanari_chain_id_of(chain_id),
    {
        let id = chain_id.id();
        if id == CHAIN_ID_LOCAL {
            KanariChainID::Builtin(BuiltinChainID::Local)
        } else if id == CHAIN_ID_DEV {
            KanariChainID::Builtin(BuiltinChainID::Dev)
        } else if id == CHAIN_ID_TEST {
            KanariChainID::Builtin(BuiltinChainID::Test)
        } else if id == CHAIN_ID_MAIN {
            KanariChainID::Builtin(BuiltinChainID::Main)
        } else {
            KanariChainID::Custom(chain_id)
        }
    }

    /// Parses a builtin name (in any case) or a decimal chain id.
    pub fn from_str(s: &str) -> (r: Result<Self, KanariError>)
        ensures
            match kanari_chain_id_from_text(s@, s.spec_bytes()) {
                Some(k) => r == Ok::<Self, KanariError>(k),
                None => r == Err::<Self, KanariError>(KanariError::InvalidChainIDText),
            },
            is_ascii_chars(s@) ==> match kanari_chain_id_from_lowered(ascii_lower(s@), s.spec_bytes()) {
                Some(k) => r == Ok::<Self, KanariError>(k),
                None => r == Err::<Self, KanariError>(KanariError::InvalidChainIDText),
            },
            forall|k: KanariChainID| #[trigger] kanari_chain_name(k) == s@ ==> r == Ok::<Self, KanariError>(k),
    {
        let r = match BuiltinChainID::from_str(s) {
            Ok(chain_id) => Ok(KanariChainID::Builtin(chain_id)),
            Err(_e) => match ChainID::from_str(s) {
                Some(c) => Ok(KanariChainID::Custom(c)),
                None => Err(KanariError::InvalidChainIDText),
            },
        };
        proof {
            assert forall|k: KanariChainID| #[trigger] kanari_chain_name(k) == s@ implies r == Ok::<
                Self,
                KanariError,
            >(k) by {
                lemma_chain_name_reads_back(k);
                lemma_lower_alnum_is_ascii_lower(s@);
            }
        }
        r
    }

    /// The name of the chain: the builtin name or the decimal id.
    pub fn chain_name(&self) -> (s: String)
        ensures
            s@ == kanari_chain_name(*self),
    {
        match self {
            KanariChainID::Builtin(b) => b.chain_name(),
            KanariChainID::Custom(c) => c.to_string(),
        }
    }

    /// The text form of the chain id; the same as its name.
    pub fn to_string(&self) -> (s: String)
        ensures
            s@ == kanari_chain_name(*self),
    {
        self.chain_name()
    }

    pub fn chain_id(&self) -> (r: ChainID)
        ensures
            r.spec_id() == kanari_chain_id_value(*self),
    {
        match self {
            KanariChainID::Builtin(b) => b.chain_id(),
            KanariChainID::Custom(c) => *c,
        }
    }

    /// Fails unless the chain is test, dev or local.
    pub fn assert_test_or_dev_or_local(&self) -> (r: Result<(), KanariError>)
        ensures
            r is Ok <==> (*self == KanariChainID::Builtin(BuiltinChainID::Test) || *self
                == KanariChainID::Builtin(BuiltinChainID::Dev) || *self == KanariChainID::Builtin(
                BuiltinChainID::Local,
            )),
            r is Err ==> r == Err::<(), KanariError>(KanariError::NotTestOrDevOrLocalChainID),
    {
        if !self.is_test_or_dev_or_local() {
            return Err(KanariError::NotTestOrDevOrLocalChainID);
        }
        Ok(())
    }

    /// Whether the chain is test, dev or main (local is not counted).
    pub fn is_builtin(&self) -> (r: bool)
        ensures
            r == (*self == KanariChainID::Builtin(BuiltinChainID::Test) || *self
                == KanariChainID::Builtin(BuiltinChainID::Dev) || *self == KanariChainID::Builtin(
                BuiltinChainID::Main,
            )),
    {
        self.is_test() || self.is_dev() || self.is_main()
    }

    pub fn is_test_or_dev_or_local(&self) -> (r: bool)
        ensures
            r == (*self == KanariChainID::Builtin(BuiltinChainID::Test) || *self
                == KanariChainID::Builtin(BuiltinChainID::Dev) || *self == KanariChainID::Builtin(
                BuiltinChainID::Local,
            )),
    {
        self.is_test() || self.is_dev() || self.is_local()
    }

    pub fn is_local(&self) -> (r: bool)
        ensures
            r == (*self == KanariChainID::Builtin(BuiltinChainID::Local)),
    {
        matches!(self, KanariChainID::Builtin(BuiltinChainID::Local))
    }

    pub fn is_dev(&self) -> (r: bool)
        ensures
            r == (*self == KanariChainID::Builtin(BuiltinChainID::Dev)),
    {
        matches!(self, KanariChainID::Builtin(BuiltinChainID::Dev))
    }

    pub fn is_test(&self) -> (r: bool)
        ensures
            r == (*self == KanariChainID::Builtin(BuiltinChainID::Test)),
    {
        matches!(self, KanariChainID::Builtin(BuiltinChainID::Test))
    }

    pub fn is_main(&self) -> (r: bool)
        ensures
            r == (*self == KanariChainID::Builtin(BuiltinChainID::Main)),
    {
        matches!(self, KanariChainID::Builtin(BuiltinChainID::Main))
    }

    pub fn is_custom(&self) -> (r: bool)
        ensures
            r == (*self is Custom),
    {
        matches!(self, KanariChainID::Custom(_))
    }

    /// Default data dir name of this chain id: its name.
    pub fn dir_name(&self) -> (s: String)
        ensures
            s@ == kanari_chain_name(*self),
    {
        self.chain_name()
    }
}

/// Converting a builtin network to its number and back gives the network.
pub proof fn lemma_builtin_id_roundtrip(b: BuiltinChainID)
    ensures
        builtin_from_id(builtin_id_value(b)) == Some(b),
{
}

/// A number read as a builtin network gives that number back.
pub proof fn lemma_builtin_id_injective(v: u64)
    ensures
        builtin_from_id(v) matches Some(b) ==> builtin_id_value(b) == v,
{
}

/// Reading the name of a builtin network gives the network back.
pub proof fn lemma_builtin_name_roundtrip(b: BuiltinChainID)
    ensures
        builtin_from_name(builtin_name(b)) == Some(b),
{
    assert(builtin_name(BuiltinChainID::Local) != builtin_name(BuiltinChainID::Dev));
    assert(builtin_name(BuiltinChainID::Local)[0] != builtin_name(BuiltinChainID::Test)[0]);
    assert(builtin_name(BuiltinChainID::Local)[0] != builtin_name(BuiltinChainID::Main)[0]);
    assert(builtin_name(BuiltinChainID::Dev) != builtin_name(BuiltinChainID::Test));
    assert(builtin_name(BuiltinChainID::Dev) != builtin_name(BuiltinChainID::Main));
    assert(builtin_name(BuiltinChainID::Test)[0] != builtin_name(BuiltinChainID::Main)[0]);
}

/// Every builtin network but main is test, dev or local.
pub proof fn lemma_builtin_test_dev_local_iff_not_main(b: BuiltinChainID)
    ensures
        (b == BuiltinChainID::Test || b == BuiltinChainID::Dev || b == BuiltinChainID::Local) <==> b
            != BuiltinChainID::Main,
{
}

/// Reading a number as a chain id keeps the number.
pub proof fn lemma_chain_id_value_preserved(c: ChainID)
    ensures
        kanari_chain_id_value(kanari_chain_id_of(c)) == c.spec_id(),
{
}

/// A number read as a chain id is custom exactly when it is no builtin id.
pub proof fn lemma_chain_id_custom_iff_not_builtin(c: ChainID)
    ensures
        kanari_chain_id_of(c) is Custom <==> builtin_from_id(c.spec_id()) is None,
{
}

/// The number of a builtin network, read back as a chain id, is that network.
pub proof fn lemma_builtin_chain_id_normalizes(b: BuiltinChainID)
    ensures
        kanari_chain_id_of(ChainID { id: builtin_id_value(b) }) == KanariChainID::Builtin(b),
{
}

/// A text of ASCII lowercase letters and digits is ASCII and is its own
/// ASCII lowercase.
proof fn lemma_lower_alnum_is_ascii_lower(s: Seq<char>)
    requires
        is_lower_alnum(s),
    ensures
        is_ascii_chars(s),
        ascii_lower(s) == s,
{
    assert(ascii_lower(s) =~= s);
}

/// The name of a chain id is made of lowercase letters and digits, and
/// reads back as that chain id: a builtin name names its network; a
/// decimal id names no builtin network and parses to its number.
proof fn lemma_chain_name_reads_back(k: KanariChainID)
    ensures
        is_lower_alnum(kanari_chain_name(k)),
        match k {
            KanariChainID::Builtin(b) => builtin_from_name(kanari_chain_name(k)) == Some(b),
            KanariChainID::Custom(c) => builtin_from_name(kanari_chain_name(k)) is None && parse_unsigned_spec(
                encode_utf8(kanari_chain_name(k)),
                u64::MAX as nat,
            ) == Some(c.spec_id() as nat),
        },
{
    match k {
        KanariChainID::Builtin(b) => {
            lemma_builtin_name_roundtrip(b);
        },
        KanariChainID::Custom(c) => {
            let name = decimal_chars(c.spec_id() as nat);
            lemma_decimal_roundtrip(c.spec_id());
            lemma_decimal_chars_digits(c.spec_id() as nat);
            assert(name[0] != 'l' && name[0] != 'd' && name[0] != 't' && name[0] != 'm');
            assert(builtin_from_name(name) is None) by {
                assert(builtin_name(BuiltinChainID::Local)[0] == 'l');
                assert(builtin_name(BuiltinChainID::Dev)[0] == 'd');
                assert(builtin_name(BuiltinChainID::Test)[0] == 't');
                assert(builtin_name(BuiltinChainID::Main)[0] == 'm');
            }
        },
    }
}

} // verus!
