//! The builtin auth validators and their one-byte flags.

use crate::error::KanariError;
use crate::text::{parse_u64_bytes, parse_unsigned_spec};
use vstd::prelude::*;
use vstd::string::StringSliceAdditionalSpecFns;

verus! {

pub const SESSION_FLAG: u8 = 0x00;
pub const BITCOIN_FLAG: u8 = 0x01;
pub const BITCOIN_MULTISIGN_FLAG: u8 = 0x02;
pub const ETHEREUM_FLAG: u8 = 0x03;

/// The auth validators built into Kanari.
#[derive(Debug, Copy, Clone, PartialEq, Eq, Structural)]
pub enum BuiltinAuthValidator {
    Session,
    Bitcoin,
    BitcoinMultisign,
    Ethereum,
}

/// The flag byte of a builtin validator.
pub open spec fn validator_flag(v: BuiltinAuthValidator) -> u8 {
    match v {
        BuiltinAuthValidator::Session => SESSION_FLAG,
        BuiltinAuthValidator::Bitcoin => BITCOIN_FLAG,
        BuiltinAuthValidator::BitcoinMultisign => BITCOIN_MULTISIGN_FLAG,
        BuiltinAuthValidator::Ethereum => ETHEREUM_FLAG,
    }
}

/// The builtin validator with a flag byte, if there is one.
pub open spec fn validator_from_flag(b: u8) -> Option<BuiltinAuthValidator> {
    if b == SESSION_FLAG {
        Some(BuiltinAuthValidator::Session)
    } else if b == BITCOIN_FLAG {
        Some(BuiltinAuthValidator::Bitcoin)
    } else if b == BITCOIN_MULTISIGN_FLAG {
        Some(BuiltinAuthValidator::BitcoinMultisign)
    } else if b == ETHEREUM_FLAG {
        Some(BuiltinAuthValidator::Ethereum)
    } else {
        None
    }
}

/// The lowercase name of a builtin validator.
pub open spec fn validator_name(v: BuiltinAuthValidator) -> Seq<char> {
    match v {
        BuiltinAuthValidator::Session => seq!['s', 'e', 's', 's', 'i', 'o', 'n'],
        BuiltinAuthValidator::Bitcoin => seq!['b', 'i', 't', 'c', 'o', 'i', 'n'],
        BuiltinAuthValidator::BitcoinMultisign => seq![
            'b', 'i', 't', 'c', 'o', 'i', 'n', 'm', 'u', 'l', 't', 'i', 's', 'i', 'g', 'n'
        ],
        BuiltinAuthValidator::Ethereum => seq!['e', 't', 'h', 'e', 'r', 'e', 'u', 'm'],
    }
}

proof fn lemma_parse_u8_from_u64(b: Seq<u8>)
    ensures
        parse_unsigned_spec(b, u8::MAX as nat) == (match parse_unsigned_spec(b, u64::MAX as nat) {
            Some(v) => if v <= u8::MAX { Some(v) } else { None },
            None => None,
        }),
{
}

impl BuiltinAuthValidator {
    /// The validator's flag byte.
    pub fn flag(&self) -> (r: u8)
        ensures
            r == validator_flag(*self),
    {
        match self {
            BuiltinAuthValidator::Session => SESSION_FLAG,
            BuiltinAuthValidator::Bitcoin => BITCOIN_FLAG,
            BuiltinAuthValidator::BitcoinMultisign => BITCOIN_MULTISIGN_FLAG,
            BuiltinAuthValidator::Ethereum => ETHEREUM_FLAG,
        }
    }

    /// The validator with the flag byte `byte_int`.
    pub fn from_flag_byte(byte_int: u8) -> (r: Result<BuiltinAuthValidator, KanariError>)
        ensures
            match validator_from_flag(byte_int) {
                Some(v) => r == Ok::<BuiltinAuthValidator, KanariError>(v),
                None => r == Err::<BuiltinAuthValidator, KanariError>(KanariError::KeyConversionError),
            },
    {
        if byte_int == SESSION_FLAG {
            Ok(BuiltinAuthValidator::Session)
        } else if byte_int == BITCOIN_FLAG {
            Ok(BuiltinAuthValidator::Bitcoin)
        } else if byte_int == BITCOIN_MULTISIGN_FLAG {
            Ok(BuiltinAuthValidator::BitcoinMultisign)
        } else if byte_int == ETHEREUM_FLAG {
            Ok(BuiltinAuthValidator::Ethereum)
        } else {
            Err(KanariError::KeyConversionError)
        }
    }

    /// The validator whose flag is written in decimal in `flag`.
    pub fn from_flag(flag: &str) -> (r: Result<BuiltinAuthValidator, KanariError>)
        ensures
            match parse_unsigned_spec(flag.spec_bytes(), u8::MAX as nat) {
                Some(b) => match validator_from_flag(b as u8) {
                    Some(v) => r == Ok::<BuiltinAuthValidator, KanariError>(v),
                    None => r == Err::<BuiltinAuthValidator, KanariError>(KanariError::KeyConversionError),
                },
                None => r == Err::<BuiltinAuthValidator, KanariError>(KanariError::KeyConversionError),
            },
    {
        proof {
            lemma_parse_u8_from_u64(flag.spec_bytes());
        }
        match parse_u64_bytes(flag.as_bytes()) {
            Some(v) => {
                if v > 255 {
                    return Err(KanariError::KeyConversionError);
                }
                Self::from_flag_byte(v as u8)
            },
            None => Err(KanariError::KeyConversionError),
        }
    }

    /// The validator's lowercase name.
    pub fn to_string(&self) -> (s: String)
        ensures
            s@ == validator_name(*self),
    {
        let s = match self {
            BuiltinAuthValidator::Session => String::from_str("session"),
            BuiltinAuthValidator::Bitcoin => String::from_str("bitcoin"),
            BuiltinAuthValidator::BitcoinMultisign => String::from_str("bitcoinmultisign"),
            BuiltinAuthValidator::Ethereum => String::from_str("ethereum"),
        };
        proof {
            reveal_strlit("session");
            reveal_strlit("bitcoin");
            reveal_strlit("bitcoinmultisign");
            reveal_strlit("ethereum");
            assert(s@ =~= validator_name(*self));
        }
        s
    }
}

/// A builtin validator's flag reads back as that validator.
pub proof fn lemma_flag_roundtrip(v: BuiltinAuthValidator)
    ensures
        validator_from_flag(validator_flag(v)) == Some(v),
{
}

/// A flag that reads as a builtin validator is that validator's flag.
pub proof fn lemma_flag_injective(b: u8)
    ensures
        validator_from_flag(b) matches Some(v) ==> validator_flag(v) == b,
{
}

} // verus!
