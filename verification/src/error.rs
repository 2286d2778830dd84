//! The errors of the chain-identifier and validator types, and their texts.

use crate::text::{decimal_chars, write_decimal};
use vstd::prelude::*;
use vstd::string::StringExecFns;

verus! {

/// Why a conversion or check on the chain-level types failed.
#[derive(Debug, Clone, PartialEq, Eq)]
pub enum KanariError {
    /// The number is not the id of a builtin chain.
    InvalidChainID(u64),
    /// The chain id is not that of a builtin chain.
    NotBuiltinChainID(u64),
    /// The name (lowercased) is not the name of a builtin chain.
    UnknownChain(String),
    /// The text is neither a builtin chain name nor a decimal chain id.
    InvalidChainIDText,
    /// The operation is only allowed on the test, dev or local network.
    NotTestOrDevOrLocalNetwork,
    /// The operation is only allowed on the test, dev or local chain id.
    NotTestOrDevOrLocalChainID,
    /// The number is not the id of a builtin multichain.
    InvalidMultiChainID(u64),
    /// The multichain id is not that of a builtin multichain.
    NotBuiltinMultiChainID(u64),
    /// The name is not the name of a builtin multichain.
    UnknownMultiChain(String),
    /// The text is not a decimal multichain id.
    InvalidMultiChainIDText,
    /// A key or auth validator could not be converted.
    KeyConversionError,
}

/// The text of an error, where this library sets it: the errors from
/// reading a number out of a text carry the text of the number parser,
/// which is not set here (`None`).
pub open spec fn kanari_error_message(e: KanariError) -> Option<Seq<char>> {
    match e {
        KanariError::InvalidChainID(id) => Some("chain id "@ + decimal_chars(id as nat) + " is invalid"@),
        KanariError::NotBuiltinChainID(id) => Some(decimal_chars(id as nat) + " is not a builtin chain id"@),
        KanariError::UnknownChain(s) => Some("Unknown chain: "@ + s@),
        KanariError::InvalidChainIDText => None,
        KanariError::NotTestOrDevOrLocalNetwork => Some("Only support test or dev or local network."@),
        KanariError::NotTestOrDevOrLocalChainID => Some("Only support test or dev or local chain_id."@),
        KanariError::InvalidMultiChainID(id) => Some(
            "multichain id "@ + decimal_chars(id as nat) + " is invalid"@,
        ),
        KanariError::NotBuiltinMultiChainID(id) => Some(
            decimal_chars(id as nat) + " is not a builtin multichain id"@,
        ),
        KanariError::UnknownMultiChain(s) => Some("Unknown multichain: "@ + s@),
        KanariError::InvalidMultiChainIDText => None,
        KanariError::KeyConversionError => Some("Invalid key auth validator"@),
    }
}

impl KanariError {
    /// The text of the error (see `kanari_error_message`).
    pub fn message(&self) -> (r: Option<String>)
        ensures
            match r {
                Some(t) => kanari_error_message(*self) == Some(t@),
                None => kanari_error_message(*self) is None,
            },
    {
        match self {
            KanariError::InvalidChainID(id) => {
                let mut s = String::from_str("chain id ");
                write_decimal(*id, &mut s);
                s.append(" is invalid");
                Some(s)
            },
            KanariError::NotBuiltinChainID(id) => {
                let mut s = String::new();
                write_decimal(*id, &mut s);
                s.append(" is not a builtin chain id");
                proof {
                    assert(s@ =~= decimal_chars(*id as nat) + " is not a builtin chain id"@);
                }
                Some(s)
            },
            KanariError::UnknownChain(name) => {
                let mut s = String::from_str("Unknown chain: ");
                s.append(name.as_str());
                Some(s)
            },
            KanariError::InvalidChainIDText => None,
            KanariError::NotTestOrDevOrLocalNetwork => Some(
                String::from_str("Only support test or dev or local network."),
            ),
            KanariError::NotTestOrDevOrLocalChainID => Some(
                String::from_str("Only support test or dev or local chain_id."),
            ),
            KanariError::InvalidMultiChainID(id) => {
                let mut s = String::from_str("multichain id ");
                write_decimal(*id, &mut s);
                s.append(" is invalid");
                Some(s)
            },
            KanariError::NotBuiltinMultiChainID(id) => {
                let mut s = String::new();
                write_decimal(*id, &mut s);
                s.append(" is not a builtin multichain id");
                proof {
                    assert(s@ =~= decimal_chars(*id as nat) + " is not a builtin multichain id"@);
                }
                Some(s)
            },
            KanariError::UnknownMultiChain(name) => {
                let mut s = String::from_str("Unknown multichain: ");
                s.append(name.as_str());
                Some(s)
            },
            KanariError::InvalidMultiChainIDText => None,
            KanariError::KeyConversionError => Some(String::from_str("Invalid key auth validator")),
        }
    }
}

} // verus!
