//! The numeric chain id.

use crate::text::{
    decimal_chars, lemma_decimal_roundtrip, parse_u64_bytes, parse_unsigned_spec, u64_to_decimal_string,
};
use vstd::prelude::*;
use vstd::string::StringSliceAdditionalSpecFns;
use vstd::utf8::encode_utf8;

verus! {

/// The id of a chain: a plain number.
#[derive(Debug, Copy, Clone, PartialEq, Eq, Structural, Hash)]
pub struct ChainID {
    pub id: u64,
}

impl ChainID {
    pub open spec fn spec_id(self) -> u64 {
        self.id
    }

    pub fn new(id: u64) -> (r: Self)
        ensures
            r.spec_id() == id,
    {
        ChainID { id }
    }

    pub fn id(&self) -> (r: u64)
        ensures
            r == self.spec_id(),
    {
        self.id
    }

    /// The decimal text of the id.
    pub fn to_string(&self) -> (s: String)
        ensures
            s@ == decimal_chars(self.spec_id() as nat),
    {
        u64_to_decimal_string(self.id)
    }

    /// Parses the decimal text of an id, as `u64::from_str` reads it.
    pub fn from_str(s: &str) -> (r: Option<Self>)
        ensures
            match r {
                Some(c) => parse_unsigned_spec(s.spec_bytes(), u64::MAX as nat) == Some(
                    c.spec_id() as nat,
                ),
                None => parse_unsigned_spec(s.spec_bytes(), u64::MAX as nat) is None,
            },
    {
        match parse_u64_bytes(s.as_bytes()) {
            Some(id) => Some(ChainID { id }),
            None => None,
        }
    }
}

/// Writing a chain id in decimal and reading the text back gives the id.
pub proof fn lemma_chain_id_text_roundtrip(c: ChainID)
    ensures
        parse_unsigned_spec(encode_utf8(decimal_chars(c.spec_id() as nat)), u64::MAX as nat) == Some(
            c.spec_id() as nat,
        ),
{
    lemma_decimal_roundtrip(c.spec_id());
}

} // verus!
