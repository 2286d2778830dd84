//! Parsing a secp256k1 secret key given either as a bech32 string with the
//! Kanari secret-key prefix or as raw hex.

use vstd::prelude::*;
use vstd::string::StringSliceAdditionalSpecFns;

verus! {

/// The human-readable part of a bech32 Kanari secret key.
pub const KANARI_SECRET_KEY_HRP: &'static str = "kanarisecretkey";

/// Kanari Key length in bech32 string length: 15 hrp + 59 separator, data and checksum.
pub const LENGTH_SK_BECH32: usize = 74;

/// The flag byte of the secp256k1 signature scheme.
pub const SECP256K1_FLAG: u8 = 0x01;

/// The order of the secp256k1 group.
pub open spec fn secp256k1_order() -> nat {
    0xFFFFFFFF_FFFFFFFF_FFFFFFFF_FFFFFFFE_BAAEDCE6_AF48A03B_BFD25E8C_D0364141nat
}

/// The number that bytes denote, most significant byte first.
pub open spec fn be_value(b: Seq<u8>) -> nat
    decreases b.len(),
{
    if b.len() == 0 {
        0
    } else {
        be_value(b.drop_last()) * 256 + b.last() as nat
    }
}

/// Whether 32 bytes are a secp256k1 secret key: not 0 and below the group
/// order, read most significant byte first.
pub open spec fn is_valid_secret_key(b: Seq<u8>) -> bool {
    b.len() == 32 && 0 < be_value(b) < secp256k1_order()
}

/// Checks bytes as a secp256k1 secret key.
///
/// Trusted: calls `secp256k1::SecretKey::from_slice`, which accepts exactly
/// 32 bytes that libsecp256k1's `ec_seckey_verify` accepts; its header
/// documents that a secret key is valid when it is not 0 and less than the
/// curve order read most significant byte first.
#[verifier::external_body]
fn secret_key_is_valid(data: &[u8]) -> (r: bool)
    ensures
        r == is_valid_secret_key(data@),
{
    bitcoin::secp256k1::SecretKey::from_slice(data).is_ok()
}

/// The value of an ASCII hex digit (either case).
pub open spec fn hex_digit_value(c: u8) -> Option<u8> {
    if 48 <= c <= 57 {
        Some((c - 48) as u8)
    } else if 97 <= c <= 102 {
        Some((c - 97 + 10) as u8)
    } else if 65 <= c <= 70 {
        Some((c - 65 + 10) as u8)
    } else {
        None
    }
}

/// The bytes that hex text denotes: two digits per byte, high digit first;
/// nothing when the length is odd or a character is not a hex digit.
pub open spec fn hex_decoded(t: Seq<u8>) -> Option<Seq<u8>> {
    if t.len() % 2 == 0 && forall|i: int| 0 <= i < t.len() ==> (#[trigger] hex_digit_value(t[i])) is Some {
        Some(
            Seq::new(
                t.len() / 2,
                |i: int|
                    (hex_digit_value(t[2 * i])->Some_0 * 16 + hex_digit_value(t[2 * i + 1])->Some_0) as u8,
            ),
        )
    } else {
        None
    }
}

/// Decodes hex text.
///
/// Trusted: calls `hex::decode`, which fails on an odd length or a non-hex
/// character and otherwise turns each pair of digits (either case) into one
/// byte, high digit first.
#[verifier::external_body]
fn hex_decode(data: &[u8]) -> (r: Option<Vec<u8>>)
    ensures
        match hex_decoded(data@) {
            Some(b) => r matches Some(v) && v@ == b,
            None => r is None,
        },
{
    hex::decode(data).ok()
}

/// The bytes of a signature written as hex text: the first step of parsing
/// a signature, before the bytes are read as a signature of a scheme.
pub fn decode_signature_hex(s: &str) -> (r: Option<Vec<u8>>)
    ensures
        match hex_decoded(s.spec_bytes()) {
            Some(b) => r matches Some(v) && v@ == b,
            None => r is None,
        },
{
    hex_decode(s.as_bytes())
}

/// What `bech32::decode` returns for a text: the human-readable part (as
/// written) and the data bytes, or nothing when the text is not valid
/// bech32 or bech32m.
pub uninterp spec fn bech32_decoded(s: Seq<char>) -> Option<(Seq<u8>, Seq<u8>)>;

/// Decodes a bech32 or bech32m text.
///
/// Trusted: calls `bech32::decode` and hands back the human-readable part's
/// bytes and the data; the contract names the result, which depends on the
/// text alone (the checksum algorithms are left unsaid).
#[verifier::external_body]
fn bech32_decode(s: &str) -> (r: Option<(Vec<u8>, Vec<u8>)>)
    ensures
        match bech32_decoded(s@) {
            Some((h, d)) => r matches Some(p) && p.0@ == h && p.1@ == d,
            None => r is None,
        },
{
    match bech32::decode(s) {
        Ok((hrp, data)) => Some((hrp.as_bytes().to_vec(), data)),
        Err(_) => None,
    }
}

/// Why a secret key text was refused.
#[derive(Debug, Copy, Clone, PartialEq, Eq, Structural)]
pub enum SecretKeyError {
    /// The bech32 text does not decode.
    Bech32Decode,
    /// The human-readable part is not the Kanari secret-key prefix.
    HrpMismatch,
    /// The bech32 data is not a flag byte and 32 key bytes.
    DataLength,
    /// The flag byte is not the secp256k1 flag.
    FlagMismatch(u8),
    /// The bech32 key bytes are not a valid secret key.
    InvalidSecretKey,
    /// The hex key bytes are not a valid secret key.
    RawKeyInvalid,
    /// The text is not hex.
    HexDecode,
}

/// The bytes of the Kanari secret-key prefix.
pub open spec fn hrp_bytes() -> Seq<u8> {
    seq![107u8, 97, 110, 97, 114, 105, 115, 101, 99, 114, 101, 116, 107, 101, 121]
}

/// An ASCII byte in lowercase.
pub open spec fn ascii_lower(b: u8) -> u8 {
    if 65 <= b <= 90 { (b + 32) as u8 } else { b }
}

/// Whether two ASCII texts are equal ignoring case.
pub open spec fn ascii_eq_ignore_case(a: Seq<u8>, b: Seq<u8>) -> bool {
    a.len() == b.len() && forall|i: int| 0 <= i < a.len() ==> ascii_lower(#[trigger] a[i]) == ascii_lower(b[i])
}

/// What parsing a secret-key text gives: a text of 74 bytes that starts with
/// the prefix is read as bech32 (prefix in any case, then the secp256k1 flag
/// and 32 key bytes); any other is read as hex, with or without `0x`.
pub open spec fn parse_secret_key_spec(s: Seq<char>, bytes: Seq<u8>) -> Result<Seq<u8>, SecretKeyError> {
    if bytes.len() >= 15 && bytes.take(15) == hrp_bytes() && bytes.len() == LENGTH_SK_BECH32 {
        match bech32_decoded(s) {
            None => Err(SecretKeyError::Bech32Decode),
            Some((h, d)) => if !ascii_eq_ignore_case(h, hrp_bytes()) {
                Err(SecretKeyError::HrpMismatch)
            } else if d.len() != 33 {
                Err(SecretKeyError::DataLength)
            } else if d[0] != SECP256K1_FLAG {
                Err(SecretKeyError::FlagMismatch(d[0]))
            } else if !is_valid_secret_key(d.drop_first()) {
                Err(SecretKeyError::InvalidSecretKey)
            } else {
                Ok(d.drop_first())
            },
        }
    } else {
        let t = if bytes.len() >= 2 && bytes[0] == 48 && bytes[1] == 120 { bytes.skip(2) } else { bytes };
        match hex_decoded(t) {
            None => Err(SecretKeyError::HexDecode),
            Some(k) => if is_valid_secret_key(k) { Ok(k) } else { Err(SecretKeyError::RawKeyInvalid) },
        }
    }
}

/// A parsed secp256k1 secret key: 32 bytes that are a valid key.
#[derive(Debug, Clone, PartialEq, Eq)]
pub struct ParsedSecretKey {
    secret: Vec<u8>,
}

fn starts_with_bytes(b: &[u8], prefix: &[u8]) -> (r: bool)
    ensures
        r == (b@.len() >= prefix@.len() && b@.take(prefix@.len() as int) == prefix@),
{
    if b.len() < prefix.len() {
        return false;
    }
    let mut i: usize = 0;
    while i < prefix.len()
        invariant
            0 <= i <= prefix@.len() <= b@.len(),
            forall|k: int| 0 <= k < i ==> b@[k] == prefix@[k],
        decreases prefix@.len() - i,
    {
        if b[i] != prefix[i] {
            proof {
                assert(b@.take(prefix@.len() as int)[i as int] != prefix@[i as int]);
            }
            return false;
        }
        i = i + 1;
    }
    proof {
        assert(b@.take(prefix@.len() as int) =~= prefix@);
    }
    true
}

fn lower_byte(b: u8) -> (r: u8)
    ensures
        r == ascii_lower(b),
{
    if 65 <= b && b <= 90 { b + 32 } else { b }
}

fn eq_ignore_ascii_case(a: &[u8], b: &[u8]) -> (r: bool)
    ensures
        r == ascii_eq_ignore_case(a@, b@),
{
    if a.len() != b.len() {
        return false;
    }
    let mut i: usize = 0;
    while i < a.len()
        invariant
            0 <= i <= a@.len() == b@.len(),
            forall|k: int| 0 <= k < i ==> ascii_lower(#[trigger] a@[k]) == ascii_lower(b@[k]),
        decreases a@.len() - i,
    {
        if lower_byte(a[i]) != lower_byte(b[i]) {
            return false;
        }
        i = i + 1;
    }
    true
}

fn slice_skip(b: &[u8], n: usize) -> (r: Vec<u8>)
    requires
        n <= b@.len(),
    ensures
        r@ == b@.skip(n as int),
{
    let mut v: Vec<u8> = Vec::new();
    let mut i: usize = n;
    while i < b.len()
        invariant
            n <= i <= b@.len(),
            v@ == b@.subrange(n as int, i as int),
        decreases b@.len() - i,
    {
        v.push(b[i]);
        proof {
            assert(b@.subrange(n as int, i + 1) =~= b@.subrange(n as int, i as int).push(b@[i as int]));
        }
        i = i + 1;
    }
    proof {
        assert(b@.subrange(n as int, b@.len() as int) =~= b@.skip(n as int));
    }
    v
}

impl ParsedSecretKey {
    /// The 32 key bytes.
    pub closed spec fn secret_bytes(&self) -> Seq<u8> {
        self.secret@
    }

    /// The 32 key bytes.
    pub fn into_inner(self) -> (r: Vec<u8>)
        ensures
            r@ == self.secret_bytes(),
    {
        self.secret
    }

    /// Parses a secret key given as a bech32 text with the Kanari secret-key
    /// prefix, or as hex (optionally `0x`-prefixed).
    pub fn parse(s: &str) -> (r: Result<Self, SecretKeyError>)
        ensures
            match parse_secret_key_spec(s@, s.spec_bytes()) {
                Ok(k) => r matches Ok(p) && p.secret_bytes() == k,
                Err(e) => r == Err::<Self, SecretKeyError>(e),
            },
    {
        let bytes = s.as_bytes();
        let hrp = KANARI_SECRET_KEY_HRP.as_bytes();
        proof {
            reveal_strlit("kanarisecretkey");
            assert(hrp@ =~= hrp_bytes()) by {
                assert(KANARI_SECRET_KEY_HRP@ =~= "kanarisecretkey"@);
                vstd::string::is_ascii_spec_bytes(KANARI_SECRET_KEY_HRP);
            }
        }
        if starts_with_bytes(bytes, hrp) && bytes.len() == LENGTH_SK_BECH32 {
            let decoded = bech32_decode(s);
            match decoded {
                None => Err(SecretKeyError::Bech32Decode),
                Some((h, data)) => {
                    if !eq_ignore_ascii_case(h.as_slice(), hrp) {
                        return Err(SecretKeyError::HrpMismatch);
                    }
                    if data.len() != 33 {
                        return Err(SecretKeyError::DataLength);
                    }
                    if data[0] != SECP256K1_FLAG {
                        return Err(SecretKeyError::FlagMismatch(data[0]));
                    }
                    let key = slice_skip(data.as_slice(), 1);
                    proof {
                        assert(key@ =~= data@.drop_first());
                    }
                    if !secret_key_is_valid(key.as_slice()) {
                        return Err(SecretKeyError::InvalidSecretKey);
                    }
                    Ok(ParsedSecretKey { secret: key })
                },
            }
        } else {
            let t = if bytes.len() >= 2 && bytes[0] == 48u8 && bytes[1] == 120u8 {
                slice_skip(bytes, 2)
            } else {
                slice_skip(bytes, 0)
            };
            proof {
                assert(bytes@.skip(0) =~= bytes@);
            }
            match hex_decode(t.as_slice()) {
                None => Err(SecretKeyError::HexDecode),
                Some(k) => {
                    if secret_key_is_valid(k.as_slice()) {
                        Ok(ParsedSecretKey { secret: k })
                    } else {
                        Err(SecretKeyError::RawKeyInvalid)
                    }
                },
            }
        }
    }
}

/// A parsed key is a valid secp256k1 secret key.
pub proof fn lemma_parsed_key_is_valid(s: Seq<char>, bytes: Seq<u8>)
    ensures
        parse_secret_key_spec(s, bytes) matches Ok(k) ==> is_valid_secret_key(k),
{
}

} // verus!
