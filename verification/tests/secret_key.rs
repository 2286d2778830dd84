use kanari::types::kanari_key::decode_signature_hex;
use bech32::{Bech32, Hrp};
use kanari::types::kanari_key::{ParsedSecretKey, SecretKeyError, LENGTH_SK_BECH32};

const ORDER_HEX: &str = "fffffffffffffffffffffffffffffffebaaedce6af48a03bbfd25e8cd0364141";
const ORDER_MINUS_ONE_HEX: &str = "fffffffffffffffffffffffffffffffebaaedce6af48a03bbfd25e8cd0364140";

fn encode(hrp: &str, data: &[u8]) -> String {
    bech32::encode::<Bech32>(Hrp::parse(hrp).unwrap(), data).unwrap()
}

#[test]
fn parses_hex_key() {
    let text = "01".repeat(32);
    let key = ParsedSecretKey::parse(&text).unwrap();
    assert_eq!(key.into_inner(), vec![1u8; 32]);
}

#[test]
fn parses_hex_key_with_0x_prefix() {
    let text = format!("0x{}", "ab".repeat(32));
    let key = ParsedSecretKey::parse(&text).unwrap();
    assert_eq!(key.into_inner(), vec![0xabu8; 32]);
}

#[test]
fn hex_key_below_order_is_accepted() {
    let key = ParsedSecretKey::parse(ORDER_MINUS_ONE_HEX).unwrap();
    assert_eq!(key.into_inner(), hex::decode(ORDER_MINUS_ONE_HEX).unwrap());
}

#[test]
fn zero_and_order_are_refused() {
    assert_eq!(ParsedSecretKey::parse(&"00".repeat(32)), Err(SecretKeyError::RawKeyInvalid));
    assert_eq!(ParsedSecretKey::parse(ORDER_HEX), Err(SecretKeyError::RawKeyInvalid));
}

#[test]
fn short_key_is_refused() {
    assert_eq!(ParsedSecretKey::parse(&"01".repeat(31)), Err(SecretKeyError::RawKeyInvalid));
    assert_eq!(ParsedSecretKey::parse(""), Err(SecretKeyError::RawKeyInvalid));
}

#[test]
fn non_hex_is_refused() {
    assert_eq!(ParsedSecretKey::parse("zz"), Err(SecretKeyError::HexDecode));
    assert_eq!(ParsedSecretKey::parse("abc"), Err(SecretKeyError::HexDecode));
}

#[test]
fn full_bech32_key_is_not_of_the_expected_length() {
    let mut data = vec![1u8];
    data.extend_from_slice(&[7u8; 32]);
    let text = encode("kanarisecretkey", &data);
    assert_eq!(text.len(), LENGTH_SK_BECH32 + 1);
    // a text of another length is read as hex
    assert_eq!(ParsedSecretKey::parse(&text), Err(SecretKeyError::HexDecode));
}

#[test]
fn bech32_key_of_expected_length_has_short_data() {
    let mut data = vec![1u8];
    data.extend_from_slice(&[7u8; 31]);
    let text = encode("kanarisecretkey", &data);
    assert_eq!(text.len(), LENGTH_SK_BECH32);
    assert_eq!(ParsedSecretKey::parse(&text), Err(SecretKeyError::DataLength));
}

#[test]
fn bech32_key_with_longer_prefix_is_refused() {
    let text = encode("kanarisecretkeyqq", &[7u8; 31]);
    assert_eq!(text.len(), LENGTH_SK_BECH32);
    assert_eq!(ParsedSecretKey::parse(&text), Err(SecretKeyError::HrpMismatch));
}

#[test]
fn bech32_key_with_bad_checksum_is_refused() {
    let mut data = vec![1u8];
    data.extend_from_slice(&[7u8; 31]);
    let text = encode("kanarisecretkey", &data);
    let mut chars: Vec<char> = text.chars().collect();
    let last = chars.len() - 1;
    chars[last] = if chars[last] == 'q' { 'p' } else { 'q' };
    let broken: String = chars.into_iter().collect();
    assert_eq!(ParsedSecretKey::parse(&broken), Err(SecretKeyError::Bech32Decode));
}

#[test]
fn signature_hex_is_decoded() {
    assert_eq!(decode_signature_hex("00ff10Ab"), Some(vec![0x00, 0xff, 0x10, 0xab]));
    assert_eq!(decode_signature_hex(""), Some(vec![]));
    assert_eq!(decode_signature_hex("abc"), None);
    assert_eq!(decode_signature_hex("zz"), None);
}
