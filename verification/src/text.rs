//! Decimal text codecs and small character helpers shared by the library.

use vstd::prelude::*;
use vstd::utf8::{encode_utf8, is_ascii_chars};

verus! {

/// Appends one character to a string.
///
/// Trusted: calls `String::push`, which std documents as "Appends the given
/// `char` to the end of this `String`"; the contract says exactly that.
#[verifier::external_body]
pub(crate) fn push_char(s: &mut String, c: char)
    ensures
        final(s)@ == old(s)@.push(c),
{
    s.push(c);
}

/// The character of a decimal digit.
pub open spec fn digit_char(d: nat) -> char
    recommends
        d < 10,
{
    ((48 + d) as u8) as char
}

/// The decimal text of a natural number, without sign or leading zeros.
pub open spec fn decimal_chars(n: nat) -> Seq<char>
    decreases n,
{
    if n < 10 {
        seq![digit_char(n)]
    } else {
        decimal_chars(n / 10).push(digit_char(n % 10))
    }
}

/// Appends the decimal text of `n` to `s`.
pub fn write_decimal(n: u64, s: &mut String)
    ensures
        final(s)@ == old(s)@ + decimal_chars(n as nat),
    decreases n,
{
    if n >= 10 {
        write_decimal(n / 10, s);
    }
    let d: u8 = (n % 10) as u8;
    let c: char = (48u8 + d) as char;
    push_char(s, c);
    proof {
        assert(decimal_chars(n as nat) == if n < 10 {
            seq![digit_char(n as nat)]
        } else {
            decimal_chars((n / 10) as nat).push(digit_char((n % 10) as nat))
        });
    }
}

/// The decimal text of `n`.
pub fn u64_to_decimal_string(n: u64) -> (s: String)
    ensures
        s@ == decimal_chars(n as nat),
{
    let mut s = String::new();
    write_decimal(n, &mut s);
    proof {
        assert(s@ =~= Seq::<char>::empty() + decimal_chars(n as nat));
    }
    s
}

/// The decimal text of an integer: a minus sign before the digits of a
/// negative one.
pub open spec fn signed_decimal_chars(n: int) -> Seq<char> {
    if n < 0 {
        seq!['-'] + decimal_chars((-n) as nat)
    } else {
        decimal_chars(n as nat)
    }
}

/// Appends the decimal text of `n` to `s`.
pub fn write_signed_decimal(n: i64, s: &mut String)
    ensures
        final(s)@ == old(s)@ + signed_decimal_chars(n as int),
{
    if n < 0 {
        push_char(s, '-');
        let m: u64 = (0i128 - n as i128) as u64;
        write_decimal(m, s);
        proof {
            assert(s@ =~= old(s)@ + signed_decimal_chars(n as int));
        }
    } else {
        write_decimal(n as u64, s);
    }
}

/// Whether a byte is an ASCII decimal digit.
pub open spec fn is_digit_byte(b: u8) -> bool {
    48 <= b <= 57
}

/// The value of a sequence of ASCII digits, most significant first.
pub open spec fn digits_value(d: Seq<u8>) -> nat
    decreases d.len(),
{
    if d.len() == 0 {
        0
    } else {
        digits_value(d.drop_last()) * 10 + (d.last() - 48) as nat
    }
}

/// The digits of a decimal text for an unsigned integer: one optional
/// leading `+` is dropped.
pub open spec fn unsigned_digits(b: Seq<u8>) -> Seq<u8> {
    if b.len() > 0 && b[0] == 43 {
        b.drop_first()
    } else {
        b
    }
}

/// The number that a decimal text for an unsigned integer denotes, if it is
/// well formed: an optional `+` followed by at least one ASCII digit and
/// nothing else.
pub open spec fn unsigned_decimal_value(b: Seq<u8>) -> Option<nat> {
    let d = unsigned_digits(b);
    if d.len() > 0 && forall|i: int| 0 <= i < d.len() ==> is_digit_byte(#[trigger] d[i]) {
        Some(digits_value(d))
    } else {
        None
    }
}

/// What parsing a text as an unsigned integer of at most `max` gives, as the
/// std `from_str` of the unsigned integer types does: the value when the
/// text is well formed and the value fits, nothing otherwise.
pub open spec fn parse_unsigned_spec(b: Seq<u8>, max: nat) -> Option<nat> {
    match unsigned_decimal_value(b) {
        Some(v) => if v <= max { Some(v) } else { None },
        None => None,
    }
}

proof fn lemma_digits_value_prefix_monotone(d: Seq<u8>, j: int, k: int)
    requires
        0 <= j <= k <= d.len(),
        forall|i: int| 0 <= i < d.len() ==> is_digit_byte(#[trigger] d[i]),
    ensures
        digits_value(d.take(j)) <= digits_value(d.take(k)),
    decreases k - j,
{
    if j < k {
        lemma_digits_value_prefix_monotone(d, j, k - 1);
        assert(d.take(k).drop_last() =~= d.take(k - 1));
    }
}

/// Parses the bytes of a decimal text as a `u64`, with the rules of the std
/// `u64::from_str`.
pub fn parse_u64_bytes(b: &[u8]) -> (r: Option<u64>)
    ensures
        match r {
            Some(v) => parse_unsigned_spec(b@, u64::MAX as nat) == Some(v as nat),
            None => parse_unsigned_spec(b@, u64::MAX as nat) is None,
        },
{
    let n = b.len();
    let mut start: usize = 0;
    if n > 0 && b[0] == 43u8 {
        start = 1;
    }
    let ghost d = unsigned_digits(b@);
    assert(d =~= b@.subrange(start as int, n as int));
    if start >= n {
        return None;
    }
    let mut acc: u64 = 0;
    let mut i: usize = start;
    while i < n
        invariant
            start <= i <= n,
            n == b@.len(),
            d =~= b@.subrange(start as int, n as int),
            d == unsigned_digits(b@),
            d.len() > 0,
            forall|k: int| 0 <= k < i - start ==> is_digit_byte(#[trigger] d[k]),
            acc as nat == digits_value(d.take(i - start)),
        decreases n - i,
    {
        let c = b[i];
        if c < 48u8 || c > 57u8 {
            assert(!is_digit_byte(d[i - start]));
            return None;
        }
        let ghost k = (i - start) as int;
        assert(d.take(k + 1).drop_last() =~= d.take(k));
        assert(d.take(k + 1).last() == c);
        match acc.checked_mul(10) {
            Some(m) => match m.checked_add((c - 48u8) as u64) {
                Some(a) => {
                    acc = a;
                },
                None => {
                    proof { lemma_overflow_none(d, k + 1); }
                    return None;
                },
            },
            None => {
                proof { lemma_overflow_none(d, k + 1); }
                return None;
            },
        }
        i = i + 1;
    }
    assert(d.take(n - start) =~= d);
    Some(acc)
}

proof fn lemma_overflow_none(d: Seq<u8>, k: int)
    requires
        0 < k <= d.len(),
        digits_value(d.take(k)) > u64::MAX,
        forall|i: int| 0 <= i < k ==> is_digit_byte(#[trigger] d[i]),
    ensures
        match unsigned_decimal_value_of_digits(d) {
            Some(v) => v > u64::MAX,
            None => true,
        },
{
    if forall|i: int| 0 <= i < d.len() ==> is_digit_byte(#[trigger] d[i]) {
        lemma_digits_value_prefix_monotone(d, k, d.len() as int);
        assert(d.take(d.len() as int) =~= d);
    }
}

/// The value of a digit sequence when every byte is a digit.
pub open spec fn unsigned_decimal_value_of_digits(d: Seq<u8>) -> Option<nat> {
    if d.len() > 0 && forall|i: int| 0 <= i < d.len() ==> is_digit_byte(#[trigger] d[i]) {
        Some(digits_value(d))
    } else {
        None
    }
}

/// The bytes of ASCII chars.
pub open spec fn ascii_bytes(c: Seq<char>) -> Seq<u8> {
    Seq::new(c.len(), |i: int| c[i] as u8)
}

proof fn lemma_digit_char(d: nat)
    requires
        d < 10,
    ensures
        '\0' <= digit_char(d) <= '\u{7f}',
        (digit_char(d) as u8) == 48 + d,
{
    let b: u8 = (48 + d) as u8;
    assert(b as u32 == 48 + d);
    vstd::utf8::char_u32_cast(digit_char(d), digit_char(d) as u32);
}

proof fn lemma_decimal_bytes(n: nat)
    ensures
        is_ascii_chars(decimal_chars(n)),
        decimal_chars(n).len() > 0,
        forall|i: int| 0 <= i < decimal_chars(n).len() ==> is_digit_byte(#[trigger] ascii_bytes(decimal_chars(n))[i]),
        digits_value(ascii_bytes(decimal_chars(n))) == n,
    decreases n,
{
    if n < 10 {
        lemma_digit_char(n);
        let bs = ascii_bytes(decimal_chars(n));
        assert(bs.drop_last() =~= Seq::<u8>::empty());
        assert(bs.last() == (48 + n) as u8);
        assert(digits_value(bs) == digits_value(bs.drop_last()) * 10 + (bs.last() - 48) as nat);
    } else {
        lemma_decimal_bytes(n / 10);
        lemma_digit_char(n % 10);
        let c = decimal_chars(n / 10);
        assert(decimal_chars(n) == c.push(digit_char(n % 10)));
        assert(ascii_bytes(c.push(digit_char(n % 10))) =~= ascii_bytes(c).push((48 + n % 10) as u8));
        assert(ascii_bytes(decimal_chars(n)).drop_last() =~= ascii_bytes(c));
        let bs = ascii_bytes(decimal_chars(n));
        assert(bs.last() == (48 + n % 10) as u8);
        assert((bs.last() - 48) as nat == n % 10);
        assert(digits_value(bs) == digits_value(ascii_bytes(c)) * 10 + n % 10);
        assert((n / 10) * 10 + n % 10 == n);
        assert forall|i: int| 0 <= i < decimal_chars(n).len() implies is_digit_byte(
            #[trigger] ascii_bytes(decimal_chars(n))[i],
        ) by {
            if i < c.len() {
                assert(ascii_bytes(decimal_chars(n))[i] == ascii_bytes(c)[i]);
            }
        }
    }
}

/// The decimal text of a number is made of digits, at least one.
pub proof fn lemma_decimal_chars_digits(n: nat)
    ensures
        decimal_chars(n).len() > 0,
        forall|i: int| 0 <= i < decimal_chars(n).len() ==> '0' <= #[trigger] decimal_chars(n)[i] <= '9',
    decreases n,
{
    lemma_digit_char(n % 10);
    assert((digit_char(n % 10) as u32) == 48 + n % 10);
    assert('0' <= digit_char(n % 10) <= '9');
    if n >= 10 {
        lemma_decimal_chars_digits(n / 10);
        let c = decimal_chars(n / 10);
        assert(decimal_chars(n) == c.push(digit_char(n % 10)));
        assert forall|i: int| 0 <= i < decimal_chars(n).len() implies '0' <= #[trigger] decimal_chars(n)[i] <= '9' by {
            if i < c.len() {
                assert(decimal_chars(n)[i] == c[i]);
            }
        }
    } else {
        assert(n % 10 == n);
    }
}

/// Reading back the decimal text of a number gives the number: the text a
/// `u64` is written as parses to it.
pub proof fn lemma_decimal_roundtrip(n: u64)
    ensures
        parse_unsigned_spec(encode_utf8(decimal_chars(n as nat)), u64::MAX as nat) == Some(n as nat),
{
    let c = decimal_chars(n as nat);
    lemma_decimal_bytes(n as nat);
    vstd::utf8::is_ascii_chars_encode_utf8(c);
    assert(encode_utf8(c) =~= ascii_bytes(c));
    assert(is_digit_byte(ascii_bytes(c)[0]));
    assert(unsigned_digits(ascii_bytes(c)) == ascii_bytes(c));
}

} // verus!
