//! Bytes on the wire: ASCII words and decimal numbers.

use vstd::prelude::*;
use vstd::string::*;

verus! {

/// The byte of the line feed that may end a value.
pub const LINE_FEED: u8 = 10;

/// The byte of the space that separates the words of a value.
pub const SPACE: u8 = 32;

/// The bytes of a sequence of ASCII characters, one byte per character.
pub open spec fn ascii(chars: Seq<char>) -> Seq<u8> {
    Seq::new(chars.len(), |i: int| chars[i] as u8)
}

/// The bytes of an ASCII word.
pub(crate) fn ascii_bytes(word: &str) -> (bytes: &[u8])
    requires
        is_ascii(word),
    ensures
        bytes@ == ascii(word@),
{
    broadcast use is_ascii_spec_bytes;

    word.as_bytes()
}

/// Whether two byte strings hold the same bytes.
pub fn bytes_equal(left: &[u8], right: &[u8]) -> (same: bool)
    ensures
        same == (left@ == right@),
{
    if left.len() != right.len() {
        return false;
    }
    let mut i: usize = 0;
    while i < left.len()
        invariant
            left@.len() == right@.len(),
            i <= left@.len(),
            forall|j: int| 0 <= j < i ==> left@[j] == right@[j],
        decreases left@.len() - i,
    {
        if left[i] != right[i] {
            return false;
        }
        i += 1;
    }
    assert(left@ =~= right@);
    true
}

/// Appends every byte of `tail` to `out`.
pub fn append_bytes(out: &mut Vec<u8>, tail: &[u8])
    ensures
        final(out)@ == old(out)@ + tail@,
{
    let mut i: usize = 0;
    while i < tail.len()
        invariant
            i <= tail@.len(),
            out@ == old(out)@ + tail@.take(i as int),
        decreases tail@.len() - i,
    {
        out.push(tail[i]);
        i += 1;
    }
}

/// Whether a byte is one of the digits `0` to `9`.
pub open spec fn is_digit(byte: u8) -> bool {
    48 <= byte <= 57
}

/// The digit that stands for `d`, for `d` below ten.
pub open spec fn digit_byte(d: nat) -> u8 {
    (48 + d) as u8
}

/// What a digit counts for; a byte that is no digit counts for nothing.
pub open spec fn digit_value(byte: u8) -> nat {
    if is_digit(byte) {
        (byte - 48) as nat
    } else {
        0
    }
}

/// The decimal numeral of `n`: no sign, no leading zero, `0` for zero.
pub open spec fn decimal(n: nat) -> Seq<u8>
    decreases n,
{
    if n < 10 {
        seq![digit_byte(n)]
    } else {
        decimal(n / 10).push(digit_byte(n % 10))
    }
}

/// Whether every byte is a digit.
pub open spec fn all_digits(bytes: Seq<u8>) -> bool {
    forall|i: int| 0 <= i < bytes.len() ==> is_digit(#[trigger] bytes[i])
}

/// The number a string of digits denotes, most significant digit first.
pub open spec fn digits_value(bytes: Seq<u8>) -> nat
    decreases bytes.len(),
{
    if bytes.len() == 0 {
        0
    } else {
        digits_value(bytes.drop_last()) * 10 + digit_value(bytes.last())
    }
}

/// The number that `bytes` spells out: at least one digit, nothing but
/// digits, and a value that fits in 64 bits. Leading zeros are accepted.
pub open spec fn parse_decimal(bytes: Seq<u8>) -> Option<u64> {
    if bytes.len() > 0 && all_digits(bytes) && digits_value(bytes) <= u64::MAX {
        Some(digits_value(bytes) as u64)
    } else {
        None
    }
}

/// A longer string of digits denotes at least as much as any of its prefixes.
pub proof fn digits_value_grows(bytes: Seq<u8>, k: int)
    requires
        0 <= k <= bytes.len(),
    ensures
        digits_value(bytes.take(k)) <= digits_value(bytes),
    decreases bytes.len() - k,
{
    if k == bytes.len() {
        assert(bytes.take(k) =~= bytes);
    } else {
        digits_value_grows(bytes.drop_last(), k);
        assert(bytes.drop_last().take(k) =~= bytes.take(k));
    }
}

/// Every byte of a decimal numeral is a digit, and there is at least one.
pub proof fn decimal_is_digits(n: nat)
    ensures
        decimal(n).len() > 0,
        all_digits(decimal(n)),
    decreases n,
{
    if n >= 10 {
        decimal_is_digits(n / 10);
    }
}

/// A decimal numeral denotes the number it was written for.
pub proof fn decimal_value(n: nat)
    ensures
        digits_value(decimal(n)) == n,
    decreases n,
{
    if n < 10 {
        assert(digits_value(decimal(n).drop_last()) == 0);
    } else {
        decimal_value(n / 10);
        assert(decimal(n).drop_last() =~= decimal(n / 10));
    }
}

/// Reading back the numeral of a 64-bit number gives that number.
pub proof fn decimal_round_trip(n: u64)
    ensures
        parse_decimal(decimal(n as nat)) == Some(n),
{
    decimal_is_digits(n as nat);
    decimal_value(n as nat);
}

/// Writes `n` as a decimal numeral.
pub fn encode_decimal(n: u64) -> (bytes: Vec<u8>)
    ensures
        bytes@ == decimal(n as nat),
{
    let mut bytes: Vec<u8> = Vec::new();
    let first: u8 = (n % 10) as u8;
    bytes.push(48 + first);
    let mut rest: u64 = n / 10;
    while rest > 0
        invariant
            rest > 0 ==> decimal(n as nat) == decimal(rest as nat) + bytes@,
            rest == 0 ==> decimal(n as nat) == bytes@,
        decreases rest,
    {
        let digit: u8 = (rest % 10) as u8;
        bytes.insert(0, 48 + digit);
        rest = rest / 10;
    }
    bytes
}

/// Reads a decimal numeral; `None` where `bytes` is empty, holds a byte that
/// is no digit, or denotes more than 64 bits hold.
pub fn decode_decimal(bytes: &[u8]) -> (number: Option<u64>)
    ensures
        number == parse_decimal(bytes@),
{
    if bytes.len() == 0 {
        return None;
    }
    let mut value: u64 = 0;
    let mut i: usize = 0;
    while i < bytes.len()
        invariant
            i <= bytes@.len(),
            all_digits(bytes@.take(i as int)),
            value == digits_value(bytes@.take(i as int)),
        decreases bytes@.len() - i,
    {
        let byte: u8 = bytes[i];
        if byte < 48 || byte > 57 {
            return None;
        }
        let digit: u64 = (byte - 48) as u64;
        proof {
            assert(bytes@.take(i + 1).drop_last() =~= bytes@.take(i as int));
            digits_value_grows(bytes@, i + 1);
        }
        if value > (u64::MAX - digit) / 10 {
            return None;
        }
        value = value * 10 + digit;
        i += 1;
    }
    assert(bytes@.take(bytes@.len() as int) =~= bytes@);
    Some(value)
}

} // verus!
