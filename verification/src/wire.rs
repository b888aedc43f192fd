//! Byte-level building blocks of the wire format: little-endian words,
//! decimal numbers, and the text that stands for raw bytes in an error.

use vstd::prelude::*;

verus! {

/// Calls `Vec::into_boxed_slice` of the standard library. The boxed slice
/// holds the bytes of the vector, in the same order.
#[verifier::external_body]
pub(crate) fn into_boxed(bytes: Vec<u8>) -> (boxed: Box<[u8]>)
    ensures
        boxed@ == bytes@,
{
    bytes.into_boxed_slice()
}

/// A boxed slice that holds the same bytes as `bytes`.
pub(crate) fn boxed_copy(bytes: &[u8]) -> (boxed: Box<[u8]>)
    ensures
        boxed@ == bytes@,
{
    let mut copy: Vec<u8> = Vec::new();
    copy.extend_from_slice(bytes);
    assert(copy@ =~= bytes@);
    into_boxed(copy)
}

/// The text that `String::from_utf8_lossy` of the standard library makes of
/// `bytes`: their reading as UTF-8, with the replacement character in place
/// of whatever is not UTF-8.
pub uninterp spec fn lossy_text(bytes: Seq<u8>) -> Seq<char>;

/// Every byte is below 128.
pub open spec fn is_ascii(bytes: Seq<u8>) -> bool {
    forall|i: int| 0 <= i < bytes.len() ==> bytes[i] < 128
}

/// The characters whose codes are the given bytes.
pub open spec fn ascii_chars(bytes: Seq<u8>) -> Seq<char> {
    Seq::new(bytes.len(), |i: int| bytes[i] as char)
}

/// Calls `String::from_utf8_lossy` of the standard library and owns the
/// result. Bytes that are all ASCII are valid UTF-8 and come back unchanged,
/// one character for each byte. Of other bytes the contract only names the
/// text.
#[verifier::external_body]
pub(crate) fn text_of(bytes: &[u8]) -> (text: String)
    ensures
        text@ == lossy_text(bytes@),
        is_ascii(bytes@) ==> text@ == ascii_chars(bytes@),
{
    String::from_utf8_lossy(bytes).into_owned()
}

/// Whether `bytes` begins with the `len` bytes of `name`.
pub(crate) fn begins_with(bytes: &[u8], name: &[u8], len: usize) -> (same: bool)
    requires
        len == name@.len(),
        len <= bytes@.len(),
    ensures
        same == (bytes@.take(len as int) == name@),
{
    let mut i: usize = 0;
    while i < len
        invariant
            i <= len == name@.len() <= bytes@.len(),
            forall|j: int| 0 <= j < i ==> bytes@[j] == name@[j],
        decreases len - i,
    {
        if bytes[i] != name[i] {
            assert(bytes@.take(len as int)[i as int] != name@[i as int]);
            return false;
        }
        i += 1;
    }
    assert(bytes@.take(len as int) =~= name@);
    true
}

/// The four bytes of `x`, the least significant first.
pub open spec fn le_bytes(x: u32) -> Seq<u8> {
    seq![
        (x % 256) as u8,
        (x / 256 % 256) as u8,
        (x / 65536 % 256) as u8,
        (x / 16777216) as u8,
    ]
}

/// The number whose bytes, the least significant first, are the first four
/// of `bytes`.
pub open spec fn le_value(bytes: Seq<u8>) -> u32
    recommends
        bytes.len() >= 4,
{
    (bytes[0] as nat + bytes[1] as nat * 256 + bytes[2] as nat * 65536 + bytes[3] as nat
        * 16777216) as u32
}

/// The four bytes of `x` in little-endian order.
pub fn u32_to_le_bytes(x: u32) -> (bytes: [u8; 4])
    ensures
        bytes@ == le_bytes(x),
{
    let bytes: [u8; 4] = [
        (x % 256) as u8,
        (x / 256 % 256) as u8,
        (x / 65536 % 256) as u8,
        (x / 16777216) as u8,
    ];
    assert(bytes@ =~= le_bytes(x));
    bytes
}

/// The number that four bytes in little-endian order stand for.
pub fn u32_from_le_bytes(bytes: [u8; 4]) -> (x: u32)
    ensures
        x == le_value(bytes@),
{
    bytes[0] as u32 + bytes[1] as u32 * 256 + bytes[2] as u32 * 65536 + bytes[3] as u32 * 16777216
}

/// The number that the four bytes of `bytes` from `at` on stand for, in
/// little-endian order.
pub(crate) fn u32_le_at(bytes: &[u8], at: usize) -> (x: u32)
    requires
        at + 4 <= bytes@.len(),
    ensures
        x == le_value(bytes@.subrange(at as int, at + 4)),
{
    let total: usize = bytes.len();
    bytes[at] as u32 + bytes[at + 1] as u32 * 256 + bytes[at + 2] as u32 * 65536 + bytes[at
        + 3] as u32 * 16777216
}

/// Writing a number in little-endian order and reading it back gives the
/// number, and reading four bytes and writing the number back gives the
/// bytes.
pub proof fn lemma_le_round_trip(x: u32, bytes: Seq<u8>)
    requires
        bytes.len() == 4,
    ensures
        le_bytes(x).len() == 4,
        le_value(le_bytes(x)) == x,
        le_bytes(le_value(bytes)) == bytes,
{
    let q1 = x as int / 256;
    let q2 = q1 / 256;
    let q3 = q2 / 256;
    assert(q2 == x as int / 65536 && q3 == x as int / 16777216) by {
        vstd::arithmetic::div_mod::lemma_div_denominator(x as int, 256, 256);
        vstd::arithmetic::div_mod::lemma_div_denominator(x as int, 65536, 256);
    }
    assert(q3 < 256);
    assert(le_value(le_bytes(x)) == x);
    let b0 = bytes[0] as int;
    let b1 = bytes[1] as int;
    let b2 = bytes[2] as int;
    let b3 = bytes[3] as int;
    let v = b0 + b1 * 256 + b2 * 65536 + b3 * 16777216;
    assert(v == le_value(bytes));
    assert(v % 256 == b0 && v / 256 == b1 + b2 * 256 + b3 * 65536);
    assert(v / 65536 == b2 + b3 * 256);
    assert(v / 16777216 == b3);
    assert(v / 256 % 256 == b1);
    assert(v / 65536 % 256 == b2);
    assert(le_bytes(le_value(bytes)) =~= bytes);
}

/// The code of the decimal digit `d`.
pub open spec fn digit(d: nat) -> u8
    recommends
        d < 10,
{
    ('0' as u8 + d) as u8
}

/// The byte is the code of a decimal digit.
pub open spec fn is_digit(byte: u8) -> bool {
    '0' as u8 <= byte <= '9' as u8
}

/// Every byte is the code of a decimal digit.
pub open spec fn all_digits(bytes: Seq<u8>) -> bool {
    forall|i: int| 0 <= i < bytes.len() ==> is_digit(#[trigger] bytes[i])
}

/// The decimal digits of `n`, without leading zeros, as ASCII codes.
pub open spec fn decimal(n: nat) -> Seq<u8>
    decreases n,
{
    if n < 10 {
        seq![digit(n)]
    } else {
        decimal(n / 10).push(digit(n % 10))
    }
}

/// The number that the decimal digits `digits` stand for.
pub open spec fn decimal_value(digits: Seq<u8>) -> nat
    decreases digits.len(),
{
    if digits.len() == 0 {
        0
    } else {
        decimal_value(digits.drop_last()) * 10 + (digits.last() - '0' as u8) as nat
    }
}

/// Appends the decimal digits of `n` to `out`.
pub fn push_decimal(out: &mut Vec<u8>, n: u64)
    ensures
        final(out)@ == old(out)@ + decimal(n as nat),
    decreases n,
{
    if n < 10 {
        out.push('0' as u8 + n as u8);
        assert(out@ =~= old(out)@ + decimal(n as nat));
    } else {
        push_decimal(out, n / 10);
        out.push('0' as u8 + (n % 10) as u8);
        assert(out@ =~= old(out)@ + decimal(n as nat));
    }
}

/// The decimal digits of a number are digits, at least one of them, and they
/// stand for the number.
pub proof fn lemma_decimal(n: nat)
    ensures
        decimal(n).len() >= 1,
        all_digits(decimal(n)),
        is_ascii(decimal(n)),
        decimal_value(decimal(n)) == n,
        decimal(n)[0] != '+' as u8,
    decreases n,
{
    if n < 10 {
        assert(decimal(n).drop_last() =~= Seq::<u8>::empty());
        assert(decimal_value(Seq::<u8>::empty()) == 0);
        assert(decimal(n).last() == digit(n));
    } else {
        lemma_decimal(n / 10);
        assert(decimal(n).drop_last() =~= decimal(n / 10));
        assert(decimal(n).last() == digit(n % 10));
    }
}

/// Why a sequence of bytes is not a number.
#[derive(Clone, Copy, Debug, PartialEq, Eq, Structural)]
pub enum NumberError {
    /// There are no bytes at all.
    Empty,
    /// A byte is not a decimal digit, or there is no digit.
    InvalidDigit,
    /// The number does not fit in 32 bits.
    Overflow,
}

/// The number of leading bytes of `bytes` that are decimal digits.
pub open spec fn leading_digits(bytes: Seq<u8>) -> nat
    decreases bytes.len(),
{
    if bytes.len() == 0 || !is_digit(bytes[0]) {
        0
    } else {
        1 + leading_digits(bytes.skip(1))
    }
}

/// What [`parse_u32`] makes of `bytes`.
///
/// A number is an optional plus sign and then one or more decimal digits. The
/// bytes are read from the left, and the first thing that is wrong decides
/// the error: digits that already exceed 32 bits, or a byte that is no digit.
pub open spec fn spec_parse_u32(bytes: Seq<u8>) -> Result<u32, NumberError> {
    let digits = if bytes.len() > 0 && bytes[0] == '+' as u8 {
        bytes.skip(1)
    } else {
        bytes
    };
    let leading = digits.take(leading_digits(digits) as int);
    if bytes.len() == 0 {
        Err(NumberError::Empty)
    } else if digits.len() == 0 {
        Err(NumberError::InvalidDigit)
    } else if decimal_value(leading) > u32::MAX {
        Err(NumberError::Overflow)
    } else if leading.len() < digits.len() {
        Err(NumberError::InvalidDigit)
    } else {
        Ok(decimal_value(digits) as u32)
    }
}

/// The leading digits of a sequence are digits, and the byte after them, if
/// there is one, is not.
pub proof fn lemma_leading_digits(bytes: Seq<u8>)
    ensures
        leading_digits(bytes) <= bytes.len(),
        all_digits(bytes.take(leading_digits(bytes) as int)),
        leading_digits(bytes) < bytes.len() ==> !is_digit(bytes[leading_digits(bytes) as int]),
        all_digits(bytes) ==> leading_digits(bytes) == bytes.len(),
    decreases bytes.len(),
{
    if bytes.len() == 0 || !is_digit(bytes[0]) {
    } else {
        let rest = bytes.skip(1);
        lemma_leading_digits(rest);
        let n = leading_digits(rest);
        assert forall|i: int| 0 <= i < n + 1 implies is_digit(
            #[trigger] bytes.take(n as int + 1)[i],
        ) by {
            if i > 0 {
                assert(bytes.take(n as int + 1)[i] == rest.take(n as int)[i - 1]);
            }
        }
        if all_digits(bytes) {
            assert forall|i: int| 0 <= i < rest.len() implies is_digit(#[trigger] rest[i]) by {
                assert(rest[i] == bytes[i + 1]);
            }
        }
    }
}

/// Digits that are followed by more digits stand for a number that is not
/// smaller.
pub proof fn lemma_decimal_value_grows(digits: Seq<u8>, k: int)
    requires
        all_digits(digits),
        0 <= k <= digits.len(),
    ensures
        decimal_value(digits.take(k)) <= decimal_value(digits),
    decreases digits.len() - k,
{
    if k == digits.len() {
        assert(digits.take(k) =~= digits);
    } else {
        lemma_decimal_value_grows(digits, k + 1);
        assert(digits.take(k + 1).drop_last() =~= digits.take(k));
    }
}

/// Reads a number as the standard library reads a `u32`.
pub fn parse_u32(bytes: &[u8]) -> (parsed: Result<u32, NumberError>)
    ensures
        parsed == spec_parse_u32(bytes@),
{
    let len: usize = bytes.len();
    if len == 0 {
        return Err(NumberError::Empty);
    }
    let start: usize = if bytes[0] == '+' as u8 {
        1
    } else {
        0
    };
    if start == len {
        return Err(NumberError::InvalidDigit);
    }
    let ghost digits = if bytes@[0] == '+' as u8 {
        bytes@.skip(1)
    } else {
        bytes@
    };
    proof {
        lemma_leading_digits(digits);
        assert(decimal_value(digits.take(0)) == 0);
    }
    let mut value: u32 = 0;
    let mut i: usize = start;
    while i < len
        invariant
            start <= i <= len == bytes@.len(),
            start < len,
            digits == if bytes@[0] == '+' as u8 {
                bytes@.skip(1)
            } else {
                bytes@
            },
            digits.len() == len - start,
            forall|j: int| 0 <= j < digits.len() ==> digits[j] == bytes@[start + j],
            i - start <= leading_digits(digits),
            value == decimal_value(digits.take(i - start)),
        decreases len - i,
    {
        let byte: u8 = bytes[i];
        let ghost seen = digits.take(i - start);
        let ghost more = digits.take(i - start + 1);
        proof {
            assert(more.drop_last() =~= seen);
            assert(more.last() == byte);
            lemma_leading_digits(digits);
        }
        if byte < '0' as u8 || byte > '9' as u8 {
            proof {
                let lead = leading_digits(digits) as int;
                if i - start < lead {
                    assert(digits.take(lead)[i - start] == byte);
                }
                assert(lead == i - start);
            }
            return Err(NumberError::InvalidDigit);
        }
        proof {
            let lead = leading_digits(digits) as int;
            assert(i - start < lead);
            lemma_decimal_value_grows(digits.take(lead), i - start + 1);
            assert(digits.take(lead).take(i - start + 1) =~= more);
        }
        let d: u32 = (byte - '0' as u8) as u32;
        if value > (u32::MAX - d) / 10 {
            assert(decimal_value(more) > u32::MAX);
            return Err(NumberError::Overflow);
        }
        value = value * 10 + d;
        i += 1;
    }
    proof {
        assert(digits.take(i - start) =~= digits);
        let lead = leading_digits(digits) as int;
        assert(digits.take(lead) =~= digits);
    }
    Ok(value)
}

/// Reading the decimal digits of a number that fits in 32 bits gives the
/// number back.
pub proof fn lemma_parse_decimal(n: u32)
    ensures
        spec_parse_u32(decimal(n as nat)) == Ok::<u32, NumberError>(n),
{
    lemma_decimal(n as nat);
    lemma_leading_digits(decimal(n as nat));
    let digits = decimal(n as nat);
    assert(digits.take(digits.len() as int) =~= digits);
}

} // verus!
