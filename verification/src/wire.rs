//! Wire form of a public value: its decimal ASCII text, unframed.
//!
//! A sender writes the digits of the value and nothing else.  A receiver
//! takes the bytes one read of at most [`FRAME_SIZE`] bytes delivered and
//! reads them as an unsigned decimal number.

use vstd::prelude::*;
use vstd::utf8::{pop_first_scalar, valid_first_scalar, valid_utf8};

verus! {

/// Size of the buffer a receiver offers to its single read, in bytes.
pub const FRAME_SIZE: usize = 8;

/// Failures of decoding a received payload.
#[derive(Clone, Copy, Debug, PartialEq, Eq, Structural)]
pub enum ProtocolError {
    /// The payload is not the decimal text of an unsigned 64-bit number.
    Malformed,
}

/// ASCII code of `'0'`.
pub const ASCII_ZERO: u8 = 0x30;

/// ASCII code of `'+'`.
pub const ASCII_PLUS: u8 = 0x2b;

/// Whether `byte` is one of the ASCII digits `'0'` to `'9'`.
pub open spec fn is_digit(byte: u8) -> bool {
    ASCII_ZERO <= byte <= ASCII_ZERO + 9
}

/// The number a digit byte stands for; zero for any other byte.
pub open spec fn digit_value(byte: u8) -> nat {
    if is_digit(byte) {
        (byte - ASCII_ZERO) as nat
    } else {
        0
    }
}

/// Whether every byte of `text` is an ASCII digit.
pub open spec fn all_digits(text: Seq<u8>) -> bool {
    forall|i: int| 0 <= i < text.len() ==> is_digit(#[trigger] text[i])
}

/// The number that a run of digits denotes in base ten, most significant
/// digit first; leading zeros do not count.
pub open spec fn digits_value(text: Seq<u8>) -> nat
    decreases text.len(),
{
    if text.len() == 0 {
        0
    } else {
        10 * digits_value(text.drop_last()) + digit_value(text.last())
    }
}

/// `text` without its leading plus sign, if it has one.
pub open spec fn unsigned_part(text: Seq<u8>) -> Seq<u8> {
    if text.len() > 0 && text[0] == ASCII_PLUS {
        text.skip(1)
    } else {
        text
    }
}

/// The value a payload denotes, if it denotes one.
///
/// A payload is well formed when it is an optional `'+'` followed by one or
/// more ASCII digits whose value fits in 64 bits.  Such a payload is always
/// valid UTF-8, and no payload with a byte outside ASCII is well formed.
pub open spec fn parse_decimal(text: Seq<u8>) -> Option<u64> {
    let digits = unsigned_part(text);
    if digits.len() > 0 && all_digits(digits) && digits_value(digits) <= u64::MAX {
        Some(digits_value(digits) as u64)
    } else {
        None
    }
}

/// The byte for a single decimal digit `d < 10`.
pub open spec fn digit_byte(d: nat) -> u8 {
    (ASCII_ZERO + d) as u8
}

/// The decimal text of `n`: no sign, no leading zeros, `"0"` for zero.
pub open spec fn decimal_text(n: nat) -> Seq<u8>
    decreases n,
{
    if n < 10 {
        seq![digit_byte(n)]
    } else {
        decimal_text(n / 10).push(digit_byte(n % 10))
    }
}

/// Extending a run of digits by one byte multiplies its value by ten and
/// adds the new digit.
proof fn lemma_digits_value_step(text: Seq<u8>, k: int)
    requires
        0 <= k < text.len(),
    ensures
        digits_value(text.take(k + 1)) == 10 * digits_value(text.take(k)) + digit_value(text[k]),
{
    assert(text.take(k + 1).drop_last() =~= text.take(k));
}

/// A prefix of a run of digits denotes no more than the whole run.
proof fn lemma_digits_value_prefix(text: Seq<u8>, k: int)
    requires
        0 <= k <= text.len(),
    ensures
        digits_value(text.take(k)) <= digits_value(text),
    decreases text.len(),
{
    if k == text.len() {
        assert(text.take(k) =~= text);
    } else {
        lemma_digits_value_prefix(text.drop_last(), k);
        assert(text.drop_last().take(k) =~= text.take(k));
    }
}

/// Reads a received payload as a peer's public value.
///
/// Succeeds exactly on the well-formed payloads of [`parse_decimal`] and
/// returns the value they denote; every other payload, the empty one
/// included, is [`ProtocolError::Malformed`].
pub fn decode_public_value(payload: &[u8]) -> (r: Result<u64, ProtocolError>)
    ensures
        r == match parse_decimal(payload@) {
            Some(v) => Ok::<u64, ProtocolError>(v),
            None => Err::<u64, ProtocolError>(ProtocolError::Malformed),
        },
{
    let n: usize = payload.len();
    let start: usize = if n > 0 && payload[0] == ASCII_PLUS {
        1
    } else {
        0
    };
    let ghost digits = unsigned_part(payload@);
    assert(digits =~= payload@.skip(start as int));
    if start == n {
        return Err(ProtocolError::Malformed);
    }
    let mut value: u64 = 0;
    let mut i: usize = start;
    assert(digits.take(0) =~= Seq::<u8>::empty());
    while i < n
        invariant
            start <= i <= n,
            n == payload@.len(),
            digits == unsigned_part(payload@),
            digits == payload@.skip(start as int),
            all_digits(digits.take(i - start)),
            value == digits_value(digits.take(i - start)),
        decreases n - i,
    {
        let byte: u8 = payload[i];
        let ghost k: int = i - start;
        proof {
            lemma_digits_value_step(digits, k);
            lemma_digits_value_prefix(digits, k + 1);
        }
        assert(byte == digits[k]);
        if byte < ASCII_ZERO || byte > ASCII_ZERO + 9 {
            return Err(ProtocolError::Malformed);
        }
        let d: u64 = (byte - ASCII_ZERO) as u64;
        if value > (u64::MAX - d) / 10 {
            return Err(ProtocolError::Malformed);
        }
        value = value * 10 + d;
        i = i + 1;
        assert forall|j: int| 0 <= j < k + 1 implies is_digit(#[trigger] digits.take(k + 1)[j]) by {
            if j < k {
                assert(digits.take(k)[j] == digits.take(k + 1)[j]);
            }
        }
    }
    assert(digits.take(i - start) =~= digits);
    Ok(value)
}

/// Writes a public value as the payload its peer will read: the decimal
/// ASCII text of `value`, with no sign, padding, delimiter or length prefix.
pub fn encode_public_value(value: u64) -> (text: Vec<u8>)
    ensures
        text@ == decimal_text(value as nat),
{
    let mut text: Vec<u8> = Vec::new();
    let mut rest: u64 = value;
    while rest >= 10
        invariant
            decimal_text(value as nat) == decimal_text(rest as nat) + text@,
        decreases rest,
    {
        let digit: u8 = ASCII_ZERO + (rest % 10) as u8;
        assert(digit == digit_byte((rest % 10) as nat));
        assert(decimal_text(rest as nat) + text@ =~= decimal_text((rest / 10) as nat) + text@.insert(
            0,
            digit,
        ));
        text.insert(0, digit);
        rest = rest / 10;
    }
    let digit: u8 = ASCII_ZERO + rest as u8;
    assert(decimal_text(rest as nat) + text@ =~= text@.insert(0, digit));
    text.insert(0, digit);
    text
}

/// The decimal text of a number is a non-empty run of digits that denotes
/// that number.
pub proof fn lemma_decimal_text_denotes(n: nat)
    ensures
        decimal_text(n).len() > 0,
        all_digits(decimal_text(n)),
        digits_value(decimal_text(n)) == n,
    decreases n,
{
    if n < 10 {
        let text = decimal_text(n);
        assert(text.drop_last() =~= Seq::<u8>::empty());
        assert(digits_value(text.drop_last()) == 0);
    } else {
        let head = decimal_text(n / 10);
        let text = head.push(digit_byte(n % 10));
        lemma_decimal_text_denotes(n / 10);
        assert(text.drop_last() =~= head);
        assert(text.last() == digit_byte(n % 10));
    }
}

/// Encoding then decoding gives the value back: the text written for any
/// 64-bit value is well formed and denotes that value.
pub proof fn lemma_decode_inverts_encode(value: u64)
    ensures
        parse_decimal(decimal_text(value as nat)) == Some(value),
{
    lemma_decimal_text_denotes(value as nat);
    let text = decimal_text(value as nat);
    assert(is_digit(text[0]));
}

/// Bytes that are all ASCII form valid UTF-8, one byte to a character.
proof fn lemma_ascii_is_utf8(bytes: Seq<u8>)
    requires
        forall|i: int| 0 <= i < bytes.len() ==> #[trigger] bytes[i] <= 0x7f,
    ensures
        valid_utf8(bytes),
    decreases bytes.len(),
{
    if bytes.len() != 0 {
        let first = bytes[0];
        assert(first <= 0x7f);
        assert((first & 0x7f) as u32 <= 0x7f) by (bit_vector);
        assert(valid_first_scalar(bytes));
        let rest = pop_first_scalar(bytes);
        assert(rest =~= bytes.skip(1));
        assert forall|i: int| 0 <= i < rest.len() implies #[trigger] rest[i] <= 0x7f by {
            assert(rest[i] == bytes[i + 1]);
        }
        lemma_ascii_is_utf8(rest);
    }
}

/// A well-formed payload is ASCII throughout and therefore valid UTF-8.
/// Read the other way: bytes that are not valid text are never decoded.
pub proof fn lemma_well_formed_is_text(text: Seq<u8>)
    requires
        parse_decimal(text) is Some,
    ensures
        forall|i: int| 0 <= i < text.len() ==> #[trigger] text[i] <= 0x7f,
        valid_utf8(text),
{
    let digits = unsigned_part(text);
    assert forall|i: int| 0 <= i < text.len() implies #[trigger] text[i] <= 0x7f by {
        if digits.len() == text.len() {
            assert(is_digit(digits[i]));
        } else if i > 0 {
            assert(is_digit(digits[i - 1]));
        }
    }
    lemma_ascii_is_utf8(text);
}

/// The text of a value fills at most one frame exactly when the value is
/// below ten to the power [`FRAME_SIZE`].
pub proof fn lemma_text_fits_frame(n: nat)
    ensures
        decimal_text(n).len() <= FRAME_SIZE <==> n < 100_000_000,
{
    reveal_with_fuel(decimal_text, 10);
}

} // verus!
