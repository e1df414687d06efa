//! Bytes as hexadecimal text, and back.

use crate::text::{push_char, trim, trimmed};
use vstd::prelude::*;
use vstd::utf8::encode_utf8;

verus! {

/// The lower-case hexadecimal digit for a value below sixteen.
pub open spec fn hex_digit(value: u8) -> char {
    if value < 10 {
        ((48 + value) as u8) as char
    } else {
        ((87 + value) as u8) as char
    }
}

/// Two lower-case hexadecimal digits for each byte, with nothing in between.
pub open spec fn hex_string(data: Seq<u8>) -> Seq<char> {
    Seq::new(
        2 * data.len(),
        |i: int|
            hex_digit(
                if i % 2 == 0 {
                    data[i / 2] / 16
                } else {
                    data[i / 2] % 16
                },
            ),
    )
}

/// Two lower-case hexadecimal digits for each byte, with one space between
/// neighbouring bytes.
pub open spec fn spaced_hex(data: Seq<u8>) -> Seq<char> {
    Seq::new(
        if data.len() == 0 {
            0
        } else {
            (3 * data.len() - 1) as nat
        },
        |i: int|
            if i % 3 == 0 {
                hex_digit(data[i / 3] / 16)
            } else if i % 3 == 1 {
                hex_digit(data[i / 3] % 16)
            } else {
                ' '
            },
    )
}

/// A byte as a character where it is printable ASCII, a full stop where it
/// is not.
pub open spec fn printable(byte: u8) -> char {
    if 32 <= byte < 127 {
        byte as char
    } else {
        '.'
    }
}

/// Each byte shown by [`printable`].
pub open spec fn ascii_string(data: Seq<u8>) -> Seq<char> {
    Seq::new(data.len(), |i: int| printable(data[i]))
}

/// Whether a byte is the ASCII code of a hexadecimal digit, in either case.
pub open spec fn is_hex_digit(byte: u8) -> bool {
    (48 <= byte <= 57) || (65 <= byte <= 70) || (97 <= byte <= 102)
}

/// The value of a hexadecimal digit given by its ASCII code.
pub open spec fn hex_digit_value(byte: u8) -> u8 {
    if byte <= 57 {
        (byte - 48) as u8
    } else if byte <= 70 {
        (byte - 55) as u8
    } else {
        (byte - 87) as u8
    }
}

/// The byte that two characters spell: two hexadecimal digits, or a plus
/// sign followed by one digit.
pub open spec fn hex_pair(high: u8, low: u8) -> Option<u8> {
    if is_hex_digit(low) && is_hex_digit(high) {
        Some((16 * hex_digit_value(high) + hex_digit_value(low)) as u8)
    } else if is_hex_digit(low) && high == 43 {
        Some(hex_digit_value(low))
    } else {
        None
    }
}

/// The byte spelled by the `i`-th pair of characters of `text`.
pub open spec fn pair_at(text: Seq<u8>, i: int) -> Option<u8> {
    hex_pair(text[2 * i], text[2 * i + 1])
}

/// Whether `text` is a run of pairs that each spell a byte.
pub open spec fn hex_pairs_valid(text: Seq<u8>) -> bool {
    &&& text.len() % 2 == 0
    &&& forall|i: int| 0 <= i < text.len() / 2 ==> (#[trigger] pair_at(text, i)).is_some()
}

/// The bytes that the pairs of `text` spell, in order.
pub open spec fn hex_pairs_value(text: Seq<u8>) -> Seq<u8> {
    Seq::new(text.len() / 2, |i: int| pair_at(text, i).unwrap())
}

/// Calls `hex::encode`, which writes each byte as two lower-case hexadecimal
/// digits, high nibble first, in the order of the bytes.
#[verifier::external_body]
pub(crate) fn hex_encode(data: &[u8]) -> (text: String)
    ensures
        text@ == hex_string(data@),
{
    hex::encode(data)
}

/// The lower-case hexadecimal digit for a value below sixteen.
fn hex_digit_of(value: u8) -> (digit: char)
    requires
        value < 16,
    ensures
        digit == hex_digit(value),
{
    if value < 10 {
        (48 + value) as char
    } else {
        (87 + value) as char
    }
}

/// Shows bytes as pairs of hexadecimal digits separated by single spaces,
/// as in `de ad be ef`.
pub fn hex_to_display(bytes: &[u8]) -> (text: String)
    ensures
        text@ == spaced_hex(bytes@),
{
    let mut text = String::new();
    let mut i: usize = 0;
    while i < bytes.len()
        invariant
            i <= bytes@.len(),
            text@ =~= spaced_hex(bytes@.take(i as int)),
        decreases bytes@.len() - i,
    {
        if i > 0 {
            push_char(&mut text, ' ');
        }
        push_char(&mut text, hex_digit_of(bytes[i] / 16));
        push_char(&mut text, hex_digit_of(bytes[i] % 16));
        i += 1;
        assert(text@ =~= spaced_hex(bytes@.take(i as int)));
    }
    assert(bytes@.take(i as int) =~= bytes@);
    text
}

/// Shows bytes as text: printable ASCII as it is, every other byte as a
/// full stop.
pub fn bytes_to_ascii(bytes: &[u8]) -> (text: String)
    ensures
        text@ == ascii_string(bytes@),
{
    let mut text = String::new();
    let mut i: usize = 0;
    while i < bytes.len()
        invariant
            i <= bytes@.len(),
            text@ =~= ascii_string(bytes@.take(i as int)),
        decreases bytes@.len() - i,
    {
        let byte = bytes[i];
        if byte >= 32 && byte < 127 {
            push_char(&mut text, byte as char);
        } else {
            push_char(&mut text, '.');
        }
        i += 1;
    }
    assert(bytes@.take(i as int) =~= bytes@);
    text
}

/// The value of one hexadecimal digit, if the byte is one.
fn digit_value(byte: u8) -> (value: Option<u8>)
    ensures
        value.is_some() == is_hex_digit(byte),
        value.is_some() ==> value.unwrap() == hex_digit_value(byte),
{
    if 48 <= byte && byte <= 57 {
        Some(byte - 48)
    } else if 65 <= byte && byte <= 70 {
        Some(byte - 55)
    } else if 97 <= byte && byte <= 102 {
        Some(byte - 87)
    } else {
        None
    }
}

/// Reads pairs of hexadecimal digits, given as ASCII codes, into bytes.
/// The text must consist of whole pairs; in a pair, a plus sign may stand in
/// place of the first digit. Anything else is refused.
pub fn parse_hex_pairs(text: &[u8]) -> (result: Result<Vec<u8>, ()>)
    ensures
        match result {
            Ok(bytes) => hex_pairs_valid(text@) && bytes@ == hex_pairs_value(text@),
            Err(_) => !hex_pairs_valid(text@),
        },
{
    if text.len() % 2 != 0 {
        return Err(());
    }
    let count: usize = text.len() / 2;
    let mut bytes: Vec<u8> = Vec::new();
    let mut i: usize = 0;
    while i < count
        invariant
            i <= count,
            2 * count == text@.len() <= usize::MAX,
            bytes@.len() == i,
            forall|j: int| 0 <= j < i ==> (#[trigger] pair_at(text@, j)) == Some(bytes@[j]),
        decreases count - i,
    {
        let high = text[2 * i];
        let low = text[2 * i + 1];
        let byte = match (digit_value(high), digit_value(low)) {
            (Some(h), Some(l)) => 16 * h + l,
            (None, Some(l)) if high == 43 => l,
            _ => {
                assert(pair_at(text@, i as int).is_none());
                return Err(());
            },
        };
        assert(pair_at(text@, i as int) == Some(byte));
        bytes.push(byte);
        i += 1;
    }
    assert(bytes@ =~= hex_pairs_value(text@));
    Ok(bytes)
}

/// Reads a string of hexadecimal digit pairs into bytes, after taking off
/// the white space around it.
pub fn hex_to_bytes(hex_str: &str) -> (result: Result<Vec<u8>, ()>)
    ensures
        match result {
            Ok(bytes) => {
                &&& hex_pairs_valid(encode_utf8(trimmed(hex_str@)))
                &&& bytes@ == hex_pairs_value(encode_utf8(trimmed(hex_str@)))
            },
            Err(_) => !hex_pairs_valid(encode_utf8(trimmed(hex_str@))),
        },
{
    parse_hex_pairs(trim(hex_str).as_bytes())
}

} // verus!
