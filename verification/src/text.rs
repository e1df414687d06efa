//! Text at the edges of the library: trimming, decoding and building strings.

use vstd::prelude::*;
use vstd::utf8::{decode_utf8, encode_utf8, valid_utf8};

verus! {

/// What is left of a string once the white space at both ends is taken off.
pub uninterp spec fn trimmed(text: Seq<char>) -> Seq<char>;

/// Calls `str::trim`, which returns the slice of the string without its
/// leading and trailing white space. The result depends on the characters
/// alone.
#[verifier::external_body]
pub(crate) fn trim(text: &str) -> (inner: &str)
    ensures
        inner@ == trimmed(text@),
{
    text.trim()
}

/// Whether a line holds nothing but white space.
pub open spec fn blank(line: Seq<char>) -> bool {
    trimmed(line).len() == 0
}

/// Tells whether a line holds nothing but white space.
pub fn is_blank(line: &str) -> (result: bool)
    ensures
        result == blank(line@),
{
    trim(line).is_empty()
}

/// Calls `String::push`, which appends one character.
#[verifier::external_body]
pub(crate) fn push_char(text: &mut String, c: char)
    ensures
        final(text)@ == old(text)@.push(c),
{
    text.push(c)
}

/// The text that `bytes` hold, where they are valid UTF-8.
#[verifier::opaque]
pub open spec fn decoded_text(bytes: Seq<u8>) -> Option<Seq<char>> {
    if valid_utf8(bytes) {
        Some(decode_utf8(bytes))
    } else {
        None
    }
}

/// Text that is written as UTF-8 is read back as it was.
pub proof fn lemma_decoded_text_of_encoding(text: Seq<char>)
    ensures
        decoded_text(encode_utf8(text)) == Some(text),
{
    reveal(decoded_text);
    vstd::utf8::encode_utf8_valid_utf8(text);
    vstd::utf8::encode_utf8_decode_utf8(text);
}

/// Calls `String::from_utf8`, which accepts exactly the byte strings that
/// are valid UTF-8 and then hands back the string that those bytes encode.
#[verifier::external_body]
pub(crate) fn string_from_utf8(bytes: Vec<u8>) -> (text: Option<String>)
    ensures
        match text {
            Some(string) => decoded_text(bytes@) == Some(string@),
            None => decoded_text(bytes@) is None,
        },
{
    String::from_utf8(bytes).ok()
}

} // verus!
