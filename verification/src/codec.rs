//! The standard base64 encoding of RFC 4648, with padding.
//!
//! [`encoding`] states what the encoding of a byte sequence is, and
//! [`decoding`] is its inverse. [`encode`] and [`decode`] have the `base64`
//! crate compute them; that the two are inverse to each other is proved here.

pub mod reading;

use crate::alphabet::{symbol, PAD};
use crate::codec::reading::{lemma_decoding_is_parsed, lemma_parsed_of_encoding};
use crate::text::text_of;
use crate::trusted::{from_utf8, from_utf8_lossy, standard_decode, standard_encode};
use vstd::prelude::*;
use vstd::utf8::{decode_utf8, encode_utf8, valid_utf8};

verus! {

/// Why a text could not be converted.
#[derive(Debug, Clone, Copy, PartialEq, Eq, Structural)]
pub enum CodecError {
    /// The text is not the encoding of any bytes: its length is no multiple
    /// of four, or it holds a character that is no symbol, misplaced padding,
    /// or stray bits in its last symbol.
    InvalidEncoding,
    /// The decoded bytes are not valid UTF-8.
    InvalidUtf8,
}

/// What is shown in place of a result where a text cannot be decoded.
pub const INVALID_INPUT: &'static str = "Invalid Input";

/// The four symbols that stand for three bytes: the twenty-four bits, taken
/// six at a time from the most significant end.
pub open spec fn quad(b0: int, b1: int, b2: int) -> Seq<char>
    recommends
        0 <= b0 < 256,
        0 <= b1 < 256,
        0 <= b2 < 256,
{
    seq![
        symbol(b0 / 4),
        symbol(b0 % 4 * 16 + b1 / 16),
        symbol(b1 % 16 * 4 + b2 / 64),
        symbol(b2 % 64),
    ]
}

/// The encoding of `bytes`: one quad for every three bytes; a last group of
/// one or two bytes is filled up with zero bits, and its quad keeps the two or
/// three symbols that hold bits of the bytes, followed by padding.
pub open spec fn encoding(bytes: Seq<u8>) -> Seq<char>
    decreases bytes.len(),
{
    if bytes.len() == 0 {
        Seq::empty()
    } else if bytes.len() == 1 {
        quad(bytes[0] as int, 0, 0).take(2) + seq![PAD, PAD]
    } else if bytes.len() == 2 {
        quad(bytes[0] as int, bytes[1] as int, 0).take(3) + seq![PAD]
    } else {
        quad(bytes[0] as int, bytes[1] as int, bytes[2] as int) + encoding(bytes.skip(3))
    }
}

/// The text that is the encoding of some byte sequence.
pub open spec fn is_encoding(text: Seq<char>) -> bool {
    exists|bytes: Seq<u8>| encoding(bytes) == text
}

/// The inverse of [`encoding`]: the bytes that `text` is the encoding of, if
/// it is the encoding of any. [`lemma_encoding_injective`] shows that there
/// is at most one such sequence, and [`reading`] how to compute it.
pub open spec fn decoding(text: Seq<char>) -> Option<Seq<u8>> {
    if is_encoding(text) {
        Some(choose|bytes: Seq<u8>| encoding(bytes) == text)
    } else {
        None
    }
}

/// The encoding of a text: that of its UTF-8 bytes.
pub open spec fn encoded_text(text: Seq<char>) -> Seq<char> {
    encoding(encode_utf8(text))
}

/// The text that `text` decodes to: its bytes as text, or
/// `InvalidEncoding` where it is no encoding, or `InvalidUtf8` where its
/// bytes are not valid UTF-8.
pub open spec fn decoded_text(text: Seq<char>) -> Result<Seq<char>, CodecError> {
    match decoding(text) {
        Some(bytes) => if valid_utf8(bytes) {
            Ok(decode_utf8(bytes))
        } else {
            Err(CodecError::InvalidUtf8)
        },
        None => Err(CodecError::InvalidEncoding),
    }
}

/// The text that `text` decodes to when nothing may fail: its bytes as
/// text, with the replacement character in place of what is not valid UTF-8,
/// or `None` where `text` is no encoding.
pub open spec fn lossy_decoded_text(text: Seq<char>) -> Option<Seq<char>> {
    match decoding(text) {
        Some(bytes) => Some(text_of(bytes)),
        None => None,
    }
}

/// Encodes `bytes`.
pub fn encode(bytes: &[u8]) -> (text: String)
    ensures
        text@ == encoding(bytes@),
        text@.len() == (bytes@.len() + 2) / 3 * 4,
{
    proof {
        lemma_encoding_len(bytes@);
    }
    standard_encode(bytes)
}

/// Decodes `text`: the bytes that it is the encoding of, or
/// `InvalidEncoding` where it is the encoding of none.
pub fn decode(text: &str) -> (r: Result<Vec<u8>, CodecError>)
    ensures
        match r {
            Ok(bytes) => decoding(text@) == Some(bytes@),
            Err(e) => e == CodecError::InvalidEncoding && decoding(text@) is None,
        },
{
    match standard_decode(text) {
        Ok(bytes) => Ok(bytes),
        Err(_) => Err(CodecError::InvalidEncoding),
    }
}

/// Encodes the UTF-8 bytes of `text`.
pub fn encode_text(text: &str) -> (r: String)
    ensures
        r@ == encoded_text(text@),
{
    encode(text.as_bytes())
}

/// Decodes `text` to text, and fails where it is no encoding or where its
/// bytes are not valid UTF-8.
pub fn decode_text(text: &str) -> (r: Result<String, CodecError>)
    ensures
        match r {
            Ok(decoded) => decoded_text(text@) == Ok::<Seq<char>, CodecError>(decoded@),
            Err(e) => decoded_text(text@) == Err::<Seq<char>, CodecError>(e),
        },
{
    match decode(text) {
        Ok(bytes) => match from_utf8(bytes) {
            Some(decoded) => Ok(decoded),
            None => Err(CodecError::InvalidUtf8),
        },
        Err(e) => Err(e),
    }
}

/// Decodes `text` to text, with the replacement character in place of
/// what is not valid UTF-8 in its bytes, and gives nothing where `text` is no
/// encoding.
pub fn decode_lossy(text: &str) -> (r: Option<String>)
    ensures
        match r {
            Some(decoded) => lossy_decoded_text(text@) == Some(decoded@),
            None => lossy_decoded_text(text@) is None,
        },
{
    match decode(text) {
        Ok(bytes) => Some(from_utf8_lossy(bytes.as_slice())),
        Err(_) => None,
    }
}

/// Decodes `text` to text and never fails: bytes that are not valid UTF-8
/// are shown with the replacement character, and a text that is no encoding
/// gives [`INVALID_INPUT`].
pub fn decode_lossy_text(text: &str) -> (r: String)
    ensures
        r@ == match lossy_decoded_text(text@) {
            Some(decoded) => decoded,
            None => INVALID_INPUT@,
        },
{
    match decode_lossy(text) {
        Some(decoded) => decoded,
        None => INVALID_INPUT.to_owned(),
    }
}

/// The length of an encoding: four characters for every three bytes, the last
/// group counted in full.
pub proof fn lemma_encoding_len(bytes: Seq<u8>)
    ensures
        encoding(bytes).len() == (bytes.len() + 2) / 3 * 4,
    decreases bytes.len(),
{
    if bytes.len() >= 3 {
        lemma_encoding_len(bytes.skip(3));
    }
}

/// No two byte sequences have the same encoding.
pub proof fn lemma_encoding_injective(a: Seq<u8>, b: Seq<u8>)
    requires
        encoding(a) == encoding(b),
    ensures
        a == b,
{
    lemma_parsed_of_encoding(a);
    lemma_parsed_of_encoding(b);
}

/// Round trip: decoding the encoding of any bytes gives the bytes back.
pub proof fn lemma_decoding_of_encoding(bytes: Seq<u8>)
    ensures
        decoding(encoding(bytes)) == Some(bytes),
{
    lemma_parsed_of_encoding(bytes);
    lemma_decoding_is_parsed(encoding(bytes));
}

/// Whatever decodes is the encoding of what it decodes to.
pub proof fn lemma_encoding_of_decoding(text: Seq<char>)
    requires
        decoding(text) is Some,
    ensures
        encoding(decoding(text).unwrap()) == text,
{
}

/// Round trip: the encoding of any text decodes to that text, strictly and
/// lossily alike.
pub proof fn lemma_round_trip(text: Seq<char>)
    ensures
        decoded_text(encoded_text(text)) == Ok::<Seq<char>, CodecError>(text),
        lossy_decoded_text(encoded_text(text)) == Some(text),
{
    broadcast use vstd::utf8::encode_utf8_valid_utf8, vstd::utf8::encode_utf8_decode_utf8;

    lemma_decoding_of_encoding(encode_utf8(text));
}

} // verus!
