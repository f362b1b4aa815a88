//! What the kit takes on trust from the `base64` crate, from the hasher of
//! `ahash` and from `std` where `vstd` gives no specification. Verus believes
//! each contract in this file and proves none of them.

use crate::alphabet::symbols;
use crate::codec::{decoding, encoding};
use ::base64::Engine;
use std::collections::HashSet;
use vstd::prelude::*;
use vstd::utf8::{decode_utf8, valid_utf8};

verus! {

/// The error of `base64`'s decoder, carried through unread.
#[verifier::external_type_specification]
#[verifier::external_body]
pub struct ExDecodeError(base64::DecodeError);

/// The hasher of `ahash`, which the set of valid characters is built with.
#[verifier::external_type_specification]
#[verifier::external_body]
pub struct ExRandomState(egui::ahash::RandomState);

/// Calls `Engine::encode` of `base64`'s `STANDARD` engine. Believed of it:
/// the result is the RFC 4648 encoding of the bytes with padding, as
/// [`encoding`] states it. The call fails only where the length of the
/// encoding overflows `usize`, which no slice is long enough for.
#[verifier::external_body]
pub(crate) fn standard_encode(bytes: &[u8]) -> (text: String)
    ensures
        text@ == encoding(bytes@),
{
    base64::engine::general_purpose::STANDARD.encode(bytes)
}

/// Calls `Engine::decode` of `base64`'s `STANDARD` engine. Believed of it:
/// it accepts exactly the texts that are the encoding of some bytes, the
/// padding in full and no stray bits in the last symbol, and returns those
/// bytes.
#[verifier::external_body]
pub(crate) fn standard_decode(text: &str) -> (r: Result<Vec<u8>, base64::DecodeError>)
    ensures
        match r {
            Ok(bytes) => decoding(text@) == Some(bytes@),
            Err(_) => decoding(text@) is None,
        },
{
    base64::engine::general_purpose::STANDARD.decode(text)
}

/// Calls `Alphabet::as_str` on `base64`'s `STANDARD` alphabet. Believed of
/// it: the text holds the sixty-four symbols in the order of their values.
#[verifier::external_body]
pub(crate) fn standard_symbols() -> (text: String)
    ensures
        text@ == symbols(),
{
    base64::alphabet::STANDARD.as_str().to_owned()
}

/// Calls `HashSet::default` with the hasher of `ahash`. Believed of it: the
/// set is empty.
#[verifier::external_body]
pub(crate) fn new_char_set() -> (set: HashSet<char, egui::ahash::RandomState>)
    ensures
        set@ == Set::<char>::empty(),
{
    HashSet::default()
}

/// Calls `HashSet::insert` on a set built with the hasher of `ahash`.
/// Believed of it: the set afterwards holds `c` and what it held before.
#[verifier::external_body]
pub(crate) fn insert_char(set: &mut HashSet<char, egui::ahash::RandomState>, c: char)
    ensures
        final(set)@ == old(set)@.insert(c),
{
    set.insert(c);
}

/// Calls `HashSet::contains` on a set built with the hasher of `ahash`.
/// Believed of it: it tells whether the set holds `c`.
#[verifier::external_body]
pub(crate) fn has_char(set: &HashSet<char, egui::ahash::RandomState>, c: char) -> (r: bool)
    ensures
        r == set@.contains(c),
{
    set.contains(&c)
}

/// Believed of `String::push`: it appends one character, so the text
/// afterwards is the text before, followed by `c`.
pub assume_specification[ String::push ](text: &mut String, c: char)
    ensures
        final(text)@ == old(text)@.push(c),
;

/// What `char::is_whitespace` returns for `c`: whether `c` has the
/// Unicode property `White_Space`.
pub uninterp spec fn has_white_space_property(c: char) -> bool;

/// The ASCII characters with the property `White_Space`: the space, and
/// the five from the tab to the carriage return.
pub open spec fn ascii_white_space(c: char) -> bool {
    c == ' ' || '\t' <= c <= '\r'
}

/// Believed of `char::is_whitespace`: its result depends on the character
/// alone, and among the ASCII characters it holds of the space and of the
/// five from the tab to the carriage return.
pub assume_specification[ char::is_whitespace ](c: char) -> (r: bool)
    ensures
        r == has_white_space_property(c),
        c <= '\u{7f}' ==> r == ascii_white_space(c),
;

/// What `String::from_utf8_lossy` makes of `bytes`: their text, with the
/// replacement character wherever they are not valid UTF-8.
pub uninterp spec fn lossy_text(bytes: Seq<u8>) -> Seq<char>;

/// Calls `String::from_utf8_lossy`. Believed of it: its result depends on
/// the bytes alone, and is the text that they encode where they are valid
/// UTF-8.
#[verifier::external_body]
pub(crate) fn from_utf8_lossy(bytes: &[u8]) -> (text: String)
    ensures
        text@ == lossy_text(bytes@),
        valid_utf8(bytes@) ==> text@ == decode_utf8(bytes@),
{
    String::from_utf8_lossy(bytes).into_owned()
}

/// Calls `String::from_utf8`. Believed of it: it returns the text that
/// `bytes` encode where they are valid UTF-8, and fails where they are not.
#[verifier::external_body]
pub(crate) fn from_utf8(bytes: Vec<u8>) -> (text: Option<String>)
    ensures
        match text {
            Some(text) => valid_utf8(bytes@) && text@ == decode_utf8(bytes@),
            None => !valid_utf8(bytes@),
        },
{
    String::from_utf8(bytes).ok()
}

} // verus!
