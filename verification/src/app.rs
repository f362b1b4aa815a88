//! The interactive converter: what a session holds, and what one frame of
//! the user interface does to it.

use crate::alphabet::{alphabet, keep, kept, valid_chars, CharSet};
use crate::base64_converter::ConvertMode;
use crate::codec::reading::lemma_encoding_chars;
use crate::codec::{
    decode_lossy, encode_text, encoded_text, encoding, lemma_round_trip, lossy_decoded_text,
    CodecError, INVALID_INPUT,
};
use crate::text::{lemma_trim_end, lemma_trim_start, trim, trimmed};
use vstd::prelude::*;
use vstd::utf8::encode_utf8;

verus! {

/// What `input` converts to in the direction `selected`. White space around
/// the input does not count. Encoding takes what is left as it is; decoding
/// first drops every character that is not in `valid`, and fails where the
/// rest is no encoding.
pub open spec fn conversion(input: Seq<char>, selected: ConvertMode, valid: Set<char>) -> Result<
    Seq<char>,
    CodecError,
> {
    match selected {
        ConvertMode::Encode => Ok(encoded_text(trimmed(input))),
        ConvertMode::Decode => match lossy_decoded_text(kept(trimmed(input), valid)) {
            Some(decoded) => Ok(decoded),
            None => Err(CodecError::InvalidEncoding),
        },
    }
}

/// The output that belongs to `input` in the direction `selected`: what the
/// input converts to, or [`INVALID_INPUT`] where it does not convert.
pub open spec fn recomputed(input: Seq<char>, selected: ConvertMode, valid: Set<char>) -> Seq<
    char,
> {
    match conversion(input, selected, valid) {
        Ok(output) => output,
        Err(_) => INVALID_INPUT@,
    }
}

/// Converts `input` in the direction `selected`, and says so where it does
/// not convert.
pub fn try_recompute(input: &str, selected: ConvertMode, valid_chars: &CharSet) -> (r: Result<
    String,
    CodecError,
>)
    ensures
        match r {
            Ok(output) => conversion(input@, selected, valid_chars@) == Ok::<
                Seq<char>,
                CodecError,
            >(output@),
            Err(e) => conversion(input@, selected, valid_chars@) == Err::<Seq<char>, CodecError>(
                e,
            ),
        },
{
    let code = trim(input);
    match selected {
        ConvertMode::Encode => Ok(encode_text(code)),
        ConvertMode::Decode => {
            let code = keep(code, valid_chars);
            match decode_lossy(code.as_str()) {
                Some(decoded) => Ok(decoded),
                None => Err(CodecError::InvalidEncoding),
            }
        },
    }
}

/// Computes the output that belongs to `input` in the direction `selected`.
pub fn recompute(input: &str, selected: ConvertMode, valid_chars: &CharSet) -> (output: String)
    ensures
        output@ == recomputed(input@, selected, valid_chars@),
{
    match try_recompute(input, selected, valid_chars) {
        Ok(output) => output,
        Err(_) => INVALID_INPUT.to_owned(),
    }
}

/// What a session holds: the direction selected, the text to convert and the
/// text last shown as its conversion.
pub struct Base64Encoder {
    pub selected: ConvertMode,
    pub input: String,
    pub output: String,
}

impl Default for Base64Encoder {
    /// The session that a first start shows: a greeting to encode, and no
    /// output yet.
    fn default() -> (session: Self)
        ensures
            session.selected == ConvertMode::Encode,
            session.input@ == "Hello World!"@,
            session.output@ == Seq::<char>::empty(),
    {
        Self {
            selected: ConvertMode::Encode,
            input: "Hello World!".to_owned(),
            output: String::new(),
        }
    }
}

impl Base64Encoder {
    /// The alphabet set that `update` tests characters against.
    pub fn get_valid_chars() -> (valid_chars: CharSet)
        ensures
            valid_chars@ == alphabet(),
    {
        valid_chars()
    }

    /// The session to start with: the one that was saved, or the default
    /// where none was.
    pub fn new(saved: Option<Self>) -> (session: Self)
        ensures
            match saved {
                Some(saved) => session == saved,
                None => {
                    &&& session.selected == ConvertMode::Encode
                    &&& session.input@ == "Hello World!"@
                    &&& session.output@ == Seq::<char>::empty()
                },
            },
    {
        match saved {
            Some(saved) => saved,
            None => Self::default(),
        }
    }

    /// One frame, after the user interface has stored the direction and the
    /// input that the user chose. Where the direction has changed, input and
    /// output change places, so that the last result is what the other
    /// direction starts from. Where the direction or the input has changed,
    /// the output is computed anew from the input; the failure is returned
    /// where the input did not convert and the output is [`INVALID_INPUT`]
    /// in its place.
    pub fn update(
        &mut self,
        conversion_changed: bool,
        input_changed: bool,
        valid_chars: &CharSet,
    ) -> (failure: Option<CodecError>)
        ensures
            final(self).selected == old(self).selected,
            final(self).input@ == if conversion_changed {
                old(self).output@
            } else {
                old(self).input@
            },
            final(self).output@ == if conversion_changed || input_changed {
                recomputed(final(self).input@, old(self).selected, valid_chars@)
            } else {
                old(self).output@
            },
            failure == if conversion_changed || input_changed {
                match conversion(final(self).input@, old(self).selected, valid_chars@) {
                    Ok(_) => None,
                    Err(e) => Some(e),
                }
            } else {
                None
            },
    {
        if conversion_changed {
            std::mem::swap(&mut self.input, &mut self.output);
        }
        if input_changed || conversion_changed {
            match try_recompute(self.input.as_str(), self.selected, valid_chars) {
                Ok(output) => {
                    self.output = output;
                    None
                },
                Err(e) => {
                    self.output = INVALID_INPUT.to_owned();
                    Some(e)
                },
            }
        } else {
            None
        }
    }
}

/// The encoding of a text has no white space at its ends and holds nothing
/// but characters of the alphabet, so trimming and filtering leave it as it
/// is.
pub proof fn lemma_encoding_is_kept(bytes: Seq<u8>, valid: Set<char>)
    requires
        alphabet().subset_of(valid),
    ensures
        trimmed(encoding(bytes)) == encoding(bytes),
        kept(encoding(bytes), valid) == encoding(bytes),
{
    let text = encoding(bytes);
    lemma_encoding_chars(bytes);
    if text.len() > 0 {
        assert(crate::alphabet::is_valid_char(text[0]));
        assert(crate::alphabet::is_valid_char(text[text.len() - 1]));
    }
    lemma_trim_start(text, 0);
    assert(text.skip(0) == text);
    lemma_trim_end(text, text.len() as int);
    assert(text.take(text.len() as int) == text);
    assert forall|i: int| 0 <= i < text.len() implies valid.contains(#[trigger] text[i]) by {
        assert(crate::alphabet::is_valid_char(text[i]));
        assert(alphabet().contains(text[i]));
    }
    lemma_filter_all(text, valid);
}

/// A text whose characters are all in `valid` is kept whole.
pub proof fn lemma_filter_all(text: Seq<char>, valid: Set<char>)
    requires
        forall|i: int| 0 <= i < text.len() ==> valid.contains(#[trigger] text[i]),
    ensures
        kept(text, valid) == text,
    decreases text.len(),
{
    reveal(Seq::filter);
    if text.len() > 0 {
        lemma_filter_all(text.drop_last(), valid);
        assert(text.drop_last().push(text.last()) == text);
    }
}

/// Swap round trip: the output of encoding, taken as the input of decoding,
/// gives the trimmed input of the encoding back, whenever the set of valid
/// characters holds the alphabet.
pub proof fn lemma_swap_round_trip(input: Seq<char>, valid: Set<char>)
    requires
        alphabet().subset_of(valid),
    ensures
        recomputed(recomputed(input, ConvertMode::Encode, valid), ConvertMode::Decode, valid)
            == trimmed(input),
{
    lemma_encoding_is_kept(encode_utf8(trimmed(input)), valid);
    lemma_round_trip(trimmed(input));
}

} // verus!
