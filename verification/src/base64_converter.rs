//! One tool for both directions, switched by a mode.

use crate::codec::{
    decode_lossy, encode_text, encoded_text, lemma_round_trip, lossy_decoded_text,
};
use crate::{shown, Tool};
use vstd::prelude::*;

verus! {

/// The direction of a conversion.
#[derive(Debug, Copy, Clone, PartialEq, Eq, Structural)]
pub enum ConvertMode {
    Encode,
    Decode,
}

/// Encodes or decodes its input, as its mode says. For an input that is
/// no encoding the decoding mode leaves the tool without output.
pub struct Base64Converter {
    mode: ConvertMode,
    input: Option<String>,
    output: Option<String>,
}

impl Base64Converter {
    /// No output is held before an input was set.
    #[verifier::type_invariant]
    spec fn well_formed(self) -> bool {
        self.input is None ==> self.output is None
    }

    /// The mode that the tool is in.
    pub closed spec fn mode(&self) -> ConvertMode {
        self.mode
    }

    /// A tool without input and output, in the encoding mode.
    pub fn new() -> (tool: Self)
        ensures
            tool.mode() == ConvertMode::Encode,
            tool.input() is None,
            tool.output() is None,
    {
        Self { mode: ConvertMode::Encode, input: None, output: None }
    }

    /// The mode that the tool is in.
    pub fn get_mode(&self) -> (mode: ConvertMode)
        ensures
            mode == self.mode(),
    {
        self.mode
    }

    /// Puts the tool into `mode`. Input and output stay as they are.
    pub fn set_mode(&mut self, mode: ConvertMode)
        ensures
            final(self).mode() == mode,
            final(self).input() == old(self).input(),
            final(self).output() == old(self).output(),
    {
        proof {
            use_type_invariant(&*self);
        }
        self.mode = mode;
    }
}

impl Tool for Base64Converter {
    closed spec fn input(&self) -> Option<Seq<char>> {
        match self.input {
            Some(text) => Some(text@),
            None => None,
        }
    }

    closed spec fn output(&self) -> Option<Seq<char>> {
        match self.output {
            Some(text) => Some(text@),
            None => None,
        }
    }

    open spec fn converted(&self, text: Seq<char>) -> Option<Seq<char>> {
        match self.mode() {
            ConvertMode::Encode => Some(encoded_text(text)),
            ConvertMode::Decode => lossy_decoded_text(text),
        }
    }

    fn set_input(&mut self, input: &str)
        ensures
            final(self).mode() == old(self).mode(),
    {
        self.input = Some(input.to_owned());
    }

    fn get_input(&self) -> (input: &str) {
        match &self.input {
            Some(text) => text.as_str(),
            None => {
                proof {
                    reveal_strlit("");
                }
                ""
            },
        }
    }

    fn get_output(&self) -> (output: String) {
        match &self.output {
            Some(text) => text.clone(),
            None => String::new(),
        }
    }

    fn update_output(&mut self) -> (output: String)
        ensures
            final(self).mode() == old(self).mode(),
    {
        proof {
            use_type_invariant(&*self);
        }
        if let Some(text) = &self.input {
            match self.mode {
                ConvertMode::Encode => {
                    let encoded = encode_text(text.as_str());
                    self.output = Some(encoded);
                },
                ConvertMode::Decode => {
                    let decoded = decode_lossy(text.as_str());
                    self.output = decoded;
                },
            }
        }
        self.get_output()
    }
}

/// Round trip: what a converter that decodes makes of what a converter that
/// encodes makes of a text is that text.
pub proof fn lemma_decode_inverts_encode(
    encoder: &Base64Converter,
    decoder: &Base64Converter,
    text: Seq<char>,
)
    requires
        encoder.mode() == ConvertMode::Encode,
        decoder.mode() == ConvertMode::Decode,
    ensures
        decoder.converted(shown(encoder.converted(text))) == Some(text),
{
    lemma_round_trip(text);
}

} // verus!
