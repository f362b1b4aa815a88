//! The tool that decodes.

use crate::codec::{decode_lossy_text, lossy_decoded_text, INVALID_INPUT};
use crate::Tool;
use vstd::prelude::*;

verus! {

/// Turns its input, a base64 encoding, into the text that the decoded bytes
/// are shown as. The tool never fails: for an input that is no encoding its
/// output is [`INVALID_INPUT`].
#[derive(Debug)]
pub struct Base64Decoder {
    input: Option<String>,
    output: Option<String>,
}

impl Base64Decoder {
    /// No output is held before an input was set.
    #[verifier::type_invariant]
    spec fn well_formed(self) -> bool {
        self.input is None ==> self.output is None
    }

    /// A tool without input and output.
    pub fn new() -> (tool: Self)
        ensures
            tool.input() is None,
            tool.output() is None,
    {
        Self { input: None, output: None }
    }
}

impl Default for Base64Decoder {
    fn default() -> (tool: Self)
        ensures
            tool.input() is None,
            tool.output() is None,
    {
        Self::new()
    }
}

impl Clone for Base64Decoder {
    fn clone(&self) -> (tool: Self)
        ensures
            tool.input() == self.input(),
            tool.output() == self.output(),
    {
        proof {
            use_type_invariant(self);
        }
        let input = match &self.input {
            Some(text) => Some(text.clone()),
            None => None,
        };
        let output = match &self.output {
            Some(text) => Some(text.clone()),
            None => None,
        };
        Self { input, output }
    }
}

impl Tool for Base64Decoder {
    closed spec fn input(&self) -> Option<Seq<char>> {
        match self.input {
            Some(text) => Some(text@),
            None => None,
        }
    }

    closed spec fn output(&self) -> Option<Seq<char>> {
        match self.output {
            Some(text) => Some(text@),
            None => None,
        }
    }

    open spec fn converted(&self, text: Seq<char>) -> Option<Seq<char>> {
        match lossy_decoded_text(text) {
            Some(decoded) => Some(decoded),
            None => Some(INVALID_INPUT@),
        }
    }

    fn set_input(&mut self, input: &str) {
        self.input = Some(input.to_owned());
    }

    fn get_input(&self) -> (input: &str) {
        match &self.input {
            Some(text) => text.as_str(),
            None => {
                proof {
                    reveal_strlit("");
                }
                ""
            },
        }
    }

    fn get_output(&self) -> (output: String) {
        match &self.output {
            Some(text) => text.clone(),
            None => String::new(),
        }
    }

    fn update_output(&mut self) -> (output: String) {
        proof {
            use_type_invariant(&*self);
        }
        if let Some(text) = &self.input {
            let decoded = decode_lossy_text(text.as_str());
            self.output = Some(decoded);
        }
        self.get_output()
    }
}

} // verus!
