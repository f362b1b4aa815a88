//! DevSAK: a small kit of text conversion tools.
//!
//! The kit converts text to and from the standard base64 encoding. What the
//! encoding of a byte sequence is stands in [`codec`] as a function on
//! sequences. The `base64` crate does the encoding and decoding; what is
//! believed of it, and of the few other outside functions, stands in
//! [`trusted`], and the tools are verified against those contracts.

pub mod alphabet;
pub mod app;
pub mod base64;
pub mod base64_converter;
pub mod chain;
pub mod codec;
pub mod text;
pub mod trusted;

use vstd::prelude::*;

verus! {

/// The text that a tool hands out for a text that may be absent.
pub open spec fn shown(text: Option<Seq<char>>) -> Seq<char> {
    match text {
        Some(text) => text,
        None => Seq::empty(),
    }
}

/// A conversion stage: it keeps the input last set and the output last
/// computed, and computes the output only when asked to.
pub trait Tool {
    /// The input, absent until one is set.
    spec fn input(&self) -> Option<Seq<char>>;

    /// The output, absent until one is computed.
    spec fn output(&self) -> Option<Seq<char>>;

    /// The tool's rule: the output that it computes from the input `text`,
    /// absent where it has none to give.
    spec fn converted(&self, text: Seq<char>) -> Option<Seq<char>>;

    /// Stores `input` as the input. The output stays as it is until
    /// `update_output` is called.
    fn set_input(&mut self, input: &str)
        ensures
            final(self).input() == Some(input@),
            final(self).output() == old(self).output(),
            forall|text: Seq<char>| #[trigger] final(self).converted(text) == old(self).converted(text),
    ;

    /// The input, or the empty text if none was set.
    fn get_input(&self) -> (input: &str)
        ensures
            input@ == shown(self.input()),
    ;

    /// The output last computed, or the empty text if none was.
    fn get_output(&self) -> (output: String)
        ensures
            output@ == shown(self.output()),
    ;

    /// Computes the output from the input by the tool's rule, stores it and
    /// returns it. Without an input nothing changes, and the empty text is
    /// returned.
    fn update_output(&mut self) -> (output: String)
        ensures
            final(self).input() == old(self).input(),
            final(self).output() == match old(self).input() {
                Some(text) => old(self).converted(text),
                None => old(self).output(),
            },
            forall|text: Seq<char>| #[trigger] final(self).converted(text) == old(self).converted(text),
            output@ == shown(final(self).output()),
            old(self).input() is None ==> output@ == Seq::<char>::empty(),
    ;
}

/// Reading is idempotent: `get_output` returns what the tool's state shows
/// and cannot change the tool, so two readings with no other call between
/// them, each being what the contract of `get_output` allows, are the same
/// text.
pub proof fn lemma_read_twice<T: Tool + ?Sized>(tool: &T, first: Seq<char>, second: Seq<char>)
    requires
        first == shown(tool.output()),
        second == shown(tool.output()),
    ensures
        first == second,
{
}

/// Updating is idempotent: where `once` is a tool after `update_output` and
/// `twice` the same tool after a second `update_output`, with no other call
/// between the two, the second call has changed nothing.
pub proof fn lemma_update_twice<T: Tool + ?Sized>(before: &T, once: &T, twice: &T)
    requires
        once.input() == before.input(),
        once.output() == match before.input() {
            Some(text) => before.converted(text),
            None => before.output(),
        },
        forall|text: Seq<char>| #[trigger] once.converted(text) == before.converted(text),
        twice.input() == once.input(),
        twice.output() == match once.input() {
            Some(text) => once.converted(text),
            None => once.output(),
        },
    ensures
        twice.input() == once.input(),
        twice.output() == once.output(),
{
}

/// A fresh tool, one without input and output as the constructors make it,
/// shows the empty text as its input and as its output.
pub proof fn lemma_fresh_tool<T: Tool + ?Sized>(tool: &T)
    requires
        tool.input() is None,
        tool.output() is None,
    ensures
        shown(tool.input()) == Seq::<char>::empty(),
        shown(tool.output()) == Seq::<char>::empty(),
{
}

} // verus!
