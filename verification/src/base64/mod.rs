//! The two tools of the kit: one that encodes and one that decodes.

mod decoder;
mod encoder;

pub use decoder::Base64Decoder;
pub use encoder::Base64Encoder;

use crate::codec::lemma_round_trip;
use crate::{shown, Tool};
use vstd::prelude::*;

verus! {

/// Round trip: what a decoder makes of what an encoder makes of a text is
/// that text.
pub proof fn lemma_decoder_inverts_encoder(
    encoder: &Base64Encoder,
    decoder: &Base64Decoder,
    text: Seq<char>,
)
    ensures
        decoder.converted(shown(encoder.converted(text))) == Some(text),
{
    lemma_round_trip(text);
}

} // verus!
