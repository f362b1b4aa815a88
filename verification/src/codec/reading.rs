//! Reading an encoded text group by group: a way to compute [`decoding`],
//! and the proof that it is one.

use crate::alphabet::{
    is_symbol, is_valid_char, lemma_symbol_of_value, lemma_value_of_symbol, symbol, symbol_value,
    PAD,
};
use crate::codec::{decoding, encoding, is_encoding, lemma_encoding_len, quad};
use vstd::prelude::*;

verus! {

/// The three bytes that four six-bit values hold.
pub open spec fn triple(v0: int, v1: int, v2: int, v3: int) -> Seq<u8>
    recommends
        0 <= v0 < 64,
        0 <= v1 < 64,
        0 <= v2 < 64,
        0 <= v3 < 64,
{
    seq![(v0 * 4 + v1 / 16) as u8, (v1 % 16 * 16 + v2 / 4) as u8, (v2 % 4 * 64 + v3) as u8]
}

/// The bytes of a group of four characters that are all symbols.
pub open spec fn parsed_full(q: Seq<char>) -> Option<Seq<u8>>
    recommends
        q.len() == 4,
{
    if is_symbol(q[0]) && is_symbol(q[1]) && is_symbol(q[2]) && is_symbol(q[3]) {
        Some(triple(symbol_value(q[0]), symbol_value(q[1]), symbol_value(q[2]), symbol_value(q[3])))
    } else {
        None
    }
}

/// The bytes of the last group of a text, which may end in padding: after
/// two symbols and two padding characters one byte, after three symbols and
/// one padding character two bytes. The bits that the last symbol holds beyond
/// those bytes must be zero.
pub open spec fn parsed_last(q: Seq<char>) -> Option<Seq<u8>>
    recommends
        q.len() == 4,
{
    if q[3] != PAD {
        parsed_full(q)
    } else if q[2] == PAD {
        if is_symbol(q[0]) && is_symbol(q[1]) && symbol_value(q[1]) % 16 == 0 {
            Some(triple(symbol_value(q[0]), symbol_value(q[1]), 0, 0).take(1))
        } else {
            None
        }
    } else {
        if is_symbol(q[0]) && is_symbol(q[1]) && is_symbol(q[2]) && symbol_value(q[2]) % 4 == 0 {
            Some(triple(symbol_value(q[0]), symbol_value(q[1]), symbol_value(q[2]), 0).take(2))
        } else {
            None
        }
    }
}

/// Reads `text` group by group: the bytes that it is the encoding of, or
/// `None` where its length is no multiple of four, a character is neither a
/// symbol nor padding in its place, or the last symbol holds stray bits.
pub open spec fn parsed(text: Seq<char>) -> Option<Seq<u8>>
    decreases text.len(),
{
    if text.len() == 0 {
        Some(Seq::empty())
    } else if text.len() < 4 {
        None
    } else if text.len() == 4 {
        parsed_last(text)
    } else {
        match (parsed_full(text.take(4)), parsed(text.skip(4))) {
            (Some(head), Some(rest)) => Some(head + rest),
            _ => None,
        }
    }
}

/// Three bytes come back from the six-bit values of their quad.
pub proof fn lemma_triple_of_quad(b0: u8, b1: u8, b2: u8)
    ensures
        parsed_full(quad(b0 as int, b1 as int, b2 as int)) == Some(seq![b0, b1, b2]),
        quad(b0 as int, b1 as int, b2 as int).len() == 4,
        forall|i: int| 0 <= i < 4 ==> #[trigger] quad(b0 as int, b1 as int, b2 as int)[i] != PAD,
        forall|i: int| 0 <= i < 4 ==> is_symbol(#[trigger] quad(b0 as int, b1 as int, b2 as int)[i]),
        symbol_value(quad(b0 as int, b1 as int, b2 as int)[0]) == b0 / 4,
        symbol_value(quad(b0 as int, b1 as int, b2 as int)[1]) == b0 % 4 * 16 + b1 / 16,
        symbol_value(quad(b0 as int, b1 as int, b2 as int)[2]) == b1 % 16 * 4 + b2 / 64,
        symbol_value(quad(b0 as int, b1 as int, b2 as int)[3]) == b2 % 64,
{
    let v0 = (b0 / 4) as int;
    let v1 = b0 % 4 * 16 + b1 / 16;
    let v2 = b1 % 16 * 4 + b2 / 64;
    let v3 = (b2 % 64) as int;
    lemma_value_of_symbol(v0);
    lemma_value_of_symbol(v1);
    lemma_value_of_symbol(v2);
    lemma_value_of_symbol(v3);
    assert(triple(v0, v1, v2, v3) == seq![b0, b1, b2]);
}

/// Four six-bit values come back from the quad of their three bytes.
pub proof fn lemma_quad_of_triple(v0: int, v1: int, v2: int, v3: int)
    requires
        0 <= v0 < 64,
        0 <= v1 < 64,
        0 <= v2 < 64,
        0 <= v3 < 64,
    ensures
        triple(v0, v1, v2, v3).len() == 3,
        quad(
            triple(v0, v1, v2, v3)[0] as int,
            triple(v0, v1, v2, v3)[1] as int,
            triple(v0, v1, v2, v3)[2] as int,
        ) == seq![symbol(v0), symbol(v1), symbol(v2), symbol(v3)],
{
}

/// Reading an encoding gives the bytes back.
pub proof fn lemma_parsed_of_encoding(bytes: Seq<u8>)
    ensures
        parsed(encoding(bytes)) == Some(bytes),
    decreases bytes.len(),
{
    let text = encoding(bytes);
    lemma_encoding_len(bytes);
    if bytes.len() == 0 {
        assert(bytes == Seq::<u8>::empty());
    } else if bytes.len() == 1 {
        lemma_triple_of_quad(bytes[0], 0, 0);
        let q = quad(bytes[0] as int, 0, 0);
        assert(text[0] == q[0] && text[1] == q[1] && text[2] == PAD && text[3] == PAD);
        assert(triple(symbol_value(q[0]), symbol_value(q[1]), 0, 0).take(1) == bytes);
    } else if bytes.len() == 2 {
        lemma_triple_of_quad(bytes[0], bytes[1], 0);
        let q = quad(bytes[0] as int, bytes[1] as int, 0);
        assert(text[0] == q[0] && text[1] == q[1] && text[2] == q[2] && text[3] == PAD);
        assert(triple(symbol_value(q[0]), symbol_value(q[1]), symbol_value(q[2]), 0).take(2)
            == bytes);
    } else {
        lemma_triple_of_quad(bytes[0], bytes[1], bytes[2]);
        let q = quad(bytes[0] as int, bytes[1] as int, bytes[2] as int);
        let rest = bytes.skip(3);
        lemma_parsed_of_encoding(rest);
        lemma_encoding_len(rest);
        assert(text.take(4) == q);
        assert(text.skip(4) == encoding(rest));
        assert(seq![bytes[0], bytes[1], bytes[2]] + rest == bytes);
        if bytes.len() == 3 {
            assert(text == q);
            assert(rest == Seq::<u8>::empty());
        }
    }
}

/// A group of four symbols is the quad of its bytes.
pub proof fn lemma_quad_of_parsed_full(q: Seq<char>)
    requires
        q.len() == 4,
        parsed_full(q) is Some,
    ensures
        parsed_full(q).unwrap().len() == 3,
        quad(
            parsed_full(q).unwrap()[0] as int,
            parsed_full(q).unwrap()[1] as int,
            parsed_full(q).unwrap()[2] as int,
        ) == q,
{
    lemma_symbol_of_value(q[0]);
    lemma_symbol_of_value(q[1]);
    lemma_symbol_of_value(q[2]);
    lemma_symbol_of_value(q[3]);
    lemma_quad_of_triple(
        symbol_value(q[0]),
        symbol_value(q[1]),
        symbol_value(q[2]),
        symbol_value(q[3]),
    );
    assert(seq![q[0], q[1], q[2], q[3]] == q);
}

/// A last group is the encoding of its bytes.
pub proof fn lemma_encoding_of_parsed_last(q: Seq<char>)
    requires
        q.len() == 4,
        parsed_last(q) is Some,
    ensures
        encoding(parsed_last(q).unwrap()) == q,
{
    let bytes = parsed_last(q).unwrap();
    lemma_symbol_of_value(q[0]);
    lemma_symbol_of_value(q[1]);
    let v0 = symbol_value(q[0]);
    let v1 = symbol_value(q[1]);
    if q[3] != PAD {
        lemma_quad_of_parsed_full(q);
        assert(bytes.skip(3) == Seq::<u8>::empty());
        assert(encoding(bytes.skip(3)) == Seq::<char>::empty());
    } else if q[2] == PAD {
        lemma_quad_of_triple(v0, v1, 0, 0);
        assert(bytes.len() == 1);
        assert(bytes[0] == triple(v0, v1, 0, 0)[0]);
        assert(quad(bytes[0] as int, 0, 0).take(2) == seq![q[0], q[1]]);
        assert(seq![q[0], q[1]] + seq![PAD, PAD] == q);
    } else {
        lemma_symbol_of_value(q[2]);
        let v2 = symbol_value(q[2]);
        lemma_quad_of_triple(v0, v1, v2, 0);
        assert(bytes.len() == 2);
        assert(bytes[0] == triple(v0, v1, v2, 0)[0]);
        assert(bytes[1] == triple(v0, v1, v2, 0)[1]);
        assert(quad(bytes[0] as int, bytes[1] as int, 0).take(3) == seq![q[0], q[1], q[2]]);
        assert(seq![q[0], q[1], q[2]] + seq![PAD] == q);
    }
}

/// What reading a text gives has the text as its encoding.
pub proof fn lemma_encoding_of_parsed(text: Seq<char>)
    requires
        parsed(text) is Some,
    ensures
        encoding(parsed(text).unwrap()) == text,
    decreases text.len(),
{
    let bytes = parsed(text).unwrap();
    if text.len() == 0 {
        assert(text == Seq::<char>::empty());
    } else if text.len() == 4 {
        lemma_encoding_of_parsed_last(text);
    } else {
        let q = text.take(4);
        let rest = parsed(text.skip(4)).unwrap();
        lemma_encoding_of_parsed(text.skip(4));
        lemma_quad_of_parsed_full(q);
        assert(bytes.skip(3) == rest);
        assert(q + text.skip(4) == text);
    }
}

/// [`decoding`] is what reading the text group by group gives.
pub proof fn lemma_decoding_is_parsed(text: Seq<char>)
    ensures
        decoding(text) == parsed(text),
{
    if is_encoding(text) {
        let bytes = choose|bytes: Seq<u8>| encoding(bytes) == text;
        lemma_parsed_of_encoding(bytes);
    } else if parsed(text) is Some {
        lemma_encoding_of_parsed(text);
    }
}

/// Every character of an encoding is a symbol or the padding character.
pub proof fn lemma_encoding_chars(bytes: Seq<u8>)
    ensures
        forall|i: int| 0 <= i < encoding(bytes).len() ==> is_valid_char(#[trigger] encoding(bytes)[i]),
    decreases bytes.len(),
{
    let text = encoding(bytes);
    lemma_encoding_len(bytes);
    if bytes.len() == 0 {
    } else if bytes.len() == 1 {
        lemma_triple_of_quad(bytes[0], 0, 0);
        let q = quad(bytes[0] as int, 0, 0);
        assert(text[0] == q[0] && text[1] == q[1] && text[2] == PAD && text[3] == PAD);
    } else if bytes.len() == 2 {
        lemma_triple_of_quad(bytes[0], bytes[1], 0);
        let q = quad(bytes[0] as int, bytes[1] as int, 0);
        assert(text[0] == q[0] && text[1] == q[1] && text[2] == q[2] && text[3] == PAD);
    } else {
        lemma_triple_of_quad(bytes[0], bytes[1], bytes[2]);
        let q = quad(bytes[0] as int, bytes[1] as int, bytes[2] as int);
        lemma_encoding_chars(bytes.skip(3));
        assert forall|i: int| 0 <= i < text.len() implies is_valid_char(#[trigger] text[i]) by {
            if i < 4 {
                assert(text[i] == q[i]);
            } else {
                assert(text[i] == encoding(bytes.skip(3))[i - 4]);
            }
        }
    }
}

} // verus!
