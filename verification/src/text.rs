//! Text handling around the codec: bytes shown as text, and trimming.

use crate::trusted::{ascii_white_space, has_white_space_property, lossy_text};
use vstd::prelude::*;
use vstd::string::StrSliceExecFns;
use vstd::utf8::{decode_utf8, encode_utf8, valid_utf8};

verus! {

/// The text that `bytes` are shown as: the text that they encode, or, where
/// they are not valid UTF-8, what the lossy conversion makes of them.
pub open spec fn text_of(bytes: Seq<u8>) -> Seq<char> {
    if valid_utf8(bytes) {
        decode_utf8(bytes)
    } else {
        lossy_text(bytes)
    }
}

/// Whether `c` is white space: among the ASCII characters the space and the
/// five from the tab to the carriage return, and beyond ASCII whatever has the
/// Unicode property `White_Space`.
pub open spec fn white_space(c: char) -> bool {
    if c <= '\u{7f}' {
        ascii_white_space(c)
    } else {
        has_white_space_property(c)
    }
}

/// `text` without the white space at its start.
pub open spec fn trim_start(text: Seq<char>) -> Seq<char>
    decreases text.len(),
{
    if text.len() > 0 && white_space(text.first()) {
        trim_start(text.drop_first())
    } else {
        text
    }
}

/// `text` without the white space at its end.
pub open spec fn trim_end(text: Seq<char>) -> Seq<char>
    decreases text.len(),
{
    if text.len() > 0 && white_space(text.last()) {
        trim_end(text.drop_last())
    } else {
        text
    }
}

/// `text` without the white space at its start and at its end.
pub open spec fn trimmed(text: Seq<char>) -> Seq<char> {
    trim_end(trim_start(text))
}

/// Where the first `k` characters are white space and the next one is not,
/// trimming the start drops exactly those `k`.
pub proof fn lemma_trim_start(text: Seq<char>, k: int)
    requires
        0 <= k <= text.len(),
        forall|j: int| 0 <= j < k ==> white_space(#[trigger] text[j]),
        k < text.len() ==> !white_space(text[k]),
    ensures
        trim_start(text) == text.skip(k),
    decreases k,
{
    if k == 0 {
        assert(text.skip(0) == text);
    } else {
        let rest = text.drop_first();
        assert forall|j: int| 0 <= j < k - 1 implies white_space(#[trigger] rest[j]) by {
            assert(rest[j] == text[j + 1]);
        }
        lemma_trim_start(rest, k - 1);
        assert(rest.skip(k - 1) == text.skip(k));
    }
}

/// Where the characters from `k` on are white space and the one before is
/// not, trimming the end keeps exactly the first `k`.
pub proof fn lemma_trim_end(text: Seq<char>, k: int)
    requires
        0 <= k <= text.len(),
        forall|j: int| k <= j < text.len() ==> white_space(#[trigger] text[j]),
        0 < k ==> !white_space(text[k - 1]),
    ensures
        trim_end(text) == text.take(k),
    decreases text.len() - k,
{
    if k == text.len() {
        assert(text.take(k) == text);
    } else {
        let rest = text.drop_last();
        lemma_trim_end(rest, k);
        assert(rest.take(k) == text.take(k));
    }
}

/// A text has at most as many characters as its UTF-8 encoding has bytes.
pub proof fn lemma_chars_le_bytes(text: Seq<char>)
    ensures
        text.len() <= encode_utf8(text).len(),
    decreases text.len(),
{
    if text.len() > 0 {
        lemma_chars_le_bytes(text.drop_first());
    }
}

/// `text` without the white space at its start and at its end.
pub fn trim(text: &str) -> (r: &str)
    ensures
        r@ == trimmed(text@),
{
    broadcast use vstd::string::axiom_spec_iter;

    let bound: usize = text.as_bytes().len();
    proof {
        lemma_chars_le_bytes(text@);
    }
    let mut start: usize = 0;
    let mut end: usize = 0;
    let mut i: usize = 0;
    for c in it: text.chars()
        invariant
            it.seq() == text@,
            i == it.index(),
            text@.len() <= bound,
            start <= end <= i,
            forall|j: int| 0 <= j < start ==> white_space(#[trigger] text@[j]),
            forall|j: int| end <= j < i ==> white_space(#[trigger] text@[j]),
            start < end ==> !white_space(text@[start as int]) && !white_space(text@[end - 1]),
            start == end ==> end == i,
    {
        if !c.is_whitespace() {
            end = i + 1;
        } else if start == end {
            start = i + 1;
            end = i + 1;
        }
        i = i + 1;
    }
    proof {
        lemma_trim_start(text@, start as int);
        lemma_trim_end(text@.skip(start as int), end - start);
        assert(text@.skip(start as int).take(end - start) == text@.subrange(
            start as int,
            end as int,
        ));
    }
    text.substring_char(start, end)
}

} // verus!
