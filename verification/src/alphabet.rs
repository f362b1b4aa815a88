//! The standard alphabet: sixty-four symbols, each standing for six bits,
//! and the padding character.

use crate::trusted::{has_char, insert_char, new_char_set, standard_symbols};
use std::collections::HashSet;
use vstd::prelude::*;

verus! {

/// The character that fills an encoded text up to a multiple of four.
pub const PAD: char = '=';

/// The symbol that stands for the six-bit value `v`: the capital letters
/// for 0 to 25, the small letters for 26 to 51, the digits for 52 to 61,
/// then `+` and `/`.
pub open spec fn symbol(v: int) -> char
    recommends
        0 <= v < 64,
{
    if v < 26 {
        (v + 'A' as int) as char
    } else if v < 52 {
        (v - 26 + 'a' as int) as char
    } else if v < 62 {
        (v - 52 + '0' as int) as char
    } else if v == 62 {
        '+'
    } else {
        '/'
    }
}

/// Whether `c` is one of the sixty-four symbols. The padding character is
/// not a symbol.
pub open spec fn is_symbol(c: char) -> bool {
    ||| 'A' <= c <= 'Z'
    ||| 'a' <= c <= 'z'
    ||| '0' <= c <= '9'
    ||| c == '+'
    ||| c == '/'
}

/// The six-bit value that the symbol `c` stands for.
pub open spec fn symbol_value(c: char) -> int
    recommends
        is_symbol(c),
{
    if 'A' <= c <= 'Z' {
        c as int - 'A' as int
    } else if 'a' <= c <= 'z' {
        c as int - 'a' as int + 26
    } else if '0' <= c <= '9' {
        c as int - '0' as int + 52
    } else if c == '+' {
        62
    } else {
        63
    }
}

/// The sixty-four symbols in the order of their values.
pub open spec fn symbols() -> Seq<char> {
    Seq::new(64, |v: int| symbol(v))
}

/// Whether `c` may stand in an encoded text: the symbols and the padding
/// character.
pub open spec fn is_valid_char(c: char) -> bool {
    is_symbol(c) || c == PAD
}

/// The alphabet set: the sixty-five characters that an encoded text is made
/// of.
pub open spec fn alphabet() -> Set<char> {
    Set::new(|c: char| is_valid_char(c))
}

/// The characters of `text` that are in `valid`, in their order.
pub open spec fn kept(text: Seq<char>, valid: Set<char>) -> Seq<char> {
    text.filter(|c: char| valid.contains(c))
}

/// Every six-bit value has a symbol, which stands for that value and is
/// neither the padding character nor outside ASCII.
pub proof fn lemma_value_of_symbol(v: int)
    requires
        0 <= v < 64,
    ensures
        is_symbol(symbol(v)),
        symbol_value(symbol(v)) == v,
        symbol(v) != PAD,
        (symbol(v) as int) < 128,
{
}

/// Every symbol is the symbol of its value.
pub proof fn lemma_symbol_of_value(c: char)
    requires
        is_symbol(c),
    ensures
        0 <= symbol_value(c) < 64,
        symbol(symbol_value(c)) == c,
{
}

/// A set of characters, hashed as `ahash` does it.
pub type CharSet = HashSet<char, egui::ahash::RandomState>;

/// The alphabet set, computed for those who test many characters against
/// it.
pub fn valid_chars() -> (set: CharSet)
    ensures
        set@ == alphabet(),
{
    broadcast use vstd::string::axiom_spec_iter;

    let text = standard_symbols();
    let mut set = new_char_set();
    for c in it: text.as_str().chars()
        invariant
            it.seq() == symbols(),
            set@ == symbols().take(it.index()).to_set(),
    {
        proof {
            let next = symbols().take(it.index() + 1);
            assert(next == symbols().take(it.index()).push(c));
            assert(next.to_set() =~= symbols().take(it.index()).to_set().insert(c)) by {
                assert forall|x: char| next.to_set().contains(x) implies symbols().take(
                    it.index(),
                ).to_set().insert(c).contains(x) by {
                    let j = choose|j: int| 0 <= j < next.len() && next[j] == x;
                    if j < it.index() {
                        assert(symbols().take(it.index())[j] == x);
                    }
                }
                assert forall|x: char|
                    symbols().take(it.index()).to_set().insert(c).contains(
                        x,
                    ) implies next.to_set().contains(x) by {
                    if x == c {
                        assert(next[it.index()] == x);
                    } else {
                        let j = choose|j: int|
                            0 <= j < it.index() && symbols().take(it.index())[j] == x;
                        assert(next[j] == x);
                    }
                }
            }
        }
        insert_char(&mut set, c);
    }
    insert_char(&mut set, PAD);
    proof {
        assert(symbols().take(64) == symbols());
        assert forall|c: char| set@.contains(c) == alphabet().contains(c) by {
            if is_symbol(c) {
                lemma_symbol_of_value(c);
                assert(symbols()[symbol_value(c)] == c);
            }
            if symbols().contains(c) {
                let v = choose|v: int| 0 <= v < 64 && symbols()[v] == c;
                lemma_value_of_symbol(v);
            }
        }
        assert(set@ =~= alphabet());
    }
    set
}

/// The characters of `text` that are in `valid`, in their order.
pub fn keep(text: &str, valid: &CharSet) -> (r: String)
    ensures
        r@ == kept(text@, valid@),
{
    broadcast use vstd::string::axiom_spec_iter;

    let mut r = String::new();
    proof {
        reveal(Seq::filter);
    }
    for c in it: text.chars()
        invariant
            it.seq() == text@,
            r@ == kept(text@.take(it.index()), valid@),
    {
        proof {
            reveal(Seq::filter);
            let next = text@.take(it.index() + 1);
            assert(next.drop_last() == text@.take(it.index()));
            assert(next.last() == c);
        }
        if has_char(valid, c) {
            r.push(c);
        }
    }
    proof {
        assert(text@.take(text@.len() as int) == text@);
    }
    r
}

} // verus!
