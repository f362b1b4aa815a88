//! Driving a sequence of tools: each tool's output is the next tool's input.

use crate::codec::{encoded_text, lemma_round_trip, lossy_decoded_text};
use crate::{shown, Tool};
use vstd::prelude::*;

verus! {

/// The text that has passed through the first `k` tools of a chain that
/// started with `initial`: each tool converts what the one before handed on,
/// and a tool without output hands on the empty text.
pub open spec fn stage(tools: Seq<Box<dyn Tool>>, initial: Seq<char>, k: int) -> Seq<char>
    decreases k,
{
    if k <= 0 {
        initial
    } else {
        shown(tools[k - 1].converted(stage(tools, initial, k - 1)))
    }
}

/// Whether the tools of `after` follow the same rules as those of `before`.
pub open spec fn same_rules(before: Seq<Box<dyn Tool>>, after: Seq<Box<dyn Tool>>) -> bool {
    &&& after.len() == before.len()
    &&& forall|i: int, text: Seq<char>|
        0 <= i < before.len() ==> #[trigger] after[i].converted(text) == before[i].converted(text)
}

/// Tools with the same rules hand on the same texts, so a chain that is run
/// again with the same initial text returns the same output.
pub proof fn lemma_stage_same_rules(
    before: Seq<Box<dyn Tool>>,
    after: Seq<Box<dyn Tool>>,
    initial: Seq<char>,
    k: int,
)
    requires
        same_rules(before, after),
        k <= before.len(),
    ensures
        stage(after, initial, k) == stage(before, initial, k),
    decreases k,
{
    if k > 0 {
        lemma_stage_same_rules(before, after, initial, k - 1);
    }
}

/// Feeds `initial` to the first tool, each tool's output to the next, and
/// returns the output of the last; with no tools, `initial` itself. Every
/// tool is left with the text that reached it as input and with what it made
/// of it as output.
pub fn run_chain(tools: &mut Vec<Box<dyn Tool>>, initial: &str) -> (output: String)
    ensures
        same_rules(old(tools)@, final(tools)@),
        forall|i: int|
            0 <= i < old(tools)@.len() ==> {
                &&& (#[trigger] final(tools)@[i]).input() == Some(stage(old(tools)@, initial@, i))
                &&& final(tools)@[i].output() == old(tools)@[i].converted(
                    stage(old(tools)@, initial@, i),
                )
            },
        output@ == stage(old(tools)@, initial@, old(tools)@.len() as int),
{
    let mut text = initial.to_owned();
    let n: usize = tools.len();
    let mut i: usize = 0;
    while i < n
        invariant
            i <= n == old(tools)@.len(),
            same_rules(old(tools)@, tools@),
            forall|j: int|
                0 <= j < i ==> {
                    &&& (#[trigger] tools@[j]).input() == Some(stage(old(tools)@, initial@, j))
                    &&& tools@[j].output() == old(tools)@[j].converted(
                        stage(old(tools)@, initial@, j),
                    )
                },
            text@ == stage(old(tools)@, initial@, i as int),
        decreases n - i,
    {
        tools[i].set_input(text.as_str());
        text = tools[i].update_output();
        i = i + 1;
    }
    text
}

/// Whether `tool` follows the rule of an encoder: every text has its
/// encoding as output.
pub open spec fn encodes<T: Tool + ?Sized>(tool: &T) -> bool {
    forall|text: Seq<char>| (#[trigger] tool.converted(text)) == Some(encoded_text(text))
}

/// Whether `tool` follows the rule of a decoder: every encoding has the
/// text that it decodes to as output. What the tool makes of a text that is
/// no encoding is left open.
pub open spec fn decodes<T: Tool + ?Sized>(tool: &T) -> bool {
    forall|text: Seq<char>|
        lossy_decoded_text(text) is Some ==> (#[trigger] tool.converted(text))
            == lossy_decoded_text(text)
}

/// Round trip through a chain: where encoders and decoders take turns, an
/// encoder first, every decoder hands on the initial text and every encoder
/// its encoding.
pub proof fn lemma_alternating_chain(tools: Seq<Box<dyn Tool>>, initial: Seq<char>, k: int)
    requires
        0 <= k <= tools.len(),
        forall|i: int| 0 <= i < tools.len() && i % 2 == 0 ==> encodes(&*#[trigger] tools[i]),
        forall|i: int| 0 <= i < tools.len() && i % 2 == 1 ==> decodes(&*#[trigger] tools[i]),
    ensures
        stage(tools, initial, k) == if k % 2 == 0 {
            initial
        } else {
            encoded_text(initial)
        },
    decreases k,
{
    if k > 0 {
        lemma_alternating_chain(tools, initial, k - 1);
        lemma_round_trip(initial);
        assert(encodes(&*tools[k - 1]) || decodes(&*tools[k - 1]));
    }
}

} // verus!
