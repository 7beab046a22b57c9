//! The decoder: unpacks the buffer and expands the codes in one pass.

use vstd::prelude::*;
use crate::bitstream::{carry_after, lemma_unpack_push, unpack_spec, BitstreamUnpacker};
use crate::expand::{expand_spec, initial, lemma_run_push, run, TokenExpander};

verus! {

/// The text that a packed buffer stands for.
pub open spec fn decode_spec(data: Seq<u8>) -> Seq<char> {
    expand_spec(unpack_spec(data))
}

/// Decodes a packed buffer of any length and content.
pub fn decode(data: &[u8]) -> (text: String)
    ensures
        text@ == decode_spec(data@),
{
    let mut unpacker = BitstreamUnpacker::new();
    let mut expander = TokenExpander::new();
    let mut i: usize = 0;
    assert(unpack_spec(data@.take(0)) =~= Seq::<u8>::empty());
    while i < data.len()
        invariant
            i <= data.len(),
            unpacker.wf(),
            expander.wf(),
            unpacker@ == carry_after(data@.take(i as int)),
            expander@ == run(initial(), unpack_spec(data@.take(i as int))),
        decreases data.len() - i,
    {
        let ghost seen = unpack_spec(data@.take(i as int));
        let (code, extra) = unpacker.feed(data[i]);
        proof {
            lemma_unpack_push(data@.take(i as int), data@[i as int]);
            assert(data@.take(i as int).push(data@[i as int]) =~= data@.take(i + 1));
            lemma_run_push(initial(), seen, code);
        }
        expander.push(code);
        if let Some(last) = extra {
            proof {
                lemma_run_push(initial(), seen.push(code), last);
                assert(seen.push(code).push(last) =~= unpack_spec(data@.take(i + 1)));
            }
            expander.push(last);
        } else {
            assert(seen.push(code) =~= unpack_spec(data@.take(i + 1)));
        }
        i += 1;
    }
    assert(data@.take(i as int) =~= data@);
    expander.into_output()
}

} // verus!
