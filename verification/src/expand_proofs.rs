//! What holds of the expander on every input.

use vstd::prelude::*;
use crate::expand::{
    as_chars, ends_in_trigger, expand_spec, initial, model_wf, pair_expansion, prefix_expansion,
    run, step, ExpanderModel, Latch, BANG,
};

verus! {

/// A step leads from a well-formed state to a well-formed state, and the
/// latch never opens again.
pub proof fn lemma_step_preserves(m: ExpanderModel, c: u8)
    requires
        model_wf(m),
    ensures
        model_wf(step(m, c)),
        m.latch == Latch::Active ==> step(m, c).latch == Latch::Active,
{
    let next = step(m, c);
    if next.prev != 0 {
        assert(next.out == m.out.push(c as char));
        assert(next.out.last() == c as char);
    }
}

/// The history of the latch. Every state reached from the start is
/// well-formed. While the latch is dormant the text is the input, code for
/// code, and no prefix of the input ends in the trigger phrase. Once it is
/// active, the returned `n` is where the phrase was completed: the first `n`
/// codes end in it, and the text still begins with exactly those codes.
pub proof fn lemma_latch_history(codes: Seq<u8>) -> (n: int)
    ensures
        model_wf(run(initial(), codes)),
        run(initial(), codes).latch == Latch::Dormant ==> {
            &&& expand_spec(codes) == as_chars(codes)
            &&& forall|m: int|
                0 <= m <= codes.len() ==> !ends_in_trigger(#[trigger] as_chars(codes.take(m)))
        },
        run(initial(), codes).latch == Latch::Active ==> {
            &&& 0 <= n <= codes.len()
            &&& n <= expand_spec(codes).len()
            &&& ends_in_trigger(as_chars(codes.take(n)))
            &&& expand_spec(codes).take(n) == as_chars(codes.take(n))
            &&& run(initial(), codes).prev != 0 ==> n < expand_spec(codes).len()
        },
    decreases codes.len(),
{
    if codes.len() == 0 {
        reveal_strlit("loaded kext");
        assert(as_chars(codes) =~= Seq::<char>::empty());
        assert forall|m: int| 0 <= m <= codes.len() implies !ends_in_trigger(
            #[trigger] as_chars(codes.take(m)),
        ) by {
            assert(as_chars(codes.take(m)).len() == 0);
        }
        0
    } else {
        let before = codes.drop_last();
        let c = codes.last();
        let prior = run(initial(), before);
        let now = run(initial(), codes);
        let n0 = lemma_latch_history(before);
        lemma_step_preserves(prior, c);
        assert(now == step(prior, c));
        match prior.latch {
            Latch::Dormant => {
                assert(now.out =~= as_chars(codes));
                assert(codes.take(codes.len() as int) =~= codes);
                if now.latch == Latch::Dormant {
                    assert forall|m: int| 0 <= m <= codes.len() implies !ends_in_trigger(
                        #[trigger] as_chars(codes.take(m)),
                    ) by {
                        if m < codes.len() {
                            assert(codes.take(m) =~= before.take(m));
                        }
                    }
                }
                codes.len() as int
            },
            Latch::Active => {
                assert(codes.take(n0) =~= before.take(n0));
                assert(now.out.take(n0) =~= prior.out.take(n0));
                n0
            },
        }
    }
}

/// While the latch is dormant, the text is the input unchanged, and the
/// input has not said the trigger phrase yet.
pub proof fn lemma_dormant_passes_through(codes: Seq<u8>)
    requires
        run(initial(), codes).latch == Latch::Dormant,
    ensures
        expand_spec(codes) == as_chars(codes),
        forall|m: int|
            0 <= m <= codes.len() ==> !ends_in_trigger(#[trigger] as_chars(codes.take(m))),
{
    lemma_latch_history(codes);
}

/// The latch is active only if some prefix of the text ends in the trigger
/// phrase, and up to the end of that prefix the text is the input unchanged.
pub proof fn lemma_active_only_after_trigger(codes: Seq<u8>)
    requires
        run(initial(), codes).latch == Latch::Active,
    ensures
        exists|n: int|
            {
                &&& 0 <= n <= codes.len()
                &&& n <= expand_spec(codes).len()
                &&& ends_in_trigger(#[trigger] expand_spec(codes).take(n))
                &&& expand_spec(codes).take(n) == as_chars(codes.take(n))
            },
{
    let n = lemma_latch_history(codes);
    assert(ends_in_trigger(expand_spec(codes).take(n)));
}

/// The text only grows: a step never leaves it shorter than it was.
pub proof fn lemma_step_grows(m: ExpanderModel, c: u8)
    requires
        model_wf(m),
    ensures
        step(m, c).out.len() >= m.out.len(),
{
    reveal_strlit("Apple");
    reveal_strlit("Action");
    reveal_strlit("Bluetooth");
    reveal_strlit("Controller");
    reveal_strlit("Family");
    reveal_strlit("Intel");
    reveal_strlit("Profile");
    reveal_strlit("Storage");
    reveal_strlit("AppleUSB");
}

/// With the latch active, the placeholder followed by a dictionary code
/// writes the code's word and nothing else: neither the placeholder nor the
/// code shows in the text.
pub proof fn lemma_pair_replaces_placeholder(m: ExpanderModel, c: u8)
    requires
        m.latch == Latch::Active,
        pair_expansion(c) is Some,
    ensures
        step(step(m, BANG), c) == (ExpanderModel {
            latch: Latch::Active,
            prev: 0,
            out: m.out + pair_expansion(c).unwrap(),
        }),
{
    let mid = step(m, BANG);
    assert(mid.out == m.out.push(BANG as char));
    assert(mid.out.drop_last() =~= m.out);
}

/// With the latch active, `!` and then `A` write "Apple".
pub proof fn lemma_bang_a_is_apple(m: ExpanderModel)
    requires
        m.latch == Latch::Active,
    ensures
        step(step(m, BANG), 0x41).out == m.out + "Apple"@,
        ("Apple"@).is_suffix_of(step(step(m, BANG), 0x41).out),
{
    lemma_pair_replaces_placeholder(m, 0x41);
    let out = m.out + "Apple"@;
    assert(out.subrange(out.len() - "Apple"@.len(), out.len() as int) =~= "Apple"@);
}

/// With the latch active, a prefix code writes its prefix after the text as
/// it stands and clears the lookback, whatever code came before it.
pub proof fn lemma_prefix_ignores_lookback(m: ExpanderModel, c: u8)
    requires
        m.latch == Latch::Active,
        prefix_expansion(c) is Some,
    ensures
        step(m, c) == (ExpanderModel {
            latch: Latch::Active,
            prev: 0,
            out: m.out + prefix_expansion(c).unwrap(),
        }),
        forall|prev: u8|
            step(ExpanderModel { prev, ..m }, c) == step(m, c),
{
}

/// With the latch active, the placeholder is written as it is and becomes
/// the lookback. If the next code is not in the dictionary of pairs, the
/// placeholder stays in the text, followed by what that code writes by itself.
pub proof fn lemma_unpaired_placeholder_stays(m: ExpanderModel, c: u8)
    requires
        m.latch == Latch::Active,
        pair_expansion(c) is None,
    ensures
        step(m, BANG) == (ExpanderModel {
            latch: Latch::Active,
            prev: BANG,
            out: m.out.push(BANG as char),
        }),
        step(step(m, BANG), c).out == m.out.push(BANG as char) + (match prefix_expansion(c) {
            Some(prefix) => prefix,
            None => seq![c as char],
        }),
        prefix_expansion(c) is None ==> step(step(m, BANG), c).prev == c,
{
    let mid = step(m, BANG);
    if prefix_expansion(c) is None {
        assert(mid.out.push(c as char) =~= mid.out + seq![c as char]);
    }
}

} // verus!
