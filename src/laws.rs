//! Laws of the assembler, stated over the contracts of its operations.
use crate::assembler::BetterScript;
use crate::script_buf::script_bytes;
use bitcoin::ScriptBuf;
use vstd::prelude::*;

verus! {

/// The opcodes counted by a run of operations: one for each appended opcode
/// (`None`), and the count that the embedded assembler had when it was embedded
/// (`Some`).
pub open spec fn counted(steps: Seq<Option<BetterScript>>) -> nat
    decreases steps.len(),
{
    if steps.len() == 0 {
        0
    } else {
        counted(steps.drop_last()) + match steps.last() {
            None => 1,
            Some(sub) => sub.count(),
        }
    }
}

/// Appending opcodes one at a time, with nothing embedded in between, extends the
/// flattened script by exactly those opcodes, in the order of the calls; from an
/// empty assembler the script is the opcodes themselves.
pub proof fn lemma_appends_in_order(states: Seq<BetterScript>, codes: Seq<u8>)
    requires
        states.len() == codes.len() + 1,
        forall|i: int|
            0 <= i < codes.len() ==> #[trigger] states[i + 1].bytes() == states[i].bytes().push(
                codes[i],
            ),
    ensures
        states.last().bytes() == states[0].bytes() + codes,
        states[0].bytes() == Seq::<u8>::empty() ==> states.last().bytes() == codes,
    decreases codes.len(),
{
    if codes.len() > 0 {
        let n = codes.len() - 1;
        lemma_appends_in_order(states.drop_last(), codes.drop_last());
        assert(states[n + 1].bytes() == states[n].bytes().push(codes[n]));
        assert(states.last().bytes() =~= states[0].bytes() + codes);
    } else {
        assert(states[0].bytes() + codes =~= states[0].bytes());
    }
}

/// After any run of appends and embeds, the count is one per appended opcode plus,
/// for each embed, the count that the embedded assembler had at that moment.
pub proof fn lemma_count_adds_up(states: Seq<BetterScript>, steps: Seq<Option<BetterScript>>)
    requires
        states.len() == steps.len() + 1,
        states[0].count() == 0,
        forall|i: int|
            0 <= i < steps.len() ==> (#[trigger] states[i + 1]).count() == states[i].count()
                + match steps[i] {
                None => 1,
                Some(sub) => sub.count(),
            },
    ensures
        states.last().count() == counted(steps),
    decreases steps.len(),
{
    if steps.len() > 0 {
        let n = steps.len() - 1;
        lemma_count_adds_up(states.drop_last(), steps.drop_last());
        assert(states[n + 1].count() == states[n].count() + match steps[n] {
            None => 1,
            Some(sub) => sub.count(),
        });
    }
}

/// Embedding takes a snapshot: `host` flattens to what it had, then what `copy`
/// (a clone of `source`) had when it was embedded, whatever `codes` are later
/// appended to `source`, none of which shows in `host`.
pub proof fn lemma_embed_is_snapshot(
    source: BetterScript,
    copy: BetterScript,
    host_before: BetterScript,
    host: BetterScript,
    source_after: BetterScript,
    codes: Seq<u8>,
)
    requires
        copy.bytes() == source.bytes(),
        host.bytes() == host_before.bytes() + copy.bytes(),
        source_after.bytes() == source.bytes() + codes,
    ensures
        host.bytes() == host_before.bytes() + source.bytes(),
        codes.len() > 0 ==> host.bytes() != host_before.bytes() + source_after.bytes(),
{
    if codes.len() > 0 {
        assert((host_before.bytes() + source_after.bytes()).len() > host.bytes().len());
    }
}

/// Flattening is deterministic: two compilations of assemblers that flatten alike,
/// such as an assembler and its clone, give the same bytes.
pub proof fn lemma_compile_deterministic(
    a: BetterScript,
    b: BetterScript,
    ra: ScriptBuf,
    rb: ScriptBuf,
)
    requires
        a.bytes() == b.bytes(),
        script_bytes(ra) == a.bytes(),
        script_bytes(rb) == b.bytes(),
    ensures
        script_bytes(ra) == script_bytes(rb),
{
}

/// Flattening is a homomorphism: an assembler `a`, then `b` embedded, then `codes`
/// appended, flattens to `a`'s script, then `b`'s, then the codes.
pub proof fn lemma_flatten_concatenates(
    a: BetterScript,
    b: BetterScript,
    states: Seq<BetterScript>,
    codes: Seq<u8>,
)
    requires
        states.len() == codes.len() + 1,
        states[0].bytes() == a.bytes() + b.bytes(),
        forall|i: int|
            0 <= i < codes.len() ==> #[trigger] states[i + 1].bytes() == states[i].bytes().push(
                codes[i],
            ),
    ensures
        states.last().bytes() == a.bytes() + b.bytes() + codes,
{
    lemma_appends_in_order(states, codes);
}

/// Wrapping an assembler `x` alone in a fresh one and embedding the wrapper flattens
/// the same as embedding `x` itself.
pub proof fn lemma_wrapping_is_transparent(
    x: BetterScript,
    wrapper: BetterScript,
    host: BetterScript,
    via_wrapper: BetterScript,
    direct: BetterScript,
)
    requires
        wrapper.bytes() == Seq::<u8>::empty() + x.bytes(),
        via_wrapper.bytes() == host.bytes() + wrapper.bytes(),
        direct.bytes() == host.bytes() + x.bytes(),
    ensures
        via_wrapper.bytes() == direct.bytes(),
{
    assert(Seq::<u8>::empty() + x.bytes() =~= x.bytes());
}

} // verus!
