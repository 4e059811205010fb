//! How the probe follows code that is put together from pieces.

use vstd::prelude::*;
use crate::scope::{probe_after, probe_marks, Mark, Probe};
use crate::util::instr::Instr;
use crate::util::nop_block::nop_seq;

verus! {

/// Running two sequences back to back is running the second where the first
/// left the probe, and the reports follow one another.
pub proof fn lemma_probe_concat(start: Probe, a: Seq<Instr>, b: Seq<Instr>, pin: u8)
    ensures
        probe_after(start, a + b, pin) == probe_after(probe_after(start, a, pin), b, pin),
        probe_marks(start, a + b, pin) == probe_marks(start, a, pin) + probe_marks(
            probe_after(start, a, pin),
            b,
            pin,
        ),
    decreases b.len(),
{
    if b.len() == 0 {
        assert(a + b =~= a);
        assert(probe_marks(start, a, pin) + Seq::<Mark>::empty() =~= probe_marks(start, a, pin));
    } else {
        assert((a + b).drop_last() =~= a + b.drop_last());
        assert((a + b).last() == b.last());
        lemma_probe_concat(start, a, b.drop_last(), pin);
        let mid = probe_after(start, a, pin);
        assert(probe_marks(start, a + b, pin) =~= probe_marks(start, a, pin) + probe_marks(
            mid,
            b,
            pin,
        ));
    }
}

/// A single instruction moves the probe by one step.
pub proof fn lemma_probe_one(start: Probe, instr: Instr, pin: u8)
    ensures
        probe_after(start, seq![instr], pin) == start.after(instr, pin),
        probe_marks(start, seq![instr], pin) == start.emits(instr),
{
    let code = seq![instr];
    assert(code.drop_last() =~= Seq::<Instr>::empty());
    assert(probe_after(start, code.drop_last(), pin) == start);
    assert(probe_marks(start, code.drop_last(), pin) =~= Seq::<Mark>::empty());
    assert(probe_marks(start, code, pin) =~= start.emits(instr));
}

/// Padding changes nothing but the time: the probe counts its cycles and
/// reports nothing.
pub proof fn lemma_probe_padding(start: Probe, n: nat, pin: u8)
    ensures
        probe_after(start, nop_seq(n), pin) == start.tick(n),
        probe_marks(start, nop_seq(n), pin) == Seq::<Mark>::empty(),
    decreases n,
{
    if n == 0 {
    } else if n == 1 {
        lemma_probe_one(start, Instr::Nop, pin);
    } else {
        let rest = nop_seq((n - 2) as nat);
        lemma_probe_one(start, Instr::Rjmp, pin);
        lemma_probe_concat(start, seq![Instr::Rjmp], rest, pin);
        lemma_probe_padding(start.tick(2), (n - 2) as nat, pin);
        assert(probe_marks(start, nop_seq(n), pin) =~= Seq::<Mark>::empty());
    }
}

/// An instruction followed by padding: one step, then the padding's cycles.
pub proof fn lemma_probe_then_padding(start: Probe, instr: Instr, n: nat, pin: u8)
    requires
        start.emits(instr) == Seq::<Mark>::empty(),
    ensures
        probe_after(start, seq![instr] + nop_seq(n), pin) == start.after(instr, pin).tick(n),
        probe_marks(start, seq![instr] + nop_seq(n), pin) == Seq::<Mark>::empty(),
{
    lemma_probe_one(start, instr, pin);
    lemma_probe_concat(start, seq![instr], nop_seq(n), pin);
    lemma_probe_padding(start.after(instr, pin), n, pin);
    assert(probe_marks(start, seq![instr] + nop_seq(n), pin) =~= Seq::<Mark>::empty());
}

} // verus!
