//! Padding: instruction sequences that spend a given number of cycles and do
//! nothing else, in as few instructions as possible.

use vstd::prelude::*;
use crate::util::instr::{Instr, total_cycles, lemma_total_cycles_bound, lemma_total_cycles_concat, lemma_total_cycles_one};

verus! {

/// The padding for `n` cycles: a two-cycle jump for every pair of cycles,
/// then a single one-cycle `nop` if one cycle is left over.
pub open spec fn nop_seq(n: nat) -> Seq<Instr>
    decreases n,
{
    if n == 0 {
        Seq::empty()
    } else if n == 1 {
        seq![Instr::Nop]
    } else {
        seq![Instr::Rjmp] + nop_seq((n - 2) as nat)
    }
}

/// Whether every instruction of `code` only spends time.
pub open spec fn all_padding(code: Seq<Instr>) -> bool {
    forall|i: int| 0 <= i < code.len() ==> (#[trigger] code[i]).spec_is_padding()
}

/// Appends the padding for `n` cycles to `code`.
pub fn emit_nops(code: &mut Vec<Instr>, n: u8)
    ensures
        final(code)@ == old(code)@ + nop_seq(n as nat),
{
    let mut left: u8 = n;
    proof {
        assert(code@ =~= old(code)@ + Seq::<Instr>::empty());
    }
    while left > 0
        invariant
            left <= n,
            code@ + nop_seq(left as nat) == old(code)@ + nop_seq(n as nat),
        decreases left,
    {
        let ghost before = code@;
        if left == 1 {
            code.push(Instr::Nop);
            proof {
                assert(nop_seq(0) =~= Seq::<Instr>::empty());
                assert(code@ + nop_seq(0) =~= before + nop_seq(1));
            }
            left = 0;
        } else {
            code.push(Instr::Rjmp);
            proof {
                assert(code@ + nop_seq((left - 2) as nat) =~= before + nop_seq(left as nat));
            }
            left = left - 2;
        }
    }
    proof {
        assert(code@ + nop_seq(0) =~= code@);
    }
}

/// The padding for `n` cycles as a sequence of its own.
pub fn nop_block(n: u8) -> (code: Vec<Instr>)
    ensures
        code@ == nop_seq(n as nat),
{
    let mut code: Vec<Instr> = Vec::new();
    emit_nops(&mut code, n);
    proof {
        assert(Seq::<Instr>::empty() + nop_seq(n as nat) =~= nop_seq(n as nat));
    }
    code
}

/// A generator of padding whose length is fixed by the type.
pub trait NopGen {
    /// The number of cycles the generated padding spends.
    const SIZE: u8;

    /// Generates the padding.
    fn gen() -> (code: Vec<Instr>)
        ensures
            code@ == nop_seq(Self::SIZE as nat),
    ;
}

/// Padding of exactly `N` cycles.
pub struct NopBlock<const N: u8> {}

impl<const N: u8> NopGen for NopBlock<N> {
    const SIZE: u8 = N;

    /// Generates the padding for `N` cycles: a jump for every pair of
    /// cycles, then one `nop` if `N` is odd.
    fn gen() -> (code: Vec<Instr>)
        ensures
            code@ == nop_seq(N as nat),
    {
        nop_block(N)
    }
}

/// The size of a block is the number in its type.
pub proof fn lemma_block_size<const N: u8>()
    ensures
        <NopBlock<N> as NopGen>::SIZE == N,
{
}

/// What a block of `N` generates: padding that spends exactly `N` cycles,
/// touches nothing, has one instruction for every started pair of cycles,
/// and is as short as any code that spends `N` cycles.
pub proof fn lemma_block_exact<const N: u8>(other: Seq<Instr>)
    ensures
        nop_seq(<NopBlock<N> as NopGen>::SIZE as nat) == nop_seq(N as nat),
        total_cycles(nop_seq(N as nat)) == N,
        all_padding(nop_seq(N as nat)),
        nop_seq(N as nat).len() == (N + 1) / 2,
        total_cycles(other) == N ==> nop_seq(N as nat).len() <= other.len(),
{
    lemma_nop_seq_exact(N as nat);
    if total_cycles(other) == N {
        lemma_nop_seq_minimal(N as nat, other);
    }
}

/// Padding for `n` cycles spends exactly `n` cycles, touches nothing, and has
/// one instruction for every started pair of cycles.
pub proof fn lemma_nop_seq_exact(n: nat)
    ensures
        total_cycles(nop_seq(n)) == n,
        all_padding(nop_seq(n)),
        nop_seq(n).len() == (n + 1) / 2,
    decreases n,
{
    if n == 0 {
    } else if n == 1 {
        lemma_total_cycles_one(Instr::Nop);
    } else {
        let rest = nop_seq((n - 2) as nat);
        lemma_nop_seq_exact((n - 2) as nat);
        lemma_total_cycles_concat(seq![Instr::Rjmp], rest);
        lemma_total_cycles_one(Instr::Rjmp);
    }
}

/// No instruction sequence that spends `n` cycles is shorter than the padding
/// generated for `n`.
pub proof fn lemma_nop_seq_minimal(n: nat, code: Seq<Instr>)
    requires
        total_cycles(code) == n,
    ensures
        nop_seq(n).len() <= code.len(),
{
    lemma_nop_seq_exact(n);
    lemma_total_cycles_bound(code);
}

} // verus!
