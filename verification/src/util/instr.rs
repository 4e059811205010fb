//! The instructions that the transmission loop is made of, with their cost in
//! CPU cycles.

use vstd::prelude::*;

verus! {

/// One executed instruction of the transmission stream.
#[derive(Clone, Copy, Debug, PartialEq, Eq, Structural)]
pub enum Instr {
    /// Reads the port register. The byte is what the read returned.
    In(u8),
    /// Stores a byte to the port register. The pins take their new level when
    /// the instruction completes.
    Out(u8),
    /// Does nothing for one cycle.
    Nop,
    /// A relative jump to the next instruction: does nothing for two cycles.
    Rjmp,
    /// Tests the top bit of the byte being sent and skips the next
    /// instruction if it is set. The flag records whether the skip happened.
    SkipIfBitSet(bool),
    /// Shifts the byte being sent left by one bit.
    Lsl,
    /// Loads the bit counter with a constant.
    LdImmediate(u8),
    /// Decrements the bit counter.
    Dec,
    /// Closes one pass of the bit loop: branches back while the counter is not zero.
    BranchNotEqual,
    /// Masks interrupts, remembering whether they were enabled.
    EnterCritical,
    /// Restores the interrupt state saved by the matching `EnterCritical`.
    ExitCritical,
    /// Waits for the given number of microseconds. The wait is coarse: it is
    /// not counted in cycles.
    DelayUs(u32),
}

impl Instr {
    /// The number of CPU cycles the instruction takes.
    pub open spec fn spec_cycles(self) -> nat {
        match self {
            Instr::Rjmp => 2,
            Instr::SkipIfBitSet(skipped) => if skipped { 2 } else { 1 },
            Instr::BranchNotEqual => 2,
            Instr::DelayUs(_) => 0,
            _ => 1,
        }
    }

    /// Whether the instruction only spends time: it touches no register, no
    /// memory, no flag and no pin.
    pub open spec fn spec_is_padding(self) -> bool {
        self == Instr::Nop || self == Instr::Rjmp
    }

    /// The number of CPU cycles the instruction takes.
    pub fn cycles(&self) -> (c: u8)
        ensures
            c == self.spec_cycles(),
            c <= 2,
    {
        match self {
            Instr::Rjmp => 2,
            Instr::SkipIfBitSet(skipped) => if *skipped { 2 } else { 1 },
            Instr::BranchNotEqual => 2,
            Instr::DelayUs(_) => 0,
            _ => 1,
        }
    }

    /// Whether the instruction only spends time.
    pub fn is_padding(&self) -> (b: bool)
        ensures
            b == self.spec_is_padding(),
    {
        match self {
            Instr::Nop => true,
            Instr::Rjmp => true,
            _ => false,
        }
    }
}

/// The cycles a sequence of instructions takes, one after the other.
pub open spec fn total_cycles(code: Seq<Instr>) -> nat
    decreases code.len(),
{
    if code.len() == 0 {
        0
    } else {
        total_cycles(code.drop_last()) + code.last().spec_cycles()
    }
}

/// A single instruction takes its own cycles.
pub proof fn lemma_total_cycles_one(instr: Instr)
    ensures
        total_cycles(seq![instr]) == instr.spec_cycles(),
{
    assert(seq![instr].drop_last() =~= Seq::<Instr>::empty());
    assert(total_cycles(Seq::<Instr>::empty()) == 0);
}

/// The cycles of two sequences run back to back add up.
pub proof fn lemma_total_cycles_concat(a: Seq<Instr>, b: Seq<Instr>)
    ensures
        total_cycles(a + b) == total_cycles(a) + total_cycles(b),
    decreases b.len(),
{
    if b.len() == 0 {
        assert(a + b =~= a);
    } else {
        assert((a + b).drop_last() =~= a + b.drop_last());
        assert((a + b).last() == b.last());
        lemma_total_cycles_concat(a, b.drop_last());
    }
}

/// No instruction takes more than two cycles, so a sequence takes at most
/// twice its length.
pub proof fn lemma_total_cycles_bound(code: Seq<Instr>)
    ensures
        total_cycles(code) <= 2 * code.len(),
    decreases code.len(),
{
    if code.len() > 0 {
        lemma_total_cycles_bound(code.drop_last());
    }
}

/// How many critical sections are open after `code` has run, started with
/// none open. Each `EnterCritical` opens one, each `ExitCritical` closes one.
pub open spec fn critical_depth(code: Seq<Instr>) -> int
    decreases code.len(),
{
    if code.len() == 0 {
        0
    } else {
        critical_depth(code.drop_last()) + match code.last() {
            Instr::EnterCritical => 1int,
            Instr::ExitCritical => -1int,
            _ => 0int,
        }
    }
}

/// Whether interrupts are masked when instruction number `i` of `code`
/// starts to run.
pub open spec fn masked_at(code: Seq<Instr>, i: int) -> bool {
    critical_depth(code.take(i)) > 0
}

/// Whether no instruction of `code` opens or closes a critical section.
pub open spec fn stays_inside(code: Seq<Instr>) -> bool {
    forall|i: int|
        0 <= i < code.len() ==> #[trigger] code[i] != Instr::EnterCritical && code[i]
            != Instr::ExitCritical
}

/// A single instruction opens a critical section, closes one, or does
/// neither.
pub proof fn lemma_depth_one(instr: Instr)
    ensures
        critical_depth(seq![instr]) == match instr {
            Instr::EnterCritical => 1int,
            Instr::ExitCritical => -1int,
            _ => 0int,
        },
{
    assert(seq![instr].drop_last() =~= Seq::<Instr>::empty());
    assert(critical_depth(Seq::<Instr>::empty()) == 0);
}

/// Code that opens and closes no critical section leaves as many open as it
/// found.
pub proof fn lemma_depth_unchanged(code: Seq<Instr>)
    requires
        stays_inside(code),
    ensures
        critical_depth(code) == 0,
    decreases code.len(),
{
    if code.len() > 0 {
        assert(code.last() == code[code.len() - 1]);
        assert forall|i: int| 0 <= i < code.drop_last().len() implies #[trigger] code.drop_last()[i]
            != Instr::EnterCritical && code.drop_last()[i] != Instr::ExitCritical by {
            assert(code.drop_last()[i] == code[i]);
        }
        lemma_depth_unchanged(code.drop_last());
    }
}

/// The critical sections opened by two sequences run back to back add up.
pub proof fn lemma_depth_concat(a: Seq<Instr>, b: Seq<Instr>)
    ensures
        critical_depth(a + b) == critical_depth(a) + critical_depth(b),
    decreases b.len(),
{
    if b.len() == 0 {
        assert(a + b =~= a);
    } else {
        assert((a + b).drop_last() =~= a + b.drop_last());
        assert((a + b).last() == b.last());
        lemma_depth_concat(a, b.drop_last());
    }
}

} // verus!
