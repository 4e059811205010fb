//! The transmission loop: for every bit of every byte, one pass through a
//! fixed sequence of stages, laid out as the instructions it executes.

use vstd::prelude::*;
use crate::timings::PadCounts;
use crate::util::instr::Instr;
use crate::util::nop_block::{emit_nops, nop_seq};

verus! {

/// The stages one bit goes through.
#[derive(Clone, Copy, Debug, PartialEq, Eq, Structural)]
pub enum Phase {
    /// The pin is driven high and held for the first padding.
    PinHigh,
    /// The top bit of the byte is tested.
    TestBit,
    /// The bit is zero: the pin is driven low at once.
    PinLowEarly,
    /// The bit is one: the early store is skipped and the pin stays high.
    ContinueHigh,
    /// The pin is driven low, which ends the pulse of a one bit.
    PinLowLate,
    /// The bit counter is decremented and the loop is closed.
    NextBit,
}

impl Phase {
    /// The stage that follows this one when the bit being sent is `bit`.
    /// After `NextBit` the next bit starts over at `PinHigh`.
    pub open spec fn spec_next(self, bit: bool) -> Phase {
        match self {
            Phase::PinHigh => Phase::TestBit,
            Phase::TestBit => if bit {
                Phase::ContinueHigh
            } else {
                Phase::PinLowEarly
            },
            Phase::PinLowEarly => Phase::PinLowLate,
            Phase::ContinueHigh => Phase::PinLowLate,
            Phase::PinLowLate => Phase::NextBit,
            Phase::NextBit => Phase::PinHigh,
        }
    }

    /// The instructions executed in this stage. The shift of the byte and the
    /// second padding belong to the stage that follows the test.
    pub open spec fn spec_code(self, bit: bool, maskhi: u8, masklo: u8, pads: PadCounts) -> Seq<
        Instr,
    > {
        match self {
            Phase::PinHigh => seq![Instr::Out(maskhi)] + nop_seq(pads.s1 as nat),
            Phase::TestBit => seq![Instr::SkipIfBitSet(bit)],
            Phase::PinLowEarly => seq![Instr::Out(masklo), Instr::Lsl] + nop_seq(pads.s2 as nat),
            Phase::ContinueHigh => seq![Instr::Lsl] + nop_seq(pads.s2 as nat),
            Phase::PinLowLate => seq![Instr::Out(masklo)] + nop_seq(pads.s3 as nat),
            Phase::NextBit => seq![Instr::Dec, Instr::BranchNotEqual],
        }
    }

    /// The stage that follows this one when the bit being sent is `bit`.
    pub fn next(&self, bit: bool) -> (phase: Phase)
        ensures
            phase == self.spec_next(bit),
    {
        match self {
            Phase::PinHigh => Phase::TestBit,
            Phase::TestBit => if bit {
                Phase::ContinueHigh
            } else {
                Phase::PinLowEarly
            },
            Phase::PinLowEarly => Phase::PinLowLate,
            Phase::ContinueHigh => Phase::PinLowLate,
            Phase::PinLowLate => Phase::NextBit,
            Phase::NextBit => Phase::PinHigh,
        }
    }

    /// Appends the instructions of this stage to `code`.
    pub fn emit(&self, code: &mut Vec<Instr>, bit: bool, maskhi: u8, masklo: u8, pads: &PadCounts)
        ensures
            final(code)@ == old(code)@ + self.spec_code(bit, maskhi, masklo, *pads),
    {
        match self {
            Phase::PinHigh => {
                code.push(Instr::Out(maskhi));
                emit_nops(code, pads.s1);
            },
            Phase::TestBit => {
                code.push(Instr::SkipIfBitSet(bit));
            },
            Phase::PinLowEarly => {
                code.push(Instr::Out(masklo));
                code.push(Instr::Lsl);
                emit_nops(code, pads.s2);
            },
            Phase::ContinueHigh => {
                code.push(Instr::Lsl);
                emit_nops(code, pads.s2);
            },
            Phase::PinLowLate => {
                code.push(Instr::Out(masklo));
                emit_nops(code, pads.s3);
            },
            Phase::NextBit => {
                code.push(Instr::Dec);
                code.push(Instr::BranchNotEqual);
            },
        }
        proof {
            assert(code@ =~= old(code)@ + self.spec_code(bit, maskhi, masklo, *pads));
        }
    }
}

/// The instructions executed for one bit: the stages from `PinHigh` to
/// `NextBit`, taking at `TestBit` the branch of the bit's value.
pub open spec fn bit_code(bit: bool, maskhi: u8, masklo: u8, pads: PadCounts) -> Seq<Instr> {
    Phase::PinHigh.spec_code(bit, maskhi, masklo, pads) + Phase::TestBit.spec_code(
        bit,
        maskhi,
        masklo,
        pads,
    ) + Phase::TestBit.spec_next(bit).spec_code(bit, maskhi, masklo, pads)
        + Phase::PinLowLate.spec_code(bit, maskhi, masklo, pads) + Phase::NextBit.spec_code(
        bit,
        maskhi,
        masklo,
        pads,
    )
}

/// Bit number `j` of a byte in the order of sending: the highest bit is
/// number 0.
pub open spec fn bit_of(byte: u8, j: u8) -> bool {
    byte & (0x80u8 >> j) != 0
}

/// The instructions executed for the first `n` bits of a byte.
pub open spec fn bits_code(byte: u8, n: nat, maskhi: u8, masklo: u8, pads: PadCounts) -> Seq<Instr>
    decreases n,
{
    if n == 0 {
        Seq::empty()
    } else {
        bits_code(byte, (n - 1) as nat, maskhi, masklo, pads) + bit_code(
            bit_of(byte, (n - 1) as u8),
            maskhi,
            masklo,
            pads,
        )
    }
}

/// The instructions executed for one byte: the bit counter is loaded with 8,
/// then the eight bits go out, highest first.
pub open spec fn byte_code(byte: u8, maskhi: u8, masklo: u8, pads: PadCounts) -> Seq<Instr> {
    seq![Instr::LdImmediate(8)] + bits_code(byte, 8, maskhi, masklo, pads)
}

/// The instructions executed for a buffer: byte after byte in the order given.
pub open spec fn stream_code(data: Seq<u8>, maskhi: u8, masklo: u8, pads: PadCounts) -> Seq<Instr>
    decreases data.len(),
{
    if data.len() == 0 {
        Seq::empty()
    } else {
        stream_code(data.drop_last(), maskhi, masklo, pads) + byte_code(
            data.last(),
            maskhi,
            masklo,
            pads,
        )
    }
}

/// Appends the instructions for one bit to `code`.
pub fn emit_bit(code: &mut Vec<Instr>, bit: bool, maskhi: u8, masklo: u8, pads: &PadCounts)
    ensures
        final(code)@ == old(code)@ + bit_code(bit, maskhi, masklo, *pads),
{
    Phase::PinHigh.emit(code, bit, maskhi, masklo, pads);
    let test = Phase::TestBit;
    test.emit(code, bit, maskhi, masklo, pads);
    let branch = test.next(bit);
    branch.emit(code, bit, maskhi, masklo, pads);
    let late = branch.next(bit);
    late.emit(code, bit, maskhi, masklo, pads);
    let last = late.next(bit);
    last.emit(code, bit, maskhi, masklo, pads);
    proof {
        assert(code@ =~= old(code)@ + bit_code(bit, maskhi, masklo, *pads));
    }
}

/// Lays out the instructions that send `data` over the pin: `maskhi` is
/// stored to the port to raise the pin, `masklo` to lower it, and `pads`
/// gives the padding of the three stages.
pub fn ws2812_write(data: &[u8], maskhi: u8, masklo: u8, pads: &PadCounts) -> (code: Vec<Instr>)
    ensures
        code@ == stream_code(data@, maskhi, masklo, *pads),
{
    let mut code: Vec<Instr> = Vec::new();
    let mut k: usize = 0;
    while k < data.len()
        invariant
            k <= data.len(),
            code@ == stream_code(data@.take(k as int), maskhi, masklo, *pads),
        decreases data.len() - k,
    {
        let byte = data[k];
        let ghost before = code@;
        let mut curbyte: u8 = byte;
        let mut i: u8 = 8;
        code.push(Instr::LdImmediate(8));
        proof {
            assert(code@ =~= before + seq![Instr::LdImmediate(8)] + bits_code(
                byte,
                0,
                maskhi,
                masklo,
                *pads,
            ));
            assert(byte << 0u8 == byte) by (bit_vector);
        }
        while i > 0
            invariant
                i <= 8,
                i > 0 ==> curbyte == byte << ((8 - i) as u8),
                code@ == before + seq![Instr::LdImmediate(8)] + bits_code(
                    byte,
                    (8 - i) as nat,
                    maskhi,
                    masklo,
                    *pads,
                ),
            decreases i,
        {
            let ghost j: u8 = (8 - i) as u8;
            let ghost sent = code@;
            let bit = curbyte & 0x80 != 0;
            proof {
                assert(((byte << j) & 0x80u8 != 0) == (byte & (0x80u8 >> j) != 0)) by (bit_vector)
                    requires
                        j < 8,
                ;
            }
            emit_bit(&mut code, bit, maskhi, masklo, pads);
            curbyte = curbyte << 1;
            i = i - 1;
            proof {
                if j < 7 {
                    assert((byte << j) << 1u8 == byte << ((j + 1) as u8)) by (bit_vector)
                        requires
                            j < 7,
                    ;
                }
                assert(code@ =~= before + seq![Instr::LdImmediate(8)] + bits_code(
                    byte,
                    (j + 1) as nat,
                    maskhi,
                    masklo,
                    *pads,
                ));
            }
        }
        proof {
            let next = data@.take(k + 1);
            assert(next.drop_last() =~= data@.take(k as int));
            assert(next.last() == byte);
            assert(code@ =~= before + byte_code(byte, maskhi, masklo, *pads));
        }
        k = k + 1;
    }
    proof {
        assert(data@.take(data@.len() as int) =~= data@);
    }
    code
}

} // verus!
