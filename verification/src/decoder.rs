//! The receiving end: from the marks on the wire back to bytes.

use vstd::prelude::*;
use crate::scope::Mark;
use crate::timings::PadCounts;

verus! {

/// What one mark on the wire means to a receiver.
#[derive(Clone, Copy, Debug, PartialEq, Eq, Structural)]
pub enum Symbol {
    /// A pulse of the length of a bit, high as long as a zero bit is.
    Zero,
    /// A pulse of the length of a bit, high as long as a one bit is.
    One,
    /// The line resting low.
    Rest,
    /// Anything else: a pulse of another shape, or the line resting high.
    Bad,
}

/// Why a sequence of marks is not a sequence of bytes.
#[derive(Clone, Copy, Debug, PartialEq, Eq, Structural)]
pub enum DecodeError {
    /// The mark at this index, the first such, means nothing to a receiver.
    Malformed(usize),
    /// Every mark is understood, but the bits do not fill whole bytes.
    PartialByte,
}

/// What a mark means to a receiver that expects the pulses of `pads`.
pub open spec fn spec_classify(mark: Mark, pads: PadCounts) -> Symbol {
    match mark {
        Mark::Pulse(p) => if p.period == pads.spec_period() && p.high == pads.spec_high(true) {
            Symbol::One
        } else if p.period == pads.spec_period() && p.high == pads.spec_high(false) {
            Symbol::Zero
        } else {
            Symbol::Bad
        },
        Mark::Idle { high, micros } => if high {
            Symbol::Bad
        } else {
            Symbol::Rest
        },
    }
}

/// Whether a receiver understands every mark.
pub open spec fn understood(marks: Seq<Mark>, pads: PadCounts) -> bool {
    forall|i: int| 0 <= i < marks.len() ==> spec_classify(#[trigger] marks[i], pads) != Symbol::Bad
}

/// The bits a receiver reads from the marks, in order. Rests carry no bit.
pub open spec fn marks_bits(marks: Seq<Mark>, pads: PadCounts) -> Seq<bool>
    decreases marks.len(),
{
    if marks.len() == 0 {
        Seq::empty()
    } else {
        let front = marks_bits(marks.drop_last(), pads);
        match spec_classify(marks.last(), pads) {
            Symbol::One => front.push(true),
            Symbol::Zero => front.push(false),
            _ => front,
        }
    }
}

/// The value `weight` where the bit is set, zero where it is not.
pub open spec fn weigh(bit: bool, weight: u8) -> u8 {
    if bit {
        weight
    } else {
        0
    }
}

/// The byte made of the eight bits that start at `at`, highest bit first.
pub open spec fn pack_byte(bits: Seq<bool>, at: int) -> u8 {
    weigh(bits[at], 0x80) | weigh(bits[at + 1], 0x40) | weigh(bits[at + 2], 0x20) | weigh(
        bits[at + 3],
        0x10,
    ) | weigh(bits[at + 4], 0x08) | weigh(bits[at + 5], 0x04) | weigh(bits[at + 6], 0x02) | weigh(
        bits[at + 7],
        0x01,
    )
}

/// The bytes made of a sequence of bits, eight to a byte, highest bit first.
/// Bits that do not fill a byte are left out.
pub open spec fn pack(bits: Seq<bool>) -> Seq<u8> {
    Seq::new(bits.len() / 8, |k: int| pack_byte(bits, 8 * k))
}

/// What a mark means to a receiver that expects the pulses of `pads`.
pub fn classify(mark: &Mark, pads: &PadCounts) -> (symbol: Symbol)
    ensures
        symbol == spec_classify(*mark, *pads),
{
    match mark {
        Mark::Pulse(p) => {
            if p.period == pads.period() && p.high == pads.high(true) {
                Symbol::One
            } else if p.period == pads.period() && p.high == pads.high(false) {
                Symbol::Zero
            } else {
                Symbol::Bad
            }
        },
        Mark::Idle { high, micros: _ } => {
            if *high {
                Symbol::Bad
            } else {
                Symbol::Rest
            }
        },
    }
}

/// Reads the bits off the marks, or reports the first mark that is not
/// understood.
pub fn read_bits(marks: &[Mark], pads: &PadCounts) -> (r: Result<Vec<bool>, usize>)
    ensures
        match r {
            Ok(bits) => understood(marks@, *pads) && bits@ == marks_bits(marks@, *pads),
            Err(i) => i < marks@.len() && spec_classify(marks@[i as int], *pads) == Symbol::Bad
                && understood(marks@.take(i as int), *pads),
        },
{
    let mut bits: Vec<bool> = Vec::new();
    let mut i: usize = 0;
    while i < marks.len()
        invariant
            i <= marks.len(),
            understood(marks@.take(i as int), *pads),
            bits@ == marks_bits(marks@.take(i as int), *pads),
        decreases marks.len() - i,
    {
        let symbol = classify(&marks[i], pads);
        proof {
            let next = marks@.take(i + 1);
            assert(next.drop_last() =~= marks@.take(i as int));
            assert(next.last() == marks@[i as int]);
        }
        match symbol {
            Symbol::Bad => {
                return Err(i);
            },
            Symbol::One => {
                bits.push(true);
            },
            Symbol::Zero => {
                bits.push(false);
            },
            Symbol::Rest => {},
        }
        proof {
            let next = marks@.take(i + 1);
            assert forall|j: int| 0 <= j < next.len() implies spec_classify(
                #[trigger] next[j],
                *pads,
            ) != Symbol::Bad by {
                if j < i {
                    assert(next[j] == marks@.take(i as int)[j]);
                }
            }
        }
        i = i + 1;
    }
    proof {
        assert(marks@.take(marks@.len() as int) =~= marks@);
    }
    Ok(bits)
}

/// Packs bits into bytes, eight to a byte, highest bit first.
pub fn pack_bits(bits: &[bool]) -> (bytes: Vec<u8>)
    ensures
        bytes@ == pack(bits@),
{
    let count: usize = bits.len() / 8;
    let mut bytes: Vec<u8> = Vec::new();
    let mut k: usize = 0;
    while k < count
        invariant
            k <= count,
            count == bits@.len() / 8,
            bits@.len() <= usize::MAX,
            bytes@.len() == k,
            forall|m: int| 0 <= m < k ==> bytes@[m] == pack_byte(bits@, 8 * m),
        decreases count - k,
    {
        let at: usize = 8 * k;
        let byte: u8 = (if bits[at] { 0x80u8 } else { 0u8 })
            | (if bits[at + 1] { 0x40u8 } else { 0u8 })
            | (if bits[at + 2] { 0x20u8 } else { 0u8 })
            | (if bits[at + 3] { 0x10u8 } else { 0u8 })
            | (if bits[at + 4] { 0x08u8 } else { 0u8 })
            | (if bits[at + 5] { 0x04u8 } else { 0u8 })
            | (if bits[at + 6] { 0x02u8 } else { 0u8 })
            | (if bits[at + 7] { 0x01u8 } else { 0u8 });
        bytes.push(byte);
        k = k + 1;
    }
    proof {
        assert(bytes@ =~= pack(bits@));
    }
    bytes
}

/// Reads the bytes off the marks on the wire, for a receiver that expects
/// the pulses of `pads`. Every pulse must have the shape of a zero or a one
/// bit, every rest must be low, and the bits must fill whole bytes.
pub fn decode(marks: &[Mark], pads: &PadCounts) -> (r: Result<Vec<u8>, DecodeError>)
    ensures
        match r {
            Ok(bytes) => {
                &&& understood(marks@, *pads)
                &&& marks_bits(marks@, *pads).len() % 8 == 0
                &&& bytes@ == pack(marks_bits(marks@, *pads))
            },
            Err(DecodeError::Malformed(i)) => {
                &&& i < marks@.len()
                &&& spec_classify(marks@[i as int], *pads) == Symbol::Bad
                &&& understood(marks@.take(i as int), *pads)
            },
            Err(DecodeError::PartialByte) => {
                &&& understood(marks@, *pads)
                &&& marks_bits(marks@, *pads).len() % 8 != 0
            },
        },
{
    match read_bits(marks, pads) {
        Err(i) => Err(DecodeError::Malformed(i)),
        Ok(bits) => {
            if bits.len() % 8 != 0 {
                Err(DecodeError::PartialByte)
            } else {
                Ok(pack_bits(bits.as_slice()))
            }
        },
    }
}

} // verus!
