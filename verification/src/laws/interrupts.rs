//! A frame runs with interrupts masked and rests with them restored.

use vstd::prelude::*;
use crate::driver::frame_code;
use crate::engine::{bit_code, bit_of, bits_code, byte_code, stream_code, Phase};
use crate::ports::{spec_mask_high, spec_mask_low};
use crate::timings::PadCounts;
use crate::util::instr::{
    critical_depth, lemma_depth_concat, lemma_depth_one, lemma_depth_unchanged, masked_at,
    stays_inside, Instr,
};
use crate::util::nop_block::nop_seq;

verus! {

/// Both sequences open and close no critical section, so neither does one
/// run after the other.
proof fn lemma_stays_inside_concat(a: Seq<Instr>, b: Seq<Instr>)
    requires
        stays_inside(a),
        stays_inside(b),
    ensures
        stays_inside(a + b),
{
    assert forall|i: int| 0 <= i < (a + b).len() implies #[trigger] (a + b)[i]
        != Instr::EnterCritical && (a + b)[i] != Instr::ExitCritical by {
        if i < a.len() {
            assert((a + b)[i] == a[i]);
        } else {
            assert((a + b)[i] == b[i - a.len()]);
        }
    }
}

/// Padding opens and closes no critical section.
proof fn lemma_padding_stays_inside(n: nat)
    ensures
        stays_inside(nop_seq(n)),
    decreases n,
{
    if n >= 2 {
        lemma_padding_stays_inside((n - 2) as nat);
        lemma_stays_inside_concat(seq![Instr::Rjmp], nop_seq((n - 2) as nat));
    }
}

/// The instructions of one bit open and close no critical section.
proof fn lemma_bit_stays_inside(bit: bool, maskhi: u8, masklo: u8, pads: PadCounts)
    ensures
        stays_inside(bit_code(bit, maskhi, masklo, pads)),
{
    let raise = Phase::PinHigh.spec_code(bit, maskhi, masklo, pads);
    let test = Phase::TestBit.spec_code(bit, maskhi, masklo, pads);
    let branch = Phase::TestBit.spec_next(bit).spec_code(bit, maskhi, masklo, pads);
    let lower = Phase::PinLowLate.spec_code(bit, maskhi, masklo, pads);
    let close = Phase::NextBit.spec_code(bit, maskhi, masklo, pads);
    lemma_padding_stays_inside(pads.s1 as nat);
    lemma_padding_stays_inside(pads.s2 as nat);
    lemma_padding_stays_inside(pads.s3 as nat);
    lemma_stays_inside_concat(seq![Instr::Out(maskhi)], nop_seq(pads.s1 as nat));
    if bit {
        lemma_stays_inside_concat(seq![Instr::Lsl], nop_seq(pads.s2 as nat));
    } else {
        lemma_stays_inside_concat(seq![Instr::Out(masklo), Instr::Lsl], nop_seq(pads.s2 as nat));
    }
    lemma_stays_inside_concat(seq![Instr::Out(masklo)], nop_seq(pads.s3 as nat));
    lemma_stays_inside_concat(raise, test);
    lemma_stays_inside_concat(raise + test, branch);
    lemma_stays_inside_concat(raise + test + branch, lower);
    lemma_stays_inside_concat(raise + test + branch + lower, close);
}

/// The instructions of the first `n` bits of a byte open and close no
/// critical section.
proof fn lemma_bits_stay_inside(byte: u8, n: nat, maskhi: u8, masklo: u8, pads: PadCounts)
    ensures
        stays_inside(bits_code(byte, n, maskhi, masklo, pads)),
    decreases n,
{
    if n > 0 {
        lemma_bits_stay_inside(byte, (n - 1) as nat, maskhi, masklo, pads);
        lemma_bit_stays_inside(bit_of(byte, (n - 1) as u8), maskhi, masklo, pads);
        lemma_stays_inside_concat(
            bits_code(byte, (n - 1) as nat, maskhi, masklo, pads),
            bit_code(bit_of(byte, (n - 1) as u8), maskhi, masklo, pads),
        );
    }
}

/// The stream that sends a buffer opens and closes no critical section: it
/// runs as a whole inside the one it is started in.
pub proof fn lemma_stream_stays_inside(data: Seq<u8>, maskhi: u8, masklo: u8, pads: PadCounts)
    ensures
        stays_inside(stream_code(data, maskhi, masklo, pads)),
    decreases data.len(),
{
    if data.len() > 0 {
        lemma_stream_stays_inside(data.drop_last(), maskhi, masklo, pads);
        lemma_bits_stay_inside(data.last(), 8, maskhi, masklo, pads);
        lemma_stays_inside_concat(
            seq![Instr::LdImmediate(8)],
            bits_code(data.last(), 8, maskhi, masklo, pads),
        );
        lemma_stays_inside_concat(
            stream_code(data.drop_last(), maskhi, masklo, pads),
            byte_code(data.last(), maskhi, masklo, pads),
        );
    }
}

/// A frame masks interrupts before it touches the port and restores them
/// before it rests: the read of the port, every instruction of the stream
/// and the restoring itself run with interrupts masked, the wait for the
/// reset time runs with interrupts as they were found, and no critical
/// section is left open.
pub proof fn lemma_frame_masks_interrupts(
    bytes: Seq<u8>,
    port_value: u8,
    pin: u8,
    pads: PadCounts,
    reset_micros: u32,
)
    ensures
        forall|i: int|
            1 <= i < frame_code(bytes, port_value, pin, pads, reset_micros).len() - 1
                ==> #[trigger] masked_at(
                frame_code(bytes, port_value, pin, pads, reset_micros),
                i,
            ),
        !masked_at(
            frame_code(bytes, port_value, pin, pads, reset_micros),
            frame_code(bytes, port_value, pin, pads, reset_micros).len() - 1,
        ),
        frame_code(bytes, port_value, pin, pads, reset_micros).last() == Instr::DelayUs(
            reset_micros,
        ),
        critical_depth(frame_code(bytes, port_value, pin, pads, reset_micros)) == 0,
{
    let frame = frame_code(bytes, port_value, pin, pads, reset_micros);
    let head = seq![Instr::EnterCritical];
    let body = seq![Instr::In(port_value)] + stream_code(
        bytes,
        spec_mask_high(port_value, pin),
        spec_mask_low(port_value, pin),
        pads,
    );
    let exit = seq![Instr::ExitCritical];
    let rest = seq![Instr::DelayUs(reset_micros)];
    assert(frame =~= head + body + exit + rest);
    lemma_stream_stays_inside(
        bytes,
        spec_mask_high(port_value, pin),
        spec_mask_low(port_value, pin),
        pads,
    );
    lemma_stays_inside_concat(
        seq![Instr::In(port_value)],
        stream_code(bytes, spec_mask_high(port_value, pin), spec_mask_low(port_value, pin), pads),
    );
    lemma_depth_one(Instr::EnterCritical);
    lemma_depth_one(Instr::ExitCritical);
    lemma_depth_one(Instr::DelayUs(reset_micros));
    assert forall|i: int| 1 <= i < frame.len() - 1 implies #[trigger] masked_at(frame, i) by {
        let inside = body.take(i - 1);
        assert(frame.take(i) =~= head + inside);
        assert forall|j: int| 0 <= j < inside.len() implies #[trigger] inside[j]
            != Instr::EnterCritical && inside[j] != Instr::ExitCritical by {
            assert(inside[j] == body[j]);
        }
        lemma_depth_unchanged(inside);
        lemma_depth_concat(head, inside);
    }
    lemma_depth_unchanged(body);
    lemma_depth_concat(head, body);
    lemma_depth_concat(head + body, exit);
    lemma_depth_concat(head + body + exit, rest);
    assert(frame.take(frame.len() - 1) =~= head + body + exit);
}

} // verus!
