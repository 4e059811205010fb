//! What the instruction stream puts on the wire: one pulse for every bit,
//! of the width of its value, and a rest after every frame.

use vstd::prelude::*;
use crate::color::{lemma_wire_bytes_len, wire_bytes, ColorOrder};
use crate::driver::{frame_code, spec_configure};
use crate::engine::{bit_code, bit_of, bits_code, byte_code, stream_code, Phase};
use crate::laws::padding::{lemma_pads_fill_exactly, lemma_profile_rest_covers_reset};
use crate::laws::probe::{lemma_probe_concat, lemma_probe_one, lemma_probe_then_padding};
use crate::ports::{lemma_masks_move_one_pin, pin_level, spec_mask_high, spec_mask_low};
use crate::scope::{probe_after, probe_marks, waveform, Mark, Probe, Pulse};
use crate::timings::{fits_loop, CalculatedTimings, ConfigError, CycleCounts, PadCounts, Timings};
use crate::util::instr::Instr;
use crate::util::nop_block::nop_seq;
use crate::util::time::TimeVal;

verus! {

/// The mark a bit of the given value leaves on the wire.
pub open spec fn bit_mark(bit: bool, pads: PadCounts) -> Mark {
    Mark::Pulse(Pulse { high: pads.spec_high(bit) as u64, period: pads.spec_period() as u64 })
}

/// A probe that is counting a pulse whose counters are far from their limit.
spec fn counting(probe: Probe, level: bool, high: nat, period: nat) -> bool {
    probe == Probe { level, active: true, high: high as u64, period: period as u64 }
        && high <= period && period <= 0xffff_ffff
}

/// The first stage raises the pin and holds it for the first padding.
proof fn lemma_stage_pin_high(bit: bool, maskhi: u8, masklo: u8, pads: PadCounts, pin: u8)
    requires
        pin_level(maskhi, pin),
    ensures
        counting(
            probe_after(
                Probe::idle(false),
                Phase::PinHigh.spec_code(bit, maskhi, masklo, pads),
                pin,
            ),
            true,
            pads.s1 as nat,
            1 + pads.s1 as nat,
        ),
        probe_marks(
            Probe::idle(false),
            Phase::PinHigh.spec_code(bit, maskhi, masklo, pads),
            pin,
        ) == Seq::<Mark>::empty(),
{
    lemma_probe_then_padding(Probe::idle(false), Instr::Out(maskhi), pads.s1 as nat, pin);
}

/// The test of the bit takes one cycle, or two when it skips.
proof fn lemma_stage_test_bit(
    start: Probe,
    high: nat,
    period: nat,
    bit: bool,
    maskhi: u8,
    masklo: u8,
    pads: PadCounts,
    pin: u8,
)
    requires
        counting(start, true, high, period),
        period <= 0xffff,
    ensures
        counting(
            probe_after(start, Phase::TestBit.spec_code(bit, maskhi, masklo, pads), pin),
            true,
            high + if bit { 2nat } else { 1nat },
            period + if bit { 2nat } else { 1nat },
        ),
        probe_marks(start, Phase::TestBit.spec_code(bit, maskhi, masklo, pads), pin) == Seq::<
            Mark,
        >::empty(),
{
    lemma_probe_one(start, Instr::SkipIfBitSet(bit), pin);
}

/// After the test, a zero bit lowers the pin at once and a one bit leaves it
/// high; either way the byte is shifted and the second padding runs.
proof fn lemma_stage_branch(
    start: Probe,
    high: nat,
    period: nat,
    bit: bool,
    maskhi: u8,
    masklo: u8,
    pads: PadCounts,
    pin: u8,
)
    requires
        counting(start, true, high, period),
        period <= 0xffff,
        !pin_level(masklo, pin),
    ensures
        counting(
            probe_after(
                start,
                Phase::TestBit.spec_next(bit).spec_code(bit, maskhi, masklo, pads),
                pin,
            ),
            bit,
            if bit { high + 1 + pads.s2 as nat } else { high + 1 },
            if bit { period + 1 + pads.s2 as nat } else { period + 2 + pads.s2 as nat },
        ),
        probe_marks(
            start,
            Phase::TestBit.spec_next(bit).spec_code(bit, maskhi, masklo, pads),
            pin,
        ) == Seq::<Mark>::empty(),
{
    let code = Phase::TestBit.spec_next(bit).spec_code(bit, maskhi, masklo, pads);
    if bit {
        lemma_probe_then_padding(start, Instr::Lsl, pads.s2 as nat, pin);
    } else {
        let tail = seq![Instr::Lsl] + nop_seq(pads.s2 as nat);
        lemma_probe_one(start, Instr::Out(masklo), pin);
        let lowered = start.after(Instr::Out(masklo), pin);
        lemma_probe_then_padding(lowered, Instr::Lsl, pads.s2 as nat, pin);
        lemma_probe_concat(start, seq![Instr::Out(masklo)], tail, pin);
        assert(code =~= seq![Instr::Out(masklo)] + tail);
        assert(probe_marks(start, code, pin) =~= Seq::<Mark>::empty());
    }
}

/// The late store lowers the pin, and the third padding runs.
proof fn lemma_stage_pin_low_late(
    start: Probe,
    level: bool,
    high: nat,
    period: nat,
    bit: bool,
    maskhi: u8,
    masklo: u8,
    pads: PadCounts,
    pin: u8,
)
    requires
        counting(start, level, high, period),
        period <= 0xffff,
        !pin_level(masklo, pin),
    ensures
        counting(
            probe_after(start, Phase::PinLowLate.spec_code(bit, maskhi, masklo, pads), pin),
            false,
            if level { high + 1 } else { high },
            period + 1 + pads.s3 as nat,
        ),
        probe_marks(start, Phase::PinLowLate.spec_code(bit, maskhi, masklo, pads), pin) == Seq::<
            Mark,
        >::empty(),
{
    lemma_probe_then_padding(start, Instr::Out(masklo), pads.s3 as nat, pin);
}

/// Closing the loop ends the pulse and reports it.
proof fn lemma_stage_next_bit(
    start: Probe,
    high: nat,
    period: nat,
    bit: bool,
    maskhi: u8,
    masklo: u8,
    pads: PadCounts,
    pin: u8,
)
    requires
        counting(start, false, high, period),
        period <= 0xffff,
    ensures
        probe_after(start, Phase::NextBit.spec_code(bit, maskhi, masklo, pads), pin)
            == Probe::idle(false),
        probe_marks(start, Phase::NextBit.spec_code(bit, maskhi, masklo, pads), pin) == seq![
            Mark::Pulse(Pulse { high: high as u64, period: (period + 3) as u64 }),
        ],
{
    let code = Phase::NextBit.spec_code(bit, maskhi, masklo, pads);
    lemma_probe_one(start, Instr::Dec, pin);
    let counted = start.after(Instr::Dec, pin);
    lemma_probe_one(counted, Instr::BranchNotEqual, pin);
    lemma_probe_concat(start, seq![Instr::Dec], seq![Instr::BranchNotEqual], pin);
    assert(code =~= seq![Instr::Dec] + seq![Instr::BranchNotEqual]);
    assert(probe_marks(start, code, pin) =~= seq![
        Mark::Pulse(Pulse { high: high as u64, period: (period + 3) as u64 }),
    ]);
}

/// One pass of the bit loop, started on a resting line, puts exactly one
/// pulse on the wire and leaves the line resting low: the pulse is high for
/// the loop's own cycles up to the store that lowers the pin plus the padding
/// before it, and lasts the loop's own cycles plus all three paddings.
pub proof fn lemma_bit_pulse(bit: bool, maskhi: u8, masklo: u8, pads: PadCounts, pin: u8)
    requires
        pin_level(maskhi, pin),
        !pin_level(masklo, pin),
    ensures
        probe_after(Probe::idle(false), bit_code(bit, maskhi, masklo, pads), pin) == Probe::idle(
            false,
        ),
        probe_marks(Probe::idle(false), bit_code(bit, maskhi, masklo, pads), pin) == seq![
            bit_mark(bit, pads),
        ],
{
    let idle = Probe::idle(false);
    let raise = Phase::PinHigh.spec_code(bit, maskhi, masklo, pads);
    let test = Phase::TestBit.spec_code(bit, maskhi, masklo, pads);
    let branch = Phase::TestBit.spec_next(bit).spec_code(bit, maskhi, masklo, pads);
    let lower = Phase::PinLowLate.spec_code(bit, maskhi, masklo, pads);
    let close = Phase::NextBit.spec_code(bit, maskhi, masklo, pads);
    let s1 = pads.s1 as nat;
    let s2 = pads.s2 as nat;
    let s3 = pads.s3 as nat;

    lemma_stage_pin_high(bit, maskhi, masklo, pads, pin);
    let raised = probe_after(idle, raise, pin);
    lemma_stage_test_bit(raised, s1, 1 + s1, bit, maskhi, masklo, pads, pin);
    let tested = probe_after(raised, test, pin);
    let high_tested = s1 + if bit { 2nat } else { 1nat };
    let span_tested = 1 + s1 + if bit { 2nat } else { 1nat };
    lemma_stage_branch(tested, high_tested, span_tested, bit, maskhi, masklo, pads, pin);
    let branched = probe_after(tested, branch, pin);
    let high_branched = if bit { high_tested + 1 + s2 } else { high_tested + 1 };
    let span_branched = 4 + s1 + s2;
    lemma_stage_pin_low_late(branched, bit, high_branched, span_branched, bit, maskhi, masklo, pads, pin);
    let lowered = probe_after(branched, lower, pin);
    let high_lowered = if bit { high_branched + 1 } else { high_branched };
    let span_lowered = span_branched + 1 + s3;
    lemma_stage_next_bit(lowered, high_lowered, span_lowered, bit, maskhi, masklo, pads, pin);

    lemma_probe_concat(idle, raise, test, pin);
    lemma_probe_concat(idle, raise + test, branch, pin);
    lemma_probe_concat(idle, raise + test + branch, lower, pin);
    lemma_probe_concat(idle, raise + test + branch + lower, close, pin);
    assert(high_lowered == pads.spec_high(bit));
    assert(span_lowered + 3 == pads.spec_period());
    assert(probe_marks(idle, raise + test + branch + lower + close, pin) =~= seq![bit_mark(bit, pads)]);
}

/// The marks the first `n` bits of a byte leave on the wire.
pub open spec fn bits_marks(byte: u8, n: nat, pads: PadCounts) -> Seq<Mark> {
    Seq::new(n, |j: int| bit_mark(bit_of(byte, j as u8), pads))
}

/// The marks a buffer leaves on the wire: one pulse for every bit of every
/// byte, in the order of the bytes and from the highest bit of each down.
pub open spec fn pulse_train(data: Seq<u8>, pads: PadCounts) -> Seq<Mark> {
    Seq::new(8 * data.len(), |k: int| bit_mark(bit_of(data[k / 8], (k % 8) as u8), pads))
}

/// The first `n` bits of a byte put `n` pulses on the wire, one for each bit.
proof fn lemma_bits_pulses(byte: u8, n: nat, maskhi: u8, masklo: u8, pads: PadCounts, pin: u8)
    requires
        n <= 8,
        pin_level(maskhi, pin),
        !pin_level(masklo, pin),
    ensures
        probe_after(Probe::idle(false), bits_code(byte, n, maskhi, masklo, pads), pin)
            == Probe::idle(false),
        probe_marks(Probe::idle(false), bits_code(byte, n, maskhi, masklo, pads), pin)
            == bits_marks(byte, n, pads),
    decreases n,
{
    let idle = Probe::idle(false);
    if n == 0 {
        assert(bits_marks(byte, 0, pads) =~= Seq::<Mark>::empty());
    } else {
        let before = bits_code(byte, (n - 1) as nat, maskhi, masklo, pads);
        let bit = bit_of(byte, (n - 1) as u8);
        lemma_bits_pulses(byte, (n - 1) as nat, maskhi, masklo, pads, pin);
        lemma_bit_pulse(bit, maskhi, masklo, pads, pin);
        lemma_probe_concat(idle, before, bit_code(bit, maskhi, masklo, pads), pin);
        assert(bits_marks(byte, n, pads) =~= bits_marks(byte, (n - 1) as nat, pads) + seq![
            bit_mark(bit, pads),
        ]);
    }
}

/// A byte puts eight pulses on the wire.
proof fn lemma_byte_pulses(byte: u8, maskhi: u8, masklo: u8, pads: PadCounts, pin: u8)
    requires
        pin_level(maskhi, pin),
        !pin_level(masklo, pin),
    ensures
        probe_after(Probe::idle(false), byte_code(byte, maskhi, masklo, pads), pin)
            == Probe::idle(false),
        probe_marks(Probe::idle(false), byte_code(byte, maskhi, masklo, pads), pin)
            == bits_marks(byte, 8, pads),
{
    let idle = Probe::idle(false);
    let load = seq![Instr::LdImmediate(8)];
    let bits = bits_code(byte, 8, maskhi, masklo, pads);
    lemma_probe_one(idle, Instr::LdImmediate(8), pin);
    lemma_bits_pulses(byte, 8, maskhi, masklo, pads, pin);
    lemma_probe_concat(idle, load, bits, pin);
    assert(Seq::<Mark>::empty() + bits_marks(byte, 8, pads) =~= bits_marks(byte, 8, pads));
}

/// The stream that sends a buffer puts on the wire eight pulses for every
/// byte and nothing else. Each pulse is high for the loop's own cycles of
/// its bit value plus the padding before the store that lowers the pin, each
/// lasts the loop's own cycles plus all three paddings, and the line rests
/// low when the stream ends.
pub proof fn lemma_stream_waveform(
    data: Seq<u8>,
    maskhi: u8,
    masklo: u8,
    pads: PadCounts,
    pin: u8,
)
    requires
        pin_level(maskhi, pin),
        !pin_level(masklo, pin),
    ensures
        waveform(stream_code(data, maskhi, masklo, pads), pin) == pulse_train(data, pads),
        waveform(stream_code(data, maskhi, masklo, pads), pin).len() == 8 * data.len(),
        probe_after(Probe::idle(false), stream_code(data, maskhi, masklo, pads), pin)
            == Probe::idle(false),
    decreases data.len(),
{
    let idle = Probe::idle(false);
    if data.len() == 0 {
        assert(pulse_train(data, pads) =~= Seq::<Mark>::empty());
    } else {
        let front = data.drop_last();
        let byte = data.last();
        lemma_stream_waveform(front, maskhi, masklo, pads, pin);
        lemma_byte_pulses(byte, maskhi, masklo, pads, pin);
        lemma_probe_concat(
            idle,
            stream_code(front, maskhi, masklo, pads),
            byte_code(byte, maskhi, masklo, pads),
            pin,
        );
        let joined = pulse_train(front, pads) + bits_marks(byte, 8, pads);
        assert(joined.len() == pulse_train(data, pads).len());
        assert forall|k: int| 0 <= k < joined.len() implies joined[k] == pulse_train(
            data,
            pads,
        )[k] by {
            if k < 8 * front.len() {
                assert(k / 8 < front.len());
                assert(front[k / 8] == data[k / 8]);
            } else {
                let j = k - 8 * front.len();
                assert(k / 8 == front.len());
                assert(k % 8 == j);
            }
        }
        assert(joined =~= pulse_train(data, pads));
    }
}

/// Where the loop's own cycles leave room for every duration, the pulse of
/// a bit is high for exactly the cycles of its value and lasts exactly the
/// cycles of a bit.
pub proof fn lemma_pulse_matches_cycle_counts(c: CycleCounts, bit: bool)
    requires
        fits_loop(c),
    ensures
        bit_mark(bit, PadCounts::spec_derive(c)) == Mark::Pulse(
            Pulse {
                high: if bit {
                    c.high_for_1 as u64
                } else {
                    c.high_for_0 as u64
                },
                period: c.total as u64,
            },
        ),
{
    lemma_pads_fill_exactly(c);
}

/// A buffer of pixels goes out as `8 * 3` pulses for every pixel, one for
/// each bit of its three bytes in the order of its channels.
pub proof fn lemma_pixel_pulses<Order: ColorOrder>(pixels: Seq<Order>, pads: PadCounts)
    ensures
        pulse_train(wire_bytes(pixels), pads).len() == 24 * pixels.len(),
        forall|k: int|
            0 <= k < 24 * pixels.len() ==> #[trigger] pulse_train(wire_bytes(pixels), pads)[k]
                == bit_mark(bit_of(wire_bytes(pixels)[k / 8], (k % 8) as u8), pads),
{
    lemma_wire_bytes_len(pixels);
    assert(wire_bytes(pixels).len() == 3 * pixels.len());
    assert(pulse_train(wire_bytes(pixels), pads).len() == 8 * wire_bytes(pixels).len());
}

/// The rest a frame ends with.
pub open spec fn rest_mark(reset_micros: u32) -> Mark {
    Mark::Idle { high: false, micros: reset_micros }
}

/// A frame puts on the wire the pulses of its bytes, then one rest of
/// `reset_micros` microseconds with the line low, and leaves the line low.
/// What the read of the port returned changes nothing on the pin.
pub proof fn lemma_frame_waveform(
    bytes: Seq<u8>,
    port_value: u8,
    pin: u8,
    pads: PadCounts,
    reset_micros: u32,
)
    requires
        pin < 8,
    ensures
        waveform(frame_code(bytes, port_value, pin, pads, reset_micros), pin) == pulse_train(
            bytes,
            pads,
        ).push(rest_mark(reset_micros)),
        probe_after(
            Probe::idle(false),
            frame_code(bytes, port_value, pin, pads, reset_micros),
            pin,
        ) == Probe::idle(false),
{
    let idle = Probe::idle(false);
    let maskhi = spec_mask_high(port_value, pin);
    let masklo = spec_mask_low(port_value, pin);
    let head = seq![Instr::EnterCritical, Instr::In(port_value)];
    let body = stream_code(bytes, maskhi, masklo, pads);
    let tail = seq![Instr::ExitCritical, Instr::DelayUs(reset_micros)];
    lemma_masks_move_one_pin(port_value, pin, pin);
    lemma_stream_waveform(bytes, maskhi, masklo, pads, pin);

    lemma_probe_one(idle, Instr::EnterCritical, pin);
    lemma_probe_one(idle, Instr::In(port_value), pin);
    lemma_probe_concat(idle, seq![Instr::EnterCritical], seq![Instr::In(port_value)], pin);
    assert(head =~= seq![Instr::EnterCritical] + seq![Instr::In(port_value)]);
    assert(probe_marks(idle, head, pin) =~= Seq::<Mark>::empty());

    lemma_probe_one(idle, Instr::ExitCritical, pin);
    lemma_probe_one(idle, Instr::DelayUs(reset_micros), pin);
    lemma_probe_concat(idle, seq![Instr::ExitCritical], seq![Instr::DelayUs(reset_micros)], pin);
    assert(tail =~= seq![Instr::ExitCritical] + seq![Instr::DelayUs(reset_micros)]);
    assert(probe_marks(idle, tail, pin) =~= seq![rest_mark(reset_micros)]);

    lemma_probe_concat(idle, head, body, pin);
    lemma_probe_concat(idle, head + body, tail, pin);
    assert(probe_marks(idle, head + body + tail, pin) =~= pulse_train(bytes, pads).push(
        rest_mark(reset_micros),
    ));
}

/// What a frame of pixels looks like on the wire when the loop's own cycles
/// leave room for every duration: `8 * 3` pulses for every pixel, each high
/// for exactly the cycles of its bit and each lasting exactly the cycles of
/// a bit, then the rest.
pub proof fn lemma_frame_pulses<Order: ColorOrder>(
    pixels: Seq<Order>,
    port_value: u8,
    pin: u8,
    c: CycleCounts,
    reset_micros: u32,
)
    requires
        pin < 8,
        fits_loop(c),
    ensures
        waveform(
            frame_code(
                wire_bytes(pixels),
                port_value,
                pin,
                PadCounts::spec_derive(c),
                reset_micros,
            ),
            pin,
        ) == pulse_train(wire_bytes(pixels), PadCounts::spec_derive(c)).push(
            rest_mark(reset_micros),
        ),
        pulse_train(wire_bytes(pixels), PadCounts::spec_derive(c)).len() == 24 * pixels.len(),
        forall|k: int|
            0 <= k < 24 * pixels.len() ==> #[trigger] pulse_train(
                wire_bytes(pixels),
                PadCounts::spec_derive(c),
            )[k] == Mark::Pulse(
                Pulse {
                    high: if bit_of(wire_bytes(pixels)[k / 8], (k % 8) as u8) {
                        c.high_for_1 as u64
                    } else {
                        c.high_for_0 as u64
                    },
                    period: c.total as u64,
                },
            ),
{
    let pads = PadCounts::spec_derive(c);
    lemma_frame_waveform(wire_bytes(pixels), port_value, pin, pads, reset_micros);
    lemma_pixel_pulses(pixels, pads);
    assert forall|k: int| 0 <= k < 24 * pixels.len() implies #[trigger] pulse_train(
        wire_bytes(pixels),
        pads,
    )[k] == Mark::Pulse(
        Pulse {
            high: if bit_of(wire_bytes(pixels)[k / 8], (k % 8) as u8) {
                c.high_for_1 as u64
            } else {
                c.high_for_0 as u64
            },
            period: c.total as u64,
        },
    ) by {
        lemma_pulse_matches_cycle_counts(c, bit_of(wire_bytes(pixels)[k / 8], (k % 8) as u8));
    }
}

/// Sending the same buffer twice puts the same pulses on the wire twice,
/// and between the two trains the line rests low for a wait that is not
/// shorter than the reset time of the profile. The two reads of the port may
/// return different bytes.
pub proof fn lemma_write_twice<Ts: Timings>(
    bytes: Seq<u8>,
    first_read: u8,
    second_read: u8,
    pin: u8,
    clock_hz: u32,
    pads: PadCounts,
    reset_micros: u32,
)
    requires
        spec_configure::<Ts>(pin, clock_hz) == Ok::<(PadCounts, u32), ConfigError>(
            (pads, reset_micros),
        ),
    ensures
        waveform(
            frame_code(bytes, first_read, pin, pads, reset_micros) + frame_code(
                bytes,
                second_read,
                pin,
                pads,
                reset_micros,
            ),
            pin,
        ) == pulse_train(bytes, pads).push(rest_mark(reset_micros)) + pulse_train(bytes, pads).push(
            rest_mark(reset_micros),
        ),
        reset_micros * 1000 >= <Ts::Rst as TimeVal>::spec_nanos(),
{
    let first = frame_code(bytes, first_read, pin, pads, reset_micros);
    let second = frame_code(bytes, second_read, pin, pads, reset_micros);
    lemma_frame_waveform(bytes, first_read, pin, pads, reset_micros);
    lemma_frame_waveform(bytes, second_read, pin, pads, reset_micros);
    lemma_probe_concat(Probe::idle(false), first, second, pin);
    lemma_profile_rest_covers_reset::<Ts>(reset_micros);
}

} // verus!
