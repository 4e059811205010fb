//! What was sent can be read back.

use vstd::prelude::*;
use crate::color::{lemma_wire_bytes_len, wire_bytes, ColorOrder};
use crate::decoder::{marks_bits, pack, pack_byte, spec_classify, understood, weigh, Symbol};
use crate::driver::frame_code;
use crate::engine::{bit_of, stream_code};
use crate::laws::wire::{
    bit_mark, lemma_frame_waveform, lemma_stream_waveform, pulse_train, rest_mark,
};
use crate::ports::{lemma_masks_move_one_pin, pin_level, spec_mask_high, spec_mask_low};
use crate::scope::{waveform, Mark};
use crate::timings::PadCounts;

verus! {

/// The bits of a buffer in the order they are sent.
pub open spec fn data_bits(data: Seq<u8>) -> Seq<bool> {
    Seq::new(8 * data.len(), |k: int| bit_of(data[k / 8], (k % 8) as u8))
}

/// A receiver reads the pulse of a bit as that bit: a one bit is always high
/// for longer than a zero bit.
pub proof fn lemma_bit_mark_read(bit: bool, pads: PadCounts)
    ensures
        pads.spec_high(false) < pads.spec_high(true),
        spec_classify(bit_mark(bit, pads), pads) == if bit {
            Symbol::One
        } else {
            Symbol::Zero
        },
{
}

/// The first `m` pulses of a buffer's train read as the first `m` bits of
/// the buffer.
proof fn lemma_train_bits(data: Seq<u8>, pads: PadCounts, m: nat)
    requires
        m <= 8 * data.len(),
    ensures
        marks_bits(pulse_train(data, pads).take(m as int), pads) == data_bits(data).take(m as int),
    decreases m,
{
    let train = pulse_train(data, pads);
    if m == 0 {
        assert(data_bits(data).take(0) =~= Seq::<bool>::empty());
    } else {
        let k = m - 1;
        lemma_train_bits(data, pads, k as nat);
        let bit = bit_of(data[k / 8], (k % 8) as u8);
        lemma_bit_mark_read(bit, pads);
        assert(train.take(m as int).drop_last() =~= train.take(k));
        assert(train.take(m as int).last() == bit_mark(bit, pads));
        assert(data_bits(data).take(m as int) =~= data_bits(data).take(k).push(bit));
    }
}

/// The eight bits of a byte, packed again, are the byte.
proof fn lemma_pack_bits_of_byte(byte: u8)
    ensures
        weigh(bit_of(byte, 0), 0x80) | weigh(bit_of(byte, 1), 0x40) | weigh(bit_of(byte, 2), 0x20)
            | weigh(bit_of(byte, 3), 0x10) | weigh(bit_of(byte, 4), 0x08) | weigh(
            bit_of(byte, 5),
            0x04,
        ) | weigh(bit_of(byte, 6), 0x02) | weigh(bit_of(byte, 7), 0x01) == byte,
{
    assert((if byte & (0x80u8 >> 0u8) != 0 { 0x80u8 } else { 0u8 })
        | (if byte & (0x80u8 >> 1u8) != 0 { 0x40u8 } else { 0u8 })
        | (if byte & (0x80u8 >> 2u8) != 0 { 0x20u8 } else { 0u8 })
        | (if byte & (0x80u8 >> 3u8) != 0 { 0x10u8 } else { 0u8 })
        | (if byte & (0x80u8 >> 4u8) != 0 { 0x08u8 } else { 0u8 })
        | (if byte & (0x80u8 >> 5u8) != 0 { 0x04u8 } else { 0u8 })
        | (if byte & (0x80u8 >> 6u8) != 0 { 0x02u8 } else { 0u8 })
        | (if byte & (0x80u8 >> 7u8) != 0 { 0x01u8 } else { 0u8 }) == byte) by (bit_vector);
}

/// Packing the bits of a buffer gives the buffer back.
pub proof fn lemma_pack_data_bits(data: Seq<u8>)
    ensures
        pack(data_bits(data)) == data,
{
    let bits = data_bits(data);
    assert(bits.len() / 8 == data.len());
    assert forall|k: int| 0 <= k < data.len() implies pack_byte(bits, 8 * k) == data[k] by {
        let byte = data[k];
        assert(bits[8 * k] == bit_of(byte, 0)) by {
            assert((8 * k) / 8 == k && (8 * k) % 8 == 0);
        }
        assert(bits[8 * k + 1] == bit_of(byte, 1)) by {
            assert((8 * k + 1) / 8 == k && (8 * k + 1) % 8 == 1);
        }
        assert(bits[8 * k + 2] == bit_of(byte, 2)) by {
            assert((8 * k + 2) / 8 == k && (8 * k + 2) % 8 == 2);
        }
        assert(bits[8 * k + 3] == bit_of(byte, 3)) by {
            assert((8 * k + 3) / 8 == k && (8 * k + 3) % 8 == 3);
        }
        assert(bits[8 * k + 4] == bit_of(byte, 4)) by {
            assert((8 * k + 4) / 8 == k && (8 * k + 4) % 8 == 4);
        }
        assert(bits[8 * k + 5] == bit_of(byte, 5)) by {
            assert((8 * k + 5) / 8 == k && (8 * k + 5) % 8 == 5);
        }
        assert(bits[8 * k + 6] == bit_of(byte, 6)) by {
            assert((8 * k + 6) / 8 == k && (8 * k + 6) % 8 == 6);
        }
        assert(bits[8 * k + 7] == bit_of(byte, 7)) by {
            assert((8 * k + 7) / 8 == k && (8 * k + 7) % 8 == 7);
        }
        lemma_pack_bits_of_byte(byte);
    }
    assert(pack(bits) =~= data);
}

/// What was sent can be read back: a receiver that expects the pulses of the
/// padding in use understands everything the stream for a buffer puts on the
/// wire, finds eight bits for every byte, and packs them into the bytes of
/// the buffer, in the order they were given.
pub proof fn lemma_round_trip(data: Seq<u8>, maskhi: u8, masklo: u8, pads: PadCounts, pin: u8)
    requires
        pin_level(maskhi, pin),
        !pin_level(masklo, pin),
    ensures
        understood(waveform(stream_code(data, maskhi, masklo, pads), pin), pads),
        marks_bits(waveform(stream_code(data, maskhi, masklo, pads), pin), pads).len() == 8
            * data.len(),
        pack(marks_bits(waveform(stream_code(data, maskhi, masklo, pads), pin), pads)) == data,
{
    let train = pulse_train(data, pads);
    lemma_stream_waveform(data, maskhi, masklo, pads, pin);
    assert forall|i: int| 0 <= i < train.len() implies spec_classify(
        #[trigger] train[i],
        pads,
    ) != Symbol::Bad by {
        lemma_bit_mark_read(bit_of(data[i / 8], (i % 8) as u8), pads);
    }
    lemma_train_bits(data, pads, 8 * data.len());
    assert(train.take(train.len() as int) =~= train);
    assert(data_bits(data).take((8 * data.len()) as int) =~= data_bits(data));
    lemma_pack_data_bits(data);
}

/// A rest with the line low carries no bit and is understood.
proof fn lemma_rest_read(marks: Seq<Mark>, reset_micros: u32, pads: PadCounts)
    requires
        understood(marks, pads),
    ensures
        understood(marks.push(rest_mark(reset_micros)), pads),
        marks_bits(marks.push(rest_mark(reset_micros)), pads) == marks_bits(marks, pads),
{
    let longer = marks.push(rest_mark(reset_micros));
    assert(longer.drop_last() =~= marks);
    assert forall|i: int| 0 <= i < longer.len() implies spec_classify(
        #[trigger] longer[i],
        pads,
    ) != Symbol::Bad by {
        if i < marks.len() {
            assert(longer[i] == marks[i]);
        }
    }
}

/// A whole frame can be read back: a receiver understands what the frame
/// for a buffer of pixels puts on the wire, and packs the bits it reads into
/// the bytes of the pixels, each pixel's channels in its own order.
pub proof fn lemma_frame_round_trip<Order: ColorOrder>(
    pixels: Seq<Order>,
    port_value: u8,
    pin: u8,
    pads: PadCounts,
    reset_micros: u32,
)
    requires
        pin < 8,
    ensures
        understood(
            waveform(frame_code(wire_bytes(pixels), port_value, pin, pads, reset_micros), pin),
            pads,
        ),
        marks_bits(
            waveform(frame_code(wire_bytes(pixels), port_value, pin, pads, reset_micros), pin),
            pads,
        ).len() == 24 * pixels.len(),
        pack(
            marks_bits(
                waveform(frame_code(wire_bytes(pixels), port_value, pin, pads, reset_micros), pin),
                pads,
            ),
        ) == wire_bytes(pixels),
{
    let bytes = wire_bytes(pixels);
    let maskhi = spec_mask_high(port_value, pin);
    let masklo = spec_mask_low(port_value, pin);
    lemma_wire_bytes_len(pixels);
    lemma_masks_move_one_pin(port_value, pin, pin);
    lemma_frame_waveform(bytes, port_value, pin, pads, reset_micros);
    lemma_stream_waveform(bytes, maskhi, masklo, pads, pin);
    lemma_round_trip(bytes, maskhi, masklo, pads, pin);
    lemma_rest_read(pulse_train(bytes, pads), reset_micros, pads);
}

} // verus!
