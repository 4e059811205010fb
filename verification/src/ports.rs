//! A pin as one bit of a byte-wide port register.

use vstd::prelude::*;

verus! {

/// A pin whose place in its port is known from the type.
pub trait StaticPin {
    /// Which bit of the port register drives the pin, counted from the
    /// lowest.
    const PIN_BIT_INDEX: u8;
}

/// Pin number `INDEX` of a port, for code that knows a pin by nothing but its
/// place: a simulation, or a board whose pins are not in any table.
#[derive(Clone, Copy, Debug, PartialEq, Eq)]
pub struct PinAt<const INDEX: u8> {}

impl<const INDEX: u8> StaticPin for PinAt<INDEX> {
    const PIN_BIT_INDEX: u8 = INDEX;
}

/// The place of `PinAt<INDEX>` in its port is `INDEX`.
pub proof fn lemma_pin_at<const INDEX: u8>()
    ensures
        <PinAt<INDEX> as StaticPin>::PIN_BIT_INDEX == INDEX,
{
}

/// The level that pin number `pin` takes when `value` is stored to its port.
/// A port has eight pins: any other number names a pin that is never high.
pub open spec fn pin_level(value: u8, pin: u8) -> bool {
    pin < 8 && (value >> pin) & 1 == 1
}

/// The byte that differs from `port_value` at most in bit `pin`, which is set.
pub open spec fn spec_mask_high(port_value: u8, pin: u8) -> u8 {
    port_value | (1u8 << pin)
}

/// The byte that differs from `port_value` at most in bit `pin`, which is clear.
pub open spec fn spec_mask_low(port_value: u8, pin: u8) -> u8 {
    port_value & !(1u8 << pin)
}

/// The level that pin number `pin` takes when `value` is stored to its port.
pub fn level_of(value: u8, pin: u8) -> (level: bool)
    ensures
        level == pin_level(value, pin),
{
    pin < 8 && (value >> pin) & 1 == 1
}

/// From the byte last read from the port, the two bytes to store to it: the
/// first drives the pin high, the second drives it low, and both leave every
/// other pin of the port as it was read.
pub fn pin_masks(port_value: u8, pin: u8) -> (masks: (u8, u8))
    requires
        pin < 8,
    ensures
        masks.0 == spec_mask_high(port_value, pin),
        masks.1 == spec_mask_low(port_value, pin),
{
    let maskhi = port_value | (1u8 << pin);
    let masklo = port_value & !(1u8 << pin);
    (maskhi, masklo)
}

/// Storing the first mask raises the pin, storing the second lowers it, and
/// neither changes the level of any other pin of the port.
pub proof fn lemma_masks_move_one_pin(port_value: u8, pin: u8, other: u8)
    requires
        pin < 8,
    ensures
        pin_level(spec_mask_high(port_value, pin), pin),
        !pin_level(spec_mask_low(port_value, pin), pin),
        other != pin ==> pin_level(spec_mask_high(port_value, pin), other) == pin_level(
            port_value,
            other,
        ),
        other != pin ==> pin_level(spec_mask_low(port_value, pin), other) == pin_level(
            port_value,
            other,
        ),
{
    assert(((port_value | (1u8 << pin)) >> pin) & 1 == 1) by (bit_vector)
        requires
            pin < 8,
    ;
    assert(((port_value & !(1u8 << pin)) >> pin) & 1 == 0) by (bit_vector)
        requires
            pin < 8,
    ;
    if other != pin && other < 8 {
        assert(((port_value | (1u8 << pin)) >> other) & 1 == (port_value >> other) & 1)
            by (bit_vector)
            requires
                pin < 8,
                other < 8,
                other != pin,
        ;
        assert(((port_value & !(1u8 << pin)) >> other) & 1 == (port_value >> other) & 1)
            by (bit_vector)
            requires
                pin < 8,
                other < 8,
                other != pin,
        ;
    }
}

} // verus!
