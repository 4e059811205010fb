//! The driver: one pin, one timing profile, one channel order, and a single
//! entry point that lays out a whole frame.

use vstd::prelude::*;
use std::marker::PhantomData;
use crate::color::{pixel_bytes, wire_bytes, ColorOrder};
use crate::engine::{stream_code, ws2812_write};
use crate::laws::padding::lemma_profile_rest_covers_reset;
use crate::ports::{pin_masks, spec_mask_high, spec_mask_low, StaticPin};
use crate::timings::{CalculatedTimings, ConfigError, DefaultTimings, PadCounts, Timings};
use crate::util::instr::Instr;
use crate::util::time::TimeVal;

verus! {

/// The instructions of one frame, as they are executed: interrupts are
/// masked, the port is read once, the stream for `bytes` runs with the two
/// masks made from what was read, interrupts are restored, and the line
/// rests for `reset_micros` microseconds.
pub open spec fn frame_code(
    bytes: Seq<u8>,
    port_value: u8,
    pin: u8,
    pads: PadCounts,
    reset_micros: u32,
) -> Seq<Instr> {
    seq![Instr::EnterCritical, Instr::In(port_value)] + stream_code(
        bytes,
        spec_mask_high(port_value, pin),
        spec_mask_low(port_value, pin),
        pads,
    ) + seq![Instr::ExitCritical, Instr::DelayUs(reset_micros)]
}

/// What `new_with_timings` returns for a pin at bit `pin`, the profile `Ts`
/// and a clock of `clock_hz`: the padding and the wait after a frame, which
/// is the reset time rounded up to whole microseconds, or the reason the
/// configuration is refused.
pub open spec fn spec_configure<Ts: Timings>(pin: u8, clock_hz: u32) -> Result<
    (PadCounts, u32),
    ConfigError,
> {
    if pin >= 8 {
        Err(ConfigError::PinOutOfRange)
    } else {
        match (Ts::spec_pad_counts(clock_hz), Ts::spec_reset_micros()) {
            (Ok(pads), Ok(reset)) => Ok((pads, reset)),
            (Err(e), _) => Err(e),
            (Ok(_), Err(e)) => Err(e),
        }
    }
}

/// A driver for a strip of WS2812 pixels on pin `P`, with the timing profile
/// `Ts`, for pixels whose channels are in the order `Order`.
pub struct WS2812<P: StaticPin, Ts: Timings, Order: ColorOrder> {
    _pin: P,
    clock_hz: u32,
    pads: PadCounts,
    reset_micros: u32,
    _ts: PhantomData<Ts>,
    _order: PhantomData<Order>,
}

impl<P: StaticPin, Order: ColorOrder> WS2812<P, DefaultTimings, Order> {
    /// A driver with the default timing profile, for a CPU clock of
    /// `clock_hz`. It takes the pin for as long as it lives.
    pub fn new(pin: P, clock_hz: u32) -> (r: Result<Self, ConfigError>)
        ensures
            match r {
                Ok(driver) => spec_configure::<DefaultTimings>(P::PIN_BIT_INDEX, clock_hz) == Ok::<
                    (PadCounts, u32),
                    ConfigError,
                >((driver.pads(), driver.reset_micros())) && driver.clock_hz() == clock_hz,
                Err(e) => spec_configure::<DefaultTimings>(P::PIN_BIT_INDEX, clock_hz) == Err::<
                    (PadCounts, u32),
                    ConfigError,
                >(e),
            },
    {
        Self::new_with_timings(pin, clock_hz)
    }
}

impl<P: StaticPin, Ts: Timings, Order: ColorOrder> WS2812<P, Ts, Order> {
    #[verifier::type_invariant]
    spec fn configured(self) -> bool {
        spec_configure::<Ts>(P::PIN_BIT_INDEX, self.clock_hz) == Ok::<
            (PadCounts, u32),
            ConfigError,
        >((self.pads, self.reset_micros))
    }

    /// The clock the driver was made for, in cycles per second.
    pub closed spec fn clock_hz(&self) -> u32 {
        self.clock_hz
    }

    /// The padding of the three stages.
    pub closed spec fn pads(&self) -> PadCounts {
        self.pads
    }

    /// The wait after a frame in microseconds: never shorter than the reset
    /// time of the profile.
    pub closed spec fn reset_micros(&self) -> u32 {
        self.reset_micros
    }

    /// A driver with the timing profile `Ts`, for a CPU clock of `clock_hz`.
    /// It takes the pin for as long as it lives. The configuration is
    /// checked here, once: a pin that is not on the port, a profile that is
    /// not ordered, and a duration that cannot be counted are refused.
    pub fn new_with_timings(pin: P, clock_hz: u32) -> (r: Result<Self, ConfigError>)
        ensures
            match r {
                Ok(driver) => spec_configure::<Ts>(P::PIN_BIT_INDEX, clock_hz) == Ok::<
                    (PadCounts, u32),
                    ConfigError,
                >((driver.pads(), driver.reset_micros())) && driver.clock_hz() == clock_hz,
                Err(e) => spec_configure::<Ts>(P::PIN_BIT_INDEX, clock_hz) == Err::<
                    (PadCounts, u32),
                    ConfigError,
                >(e),
            },
    {
        if P::PIN_BIT_INDEX >= 8 {
            return Err(ConfigError::PinOutOfRange);
        }
        let pads = match Ts::pad_counts(clock_hz) {
            Ok(pads) => pads,
            Err(e) => {
                return Err(e);
            },
        };
        let reset_micros = match Ts::reset_micros() {
            Ok(reset) => reset,
            Err(e) => {
                return Err(e);
            },
        };
        Ok(WS2812 { _pin: pin, clock_hz, pads, reset_micros, _ts: PhantomData, _order: PhantomData })
    }

    /// The padding of the three stages.
    pub fn pad_counts(&self) -> (pads: PadCounts)
        ensures
            pads == self.pads(),
            Ts::spec_pad_counts(self.clock_hz()) == Ok::<PadCounts, ConfigError>(pads),
    {
        proof {
            use_type_invariant(self);
        }
        self.pads
    }

    /// The wait after a frame in microseconds: the reset time of the profile
    /// rounded up, so never shorter than it.
    pub fn reset_time(&self) -> (micros: u32)
        ensures
            micros == self.reset_micros(),
            Ts::spec_reset_micros() == Ok::<u32, ConfigError>(micros),
            micros * 1000 >= <Ts::Rst as TimeVal>::spec_nanos(),
    {
        proof {
            use_type_invariant(self);
            lemma_profile_rest_covers_reset::<Ts>(self.reset_micros);
        }
        self.reset_micros
    }

    /// Lays out the frame that sends `data`, given the byte that the read of
    /// the port returns. The frame is the same whenever the arguments are,
    /// and the driver is left as it was.
    pub fn write(&mut self, port_value: u8, data: &[Order]) -> (code: Vec<Instr>)
        ensures
            code@ == frame_code(
                wire_bytes(data@),
                port_value,
                P::PIN_BIT_INDEX,
                old(self).pads(),
                old(self).reset_micros(),
            ),
            final(self).pads() == old(self).pads(),
            final(self).reset_micros() == old(self).reset_micros(),
            final(self).clock_hz() == old(self).clock_hz(),
    {
        proof {
            use_type_invariant(&*self);
        }
        let bytes = pixel_bytes(data);
        let masks = pin_masks(port_value, P::PIN_BIT_INDEX);
        let mut code: Vec<Instr> = Vec::new();
        code.push(Instr::EnterCritical);
        code.push(Instr::In(port_value));
        let mut stream = ws2812_write(bytes.as_slice(), masks.0, masks.1, &self.pads);
        code.append(&mut stream);
        code.push(Instr::ExitCritical);
        code.push(Instr::DelayUs(self.reset_micros));
        proof {
            assert(code@ =~= frame_code(
                wire_bytes(data@),
                port_value,
                P::PIN_BIT_INDEX,
                self.pads,
                self.reset_micros,
            ));
        }
        code
    }
}

} // verus!
