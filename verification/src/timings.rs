//! From a timing profile and a clock frequency to cycle counts and padding.

use vstd::prelude::*;
use crate::util::nop_block::{lemma_block_size, NopBlock, NopGen};
use crate::util::time::{Micros, Nanos, Time, TimeVal};

verus! {

/// Cycles between the pin going high and going low again for a zero bit,
/// spent by the loop's own instructions: the bit test and the early store.
pub const FIXED_CYCLES_T0H: u8 = 2;

/// Cycles between the pin going high and going low again for a one bit,
/// spent by the loop's own instructions: the bit test with its skip, the
/// shift and the late store.
pub const FIXED_CYCLES_T1H: u8 = 4;

/// Cycles of one pass of the bit loop spent by its own instructions.
pub const FIXED_CYCLES_TOTAL: u8 = 8;

/// Nanoseconds in one second.
pub const NANOS_IN_SECOND: u64 = 1000000000;

/// Why a configuration is refused.
#[derive(Clone, Copy, Debug, PartialEq, Eq, Structural)]
pub enum ConfigError {
    /// A duration does not fit in 64 bits once expressed in nanoseconds.
    DurationTooLong,
    /// The high time of a zero bit is not below that of a one bit, or the
    /// high time of a one bit is not below the length of a bit.
    NotOrdered,
    /// A duration takes more cycles than the loop can count.
    CycleCountTooLarge,
    /// The reset time, rounded up to whole microseconds, does not fit the
    /// delay routine.
    ResetTooLong,
    /// The pin's bit index is not one of the eight bits of a port.
    PinOutOfRange,
    /// The padding fixed in the types of a profile is not the padding the
    /// profile needs at the clock in use.
    PaddingMismatch,
}

/// The four durations of the protocol, in nanoseconds.
#[derive(Clone, Copy, Debug, PartialEq, Eq, Structural)]
pub struct TimingSpec {
    /// How long the line rests low after a frame.
    pub reset: u64,
    /// The length of one bit.
    pub cycle: u64,
    /// How long the line is high for a one bit.
    pub high_time_for_bit1: u64,
    /// How long the line is high for a zero bit.
    pub high_time_for_bit0: u64,
}

impl TimingSpec {
    /// A zero bit is high for less time than a one bit, which is high for
    /// less than a whole bit.
    pub open spec fn spec_is_ordered(self) -> bool {
        self.high_time_for_bit0 < self.high_time_for_bit1 && self.high_time_for_bit1 < self.cycle
    }

    /// Whether the durations are ordered as the protocol needs.
    pub fn is_ordered(&self) -> (b: bool)
        ensures
            b == self.spec_is_ordered(),
    {
        self.high_time_for_bit0 < self.high_time_for_bit1 && self.high_time_for_bit1 < self.cycle
    }

    /// The reset time in whole microseconds, rounded up: the shortest wait
    /// counted in microseconds that is not shorter than the reset time.
    pub open spec fn spec_reset_micros(self) -> nat {
        (self.reset as nat + 999) / 1000
    }

    /// The wait after a frame in microseconds, as the delay routine takes
    /// it: the reset time rounded up, so that the line rests for no less
    /// than the reset time.
    pub fn reset_micros(&self) -> (r: Result<u32, ConfigError>)
        ensures
            self.spec_reset_micros() <= u32::MAX ==> r == Ok::<u32, ConfigError>(
                self.spec_reset_micros() as u32,
            ),
            self.spec_reset_micros() > u32::MAX ==> r == Err::<u32, ConfigError>(
                ConfigError::ResetTooLong,
            ),
    {
        let whole: u64 = self.reset / 1000;
        let micros: u64 = if self.reset % 1000 != 0 {
            whole + 1
        } else {
            whole
        };
        if micros <= 0xffff_ffff {
            Ok(micros as u32)
        } else {
            Err(ConfigError::ResetTooLong)
        }
    }
}

/// The whole cycles that pass in `nanos` nanoseconds at `clock_hz` cycles per
/// second. A started cycle does not count.
pub open spec fn spec_cycles(clock_hz: nat, nanos: nat) -> nat {
    clock_hz * nanos / 1000000000
}

/// The whole cycles that pass in `nanos` nanoseconds at a clock of `clock_hz`,
/// or `None` if they are more than a byte can count.
pub fn cycles_for(clock_hz: u32, nanos: u64) -> (r: Option<u8>)
    ensures
        spec_cycles(clock_hz as nat, nanos as nat) <= 255 ==> r == Some(
            spec_cycles(clock_hz as nat, nanos as nat) as u8,
        ),
        spec_cycles(clock_hz as nat, nanos as nat) > 255 ==> r.is_none(),
{
    assert(clock_hz as nat * nanos as nat <= 0xffff_ffff * 0xffff_ffff_ffff_ffff)
        by (nonlinear_arith)
        requires
            clock_hz <= 0xffff_ffff,
            nanos <= 0xffff_ffff_ffff_ffff,
    ;
    let product: u128 = (clock_hz as u128) * (nanos as u128);
    let cycles: u128 = product / (NANOS_IN_SECOND as u128);
    if cycles <= 255 {
        Some(cycles as u8)
    } else {
        None
    }
}

/// More time never takes fewer cycles.
pub proof fn lemma_cycles_monotonic(clock_hz: nat, shorter: nat, longer: nat)
    requires
        shorter <= longer,
    ensures
        spec_cycles(clock_hz, shorter) <= spec_cycles(clock_hz, longer),
{
    assert(clock_hz * shorter <= clock_hz * longer) by (nonlinear_arith)
        requires
            shorter <= longer,
    ;
}

/// The three durations of a bit, in CPU cycles.
#[derive(Clone, Copy, Debug, PartialEq, Eq, Structural)]
pub struct CycleCounts {
    /// Cycles the line is to be high for a zero bit.
    pub high_for_0: u8,
    /// Cycles the line is to be high for a one bit.
    pub high_for_1: u8,
    /// Cycles of one bit.
    pub total: u8,
}

impl CycleCounts {
    /// What `derive` returns: the profile's durations in whole cycles, if the
    /// profile is ordered and each count fits a byte.
    pub open spec fn spec_derive(spec: TimingSpec, clock_hz: u32) -> Result<
        CycleCounts,
        ConfigError,
    > {
        let high0 = spec_cycles(clock_hz as nat, spec.high_time_for_bit0 as nat);
        let high1 = spec_cycles(clock_hz as nat, spec.high_time_for_bit1 as nat);
        let total = spec_cycles(clock_hz as nat, spec.cycle as nat);
        if !spec.spec_is_ordered() {
            Err(ConfigError::NotOrdered)
        } else if high0 > 255 || high1 > 255 || total > 255 {
            Err(ConfigError::CycleCountTooLarge)
        } else {
            Ok(CycleCounts { high_for_0: high0 as u8, high_for_1: high1 as u8, total: total as u8 })
        }
    }

    /// Turns a timing profile into cycle counts for a clock of `clock_hz`.
    /// A profile that is not ordered, or that needs more cycles than a byte
    /// can count, is refused.
    pub fn derive(spec: &TimingSpec, clock_hz: u32) -> (r: Result<CycleCounts, ConfigError>)
        ensures
            r == Self::spec_derive(*spec, clock_hz),
    {
        if !spec.is_ordered() {
            return Err(ConfigError::NotOrdered);
        }
        let high0 = cycles_for(clock_hz, spec.high_time_for_bit0);
        let high1 = cycles_for(clock_hz, spec.high_time_for_bit1);
        let total = cycles_for(clock_hz, spec.cycle);
        match (high0, high1, total) {
            (Some(h0), Some(h1), Some(t)) => Ok(
                CycleCounts { high_for_0: h0, high_for_1: h1, total: t },
            ),
            _ => Err(ConfigError::CycleCountTooLarge),
        }
    }
}

/// `a - b`, or zero where that would be negative.
pub open spec fn clamp_sub(a: int, b: int) -> int {
    if a >= b {
        a - b
    } else {
        0
    }
}

/// `a - b`, or zero where that would be negative.
pub fn diff_clamp_zero(a: u8, b: u8) -> (r: u8)
    ensures
        r == clamp_sub(a as int, b as int),
{
    if a >= b {
        a - b
    } else {
        0
    }
}

/// Padding of the first stage: what a zero bit's high time lacks after the
/// loop's own cycles.
pub open spec fn spec_s1(c: CycleCounts) -> int {
    clamp_sub(c.high_for_0 as int, FIXED_CYCLES_T0H as int)
}

/// Padding of the second stage: what a one bit's high time lacks after the
/// loop's own cycles and the first stage.
pub open spec fn spec_s2(c: CycleCounts) -> int {
    clamp_sub(c.high_for_1 as int, FIXED_CYCLES_T1H + spec_s1(c))
}

/// Padding of the third stage: what the bit lacks after the loop's own cycles
/// and the first two stages.
pub open spec fn spec_s3(c: CycleCounts) -> int {
    clamp_sub(c.total as int, FIXED_CYCLES_TOTAL + spec_s1(c) + spec_s2(c))
}

/// The padding of the three stages of the bit loop, in cycles.
#[derive(Clone, Copy, Debug, PartialEq, Eq, Structural)]
pub struct PadCounts {
    /// Padding while the line is high for either bit value.
    pub s1: u8,
    /// Padding that keeps the line high for a one bit.
    pub s2: u8,
    /// Padding that fills the rest of the bit.
    pub s3: u8,
}

impl PadCounts {
    /// What `derive` returns: each stage's padding, as a byte.
    pub open spec fn spec_derive(c: CycleCounts) -> PadCounts {
        PadCounts { s1: spec_s1(c) as u8, s2: spec_s2(c) as u8, s3: spec_s3(c) as u8 }
    }

    /// Computes the padding of each stage from the cycle counts: what each
    /// duration lacks after the loop's own cycles and the padding before it,
    /// and none where it lacks nothing.
    pub fn derive(c: &CycleCounts) -> (p: PadCounts)
        ensures
            p == Self::spec_derive(*c),
            p.s1 == spec_s1(*c),
            p.s2 == spec_s2(*c),
            p.s3 == spec_s3(*c),
    {
        let s1 = diff_clamp_zero(c.high_for_0, FIXED_CYCLES_T0H);
        let s2 = diff_clamp_zero(diff_clamp_zero(c.high_for_1, FIXED_CYCLES_T1H), s1);
        let s3 = diff_clamp_zero(
            diff_clamp_zero(diff_clamp_zero(c.total, FIXED_CYCLES_TOTAL), s1),
            s2,
        );
        PadCounts { s1, s2, s3 }
    }

    /// Cycles the line is high for a bit of the given value.
    pub open spec fn spec_high(self, bit: bool) -> nat {
        if bit {
            (FIXED_CYCLES_T1H + self.s1 + self.s2) as nat
        } else {
            (FIXED_CYCLES_T0H + self.s1) as nat
        }
    }

    /// Cycles one bit takes, whatever its value.
    pub open spec fn spec_period(self) -> nat {
        (FIXED_CYCLES_TOTAL + self.s1 + self.s2 + self.s3) as nat
    }

    /// Cycles the line is high for a bit of the given value.
    pub fn high(&self, bit: bool) -> (h: u64)
        ensures
            h == self.spec_high(bit),
    {
        if bit {
            FIXED_CYCLES_T1H as u64 + self.s1 as u64 + self.s2 as u64
        } else {
            FIXED_CYCLES_T0H as u64 + self.s1 as u64
        }
    }

    /// Cycles one bit takes, whatever its value.
    pub fn period(&self) -> (p: u64)
        ensures
            p == self.spec_period(),
    {
        FIXED_CYCLES_TOTAL as u64 + self.s1 as u64 + self.s2 as u64 + self.s3 as u64
    }
}

/// Whether the loop's own cycles leave room for every duration, so that no
/// padding had to be cut short.
pub open spec fn fits_loop(c: CycleCounts) -> bool {
    &&& c.high_for_0 >= FIXED_CYCLES_T0H
    &&& c.high_for_1 >= FIXED_CYCLES_T1H + spec_s1(c)
    &&& c.total >= FIXED_CYCLES_TOTAL + spec_s1(c) + spec_s2(c)
}

impl CycleCounts {
    /// Whether the loop's own cycles leave room for every duration. Where
    /// they do not, a pulse comes out longer than asked for.
    pub fn fits_loop(&self) -> (b: bool)
        ensures
            b == fits_loop(*self),
    {
        let pads = PadCounts::derive(self);
        self.high_for_0 >= FIXED_CYCLES_T0H && self.high_for_1 as u16 >= FIXED_CYCLES_T1H as u16
            + pads.s1 as u16 && self.total as u16 >= FIXED_CYCLES_TOTAL as u16 + pads.s1 as u16
            + pads.s2 as u16
    }
}

/// The timing profile of a strip: four durations, each fixed by its type.
pub trait Timings {
    /// How long the line rests low after a frame.
    type Rst: TimeVal;

    /// The length of one bit.
    type Cycle: TimeVal;

    /// How long the line is high for a one bit.
    type T1h: TimeVal;

    /// How long the line is high for a zero bit.
    type T0h: TimeVal;
}

/// A cautious profile that most strips accept: bits of 1.25 us, a reset of
/// 250 us.
pub struct DefaultTimings {}

impl Timings for DefaultTimings {
    type Rst = Time<Micros, 250>;

    type Cycle = Time<Nanos, 1250>;

    type T1h = Time<Nanos, 900>;

    type T0h = Time<Nanos, 350>;
}

/// What follows from a timing profile once the clock is known.
pub trait CalculatedTimings {
    /// The profile's four durations in nanoseconds, if each fits 64 bits.
    spec fn spec_timing_spec() -> Result<TimingSpec, ConfigError>;

    /// The cycle counts of the profile at the given clock.
    spec fn spec_cycle_counts(clock_hz: u32) -> Result<CycleCounts, ConfigError>;

    /// The padding of the profile at the given clock.
    spec fn spec_pad_counts(clock_hz: u32) -> Result<PadCounts, ConfigError>;

    /// The wait after a frame in microseconds: the reset time of the
    /// profile, rounded up.
    spec fn spec_reset_micros() -> Result<u32, ConfigError>;

    /// The profile's four durations in nanoseconds.
    fn timing_spec() -> (r: Result<TimingSpec, ConfigError>)
        ensures
            r == Self::spec_timing_spec(),
    ;

    /// The cycle counts of the profile at a clock of `clock_hz`.
    fn cycle_counts(clock_hz: u32) -> (r: Result<CycleCounts, ConfigError>)
        ensures
            r == Self::spec_cycle_counts(clock_hz),
    ;

    /// The padding of the three stages at a clock of `clock_hz`.
    fn pad_counts(clock_hz: u32) -> (r: Result<PadCounts, ConfigError>)
        ensures
            r == Self::spec_pad_counts(clock_hz),
    ;

    /// The wait after a frame in microseconds, as the delay routine takes
    /// it: the reset time rounded up.
    fn reset_micros() -> (r: Result<u32, ConfigError>)
        ensures
            r == Self::spec_reset_micros(),
    ;
}

impl<Ts: Timings> CalculatedTimings for Ts {
    open spec fn spec_timing_spec() -> Result<TimingSpec, ConfigError> {
        let reset = <Ts::Rst as TimeVal>::spec_nanos();
        let cycle = <Ts::Cycle as TimeVal>::spec_nanos();
        let high1 = <Ts::T1h as TimeVal>::spec_nanos();
        let high0 = <Ts::T0h as TimeVal>::spec_nanos();
        if reset > u64::MAX || cycle > u64::MAX || high1 > u64::MAX || high0 > u64::MAX {
            Err(ConfigError::DurationTooLong)
        } else {
            Ok(
                TimingSpec {
                    reset: reset as u64,
                    cycle: cycle as u64,
                    high_time_for_bit1: high1 as u64,
                    high_time_for_bit0: high0 as u64,
                },
            )
        }
    }

    open spec fn spec_cycle_counts(clock_hz: u32) -> Result<CycleCounts, ConfigError> {
        match Self::spec_timing_spec() {
            Ok(spec) => CycleCounts::spec_derive(spec, clock_hz),
            Err(e) => Err(e),
        }
    }

    open spec fn spec_pad_counts(clock_hz: u32) -> Result<PadCounts, ConfigError> {
        match Self::spec_cycle_counts(clock_hz) {
            Ok(c) => Ok(PadCounts::spec_derive(c)),
            Err(e) => Err(e),
        }
    }

    open spec fn spec_reset_micros() -> Result<u32, ConfigError> {
        match Self::spec_timing_spec() {
            Ok(spec) => if spec.spec_reset_micros() <= u32::MAX {
                Ok(spec.spec_reset_micros() as u32)
            } else {
                Err(ConfigError::ResetTooLong)
            },
            Err(e) => Err(e),
        }
    }

    fn timing_spec() -> (r: Result<TimingSpec, ConfigError>) {
        let reset = <Ts::Rst as TimeVal>::nanos();
        let cycle = <Ts::Cycle as TimeVal>::nanos();
        let high1 = <Ts::T1h as TimeVal>::nanos();
        let high0 = <Ts::T0h as TimeVal>::nanos();
        match (reset, cycle, high1, high0) {
            (Some(reset), Some(cycle), Some(high1), Some(high0)) => Ok(
                TimingSpec { reset, cycle, high_time_for_bit1: high1, high_time_for_bit0: high0 },
            ),
            _ => Err(ConfigError::DurationTooLong),
        }
    }

    fn cycle_counts(clock_hz: u32) -> (r: Result<CycleCounts, ConfigError>) {
        match Self::timing_spec() {
            Ok(spec) => CycleCounts::derive(&spec, clock_hz),
            Err(e) => Err(e),
        }
    }

    fn pad_counts(clock_hz: u32) -> (r: Result<PadCounts, ConfigError>) {
        match Self::cycle_counts(clock_hz) {
            Ok(c) => Ok(PadCounts::derive(&c)),
            Err(e) => Err(e),
        }
    }

    fn reset_micros() -> (r: Result<u32, ConfigError>) {
        match Self::timing_spec() {
            Ok(spec) => spec.reset_micros(),
            Err(e) => Err(e),
        }
    }
}

/// A timing profile that also fixes the padding of the three stages in
/// types, for code that has to know it when it is built. Whether the padding
/// suits a clock is found out by [`check_typed`].
pub trait TypedTimings: Timings {
    /// The padding of the first stage.
    type S1Nops: NopGen;

    /// The padding of the second stage.
    type S2Nops: NopGen;

    /// The padding of the third stage.
    type S3Nops: NopGen;
}

/// The padding of the default profile is fixed for a clock of 16 MHz.
impl TypedTimings for DefaultTimings {
    type S1Nops = NopBlock<3>;

    type S2Nops = NopBlock<7>;

    type S3Nops = NopBlock<2>;
}

/// The padding fixed in the types of the profile `Ts`.
pub open spec fn spec_typed_pads<Ts: TypedTimings>() -> PadCounts {
    PadCounts {
        s1: <Ts::S1Nops as NopGen>::SIZE,
        s2: <Ts::S2Nops as NopGen>::SIZE,
        s3: <Ts::S3Nops as NopGen>::SIZE,
    }
}

/// What [`check_typed`] returns: the padding of the profile at the given
/// clock if that is the padding fixed in its types, else the reason it is
/// refused.
pub open spec fn spec_check_typed<Ts: TypedTimings>(clock_hz: u32) -> Result<
    PadCounts,
    ConfigError,
> {
    match Ts::spec_pad_counts(clock_hz) {
        Ok(pads) => if pads == spec_typed_pads::<Ts>() {
            Ok(pads)
        } else {
            Err(ConfigError::PaddingMismatch)
        },
        Err(e) => Err(e),
    }
}

/// The padding fixed in the types of the profile `Ts`.
pub fn typed_pads<Ts: TypedTimings>() -> (pads: PadCounts)
    ensures
        pads == spec_typed_pads::<Ts>(),
{
    PadCounts {
        s1: <Ts::S1Nops as NopGen>::SIZE,
        s2: <Ts::S2Nops as NopGen>::SIZE,
        s3: <Ts::S3Nops as NopGen>::SIZE,
    }
}

/// Checks that the padding fixed in the types of `Ts` is what the profile
/// needs at a clock of `clock_hz`, and returns it.
pub fn check_typed<Ts: TypedTimings>(clock_hz: u32) -> (r: Result<PadCounts, ConfigError>)
    ensures
        r == spec_check_typed::<Ts>(clock_hz),
{
    match Ts::pad_counts(clock_hz) {
        Ok(pads) => {
            let typed = typed_pads::<Ts>();
            if pads.s1 == typed.s1 && pads.s2 == typed.s2 && pads.s3 == typed.s3 {
                Ok(pads)
            } else {
                Err(ConfigError::PaddingMismatch)
            }
        },
        Err(e) => Err(e),
    }
}

/// The padding fixed in the types of a profile whose three stages are
/// blocks of `A`, `B` and `C` cycles.
pub proof fn lemma_typed_pads_of_blocks<Ts, const A: u8, const B: u8, const C: u8>()
    where
        Ts: TypedTimings<S1Nops = NopBlock<A>, S2Nops = NopBlock<B>, S3Nops = NopBlock<C>>,
    ensures
        spec_typed_pads::<Ts>() == (PadCounts { s1: A, s2: B, s3: C }),
{
    lemma_block_size::<A>();
    lemma_block_size::<B>();
    lemma_block_size::<C>();
}

/// The default profile is typed for a clock of 16 MHz: its padding is 3, 7
/// and 2 cycles, which is what the profile needs at that clock.
pub proof fn lemma_default_timings_typed()
    ensures
        DefaultTimings::spec_cycle_counts(16000000) == Ok::<CycleCounts, ConfigError>(
            CycleCounts { high_for_0: 5, high_for_1: 14, total: 20 },
        ),
        spec_typed_pads::<DefaultTimings>() == (PadCounts { s1: 3, s2: 7, s3: 2 }),
        spec_check_typed::<DefaultTimings>(16000000) == Ok::<PadCounts, ConfigError>(
            PadCounts { s1: 3, s2: 7, s3: 2 },
        ),
{
    lemma_typed_pads_of_blocks::<DefaultTimings, 3, 7, 2>();
    assert(spec_cycles(16000000, 350) == 5) by (nonlinear_arith);
    assert(spec_cycles(16000000, 900) == 14) by (nonlinear_arith);
    assert(spec_cycles(16000000, 1250) == 20) by (nonlinear_arith);
}

} // verus!
