//! What holds of cycle counts and padding.

use vstd::prelude::*;
use crate::timings::{
    fits_loop, lemma_cycles_monotonic, spec_cycles, spec_s1, spec_s2, spec_s3, CalculatedTimings,
    ConfigError, CycleCounts, PadCounts, TimingSpec, Timings, FIXED_CYCLES_T0H, FIXED_CYCLES_T1H,
    FIXED_CYCLES_TOTAL,
};
use crate::util::time::TimeVal;

verus! {

/// Counting whole cycles cuts a duration short by less than one cycle, and
/// never makes it longer.
pub proof fn lemma_cycles_truncate(clock_hz: nat, nanos: nat)
    ensures
        spec_cycles(clock_hz, nanos) * 1000000000 <= clock_hz * nanos,
        clock_hz * nanos < (spec_cycles(clock_hz, nanos) + 1) * 1000000000,
{
    let product = clock_hz * nanos;
    assert(product == 1000000000 * (product / 1000000000) + product % 1000000000) by {
        vstd::arithmetic::div_mod::lemma_fundamental_div_mod(product as int, 1000000000);
    }
}

/// The cycle counts of an accepted profile keep the order of its durations:
/// a zero bit is asked to be high for no longer than a one bit, and a one bit
/// for no longer than a whole bit.
pub proof fn lemma_cycle_counts_ordered(spec: TimingSpec, clock_hz: u32, c: CycleCounts)
    requires
        CycleCounts::spec_derive(spec, clock_hz) == Ok::<CycleCounts, ConfigError>(c),
    ensures
        spec.spec_is_ordered(),
        c.high_for_0 <= c.high_for_1 <= c.total,
        c.high_for_0 == spec_cycles(clock_hz as nat, spec.high_time_for_bit0 as nat),
        c.high_for_1 == spec_cycles(clock_hz as nat, spec.high_time_for_bit1 as nat),
        c.total == spec_cycles(clock_hz as nat, spec.cycle as nat),
{
    lemma_cycles_monotonic(
        clock_hz as nat,
        spec.high_time_for_bit0 as nat,
        spec.high_time_for_bit1 as nat,
    );
    lemma_cycles_monotonic(clock_hz as nat, spec.high_time_for_bit1 as nat, spec.cycle as nat);
}

/// Padding is never negative, and never more than a byte holds: where a
/// duration is shorter than what the loop spends anyway, the padding is zero.
pub proof fn lemma_pads_in_range(c: CycleCounts)
    ensures
        0 <= spec_s1(c) <= 255,
        0 <= spec_s2(c) <= 255,
        0 <= spec_s3(c) <= 255,
        c.high_for_0 < FIXED_CYCLES_T0H ==> spec_s1(c) == 0,
        PadCounts::spec_derive(c).s1 == spec_s1(c),
        PadCounts::spec_derive(c).s2 == spec_s2(c),
        PadCounts::spec_derive(c).s3 == spec_s3(c),
{
}

/// The loop's own cycles and the padding together are never less than the
/// duration asked for: a pulse can come out longer, never shorter.
pub proof fn lemma_pads_never_short(c: CycleCounts)
    ensures
        FIXED_CYCLES_T0H + spec_s1(c) >= c.high_for_0,
        FIXED_CYCLES_T1H + spec_s1(c) + spec_s2(c) >= c.high_for_1,
        FIXED_CYCLES_TOTAL + spec_s1(c) + spec_s2(c) + spec_s3(c) >= c.total,
{
}

/// Where the loop's own cycles leave room for every duration, the padding
/// fills each of them to the cycle.
pub proof fn lemma_pads_fill_exactly(c: CycleCounts)
    requires
        fits_loop(c),
    ensures
        FIXED_CYCLES_T0H + spec_s1(c) == c.high_for_0,
        FIXED_CYCLES_T1H + spec_s1(c) + spec_s2(c) == c.high_for_1,
        FIXED_CYCLES_TOTAL + spec_s1(c) + spec_s2(c) + spec_s3(c) == c.total,
        PadCounts::spec_derive(c).spec_high(false) == c.high_for_0,
        PadCounts::spec_derive(c).spec_high(true) == c.high_for_1,
        PadCounts::spec_derive(c).spec_period() == c.total,
{
}

/// The wait after a frame is never shorter than the reset time, and longer
/// by less than a microsecond.
pub proof fn lemma_rest_covers_reset(spec: TimingSpec)
    ensures
        spec.spec_reset_micros() * 1000 >= spec.reset,
        spec.spec_reset_micros() * 1000 < spec.reset + 1000,
{
}

/// The wait a profile is given is never shorter than the reset time the
/// profile names, whatever the unit it names it in.
pub proof fn lemma_profile_rest_covers_reset<Ts: Timings>(reset_micros: u32)
    requires
        Ts::spec_reset_micros() == Ok::<u32, ConfigError>(reset_micros),
    ensures
        reset_micros * 1000 >= <Ts::Rst as TimeVal>::spec_nanos(),
        reset_micros * 1000 < <Ts::Rst as TimeVal>::spec_nanos() + 1000,
{
    lemma_rest_covers_reset(Ts::spec_timing_spec()->Ok_0);
}

} // verus!
