use ws2812_avr::timings::{
    check_typed, cycles_for, diff_clamp_zero, typed_pads, CalculatedTimings, ConfigError,
    CycleCounts, DefaultTimings, PadCounts, TimingSpec, Timings, TypedTimings, FIXED_CYCLES_T0H,
    FIXED_CYCLES_T1H, FIXED_CYCLES_TOTAL,
};
use ws2812_avr::util::nop_block::NopBlock;
use ws2812_avr::util::time::{Micros, Nanos, Time, TimeVal};

struct UltraFastTimings;

impl Timings for UltraFastTimings {
    type Rst = Time<Micros, 50>;
    type Cycle = Time<Nanos, 650>;
    type T1h = Time<Nanos, 550>;
    type T0h = Time<Nanos, 100>;
}

impl TypedTimings for UltraFastTimings {
    type S1Nops = NopBlock<0>;
    type S2Nops = NopBlock<4>;
    type S3Nops = NopBlock<0>;
}

struct Unordered;

impl Timings for Unordered {
    type Rst = Time<Micros, 250>;
    type Cycle = Time<Nanos, 1250>;
    type T1h = Time<Nanos, 350>;
    type T0h = Time<Nanos, 900>;
}

impl TypedTimings for Unordered {
    type S1Nops = NopBlock<3>;
    type S2Nops = NopBlock<7>;
    type S3Nops = NopBlock<2>;
}

struct TooSlow;

impl Timings for TooSlow {
    type Rst = Time<Micros, 250>;
    type Cycle = Time<Micros, 16>;
    type T1h = Time<Micros, 8>;
    type T0h = Time<Micros, 4>;
}

struct Endless;

impl Timings for Endless {
    type Rst = Time<Micros, 18446744073709551615>;
    type Cycle = Time<Nanos, 1250>;
    type T1h = Time<Nanos, 900>;
    type T0h = Time<Nanos, 350>;
}

struct LongRest;

impl Timings for LongRest {
    type Rst = Time<Micros, 4294967296>;
    type Cycle = Time<Nanos, 1250>;
    type T1h = Time<Nanos, 900>;
    type T0h = Time<Nanos, 350>;
}

#[test]
fn time_values_convert_between_units() {
    assert_eq!(<Time<Micros, 250> as TimeVal>::value(), 250);
    assert_eq!(<Time<Micros, 250> as TimeVal>::nanos(), Some(250_000));
    assert_eq!(<Time<Micros, 250> as TimeVal>::micros(), 250);
    assert_eq!(<Time<Nanos, 1250> as TimeVal>::value(), 1250);
    assert_eq!(<Time<Nanos, 1250> as TimeVal>::nanos(), Some(1250));
    assert_eq!(<Time<Nanos, 1250> as TimeVal>::micros(), 1);
    assert_eq!(<Time<Nanos, 999> as TimeVal>::micros(), 0);
}

#[test]
fn microseconds_that_overflow_nanoseconds_are_refused() {
    assert_eq!(<Time<Micros, 18446744073709551615> as TimeVal>::nanos(), None);
    assert_eq!(
        <Time<Micros, 18446744073709551> as TimeVal>::nanos(),
        Some(18446744073709551000)
    );
    assert_eq!(<Time<Micros, 18446744073709552> as TimeVal>::nanos(), None);
}

#[test]
fn default_profile_in_nanoseconds() {
    let spec = DefaultTimings::timing_spec().unwrap();
    assert_eq!(
        spec,
        TimingSpec {
            reset: 250_000,
            cycle: 1250,
            high_time_for_bit1: 900,
            high_time_for_bit0: 350
        }
    );
    assert!(spec.is_ordered());
    assert_eq!(spec.reset_micros(), Ok(250));
    assert_eq!(DefaultTimings::reset_micros(), Ok(250));
}

#[test]
fn default_profile_at_16_mhz() {
    let cycles = DefaultTimings::cycle_counts(16_000_000).unwrap();
    assert_eq!(cycles, CycleCounts { high_for_0: 5, high_for_1: 14, total: 20 });
    let pads = DefaultTimings::pad_counts(16_000_000).unwrap();
    assert_eq!(pads, PadCounts { s1: 3, s2: 7, s3: 2 });
    assert_eq!(PadCounts::derive(&cycles), pads);
}

#[test]
fn fixed_overheads_are_two_four_and_eight() {
    assert_eq!(FIXED_CYCLES_T0H, 2);
    assert_eq!(FIXED_CYCLES_T1H, 4);
    assert_eq!(FIXED_CYCLES_TOTAL, 8);
}

#[test]
fn padding_fills_each_duration_of_the_default_profile() {
    let cycles = DefaultTimings::cycle_counts(16_000_000).unwrap();
    let pads = PadCounts::derive(&cycles);
    assert_eq!(2 + pads.s1, cycles.high_for_0);
    assert_eq!(4 + pads.s1 + pads.s2, cycles.high_for_1);
    assert_eq!(8 + pads.s1 + pads.s2 + pads.s3, cycles.total);
    assert_eq!(pads.high(false), 5);
    assert_eq!(pads.high(true), 14);
    assert_eq!(pads.period(), 20);
}

#[test]
fn cycles_are_rounded_down() {
    assert_eq!(cycles_for(16_000_000, 350), Some(5));
    assert_eq!(cycles_for(16_000_000, 900), Some(14));
    assert_eq!(cycles_for(16_000_000, 1250), Some(20));
    assert_eq!(cycles_for(16_000_000, 62), Some(0));
    assert_eq!(cycles_for(16_000_000, 63), Some(1));
    assert_eq!(cycles_for(8_000_000, 1250), Some(10));
    assert_eq!(cycles_for(0, 1250), Some(0));
}

#[test]
fn cycles_beyond_a_byte_are_refused() {
    assert_eq!(cycles_for(16_000_000, 15_937), Some(254));
    assert_eq!(cycles_for(16_000_000, 15_938), Some(255));
    assert_eq!(cycles_for(16_000_000, 16_000), None);
    assert_eq!(cycles_for(u32::MAX, u64::MAX), None);
}

#[test]
fn short_zero_bit_gets_no_padding() {
    let cycles = UltraFastTimings::cycle_counts(16_000_000).unwrap();
    assert_eq!(cycles, CycleCounts { high_for_0: 1, high_for_1: 8, total: 10 });
    let pads = UltraFastTimings::pad_counts(16_000_000).unwrap();
    assert_eq!(pads, PadCounts { s1: 0, s2: 4, s3: 0 });
    assert_eq!(pads.high(false), 2);
    assert_eq!(pads.high(true), 8);
    assert_eq!(pads.period(), 12);
}

#[test]
fn padding_is_clamped_stage_by_stage() {
    let none = PadCounts::derive(&CycleCounts { high_for_0: 0, high_for_1: 0, total: 0 });
    assert_eq!(none, PadCounts { s1: 0, s2: 0, s3: 0 });
    let first_only = PadCounts::derive(&CycleCounts { high_for_0: 10, high_for_1: 11, total: 12 });
    assert_eq!(first_only, PadCounts { s1: 8, s2: 0, s3: 0 });
    let largest = PadCounts::derive(&CycleCounts { high_for_0: 255, high_for_1: 255, total: 255 });
    assert_eq!(largest, PadCounts { s1: 253, s2: 0, s3: 0 });
    let exact = PadCounts::derive(&CycleCounts { high_for_0: 2, high_for_1: 4, total: 8 });
    assert_eq!(exact, PadCounts { s1: 0, s2: 0, s3: 0 });
}

#[test]
fn difference_clamps_at_zero() {
    assert_eq!(diff_clamp_zero(5, 2), 3);
    assert_eq!(diff_clamp_zero(2, 2), 0);
    assert_eq!(diff_clamp_zero(1, 2), 0);
    assert_eq!(diff_clamp_zero(0, 255), 0);
    assert_eq!(diff_clamp_zero(255, 0), 255);
}

#[test]
fn unordered_profile_is_refused() {
    assert_eq!(Unordered::cycle_counts(16_000_000), Err(ConfigError::NotOrdered));
    assert_eq!(Unordered::pad_counts(16_000_000), Err(ConfigError::NotOrdered));
    let equal = TimingSpec { reset: 1, cycle: 900, high_time_for_bit1: 900, high_time_for_bit0: 350 };
    assert!(!equal.is_ordered());
    assert_eq!(CycleCounts::derive(&equal, 16_000_000), Err(ConfigError::NotOrdered));
}

#[test]
fn profile_with_too_many_cycles_is_refused() {
    assert_eq!(TooSlow::cycle_counts(16_000_000), Err(ConfigError::CycleCountTooLarge));
    assert_eq!(
        TooSlow::cycle_counts(1_000_000),
        Ok(CycleCounts { high_for_0: 4, high_for_1: 8, total: 16 })
    );
}

#[test]
fn profile_with_overflowing_duration_is_refused() {
    assert_eq!(Endless::timing_spec(), Err(ConfigError::DurationTooLong));
    assert_eq!(Endless::cycle_counts(16_000_000), Err(ConfigError::DurationTooLong));
    assert_eq!(Endless::reset_micros(), Err(ConfigError::DurationTooLong));
}

#[test]
fn reset_beyond_the_delay_routine_is_refused() {
    assert_eq!(LongRest::reset_micros(), Err(ConfigError::ResetTooLong));
    assert!(LongRest::pad_counts(16_000_000).is_ok());
}

#[test]
fn loop_leaves_room_for_the_default_profile_only_when_fast_enough() {
    assert!(DefaultTimings::cycle_counts(16_000_000).unwrap().fits_loop());
    assert!(!DefaultTimings::cycle_counts(8_000_000).unwrap().fits_loop());
    assert!(!UltraFastTimings::cycle_counts(16_000_000).unwrap().fits_loop());
    assert!(CycleCounts { high_for_0: 2, high_for_1: 4, total: 8 }.fits_loop());
    assert!(!CycleCounts { high_for_0: 2, high_for_1: 4, total: 7 }.fits_loop());
    assert!(!CycleCounts { high_for_0: 2, high_for_1: 3, total: 8 }.fits_loop());
    assert!(!CycleCounts { high_for_0: 1, high_for_1: 4, total: 8 }.fits_loop());
    assert!(!CycleCounts { high_for_0: 3, high_for_1: 4, total: 9 }.fits_loop());
}

#[test]
fn typed_padding_is_read_from_the_types() {
    assert_eq!(typed_pads::<DefaultTimings>(), PadCounts { s1: 3, s2: 7, s3: 2 });
    assert_eq!(typed_pads::<UltraFastTimings>(), PadCounts { s1: 0, s2: 4, s3: 0 });
}

#[test]
fn typed_padding_is_accepted_at_its_own_clock() {
    assert_eq!(check_typed::<DefaultTimings>(16_000_000), Ok(PadCounts { s1: 3, s2: 7, s3: 2 }));
    assert_eq!(check_typed::<UltraFastTimings>(16_000_000), Ok(PadCounts { s1: 0, s2: 4, s3: 0 }));
}

#[test]
fn typed_padding_is_refused_at_another_clock() {
    assert_eq!(check_typed::<DefaultTimings>(8_000_000), Err(ConfigError::PaddingMismatch));
    assert_eq!(check_typed::<DefaultTimings>(20_000_000), Err(ConfigError::PaddingMismatch));
    assert_eq!(check_typed::<UltraFastTimings>(8_000_000), Err(ConfigError::PaddingMismatch));
}

#[test]
fn typed_padding_of_a_refused_profile_reports_the_profile() {
    assert_eq!(check_typed::<Unordered>(16_000_000), Err(ConfigError::NotOrdered));
}

fn rest_of(reset: u64) -> Result<u32, ConfigError> {
    TimingSpec { reset, cycle: 1250, high_time_for_bit1: 900, high_time_for_bit0: 350 }
        .reset_micros()
}

#[test]
fn rest_is_the_reset_time_rounded_up() {
    assert_eq!(rest_of(0), Ok(0));
    assert_eq!(rest_of(1), Ok(1));
    assert_eq!(rest_of(999), Ok(1));
    assert_eq!(rest_of(1000), Ok(1));
    assert_eq!(rest_of(1001), Ok(2));
    assert_eq!(rest_of(1500), Ok(2));
    assert_eq!(rest_of(250_000), Ok(250));
    assert_eq!(rest_of(250_001), Ok(251));
}

#[test]
fn rest_is_never_shorter_than_the_reset_time() {
    for reset in [0u64, 1, 499, 500, 999, 1000, 1001, 1999, 2000, 49_999, 50_000, 50_001] {
        let micros = rest_of(reset).unwrap() as u64;
        assert!(micros * 1000 >= reset);
        assert!(micros * 1000 < reset + 1000);
    }
}

#[test]
fn rest_is_refused_on_its_rounded_value() {
    assert_eq!(rest_of(4_294_967_295_000), Ok(u32::MAX));
    assert_eq!(rest_of(4_294_967_294_001), Ok(u32::MAX));
    assert_eq!(rest_of(4_294_967_295_001), Err(ConfigError::ResetTooLong));
    assert_eq!(rest_of(u64::MAX), Err(ConfigError::ResetTooLong));
}

#[test]
fn rest_of_a_profile_named_in_nanoseconds_is_rounded_up() {
    struct ShortRest;
    impl Timings for ShortRest {
        type Rst = Time<Nanos, 1500>;
        type Cycle = Time<Nanos, 1250>;
        type T1h = Time<Nanos, 900>;
        type T0h = Time<Nanos, 350>;
    }
    assert_eq!(ShortRest::reset_micros(), Ok(2));
    struct Blink;
    impl Timings for Blink {
        type Rst = Time<Nanos, 999>;
        type Cycle = Time<Nanos, 1250>;
        type T1h = Time<Nanos, 900>;
        type T0h = Time<Nanos, 350>;
    }
    assert_eq!(Blink::reset_micros(), Ok(1));
}
