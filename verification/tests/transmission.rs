use ws2812_avr::color::{pixel_bytes, unpack_pixels, ColorOrder, BGR, GRB, RGB};
use ws2812_avr::decoder::{classify, decode, pack_bits, read_bits, DecodeError, Symbol};
use ws2812_avr::driver::WS2812;
use ws2812_avr::engine::{emit_bit, ws2812_write, Phase};
use ws2812_avr::ports::{level_of, pin_masks, PinAt, StaticPin};
use ws2812_avr::scope::{measure, Mark, Probe, Pulse};
use ws2812_avr::timings::{ConfigError, DefaultTimings, PadCounts, Timings};
use ws2812_avr::util::instr::Instr;
use ws2812_avr::util::time::{Micros, Nanos, Time};

struct D9;

impl StaticPin for D9 {
    const PIN_BIT_INDEX: u8 = 1;
}

struct Ghost8;

impl StaticPin for Ghost8 {
    const PIN_BIT_INDEX: u8 = 8;
}

struct Unordered;

impl Timings for Unordered {
    type Rst = Time<Micros, 250>;
    type Cycle = Time<Nanos, 900>;
    type T1h = Time<Nanos, 1250>;
    type T0h = Time<Nanos, 350>;
}

struct LongRest;

impl Timings for LongRest {
    type Rst = Time<Micros, 4294967296>;
    type Cycle = Time<Nanos, 1250>;
    type T1h = Time<Nanos, 900>;
    type T0h = Time<Nanos, 350>;
}

struct TooSlow;

impl Timings for TooSlow {
    type Rst = Time<Micros, 18446744073709551615>;
    type Cycle = Time<Micros, 16>;
    type T1h = Time<Micros, 8>;
    type T0h = Time<Micros, 4>;
}

const PADS: PadCounts = PadCounts { s1: 3, s2: 7, s3: 2 };

fn zero() -> Mark {
    Mark::Pulse(Pulse { high: 5, period: 20 })
}

fn one() -> Mark {
    Mark::Pulse(Pulse { high: 14, period: 20 })
}

fn train(bytes: &[u8]) -> Vec<Mark> {
    let mut marks = Vec::new();
    for byte in bytes {
        for j in 0..8 {
            marks.push(if byte & (0x80 >> j) != 0 { one() } else { zero() });
        }
    }
    marks
}

#[test]
fn masks_set_and_clear_one_bit() {
    assert_eq!(pin_masks(0b0000_0000, 1), (0b0000_0010, 0b0000_0000));
    assert_eq!(pin_masks(0b1111_1111, 1), (0b1111_1111, 0b1111_1101));
    assert_eq!(pin_masks(0b1010_0101, 7), (0b1010_0101, 0b0010_0101));
    assert_eq!(pin_masks(0b1010_0101, 3), (0b1010_1101, 0b1010_0101));
    assert_eq!(pin_masks(0b1010_0101, 0), (0b1010_0101, 0b1010_0100));
}

#[test]
fn level_of_a_pin_is_its_bit() {
    assert!(level_of(0b0000_0010, 1));
    assert!(!level_of(0b1111_1101, 1));
    assert!(level_of(0b1000_0000, 7));
    assert!(!level_of(0b1111_1111, 8));
}

#[test]
fn pixels_are_laid_out_in_their_own_order() {
    assert_eq!(RGB { r: 1, g: 2, b: 3 }.wire(), [1, 2, 3]);
    assert_eq!(GRB { g: 2, r: 1, b: 3 }.wire(), [2, 1, 3]);
    assert_eq!(BGR { b: 3, g: 2, r: 1 }.wire(), [3, 2, 1]);
    assert_eq!(RGB::from_wire([1, 2, 3]), RGB { r: 1, g: 2, b: 3 });
    assert_eq!(GRB::from_wire([2, 1, 3]), GRB { g: 2, r: 1, b: 3 });
    assert_eq!(BGR::from_wire([3, 2, 1]), BGR { b: 3, g: 2, r: 1 });
}

#[test]
fn buffer_goes_out_pixel_by_pixel() {
    let grb = [GRB { g: 10, r: 20, b: 30 }, GRB { g: 40, r: 50, b: 60 }];
    assert_eq!(pixel_bytes(&grb), vec![10, 20, 30, 40, 50, 60]);
    let rgb = [RGB { r: 20, g: 10, b: 30 }];
    assert_eq!(pixel_bytes(&rgb), vec![20, 10, 30]);
    let bgr = [BGR { b: 30, g: 10, r: 20 }];
    assert_eq!(pixel_bytes(&bgr), vec![30, 10, 20]);
    let empty: [GRB; 0] = [];
    assert_eq!(pixel_bytes(&empty), vec![]);
}

#[test]
fn stages_follow_the_bit() {
    assert_eq!(Phase::PinHigh.next(false), Phase::TestBit);
    assert_eq!(Phase::TestBit.next(false), Phase::PinLowEarly);
    assert_eq!(Phase::TestBit.next(true), Phase::ContinueHigh);
    assert_eq!(Phase::PinLowEarly.next(false), Phase::PinLowLate);
    assert_eq!(Phase::ContinueHigh.next(true), Phase::PinLowLate);
    assert_eq!(Phase::PinLowLate.next(true), Phase::NextBit);
    assert_eq!(Phase::NextBit.next(true), Phase::PinHigh);
}

#[test]
fn a_zero_bit_lowers_the_pin_early() {
    let mut code = Vec::new();
    emit_bit(&mut code, false, 0x02, 0x00, &PadCounts { s1: 1, s2: 2, s3: 3 });
    assert_eq!(
        code,
        vec![
            Instr::Out(0x02),
            Instr::Nop,
            Instr::SkipIfBitSet(false),
            Instr::Out(0x00),
            Instr::Lsl,
            Instr::Rjmp,
            Instr::Out(0x00),
            Instr::Rjmp,
            Instr::Nop,
            Instr::Dec,
            Instr::BranchNotEqual,
        ]
    );
}

#[test]
fn a_one_bit_skips_the_early_store() {
    let mut code = Vec::new();
    emit_bit(&mut code, true, 0x02, 0x00, &PadCounts { s1: 1, s2: 2, s3: 3 });
    assert_eq!(
        code,
        vec![
            Instr::Out(0x02),
            Instr::Nop,
            Instr::SkipIfBitSet(true),
            Instr::Lsl,
            Instr::Rjmp,
            Instr::Out(0x00),
            Instr::Rjmp,
            Instr::Nop,
            Instr::Dec,
            Instr::BranchNotEqual,
        ]
    );
}

#[test]
fn a_stage_emits_only_its_own_instructions() {
    let pads = PadCounts { s1: 2, s2: 1, s3: 0 };
    let mut code = vec![Instr::Nop];
    Phase::PinHigh.emit(&mut code, true, 0x02, 0x00, &pads);
    assert_eq!(code, vec![Instr::Nop, Instr::Out(0x02), Instr::Rjmp]);
    let mut code = Vec::new();
    Phase::PinLowEarly.emit(&mut code, false, 0x02, 0x00, &pads);
    assert_eq!(code, vec![Instr::Out(0x00), Instr::Lsl, Instr::Nop]);
    let mut code = Vec::new();
    Phase::ContinueHigh.emit(&mut code, true, 0x02, 0x00, &pads);
    assert_eq!(code, vec![Instr::Lsl, Instr::Nop]);
    let mut code = Vec::new();
    Phase::PinLowLate.emit(&mut code, true, 0x02, 0x00, &pads);
    assert_eq!(code, vec![Instr::Out(0x00)]);
}

#[test]
fn bytes_go_out_highest_bit_first() {
    let pads = PadCounts { s1: 0, s2: 0, s3: 0 };
    let code = ws2812_write(&[0b1000_0001], 0x02, 0x00, &pads);
    let tests: Vec<bool> = code
        .iter()
        .filter_map(|i| match i {
            Instr::SkipIfBitSet(skipped) => Some(*skipped),
            _ => None,
        })
        .collect();
    assert_eq!(tests, vec![true, false, false, false, false, false, false, true]);
    assert_eq!(code[0], Instr::LdImmediate(8));
    assert_eq!(code.len(), 1 + 2 * 6 + 6 * 7);
}

#[test]
fn nothing_to_send_is_no_instruction() {
    assert_eq!(ws2812_write(&[], 0x02, 0x00, &PADS), vec![]);
    assert_eq!(measure(&[], 1), vec![]);
}

#[test]
fn every_bit_lasts_the_same_whatever_its_value() {
    for bit in [false, true] {
        let mut code = Vec::new();
        emit_bit(&mut code, bit, 0x02, 0x00, &PADS);
        let cycles: u32 = code.iter().map(|i| i.cycles() as u32).sum();
        assert_eq!(cycles, 20);
    }
}

#[test]
fn pulses_of_a_byte_at_16_mhz() {
    let code = ws2812_write(&[0xA5], 0x02, 0x00, &PADS);
    let marks = measure(&code, 1);
    assert_eq!(
        marks,
        vec![one(), zero(), one(), zero(), zero(), one(), zero(), one()]
    );
}

#[test]
fn one_pulse_for_every_bit_of_every_pixel() {
    let data = [GRB { g: 0xFF, r: 0x00, b: 0x0F }; 5];
    let bytes = pixel_bytes(&data);
    let code = ws2812_write(&bytes, 0x02, 0x00, &PADS);
    let marks = measure(&code, 1);
    assert_eq!(marks.len(), 8 * 3 * 5);
    assert_eq!(marks, train(&bytes));
}

#[test]
fn probe_on_another_pin_sees_nothing() {
    let code = ws2812_write(&[0xA5], 0x02, 0x00, &PADS);
    assert_eq!(measure(&code, 0), vec![]);
    assert_eq!(measure(&code, 8), vec![]);
}

#[test]
fn probe_counts_from_the_rise_to_the_branch() {
    let mut probe = Probe::new(false);
    let mut marks = Vec::new();
    probe.step(&Instr::Nop, 1, &mut marks);
    assert_eq!(probe, Probe { level: false, active: false, high: 0, period: 0 });
    probe.step(&Instr::Out(0x02), 1, &mut marks);
    assert_eq!(probe, Probe { level: true, active: true, high: 0, period: 1 });
    probe.step(&Instr::Rjmp, 1, &mut marks);
    assert_eq!(probe, Probe { level: true, active: true, high: 2, period: 3 });
    probe.step(&Instr::Out(0x00), 1, &mut marks);
    assert_eq!(probe, Probe { level: false, active: true, high: 3, period: 4 });
    probe.step(&Instr::Nop, 1, &mut marks);
    assert_eq!(probe, Probe { level: false, active: true, high: 3, period: 5 });
    assert_eq!(marks, vec![]);
    probe.step(&Instr::BranchNotEqual, 1, &mut marks);
    assert_eq!(probe, Probe { level: false, active: false, high: 0, period: 0 });
    assert_eq!(marks, vec![Mark::Pulse(Pulse { high: 3, period: 7 })]);
}

#[test]
fn a_wait_ends_the_pulse_and_is_reported() {
    let code = [Instr::Out(0x02), Instr::Nop, Instr::DelayUs(50), Instr::DelayUs(7)];
    assert_eq!(
        measure(&code, 1),
        vec![
            Mark::Pulse(Pulse { high: 1, period: 2 }),
            Mark::Idle { high: true, micros: 50 },
            Mark::Idle { high: true, micros: 7 },
        ]
    );
}

#[test]
fn probe_counters_stop_at_their_limit() {
    let mut probe = Probe { level: true, active: true, high: u64::MAX - 1, period: u64::MAX };
    let mut marks = Vec::new();
    probe.step(&Instr::Rjmp, 1, &mut marks);
    assert_eq!(probe, Probe { level: true, active: true, high: u64::MAX, period: u64::MAX });
}

#[test]
fn marks_are_classified_by_shape() {
    assert_eq!(classify(&one(), &PADS), Symbol::One);
    assert_eq!(classify(&zero(), &PADS), Symbol::Zero);
    assert_eq!(classify(&Mark::Pulse(Pulse { high: 6, period: 20 }), &PADS), Symbol::Bad);
    assert_eq!(classify(&Mark::Pulse(Pulse { high: 5, period: 21 }), &PADS), Symbol::Bad);
    assert_eq!(classify(&Mark::Idle { high: false, micros: 1 }, &PADS), Symbol::Rest);
    assert_eq!(classify(&Mark::Idle { high: true, micros: 1 }, &PADS), Symbol::Bad);
}

#[test]
fn bits_pack_highest_first() {
    let bits = [true, false, true, false, false, true, false, true];
    assert_eq!(pack_bits(&bits), vec![0xA5]);
    assert_eq!(pack_bits(&[true, true, true]), vec![]);
    assert_eq!(pack_bits(&[]), vec![]);
    let mut two = bits.to_vec();
    two.extend_from_slice(&[false; 7]);
    two.push(true);
    assert_eq!(pack_bits(&two), vec![0xA5, 0x01]);
}

#[test]
fn what_was_sent_is_read_back() {
    let data: Vec<u8> = (0..=255).collect();
    let (maskhi, masklo) = pin_masks(0b0101_0101, 1);
    let code = ws2812_write(&data, maskhi, masklo, &PADS);
    let marks = measure(&code, 1);
    assert_eq!(decode(&marks, &PADS), Ok(data));
}

#[test]
fn round_trip_holds_for_every_padding_tried() {
    let data = [0x00, 0xFF, 0x5A, 0x80, 0x01];
    for pads in [
        PadCounts { s1: 0, s2: 0, s3: 0 },
        PadCounts { s1: 0, s2: 4, s3: 0 },
        PadCounts { s1: 255, s2: 255, s3: 255 },
        PadCounts { s1: 1, s2: 0, s3: 9 },
    ] {
        let code = ws2812_write(&data, 0x80, 0x00, &pads);
        let marks = measure(&code, 7);
        assert_eq!(marks.len(), 40);
        assert_eq!(decode(&marks, &pads), Ok(data.to_vec()));
    }
}

#[test]
fn first_mark_not_understood_is_reported() {
    let marks = vec![
        zero(),
        Mark::Idle { high: false, micros: 5 },
        Mark::Pulse(Pulse { high: 9, period: 20 }),
        Mark::Idle { high: true, micros: 5 },
    ];
    assert_eq!(decode(&marks, &PADS), Err(DecodeError::Malformed(2)));
    assert_eq!(read_bits(&marks, &PADS), Err(2));
    assert_eq!(
        decode(&[Mark::Idle { high: true, micros: 5 }], &PADS),
        Err(DecodeError::Malformed(0))
    );
}

#[test]
fn bits_that_fill_no_byte_are_reported() {
    let marks = vec![one(); 7];
    assert_eq!(decode(&marks, &PADS), Err(DecodeError::PartialByte));
    assert_eq!(read_bits(&marks, &PADS), Ok(vec![true; 7]));
    let marks = vec![one(); 9];
    assert_eq!(decode(&marks, &PADS), Err(DecodeError::PartialByte));
}

#[test]
fn rests_carry_no_bit() {
    let mut marks = train(&[0x3C]);
    marks.insert(3, Mark::Idle { high: false, micros: 9 });
    marks.push(Mark::Idle { high: false, micros: 250 });
    assert_eq!(decode(&marks, &PADS), Ok(vec![0x3C]));
    assert_eq!(decode(&[], &PADS), Ok(vec![]));
}

#[test]
fn driver_is_configured_once() {
    let driver: WS2812<D9, DefaultTimings, GRB> = WS2812::new(D9, 16_000_000).unwrap();
    assert_eq!(driver.pad_counts(), PADS);
    assert_eq!(driver.reset_time(), 250);
    let slow: WS2812<D9, DefaultTimings, GRB> = WS2812::new_with_timings(D9, 8_000_000).unwrap();
    assert_eq!(slow.pad_counts(), PadCounts { s1: 0, s2: 3, s3: 0 });
}

#[test]
fn driver_refuses_a_pin_off_the_port() {
    let r: Result<WS2812<Ghost8, DefaultTimings, GRB>, ConfigError> = WS2812::new(Ghost8, 16_000_000);
    assert_eq!(r.err(), Some(ConfigError::PinOutOfRange));
}

#[test]
fn driver_refuses_an_unordered_profile() {
    let r: Result<WS2812<D9, Unordered, GRB>, ConfigError> =
        WS2812::new_with_timings(D9, 16_000_000);
    assert_eq!(r.err(), Some(ConfigError::NotOrdered));
}

#[test]
fn frame_is_wrapped_in_a_critical_section_and_ends_with_the_reset() {
    let mut driver: WS2812<D9, DefaultTimings, GRB> = WS2812::new(D9, 16_000_000).unwrap();
    let data = [GRB { g: 1, r: 2, b: 3 }];
    let code = driver.write(0b1000_0001, &data);
    let mut expected = vec![Instr::EnterCritical, Instr::In(0b1000_0001)];
    expected.extend(ws2812_write(&[1, 2, 3], 0b1000_0011, 0b1000_0001, &PADS));
    expected.push(Instr::ExitCritical);
    expected.push(Instr::DelayUs(250));
    assert_eq!(code, expected);
}

#[test]
fn frame_of_nothing_still_rests() {
    let mut driver: WS2812<D9, DefaultTimings, RGB> = WS2812::new(D9, 16_000_000).unwrap();
    let code = driver.write(0, &[]);
    assert_eq!(
        code,
        vec![
            Instr::EnterCritical,
            Instr::In(0),
            Instr::ExitCritical,
            Instr::DelayUs(250)
        ]
    );
    assert_eq!(measure(&code, 1), vec![Mark::Idle { high: false, micros: 250 }]);
}

#[test]
fn frame_reads_back_in_the_order_of_the_channels() {
    let mut grb: WS2812<D9, DefaultTimings, GRB> = WS2812::new(D9, 16_000_000).unwrap();
    let marks = measure(&grb.write(0xF0, &[GRB { g: 1, r: 2, b: 3 }]), 1);
    assert_eq!(marks.len(), 25);
    assert_eq!(decode(&marks, &PADS), Ok(vec![1, 2, 3]));
    let mut rgb: WS2812<D9, DefaultTimings, RGB> = WS2812::new(D9, 16_000_000).unwrap();
    let marks = measure(&rgb.write(0xF0, &[RGB { g: 1, r: 2, b: 3 }]), 1);
    assert_eq!(decode(&marks, &PADS), Ok(vec![2, 1, 3]));
    let mut bgr: WS2812<D9, DefaultTimings, BGR> = WS2812::new(D9, 16_000_000).unwrap();
    let marks = measure(&bgr.write(0xF0, &[BGR { g: 1, r: 2, b: 3 }]), 1);
    assert_eq!(decode(&marks, &PADS), Ok(vec![3, 1, 2]));
}

#[test]
fn writing_twice_gives_the_same_train_twice() {
    let mut driver: WS2812<D9, DefaultTimings, GRB> = WS2812::new(D9, 16_000_000).unwrap();
    let data = [GRB { g: 0x12, r: 0x34, b: 0x56 }, GRB { g: 0x78, r: 0x9A, b: 0xBC }];
    let first = driver.write(0x00, &data);
    let second = driver.write(0x00, &data);
    assert_eq!(first, second);
    let mut both = first.clone();
    both.extend(driver.write(0xFD, &data));
    let marks = measure(&both, 1);
    let mut once = train(&[0x12, 0x34, 0x56, 0x78, 0x9A, 0xBC]);
    once.push(Mark::Idle { high: false, micros: 250 });
    let mut twice = once.clone();
    twice.extend(once.clone());
    assert_eq!(measure(&first, 1), once);
    assert_eq!(marks, twice);
    assert_eq!(
        decode(&marks, &PADS),
        Ok(vec![0x12, 0x34, 0x56, 0x78, 0x9A, 0xBC, 0x12, 0x34, 0x56, 0x78, 0x9A, 0xBC])
    );
}

#[test]
fn other_pins_of_the_port_keep_their_level() {
    let mut driver: WS2812<D9, DefaultTimings, GRB> = WS2812::new(D9, 16_000_000).unwrap();
    let code = driver.write(0b1010_0100, &[GRB { g: 0xFF, r: 0, b: 0x55 }]);
    for instr in &code {
        if let Instr::Out(value) = instr {
            assert_eq!(value & 0b1111_1101, 0b1010_0100);
        }
    }
}

#[test]
fn driver_refuses_a_reset_the_delay_cannot_take() {
    let r: Result<WS2812<D9, LongRest, GRB>, ConfigError> = WS2812::new_with_timings(D9, 16_000_000);
    assert_eq!(r.err(), Some(ConfigError::ResetTooLong));
}

#[test]
fn driver_reports_the_first_fault_of_a_profile() {
    let r: Result<WS2812<D9, TooSlow, GRB>, ConfigError> = WS2812::new_with_timings(D9, 16_000_000);
    assert_eq!(r.err(), Some(ConfigError::DurationTooLong));
    let r: Result<WS2812<Ghost8, TooSlow, GRB>, ConfigError> =
        WS2812::new_with_timings(Ghost8, 16_000_000);
    assert_eq!(r.err(), Some(ConfigError::PinOutOfRange));
}

#[test]
fn port_is_touched_only_with_interrupts_masked() {
    let mut driver: WS2812<D9, DefaultTimings, GRB> = WS2812::new(D9, 16_000_000).unwrap();
    let code = driver.write(0x40, &[GRB { g: 9, r: 8, b: 7 }, GRB { g: 6, r: 5, b: 4 }]);
    let mut depth = 0;
    for instr in &code {
        match instr {
            Instr::EnterCritical => depth += 1,
            Instr::ExitCritical => depth -= 1,
            Instr::DelayUs(_) => assert_eq!(depth, 0),
            _ => assert_eq!(depth, 1),
        }
    }
    assert_eq!(depth, 0);
    assert_eq!(code.last(), Some(&Instr::DelayUs(250)));
}

#[test]
fn pixels_are_read_back_from_their_bytes() {
    let grb: Option<Vec<GRB>> = unpack_pixels(&[10, 20, 30, 40, 50, 60]);
    assert_eq!(grb, Some(vec![GRB { g: 10, r: 20, b: 30 }, GRB { g: 40, r: 50, b: 60 }]));
    let bgr: Option<Vec<BGR>> = unpack_pixels(&[10, 20, 30]);
    assert_eq!(bgr, Some(vec![BGR { b: 10, g: 20, r: 30 }]));
    let none: Option<Vec<RGB>> = unpack_pixels(&[]);
    assert_eq!(none, Some(vec![]));
}

#[test]
fn bytes_that_fill_no_pixel_are_refused() {
    let short: Option<Vec<RGB>> = unpack_pixels(&[1, 2]);
    assert_eq!(short, None);
    let long: Option<Vec<RGB>> = unpack_pixels(&[1, 2, 3, 4]);
    assert_eq!(long, None);
}

#[test]
fn a_frame_gives_back_its_pixels() {
    let mut driver: WS2812<D9, DefaultTimings, GRB> = WS2812::new(D9, 16_000_000).unwrap();
    let data = [GRB { g: 0x12, r: 0x34, b: 0x56 }, GRB { g: 0x78, r: 0x9A, b: 0xBC }];
    let marks = measure(&driver.write(0x00, &data), 1);
    let bytes = decode(&marks, &driver.pad_counts()).unwrap();
    let pixels: Option<Vec<GRB>> = unpack_pixels(&bytes);
    assert_eq!(pixels, Some(data.to_vec()));
}

#[test]
fn pin_known_by_its_index_drives_that_bit() {
    assert_eq!(<PinAt<5> as StaticPin>::PIN_BIT_INDEX, 5);
    let mut driver: WS2812<PinAt<5>, DefaultTimings, GRB> =
        WS2812::new(PinAt {}, 16_000_000).unwrap();
    let code = driver.write(0x01, &[GRB { g: 0xC3, r: 0, b: 0xFF }]);
    assert_eq!(code[2], Instr::LdImmediate(8));
    assert_eq!(code[3], Instr::Out(0x21));
    let marks = measure(&code, 5);
    assert_eq!(decode(&marks, &PADS), Ok(vec![0xC3, 0x00, 0xFF]));
    let off: Result<WS2812<PinAt<9>, DefaultTimings, GRB>, ConfigError> =
        WS2812::new(PinAt {}, 16_000_000);
    assert_eq!(off.err(), Some(ConfigError::PinOutOfRange));
}

#[test]
fn frame_rests_for_no_less_than_a_reset_named_in_nanoseconds() {
    struct ShortRest;
    impl Timings for ShortRest {
        type Rst = Time<Nanos, 1500>;
        type Cycle = Time<Nanos, 1250>;
        type T1h = Time<Nanos, 900>;
        type T0h = Time<Nanos, 350>;
    }
    let mut driver: WS2812<D9, ShortRest, GRB> = WS2812::new_with_timings(D9, 16_000_000).unwrap();
    assert_eq!(driver.reset_time(), 2);
    let code = driver.write(0, &[GRB { g: 1, r: 2, b: 3 }]);
    assert_eq!(code.last(), Some(&Instr::DelayUs(2)));
    let marks = measure(&code, 1);
    assert_eq!(marks.last(), Some(&Mark::Idle { high: false, micros: 2 }));
}
