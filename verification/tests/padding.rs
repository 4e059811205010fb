use ws2812_avr::util::instr::Instr;
use ws2812_avr::util::nop_block::{emit_nops, nop_block, NopBlock, NopGen};

fn cycles_of(code: &[Instr]) -> u32 {
    code.iter().map(|i| i.cycles() as u32).sum()
}

#[test]
fn no_cycles_need_no_instruction() {
    assert_eq!(nop_block(0), vec![]);
}

#[test]
fn one_cycle_is_a_single_nop() {
    assert_eq!(nop_block(1), vec![Instr::Nop]);
}

#[test]
fn pairs_of_cycles_are_jumps() {
    assert_eq!(nop_block(2), vec![Instr::Rjmp]);
    assert_eq!(nop_block(4), vec![Instr::Rjmp, Instr::Rjmp]);
}

#[test]
fn odd_cycles_end_with_a_nop() {
    assert_eq!(nop_block(3), vec![Instr::Rjmp, Instr::Nop]);
    assert_eq!(nop_block(5), vec![Instr::Rjmp, Instr::Rjmp, Instr::Nop]);
}

#[test]
fn padding_spends_exactly_its_cycles_for_every_length() {
    for n in 0..=255u8 {
        let code = nop_block(n);
        assert_eq!(cycles_of(&code), n as u32);
        assert_eq!(code.len(), (n as usize + 1) / 2);
        assert!(code.iter().all(|i| i.is_padding()));
    }
}

#[test]
fn padding_is_appended_to_what_is_there() {
    let mut code = vec![Instr::Lsl];
    emit_nops(&mut code, 3);
    assert_eq!(code, vec![Instr::Lsl, Instr::Rjmp, Instr::Nop]);
}

#[test]
fn typed_block_generates_its_size() {
    assert_eq!(NopBlock::<0>::gen(), vec![]);
    assert_eq!(NopBlock::<1>::gen(), vec![Instr::Nop]);
    assert_eq!(NopBlock::<7>::gen(), vec![Instr::Rjmp, Instr::Rjmp, Instr::Rjmp, Instr::Nop]);
}

#[test]
fn instruction_costs() {
    assert_eq!(Instr::Out(0).cycles(), 1);
    assert_eq!(Instr::In(0).cycles(), 1);
    assert_eq!(Instr::Nop.cycles(), 1);
    assert_eq!(Instr::Rjmp.cycles(), 2);
    assert_eq!(Instr::SkipIfBitSet(false).cycles(), 1);
    assert_eq!(Instr::SkipIfBitSet(true).cycles(), 2);
    assert_eq!(Instr::Lsl.cycles(), 1);
    assert_eq!(Instr::LdImmediate(8).cycles(), 1);
    assert_eq!(Instr::Dec.cycles(), 1);
    assert_eq!(Instr::BranchNotEqual.cycles(), 2);
    assert_eq!(Instr::EnterCritical.cycles(), 1);
    assert_eq!(Instr::ExitCritical.cycles(), 1);
    assert_eq!(Instr::DelayUs(250).cycles(), 0);
    assert!(!Instr::Out(0).is_padding());
    assert!(!Instr::Lsl.is_padding());
}
