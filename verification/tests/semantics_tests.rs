use synacor::semantics::normalize;
use synacor::types::{
    AddSemantics, EqSemantics, Fault, GtSemantics, Immediate, ModSemantics, MultSemantics,
    NotSemantics, Operand, PopSemantics, PushSemantics, Register, SetSemantics, State,
};

fn reg(i: u16) -> Operand {
    Operand::Register(Register(i))
}

fn imm(w: u16) -> Operand {
    Operand::Immediate(Immediate(w))
}

fn blank_state() -> State {
    State { ip: Some(0), registers: vec![0; 8], memory: vec![0; 32768], stack: Vec::new() }
}

#[test]
fn add_wraps_at_the_fifteen_bit_boundary() {
    let mut state = blank_state();
    let add = AddSemantics { a: reg(0), b: imm(16384), c: imm(16384) };
    assert_eq!(add.apply(&mut state), Ok(()));
    assert_eq!(state.registers[0], 0);
}

#[test]
fn mult_of_the_largest_words_wraps_to_one() {
    let mut state = blank_state();
    let mult = MultSemantics { a: reg(0), b: imm(32767), c: imm(32767) };
    assert_eq!(mult.apply(&mut state), Ok(()));
    assert_eq!(state.registers[0], 1);
}

#[test]
fn not_swaps_zero_and_the_largest_word() {
    let mut state = blank_state();
    let not_zero = NotSemantics { a: reg(0), b: imm(0) };
    assert_eq!(not_zero.apply(&mut state), Ok(()));
    assert_eq!(state.registers[0], 32767);

    let not_max = NotSemantics { a: reg(1), b: imm(32767) };
    assert_eq!(not_max.apply(&mut state), Ok(()));
    assert_eq!(state.registers[1], 0);
}

#[test]
fn not_twice_gives_the_original_value_back() {
    for v in [0u16, 1, 2, 12345, 16384, 32767] {
        let mut state = blank_state();
        let first = NotSemantics { a: reg(0), b: imm(v) };
        assert_eq!(first.apply(&mut state), Ok(()));
        let inverted = state.registers[0];
        let second = NotSemantics { a: reg(1), b: imm(inverted) };
        assert_eq!(second.apply(&mut state), Ok(()));
        assert_eq!(state.registers[1], v);
    }
}

#[test]
fn mod_with_zero_divisor_is_a_fault() {
    let mut state = blank_state();
    let modulus = ModSemantics { a: reg(0), b: imm(17), c: imm(0) };
    assert_eq!(modulus.apply(&mut state), Err(Fault::DivideByZero));
    assert_eq!(state.registers[0], 0);
}

#[test]
fn mod_computes_the_remainder() {
    let mut state = blank_state();
    let modulus = ModSemantics { a: reg(0), b: imm(17), c: imm(5) };
    assert_eq!(modulus.apply(&mut state), Ok(()));
    assert_eq!(state.registers[0], 2);
}

#[test]
fn pop_on_an_empty_stack_is_a_fault() {
    let mut state = blank_state();
    let pop = PopSemantics { a: reg(0) };
    assert_eq!(pop.apply(&mut state), Err(Fault::PopEmpty));
}

#[test]
fn writing_through_an_immediate_is_a_fault() {
    let mut state = blank_state();
    let set = SetSemantics { a: imm(5), b: imm(7) };
    assert_eq!(set.apply(&mut state), Err(Fault::IllegalTarget));
}

#[test]
fn push_then_pop_round_trips() {
    let mut state = blank_state();
    let push = PushSemantics { a: imm(42) };
    push.apply(&mut state);
    assert_eq!(state.stack, vec![42]);

    let pop = PopSemantics { a: reg(3) };
    assert_eq!(pop.apply(&mut state), Ok(()));
    assert_eq!(state.registers[3], 42);
    assert!(state.stack.is_empty());
}

#[test]
fn eq_and_gt_write_one_or_zero() {
    let mut state = blank_state();
    let eq = EqSemantics { a: reg(0), b: imm(4), c: imm(4) };
    assert_eq!(eq.apply(&mut state), Ok(()));
    assert_eq!(state.registers[0], 1);

    let eq = EqSemantics { a: reg(0), b: imm(4), c: imm(5) };
    assert_eq!(eq.apply(&mut state), Ok(()));
    assert_eq!(state.registers[0], 0);

    let gt = GtSemantics { a: reg(1), b: imm(5), c: imm(4) };
    assert_eq!(gt.apply(&mut state), Ok(()));
    assert_eq!(state.registers[1], 1);

    let gt = GtSemantics { a: reg(1), b: imm(4), c: imm(4) };
    assert_eq!(gt.apply(&mut state), Ok(()));
    assert_eq!(state.registers[1], 0);
}

#[test]
fn normalize_clears_the_high_bit() {
    assert_eq!(normalize(0), 0);
    assert_eq!(normalize(32767), 32767);
    assert_eq!(normalize(32768), 0);
    assert_eq!(normalize(65535), 32767);
}

#[test]
fn set_copies_the_source_value() {
    let mut state = blank_state();
    state.registers[1] = 777;
    let set = SetSemantics { a: reg(0), b: reg(1) };
    assert_eq!(set.apply(&mut state), Ok(()));
    assert_eq!(state.registers[0], 777);
}
