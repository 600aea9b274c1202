use synacor::image::{to_u16, ImageError};
use synacor::types::{Fault, Program, StepResult};

fn image_of(words: &[u16]) -> Vec<u8> {
    let mut bytes = Vec::new();
    for w in words {
        bytes.push((w & 0xff) as u8);
        bytes.push((w >> 8) as u8);
    }
    bytes
}

fn load(words: &[u16]) -> Program {
    Program::new(&image_of(words)).expect("valid image")
}

#[test]
fn to_u16_decodes_little_endian_pairs() {
    assert_eq!(to_u16(&[0x34, 0x12]).unwrap(), vec![0x1234]);
    assert_eq!(to_u16(&[0x01, 0x00, 0x00, 0x80]).unwrap(), vec![1, 32768]);
    assert_eq!(to_u16(&[]).unwrap(), Vec::<u16>::new());
}

#[test]
fn odd_length_images_are_rejected() {
    assert_eq!(to_u16(&[1, 2, 3]), Err(ImageError::OddLength));
    assert!(matches!(Program::new(&[0u8; 7]), Err(ImageError::OddLength)));
}

#[test]
fn oversized_images_are_rejected() {
    let bytes = vec![0u8; 2 * 32768 + 2];
    assert!(matches!(Program::new(&bytes), Err(ImageError::TooLarge)));
    let bytes = vec![0u8; 2 * 32768];
    assert!(Program::new(&bytes).is_ok());
}

#[test]
fn loading_places_words_from_address_zero() {
    let mut program = load(&[21, 1234, 40000]);
    assert_eq!(program.state.ip, Some(0));
    assert_eq!(program.state.memory[0], 21);
    assert_eq!(program.state.memory[1], 1234);
    assert_eq!(program.state.memory[2], 40000);
    assert_eq!(program.state.memory[3], 0);
    assert_eq!(program.state.memory[32767], 0);
    assert_eq!(program.state.registers, vec![0; 8]);
    assert!(program.state.stack.is_empty());
    assert_eq!(program.step(None), StepResult::Running);
}

#[test]
fn hello_byte_emits_and_halts() {
    let mut program = load(&[19, 65, 0]);
    assert_eq!(program.step(None), StepResult::Output(65));
    assert_eq!(program.step(None), StepResult::Halted);
    assert!(program.state.ip.is_none());
}

#[test]
fn register_set_and_echo() {
    let mut program = load(&[1, 32768, 72, 19, 32768, 0]);
    assert_eq!(program.step(None), StepResult::Running);
    assert_eq!(program.state.registers[0], 72);
    assert_eq!(program.step(None), StepResult::Output(72));
    assert_eq!(program.step(None), StepResult::Halted);
}

#[test]
fn add_with_wrap_leaves_zero_and_advances() {
    let mut program = load(&[9, 32768, 32767, 1, 0]);
    assert_eq!(program.step(None), StepResult::Running);
    assert_eq!(program.state.registers[0], 0);
    assert_eq!(program.state.ip, Some(4));
}

#[test]
fn call_and_ret_round_trip() {
    let mut program = load(&[17, 32768, 0, 0, 0, 18]);
    program.state.registers[0] = 5;
    assert_eq!(program.step(None), StepResult::Running);
    assert_eq!(program.state.ip, Some(5));
    assert_eq!(program.state.stack, vec![2]);
    assert_eq!(program.step(None), StepResult::Running);
    assert_eq!(program.state.ip, Some(2));
    assert!(program.state.stack.is_empty());
    assert_eq!(program.step(None), StepResult::Halted);
}

#[test]
fn conditional_jump_loops_back_to_the_top() {
    let mut program = load(&[7, 32768, 32769, 0]);
    program.state.registers[0] = 1;
    program.state.registers[1] = 0;
    for _ in 0..5 {
        assert_eq!(program.step(None), StepResult::Running);
        assert_eq!(program.state.ip, Some(0));
    }
}

#[test]
fn untaken_conditional_jump_falls_through() {
    let mut program = load(&[7, 32768, 32769, 0]);
    assert_eq!(program.step(None), StepResult::Running);
    assert_eq!(program.state.ip, Some(3));
    assert_eq!(program.step(None), StepResult::Halted);
}

#[test]
fn memory_write_then_read() {
    let mut program = load(&[16, 100, 1234, 15, 32768, 100, 0]);
    assert_eq!(program.step(None), StepResult::Running);
    assert_eq!(program.state.memory[100], 1234);
    assert_eq!(program.step(None), StepResult::Running);
    assert_eq!(program.state.registers[0], 1234);
    assert_eq!(program.step(None), StepResult::Halted);
    assert_eq!(program.state.memory[100], 1234);
}

#[test]
fn ret_on_an_empty_stack_halts_cleanly() {
    let mut program = load(&[18]);
    assert_eq!(program.step(None), StepResult::Halted);
    assert!(program.state.ip.is_none());
}

#[test]
fn input_blocks_until_a_byte_arrives() {
    let mut program = load(&[20, 32768, 19, 32768, 0]);
    assert_eq!(program.step(None), StepResult::NeedInput);
    assert_eq!(program.state.ip, Some(0));
    assert_eq!(program.step(Some(b'x')), StepResult::Running);
    assert_eq!(program.state.registers[0], b'x' as u16);
    assert_eq!(program.step(None), StepResult::Output(b'x'));
    assert_eq!(program.step(None), StepResult::Halted);
}

#[test]
fn a_halted_machine_stays_halted_and_silent() {
    let mut program = load(&[0]);
    assert_eq!(program.step(None), StepResult::Halted);
    for _ in 0..3 {
        assert_eq!(program.step(None), StepResult::Halted);
        assert_eq!(program.step(Some(7)), StepResult::Halted);
    }
}

#[test]
fn an_invalid_opcode_is_a_terminal_fault() {
    let mut program = load(&[22, 0, 0]);
    match program.step(None) {
        StepResult::Fault(info) => {
            assert_eq!(info.kind, Fault::InvalidOpcode);
            assert_eq!(info.ip, 0);
            assert_eq!(info.opcode, Some(22));
        },
        other => panic!("expected a fault, got {:?}", other),
    }
    assert!(program.state.ip.is_none());
    assert_eq!(program.step(None), StepResult::Halted);
}

#[test]
fn an_invalid_operand_is_a_terminal_fault() {
    let mut program = load(&[1, 40000, 0]);
    match program.step(None) {
        StepResult::Fault(info) => {
            assert_eq!(info.kind, Fault::InvalidOperand);
            assert_eq!(info.ip, 0);
            assert_eq!(info.opcode, Some(1));
        },
        other => panic!("expected a fault, got {:?}", other),
    }
}

#[test]
fn mod_by_zero_faults_through_the_step_loop() {
    let mut program = load(&[11, 32768, 7, 0, 0]);
    match program.step(None) {
        StepResult::Fault(info) => {
            assert_eq!(info.kind, Fault::DivideByZero);
            assert_eq!(info.ip, 0);
            assert_eq!(info.opcode, Some(11));
        },
        other => panic!("expected a fault, got {:?}", other),
    }
    assert!(program.state.ip.is_none());
}

#[test]
fn an_instruction_truncated_by_the_end_of_memory_faults() {
    let mut program = load(&[0]);
    program.state.ip = Some(32767);
    program.state.memory[32767] = 9;
    match program.step(None) {
        StepResult::Fault(info) => {
            assert_eq!(info.kind, Fault::Truncated);
            assert_eq!(info.ip, 32767);
            assert_eq!(info.opcode, Some(9));
        },
        other => panic!("expected a fault, got {:?}", other),
    }
}

#[test]
fn falling_off_the_end_of_memory_faults_on_the_next_fetch() {
    let mut program = load(&[0]);
    program.state.ip = Some(32767);
    program.state.memory[32767] = 21;
    assert_eq!(program.step(None), StepResult::Running);
    assert_eq!(program.state.ip, Some(32768));
    match program.step(None) {
        StepResult::Fault(info) => {
            assert_eq!(info.kind, Fault::Truncated);
            assert_eq!(info.ip, 32768);
            assert_eq!(info.opcode, None);
        },
        other => panic!("expected a fault, got {:?}", other),
    }
}

#[test]
fn a_jump_to_a_raw_out_of_range_word_faults() {
    let mut program = load(&[15, 32768, 5, 6, 32768, 40000]);
    assert_eq!(program.step(None), StepResult::Running);
    assert_eq!(program.state.registers[0], 40000);
    match program.step(None) {
        StepResult::Fault(info) => {
            assert_eq!(info.kind, Fault::OutOfRange);
            assert_eq!(info.ip, 3);
            assert_eq!(info.opcode, Some(6));
        },
        other => panic!("expected a fault, got {:?}", other),
    }
}

#[test]
fn out_emits_the_low_byte_only() {
    let mut program = load(&[19, 321, 0]);
    assert_eq!(program.step(None), StepResult::Output(65));
}
