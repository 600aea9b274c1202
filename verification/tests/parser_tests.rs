use synacor::image::to_u16;
use synacor::parser::{arity, encode_operand, instruction, opcode, operand};
use synacor::types::{Fault, Immediate, Instruction, Operand, Register, SetSemantics};

#[test]
fn parser_parse_immediate() {
    let bytes = [3u8, 0];
    let result = Operand::Immediate(Immediate(3));

    let words = to_u16(&bytes).unwrap();
    match operand(words[0]) {
        Ok(parsed) => {
            assert_eq!(parsed, result);
            assert!(words.len() == 1);
        },
        _ => assert!(false),
    }
}

#[test]
fn parser_parse_register() {
    let bytes = [2u8, 0x80];
    let result = Operand::Register(Register(2));

    let words = to_u16(&bytes).unwrap();
    match operand(words[0]) {
        Ok(parsed) => {
            assert_eq!(parsed, result);
            assert!(words.len() == 1);
        },
        _ => assert!(false),
    }
}

#[test]
fn parser_parse_set_instruction() {
    let bytes = [1u8, 0, 2, 0x80, 3, 0];
    let result = Instruction::Set_(SetSemantics {
        a: Operand::Register(Register(2)),
        b: Operand::Immediate(Immediate(3)),
    });

    let words = to_u16(&bytes).unwrap();
    match instruction(&words, 0) {
        Ok((parsed, size)) => {
            assert_eq!(parsed, result);
            assert!(size as usize == words.len());
        },
        _ => panic!("Cannot parse."),
    }
}

#[test]
fn main_parse_immediate() {
    let bytes = [3u8, 0];
    let result = Operand::Immediate(Immediate(3));

    let words = to_u16(&bytes).unwrap();
    match operand(words[0]) {
        Ok(parsed) => {
            assert_eq!(parsed, result);
            assert!(words.len() == 1);
        },
        _ => assert!(false),
    }
}

#[test]
fn main_parse_register() {
    let bytes = [2u8, 0x80];
    let result = Operand::Register(Register(2));

    let words = to_u16(&bytes).unwrap();
    match operand(words[0]) {
        Ok(parsed) => {
            assert_eq!(parsed, result);
            assert!(words.len() == 1);
        },
        _ => assert!(false),
    }
}

#[test]
fn main_parse_set_instruction() {
    let bytes = [1u8, 0, 2, 0x80, 3, 0];
    let result = Instruction::Set_(SetSemantics {
        a: Operand::Register(Register(2)),
        b: Operand::Immediate(Immediate(3)),
    });

    let words = to_u16(&bytes).unwrap();
    match instruction(&words, 0) {
        Ok((parsed, size)) => {
            assert_eq!(parsed, result);
            assert!(size as usize == words.len());
        },
        _ => panic!("Cannot parse."),
    }
}

#[test]
fn operand_rejects_out_of_range_words() {
    assert_eq!(operand(32776), Err(Fault::InvalidOperand));
    assert_eq!(operand(65535), Err(Fault::InvalidOperand));
    assert_eq!(operand(32775), Ok(Operand::Register(Register(7))));
    assert_eq!(operand(32767), Ok(Operand::Immediate(Immediate(32767))));
}

#[test]
fn operand_round_trips_every_legal_word() {
    for w in 0u16..32776 {
        let op = operand(w).expect("legal operand word");
        assert_eq!(encode_operand(&op), w);
    }
}

#[test]
fn opcode_validates_the_range() {
    assert_eq!(opcode(0), Ok(0));
    assert_eq!(opcode(21), Ok(21));
    assert_eq!(opcode(22), Err(Fault::InvalidOpcode));
    assert_eq!(opcode(65535), Err(Fault::InvalidOpcode));
}

#[test]
fn arity_matches_the_opcode_table() {
    let expected: [u16; 22] = [0, 2, 1, 1, 3, 3, 1, 2, 2, 3, 3, 3, 3, 3, 2, 2, 2, 1, 0, 1, 1, 0];
    for op in 0u16..22 {
        assert_eq!(arity(op), expected[op as usize]);
    }
}

#[test]
fn decode_reports_invalid_opcode_and_operand() {
    let words: Vec<u16> = vec![22, 0, 0];
    assert_eq!(instruction(&words, 0), Err(Fault::InvalidOpcode));

    let words: Vec<u16> = vec![1, 40000, 0];
    assert_eq!(instruction(&words, 0), Err(Fault::InvalidOperand));
}

#[test]
fn decode_reports_truncated_input() {
    let words: Vec<u16> = vec![9, 1, 1];
    assert_eq!(instruction(&words, 0), Err(Fault::Truncated));

    let words: Vec<u16> = vec![0];
    assert_eq!(instruction(&words, 1), Err(Fault::Truncated));
}
