//! The decoder: from the words at the instruction pointer to a structured
//! instruction and the number of words consumed.  It is a pure function of
//! memory contents and never validates operand roles; writing through an
//! immediate is caught at execution time.

use vstd::prelude::*;

use crate::Word;
use crate::types::{
    AddSemantics, AndSemantics, CallSemantics, EqSemantics, Fault, GtSemantics, HaltSemantics,
    Immediate, InSemantics, Instruction, JfSemantics, JmpSemantics, JtSemantics, ModSemantics,
    MultSemantics, NoopSemantics, NotSemantics, OPCODE_MAX, OPERAND_LIMIT, Operand, OrSemantics,
    OutSemantics, PopSemantics, PushSemantics, REGISTER_BASE, Register, RetSemantics, RmemSemantics,
    SetSemantics, WmemSemantics,
};

verus! {

/// The meaning of one encoded operand word: an immediate below 32768, a
/// register reference up to 32775, invalid beyond.
pub open spec fn spec_operand(w: Word) -> Result<Operand, Fault> {
    if w < REGISTER_BASE {
        Ok(Operand::Immediate(Immediate(w)))
    } else if w < OPERAND_LIMIT {
        Ok(Operand::Register(Register((w - REGISTER_BASE) as Word)))
    } else {
        Err(Fault::InvalidOperand)
    }
}

/// The word that encodes an operand; the inverse of `spec_operand` on
/// well-formed operands.
pub open spec fn spec_encode_operand(op: Operand) -> Word
    recommends op.wf(),
{
    match op {
        Operand::Immediate(i) => i.0,
        Operand::Register(r) => (r.0 + REGISTER_BASE) as Word,
    }
}

/// How many operand words follow an opcode.
pub open spec fn spec_arity(op: Word) -> Word
    recommends op <= OPCODE_MAX,
{
    if op == 4 || op == 5 || (9 <= op && op <= 13) {
        3
    } else if op == 1 || op == 7 || op == 8 || (14 <= op && op <= 16) {
        2
    } else if op == 2 || op == 3 || op == 6 || op == 17 || op == 19 || op == 20 {
        1
    } else {
        0
    }
}

/// The instruction built from an opcode and its (already decoded) operands;
/// operands beyond the opcode's arity are ignored.
pub open spec fn spec_make_instruction(op: Word, a: Operand, b: Operand, c: Operand) -> Instruction
    recommends op <= OPCODE_MAX,
{
    if op == 0 {
        Instruction::Halt(HaltSemantics)
    } else if op == 1 {
        Instruction::Set_(SetSemantics { a, b })
    } else if op == 2 {
        Instruction::Push(PushSemantics { a })
    } else if op == 3 {
        Instruction::Pop(PopSemantics { a })
    } else if op == 4 {
        Instruction::Eq_(EqSemantics { a, b, c })
    } else if op == 5 {
        Instruction::Gt(GtSemantics { a, b, c })
    } else if op == 6 {
        Instruction::Jmp(JmpSemantics { a })
    } else if op == 7 {
        Instruction::Jt(JtSemantics { a, b })
    } else if op == 8 {
        Instruction::Jf(JfSemantics { a, b })
    } else if op == 9 {
        Instruction::Add(AddSemantics { a, b, c })
    } else if op == 10 {
        Instruction::Mult(MultSemantics { a, b, c })
    } else if op == 11 {
        Instruction::Mod(ModSemantics { a, b, c })
    } else if op == 12 {
        Instruction::And(AndSemantics { a, b, c })
    } else if op == 13 {
        Instruction::Or(OrSemantics { a, b, c })
    } else if op == 14 {
        Instruction::Not(NotSemantics { a, b })
    } else if op == 15 {
        Instruction::Rmem(RmemSemantics { a, b })
    } else if op == 16 {
        Instruction::Wmem(WmemSemantics { a, b })
    } else if op == 17 {
        Instruction::Call(CallSemantics { a })
    } else if op == 18 {
        Instruction::Ret(RetSemantics)
    } else if op == 19 {
        Instruction::Out(OutSemantics { a })
    } else if op == 20 {
        Instruction::In(InSemantics { a })
    } else {
        Instruction::Noop(NoopSemantics)
    }
}

/// The whole decoding step at address `ip` of `mem`: read the opcode,
/// validate it, read as many operand words as its arity asks, and build the
/// instruction together with the count of words consumed.
pub open spec fn spec_decode(mem: Seq<Word>, ip: Word) -> Result<(Instruction, Word), Fault> {
    if ip >= mem.len() {
        Err(Fault::Truncated)
    } else {
        let op = mem[ip as int];
        if op > OPCODE_MAX {
            Err(Fault::InvalidOpcode)
        } else {
            let n = spec_arity(op);
            if ip + 1 + n > mem.len() {
                Err(Fault::Truncated)
            } else if n >= 1 && spec_operand(mem[ip + 1]) is Err {
                Err(Fault::InvalidOperand)
            } else if n >= 2 && spec_operand(mem[ip + 2]) is Err {
                Err(Fault::InvalidOperand)
            } else if n >= 3 && spec_operand(mem[ip + 3]) is Err {
                Err(Fault::InvalidOperand)
            } else {
                let zero = Operand::Immediate(Immediate(0));
                let a = if n >= 1 { spec_operand(mem[ip + 1])->Ok_0 } else { zero };
                let b = if n >= 2 { spec_operand(mem[ip + 2])->Ok_0 } else { zero };
                let c = if n >= 3 { spec_operand(mem[ip + 3])->Ok_0 } else { zero };
                Ok((spec_make_instruction(op, a, b, c), (1 + n) as Word))
            }
        }
    }
}

/// Validate an opcode word: the identity on [0, 21], `InvalidOpcode` beyond.
pub fn opcode(w: Word) -> (r: Result<Word, Fault>)
    ensures
        w <= OPCODE_MAX ==> r == Ok::<Word, Fault>(w),
        w > OPCODE_MAX ==> r == Err::<Word, Fault>(Fault::InvalidOpcode),
{
    if w <= OPCODE_MAX {
        Ok(w)
    } else {
        Err(Fault::InvalidOpcode)
    }
}

/// Decode one operand word.
pub fn operand(w: Word) -> (r: Result<Operand, Fault>)
    ensures
        r == spec_operand(w),
        r matches Ok(op) ==> op.wf(),
        r is Ok <==> w < OPERAND_LIMIT,
{
    if w < REGISTER_BASE {
        Ok(Operand::Immediate(Immediate(w)))
    } else if w < OPERAND_LIMIT {
        Ok(Operand::Register(Register(w - REGISTER_BASE)))
    } else {
        Err(Fault::InvalidOperand)
    }
}

/// Encode an operand back into its memory word.
pub fn encode_operand(op: &Operand) -> (r: Word)
    requires op.wf(),
    ensures r == spec_encode_operand(*op),
{
    match op {
        Operand::Immediate(i) => i.0,
        Operand::Register(r) => r.0 + REGISTER_BASE,
    }
}

/// The operand count of a valid opcode.
pub fn arity(op: Word) -> (n: Word)
    requires op <= OPCODE_MAX,
    ensures n == spec_arity(op), n <= 3,
{
    if op == 4 || op == 5 || (9 <= op && op <= 13) {
        3
    } else if op == 1 || op == 7 || op == 8 || (14 <= op && op <= 16) {
        2
    } else if op == 2 || op == 3 || op == 6 || op == 17 || op == 19 || op == 20 {
        1
    } else {
        0
    }
}

/// Build the instruction for a valid opcode from its decoded operands.
pub fn make_instruction(op: Word, a: Operand, b: Operand, c: Operand) -> (instr: Instruction)
    requires op <= OPCODE_MAX,
    ensures instr == spec_make_instruction(op, a, b, c),
{
    if op == 0 {
        Instruction::Halt(HaltSemantics)
    } else if op == 1 {
        Instruction::Set_(SetSemantics { a, b })
    } else if op == 2 {
        Instruction::Push(PushSemantics { a })
    } else if op == 3 {
        Instruction::Pop(PopSemantics { a })
    } else if op == 4 {
        Instruction::Eq_(EqSemantics { a, b, c })
    } else if op == 5 {
        Instruction::Gt(GtSemantics { a, b, c })
    } else if op == 6 {
        Instruction::Jmp(JmpSemantics { a })
    } else if op == 7 {
        Instruction::Jt(JtSemantics { a, b })
    } else if op == 8 {
        Instruction::Jf(JfSemantics { a, b })
    } else if op == 9 {
        Instruction::Add(AddSemantics { a, b, c })
    } else if op == 10 {
        Instruction::Mult(MultSemantics { a, b, c })
    } else if op == 11 {
        Instruction::Mod(ModSemantics { a, b, c })
    } else if op == 12 {
        Instruction::And(AndSemantics { a, b, c })
    } else if op == 13 {
        Instruction::Or(OrSemantics { a, b, c })
    } else if op == 14 {
        Instruction::Not(NotSemantics { a, b })
    } else if op == 15 {
        Instruction::Rmem(RmemSemantics { a, b })
    } else if op == 16 {
        Instruction::Wmem(WmemSemantics { a, b })
    } else if op == 17 {
        Instruction::Call(CallSemantics { a })
    } else if op == 18 {
        Instruction::Ret(RetSemantics)
    } else if op == 19 {
        Instruction::Out(OutSemantics { a })
    } else if op == 20 {
        Instruction::In(InSemantics { a })
    } else {
        Instruction::Noop(NoopSemantics)
    }
}

/// Decode the instruction at address `ip` of `mem`.
pub fn instruction(mem: &Vec<Word>, ip: Word) -> (r: Result<(Instruction, Word), Fault>)
    ensures r == spec_decode(mem@, ip),
{
    if ip as usize >= mem.len() {
        return Err(Fault::Truncated);
    }
    let op = match opcode(mem[ip as usize]) {
        Ok(op) => op,
        Err(f) => { return Err(f); },
    };
    let n = arity(op);
    if ip as usize + 1 + n as usize > mem.len() {
        return Err(Fault::Truncated);
    }
    let zero = Operand::Immediate(Immediate(0));
    let mut a = zero;
    let mut b = zero;
    let mut c = zero;
    if n >= 1 {
        match operand(mem[ip as usize + 1]) {
            Ok(x) => { a = x; },
            Err(f) => { return Err(f); },
        }
    }
    if n >= 2 {
        match operand(mem[ip as usize + 2]) {
            Ok(x) => { b = x; },
            Err(f) => { return Err(f); },
        }
    }
    if n >= 3 {
        match operand(mem[ip as usize + 3]) {
            Ok(x) => { c = x; },
            Err(f) => { return Err(f); },
        }
    }
    Ok((make_instruction(op, a, b, c), 1 + n))
}

/// Everything the decoder guarantees of a successful decode: the
/// instruction is well-formed and the consumed words stay within memory.
pub proof fn lemma_decode_ok(mem: Seq<Word>, ip: Word)
    requires spec_decode(mem, ip) is Ok,
    ensures
        ({
            let (instr, size) = spec_decode(mem, ip)->Ok_0;
            &&& instr.wf()
            &&& 1 <= size <= 4
            &&& ip + size <= mem.len()
            &&& size == 1 + spec_arity(mem[ip as int])
        }),
{
}

} // verus!
