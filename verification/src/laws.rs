//! The machine's stated laws, proved from the specifications that the
//! executable functions are verified against.

use vstd::prelude::*;

use crate::Word;
use crate::parser::{spec_arity, spec_decode, spec_encode_operand, spec_operand};
use crate::program::spec_step;
use crate::semantics::{lemma_normalize_bound, not_value, spec_apply, spec_resolve};
use crate::types::{
    CallSemantics, Effect, Fault, Instruction, MachineModel, Operand, PopSemantics, PushSemantics,
    StepResult, MEMORY_WORDS, REGISTER_COUNT, WORD_MODULUS,
};

verus! {

/// The two ways a step can move a raw 16-bit datum into a register or onto
/// the stack: `rmem` copies a memory word bit-exactly, so a raw image word
/// at or above 2^15 passes through; and a `call` whose own words end flush
/// with memory pushes the one-past-the-end return address.
pub open spec fn step_moves_raw_word(pre: MachineModel) -> bool {
    pre.ip matches Some(ip0) && match spec_decode(pre.mem, ip0) {
        Ok((instr, size)) => {
            ||| (instr matches Instruction::Rmem(s) && {
                let addr = spec_resolve(pre.at_ip((ip0 + size) as Word), s.b);
                addr < pre.mem.len() && pre.mem[addr as int] >= WORD_MODULUS
            })
            ||| (instr matches Instruction::Call(_) && ip0 + size >= WORD_MODULUS)
        },
        Err(_) => false,
    }
}

/// Registers and stack hold only values below 2^15, and a step keeps it
/// so.  The exception named by `step_moves_raw_word` is real: data
/// movement is bit-exact, so `rmem` of a raw image word at or above 2^15
/// lands it in a register as it is.
pub proof fn lemma_step_preserves_bounded(pre: MachineModel, input: Option<u8>)
    requires
        pre.wf(),
        pre.regs_bounded(),
        pre.stack_bounded(),
        !step_moves_raw_word(pre),
    ensures
        spec_step(pre, input).0.regs_bounded(),
        spec_step(pre, input).0.stack_bounded(),
{
    if pre.ip is Some {
        let ip0 = pre.ip->0;
        match spec_decode(pre.mem, ip0) {
            Err(_) => {},
            Ok((instr, size)) => {
                crate::parser::lemma_decode_ok(pre.mem, ip0);
                let m1 = pre.at_ip((ip0 + size) as Word);
                assert(m1.wf());
                assert(m1.regs_bounded());
                assert(m1.stack_bounded());
                if instr matches Instruction::In(_) && input is None {
                } else {
                    let post = spec_apply(m1, instr, input).0;
                    match instr {
                        Instruction::Set_(s) => {
                            lemma_resolve_bounded(m1, s.b);
                            lemma_write_keeps_bounded(m1, s.a, spec_resolve(m1, s.b));
                        },
                        Instruction::Push(s) => {
                            lemma_resolve_bounded(m1, s.a);
                            lemma_push_keeps_bounded(m1.stack, spec_resolve(m1, s.a));
                        },
                        Instruction::Pop(s) => {
                            if m1.stack.len() > 0 {
                                lemma_write_keeps_bounded(m1, s.a, m1.stack.last());
                                lemma_drop_last_keeps_bounded(m1.stack);
                            }
                        },
                        Instruction::Eq_(s) => {
                            lemma_write_keeps_bounded(
                                m1,
                                s.a,
                                if spec_resolve(m1, s.b) == spec_resolve(m1, s.c) {
                                    1u16
                                } else {
                                    0u16
                                },
                            );
                        },
                        Instruction::Gt(s) => {
                            lemma_write_keeps_bounded(
                                m1,
                                s.a,
                                if spec_resolve(m1, s.b) > spec_resolve(m1, s.c) {
                                    1u16
                                } else {
                                    0u16
                                },
                            );
                        },
                        Instruction::Add(s) => {
                            lemma_write_keeps_bounded(
                                m1,
                                s.a,
                                crate::semantics::add_value(
                                    spec_resolve(m1, s.b),
                                    spec_resolve(m1, s.c),
                                ),
                            );
                        },
                        Instruction::Mult(s) => {
                            lemma_write_keeps_bounded(
                                m1,
                                s.a,
                                crate::semantics::mult_value(
                                    spec_resolve(m1, s.b),
                                    spec_resolve(m1, s.c),
                                ),
                            );
                        },
                        Instruction::Mod(s) => {
                            if spec_resolve(m1, s.c) != 0 {
                                let v = crate::semantics::mod_value(
                                    spec_resolve(m1, s.b),
                                    spec_resolve(m1, s.c),
                                );
                                lemma_normalize_bound(
                                    ((spec_resolve(m1, s.b) as int) % (spec_resolve(
                                        m1,
                                        s.c,
                                    ) as int)) as Word,
                                );
                                lemma_write_keeps_bounded(m1, s.a, v);
                            }
                        },
                        Instruction::And(s) => {
                            lemma_normalize_bound(spec_resolve(m1, s.b) & spec_resolve(m1, s.c));
                            lemma_write_keeps_bounded(
                                m1,
                                s.a,
                                crate::semantics::and_value(
                                    spec_resolve(m1, s.b),
                                    spec_resolve(m1, s.c),
                                ),
                            );
                        },
                        Instruction::Or(s) => {
                            lemma_normalize_bound(spec_resolve(m1, s.b) | spec_resolve(m1, s.c));
                            lemma_write_keeps_bounded(
                                m1,
                                s.a,
                                crate::semantics::or_value(
                                    spec_resolve(m1, s.b),
                                    spec_resolve(m1, s.c),
                                ),
                            );
                        },
                        Instruction::Not(s) => {
                            lemma_normalize_bound(!spec_resolve(m1, s.b));
                            lemma_write_keeps_bounded(
                                m1,
                                s.a,
                                crate::semantics::not_value(spec_resolve(m1, s.b)),
                            );
                        },
                        Instruction::Rmem(s) => {
                            let addr = spec_resolve(m1, s.b);
                            if addr < m1.mem.len() {
                                assert(pre.mem[addr as int] < WORD_MODULUS);
                                lemma_write_keeps_bounded(m1, s.a, m1.mem[addr as int]);
                            }
                        },
                        Instruction::Call(_) => {
                            assert(ip0 + size < WORD_MODULUS);
                            lemma_push_keeps_bounded(m1.stack, (ip0 + size) as Word);
                        },
                        Instruction::Ret(_) => {
                            if m1.stack.len() > 0 {
                                lemma_drop_last_keeps_bounded(m1.stack);
                            }
                        },
                        Instruction::In(s) => {
                            match input {
                                Some(b) => lemma_write_keeps_bounded(m1, s.a, b as Word),
                                None => {},
                            }
                        },
                        _ => {},
                    }
                    assert(post.regs_bounded());
                    assert(post.stack_bounded());
                }
            },
        }
    }
}

/// A well-formed operand resolves to a value below 2^15 when the registers
/// are bounded.
proof fn lemma_resolve_bounded(m: MachineModel, op: Operand)
    requires
        m.wf(),
        m.regs_bounded(),
        op.wf(),
    ensures
        spec_resolve(m, op) < WORD_MODULUS,
{
}

/// Writing a bounded value through an operand keeps the register bank
/// bounded and leaves the stack alone.
proof fn lemma_write_keeps_bounded(m: MachineModel, a: Operand, v: Word)
    requires
        m.wf(),
        a.wf(),
        m.regs_bounded(),
        v < WORD_MODULUS,
    ensures
        (crate::semantics::spec_write(m, a, v) matches Ok(m2) ==> m2.regs_bounded() && m2.stack
            == m.stack),
{
    match a {
        Operand::Register(r) => {
            let regs2 = m.regs.update(r.0 as int, v);
            assert forall|i: int| 0 <= i < regs2.len() implies regs2[i] < WORD_MODULUS by {
                if i != r.0 as int {
                    assert(regs2[i] == m.regs[i]);
                }
            }
        },
        Operand::Immediate(_) => {},
    }
}

/// Pushing a bounded value keeps a bounded sequence bounded.
proof fn lemma_push_keeps_bounded(s: Seq<Word>, v: Word)
    requires
        forall|i: int| 0 <= i < s.len() ==> s[i] < WORD_MODULUS,
        v < WORD_MODULUS,
    ensures
        forall|i: int| 0 <= i < s.push(v).len() ==> #[trigger] s.push(v)[i] < WORD_MODULUS,
{
    assert forall|i: int| 0 <= i < s.push(v).len() implies #[trigger] s.push(v)[i]
        < WORD_MODULUS by {
        if i < s.len() {
            assert(s.push(v)[i] == s[i]);
        } else {
            assert(s.push(v)[i] == v);
        }
    }
}

/// Dropping the last element keeps a bounded sequence bounded.
proof fn lemma_drop_last_keeps_bounded(s: Seq<Word>)
    requires
        s.len() > 0,
        forall|i: int| 0 <= i < s.len() ==> s[i] < WORD_MODULUS,
    ensures
        forall|i: int| 0 <= i < s.drop_last().len() ==> #[trigger] s.drop_last()[i] < WORD_MODULUS,
{
    assert forall|i: int| 0 <= i < s.drop_last().len() implies #[trigger] s.drop_last()[i]
        < WORD_MODULUS by {
        assert(s.drop_last()[i] == s[i]);
    }
}

/// A live instruction pointer never leaves [0, 32768]: it is a valid
/// address, or rests exactly at the end of memory after an instruction
/// whose words ended flush with it.
pub proof fn lemma_step_ip_in_range(pre: MachineModel, input: Option<u8>)
    requires
        pre.wf(),
    ensures
        spec_step(pre, input).0.wf(),
        spec_step(pre, input).0.ip matches Some(ip) ==> ip <= MEMORY_WORDS,
{
    if pre.ip is Some {
        let ip0 = pre.ip->0;
        if spec_decode(pre.mem, ip0) is Ok {
            crate::parser::lemma_decode_ok(pre.mem, ip0);
        }
    }
}

/// An instruction pointer resting at the end of memory is terminal: the
/// next step performs no semantics and faults on the truncated fetch.
pub proof fn lemma_end_of_memory_faults(pre: MachineModel, input: Option<u8>)
    requires
        pre.wf(),
        pre.ip == Some(MEMORY_WORDS as Word),
    ensures
        spec_step(pre, input).0 == pre.halted(),
        spec_step(pre, input).1 matches StepResult::Fault(fi) && fi.kind == Fault::Truncated,
{
}

/// Arithmetic and logical opcodes: `add`, `mult`, `mod`, `and`, `or`,
/// `not`.
pub open spec fn is_arith_or_logic(instr: Instruction) -> bool {
    ||| instr matches Instruction::Add(_)
    ||| instr matches Instruction::Mult(_)
    ||| instr matches Instruction::Mod(_)
    ||| instr matches Instruction::And(_)
    ||| instr matches Instruction::Or(_)
    ||| instr matches Instruction::Not(_)
}

/// Whatever an arithmetic or logical instruction writes to a register is
/// below 2^15: any register it changed holds a reduced value.
pub proof fn lemma_arith_writes_bounded(m: MachineModel, instr: Instruction, input: Option<u8>)
    requires
        m.wf(),
        instr.wf(),
        is_arith_or_logic(instr),
    ensures
        forall|i: int|
            0 <= i < spec_apply(m, instr, input).0.regs.len() && #[trigger] spec_apply(
                m,
                instr,
                input,
            ).0.regs[i] != m.regs[i] ==> spec_apply(m, instr, input).0.regs[i] < WORD_MODULUS,
{
    let post = spec_apply(m, instr, input).0;
    match instr {
        Instruction::Mod(s) => {
            if spec_resolve(m, s.c) != 0 {
                lemma_normalize_bound(((spec_resolve(m, s.b) as int) % (spec_resolve(
                    m,
                    s.c,
                ) as int)) as Word);
            }
        },
        Instruction::And(s) => {
            lemma_normalize_bound(spec_resolve(m, s.b) & spec_resolve(m, s.c));
        },
        Instruction::Or(s) => {
            lemma_normalize_bound(spec_resolve(m, s.b) | spec_resolve(m, s.c));
        },
        Instruction::Not(s) => {
            lemma_normalize_bound(!spec_resolve(m, s.b));
        },
        _ => {},
    }
    assert forall|i: int|
        0 <= i < post.regs.len() && #[trigger] post.regs[i] != m.regs[i] implies post.regs[i]
        < WORD_MODULUS by {}
}

/// A halted machine is inert: stepping it reports the halt and changes
/// nothing, so no further output or input can occur.
pub proof fn lemma_halted_machine_inert(pre: MachineModel, input: Option<u8>)
    requires
        pre.ip is None,
    ensures
        spec_step(pre, input).0 == pre,
        spec_step(pre, input).1 == StepResult::Halted,
{
}

/// `call` followed immediately by `ret` returns control to the instruction
/// after the call, with no net effect on stack, registers or memory.
pub proof fn lemma_call_ret_round_trip(
    pre: MachineModel,
    ip0: Word,
    a: Operand,
    size: Word,
    input1: Option<u8>,
    input2: Option<u8>,
)
    requires
        pre.wf(),
        pre.ip == Some(ip0),
        spec_decode(pre.mem, ip0) == Ok::<(Instruction, Word), Fault>(
            (Instruction::Call(CallSemantics { a }), size),
        ),
        // the call target is a valid address: the call itself succeeds
        spec_resolve(pre, a) < WORD_MODULUS,
        // the return address is a valid address
        ip0 + size < WORD_MODULUS,
        // the callee's first instruction is `ret`
        (spec_decode(pre.mem, spec_resolve(pre, a)) matches Ok(pair) && pair.0 matches
            Instruction::Ret(_)),
    ensures
        ({
            let m1 = spec_step(pre, input1).0;
            let m2 = spec_step(m1, input2).0;
            &&& spec_step(pre, input1).1 == StepResult::Running
            &&& m1.ip == Some(spec_resolve(pre, a))
            &&& m1.stack == pre.stack.push((ip0 + size) as Word)
            &&& spec_step(m1, input2).1 == StepResult::Running
            &&& m2.ip == Some((ip0 + size) as Word)
            &&& m2.stack == pre.stack
            &&& m2.regs == pre.regs
            &&& m2.mem == pre.mem
        }),
{
    let target = spec_resolve(pre, a);
    let ret_addr = (ip0 + size) as Word;
    crate::parser::lemma_decode_ok(pre.mem, ip0);
    let m1 = spec_step(pre, input1).0;
    assert(spec_resolve(pre.at_ip(ret_addr), a) == target);
    assert(m1.ip == Some(target));
    assert(m1.stack == pre.stack.push(ret_addr));
    assert(m1.mem == pre.mem);
    let m2 = spec_step(m1, input2).0;
    assert(m1.stack.last() == ret_addr);
    assert(m1.stack.drop_last() =~= pre.stack);
    assert(m2.stack == pre.stack);
    assert(m2.ip == Some(ret_addr));
}

/// `push x; pop a` leaves the stack as it was and sets register `a` to the
/// value `x` had at the push.
pub proof fn lemma_push_pop_round_trip(
    m: MachineModel,
    x: Operand,
    a: Operand,
    input1: Option<u8>,
    input2: Option<u8>,
)
    requires
        m.wf(),
        x.wf(),
        a matches Operand::Register(r) && r.0 < REGISTER_COUNT,
    ensures
        ({
            let push = Instruction::Push(PushSemantics { a: x });
            let pop = Instruction::Pop(PopSemantics { a });
            let m1 = spec_apply(m, push, input1).0;
            let m2 = spec_apply(m1, pop, input2).0;
            &&& spec_apply(m, push, input1).1 == Ok::<Effect, Fault>(Effect::Silent)
            &&& spec_apply(m1, pop, input2).1 == Ok::<Effect, Fault>(Effect::Silent)
            &&& m2.stack == m.stack
            &&& m2.regs == m.regs.update(a->Register_0.0 as int, spec_resolve(m, x))
            &&& m2.ip == m.ip
            &&& m2.mem == m.mem
        }),
{
    let push = Instruction::Push(PushSemantics { a: x });
    let pop = Instruction::Pop(PopSemantics { a });
    let m1 = spec_apply(m, push, input1).0;
    assert(m1.stack == m.stack.push(spec_resolve(m, x)));
    assert(m1.stack.last() == spec_resolve(m, x));
    assert(m1.stack.drop_last() =~= m.stack);
    let m2 = spec_apply(m1, pop, input2).0;
    assert(m2.stack == m.stack);
}

/// Operand decoding is a bijection on [0, 32776): every legal operand word
/// decodes, encoding the result gives the word back, and every well-formed
/// operand round-trips the other way; words at or above 32776 are refused.
pub proof fn lemma_operand_codec_bijective()
    ensures
        forall|w: Word|
            w < 32776 ==> (#[trigger] spec_operand(w)) is Ok && spec_encode_operand(
                spec_operand(w)->Ok_0,
            ) == w,
        forall|w: Word| w >= 32776 ==> (#[trigger] spec_operand(w)) is Err,
        forall|op: Operand|
            op.wf() ==> spec_operand(#[trigger] spec_encode_operand(op)) == Ok::<Operand, Fault>(
                op,
            ),
{
}

/// `not` is involutive modulo 2^15: applying it twice gives the original
/// value back.
pub proof fn lemma_not_involutive(v: Word)
    requires
        v < WORD_MODULUS,
    ensures
        not_value(not_value(v)) == v,
{
    assert((!((!v) & 0x7fff)) & 0x7fff == v) by (bit_vector)
        requires v < 0x8000;
}

} // verus!
