//! The executor's semantics: for every instruction, a mathematical
//! description of its effect on the machine model, and a verified
//! implementation proved to match it.
//!
//! Fault discipline: every `apply` detects its fault before mutating, so on
//! an `Err` the state is unchanged; `Instruction::apply` then halts the
//! machine, faults being terminal.

use vstd::prelude::*;

use crate::Word;
use crate::types::{
    AddSemantics, AndSemantics, CallSemantics, Effect, EqSemantics, Fault, GtSemantics,
    HaltSemantics, InSemantics, Instruction, JfSemantics, JmpSemantics, JtSemantics, MachineModel,
    ModSemantics, MultSemantics, NoopSemantics, NotSemantics, Operand, OrSemantics, OutSemantics,
    PopSemantics, PushSemantics, RetSemantics, RmemSemantics, SetSemantics, State, WmemSemantics,
    WORD_MODULUS,
};

verus! {

/// The value an operand denotes: the literal of an immediate, the current
/// contents of a register.
pub open spec fn spec_resolve(m: MachineModel, op: Operand) -> Word
    recommends m.wf(), op.wf(),
{
    match op {
        Operand::Immediate(i) => i.0,
        Operand::Register(r) => m.regs[r.0 as int],
    }
}

/// A write through an operand: only a register is a legal target.
pub open spec fn spec_write(m: MachineModel, op: Operand, value: Word) -> Result<MachineModel, Fault>
    recommends m.wf(), op.wf(),
{
    match op {
        Operand::Register(r) => Ok(MachineModel { regs: m.regs.update(r.0 as int, value), ..m }),
        Operand::Immediate(_) => Err(Fault::IllegalTarget),
    }
}

/// A jump: the target must be a valid address.
pub open spec fn spec_set_ip(m: MachineModel, target: Word) -> Result<MachineModel, Fault> {
    if target < WORD_MODULUS {
        Ok(MachineModel { ip: Some(target), ..m })
    } else {
        Err(Fault::OutOfRange)
    }
}

/// Reduction modulo 2^15: clear the high bit of a 16-bit value.
pub open spec fn spec_normalize(w: Word) -> Word {
    w & 0x7fff
}

/// `add`: sum modulo 2^15.
pub open spec fn add_value(b: Word, c: Word) -> Word {
    ((b + c) % 32768) as Word
}

/// `mult`: product modulo 2^15.
pub open spec fn mult_value(b: Word, c: Word) -> Word {
    ((b * c) % 32768) as Word
}

/// `mod`: remainder, reduced modulo 2^15.
pub open spec fn mod_value(b: Word, c: Word) -> Word
    recommends c != 0,
{
    spec_normalize((b % c) as Word)
}

/// `and`: bitwise and, reduced modulo 2^15.
pub open spec fn and_value(b: Word, c: Word) -> Word {
    spec_normalize(b & c)
}

/// `or`: bitwise or, reduced modulo 2^15.
pub open spec fn or_value(b: Word, c: Word) -> Word {
    spec_normalize(b | c)
}

/// `not`: 15-bit bitwise inverse.
pub open spec fn not_value(b: Word) -> Word {
    spec_normalize(!b)
}

/// `out`: the low 8 bits of the resolved value.
pub open spec fn out_value(v: Word) -> u8 {
    (v & 0xff) as u8
}

pub open spec fn sem_set(m: MachineModel, a: Operand, b: Operand) -> Result<MachineModel, Fault> {
    spec_write(m, a, spec_resolve(m, b))
}

pub open spec fn sem_push(m: MachineModel, a: Operand) -> MachineModel {
    MachineModel { stack: m.stack.push(spec_resolve(m, a)), ..m }
}

pub open spec fn sem_pop(m: MachineModel, a: Operand) -> Result<MachineModel, Fault> {
    if m.stack.len() == 0 {
        Err(Fault::PopEmpty)
    } else {
        match spec_write(m, a, m.stack.last()) {
            Ok(m2) => Ok(MachineModel { stack: m.stack.drop_last(), ..m2 }),
            Err(f) => Err(f),
        }
    }
}

pub open spec fn sem_eq(m: MachineModel, a: Operand, b: Operand, c: Operand) -> Result<
    MachineModel,
    Fault,
> {
    spec_write(m, a, if spec_resolve(m, b) == spec_resolve(m, c) { 1u16 } else { 0u16 })
}

pub open spec fn sem_gt(m: MachineModel, a: Operand, b: Operand, c: Operand) -> Result<
    MachineModel,
    Fault,
> {
    spec_write(m, a, if spec_resolve(m, b) > spec_resolve(m, c) { 1u16 } else { 0u16 })
}

pub open spec fn sem_jmp(m: MachineModel, a: Operand) -> Result<MachineModel, Fault> {
    spec_set_ip(m, spec_resolve(m, a))
}

pub open spec fn sem_jt(m: MachineModel, a: Operand, b: Operand) -> Result<MachineModel, Fault> {
    if spec_resolve(m, a) != 0 {
        spec_set_ip(m, spec_resolve(m, b))
    } else {
        Ok(m)
    }
}

pub open spec fn sem_jf(m: MachineModel, a: Operand, b: Operand) -> Result<MachineModel, Fault> {
    if spec_resolve(m, a) == 0 {
        spec_set_ip(m, spec_resolve(m, b))
    } else {
        Ok(m)
    }
}

pub open spec fn sem_add(m: MachineModel, a: Operand, b: Operand, c: Operand) -> Result<
    MachineModel,
    Fault,
> {
    spec_write(m, a, add_value(spec_resolve(m, b), spec_resolve(m, c)))
}

pub open spec fn sem_mult(m: MachineModel, a: Operand, b: Operand, c: Operand) -> Result<
    MachineModel,
    Fault,
> {
    spec_write(m, a, mult_value(spec_resolve(m, b), spec_resolve(m, c)))
}

pub open spec fn sem_mod(m: MachineModel, a: Operand, b: Operand, c: Operand) -> Result<
    MachineModel,
    Fault,
> {
    if spec_resolve(m, c) == 0 {
        Err(Fault::DivideByZero)
    } else {
        spec_write(m, a, mod_value(spec_resolve(m, b), spec_resolve(m, c)))
    }
}

pub open spec fn sem_and(m: MachineModel, a: Operand, b: Operand, c: Operand) -> Result<
    MachineModel,
    Fault,
> {
    spec_write(m, a, and_value(spec_resolve(m, b), spec_resolve(m, c)))
}

pub open spec fn sem_or(m: MachineModel, a: Operand, b: Operand, c: Operand) -> Result<
    MachineModel,
    Fault,
> {
    spec_write(m, a, or_value(spec_resolve(m, b), spec_resolve(m, c)))
}

pub open spec fn sem_not(m: MachineModel, a: Operand, b: Operand) -> Result<MachineModel, Fault> {
    spec_write(m, a, not_value(spec_resolve(m, b)))
}

pub open spec fn sem_rmem(m: MachineModel, a: Operand, b: Operand) -> Result<MachineModel, Fault> {
    let addr = spec_resolve(m, b);
    if addr >= m.mem.len() {
        Err(Fault::OutOfRange)
    } else {
        spec_write(m, a, m.mem[addr as int])
    }
}

pub open spec fn sem_wmem(m: MachineModel, a: Operand, b: Operand) -> Result<MachineModel, Fault> {
    let addr = spec_resolve(m, a);
    if addr >= m.mem.len() {
        Err(Fault::OutOfRange)
    } else {
        Ok(MachineModel { mem: m.mem.update(addr as int, spec_resolve(m, b)), ..m })
    }
}

/// `call` runs with the instruction pointer already advanced: that address
/// is the return address it pushes.
pub open spec fn sem_call(m: MachineModel, a: Operand) -> Result<MachineModel, Fault>
    recommends m.ip is Some,
{
    let target = spec_resolve(m, a);
    if target >= WORD_MODULUS {
        Err(Fault::OutOfRange)
    } else {
        Ok(MachineModel { ip: Some(target), stack: m.stack.push(m.ip->0), ..m })
    }
}

pub open spec fn sem_ret(m: MachineModel) -> Result<MachineModel, Fault> {
    if m.stack.len() == 0 {
        Ok(m.halted())
    } else {
        let v = m.stack.last();
        if v >= WORD_MODULUS {
            Err(Fault::OutOfRange)
        } else {
            Ok(MachineModel { ip: Some(v), stack: m.stack.drop_last(), ..m })
        }
    }
}

pub open spec fn sem_in(m: MachineModel, a: Operand, byte: u8) -> Result<MachineModel, Fault> {
    spec_write(m, a, byte as Word)
}

/// How one `apply` call relates the old state, the new state and its result
/// to the outcome the semantics prescribe: on success the state moves to the
/// prescribed model, on a fault it stays put.
pub open spec fn applies_to(
    pre: MachineModel,
    post: MachineModel,
    r: Result<(), Fault>,
    o: Result<MachineModel, Fault>,
) -> bool {
    match o {
        Ok(m) => r == Ok::<(), Fault>(()) && post == m,
        Err(f) => r == Err::<(), Fault>(f) && post == pre,
    }
}

/// Lift a semantic outcome to the instruction level: a fault halts the
/// machine.
pub open spec fn apply_outcome(m: MachineModel, o: Result<MachineModel, Fault>) -> (
    MachineModel,
    Result<Effect, Fault>,
) {
    match o {
        Ok(m2) => (m2, Ok(Effect::Silent)),
        Err(f) => (m.halted(), Err(f)),
    }
}

/// The effect of any instruction on the machine model.  The instruction
/// pointer of `m` has already been advanced past the instruction.
pub open spec fn spec_apply(m: MachineModel, instr: Instruction, input: Option<u8>) -> (
    MachineModel,
    Result<Effect, Fault>,
) {
    match instr {
        Instruction::Halt(_) => (m.halted(), Ok(Effect::Halted)),
        Instruction::Set_(s) => apply_outcome(m, sem_set(m, s.a, s.b)),
        Instruction::Push(s) => (sem_push(m, s.a), Ok(Effect::Silent)),
        Instruction::Pop(s) => apply_outcome(m, sem_pop(m, s.a)),
        Instruction::Eq_(s) => apply_outcome(m, sem_eq(m, s.a, s.b, s.c)),
        Instruction::Gt(s) => apply_outcome(m, sem_gt(m, s.a, s.b, s.c)),
        Instruction::Jmp(s) => apply_outcome(m, sem_jmp(m, s.a)),
        Instruction::Jt(s) => apply_outcome(m, sem_jt(m, s.a, s.b)),
        Instruction::Jf(s) => apply_outcome(m, sem_jf(m, s.a, s.b)),
        Instruction::Add(s) => apply_outcome(m, sem_add(m, s.a, s.b, s.c)),
        Instruction::Mult(s) => apply_outcome(m, sem_mult(m, s.a, s.b, s.c)),
        Instruction::Mod(s) => apply_outcome(m, sem_mod(m, s.a, s.b, s.c)),
        Instruction::And(s) => apply_outcome(m, sem_and(m, s.a, s.b, s.c)),
        Instruction::Or(s) => apply_outcome(m, sem_or(m, s.a, s.b, s.c)),
        Instruction::Not(s) => apply_outcome(m, sem_not(m, s.a, s.b)),
        Instruction::Rmem(s) => apply_outcome(m, sem_rmem(m, s.a, s.b)),
        Instruction::Wmem(s) => apply_outcome(m, sem_wmem(m, s.a, s.b)),
        Instruction::Call(s) => apply_outcome(m, sem_call(m, s.a)),
        Instruction::Ret(_) => match sem_ret(m) {
            Ok(m2) => (m2, Ok(if m2.ip is None { Effect::Halted } else { Effect::Silent })),
            Err(f) => (m.halted(), Err(f)),
        },
        Instruction::Out(s) => (m, Ok(Effect::Output(out_value(spec_resolve(m, s.a))))),
        Instruction::In(s) => match input {
            Some(b) => apply_outcome(m, sem_in(m, s.a, b)),
            None => (m, Ok(Effect::NeedInput)),
        },
        Instruction::Noop(_) => (m, Ok(Effect::Silent)),
    }
}

/// Reduce a computed value modulo 2^15.
pub fn normalize(value: Word) -> (r: Word)
    ensures
        r == spec_normalize(value),
        r < WORD_MODULUS,
{
    proof {
        lemma_normalize_bound(value);
    }
    value & 0x7fff
}

/// The reduction modulo 2^15 always lands below 2^15, and is the identity
/// there.
pub proof fn lemma_normalize_bound(w: Word)
    ensures
        spec_normalize(w) < WORD_MODULUS,
        w < WORD_MODULUS ==> spec_normalize(w) == w,
{
    assert(w & 0x7fff < 0x8000) by (bit_vector);
    assert(w < 0x8000 ==> w & 0x7fff == w) by (bit_vector);
}

impl HaltSemantics {
    pub fn apply(&self, state: &mut State)
        requires
            old(state).wf(),
        ensures
            final(state).wf(),
            final(state)@ == old(state)@.halted(),
    {
        state.halt();
    }
}

impl NoopSemantics {
    pub fn apply(&self, state: &mut State)
        requires
            old(state).wf(),
        ensures
            final(state).wf(),
            final(state)@ == old(state)@,
    {
    }
}

impl SetSemantics {
    pub fn apply(&self, state: &mut State) -> (r: Result<(), Fault>)
        requires
            old(state).wf(),
            self.a.wf(),
            self.b.wf(),
        ensures
            final(state).wf(),
            applies_to(old(state)@, final(state)@, r, sem_set(old(state)@, self.a, self.b)),
    {
        let b = state.resolve_operand(&self.b);
        state.set_operand(&self.a, b)
    }
}

impl PushSemantics {
    pub fn apply(&self, state: &mut State)
        requires
            old(state).wf(),
            self.a.wf(),
        ensures
            final(state).wf(),
            final(state)@ == sem_push(old(state)@, self.a),
    {
        let a = state.resolve_operand(&self.a);
        state.push(a);
    }
}

impl PopSemantics {
    pub fn apply(&self, state: &mut State) -> (r: Result<(), Fault>)
        requires
            old(state).wf(),
            self.a.wf(),
        ensures
            final(state).wf(),
            applies_to(old(state)@, final(state)@, r, sem_pop(old(state)@, self.a)),
    {
        if state.stack.len() == 0 {
            return Err(Fault::PopEmpty);
        }
        match self.a {
            Operand::Immediate(_) => Err(Fault::IllegalTarget),
            Operand::Register(_) => {
                match state.pop() {
                    Some(v) => state.set_operand(&self.a, v),
                    None => Err(Fault::PopEmpty),
                }
            },
        }
    }
}

impl EqSemantics {
    pub fn apply(&self, state: &mut State) -> (r: Result<(), Fault>)
        requires
            old(state).wf(),
            self.a.wf(),
            self.b.wf(),
            self.c.wf(),
        ensures
            final(state).wf(),
            applies_to(old(state)@, final(state)@, r, sem_eq(old(state)@, self.a, self.b, self.c)),
    {
        let b = state.resolve_operand(&self.b);
        let c = state.resolve_operand(&self.c);
        state.set_operand(&self.a, if b == c { 1 } else { 0 })
    }
}

impl GtSemantics {
    pub fn apply(&self, state: &mut State) -> (r: Result<(), Fault>)
        requires
            old(state).wf(),
            self.a.wf(),
            self.b.wf(),
            self.c.wf(),
        ensures
            final(state).wf(),
            applies_to(old(state)@, final(state)@, r, sem_gt(old(state)@, self.a, self.b, self.c)),
    {
        let b = state.resolve_operand(&self.b);
        let c = state.resolve_operand(&self.c);
        state.set_operand(&self.a, if b > c { 1 } else { 0 })
    }
}

impl JmpSemantics {
    pub fn apply(&self, state: &mut State) -> (r: Result<(), Fault>)
        requires
            old(state).wf(),
            self.a.wf(),
        ensures
            final(state).wf(),
            applies_to(old(state)@, final(state)@, r, sem_jmp(old(state)@, self.a)),
    {
        let target = state.resolve_operand(&self.a);
        state.set_ip(target)
    }
}

impl JtSemantics {
    pub fn apply(&self, state: &mut State) -> (r: Result<(), Fault>)
        requires
            old(state).wf(),
            self.a.wf(),
            self.b.wf(),
        ensures
            final(state).wf(),
            applies_to(old(state)@, final(state)@, r, sem_jt(old(state)@, self.a, self.b)),
    {
        let a = state.resolve_operand(&self.a);
        if a != 0 {
            let b = state.resolve_operand(&self.b);
            state.set_ip(b)
        } else {
            Ok(())
        }
    }
}

impl JfSemantics {
    pub fn apply(&self, state: &mut State) -> (r: Result<(), Fault>)
        requires
            old(state).wf(),
            self.a.wf(),
            self.b.wf(),
        ensures
            final(state).wf(),
            applies_to(old(state)@, final(state)@, r, sem_jf(old(state)@, self.a, self.b)),
    {
        let a = state.resolve_operand(&self.a);
        if a == 0 {
            let b = state.resolve_operand(&self.b);
            state.set_ip(b)
        } else {
            Ok(())
        }
    }
}

impl AddSemantics {
    pub fn apply(&self, state: &mut State) -> (r: Result<(), Fault>)
        requires
            old(state).wf(),
            self.a.wf(),
            self.b.wf(),
            self.c.wf(),
        ensures
            final(state).wf(),
            applies_to(old(state)@, final(state)@, r, sem_add(old(state)@, self.a, self.b, self.c)),
    {
        let b = state.resolve_operand(&self.b);
        let c = state.resolve_operand(&self.c);
        let v = ((b as u32 + c as u32) % 32768) as u16;
        state.set_operand(&self.a, v)
    }
}

impl MultSemantics {
    pub fn apply(&self, state: &mut State) -> (r: Result<(), Fault>)
        requires
            old(state).wf(),
            self.a.wf(),
            self.b.wf(),
            self.c.wf(),
        ensures
            final(state).wf(),
            applies_to(
                old(state)@,
                final(state)@,
                r,
                sem_mult(old(state)@, self.a, self.b, self.c),
            ),
    {
        let b = state.resolve_operand(&self.b);
        let c = state.resolve_operand(&self.c);
        let bw = b as u64;
        let cw = c as u64;
        proof {
            assert(bw * cw <= 65535 * 65535) by (nonlinear_arith)
                requires bw <= 65535 && cw <= 65535;
        }
        let v = ((bw * cw) % 32768) as u16;
        state.set_operand(&self.a, v)
    }
}

impl ModSemantics {
    pub fn apply(&self, state: &mut State) -> (r: Result<(), Fault>)
        requires
            old(state).wf(),
            self.a.wf(),
            self.b.wf(),
            self.c.wf(),
        ensures
            final(state).wf(),
            applies_to(old(state)@, final(state)@, r, sem_mod(old(state)@, self.a, self.b, self.c)),
    {
        let b = state.resolve_operand(&self.b);
        let c = state.resolve_operand(&self.c);
        if c == 0 {
            return Err(Fault::DivideByZero);
        }
        let v = normalize(b % c);
        state.set_operand(&self.a, v)
    }
}

impl AndSemantics {
    pub fn apply(&self, state: &mut State) -> (r: Result<(), Fault>)
        requires
            old(state).wf(),
            self.a.wf(),
            self.b.wf(),
            self.c.wf(),
        ensures
            final(state).wf(),
            applies_to(old(state)@, final(state)@, r, sem_and(old(state)@, self.a, self.b, self.c)),
    {
        let b = state.resolve_operand(&self.b);
        let c = state.resolve_operand(&self.c);
        let v = normalize(b & c);
        state.set_operand(&self.a, v)
    }
}

impl OrSemantics {
    pub fn apply(&self, state: &mut State) -> (r: Result<(), Fault>)
        requires
            old(state).wf(),
            self.a.wf(),
            self.b.wf(),
            self.c.wf(),
        ensures
            final(state).wf(),
            applies_to(old(state)@, final(state)@, r, sem_or(old(state)@, self.a, self.b, self.c)),
    {
        let b = state.resolve_operand(&self.b);
        let c = state.resolve_operand(&self.c);
        let v = normalize(b | c);
        state.set_operand(&self.a, v)
    }
}

impl NotSemantics {
    pub fn apply(&self, state: &mut State) -> (r: Result<(), Fault>)
        requires
            old(state).wf(),
            self.a.wf(),
            self.b.wf(),
        ensures
            final(state).wf(),
            applies_to(old(state)@, final(state)@, r, sem_not(old(state)@, self.a, self.b)),
    {
        let b = state.resolve_operand(&self.b);
        let v = normalize(!b);
        state.set_operand(&self.a, v)
    }
}

impl RmemSemantics {
    pub fn apply(&self, state: &mut State) -> (r: Result<(), Fault>)
        requires
            old(state).wf(),
            self.a.wf(),
            self.b.wf(),
        ensures
            final(state).wf(),
            applies_to(old(state)@, final(state)@, r, sem_rmem(old(state)@, self.a, self.b)),
    {
        let addr = state.resolve_operand(&self.b);
        let v = match state.read_mem(addr) {
            Ok(v) => v,
            Err(f) => {
                return Err(f);
            },
        };
        state.set_operand(&self.a, v)
    }
}

impl WmemSemantics {
    pub fn apply(&self, state: &mut State) -> (r: Result<(), Fault>)
        requires
            old(state).wf(),
            self.a.wf(),
            self.b.wf(),
        ensures
            final(state).wf(),
            applies_to(old(state)@, final(state)@, r, sem_wmem(old(state)@, self.a, self.b)),
    {
        let addr = state.resolve_operand(&self.a);
        let v = state.resolve_operand(&self.b);
        state.write_mem(addr, v)
    }
}

impl CallSemantics {
    pub fn apply(&self, state: &mut State) -> (r: Result<(), Fault>)
        requires
            old(state).wf(),
            self.a.wf(),
            old(state)@.ip is Some,
        ensures
            final(state).wf(),
            applies_to(old(state)@, final(state)@, r, sem_call(old(state)@, self.a)),
    {
        let ret_addr = match state.ip {
            Some(ip) => ip,
            None => {
                return Err(Fault::OutOfRange);
            },
        };
        let target = state.resolve_operand(&self.a);
        if target >= WORD_MODULUS {
            return Err(Fault::OutOfRange);
        }
        state.push(ret_addr);
        state.set_ip(target)
    }
}

impl RetSemantics {
    pub fn apply(&self, state: &mut State) -> (r: Result<(), Fault>)
        requires
            old(state).wf(),
        ensures
            final(state).wf(),
            applies_to(old(state)@, final(state)@, r, sem_ret(old(state)@)),
    {
        if state.stack.len() == 0 {
            state.halt();
            return Ok(());
        }
        let v = state.stack[state.stack.len() - 1];
        if v >= WORD_MODULUS {
            return Err(Fault::OutOfRange);
        }
        let _ = state.pop();
        state.set_ip(v)
    }
}

impl OutSemantics {
    /// Compute the byte `out` emits; delivering it to the sink is the
    /// driver's part.
    pub fn apply(&self, state: &State) -> (b: u8)
        requires
            state.wf(),
            self.a.wf(),
        ensures
            b == out_value(spec_resolve(state@, self.a)),
    {
        let v = state.resolve_operand(&self.a);
        (v & 0xff) as u8
    }
}

impl InSemantics {
    /// Consume the byte the driver read from the input source.
    pub fn apply(&self, state: &mut State, byte: u8) -> (r: Result<(), Fault>)
        requires
            old(state).wf(),
            self.a.wf(),
        ensures
            final(state).wf(),
            applies_to(old(state)@, final(state)@, r, sem_in(old(state)@, self.a, byte)),
    {
        state.set_operand(&self.a, byte as Word)
    }
}


/// Turn a semantic outcome into the instruction-level result: a fault halts
/// the machine.
fn lift_outcome(state: &mut State, r: Result<(), Fault>) -> (res: Result<Effect, Fault>)
    requires
        old(state).wf(),
    ensures
        final(state).wf(),
        match r {
            Ok(()) => res == Ok::<Effect, Fault>(Effect::Silent) && final(state)@ == old(state)@,
            Err(f) => res == Err::<Effect, Fault>(f) && final(state)@ == old(state)@.halted(),
        },
{
    match r {
        Ok(()) => Ok(Effect::Silent),
        Err(f) => {
            state.halt();
            Err(f)
        },
    }
}

impl Instruction {
    /// Apply one decoded instruction to the state, whose instruction
    /// pointer has already been advanced past it.  A fault halts the
    /// machine.
    #[verifier::rlimit(100)]
    pub fn apply(&self, state: &mut State, input: Option<u8>) -> (r: Result<Effect, Fault>)
        requires
            old(state).wf(),
            self.wf(),
            self matches Instruction::Call(_) ==> old(state)@.ip is Some,
            self matches Instruction::In(_) ==> input is Some,
        ensures
            final(state).wf(),
            final(state)@ == spec_apply(old(state)@, *self, input).0,
            r == spec_apply(old(state)@, *self, input).1,
    {
        match self {
            Instruction::Halt(s) => {
                s.apply(state);
                Ok(Effect::Halted)
            },
            Instruction::Set_(s) => {
                let r = s.apply(state);
                lift_outcome(state, r)
            },
            Instruction::Push(s) => {
                s.apply(state);
                Ok(Effect::Silent)
            },
            Instruction::Pop(s) => {
                let r = s.apply(state);
                lift_outcome(state, r)
            },
            Instruction::Eq_(s) => {
                let r = s.apply(state);
                lift_outcome(state, r)
            },
            Instruction::Gt(s) => {
                let r = s.apply(state);
                lift_outcome(state, r)
            },
            Instruction::Jmp(s) => {
                let r = s.apply(state);
                lift_outcome(state, r)
            },
            Instruction::Jt(s) => {
                let r = s.apply(state);
                lift_outcome(state, r)
            },
            Instruction::Jf(s) => {
                let r = s.apply(state);
                lift_outcome(state, r)
            },
            Instruction::Add(s) => {
                let r = s.apply(state);
                lift_outcome(state, r)
            },
            Instruction::Mult(s) => {
                let r = s.apply(state);
                lift_outcome(state, r)
            },
            Instruction::Mod(s) => {
                let r = s.apply(state);
                lift_outcome(state, r)
            },
            Instruction::And(s) => {
                let r = s.apply(state);
                lift_outcome(state, r)
            },
            Instruction::Or(s) => {
                let r = s.apply(state);
                lift_outcome(state, r)
            },
            Instruction::Not(s) => {
                let r = s.apply(state);
                lift_outcome(state, r)
            },
            Instruction::Rmem(s) => {
                let r = s.apply(state);
                lift_outcome(state, r)
            },
            Instruction::Wmem(s) => {
                let r = s.apply(state);
                lift_outcome(state, r)
            },
            Instruction::Call(s) => {
                let r = s.apply(state);
                lift_outcome(state, r)
            },
            Instruction::Ret(s) => match s.apply(state) {
                Ok(()) => {
                    if state.is_halted() {
                        Ok(Effect::Halted)
                    } else {
                        Ok(Effect::Silent)
                    }
                },
                Err(f) => {
                    state.halt();
                    Err(f)
                },
            },
            Instruction::Out(s) => {
                let b = s.apply(state);
                Ok(Effect::Output(b))
            },
            Instruction::In(s) => {
                let r = s.apply(state, input.unwrap());
                lift_outcome(state, r)
            },
            Instruction::Noop(s) => {
                s.apply(state);
                Ok(Effect::Silent)
            },
        }
    }
}

} // verus!
