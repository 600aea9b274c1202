//! The machine state's operations and the step loop's core: fetch, decode,
//! advance, apply.

use vstd::prelude::*;

use crate::Word;
use crate::image::{spec_load, to_u16, ImageError};
use crate::parser::{instruction, lemma_decode_ok, spec_decode};
use crate::semantics::{spec_apply, spec_resolve, spec_set_ip, spec_write};
use crate::types::{
    Effect, Fault, FaultInfo, Instruction, MachineModel, Operand, Program, State, StepResult,
    MEMORY_WORDS, REGISTER_COUNT, WORD_MODULUS,
};

verus! {

/// The opcode word the driver is shown when a step faults: the word at the
/// faulting address, if there was one to read.
pub open spec fn fault_opcode(mem: Seq<Word>, ip: Word) -> Option<Word> {
    if ip < mem.len() {
        Some(mem[ip as int])
    } else {
        None
    }
}

/// How an applied instruction's outcome reads to the driver.
pub open spec fn step_result_of(res: Result<Effect, Fault>, ip0: Word, mem: Seq<Word>) -> StepResult {
    match res {
        Ok(Effect::Silent) => StepResult::Running,
        Ok(Effect::Output(b)) => StepResult::Output(b),
        Ok(Effect::NeedInput) => StepResult::NeedInput,
        Ok(Effect::Halted) => StepResult::Halted,
        Err(f) => StepResult::Fault(FaultInfo { kind: f, ip: ip0, opcode: fault_opcode(mem, ip0) }),
    }
}

/// One whole fetch-decode-execute cycle on the machine model.  A halted
/// machine stays put; a decoding failure is a terminal fault; an `in`
/// instruction without an input byte waits, changing nothing; otherwise the
/// instruction pointer advances past the instruction and the instruction's
/// semantics apply.
pub open spec fn spec_step(pre: MachineModel, input: Option<u8>) -> (MachineModel, StepResult) {
    match pre.ip {
        None => (pre, StepResult::Halted),
        Some(ip0) => match spec_decode(pre.mem, ip0) {
            Err(k) => (
                pre.halted(),
                StepResult::Fault(
                    FaultInfo { kind: k, ip: ip0, opcode: fault_opcode(pre.mem, ip0) },
                ),
            ),
            Ok((instr, size)) => if instr matches Instruction::In(_) && input is None {
                (pre, StepResult::NeedInput)
            } else {
                let outcome = spec_apply(pre.at_ip((ip0 + size) as Word), instr, input);
                (outcome.0, step_result_of(outcome.1, ip0, pre.mem))
            },
        },
    }
}

impl State {
    /// The value an operand denotes; never faults on a well-formed operand.
    pub fn resolve_operand(&self, operand: &Operand) -> (r: Word)
        requires
            self.wf(),
            operand.wf(),
        ensures
            r == spec_resolve(self@, *operand),
    {
        match operand {
            Operand::Register(index) => self.registers[index.0 as usize],
            Operand::Immediate(immediate) => immediate.0,
        }
    }

    /// Write a value through an operand; only a register is a legal target.
    pub fn set_operand(&mut self, operand: &Operand, value: Word) -> (r: Result<(), Fault>)
        requires
            old(self).wf(),
            operand.wf(),
        ensures
            final(self).wf(),
            ({
                match spec_write(old(self)@, *operand, value) {
                    Ok(m) => r == Ok::<(), Fault>(()) && final(self)@ == m,
                    Err(f) => r == Err::<(), Fault>(f) && final(self)@ == old(self)@,
                }
            }),
    {
        match operand {
            Operand::Register(index) => {
                self.registers[index.0 as usize] = value;
                proof {
                    assert(self@ =~= spec_write(old(self)@, *operand, value)->Ok_0);
                }
                Ok(())
            },
            Operand::Immediate(_) => Err(Fault::IllegalTarget),
        }
    }

    /// Push a word onto the operand stack.
    pub fn push(&mut self, value: Word)
        requires
            old(self).wf(),
        ensures
            final(self).wf(),
            final(self)@ == (MachineModel { stack: old(self)@.stack.push(value), ..old(self)@ }),
    {
        self.stack.push(value);
        proof {
            assert(self@ =~= (MachineModel { stack: old(self)@.stack.push(value), ..old(self)@ }));
        }
    }

    /// Pop the top of the operand stack; `None` on an empty stack, which
    /// leaves the state unchanged.
    pub fn pop(&mut self) -> (r: Option<Word>)
        requires
            old(self).wf(),
        ensures
            final(self).wf(),
            old(self)@.stack.len() == 0 ==> r is None && final(self)@ == old(self)@,
            old(self)@.stack.len() > 0 ==> r == Some(old(self)@.stack.last()) && final(self)@ == (
            MachineModel { stack: old(self)@.stack.drop_last(), ..old(self)@ }),
    {
        let r = self.stack.pop();
        proof {
            if old(self)@.stack.len() == 0 {
                assert(self@ =~= old(self)@);
            } else {
                assert(self@ =~= (MachineModel {
                    stack: old(self)@.stack.drop_last(),
                    ..old(self)@
                }));
            }
        }
        r
    }

    /// Read the memory word at an address; out of range is a fault.
    pub fn read_mem(&self, addr: Word) -> (r: Result<Word, Fault>)
        requires
            self.wf(),
        ensures
            addr < MEMORY_WORDS ==> r == Ok::<Word, Fault>(self@.mem[addr as int]),
            addr >= MEMORY_WORDS ==> r == Err::<Word, Fault>(Fault::OutOfRange),
    {
        if (addr as usize) < self.memory.len() {
            Ok(self.memory[addr as usize])
        } else {
            Err(Fault::OutOfRange)
        }
    }

    /// Write a memory word at an address; out of range is a fault.
    pub fn write_mem(&mut self, addr: Word, value: Word) -> (r: Result<(), Fault>)
        requires
            old(self).wf(),
        ensures
            final(self).wf(),
            addr < MEMORY_WORDS ==> r == Ok::<(), Fault>(()) && final(self)@ == (MachineModel {
                mem: old(self)@.mem.update(addr as int, value),
                ..old(self)@
            }),
            addr >= MEMORY_WORDS ==> r == Err::<(), Fault>(Fault::OutOfRange) && final(self)@
                == old(self)@,
    {
        if (addr as usize) < self.memory.len() {
            self.memory[addr as usize] = value;
            proof {
                assert(self@ =~= (MachineModel {
                    mem: old(self)@.mem.update(addr as int, value),
                    ..old(self)@
                }));
            }
            Ok(())
        } else {
            Err(Fault::OutOfRange)
        }
    }

    /// Jump: point the machine at `target`; out of range is a fault.
    pub fn set_ip(&mut self, target: Word) -> (r: Result<(), Fault>)
        requires
            old(self).wf(),
        ensures
            final(self).wf(),
            ({
                match spec_set_ip(old(self)@, target) {
                    Ok(m) => r == Ok::<(), Fault>(()) && final(self)@ == m,
                    Err(f) => r == Err::<(), Fault>(f) && final(self)@ == old(self)@,
                }
            }),
    {
        if target < WORD_MODULUS {
            self.ip = Some(target);
            proof {
                assert(self@ =~= spec_set_ip(old(self)@, target)->Ok_0);
            }
            Ok(())
        } else {
            Err(Fault::OutOfRange)
        }
    }

    /// Stop the machine; terminal.
    pub fn halt(&mut self)
        requires
            old(self).wf(),
        ensures
            final(self).wf(),
            final(self)@ == old(self)@.halted(),
    {
        self.ip = None;
        proof {
            assert(self@ =~= old(self)@.halted());
        }
    }

    /// Whether the machine has halted.
    pub fn is_halted(&self) -> (r: bool)
        ensures
            r == (self@.ip is None),
    {
        self.ip.is_none()
    }
}

/// A vector of `n` zero words.
fn zero_words(n: usize) -> (v: Vec<Word>)
    ensures
        v@.len() == n,
        forall|i: int| 0 <= i < n ==> v@[i] == 0u16,
{
    let mut v: Vec<Word> = Vec::new();
    let mut k: usize = 0;
    while k < n
        invariant
            k <= n,
            v@.len() == k,
            forall|i: int| 0 <= i < k ==> v@[i] == 0u16,
        decreases n - k,
    {
        v.push(0);
        k += 1;
    }
    v
}

impl Default for State {
    /// A blank machine: halted, registers and memory all zero, stack empty.
    fn default() -> (s: State)
        ensures
            s.wf(),
            s@.ip is None,
            forall|i: int| 0 <= i < REGISTER_COUNT ==> s@.regs[i] == 0u16,
            forall|i: int| 0 <= i < MEMORY_WORDS ==> s@.mem[i] == 0u16,
            s@.stack.len() == 0,
    {
        State {
            ip: None,
            registers: zero_words(REGISTER_COUNT),
            memory: zero_words(MEMORY_WORDS),
            stack: Vec::new(),
        }
    }
}

impl State {
    /// Load an image: its words fill memory from address 0, the rest is
    /// zero, and the machine is about to run at address 0.
    pub fn new(image: &[u8]) -> (r: Result<State, ImageError>)
        ensures
            image@.len() % 2 != 0 ==> r == Err::<State, ImageError>(ImageError::OddLength),
            image@.len() % 2 == 0 && image@.len() / 2 > MEMORY_WORDS ==> r == Err::<
                State,
                ImageError,
            >(ImageError::TooLarge),
            image@.len() % 2 == 0 && image@.len() / 2 <= MEMORY_WORDS ==> (r matches Ok(s)
                && s.wf() && s@ == spec_load(image@)),
    {
        let mut memory = match to_u16(image) {
            Ok(words) => words,
            Err(e) => {
                return Err(e);
            },
        };
        if memory.len() > MEMORY_WORDS {
            return Err(ImageError::TooLarge);
        }
        let ghost words0 = memory@;
        while memory.len() < MEMORY_WORDS
            invariant
                words0.len() <= memory@.len() <= MEMORY_WORDS,
                memory@.subrange(0, words0.len() as int) == words0,
                forall|i: int| words0.len() <= i < memory@.len() ==> memory@[i] == 0u16,
            decreases MEMORY_WORDS - memory@.len(),
        {
            memory.push(0);
        }
        let s = State { ip: Some(0), registers: zero_words(REGISTER_COUNT), memory, stack: Vec::new() };
        proof {
            assert(s@.mem =~= spec_load(image@).mem);
            assert(s@.regs =~= spec_load(image@).regs);
            assert(s@.stack =~= spec_load(image@).stack);
            assert(s@ =~= spec_load(image@));
        }
        Ok(s)
    }
}

impl Program {
    /// Load an image into a fresh machine.
    pub fn new(image: &[u8]) -> (r: Result<Program, ImageError>)
        ensures
            image@.len() % 2 != 0 ==> r == Err::<Program, ImageError>(ImageError::OddLength),
            image@.len() % 2 == 0 && image@.len() / 2 > MEMORY_WORDS ==> r == Err::<
                Program,
                ImageError,
            >(ImageError::TooLarge),
            image@.len() % 2 == 0 && image@.len() / 2 <= MEMORY_WORDS ==> (r matches Ok(p)
                && p.wf() && p@ == spec_load(image@)),
    {
        match State::new(image) {
            Ok(state) => Ok(Program { state }),
            Err(e) => Err(e),
        }
    }

    /// One fetch-decode-execute cycle.  `input` feeds an `in` instruction:
    /// with `None` the step reports `NeedInput` and changes nothing, so the
    /// driver can read a byte and step again.
    pub fn step(&mut self, input: Option<u8>) -> (r: StepResult)
        requires
            old(self).wf(),
        ensures
            final(self).wf(),
            final(self)@ == spec_step(old(self)@, input).0,
            r == spec_step(old(self)@, input).1,
    {
        let ip0 = match self.state.ip {
            None => {
                return StepResult::Halted;
            },
            Some(ip) => ip,
        };
        let (instr, size) = match instruction(&self.state.memory, ip0) {
            Ok(pair) => pair,
            Err(k) => {
                let opc = if (ip0 as usize) < self.state.memory.len() {
                    Some(self.state.memory[ip0 as usize])
                } else {
                    None
                };
                self.state.halt();
                return StepResult::Fault(FaultInfo { kind: k, ip: ip0, opcode: opc });
            },
        };
        let is_in = matches!(instr, Instruction::In(_));
        if is_in && input.is_none() {
            return StepResult::NeedInput;
        }
        proof {
            lemma_decode_ok(self.state.memory@, ip0);
        }
        let opc = self.state.memory[ip0 as usize];
        self.state.ip = Some(ip0 + size);
        let res = instr.apply(&mut self.state, input);
        match res {
            Ok(Effect::Silent) => StepResult::Running,
            Ok(Effect::Output(b)) => StepResult::Output(b),
            Ok(Effect::NeedInput) => StepResult::NeedInput,
            Ok(Effect::Halted) => StepResult::Halted,
            Err(f) => StepResult::Fault(FaultInfo { kind: f, ip: ip0, opcode: Some(opc) }),
        }
    }
}

} // verus!
