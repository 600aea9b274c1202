//! The data model of the machine: operands, instructions, faults, the
//! machine state and its mathematical model.

use vstd::prelude::*;

use crate::Word;

verus! {

/// Number of general-purpose registers.
pub const REGISTER_COUNT: usize = 8;

/// Number of addressable memory words.
pub const MEMORY_WORDS: usize = 32768;

/// All computed values are reduced modulo this (2^15).
pub const WORD_MODULUS: Word = 32768;

/// First word value that encodes a register reference.
pub const REGISTER_BASE: Word = 32768;

/// First word value that is not a legal operand encoding.
pub const OPERAND_LIMIT: Word = 32776;

/// Largest legal opcode value.
pub const OPCODE_MAX: Word = 21;

/// A register reference: an index in [0, 8).
#[derive(Debug, PartialEq, Eq, Clone, Copy)]
pub struct Register(pub Word);

/// An immediate operand: a literal word in [0, 32768).
#[derive(Debug, PartialEq, Eq, Clone, Copy)]
pub struct Immediate(pub Word);

/// A decoded operand: either a register reference or an immediate literal.
#[derive(Debug, PartialEq, Eq, Clone, Copy)]
pub enum Operand {
    Register(Register),
    Immediate(Immediate),
}

impl Operand {
    /// A well-formed operand, as the decoder produces it: register indices
    /// are in range and immediates fit in 15 bits.
    pub open spec fn wf(self) -> bool {
        match self {
            Operand::Register(r) => r.0 < REGISTER_COUNT,
            Operand::Immediate(i) => i.0 < WORD_MODULUS,
        }
    }
}

/// The ways a step can go wrong.  The first three arise while decoding the
/// words at the instruction pointer; the rest while applying an instruction.
#[derive(Debug, PartialEq, Eq, Clone, Copy)]
pub enum Fault {
    /// The word at the instruction pointer is not an opcode in [0, 21].
    InvalidOpcode,
    /// An operand word is in [32776, 65536).
    InvalidOperand,
    /// Memory ends before the instruction's operands do.
    Truncated,
    /// A pop was attempted on an empty stack.
    PopEmpty,
    /// A write was attempted through an immediate operand.
    IllegalTarget,
    /// A memory access or a jump target is outside [0, 32768).
    OutOfRange,
    /// A modulus with divisor zero.
    DivideByZero,
}

/// Context handed to the driver when a step faults: the kind, the address of
/// the instruction, and the opcode word where one could be read.
#[derive(Debug, PartialEq, Eq, Clone, Copy)]
pub struct FaultInfo {
    pub kind: Fault,
    pub ip: Word,
    pub opcode: Option<Word>,
}

/// What one applied instruction asks of the world.
#[derive(Debug, PartialEq, Eq, Clone, Copy)]
pub enum Effect {
    /// State changed; nothing observable.
    Silent,
    /// One byte is to be emitted on the output sink.
    Output(u8),
    /// The instruction needs an input byte that was not supplied.
    NeedInput,
    /// The machine reached a clean halt.
    Halted,
}

/// What the driver learns from one step.
#[derive(Debug, PartialEq, Eq, Clone, Copy)]
pub enum StepResult {
    /// The machine is still running; step again.
    Running,
    /// One byte was emitted; deliver it and step again.
    Output(u8),
    /// The current instruction reads input; step again with a byte.
    NeedInput,
    /// The machine halted cleanly (or already was halted).
    Halted,
    /// The machine halted on a fault.
    Fault(FaultInfo),
}

/// The mathematical model of the machine state, used by every contract.
#[verifier::ext_equal]
pub ghost struct MachineModel {
    /// The address of the next instruction, or `None` once halted.
    pub ip: Option<Word>,
    /// The eight registers.
    pub regs: Seq<Word>,
    /// The 32768 memory words.
    pub mem: Seq<Word>,
    /// The LIFO stack; the last element is the top.
    pub stack: Seq<Word>,
}

impl MachineModel {
    /// Structural well-formedness: the sizes are right and a live
    /// instruction pointer is at most one past the end of memory (it can
    /// rest exactly at the end after an instruction that filled the last
    /// words; the next fetch then faults).
    pub open spec fn wf(self) -> bool {
        &&& self.regs.len() == REGISTER_COUNT
        &&& self.mem.len() == MEMORY_WORDS
        &&& (self.ip matches Some(ip) ==> ip <= MEMORY_WORDS)
    }

    /// The same machine, halted.
    pub open spec fn halted(self) -> MachineModel {
        MachineModel { ip: None, ..self }
    }

    /// The same machine, about to execute at `ip`.
    pub open spec fn at_ip(self, ip: Word) -> MachineModel {
        MachineModel { ip: Some(ip), ..self }
    }

    /// Every register holds a value below 2^15.
    pub open spec fn regs_bounded(self) -> bool {
        forall|i: int| 0 <= i < self.regs.len() ==> self.regs[i] < WORD_MODULUS
    }

    /// Every stack entry holds a value below 2^15.
    pub open spec fn stack_bounded(self) -> bool {
        forall|i: int| 0 <= i < self.stack.len() ==> self.stack[i] < WORD_MODULUS
    }

    /// Every memory word holds a value below 2^15.  An image may legally
    /// break this: operand words that reference registers are 32768 or more.
    pub open spec fn mem_bounded(self) -> bool {
        forall|i: int| 0 <= i < self.mem.len() ==> self.mem[i] < WORD_MODULUS
    }
}

/// The mutable world of one machine: instruction pointer, registers, linear
/// memory and operand stack.
pub struct State {
    /// The address of the next instruction, or `None` once halted.
    pub ip: Option<Word>,
    /// Always exactly 8 registers.
    pub registers: Vec<Word>,
    /// Always exactly 32768 words.
    pub memory: Vec<Word>,
    /// The operand stack; the last element is the top.
    pub stack: Vec<Word>,
}

impl View for State {
    type V = MachineModel;

    open spec fn view(&self) -> MachineModel {
        MachineModel {
            ip: self.ip,
            regs: self.registers@,
            mem: self.memory@,
            stack: self.stack@,
        }
    }
}

impl State {
    /// Structural well-formedness of the concrete state.
    pub open spec fn wf(self) -> bool {
        self@.wf()
    }
}

/// A machine driven step by step from a loaded image.
pub struct Program {
    pub state: State,
}

impl View for Program {
    type V = MachineModel;

    open spec fn view(&self) -> MachineModel {
        self.state@
    }
}

impl Program {
    pub open spec fn wf(self) -> bool {
        self.state.wf()
    }
}

/// `halt`: the machine stops.
#[derive(Debug, PartialEq, Eq, Clone, Copy)]
pub struct HaltSemantics;

/// `noop`: no effect.
#[derive(Debug, PartialEq, Eq, Clone, Copy)]
pub struct NoopSemantics;

/// `set a b`: write the value of `b` into register `a`.
#[derive(Debug, PartialEq, Eq, Clone, Copy)]
pub struct SetSemantics {
    pub a: Operand,
    pub b: Operand,
}

/// `push a`: push the value of `a` onto the stack.
#[derive(Debug, PartialEq, Eq, Clone, Copy)]
pub struct PushSemantics {
    pub a: Operand,
}

/// `pop a`: pop the top of the stack into register `a`.
#[derive(Debug, PartialEq, Eq, Clone, Copy)]
pub struct PopSemantics {
    pub a: Operand,
}

/// `out a`: emit the low byte of the value of `a`.
#[derive(Debug, PartialEq, Eq, Clone, Copy)]
pub struct OutSemantics {
    pub a: Operand,
}

/// `in a`: read one input byte into register `a`.
#[derive(Debug, PartialEq, Eq, Clone, Copy)]
pub struct InSemantics {
    pub a: Operand,
}

/// `eq a b c`: `a` gets 1 if `b` equals `c`, else 0.
#[derive(Debug, PartialEq, Eq, Clone, Copy)]
pub struct EqSemantics {
    pub a: Operand,
    pub b: Operand,
    pub c: Operand,
}

/// `gt a b c`: `a` gets 1 if `b` is greater than `c`, else 0.
#[derive(Debug, PartialEq, Eq, Clone, Copy)]
pub struct GtSemantics {
    pub a: Operand,
    pub b: Operand,
    pub c: Operand,
}

/// `jmp a`: jump to the address in `a`.
#[derive(Debug, PartialEq, Eq, Clone, Copy)]
pub struct JmpSemantics {
    pub a: Operand,
}

/// `jt a b`: if `a` is nonzero, jump to `b`.
#[derive(Debug, PartialEq, Eq, Clone, Copy)]
pub struct JtSemantics {
    pub a: Operand,
    pub b: Operand,
}

/// `jf a b`: if `a` is zero, jump to `b`.
#[derive(Debug, PartialEq, Eq, Clone, Copy)]
pub struct JfSemantics {
    pub a: Operand,
    pub b: Operand,
}

/// `add a b c`: `a` gets `b + c` modulo 2^15.
#[derive(Debug, PartialEq, Eq, Clone, Copy)]
pub struct AddSemantics {
    pub a: Operand,
    pub b: Operand,
    pub c: Operand,
}

/// `mult a b c`: `a` gets `b * c` modulo 2^15.
#[derive(Debug, PartialEq, Eq, Clone, Copy)]
pub struct MultSemantics {
    pub a: Operand,
    pub b: Operand,
    pub c: Operand,
}

/// `mod a b c`: `a` gets `b` modulo `c`; divisor zero is a fault.
#[derive(Debug, PartialEq, Eq, Clone, Copy)]
pub struct ModSemantics {
    pub a: Operand,
    pub b: Operand,
    pub c: Operand,
}

/// `and a b c`: `a` gets the bitwise and of `b` and `c`.
#[derive(Debug, PartialEq, Eq, Clone, Copy)]
pub struct AndSemantics {
    pub a: Operand,
    pub b: Operand,
    pub c: Operand,
}

/// `or a b c`: `a` gets the bitwise or of `b` and `c`.
#[derive(Debug, PartialEq, Eq, Clone, Copy)]
pub struct OrSemantics {
    pub a: Operand,
    pub b: Operand,
    pub c: Operand,
}

/// `not a b`: `a` gets the 15-bit bitwise inverse of `b`.
#[derive(Debug, PartialEq, Eq, Clone, Copy)]
pub struct NotSemantics {
    pub a: Operand,
    pub b: Operand,
}

/// `rmem a b`: `a` gets the memory word at address `b`, bit-exact.
#[derive(Debug, PartialEq, Eq, Clone, Copy)]
pub struct RmemSemantics {
    pub a: Operand,
    pub b: Operand,
}

/// `wmem a b`: the memory word at address `a` gets the value of `b`.
#[derive(Debug, PartialEq, Eq, Clone, Copy)]
pub struct WmemSemantics {
    pub a: Operand,
    pub b: Operand,
}

/// `call a`: push the address of the next instruction, jump to `a`.
#[derive(Debug, PartialEq, Eq, Clone, Copy)]
pub struct CallSemantics {
    pub a: Operand,
}

/// `ret`: pop an address and jump to it; halt on an empty stack.
#[derive(Debug, PartialEq, Eq, Clone, Copy)]
pub struct RetSemantics;

/// A decoded instruction: one variant per opcode, in opcode order.
#[derive(Debug, PartialEq, Eq, Clone, Copy)]
pub enum Instruction {
    Halt(HaltSemantics),
    Set_(SetSemantics),
    Push(PushSemantics),
    Pop(PopSemantics),
    Eq_(EqSemantics),
    Gt(GtSemantics),
    Jmp(JmpSemantics),
    Jt(JtSemantics),
    Jf(JfSemantics),
    Add(AddSemantics),
    Mult(MultSemantics),
    Mod(ModSemantics),
    And(AndSemantics),
    Or(OrSemantics),
    Not(NotSemantics),
    Rmem(RmemSemantics),
    Wmem(WmemSemantics),
    Call(CallSemantics),
    Ret(RetSemantics),
    Out(OutSemantics),
    In(InSemantics),
    Noop(NoopSemantics),
}

impl Instruction {
    /// Every operand of the instruction is well-formed.
    pub open spec fn wf(self) -> bool {
        match self {
            Instruction::Halt(_) => true,
            Instruction::Set_(s) => s.a.wf() && s.b.wf(),
            Instruction::Push(s) => s.a.wf(),
            Instruction::Pop(s) => s.a.wf(),
            Instruction::Eq_(s) => s.a.wf() && s.b.wf() && s.c.wf(),
            Instruction::Gt(s) => s.a.wf() && s.b.wf() && s.c.wf(),
            Instruction::Jmp(s) => s.a.wf(),
            Instruction::Jt(s) => s.a.wf() && s.b.wf(),
            Instruction::Jf(s) => s.a.wf() && s.b.wf(),
            Instruction::Add(s) => s.a.wf() && s.b.wf() && s.c.wf(),
            Instruction::Mult(s) => s.a.wf() && s.b.wf() && s.c.wf(),
            Instruction::Mod(s) => s.a.wf() && s.b.wf() && s.c.wf(),
            Instruction::And(s) => s.a.wf() && s.b.wf() && s.c.wf(),
            Instruction::Or(s) => s.a.wf() && s.b.wf() && s.c.wf(),
            Instruction::Not(s) => s.a.wf() && s.b.wf(),
            Instruction::Rmem(s) => s.a.wf() && s.b.wf(),
            Instruction::Wmem(s) => s.a.wf() && s.b.wf(),
            Instruction::Call(s) => s.a.wf(),
            Instruction::Ret(_) => true,
            Instruction::Out(s) => s.a.wf(),
            Instruction::In(s) => s.a.wf(),
            Instruction::Noop(_) => true,
        }
    }
}

} // verus!
