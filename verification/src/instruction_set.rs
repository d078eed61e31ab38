//! The closed instruction set: opcodes, operand widths, register names, and
//! the faults an execution step can report.

use vstd::prelude::*;

verus! {

/// One of the eight general-purpose registers.
#[derive(Clone, Copy, Debug, PartialEq, Eq, Structural)]
pub enum Register {
    I0,
    I1,
    I2,
    I3,
    I4,
    I5,
    I6,
    I7,
}

/// The operand width of an instruction: every value the instruction reads or
/// writes is truncated to this many bytes and sign-extended back to 64 bits.
#[derive(Clone, Copy, Debug, PartialEq, Eq, Structural)]
pub enum InstructionSize {
    OneByte,
    TwoByte,
    FourByte,
    EightByte,
}

/// The opcode class of a decoded instruction.
#[derive(Clone, Copy, Debug, PartialEq, Eq, Structural)]
pub enum InstructionType {
    // data movement
    MOV,
    // memory access
    LD,
    STR,
    // arithmetic
    ADD,
    SUB,
    INC,
    DEC,
    DIV,
    MUL,
    MOD,
    // bitwise
    AND,
    OR,
    XOR,
    NOT,
    // jumps
    JMP,
    JE,
    JNE,
    JL,
    JLE,
    JG,
    JGE,
    // stack
    PUSH,
    POP,
    CALL,
    RET,
    // i/o (dispatch points only; the port backend is an external collaborator)
    IN,
    OUT,
    // syscalls (dispatch points only; the handler is an external collaborator)
    SYSCALL,
    SYSRET,
    // other
    HALT,
}

/// A fatal condition raised by one execution step. The core has no internal
/// recovery: every fault aborts the step and leaves the machine state as it
/// was before the step began.
#[derive(Clone, Copy, Debug, PartialEq, Eq, Structural)]
pub enum Fault {
    /// The opcode's handler is not part of this core (its backend is an
    /// external collaborator), reported distinctly so a host can allowlist
    /// a partial instruction set.
    UnsupportedOperation,
    /// The instruction arrived with the wrong number of operands.
    ArityViolation,
    /// A write was directed at an `Immediate` operand.
    InvalidOperandTarget,
    /// A memory access whose address range falls outside the buffer.
    MemoryBounds,
    /// Division or modulo by zero.
    ArithmeticFault,
}

} // verus!
