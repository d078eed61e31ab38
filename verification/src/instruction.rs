//! One decoded operation, as the external fetch/decode stage hands it to the
//! execution dispatcher.

use vstd::prelude::*;
use crate::instruction_set::{InstructionSize, InstructionType, Register};

verus! {

/// A tagged operand: an immediate literal or a register reference.
/// Immediates are read-only; a write directed at one is a fault.
#[derive(Clone, Copy, Debug, PartialEq, Eq, Structural)]
pub enum InstructionParam {
    Immediate(i64),
    Register(Register),
}

/// One decoded instruction: the opcode class, the operand width every read
/// and write of this instruction uses, and the ordered operands (arity fixed
/// per opcode).
pub struct Instruction {
    pub instruction: InstructionType,
    pub size: InstructionSize,
    pub params: Vec<InstructionParam>,
}

} // verus!
