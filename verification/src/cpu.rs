//! The execution dispatcher: applies the semantics of one decoded
//! instruction to a machine state as a single synchronous transformation.
//!
//! Conventions this core fixes (the data model leaves them open):
//! - Two-operand instructions list the source first and the destination
//!   second; the computed value of `ADD`, `SUB`, `MUL`, `DIV`, `MOD` and the
//!   bitwise pair ops is `destination op source`.
//! - Conditional jumps take an explicit operand pair to compare plus the
//!   target: there is no flags register.
//! - The stack grows downward: `PUSH` decrements `sp` by the instruction
//!   size and writes at the new `sp`; `POP` reads at `sp` and increments it.
//! - `CALL` pushes the current `pc` (the external fetch loop is expected to
//!   have advanced it past the `CALL` already) at the instruction's size and
//!   jumps; `RET` pops `pc` at the instruction's size. A decoder should emit
//!   `CALL`/`RET` at the eight-byte size so addresses survive whole.
//! - `LD`/`STR` resolve their address operand like any other operand, at the
//!   instruction's size: no instruction reads or writes a value at a width
//!   other than its own.
//!
//! `execute` never advances `pc` past the current instruction; that is the
//! external fetch loop's responsibility, except where an instruction
//! explicitly redirects control flow.

use vstd::prelude::*;
use vstd::arithmetic::div_mod::{lemma_div_multiples_vanish, lemma_mod_bound};
use crate::instruction::{Instruction, InstructionParam};
use crate::instruction_set::{Fault, InstructionSize, InstructionType, Register};
use crate::machine_state::{
    reg_idx, spec_get_value, spec_read_mem, spec_set_value, spec_write_mem, MachineState,
    MachineView,
};
use crate::width::{
    lemma_crop_congruent, lemma_sign_extend_mod64, lemma_sign_extend_of_extended,
    lemma_sign_extend_wrapped, lemma_tdiv_fits, lemma_tmod_fits, sign_extend, size_bytes,
    size_width, tdiv, tmod,
};

verus! {

/// The opcodes this core executes itself. `IN`/`OUT` and
/// `SYSCALL`/`SYSRET` only dispatch to external collaborators (a port
/// table, a syscall handler), so they are reported as the distinct
/// unsupported-operation fault and a host can allowlist around them.
pub open spec fn supported(t: InstructionType) -> bool {
    !(t == InstructionType::IN || t == InstructionType::OUT || t == InstructionType::SYSCALL
        || t == InstructionType::SYSRET)
}

/// The number of operands each supported opcode takes.
pub open spec fn arity(t: InstructionType) -> int {
    match t {
        InstructionType::MOV => 2,
        InstructionType::LD => 2,
        InstructionType::STR => 2,
        InstructionType::ADD => 2,
        InstructionType::SUB => 2,
        InstructionType::INC => 1,
        InstructionType::DEC => 1,
        InstructionType::DIV => 2,
        InstructionType::MUL => 2,
        InstructionType::MOD => 2,
        InstructionType::AND => 2,
        InstructionType::OR => 2,
        InstructionType::XOR => 2,
        InstructionType::NOT => 1,
        InstructionType::JMP => 1,
        InstructionType::JE => 3,
        InstructionType::JNE => 3,
        InstructionType::JL => 3,
        InstructionType::JLE => 3,
        InstructionType::JG => 3,
        InstructionType::JGE => 3,
        InstructionType::PUSH => 1,
        InstructionType::POP => 1,
        InstructionType::CALL => 1,
        InstructionType::RET => 0,
        InstructionType::IN => 0,
        InstructionType::OUT => 0,
        InstructionType::SYSCALL => 0,
        InstructionType::SYSRET => 0,
        InstructionType::HALT => 0,
    }
}

/// Whether a conditional jump's predicate holds of the two compared values.
pub open spec fn jump_taken(t: InstructionType, a: int, b: int) -> bool {
    match t {
        InstructionType::JE => a == b,
        InstructionType::JNE => a != b,
        InstructionType::JL => a < b,
        InstructionType::JLE => a <= b,
        InstructionType::JG => a > b,
        InstructionType::JGE => a >= b,
        _ => false,
    }
}

/// The value a two-operand computing instruction stores into its
/// destination, over the operands as resolved at the instruction's size.
/// Arithmetic is exact here; the width rule of `set_value` reduces the
/// result to the instruction's size afterwards.
pub open spec fn alu_value(t: InstructionType, dst: int, src: int) -> int {
    match t {
        InstructionType::ADD => dst + src,
        InstructionType::SUB => dst - src,
        InstructionType::MUL => dst * src,
        InstructionType::DIV => tdiv(dst, src),
        InstructionType::MOD => tmod(dst, src),
        InstructionType::AND => ((dst as i64) & (src as i64)) as int,
        InstructionType::OR => ((dst as i64) | (src as i64)) as int,
        InstructionType::XOR => ((dst as i64) ^ (src as i64)) as int,
        _ => 0,
    }
}

/// One step of a two-operand computing instruction: resolve both operands
/// at the instruction's size, fault on a zero divisor, and otherwise store
/// the computed value into the destination.
pub open spec fn step_compute(
    pre: MachineView,
    t: InstructionType,
    size: InstructionSize,
    src_p: InstructionParam,
    dst_p: InstructionParam,
) -> Result<MachineView, Fault> {
    let src = spec_get_value(pre, src_p, size);
    let dst = spec_get_value(pre, dst_p, size);
    if (t == InstructionType::DIV || t == InstructionType::MOD) && src == 0 {
        Err(Fault::ArithmeticFault)
    } else {
        spec_set_value(pre, alu_value(t, dst, src), dst_p, size)
    }
}

/// One step of `LD`: read the instruction size's worth of bytes at the
/// resolved address and store the value into the destination operand.
pub open spec fn step_load(
    pre: MachineView,
    size: InstructionSize,
    addr_p: InstructionParam,
    dst_p: InstructionParam,
) -> Result<MachineView, Fault> {
    match spec_read_mem(pre, spec_get_value(pre, addr_p, size), size) {
        Ok(v) => spec_set_value(pre, v, dst_p, size),
        Err(f) => Err(f),
    }
}

/// One step of `STR`: write the resolved source value at the resolved
/// address, at the instruction's size.
pub open spec fn step_store(
    pre: MachineView,
    size: InstructionSize,
    src_p: InstructionParam,
    addr_p: InstructionParam,
) -> Result<MachineView, Fault> {
    spec_write_mem(pre, spec_get_value(pre, addr_p, size), spec_get_value(pre, src_p, size), size)
}

/// One step of a conditional jump: compare the first two resolved operands
/// and set `pc` to the third only if the predicate holds.
pub open spec fn step_cond_jump(
    pre: MachineView,
    t: InstructionType,
    size: InstructionSize,
    a_p: InstructionParam,
    b_p: InstructionParam,
    target_p: InstructionParam,
) -> Result<MachineView, Fault> {
    if jump_taken(t, spec_get_value(pre, a_p, size), spec_get_value(pre, b_p, size)) {
        Ok(MachineView { pc: spec_get_value(pre, target_p, size), ..pre })
    } else {
        Ok(pre)
    }
}

/// One step of `PUSH`: decrement `sp` by the instruction size and write the
/// value at the new `sp`.
pub open spec fn step_push(pre: MachineView, size: InstructionSize, value: int) -> Result<
    MachineView,
    Fault,
> {
    let n = size_bytes(size);
    match spec_write_mem(pre, pre.sp - n, value, size) {
        Ok(m) => Ok(MachineView { sp: pre.sp - n, ..m }),
        Err(f) => Err(f),
    }
}

/// One step of `POP`: read at `sp`, increment `sp` by the instruction size,
/// and store the value into the destination operand.
pub open spec fn step_pop(pre: MachineView, size: InstructionSize, dst_p: InstructionParam) -> Result<
    MachineView,
    Fault,
> {
    let n = size_bytes(size);
    match spec_read_mem(pre, pre.sp, size) {
        Ok(v) => if pre.sp + n > 0x7fff_ffff_ffff_ffff {
            Err(Fault::MemoryBounds)
        } else {
            match spec_set_value(pre, v, dst_p, size) {
                Ok(m) => Ok(MachineView { sp: pre.sp + n, ..m }),
                Err(f) => Err(f),
            }
        },
        Err(f) => Err(f),
    }
}

/// One step of `CALL`: push the current `pc` as the return address, then
/// jump to the resolved target.
pub open spec fn step_call(pre: MachineView, size: InstructionSize, target: int) -> Result<
    MachineView,
    Fault,
> {
    let n = size_bytes(size);
    match spec_write_mem(pre, pre.sp - n, pre.pc, size) {
        Ok(m) => Ok(MachineView { sp: pre.sp - n, pc: target, ..m }),
        Err(f) => Err(f),
    }
}

/// One step of `RET`: pop the return address at `sp` into `pc`.
pub open spec fn step_ret(pre: MachineView, size: InstructionSize) -> Result<MachineView, Fault> {
    let n = size_bytes(size);
    match spec_read_mem(pre, pre.sp, size) {
        Ok(v) => if pre.sp + n > 0x7fff_ffff_ffff_ffff {
            Err(Fault::MemoryBounds)
        } else {
            Ok(MachineView { pc: v, sp: pre.sp + n, ..pre })
        },
        Err(f) => Err(f),
    }
}

/// The complete semantics of one execution step: what `execute` does to a
/// machine state, or the fault that aborts the step and leaves the state
/// unchanged. Unsupported opcodes are reported first, then operand arity is
/// validated, then the opcode's effect is applied.
pub open spec fn step(
    pre: MachineView,
    t: InstructionType,
    size: InstructionSize,
    params: Seq<InstructionParam>,
) -> Result<MachineView, Fault> {
    if !supported(t) {
        Err(Fault::UnsupportedOperation)
    } else if params.len() != arity(t) {
        Err(Fault::ArityViolation)
    } else {
        match t {
            InstructionType::MOV => spec_set_value(
                pre,
                spec_get_value(pre, params[0], size),
                params[1],
                size,
            ),
            InstructionType::LD => step_load(pre, size, params[0], params[1]),
            InstructionType::STR => step_store(pre, size, params[0], params[1]),
            InstructionType::ADD
            | InstructionType::SUB
            | InstructionType::MUL
            | InstructionType::DIV
            | InstructionType::MOD
            | InstructionType::AND
            | InstructionType::OR
            | InstructionType::XOR => step_compute(pre, t, size, params[0], params[1]),
            InstructionType::INC => spec_set_value(
                pre,
                spec_get_value(pre, params[0], size) + 1,
                params[0],
                size,
            ),
            InstructionType::DEC => spec_set_value(
                pre,
                spec_get_value(pre, params[0], size) - 1,
                params[0],
                size,
            ),
            InstructionType::NOT => spec_set_value(
                pre,
                -spec_get_value(pre, params[0], size) - 1,
                params[0],
                size,
            ),
            InstructionType::JMP => Ok(
                MachineView { pc: spec_get_value(pre, params[0], size), ..pre },
            ),
            InstructionType::JE
            | InstructionType::JNE
            | InstructionType::JL
            | InstructionType::JLE
            | InstructionType::JG
            | InstructionType::JGE => step_cond_jump(pre, t, size, params[0], params[1], params[2]),
            InstructionType::PUSH => step_push(pre, size, spec_get_value(pre, params[0], size)),
            InstructionType::POP => step_pop(pre, size, params[0]),
            InstructionType::CALL => step_call(pre, size, spec_get_value(pre, params[0], size)),
            InstructionType::RET => step_ret(pre, size),
            InstructionType::HALT => Ok(MachineView { halt: true, ..pre }),
            _ => Err(Fault::UnsupportedOperation),
        }
    }
}

/// The value a one-operand computing instruction stores back into its
/// operand: increment, decrement, or bitwise complement (which on two's
/// complement values is `-v - 1` at every width).
pub open spec fn unary_value(t: InstructionType, v: int) -> int {
    match t {
        InstructionType::INC => v + 1,
        InstructionType::DEC => v - 1,
        InstructionType::NOT => -v - 1,
        _ => 0,
    }
}

/// How an execution step's outcome shows up at the caller: on `Ok` the new
/// state is exactly the stepped view, on a fault the reported fault is the
/// step's and the state is exactly the pre-state.
pub open spec fn step_obeys(
    pre: MachineView,
    post: MachineView,
    r: Result<(), Fault>,
    outcome: Result<MachineView, Fault>,
) -> bool {
    match outcome {
        Ok(m) => r == Ok::<(), Fault>(()) && post == m,
        Err(f) => r == Err::<(), Fault>(f) && post == pre,
    }
}

/// The instruction size in bytes, as an executable value.
fn size_len(size: &InstructionSize) -> (n: i64)
    ensures
        n as int == size_bytes(*size),
{
    match size {
        InstructionSize::OneByte => 1,
        InstructionSize::TwoByte => 2,
        InstructionSize::FourByte => 4,
        InstructionSize::EightByte => 8,
    }
}

/// `MOV`: read the source at the instruction's size, write the result to
/// the destination at the same size.
fn exec_mov(
    ms: &mut MachineState,
    src_p: &InstructionParam,
    dst_p: &InstructionParam,
    size: &InstructionSize,
) -> (r: Result<(), Fault>)
    ensures
        step_obeys(
            old(ms)@,
            final(ms)@,
            r,
            spec_set_value(old(ms)@, spec_get_value(old(ms)@, *src_p, *size), *dst_p, *size),
        ),
{
    let value = ms.get_value(src_p, size);
    ms.set_value(value, dst_p, size)
}

/// `LD`: load from the resolved memory address into the destination.
fn exec_load(
    ms: &mut MachineState,
    addr_p: &InstructionParam,
    dst_p: &InstructionParam,
    size: &InstructionSize,
) -> (r: Result<(), Fault>)
    ensures
        step_obeys(old(ms)@, final(ms)@, r, step_load(old(ms)@, *size, *addr_p, *dst_p)),
{
    let address = ms.get_value(addr_p, size);
    match ms.read_memory_sized(address, size) {
        Ok(v) => ms.set_value(v, dst_p, size),
        Err(f) => Err(f),
    }
}

/// `STR`: store the resolved source value at the resolved memory address.
fn exec_store(
    ms: &mut MachineState,
    src_p: &InstructionParam,
    addr_p: &InstructionParam,
    size: &InstructionSize,
) -> (r: Result<(), Fault>)
    ensures
        step_obeys(old(ms)@, final(ms)@, r, step_store(old(ms)@, *size, *src_p, *addr_p)),
{
    let value = ms.get_value(src_p, size);
    let address = ms.get_value(addr_p, size);
    ms.write_memory_sized(address, value, size)
}

/// The two-operand computing instructions: both operands read at the
/// instruction's size, the result computed in 64-bit signed arithmetic and
/// stored through `set_value`, a zero divisor reported as the arithmetic
/// fault before anything is written.
fn exec_compute(
    ms: &mut MachineState,
    t: InstructionType,
    src_p: &InstructionParam,
    dst_p: &InstructionParam,
    size: &InstructionSize,
) -> (r: Result<(), Fault>)
    requires
        t == InstructionType::ADD || t == InstructionType::SUB || t == InstructionType::MUL || t
            == InstructionType::DIV || t == InstructionType::MOD || t == InstructionType::AND || t
            == InstructionType::OR || t == InstructionType::XOR,
    ensures
        step_obeys(old(ms)@, final(ms)@, r, step_compute(old(ms)@, t, *size, *src_p, *dst_p)),
{
    let src = ms.get_value(src_p, size);
    let dst = ms.get_value(dst_p, size);
    let result: i64 = match t {
        InstructionType::ADD => {
            let result = dst.wrapping_add(src);
            proof {
                lemma_sign_extend_wrapped(dst as int + src as int, result as int, size_width(*size));
            }
            result
        },
        InstructionType::SUB => {
            let result = dst.wrapping_sub(src);
            proof {
                lemma_sign_extend_wrapped(dst as int - src as int, result as int, size_width(*size));
            }
            result
        },
        InstructionType::MUL => {
            let result = dst.wrapping_mul(src);
            proof {
                lemma_mod_bound(dst as int * src as int, 0x1_0000_0000_0000_0000);
                lemma_crop_congruent(dst as int * src as int, result as int);
                lemma_sign_extend_mod64(dst as int * src as int, result as int, size_width(*size));
            }
            result
        },
        InstructionType::DIV => {
            if src == 0 {
                return Err(Fault::ArithmeticFault);
            }
            if dst == i64::MIN && src == -1 {
                proof {
                    lemma_div_multiples_vanish(0x8000_0000_0000_0000, 1);
                    assert(tdiv(dst as int, src as int) == 0x8000_0000_0000_0000);
                    lemma_sign_extend_wrapped(
                        0x8000_0000_0000_0000,
                        -0x8000_0000_0000_0000,
                        size_width(*size),
                    );
                }
                i64::MIN
            } else {
                proof {
                    lemma_tdiv_fits(dst as int, src as int);
                }
                dst.checked_div(src).unwrap()
            }
        },
        InstructionType::MOD => {
            if src == 0 {
                return Err(Fault::ArithmeticFault);
            }
            if dst == i64::MIN && src == -1 {
                proof {
                    lemma_mod_bound(0x8000_0000_0000_0000, 1);
                    assert(tmod(dst as int, src as int) == 0);
                }
                0
            } else {
                proof {
                    lemma_tmod_fits(dst as int, src as int);
                }
                dst.checked_rem(src).unwrap()
            }
        },
        InstructionType::AND => dst & src,
        InstructionType::OR => dst | src,
        _ => dst ^ src,
    };
    ms.set_value(result, dst_p, size)
}

/// The one-operand computing instructions `INC`, `DEC`, `NOT`, applied in
/// place at the instruction's size.
fn exec_unary(
    ms: &mut MachineState,
    t: InstructionType,
    p: &InstructionParam,
    size: &InstructionSize,
) -> (r: Result<(), Fault>)
    requires
        t == InstructionType::INC || t == InstructionType::DEC || t == InstructionType::NOT,
    ensures
        step_obeys(
            old(ms)@,
            final(ms)@,
            r,
            spec_set_value(
                old(ms)@,
                unary_value(t, spec_get_value(old(ms)@, *p, *size)),
                *p,
                *size,
            ),
        ),
{
    let v = ms.get_value(p, size);
    let result: i64 = match t {
        InstructionType::INC => {
            let result = v.wrapping_add(1);
            proof {
                lemma_sign_extend_wrapped(v as int + 1, result as int, size_width(*size));
            }
            result
        },
        InstructionType::DEC => {
            let result = v.wrapping_sub(1);
            proof {
                lemma_sign_extend_wrapped(v as int - 1, result as int, size_width(*size));
            }
            result
        },
        _ => (-1i64).wrapping_sub(v),
    };
    ms.set_value(result, p, size)
}

/// The conditional jumps: compare the first two resolved operands, set `pc`
/// to the third only if the predicate holds.
fn exec_cond_jump(
    ms: &mut MachineState,
    t: InstructionType,
    a_p: &InstructionParam,
    b_p: &InstructionParam,
    target_p: &InstructionParam,
    size: &InstructionSize,
) -> (r: Result<(), Fault>)
    requires
        t == InstructionType::JE || t == InstructionType::JNE || t == InstructionType::JL || t
            == InstructionType::JLE || t == InstructionType::JG || t == InstructionType::JGE,
    ensures
        step_obeys(
            old(ms)@,
            final(ms)@,
            r,
            step_cond_jump(old(ms)@, t, *size, *a_p, *b_p, *target_p),
        ),
{
    let a = ms.get_value(a_p, size);
    let b = ms.get_value(b_p, size);
    let target = ms.get_value(target_p, size);
    let taken = match t {
        InstructionType::JE => a == b,
        InstructionType::JNE => a != b,
        InstructionType::JL => a < b,
        InstructionType::JLE => a <= b,
        InstructionType::JG => a > b,
        _ => a >= b,
    };
    if taken {
        ms.pc = target;
        proof {
            assert(ms@ =~= (MachineView { pc: target as int, ..old(ms)@ }));
        }
    }
    Ok(())
}

/// `PUSH`: decrement `sp` by the instruction size and write the resolved
/// value at the new `sp`.
fn exec_push(ms: &mut MachineState, p: &InstructionParam, size: &InstructionSize) -> (r: Result<
    (),
    Fault,
>)
    ensures
        step_obeys(
            old(ms)@,
            final(ms)@,
            r,
            step_push(old(ms)@, *size, spec_get_value(old(ms)@, *p, *size)),
        ),
{
    let value = ms.get_value(p, size);
    let n = size_len(size);
    match ms.sp.checked_sub(n) {
        None => Err(Fault::MemoryBounds),
        Some(a) => match ms.write_memory_sized(a, value, size) {
            Ok(_) => {
                ms.sp = a;
                proof {
                    let m = spec_write_mem(old(ms)@, a as int, value as int, *size)->Ok_0;
                    assert(ms@ =~= (MachineView { sp: a as int, ..m }));
                }
                Ok(())
            },
            Err(f) => Err(f),
        },
    }
}

/// `POP`: read at `sp`, increment `sp` by the instruction size, store the
/// value into the destination operand.
fn exec_pop(ms: &mut MachineState, p: &InstructionParam, size: &InstructionSize) -> (r: Result<
    (),
    Fault,
>)
    ensures
        step_obeys(old(ms)@, final(ms)@, r, step_pop(old(ms)@, *size, *p)),
{
    let n = size_len(size);
    match ms.read_memory_sized(ms.sp, size) {
        Err(f) => Err(f),
        Ok(v) => match ms.sp.checked_add(n) {
            None => Err(Fault::MemoryBounds),
            Some(new_sp) => match ms.set_value(v, p, size) {
                Ok(_) => {
                    ms.sp = new_sp;
                    proof {
                        let m = spec_set_value(old(ms)@, v as int, *p, *size)->Ok_0;
                        assert(ms@ =~= (MachineView { sp: new_sp as int, ..m }));
                    }
                    Ok(())
                },
                Err(f) => Err(f),
            },
        },
    }
}

/// `CALL`: push the current `pc` as the return address, then jump to the
/// resolved target.
fn exec_call(ms: &mut MachineState, p: &InstructionParam, size: &InstructionSize) -> (r: Result<
    (),
    Fault,
>)
    ensures
        step_obeys(
            old(ms)@,
            final(ms)@,
            r,
            step_call(old(ms)@, *size, spec_get_value(old(ms)@, *p, *size)),
        ),
{
    let target = ms.get_value(p, size);
    let n = size_len(size);
    match ms.sp.checked_sub(n) {
        None => Err(Fault::MemoryBounds),
        Some(a) => {
            let return_address = ms.pc;
            match ms.write_memory_sized(a, return_address, size) {
                Ok(_) => {
                    ms.sp = a;
                    ms.pc = target;
                    proof {
                        let m = spec_write_mem(old(ms)@, a as int, return_address as int, *size)
                            ->Ok_0;
                        assert(ms@ =~= (MachineView { sp: a as int, pc: target as int, ..m }));
                    }
                    Ok(())
                },
                Err(f) => Err(f),
            }
        },
    }
}

/// `RET`: pop the return address at `sp` into `pc`.
fn exec_ret(ms: &mut MachineState, size: &InstructionSize) -> (r: Result<(), Fault>)
    ensures
        step_obeys(old(ms)@, final(ms)@, r, step_ret(old(ms)@, *size)),
{
    let n = size_len(size);
    match ms.read_memory_sized(ms.sp, size) {
        Err(f) => Err(f),
        Ok(v) => match ms.sp.checked_add(n) {
            None => Err(Fault::MemoryBounds),
            Some(new_sp) => {
                ms.pc = v;
                ms.sp = new_sp;
                proof {
                    assert(ms@ =~= (MachineView {
                        pc: v as int,
                        sp: new_sp as int,
                        ..old(ms)@
                    }));
                }
                Ok(())
            },
        },
    }
}

/// Applies one decoded instruction to the machine state: the single-step,
/// synchronous transformation `step` describes. On a fault the step is
/// aborted and the state is exactly as it was before the call.
/// Applies one decoded instruction to the machine state: the single-step,
/// synchronous transformation `step` describes. On a fault the step is
/// aborted and the state is exactly as it was before the call.
pub fn execute(machine_state: &mut MachineState, instruction: &Instruction) -> (r: Result<
    (),
    Fault,
>)
    ensures
        step_obeys(
            old(machine_state)@,
            final(machine_state)@,
            r,
            step(
                old(machine_state)@,
                instruction.instruction,
                instruction.size,
                instruction.params@,
            ),
        ),
{
    let t = instruction.instruction;
    let size = &instruction.size;
    let params = &instruction.params;
    match t {
        InstructionType::MOV => {
            if params.len() != 2 {
                return Err(Fault::ArityViolation);
            }
            exec_mov(machine_state, &params[0], &params[1], size)
        },
        InstructionType::LD => {
            if params.len() != 2 {
                return Err(Fault::ArityViolation);
            }
            exec_load(machine_state, &params[0], &params[1], size)
        },
        InstructionType::STR => {
            if params.len() != 2 {
                return Err(Fault::ArityViolation);
            }
            exec_store(machine_state, &params[0], &params[1], size)
        },
        InstructionType::ADD
        | InstructionType::SUB
        | InstructionType::MUL
        | InstructionType::DIV
        | InstructionType::MOD
        | InstructionType::AND
        | InstructionType::OR
        | InstructionType::XOR => {
            if params.len() != 2 {
                return Err(Fault::ArityViolation);
            }
            exec_compute(machine_state, t, &params[0], &params[1], size)
        },
        InstructionType::INC | InstructionType::DEC | InstructionType::NOT => {
            if params.len() != 1 {
                return Err(Fault::ArityViolation);
            }
            exec_unary(machine_state, t, &params[0], size)
        },
        InstructionType::JMP => {
            if params.len() != 1 {
                return Err(Fault::ArityViolation);
            }
            let target = machine_state.get_value(&params[0], size);
            machine_state.pc = target;
            proof {
                assert(machine_state@ =~= (MachineView {
                    pc: target as int,
                    ..old(machine_state)@
                }));
            }
            Ok(())
        },
        InstructionType::JE
        | InstructionType::JNE
        | InstructionType::JL
        | InstructionType::JLE
        | InstructionType::JG
        | InstructionType::JGE => {
            if params.len() != 3 {
                return Err(Fault::ArityViolation);
            }
            exec_cond_jump(machine_state, t, &params[0], &params[1], &params[2], size)
        },
        InstructionType::PUSH => {
            if params.len() != 1 {
                return Err(Fault::ArityViolation);
            }
            exec_push(machine_state, &params[0], size)
        },
        InstructionType::POP => {
            if params.len() != 1 {
                return Err(Fault::ArityViolation);
            }
            exec_pop(machine_state, &params[0], size)
        },
        InstructionType::CALL => {
            if params.len() != 1 {
                return Err(Fault::ArityViolation);
            }
            exec_call(machine_state, &params[0], size)
        },
        InstructionType::RET => {
            if params.len() != 0 {
                return Err(Fault::ArityViolation);
            }
            exec_ret(machine_state, size)
        },
        InstructionType::IN => Err(Fault::UnsupportedOperation),
        InstructionType::OUT => Err(Fault::UnsupportedOperation),
        InstructionType::SYSCALL => Err(Fault::UnsupportedOperation),
        InstructionType::SYSRET => Err(Fault::UnsupportedOperation),
        InstructionType::HALT => {
            if params.len() != 0 {
                return Err(Fault::ArityViolation);
            }
            machine_state.halt = true;
            proof {
                assert(machine_state@ =~= (MachineView { halt: true, ..old(machine_state)@ }));
            }
            Ok(())
        },
    }
}

/// A `MOV` whose source and destination are the same register leaves that
/// register holding exactly the size-truncated, sign-extended form of its
/// pre-state value, and changes nothing else.
pub proof fn lemma_mov_same_register(
    s: MachineView,
    register: Register,
    size: InstructionSize,
)
    requires
        s.regs.len() == 8,
    ensures
        ({
            let p = InstructionParam::Register(register);
            step(s, InstructionType::MOV, size, seq![p, p]) == Ok::<MachineView, Fault>(
                MachineView {
                    regs: s.regs.update(
                        reg_idx(register),
                        sign_extend(s.regs[reg_idx(register)], size_width(size)),
                    ),
                    ..s
                },
            )
        }),
{
    let p = InstructionParam::Register(register);
    lemma_sign_extend_of_extended(s.regs[reg_idx(register)], size_width(size));
    assert(seq![p, p].len() == 2);
}

/// `DIV` and `MOD` with a divisor operand that resolves to zero fail with
/// the arithmetic fault; through `execute`'s contract this also means the
/// destination register is left unmodified.
pub proof fn lemma_divide_by_zero_faults(
    s: MachineView,
    t: InstructionType,
    size: InstructionSize,
    src_p: InstructionParam,
    dst_p: InstructionParam,
)
    requires
        t == InstructionType::DIV || t == InstructionType::MOD,
        spec_get_value(s, src_p, size) == 0,
    ensures
        step(s, t, size, seq![src_p, dst_p]) == Err::<MachineView, Fault>(Fault::ArithmeticFault),
{
    assert(seq![src_p, dst_p].len() == 2);
}

} // verus!
