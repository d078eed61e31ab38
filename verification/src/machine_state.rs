//! The register/memory model: all mutable simulated hardware state, and the
//! only sanctioned way to read or write a value at an operand or a memory
//! address, with one width rule applied everywhere.

use vstd::prelude::*;
use crate::instruction::InstructionParam;
use crate::instruction_set::{Fault, InstructionSize, Register};
use vstd::arithmetic::div_mod::{lemma_mod_bound, lemma_small_mod};
use crate::width::{
    le_bytes, le_seq, lemma_le_bytes_2, lemma_le_bytes_4, lemma_le_bytes_8, lemma_le_decode_encode,
    lemma_le_seq_2, lemma_le_seq_4, lemma_le_seq_8, lemma_le_seq_len, lemma_sign_extend_bounds,
    lemma_sign_extend_in_range, lemma_sign_extend_of_extended, lemma_size_width_bytes, sign_extend,
    size_bytes, size_width, to_unsigned, truncate_to_size,
};

verus! {

/// The complete simulated hardware state: eight 64-bit general-purpose
/// registers, program counter, stack pointer, a flat byte memory, and the
/// halt flag. Registers are always 64-bit storage, narrowed only at the
/// access boundary by the `InstructionSize` supplied at access time.
pub struct MachineState {
    pub i0: i64,
    pub i1: i64,
    pub i2: i64,
    pub i3: i64,
    pub i4: i64,
    pub i5: i64,
    pub i6: i64,
    pub i7: i64,

    pub pc: i64,
    pub sp: i64,

    pub memory: Vec<u8>,

    pub halt: bool,
}

/// The mathematical shape of a machine state: registers as a sequence of
/// eight integers, counters as integers, memory as a byte sequence.
#[verifier::ext_equal]
pub struct MachineView {
    pub regs: Seq<int>,
    pub pc: int,
    pub sp: int,
    pub mem: Seq<u8>,
    pub halt: bool,
}

impl View for MachineState {
    type V = MachineView;

    open spec fn view(&self) -> MachineView {
        MachineView {
            regs: seq![
                self.i0 as int,
                self.i1 as int,
                self.i2 as int,
                self.i3 as int,
                self.i4 as int,
                self.i5 as int,
                self.i6 as int,
                self.i7 as int,
            ],
            pc: self.pc as int,
            sp: self.sp as int,
            mem: self.memory@,
            halt: self.halt,
        }
    }
}

/// The index of a register in the view's register sequence.
pub open spec fn reg_idx(register: Register) -> int {
    match register {
        Register::I0 => 0,
        Register::I1 => 1,
        Register::I2 => 2,
        Register::I3 => 3,
        Register::I4 => 4,
        Register::I5 => 5,
        Register::I6 => 6,
        Register::I7 => 7,
    }
}

/// The full 64-bit value an operand stands for, before any width is applied:
/// an immediate's literal, or the named register's current value.
pub open spec fn spec_resolve(s: MachineView, param: InstructionParam) -> int {
    match param {
        InstructionParam::Immediate(value) => value as int,
        InstructionParam::Register(register) => s.regs[reg_idx(register)],
    }
}

/// What `get_value` returns: the operand's value re-interpreted as a signed
/// integer of the instruction's size and sign-extended back to 64 bits.
pub open spec fn spec_get_value(
    s: MachineView,
    param: InstructionParam,
    size: InstructionSize,
) -> int {
    sign_extend(spec_resolve(s, param), size_width(size))
}

/// What `set_value` does: truncate the value to the instruction's size,
/// sign-extend it back, and overwrite the entire destination register with
/// the result. A write to an immediate is the invalid-operand-target fault
/// and changes nothing.
pub open spec fn spec_set_value(
    s: MachineView,
    value: int,
    param: InstructionParam,
    size: InstructionSize,
) -> Result<MachineView, Fault> {
    match param {
        InstructionParam::Immediate(_) => Err(Fault::InvalidOperandTarget),
        InstructionParam::Register(register) => Ok(
            MachineView {
                regs: s.regs.update(reg_idx(register), sign_extend(value, size_width(size))),
                ..s
            },
        ),
    }
}

/// The address range `[address, address + n)` lies inside the memory buffer.
pub open spec fn mem_in_bounds(s: MachineView, address: int, n: int) -> bool {
    0 <= address && address + n <= s.mem.len()
}

/// `mem` with the bytes starting at `address` replaced by `repl`.
pub open spec fn update_range(mem: Seq<u8>, address: int, repl: Seq<u8>) -> Seq<u8> {
    mem.take(address) + repl + mem.skip(address + repl.len())
}

/// What `read_memory1`..`read_memory8` return: the little-endian decode of
/// the instruction size's worth of bytes at `address`, read as a signed
/// value, or the bounds fault when the range leaves the buffer.
pub open spec fn spec_read_mem(
    s: MachineView,
    address: int,
    size: InstructionSize,
) -> Result<int, Fault> {
    if mem_in_bounds(s, address, size_bytes(size)) {
        Ok(
            sign_extend(
                le_bytes(s.mem.subrange(address, address + size_bytes(size))),
                size_width(size),
            ),
        )
    } else {
        Err(Fault::MemoryBounds)
    }
}

/// What `write_memory1`..`write_memory8` do: replace the instruction size's
/// worth of bytes at `address` with the value's little-endian encoding, or
/// report the bounds fault and change nothing.
pub open spec fn spec_write_mem(
    s: MachineView,
    address: int,
    value: int,
    size: InstructionSize,
) -> Result<MachineView, Fault> {
    if mem_in_bounds(s, address, size_bytes(size)) {
        Ok(
            MachineView {
                mem: update_range(
                    s.mem,
                    address,
                    le_seq(to_unsigned(value, size_width(size)), size_bytes(size) as nat),
                ),
                ..s
            },
        )
    } else {
        Err(Fault::MemoryBounds)
    }
}

/// The state a fresh emulation session starts from: registers zeroed,
/// `pc = 0x1000`, `sp = 0`, 65536 zero bytes of memory, halt flag clear.
pub open spec fn initial_state() -> MachineView {
    MachineView {
        regs: seq![0int, 0int, 0int, 0int, 0int, 0int, 0int, 0int],
        pc: 0x1000,
        sp: 0,
        mem: Seq::new(0x10000, |j: int| 0u8),
        halt: false,
    }
}

/// The buffer of `memory_len` bytes contains the range `[address, address + n)`.
fn range_in_bounds(memory_len: usize, address: i64, n: usize) -> (r: bool)
    ensures
        r == (0 <= address as int && address as int + n as int <= memory_len as int),
{
    if address < 0 {
        return false;
    }
    if memory_len < n {
        return false;
    }
    (address as u128) <= ((memory_len - n) as u128)
}

impl MachineState {
    /// A fresh machine state for one emulation session.
    pub fn new() -> (r: MachineState)
        ensures
            r@ == initial_state(),
    {
        let mut memory: Vec<u8> = Vec::new();
        let mut i: usize = 0;
        while i < 0x10000
            invariant
                i <= 0x10000,
                memory@.len() == i,
                forall|j: int| 0 <= j < i ==> memory@[j] == 0u8,
            decreases 0x10000 - i,
        {
            memory.push(0u8);
            i = i + 1;
        }
        let r = MachineState {
            i0: 0,
            i1: 0,
            i2: 0,
            i3: 0,
            i4: 0,
            i5: 0,
            i6: 0,
            i7: 0,

            pc: 0x1000,
            sp: 0x0,
            memory,

            halt: false,
        };
        proof {
            assert(r@.mem =~= initial_state().mem);
            assert(r@.regs =~= initial_state().regs);
            assert(r@ =~= initial_state());
        }
        r
    }

    /// Resolves the operand to its full 64-bit value, then re-interprets
    /// that value as a signed integer of `size` bytes, sign-extended back
    /// to 64 bits.
    pub fn get_value(&self, instruction_param: &InstructionParam, size: &InstructionSize) -> (r:
        i64)
        ensures
            r as int == spec_get_value(self@, *instruction_param, *size),
    {
        let value = match instruction_param {
            InstructionParam::Immediate(value) => *value,
            InstructionParam::Register(register) => match register {
                Register::I0 => self.i0,
                Register::I1 => self.i1,
                Register::I2 => self.i2,
                Register::I3 => self.i3,
                Register::I4 => self.i4,
                Register::I5 => self.i5,
                Register::I6 => self.i6,
                Register::I7 => self.i7,
            },
        };
        truncate_to_size(value, *size)
    }

    /// Truncates `value` to `size` bytes, sign-extends the result back to 64
    /// bits, and overwrites the entire destination register with it; bits
    /// outside the written width become the sign extension of the truncated
    /// value. Writing to an immediate operand is rejected with the
    /// invalid-operand-target fault and mutates nothing.
    pub fn set_value(
        &mut self,
        value: i64,
        instruction_param: &InstructionParam,
        size: &InstructionSize,
    ) -> (r: Result<(), Fault>)
        ensures
            match spec_set_value(old(self)@, value as int, *instruction_param, *size) {
                Ok(v) => r == Ok::<(), Fault>(()) && final(self)@ == v,
                Err(f) => r == Err::<(), Fault>(f) && final(self)@ == old(self)@,
            },
    {
        let truncated = truncate_to_size(value, *size);
        match instruction_param {
            InstructionParam::Immediate(_value) => Err(Fault::InvalidOperandTarget),
            InstructionParam::Register(register) => {
                match register {
                    Register::I0 => self.i0 = truncated,
                    Register::I1 => self.i1 = truncated,
                    Register::I2 => self.i2 = truncated,
                    Register::I3 => self.i3 = truncated,
                    Register::I4 => self.i4 = truncated,
                    Register::I5 => self.i5 = truncated,
                    Register::I6 => self.i6 = truncated,
                    Register::I7 => self.i7 = truncated,
                };
                proof {
                    let target = MachineView {
                        regs: old(self)@.regs.update(
                            reg_idx(*register),
                            sign_extend(value as int, size_width(*size)),
                        ),
                        ..old(self)@
                    };
                    assert(self@.regs =~= target.regs);
                    assert(self@ =~= target);
                }
                Ok(())
            },
        }
    }

    /// One byte at `address`, read as a signed value.
    pub fn read_memory1(&self, address: i64) -> (r: Result<i8, Fault>)
        ensures
            match spec_read_mem(self@, address as int, InstructionSize::OneByte) {
                Ok(v) => r matches Ok(x) && x as int == v,
                Err(f) => r == Err::<i8, Fault>(f),
            },
    {
        if !range_in_bounds(self.memory.len(), address, 1) {
            return Err(Fault::MemoryBounds);
        }
        let a = address as usize;
        let b0 = self.memory[a];
        let t: i8 = #[verifier::truncate] (b0 as i8);
        proof {
            let s = self@.mem.subrange(address as int, address as int + 1);
            assert(s =~= seq![b0]);
            assert(le_bytes(s) == b0) by {
                reveal_with_fuel(le_bytes, 2);
                assert(s.drop_first() =~= Seq::<u8>::empty());
            };
            assert(t as int == sign_extend(b0 as int, 0x100)) by (bit_vector)
                requires
                    t == (b0 as i8),
            ;
        }
        Ok(t)
    }

    /// Two bytes at `address`, decoded little-endian as a signed value.
    pub fn read_memory2(&self, address: i64) -> (r: Result<i16, Fault>)
        ensures
            match spec_read_mem(self@, address as int, InstructionSize::TwoByte) {
                Ok(v) => r matches Ok(x) && x as int == v,
                Err(f) => r == Err::<i16, Fault>(f),
            },
    {
        if !range_in_bounds(self.memory.len(), address, 2) {
            return Err(Fault::MemoryBounds);
        }
        let a = address as usize;
        let b0 = self.memory[a];
        let b1 = self.memory[a + 1];
        let u: u16 = b0 as u16 + 0x100 * (b1 as u16);
        let t: i16 = #[verifier::truncate] (u as i16);
        proof {
            let s = self@.mem.subrange(address as int, address as int + 2);
            assert(s =~= seq![b0, b1]);
            lemma_le_bytes_2(s);
            assert(t as int == sign_extend(u as int, 0x1_0000)) by (bit_vector)
                requires
                    t == (u as i16),
            ;
        }
        Ok(t)
    }

    /// Four bytes at `address`, decoded little-endian as a signed value.
    pub fn read_memory4(&self, address: i64) -> (r: Result<i32, Fault>)
        ensures
            match spec_read_mem(self@, address as int, InstructionSize::FourByte) {
                Ok(v) => r matches Ok(x) && x as int == v,
                Err(f) => r == Err::<i32, Fault>(f),
            },
    {
        if !range_in_bounds(self.memory.len(), address, 4) {
            return Err(Fault::MemoryBounds);
        }
        let a = address as usize;
        let b0 = self.memory[a];
        let b1 = self.memory[a + 1];
        let b2 = self.memory[a + 2];
        let b3 = self.memory[a + 3];
        let u: u32 = b0 as u32 + 0x100 * (b1 as u32) + 0x1_0000 * (b2 as u32) + 0x100_0000 * (
        b3 as u32);
        let t: i32 = #[verifier::truncate] (u as i32);
        proof {
            let s = self@.mem.subrange(address as int, address as int + 4);
            assert(s =~= seq![b0, b1, b2, b3]);
            lemma_le_bytes_4(s);
            assert(t as int == sign_extend(u as int, 0x1_0000_0000)) by (bit_vector)
                requires
                    t == (u as i32),
            ;
        }
        Ok(t)
    }

    /// Eight bytes at `address`, decoded little-endian as a signed value.
    pub fn read_memory8(&self, address: i64) -> (r: Result<i64, Fault>)
        ensures
            match spec_read_mem(self@, address as int, InstructionSize::EightByte) {
                Ok(v) => r matches Ok(x) && x as int == v,
                Err(f) => r == Err::<i64, Fault>(f),
            },
    {
        if !range_in_bounds(self.memory.len(), address, 8) {
            return Err(Fault::MemoryBounds);
        }
        let a = address as usize;
        let b0 = self.memory[a];
        let b1 = self.memory[a + 1];
        let b2 = self.memory[a + 2];
        let b3 = self.memory[a + 3];
        let b4 = self.memory[a + 4];
        let b5 = self.memory[a + 5];
        let b6 = self.memory[a + 6];
        let b7 = self.memory[a + 7];
        let u: u64 = b0 as u64 + 0x100 * (b1 as u64) + 0x1_0000 * (b2 as u64) + 0x100_0000 * (
        b3 as u64) + 0x1_0000_0000 * (b4 as u64) + 0x100_0000_0000 * (b5 as u64)
            + 0x1_0000_0000_0000 * (b6 as u64) + 0x100_0000_0000_0000 * (b7 as u64);
        let t: i64 = #[verifier::truncate] (u as i64);
        proof {
            let s = self@.mem.subrange(address as int, address as int + 8);
            assert(s =~= seq![b0, b1, b2, b3, b4, b5, b6, b7]);
            lemma_le_bytes_8(s);
            assert(t as int == sign_extend(u as int, 0x1_0000_0000_0000_0000)) by (bit_vector)
                requires
                    t == (u as i64),
            ;
        }
        Ok(t)
    }

    /// Stores one byte at `address`.
    pub fn write_memory1(&mut self, address: i64, value: i8) -> (r: Result<(), Fault>)
        ensures
            match spec_write_mem(old(self)@, address as int, value as int,
            InstructionSize::OneByte) {
                Ok(v) => r == Ok::<(), Fault>(()) && final(self)@ == v,
                Err(f) => r == Err::<(), Fault>(f) && final(self)@ == old(self)@,
            },
    {
        if !range_in_bounds(self.memory.len(), address, 1) {
            return Err(Fault::MemoryBounds);
        }
        let a = address as usize;
        let u: u8 = #[verifier::truncate] (value as u8);
        self.memory[a] = u;
        proof {
            assert(u as int == to_unsigned(value as int, 0x100)) by (bit_vector)
                requires
                    u == (value as u8),
            ;
            let repl = le_seq(to_unsigned(value as int, 0x100), 1);
            assert(repl =~= seq![u]) by {
                reveal_with_fuel(le_seq, 2);
                lemma_le_seq_len(to_unsigned(value as int, 0x100), 1);
            };
            assert(self@.mem =~= update_range(old(self)@.mem, address as int, repl));
            assert(self@.regs =~= old(self)@.regs);
            assert(self@ =~= (MachineView {
                mem: update_range(old(self)@.mem, address as int, repl),
                ..old(self)@
            }));
        }
        Ok(())
    }

    /// Stores two bytes at `address`, little-endian.
    pub fn write_memory2(&mut self, address: i64, value: i16) -> (r: Result<(), Fault>)
        ensures
            match spec_write_mem(old(self)@, address as int, value as int,
            InstructionSize::TwoByte) {
                Ok(v) => r == Ok::<(), Fault>(()) && final(self)@ == v,
                Err(f) => r == Err::<(), Fault>(f) && final(self)@ == old(self)@,
            },
    {
        if !range_in_bounds(self.memory.len(), address, 2) {
            return Err(Fault::MemoryBounds);
        }
        let a = address as usize;
        let u: u16 = #[verifier::truncate] (value as u16);
        let b0 = (u % 0x100) as u8;
        let q1 = u / 0x100;
        let b1 = (q1 % 0x100) as u8;
        self.memory[a] = b0;
        self.memory[a + 1] = b1;
        proof {
            assert(u as int == to_unsigned(value as int, 0x1_0000)) by (bit_vector)
                requires
                    u == (value as u16),
            ;
            lemma_le_seq_2(u as int);
            let repl = le_seq(to_unsigned(value as int, 0x1_0000), 2);
            assert(repl =~= seq![b0, b1]);
            assert(self@.mem =~= update_range(old(self)@.mem, address as int, repl));
            assert(self@.regs =~= old(self)@.regs);
            assert(self@ =~= (MachineView {
                mem: update_range(old(self)@.mem, address as int, repl),
                ..old(self)@
            }));
        }
        Ok(())
    }

    /// Stores four bytes at `address`, little-endian.
    pub fn write_memory4(&mut self, address: i64, value: i32) -> (r: Result<(), Fault>)
        ensures
            match spec_write_mem(old(self)@, address as int, value as int,
            InstructionSize::FourByte) {
                Ok(v) => r == Ok::<(), Fault>(()) && final(self)@ == v,
                Err(f) => r == Err::<(), Fault>(f) && final(self)@ == old(self)@,
            },
    {
        if !range_in_bounds(self.memory.len(), address, 4) {
            return Err(Fault::MemoryBounds);
        }
        let a = address as usize;
        let u: u32 = #[verifier::truncate] (value as u32);
        let b0 = (u % 0x100) as u8;
        let q1 = u / 0x100;
        let b1 = (q1 % 0x100) as u8;
        let q2 = q1 / 0x100;
        let b2 = (q2 % 0x100) as u8;
        let q3 = q2 / 0x100;
        let b3 = (q3 % 0x100) as u8;
        self.memory[a] = b0;
        self.memory[a + 1] = b1;
        self.memory[a + 2] = b2;
        self.memory[a + 3] = b3;
        proof {
            assert(u as int == to_unsigned(value as int, 0x1_0000_0000)) by (bit_vector)
                requires
                    u == (value as u32),
            ;
            lemma_le_seq_4(u as int);
            let repl = le_seq(to_unsigned(value as int, 0x1_0000_0000), 4);
            assert(repl =~= seq![b0, b1, b2, b3]);
            assert(self@.mem =~= update_range(old(self)@.mem, address as int, repl));
            assert(self@.regs =~= old(self)@.regs);
            assert(self@ =~= (MachineView {
                mem: update_range(old(self)@.mem, address as int, repl),
                ..old(self)@
            }));
        }
        Ok(())
    }

    /// Stores eight bytes at `address`, little-endian.
    pub fn write_memory8(&mut self, address: i64, value: i64) -> (r: Result<(), Fault>)
        ensures
            match spec_write_mem(old(self)@, address as int, value as int,
            InstructionSize::EightByte) {
                Ok(v) => r == Ok::<(), Fault>(()) && final(self)@ == v,
                Err(f) => r == Err::<(), Fault>(f) && final(self)@ == old(self)@,
            },
    {
        if !range_in_bounds(self.memory.len(), address, 8) {
            return Err(Fault::MemoryBounds);
        }
        let a = address as usize;
        let u: u64 = #[verifier::truncate] (value as u64);
        let b0 = (u % 0x100) as u8;
        let q1 = u / 0x100;
        let b1 = (q1 % 0x100) as u8;
        let q2 = q1 / 0x100;
        let b2 = (q2 % 0x100) as u8;
        let q3 = q2 / 0x100;
        let b3 = (q3 % 0x100) as u8;
        let q4 = q3 / 0x100;
        let b4 = (q4 % 0x100) as u8;
        let q5 = q4 / 0x100;
        let b5 = (q5 % 0x100) as u8;
        let q6 = q5 / 0x100;
        let b6 = (q6 % 0x100) as u8;
        let q7 = q6 / 0x100;
        let b7 = (q7 % 0x100) as u8;
        self.memory[a] = b0;
        self.memory[a + 1] = b1;
        self.memory[a + 2] = b2;
        self.memory[a + 3] = b3;
        self.memory[a + 4] = b4;
        self.memory[a + 5] = b5;
        self.memory[a + 6] = b6;
        self.memory[a + 7] = b7;
        proof {
            assert(u as int == to_unsigned(value as int, 0x1_0000_0000_0000_0000)) by (bit_vector)
                requires
                    u == (value as u64),
            ;
            lemma_le_seq_8(u as int);
            let repl = le_seq(to_unsigned(value as int, 0x1_0000_0000_0000_0000), 8);
            assert(repl =~= seq![b0, b1, b2, b3, b4, b5, b6, b7]);
            assert(self@.mem =~= update_range(old(self)@.mem, address as int, repl));
            assert(self@.regs =~= old(self)@.regs);
            assert(self@ =~= (MachineView {
                mem: update_range(old(self)@.mem, address as int, repl),
                ..old(self)@
            }));
        }
        Ok(())
    }

    /// The size's worth of bytes at `address`, decoded little-endian, as the
    /// sign-extended 64-bit value instruction handlers work with.
    pub fn read_memory_sized(&self, address: i64, size: &InstructionSize) -> (r: Result<
        i64,
        Fault,
    >)
        ensures
            match spec_read_mem(self@, address as int, *size) {
                Ok(v) => r matches Ok(x) && x as int == v,
                Err(f) => r == Err::<i64, Fault>(f),
            },
    {
        match size {
            InstructionSize::OneByte => match self.read_memory1(address) {
                Ok(v) => Ok(v as i64),
                Err(f) => Err(f),
            },
            InstructionSize::TwoByte => match self.read_memory2(address) {
                Ok(v) => Ok(v as i64),
                Err(f) => Err(f),
            },
            InstructionSize::FourByte => match self.read_memory4(address) {
                Ok(v) => Ok(v as i64),
                Err(f) => Err(f),
            },
            InstructionSize::EightByte => self.read_memory8(address),
        }
    }

    /// Stores the size's worth of low bytes of `value` at `address`,
    /// little-endian.
    pub fn write_memory_sized(&mut self, address: i64, value: i64, size: &InstructionSize) -> (r:
        Result<(), Fault>)
        ensures
            match spec_write_mem(old(self)@, address as int, value as int, *size) {
                Ok(v) => r == Ok::<(), Fault>(()) && final(self)@ == v,
                Err(f) => r == Err::<(), Fault>(f) && final(self)@ == old(self)@,
            },
    {
        match size {
            InstructionSize::OneByte => {
                let t: i8 = #[verifier::truncate] (value as i8);
                proof {
                    assert((t as int) % 0x100 == (value as int) % 0x100) by (bit_vector)
                        requires
                            t == (value as i8),
                    ;
                }
                self.write_memory1(address, t)
            },
            InstructionSize::TwoByte => {
                let t: i16 = #[verifier::truncate] (value as i16);
                proof {
                    assert((t as int) % 0x1_0000 == (value as int) % 0x1_0000) by (bit_vector)
                        requires
                            t == (value as i16),
                    ;
                }
                self.write_memory2(address, t)
            },
            InstructionSize::FourByte => {
                let t: i32 = #[verifier::truncate] (value as i32);
                proof {
                    assert((t as int) % 0x1_0000_0000 == (value as int) % 0x1_0000_0000)
                        by (bit_vector)
                        requires
                            t == (value as i32),
                    ;
                }
                self.write_memory4(address, t)
            },
            InstructionSize::EightByte => self.write_memory8(address, value),
        }
    }
}


/// Sign/width round trip: writing any 64-bit value to a register at any
/// size and reading it back at the same size yields exactly the value
/// truncated to that size and sign-extended back to 64 bits, independent
/// of the value's original width.
pub proof fn lemma_set_then_get_roundtrip(
    s: MachineView,
    value: i64,
    register: Register,
    size: InstructionSize,
)
    requires
        s.regs.len() == 8,
    ensures
        ({
            let p = InstructionParam::Register(register);
            spec_set_value(s, value as int, p, size) matches Ok(m) && spec_get_value(m, p, size)
                == sign_extend(value as int, size_width(size))
        }),
{
    lemma_sign_extend_of_extended(value as int, size_width(size));
}

/// Full-register overwrite: after a write at any size, a read of the same
/// register at the eight-byte size sees exactly the sign extension of the
/// truncated value. No stale high bytes from a prior wider write survive.
pub proof fn lemma_full_register_overwrite(
    s: MachineView,
    value: i64,
    register: Register,
    size: InstructionSize,
)
    requires
        s.regs.len() == 8,
    ensures
        ({
            let p = InstructionParam::Register(register);
            spec_set_value(s, value as int, p, size) matches Ok(m) && spec_get_value(
                m,
                p,
                InstructionSize::EightByte,
            ) == sign_extend(value as int, size_width(size))
        }),
{
    let w = size_width(size);
    let stored = sign_extend(value as int, w);
    lemma_sign_extend_bounds(value as int, w);
    lemma_sign_extend_in_range(stored, 0x1_0000_0000_0000_0000);
}

/// Immediate write rejection: a write directed at an immediate operand
/// always fails with the invalid-operand-target fault, at every size and
/// for every value; `set_value`'s contract then guarantees the state is
/// left untouched.
pub proof fn lemma_immediate_write_rejected(
    s: MachineView,
    value: int,
    literal: i64,
    size: InstructionSize,
)
    ensures
        spec_set_value(s, value, InstructionParam::Immediate(literal), size) == Err::<
            MachineView,
            Fault,
        >(Fault::InvalidOperandTarget),
{
}

/// Little-endian memory round trip: an in-bounds write of a value that
/// fits the size, followed by a read at the same address and size, returns
/// the value unchanged, and the bytes written are exactly the value's
/// little-endian encoding.
pub proof fn lemma_memory_roundtrip(
    s: MachineView,
    address: int,
    value: i64,
    size: InstructionSize,
)
    requires
        mem_in_bounds(s, address, size_bytes(size)),
        sign_extend(value as int, size_width(size)) == value as int,
    ensures
        ({
            let n = size_bytes(size);
            let w = size_width(size);
            spec_write_mem(s, address, value as int, size) matches Ok(m) && m.mem.subrange(
                address,
                address + n,
            ) == le_seq(to_unsigned(value as int, w), n as nat) && spec_read_mem(m, address, size)
                == Ok::<int, Fault>(value as int)
        }),
{
    let n = size_bytes(size);
    let w = size_width(size);
    let u = to_unsigned(value as int, w);
    let repl = le_seq(u, n as nat);
    lemma_le_seq_len(u, n as nat);
    let m = spec_write_mem(s, address, value as int, size)->Ok_0;
    assert(m.mem.len() == s.mem.len());
    assert(m.mem.subrange(address, address + n) =~= repl);
    lemma_size_width_bytes(size);
    lemma_mod_bound(value as int, w);
    lemma_le_decode_encode(u, n as nat);
    lemma_small_mod(u as nat, w as nat);
}

/// Bounds enforcement: an access whose address is one byte past the last
/// valid window, `memory.len() - n + 1` for an `n`-byte access, fails with
/// the bounds fault, for every size; through the accessors' contracts the
/// state is left untouched.
pub proof fn lemma_access_one_past_end(s: MachineView, value: int, size: InstructionSize)
    ensures
        spec_read_mem(s, s.mem.len() - size_bytes(size) + 1, size) == Err::<int, Fault>(
            Fault::MemoryBounds,
        ),
        spec_write_mem(s, s.mem.len() - size_bytes(size) + 1, value, size) == Err::<
            MachineView,
            Fault,
        >(Fault::MemoryBounds),
{
}

} // verus!

