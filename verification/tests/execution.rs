use emulator::cpu::execute;
use emulator::instruction::{Instruction, InstructionParam};
use emulator::instruction_set::{Fault, InstructionSize, InstructionType, Register};
use emulator::machine_state::MachineState;

fn instr(t: InstructionType, size: InstructionSize, params: Vec<InstructionParam>) -> Instruction {
    Instruction {
        instruction: t,
        size,
        params,
    }
}

fn reg(r: Register) -> InstructionParam {
    InstructionParam::Register(r)
}

fn imm(v: i64) -> InstructionParam {
    InstructionParam::Immediate(v)
}

#[test]
fn add_registers_eight_byte() {
    // Initial state i0 = 10, i1 = 3; ADD [i0, i1] -> i1 at eight bytes
    // gives i1 == 13 and leaves i0 unchanged.
    let mut state = MachineState::new();
    state.i0 = 10;
    state.i1 = 3;
    let i = instr(
        InstructionType::ADD,
        InstructionSize::EightByte,
        vec![reg(Register::I0), reg(Register::I1)],
    );
    assert_eq!(execute(&mut state, &i), Ok(()));
    assert_eq!(state.i1, 13);
    assert_eq!(state.i0, 10);
}

#[test]
fn mov_immediate_truncates_to_byte() {
    // MOV [Immediate(300)] -> i0 at one byte gives 44: 300 mod 256 = 44,
    // which stays 44 under sign extension since 44 < 128.
    let mut state = MachineState::new();
    let i = instr(
        InstructionType::MOV,
        InstructionSize::OneByte,
        vec![imm(300), reg(Register::I0)],
    );
    assert_eq!(execute(&mut state, &i), Ok(()));
    assert_eq!(state.i0, 44);
}

#[test]
fn mov_same_register_truncates_in_place() {
    // MOV r, r leaves the register holding the size-truncated form of its
    // pre-state value.
    let mut state = MachineState::new();
    state.i2 = 0x1FF;
    let i = instr(
        InstructionType::MOV,
        InstructionSize::OneByte,
        vec![reg(Register::I2), reg(Register::I2)],
    );
    assert_eq!(execute(&mut state, &i), Ok(()));
    assert_eq!(state.i2, -1);
}

#[test]
fn mov_to_immediate_faults() {
    let mut state = MachineState::new();
    state.i4 = 9;
    let i = instr(
        InstructionType::MOV,
        InstructionSize::EightByte,
        vec![reg(Register::I4), imm(0)],
    );
    assert_eq!(execute(&mut state, &i), Err(Fault::InvalidOperandTarget));
    assert_eq!(state.i4, 9);
}

#[test]
fn wrong_arity_faults() {
    let mut state = MachineState::new();
    let i = instr(
        InstructionType::MOV,
        InstructionSize::EightByte,
        vec![reg(Register::I0)],
    );
    assert_eq!(execute(&mut state, &i), Err(Fault::ArityViolation));
    let i = instr(InstructionType::HALT, InstructionSize::OneByte, vec![imm(1)]);
    assert_eq!(execute(&mut state, &i), Err(Fault::ArityViolation));
    assert!(!state.halt);
}

#[test]
fn io_and_syscall_dispatch_unsupported() {
    let mut state = MachineState::new();
    for t in [
        InstructionType::IN,
        InstructionType::OUT,
        InstructionType::SYSCALL,
        InstructionType::SYSRET,
    ] {
        let i = instr(t, InstructionSize::EightByte, vec![]);
        assert_eq!(execute(&mut state, &i), Err(Fault::UnsupportedOperation));
    }
}

#[test]
fn sub_is_destination_minus_source() {
    let mut state = MachineState::new();
    state.i0 = 3;
    state.i1 = 10;
    let i = instr(
        InstructionType::SUB,
        InstructionSize::EightByte,
        vec![reg(Register::I0), reg(Register::I1)],
    );
    assert_eq!(execute(&mut state, &i), Ok(()));
    assert_eq!(state.i1, 7);
}

#[test]
fn add_truncates_at_one_byte() {
    // 100 + 100 = 200; as a signed byte that is 200 - 256 = -56.
    let mut state = MachineState::new();
    state.i0 = 100;
    state.i1 = 100;
    let i = instr(
        InstructionType::ADD,
        InstructionSize::OneByte,
        vec![reg(Register::I0), reg(Register::I1)],
    );
    assert_eq!(execute(&mut state, &i), Ok(()));
    assert_eq!(state.i1, -56);
}

#[test]
fn mul_div_mod_exact_values() {
    let mut state = MachineState::new();
    state.i0 = 7;
    state.i1 = -6;
    let i = instr(
        InstructionType::MUL,
        InstructionSize::EightByte,
        vec![reg(Register::I0), reg(Register::I1)],
    );
    assert_eq!(execute(&mut state, &i), Ok(()));
    assert_eq!(state.i1, -42);

    state.i2 = 5;
    state.i3 = -17;
    let i = instr(
        InstructionType::DIV,
        InstructionSize::EightByte,
        vec![reg(Register::I2), reg(Register::I3)],
    );
    assert_eq!(execute(&mut state, &i), Ok(()));
    assert_eq!(state.i3, -3); // truncated toward zero

    state.i4 = 5;
    state.i5 = -17;
    let i = instr(
        InstructionType::MOD,
        InstructionSize::EightByte,
        vec![reg(Register::I4), reg(Register::I5)],
    );
    assert_eq!(execute(&mut state, &i), Ok(()));
    assert_eq!(state.i5, -2); // remainder takes the dividend's sign
}

#[test]
fn div_min_by_minus_one_wraps() {
    let mut state = MachineState::new();
    state.i0 = -1;
    state.i1 = i64::MIN;
    let i = instr(
        InstructionType::DIV,
        InstructionSize::EightByte,
        vec![reg(Register::I0), reg(Register::I1)],
    );
    assert_eq!(execute(&mut state, &i), Ok(()));
    assert_eq!(state.i1, i64::MIN);
}

#[test]
fn divide_by_zero_faults_and_preserves_destination() {
    let mut state = MachineState::new();
    state.i0 = 0;
    state.i1 = 42;
    let i = instr(
        InstructionType::DIV,
        InstructionSize::EightByte,
        vec![reg(Register::I0), reg(Register::I1)],
    );
    assert_eq!(execute(&mut state, &i), Err(Fault::ArithmeticFault));
    assert_eq!(state.i1, 42);
    let i = instr(
        InstructionType::MOD,
        InstructionSize::EightByte,
        vec![reg(Register::I0), reg(Register::I1)],
    );
    assert_eq!(execute(&mut state, &i), Err(Fault::ArithmeticFault));
    assert_eq!(state.i1, 42);
}

#[test]
fn divisor_zero_only_at_instruction_size_faults() {
    // The divisor resolves to zero at the instruction's size even though
    // the register is nonzero at full width.
    let mut state = MachineState::new();
    state.i0 = 0x100;
    state.i1 = 9;
    let i = instr(
        InstructionType::DIV,
        InstructionSize::OneByte,
        vec![reg(Register::I0), reg(Register::I1)],
    );
    assert_eq!(execute(&mut state, &i), Err(Fault::ArithmeticFault));
    assert_eq!(state.i1, 9);
}

#[test]
fn bitwise_ops() {
    let mut state = MachineState::new();
    state.i0 = 0b1100;
    state.i1 = 0b1010;
    let i = instr(
        InstructionType::AND,
        InstructionSize::EightByte,
        vec![reg(Register::I0), reg(Register::I1)],
    );
    assert_eq!(execute(&mut state, &i), Ok(()));
    assert_eq!(state.i1, 0b1000);

    state.i1 = 0b1010;
    let i = instr(
        InstructionType::OR,
        InstructionSize::EightByte,
        vec![reg(Register::I0), reg(Register::I1)],
    );
    assert_eq!(execute(&mut state, &i), Ok(()));
    assert_eq!(state.i1, 0b1110);

    state.i1 = 0b1010;
    let i = instr(
        InstructionType::XOR,
        InstructionSize::EightByte,
        vec![reg(Register::I0), reg(Register::I1)],
    );
    assert_eq!(execute(&mut state, &i), Ok(()));
    assert_eq!(state.i1, 0b0110);

    state.i2 = 0;
    let i = instr(
        InstructionType::NOT,
        InstructionSize::EightByte,
        vec![reg(Register::I2)],
    );
    assert_eq!(execute(&mut state, &i), Ok(()));
    assert_eq!(state.i2, -1);
}

#[test]
fn inc_dec_in_place() {
    let mut state = MachineState::new();
    state.i0 = 127;
    let i = instr(
        InstructionType::INC,
        InstructionSize::OneByte,
        vec![reg(Register::I0)],
    );
    assert_eq!(execute(&mut state, &i), Ok(()));
    assert_eq!(state.i0, -128); // one-byte increment wraps 127 to -128

    state.i1 = 0;
    let i = instr(
        InstructionType::DEC,
        InstructionSize::EightByte,
        vec![reg(Register::I1)],
    );
    assert_eq!(execute(&mut state, &i), Ok(()));
    assert_eq!(state.i1, -1);
}

#[test]
fn jmp_replaces_pc() {
    let mut state = MachineState::new();
    let i = instr(
        InstructionType::JMP,
        InstructionSize::EightByte,
        vec![imm(0x2345)],
    );
    assert_eq!(execute(&mut state, &i), Ok(()));
    assert_eq!(state.pc, 0x2345);
}

#[test]
fn conditional_jumps_taken_and_not_taken() {
    let cases = [
        (InstructionType::JE, 5i64, 5i64, true),
        (InstructionType::JE, 5, 6, false),
        (InstructionType::JNE, 5, 6, true),
        (InstructionType::JNE, 5, 5, false),
        (InstructionType::JL, -1, 0, true),
        (InstructionType::JL, 0, 0, false),
        (InstructionType::JLE, 0, 0, true),
        (InstructionType::JLE, 1, 0, false),
        (InstructionType::JG, 3, 2, true),
        (InstructionType::JG, 2, 3, false),
        (InstructionType::JGE, 2, 2, true),
        (InstructionType::JGE, 1, 2, false),
    ];
    for (t, a, b, taken) in cases {
        let mut state = MachineState::new();
        let i = instr(t, InstructionSize::EightByte, vec![imm(a), imm(b), imm(0x4000)]);
        assert_eq!(execute(&mut state, &i), Ok(()));
        if taken {
            assert_eq!(state.pc, 0x4000);
        } else {
            assert_eq!(state.pc, 0x1000);
        }
    }
}

#[test]
fn push_then_pop_round_trip() {
    let mut state = MachineState::new();
    state.sp = 0x2000;
    let i = instr(
        InstructionType::PUSH,
        InstructionSize::EightByte,
        vec![imm(0x0123456789ABCDEF)],
    );
    assert_eq!(execute(&mut state, &i), Ok(()));
    assert_eq!(state.sp, 0x2000 - 8);

    let i = instr(
        InstructionType::POP,
        InstructionSize::EightByte,
        vec![reg(Register::I6)],
    );
    assert_eq!(execute(&mut state, &i), Ok(()));
    assert_eq!(state.i6, 0x0123456789ABCDEF);
    assert_eq!(state.sp, 0x2000);
}

#[test]
fn push_writes_at_new_sp_little_endian() {
    let mut state = MachineState::new();
    state.sp = 0x1000;
    let i = instr(
        InstructionType::PUSH,
        InstructionSize::TwoByte,
        vec![imm(0x1234)],
    );
    assert_eq!(execute(&mut state, &i), Ok(()));
    assert_eq!(state.sp, 0x0FFE);
    assert_eq!(&state.memory[0x0FFE..0x1000], &[0x34, 0x12]);
}

#[test]
fn push_below_memory_faults() {
    let mut state = MachineState::new();
    state.sp = 0; // the stack cannot grow below address zero
    let i = instr(
        InstructionType::PUSH,
        InstructionSize::EightByte,
        vec![imm(1)],
    );
    assert_eq!(execute(&mut state, &i), Err(Fault::MemoryBounds));
    assert_eq!(state.sp, 0);
}

#[test]
fn call_pushes_return_address_and_jumps() {
    let mut state = MachineState::new();
    state.sp = 0x2000;
    state.pc = 0x1500; // the fetch loop has advanced pc past the CALL
    let i = instr(
        InstructionType::CALL,
        InstructionSize::EightByte,
        vec![imm(0x3000)],
    );
    assert_eq!(execute(&mut state, &i), Ok(()));
    assert_eq!(state.pc, 0x3000);
    assert_eq!(state.sp, 0x1FF8);
    assert_eq!(state.read_memory8(0x1FF8), Ok(0x1500));

    let i = instr(InstructionType::RET, InstructionSize::EightByte, vec![]);
    assert_eq!(execute(&mut state, &i), Ok(()));
    assert_eq!(state.pc, 0x1500);
    assert_eq!(state.sp, 0x2000);
}

#[test]
fn store_then_load_through_memory() {
    let mut state = MachineState::new();
    state.i0 = -7;
    let i = instr(
        InstructionType::STR,
        InstructionSize::FourByte,
        vec![reg(Register::I0), imm(0x800)],
    );
    assert_eq!(execute(&mut state, &i), Ok(()));
    assert_eq!(&state.memory[0x800..0x804], &[0xF9, 0xFF, 0xFF, 0xFF]);

    let i = instr(
        InstructionType::LD,
        InstructionSize::FourByte,
        vec![imm(0x800), reg(Register::I7)],
    );
    assert_eq!(execute(&mut state, &i), Ok(()));
    assert_eq!(state.i7, -7);
}

#[test]
fn load_out_of_bounds_faults_without_mutation() {
    let mut state = MachineState::new();
    state.i1 = 3;
    let i = instr(
        InstructionType::LD,
        InstructionSize::EightByte,
        vec![imm(0x10000 - 7), reg(Register::I1)],
    );
    assert_eq!(execute(&mut state, &i), Err(Fault::MemoryBounds));
    assert_eq!(state.i1, 3);
}

#[test]
fn pop_into_immediate_faults_and_leaves_sp() {
    let mut state = MachineState::new();
    state.sp = 0x2000;
    let i = instr(
        InstructionType::POP,
        InstructionSize::EightByte,
        vec![imm(5)],
    );
    assert_eq!(execute(&mut state, &i), Err(Fault::InvalidOperandTarget));
    assert_eq!(state.sp, 0x2000);
}

#[test]
fn load_into_immediate_faults() {
    let mut state = MachineState::new();
    let i = instr(
        InstructionType::LD,
        InstructionSize::EightByte,
        vec![imm(0x100), imm(0)],
    );
    assert_eq!(execute(&mut state, &i), Err(Fault::InvalidOperandTarget));
}

#[test]
fn add_into_immediate_faults() {
    let mut state = MachineState::new();
    let i = instr(
        InstructionType::ADD,
        InstructionSize::EightByte,
        vec![imm(1), imm(2)],
    );
    assert_eq!(execute(&mut state, &i), Err(Fault::InvalidOperandTarget));
}

#[test]
fn jmp_resolves_target_at_instruction_size() {
    // The jump target is resolved with the same width rule as any operand:
    // at one byte only the low byte of the target survives.
    let mut state = MachineState::new();
    let i = instr(
        InstructionType::JMP,
        InstructionSize::OneByte,
        vec![imm(0x1234)],
    );
    assert_eq!(execute(&mut state, &i), Ok(()));
    assert_eq!(state.pc, 0x34);
}

#[test]
fn halt_sets_flag_and_nothing_else() {
    let mut state = MachineState::new();
    let i = instr(InstructionType::HALT, InstructionSize::OneByte, vec![]);
    assert_eq!(execute(&mut state, &i), Ok(()));
    assert!(state.halt);
    assert_eq!(state.pc, 0x1000);
    assert_eq!(state.sp, 0);
    assert_eq!(state.i0, 0);
}
