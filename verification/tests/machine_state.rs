use emulator::instruction::InstructionParam;
use emulator::instruction_set::{Fault, InstructionSize, Register};
use emulator::machine_state::MachineState;

#[test]
fn fresh_state_defaults() {
    let state = MachineState::new();
    assert_eq!(state.i0, 0);
    assert_eq!(state.i1, 0);
    assert_eq!(state.i2, 0);
    assert_eq!(state.i3, 0);
    assert_eq!(state.i4, 0);
    assert_eq!(state.i5, 0);
    assert_eq!(state.i6, 0);
    assert_eq!(state.i7, 0);
    assert_eq!(state.pc, 0x1000);
    assert_eq!(state.sp, 0x0);
    assert_eq!(state.memory.len(), 0x10000);
    assert!(state.memory.iter().all(|b| *b == 0));
    assert!(!state.halt);
}

#[test]
fn get_value_sign_extends_low_byte() {
    // A register holding 0x00000000000000FF read at one byte yields -1,
    // not 255.
    let mut state = MachineState::new();
    state.i3 = 0xFF;
    let p = InstructionParam::Register(Register::I3);
    assert_eq!(state.get_value(&p, &InstructionSize::OneByte), -1);
    assert_eq!(state.get_value(&p, &InstructionSize::TwoByte), 0xFF);
    assert_eq!(state.get_value(&p, &InstructionSize::EightByte), 0xFF);
}

#[test]
fn get_value_immediate_truncates() {
    let state = MachineState::new();
    let p = InstructionParam::Immediate(0x1_0080);
    assert_eq!(state.get_value(&p, &InstructionSize::OneByte), -128);
    assert_eq!(state.get_value(&p, &InstructionSize::TwoByte), 128);
    assert_eq!(state.get_value(&p, &InstructionSize::FourByte), 0x1_0080);
    assert_eq!(state.get_value(&p, &InstructionSize::EightByte), 0x1_0080);
}

#[test]
fn set_then_get_round_trip_every_size() {
    // set_value then get_value at size S equals sign-extending the value
    // truncated to S bytes, for every size.
    let sizes = [
        InstructionSize::OneByte,
        InstructionSize::TwoByte,
        InstructionSize::FourByte,
        InstructionSize::EightByte,
    ];
    let expected = [0x22i64, 0x4322, 0x87654322u32 as i32 as i64, 0x1987654322];
    let p = InstructionParam::Register(Register::I5);
    for (size, want) in sizes.iter().zip(expected.iter()) {
        let mut state = MachineState::new();
        state.set_value(0x1987654322, &p, size).unwrap();
        assert_eq!(state.get_value(&p, size), *want);
    }
}

#[test]
fn narrow_write_overwrites_whole_register() {
    // Writing at one byte then reading at eight bytes yields 127: no stale
    // high bytes survive from the earlier wider write.
    let mut state = MachineState::new();
    let p = InstructionParam::Register(Register::I0);
    state
        .set_value(0x1122334455667788, &p, &InstructionSize::EightByte)
        .unwrap();
    state.set_value(0x7F, &p, &InstructionSize::OneByte).unwrap();
    assert_eq!(state.get_value(&p, &InstructionSize::EightByte), 127);
    assert_eq!(state.i0, 127);
}

#[test]
fn narrow_negative_write_sign_extends_whole_register() {
    let mut state = MachineState::new();
    let p = InstructionParam::Register(Register::I1);
    state
        .set_value(0x00FF00FF00FF00FF, &p, &InstructionSize::EightByte)
        .unwrap();
    state.set_value(0x80, &p, &InstructionSize::OneByte).unwrap();
    assert_eq!(state.i1, -128);
}

#[test]
fn set_value_on_immediate_rejected_without_mutation() {
    let mut state = MachineState::new();
    state.i2 = 55;
    let p = InstructionParam::Immediate(7);
    let r = state.set_value(99, &p, &InstructionSize::EightByte);
    assert_eq!(r, Err(Fault::InvalidOperandTarget));
    assert_eq!(state.i2, 55);
    assert_eq!(state.i0, 0);
    assert_eq!(state.pc, 0x1000);
}

#[test]
fn memory_round_trip_one_byte() {
    let mut state = MachineState::new();
    state.write_memory1(0x200, -3).unwrap();
    assert_eq!(state.read_memory1(0x200), Ok(-3));
    assert_eq!(state.memory[0x200], 0xFD);
}

#[test]
fn memory_round_trip_two_bytes() {
    let mut state = MachineState::new();
    state.write_memory2(0x200, -2).unwrap();
    assert_eq!(state.read_memory2(0x200), Ok(-2));
    assert_eq!(&state.memory[0x200..0x202], &[0xFE, 0xFF]);
}

#[test]
fn memory_round_trip_four_bytes() {
    let mut state = MachineState::new();
    state.write_memory4(0x200, 0x12345678).unwrap();
    assert_eq!(state.read_memory4(0x200), Ok(0x12345678));
    assert_eq!(&state.memory[0x200..0x204], &[0x78, 0x56, 0x34, 0x12]);
}

#[test]
fn memory_round_trip_eight_bytes() {
    let mut state = MachineState::new();
    state.write_memory8(0x200, -0x0123456789ABCDEF).unwrap();
    assert_eq!(state.read_memory8(0x200), Ok(-0x0123456789ABCDEF));
    let expected = (-0x0123456789ABCDEFi64).to_le_bytes();
    assert_eq!(&state.memory[0x200..0x208], &expected);
}

#[test]
fn memory_write_leaves_neighbours_alone() {
    let mut state = MachineState::new();
    state.write_memory1(0x2FF, 0x11).unwrap();
    state.write_memory1(0x304, 0x22).unwrap();
    state.write_memory4(0x300, -1).unwrap();
    assert_eq!(state.memory[0x2FF], 0x11);
    assert_eq!(&state.memory[0x300..0x304], &[0xFF, 0xFF, 0xFF, 0xFF]);
    assert_eq!(state.memory[0x304], 0x22);
}

#[test]
fn memory_access_one_past_end_faults() {
    // address = memory.len() - n + 1 is one byte past the valid window for
    // an n-byte access, for every n.
    let mut state = MachineState::new();
    let len = state.memory.len() as i64;
    assert_eq!(state.read_memory1(len), Err(Fault::MemoryBounds));
    assert_eq!(state.read_memory2(len - 1), Err(Fault::MemoryBounds));
    assert_eq!(state.read_memory4(len - 3), Err(Fault::MemoryBounds));
    assert_eq!(state.read_memory8(len - 7), Err(Fault::MemoryBounds));
    assert_eq!(state.write_memory1(len, 1), Err(Fault::MemoryBounds));
    assert_eq!(state.write_memory2(len - 1, 1), Err(Fault::MemoryBounds));
    assert_eq!(state.write_memory4(len - 3, 1), Err(Fault::MemoryBounds));
    assert_eq!(state.write_memory8(len - 7, 1), Err(Fault::MemoryBounds));
    assert!(state.memory.iter().all(|b| *b == 0));
}

#[test]
fn memory_access_at_last_valid_window_succeeds() {
    let mut state = MachineState::new();
    let len = state.memory.len() as i64;
    assert!(state.write_memory8(len - 8, 0x7766554433221100).is_ok());
    assert_eq!(state.read_memory8(len - 8), Ok(0x7766554433221100));
}

#[test]
fn memory_negative_address_faults() {
    let mut state = MachineState::new();
    assert_eq!(state.read_memory1(-1), Err(Fault::MemoryBounds));
    assert_eq!(state.write_memory2(-2, 5), Err(Fault::MemoryBounds));
    assert_eq!(state.read_memory8(i64::MIN), Err(Fault::MemoryBounds));
}

#[test]
fn memory_read_sign_extends() {
    let mut state = MachineState::new();
    state.write_memory1(0x40, -1).unwrap();
    assert_eq!(state.read_memory1(0x40), Ok(-1));
    state.write_memory2(0x50, -1).unwrap();
    assert_eq!(state.read_memory2(0x50), Ok(-1));
}
