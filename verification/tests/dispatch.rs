use chip8::chip8::Chip8;
use chip8::cpu::CPU;
use chip8::instruction::{decode, Effect, Instruction};

#[test]
fn decode_table() {
    assert_eq!(decode(0x00E0), Instruction::ClearScreen);
    assert_eq!(decode(0x00EE), Instruction::Return);
    assert_eq!(decode(0x0123), Instruction::Unknown);
    assert_eq!(decode(0x1ABC), Instruction::Jump);
    assert_eq!(decode(0x2ABC), Instruction::Call);
    assert_eq!(decode(0x3ABC), Instruction::SkipIfEqualByte);
    assert_eq!(decode(0x4ABC), Instruction::SkipIfNotEqualByte);
    assert_eq!(decode(0x5AB0), Instruction::SkipIfEqualRegister);
    assert_eq!(decode(0x5AB1), Instruction::Unknown);
    assert_eq!(decode(0x6ABC), Instruction::LoadByte);
    assert_eq!(decode(0x7ABC), Instruction::AddByte);
    assert_eq!(decode(0x8AB0), Instruction::LoadRegister);
    assert_eq!(decode(0x8AB1), Instruction::Or);
    assert_eq!(decode(0x8AB2), Instruction::And);
    assert_eq!(decode(0x8AB3), Instruction::Xor);
    assert_eq!(decode(0x8AB4), Instruction::AddRegister);
    assert_eq!(decode(0x8AB5), Instruction::Unknown);
    assert_eq!(decode(0x9AB0), Instruction::Unknown);
    assert_eq!(decode(0xAABC), Instruction::LoadIndex);
    assert_eq!(decode(0xBABC), Instruction::Unknown);
    assert_eq!(decode(0xDABC), Instruction::Draw);
    assert_eq!(decode(0xFA07), Instruction::Unknown);
}

#[test]
fn run_small_program() {
    // 00E0; 6005 (V0=5); 6103 (V1=3); A050 (I=font 0); D015 (draw); 1208 (loop)
    let rom = [0x00, 0xE0, 0x60, 0x05, 0x61, 0x03, 0xA0, 0x50, 0xD0, 0x15, 0x12, 0x08];
    let mut c = CPU::new();
    c.open(&rom);
    assert!(c.can_execute());
    // opcode 0 is unknown: only the first fetch happens
    assert_eq!(c.execute(), Effect::Nothing);
    assert_eq!(c.opcode, 0x00E0);
    assert_eq!(c.execute(), Effect::ClearScreen);
    assert_eq!(c.execute(), Effect::Nothing);
    assert_eq!(c.execute(), Effect::Nothing);
    assert_eq!(c.execute(), Effect::Nothing);
    assert_eq!(c.registers[0], 5);
    assert_eq!(c.registers[1], 3);
    assert_eq!(c.index, 0x50);
    assert_eq!(c.opcode, 0xD015);
    assert_eq!(c.execute(), Effect::Redraw);
    assert_eq!(c.display.lit_pixels()[0], (5, 3));
    assert_eq!(c.opcode, 0x1208);
    assert_eq!(c.execute(), Effect::Nothing);
    assert_eq!(c.opcode, 0xD015);
    assert_eq!(c.pc, 0x20A);
}

#[test]
fn can_execute_refuses_what_would_leave_memory() {
    let mut c = CPU::new();
    c.opcode = 0x00EE;
    assert!(!c.can_execute());
    c.stack.push(0xFFF);
    assert!(!c.can_execute());
    c.stack.push(0x300);
    assert!(!c.can_execute());
    c.sp = 2;
    assert!(c.can_execute());

    c.opcode = 0x2300;
    c.sp = usize::MAX;
    assert!(!c.can_execute());
    c.sp = 2;
    assert!(c.can_execute());

    c.opcode = 0x1FFF;
    assert!(!c.can_execute());
    c.opcode = 0x1FFE;
    assert!(c.can_execute());

    c.opcode = 0x3000;
    c.pc = 0xFFD;
    assert!(!c.can_execute());
    c.opcode = 0x3001;
    assert!(c.can_execute());

    c.opcode = 0xD01F;
    c.pc = 0x300;
    c.index = 4096 - 15;
    assert!(c.can_execute());
    c.index = 4096 - 14;
    assert!(!c.can_execute());

    c.index = 0x300;
    c.display.width = 128;
    c.registers[1] = 15;
    c.opcode = 0xD011;
    assert!(c.can_execute());
    c.registers[1] = 16;
    assert!(!c.can_execute());
    c.display.width = 64;
    assert!(c.can_execute());

    c.opcode = 0x6000;
    c.pc = 0xFFF;
    assert!(!c.can_execute());
}

#[test]
fn chip8_default() {
    let c: Chip8 = Default::default();
    assert_eq!(c.pc, 0x200);
    assert_eq!(c.registers, [0; 16]);
    assert!(c.memory.iter().all(|&b| b == 0));
    assert!(c.display.iter().all(|&b| b == 0));
    assert_eq!(c.stack, [0; 16]);
    assert_eq!(c.index, 0);
    assert_eq!(c.delaytimer, 0);
    assert_eq!(c.soundtimer, 0);
}
