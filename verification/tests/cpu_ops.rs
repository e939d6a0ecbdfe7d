use chip8::cpu::{MemLocations, CPU, FONTSET_START, ROM_START};

const FONT: [u8; 80] = [
    0xF0, 0x90, 0x90, 0x90, 0xF0, 0x20, 0x60, 0x20, 0x20, 0x70, 0xF0, 0x10, 0xF0, 0x80, 0xF0,
    0xF0, 0x10, 0xF0, 0x10, 0xF0, 0x90, 0x90, 0xF0, 0x10, 0x10, 0xF0, 0x80, 0xF0, 0x10, 0xF0,
    0xF0, 0x80, 0xF0, 0x90, 0xF0, 0xF0, 0x10, 0x20, 0x40, 0x40, 0xF0, 0x90, 0xF0, 0x90, 0xF0,
    0xF0, 0x90, 0xF0, 0x10, 0xF0, 0xF0, 0x90, 0xF0, 0x90, 0x90, 0xE0, 0x90, 0xE0, 0x90, 0xE0,
    0xF0, 0x80, 0x80, 0x80, 0xF0, 0xE0, 0x90, 0x90, 0x90, 0xE0, 0xF0, 0x80, 0xF0, 0x80, 0xF0,
    0xF0, 0x80, 0xF0, 0x80, 0x80,
];

/// A machine whose current instruction is `op`, with the next instruction at 0x300.
fn machine_with(op: u16) -> CPU {
    let mut c = CPU::new();
    c.opcode = op;
    c.pc = 0x300;
    c.memory[0x300] = 0x12;
    c.memory[0x301] = 0x34;
    c.memory[0x302] = 0x56;
    c.memory[0x303] = 0x78;
    c
}

#[test]
fn new_loads_font_and_zeroes_the_rest() {
    let c = CPU::new();
    for i in 0..4096 {
        if (0x50..0xA0).contains(&i) {
            assert_eq!(c.memory[i], FONT[i - 0x50]);
        } else {
            assert_eq!(c.memory[i], 0);
        }
    }
    assert_eq!(c.pc, 0x200);
    assert_eq!(c.registers, [0; 16]);
    assert!(c.stack.is_empty());
    assert_eq!(c.index, 0);
    assert_eq!(c.opcode, 0);
    assert_eq!(c.display.width, 64);
    assert_eq!(c.display.height, 32);
    assert_eq!(c.display.pixelvec.len(), 2048);
    assert_eq!(FONTSET_START, 0x50);
}

#[test]
fn default_is_new() {
    let a: CPU = Default::default();
    let b = CPU::new();
    assert_eq!(a.memory, b.memory);
    assert_eq!(a.pc, b.pc);
}

#[test]
fn mem_locations() {
    assert_eq!(MemLocations::Interpreter.address(), 0x000);
    assert_eq!(MemLocations::InterpreterEnd.address(), 0x1FF);
    assert_eq!(MemLocations::FontSet.address(), 0x050);
    assert_eq!(MemLocations::FontSetEnd.address(), 0x0A0);
    assert_eq!(MemLocations::Rom.address(), 0x200);
    assert_eq!(MemLocations::RomEnd.address(), 0xFFF);
}

#[test]
fn open_copies_rom_at_0x200() {
    let mut c = CPU::new();
    c.open(&[0xA2, 0x2A, 0x60, 0x0C]);
    assert_eq!(&c.memory[0x200..0x204], &[0xA2, 0x2A, 0x60, 0x0C]);
    assert_eq!(c.memory[0x204], 0);
    assert_eq!(c.memory[0x50], 0xF0);
    let full = vec![0x11u8; 4096 - ROM_START];
    c.open(&full);
    assert_eq!(c.memory[0xFFF], 0x11);
}

#[test]
fn cycle_fetches_big_endian_word() {
    let mut c = CPU::new();
    c.open(&[0xA2, 0x2A]);
    c.cycle();
    assert_eq!(c.opcode, 0xA22A);
    assert_eq!(c.pc, 0x202);
}

#[test]
fn op_0nnn_does_nothing() {
    let mut c = machine_with(0x0123);
    c.op_0nnn();
    assert_eq!(c.pc, 0x300);
    assert_eq!(c.opcode, 0x0123);
}

#[test]
fn op_00e0_clears_pixels() {
    let mut c = machine_with(0x00E0);
    c.display.pixels[5] = 1;
    c.display.pixels[2047] = 1;
    c.op_00e0();
    assert!(c.display.pixels.iter().all(|&p| p == 0));
    assert_eq!(c.opcode, 0x1234);
    assert_eq!(c.pc, 0x302);
}

#[test]
fn op_1nnn_jumps() {
    let mut c = machine_with(0x1300);
    c.pc = 0x200;
    c.op_1nnn();
    assert_eq!(c.opcode, 0x1234);
    assert_eq!(c.pc, 0x302);
}

#[test]
fn call_then_return() {
    let mut c = machine_with(0x2300);
    c.pc = 0x250;
    c.memory[0x250] = 0xAB;
    c.memory[0x251] = 0xCD;
    assert_eq!(c.sp, 0);
    c.op_2nnn();
    assert_eq!(c.sp, 1);
    assert_eq!(c.stack, vec![0x250]);
    assert_eq!(c.pc, 0x302);
    assert_eq!(c.opcode, 0x1234);
    c.op_00ee();
    assert_eq!(c.sp, 0);
    assert!(c.stack.is_empty());
    assert_eq!(c.pc, 0x252);
    assert_eq!(c.opcode, 0xABCD);
}

#[test]
fn skips() {
    let mut c = machine_with(0x3142);
    c.registers[1] = 0x42;
    c.op_3xkk();
    assert_eq!(c.pc, 0x304);
    assert_eq!(c.opcode, 0x5678);

    let mut c = machine_with(0x3142);
    c.op_3xkk();
    assert_eq!(c.pc, 0x302);

    let mut c = machine_with(0x4142);
    c.registers[1] = 0x42;
    c.op_4xkk();
    assert_eq!(c.pc, 0x302);

    let mut c = machine_with(0x4142);
    c.op_4xkk();
    assert_eq!(c.pc, 0x304);

    let mut c = machine_with(0x5120);
    c.registers[1] = 7;
    c.registers[2] = 7;
    c.op_5xy0();
    assert_eq!(c.pc, 0x304);

    let mut c = machine_with(0x5120);
    c.registers[1] = 7;
    c.op_5xy0();
    assert_eq!(c.pc, 0x302);
}

#[test]
fn load_and_add_byte() {
    let mut c = machine_with(0x6A7F);
    c.op_6xnn();
    assert_eq!(c.registers[0xA], 0x7F);
    assert_eq!(c.pc, 0x302);

    let mut c = machine_with(0x7A02);
    c.registers[0xA] = 0xFF;
    c.op_7xnn();
    assert_eq!(c.registers[0xA], 0x01);
    assert_eq!(c.registers[0xF], 0);

    // 0xFF + 0x01 keeps the lower 8 bits: 0x00
    let mut c = machine_with(0x7301);
    c.registers[3] = 0xFF;
    c.op_7xnn();
    assert_eq!(c.registers[3], 0x00);
}

#[test]
fn register_logic() {
    let mut c = machine_with(0x8120);
    c.registers[2] = 9;
    c.op_8xy0();
    assert_eq!(c.registers[1], 9);

    let mut c = machine_with(0x8121);
    c.registers[1] = 0b1100;
    c.registers[2] = 0b1010;
    c.op_8xy1();
    assert_eq!(c.registers[1], 0b1110);

    let mut c = machine_with(0x8122);
    c.registers[1] = 0b1100;
    c.registers[2] = 0b1010;
    c.op_8xy2();
    assert_eq!(c.registers[1], 0b1000);

    let mut c = machine_with(0x8123);
    c.registers[1] = 0b1100;
    c.registers[2] = 0b1010;
    c.op_8xy3();
    assert_eq!(c.registers[1], 0b0110);
}

#[test]
fn add_register_sets_carry() {
    let mut c = machine_with(0x8124);
    c.registers[1] = 200;
    c.registers[2] = 100;
    c.op_8xy4();
    assert_eq!(c.registers[1], 44);
    assert_eq!(c.registers[0xF], 1);

    let mut c = machine_with(0x8124);
    c.registers[1] = 20;
    c.registers[2] = 30;
    c.registers[0xF] = 1;
    c.op_8xy4();
    assert_eq!(c.registers[1], 50);
    assert_eq!(c.registers[0xF], 0);

    // with x = F the sum overwrites the carry
    let mut c = machine_with(0x8F24);
    c.registers[0xF] = 200;
    c.registers[2] = 100;
    c.op_8xy4();
    assert_eq!(c.registers[0xF], 44);
}

#[test]
fn sub_and_subn() {
    let mut c = machine_with(0x8125);
    c.registers[1] = 10;
    c.registers[2] = 3;
    c.op_8xy5();
    assert_eq!(c.registers[1], 7);
    assert_eq!(c.registers[0xF], 1);
    // no fetch: pc and opcode stay
    assert_eq!(c.pc, 0x300);
    assert_eq!(c.opcode, 0x8125);

    let mut c = machine_with(0x8125);
    c.registers[1] = 3;
    c.registers[2] = 10;
    c.op_8xy5();
    assert_eq!(c.registers[1], 249);
    assert_eq!(c.registers[0xF], 0);

    let mut c = machine_with(0x8125);
    c.registers[1] = 5;
    c.registers[2] = 5;
    c.op_8xy5();
    assert_eq!(c.registers[1], 0);
    assert_eq!(c.registers[0xF], 1);

    let mut c = machine_with(0x8127);
    c.registers[1] = 3;
    c.registers[2] = 10;
    c.op_8xy7();
    assert_eq!(c.registers[1], 7);
    assert_eq!(c.registers[0xF], 1);

    let mut c = machine_with(0x8127);
    c.registers[1] = 10;
    c.registers[2] = 3;
    c.op_8xy7();
    assert_eq!(c.registers[1], 249);
    assert_eq!(c.registers[0xF], 0);
}

#[test]
fn shifts() {
    let mut c = machine_with(0x8126);
    c.registers[1] = 0b1000_0011;
    c.op_8xy6();
    assert_eq!(c.registers[1], 0b0100_0001);
    assert_eq!(c.registers[0xF], 1);

    let mut c = machine_with(0x8126);
    c.registers[1] = 0b10;
    c.op_8xy6();
    assert_eq!(c.registers[1], 0b01);
    assert_eq!(c.registers[0xF], 0);

    let mut c = machine_with(0x812E);
    c.registers[1] = 0b1000_0011;
    c.op_8xye();
    assert_eq!(c.registers[1], 0b0000_0110);
    assert_eq!(c.registers[0xF], 1);

    let mut c = machine_with(0x812E);
    c.registers[1] = 0b0100_0000;
    c.op_8xye();
    assert_eq!(c.registers[1], 0b1000_0000);
    assert_eq!(c.registers[0xF], 0);

    // defined at the very end of memory too, where there is nothing to fetch
    let mut c = machine_with(0x8126);
    c.pc = 0xFFF;
    c.registers[1] = 3;
    c.op_8xy6();
    assert_eq!(c.registers[1], 1);
    assert_eq!(c.pc, 0xFFF);
    assert_eq!(c.opcode, 0x8126);
}

#[test]
fn load_index() {
    let mut c = machine_with(0xA22A);
    c.op_annn();
    assert_eq!(c.index, 0x22A);
    assert_eq!(c.pc, 0x302);
}
