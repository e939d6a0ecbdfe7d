use chip8::cpu::CPU;
use chip8::display::VData;

/// A machine about to draw `n` rows of the sprite at 0x400 at (V1, V2).
fn drawing_machine(n: u16, x: u8, y: u8, sprite: &[u8]) -> CPU {
    let mut c = CPU::new();
    c.opcode = 0xD120 | n;
    c.pc = 0x300;
    c.index = 0x400;
    c.registers[1] = x;
    c.registers[2] = y;
    for (i, b) in sprite.iter().enumerate() {
        c.memory[0x400 + i] = *b;
    }
    c
}

fn lit(c: &CPU) -> Vec<usize> {
    (0..2048).filter(|&i| c.display.pixels[i] != 0).collect()
}

#[test]
fn draws_sprite_bits_msb_first() {
    let mut c = drawing_machine(2, 3, 4, &[0b1000_0001, 0b0100_0000]);
    c.op_dxyn();
    assert_eq!(lit(&c), vec![4 * 64 + 3, 4 * 64 + 10, 5 * 64 + 4]);
    assert_eq!(c.registers[0xF], 0);
    assert_eq!(c.pc, 0x302);
}

#[test]
fn drawing_twice_erases_and_collides() {
    let mut c = drawing_machine(1, 0, 0, &[0xFF]);
    c.op_dxyn();
    assert_eq!(lit(&c).len(), 8);
    assert_eq!(c.registers[0xF], 0);
    c.opcode = 0xD121;
    c.pc = 0x300;
    c.op_dxyn();
    assert!(lit(&c).is_empty());
    assert_eq!(c.registers[0xF], 1);
}

#[test]
fn start_point_and_sprite_wrap() {
    // x = 62 + 64 wraps to 62; row 0 (at y 31) continues at column 0; row 1 wraps to y 0.
    let mut c = drawing_machine(2, 126, 31, &[0xF0, 0x80]);
    c.op_dxyn();
    assert_eq!(lit(&c), vec![62, 31 * 64, 31 * 64 + 1, 31 * 64 + 62, 31 * 64 + 63]);
}

#[test]
fn font_glyph_zero() {
    let mut c = CPU::new();
    c.opcode = 0xD125;
    c.pc = 0x300;
    c.index = 0x50;
    c.op_dxyn();
    let expected: Vec<usize> = vec![
        0, 1, 2, 3, 64, 67, 128, 131, 192, 195, 256, 257, 258, 259,
    ];
    assert_eq!(lit(&c), expected);
}

#[test]
fn zero_rows_draws_nothing() {
    let mut c = drawing_machine(0, 5, 5, &[]);
    c.registers[0xF] = 1;
    c.op_dxyn();
    assert!(lit(&c).is_empty());
    assert_eq!(c.registers[0xF], 1);
    assert_eq!(c.pc, 0x302);
}

#[test]
fn lit_pixels_lists_coordinates() {
    let mut d = VData::new(1);
    d.pixels[0] = 1;
    d.pixels[65] = 1;
    d.pixels[2047] = 3;
    assert_eq!(d.lit_pixels(), vec![(0, 0), (1, 1), (63, 31)]);
}

#[test]
fn vdata_new_scales() {
    let d = VData::new(3);
    assert_eq!(d.base_width, 64);
    assert_eq!(d.base_height, 32);
    assert_eq!(d.width, 192);
    assert_eq!(d.height, 96);
    assert_eq!(d.scale_factor, 3);
    assert_eq!(d.pixelvec.len(), 192 * 96);
    assert!(d.pixelvec.iter().all(|&p| p == 0));
    assert!(d.pixels.iter().all(|&p| p == 0));
    let z = VData::new(0);
    assert_eq!(z.pixelvec.len(), 0);
}

#[test]
fn vdata_default_scale_24() {
    let d: VData = Default::default();
    assert_eq!(d.scale_factor, 24);
    assert_eq!(d.width, 64 * 24);
    assert_eq!(d.pixelvec.len(), 64 * 24 * 32 * 24);
}

#[test]
fn rows_are_display_width_apart() {
    let mut c = CPU::new();
    c.display.width = 128;
    c.opcode = 0xD125;
    c.pc = 0x300;
    c.index = 0x50;
    c.registers[1] = 0;
    c.registers[2] = 1;
    c.op_dxyn();
    let expected: Vec<usize> = vec![
        128, 129, 130, 131, 256, 259, 384, 387, 512, 515, 640, 641, 642, 643,
    ];
    assert_eq!(lit(&c), expected);
    assert!(c.display.pixels[64] == 0);
}

#[test]
fn overlapping_bits_flip_twice_and_collide() {
    // with a width of 0 both rows land on the same pixels
    let mut c = drawing_machine(2, 0, 0, &[0x80, 0x80]);
    c.display.width = 0;
    c.op_dxyn();
    assert!(lit(&c).is_empty());
    assert_eq!(c.registers[0xF], 1);
}
