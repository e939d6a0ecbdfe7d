//! What each instruction does, stated directly over the opcode's nibbles, the registers, the
//! memory and the screen of the machine it starts from.

use vstd::prelude::*;
use vstd::bits::lemma_u8_shr_is_div;
use crate::cpu::{CpuView, memory_with_rom};
use crate::display::lit_points;
use crate::instruction::{Effect, Instruction, effect_of, instruction_of};
use crate::sprite::{
    draw_bits, flip_mask, pixel_index, sprite_bit, sprite_fits, lemma_draw_bits_is_xor,
};

verus! {

/// Whether bit `c` (0 the most significant) of `byte` is set.
pub open spec fn byte_bit(byte: u8, c: int) -> bool {
    (byte >> ((7 - c) as u8)) & 1u8 == 1u8
}

/// Whether `Dxyn`, run on machine `s` with a screen 64 pixels wide, flips screen pixel `p`:
/// `p` lies in the 8-wide, `n`-high box at `(Vx mod 64, Vy mod 32)` (wrapping around) and
/// the sprite bit over it is set.
pub open spec fn dxyn_flips(s: CpuView, p: int) -> bool {
    let op = s.opcode as int;
    let n = op % 16;
    let x0 = s.registers[(op / 256) % 16] % 64;
    let y0 = s.registers[(op / 16) % 16] % 32;
    let r = (p / 64 - y0) % 32;
    let c = (p % 64 - x0) % 64;
    c < 8 && r < n && byte_bit(s.memory[s.index + r], c)
}

/// Bit `c` of a sprite row, as `sprite_bit` reads it, is the shifted-out bit.
proof fn lemma_sprite_bit_is_byte_bit(byte: u8, c: int)
    requires
        0 <= c < 8,
    ensures
        sprite_bit(byte, c) == byte_bit(byte, c),
{
    let k: u8 = (7 - c) as u8;
    let s: u8 = byte >> k;
    assert((s & 1u8 == 1u8) == (s % 2 == 1)) by (bit_vector);
    lemma_u8_shr_is_div(byte, k);
}

/// Row `r`, column `c` of a sprite at `(x0, y0)` lands on a pixel whose box coordinates are
/// `(r, c)`.
proof fn lemma_box_coords(x0: int, y0: int, r: int, c: int)
    requires
        0 <= x0 < 64,
        0 <= y0 < 32,
        0 <= r < 32,
        0 <= c < 64,
    ensures
        0 <= pixel_index(64, x0, y0, r, c) < 2048,
        (pixel_index(64, x0, y0, r, c) / 64 - y0) % 32 == r,
        (pixel_index(64, x0, y0, r, c) % 64 - x0) % 64 == c,
{
    let yy = (y0 + r) % 32;
    let xx = (x0 + c) % 64;
    let p = 64 * yy + xx;
    assert(p / 64 == yy && p % 64 == xx) by (nonlinear_arith)
        requires
            p == 64 * yy + xx,
            0 <= xx < 64,
    ;
}

/// Every pixel is where its own box coordinates land.
proof fn lemma_box_coords_inverse(x0: int, y0: int, p: int)
    requires
        0 <= x0 < 64,
        0 <= y0 < 32,
        0 <= p < 2048,
    ensures
        pixel_index(64, x0, y0, (p / 64 - y0) % 32, (p % 64 - x0) % 64) == p,
{
    let row = p / 64;
    let col = p % 64;
    assert(p == 64 * row + col && 0 <= row < 32) by (nonlinear_arith)
        requires
            row == p / 64,
            col == p % 64,
            0 <= p < 2048,
    ;
}

/// On a screen 64 pixels wide every bit of a sprite lands on the screen.
proof fn lemma_fits_64(x0: int, y0: int, n: int)
    requires
        0 <= x0 < 64,
        0 <= y0 < 32,
        0 <= n <= 32,
    ensures
        sprite_fits(64, x0, y0, n),
{
    assert forall|r: int, c: int| 0 <= r < n && 0 <= c < 8 implies #[trigger] pixel_index(
        64,
        x0,
        y0,
        r,
        c,
    ) < 2048 by {
        lemma_box_coords(x0, y0, r, c);
    }
}

/// On a screen 64 pixels wide, the first `k` bits of a sprite flip exactly the pixels whose
/// box position comes before bit `k` and whose bit is set.
proof fn lemma_flip_mask_64(mem: Seq<u8>, index: int, x0: int, y0: int, n: int, k: nat)
    requires
        0 <= x0 < 64,
        0 <= y0 < 32,
        0 <= n <= 16,
        k <= 8 * n,
    ensures
        flip_mask(mem, index, 64, x0, y0, k).len() == 2048,
        forall|p: int|
            0 <= p < 2048 ==> #[trigger] flip_mask(mem, index, 64, x0, y0, k)[p] == (if ({
                let r = (p / 64 - y0) % 32;
                let c = (p % 64 - x0) % 64;
                c < 8 && r < n && 8 * r + c < k && sprite_bit(mem[index + r], c)
            }) {
                1u8
            } else {
                0u8
            }),
    decreases k,
{
    if k > 0 {
        lemma_flip_mask_64(mem, index, x0, y0, n, (k - 1) as nat);
        let j = k - 1;
        let r = j / 8;
        let c = j % 8;
        lemma_box_coords(x0, y0, r, c);
        let q = pixel_index(64, x0, y0, r, c);
        assert forall|p: int| 0 <= p < 2048 implies #[trigger] flip_mask(
            mem,
            index,
            64,
            x0,
            y0,
            k,
        )[p] == (if ({
            let rp = (p / 64 - y0) % 32;
            let cp = (p % 64 - x0) % 64;
            cp < 8 && rp < n && 8 * rp + cp < k && sprite_bit(mem[index + rp], cp)
        }) {
            1u8
        } else {
            0u8
        }) by {
            lemma_box_coords_inverse(x0, y0, p);
            let rp = (p / 64 - y0) % 32;
            let cp = (p % 64 - x0) % 64;
            if p == q {
                let v = flip_mask(mem, index, 64, x0, y0, (k - 1) as nat)[p];
                assert(v == 0u8);
                assert(0u8 ^ 1u8 == 1u8) by (bit_vector);
            } else {
                assert(!(rp == r && cp == c));
            }
        }
    } else {
        assert forall|p: int| 0 <= p < 2048 implies #[trigger] flip_mask(
            mem,
            index,
            64,
            x0,
            y0,
            k,
        )[p] == 0u8 by {}
    }
}

/// On a screen 64 pixels wide, drawing the first `k` bits collides exactly when one of them
/// is set and finds its pixel on.
proof fn lemma_collides_64(
    pixels: Seq<u8>,
    mem: Seq<u8>,
    index: int,
    x0: int,
    y0: int,
    n: int,
    k: nat,
)
    requires
        pixels.len() == 2048,
        0 <= x0 < 64,
        0 <= y0 < 32,
        0 <= n <= 16,
        k <= 8 * n,
    ensures
        draw_bits(pixels, mem, index, 64, x0, y0, k).1 <==> exists|p: int|
            0 <= p < 2048 && #[trigger] pixels[p] == 1 && ({
                let r = (p / 64 - y0) % 32;
                let c = (p % 64 - x0) % 64;
                c < 8 && r < n && 8 * r + c < k && sprite_bit(mem[index + r], c)
            }),
    decreases k,
{
    if k > 0 {
        lemma_collides_64(pixels, mem, index, x0, y0, n, (k - 1) as nat);
        lemma_fits_64(x0, y0, n);
        lemma_draw_bits_is_xor(pixels, mem, index, 64, x0, y0, n, (k - 1) as nat);
        lemma_flip_mask_64(mem, index, x0, y0, n, (k - 1) as nat);
        let j = k - 1;
        let r = j / 8;
        let c = j % 8;
        lemma_box_coords(x0, y0, r, c);
        let q = pixel_index(64, x0, y0, r, c);
        let prev = draw_bits(pixels, mem, index, 64, x0, y0, (k - 1) as nat);
        assert(flip_mask(mem, index, 64, x0, y0, (k - 1) as nat)[q] == 0u8);
        let v = pixels[q];
        assert(v ^ 0u8 == v) by (bit_vector);
        assert(prev.0[q] == pixels[q]);
        if draw_bits(pixels, mem, index, 64, x0, y0, k).1 {
            if !prev.1 {
                assert(pixels[q] == 1);
            } else {
                let p = choose|p: int|
                    0 <= p < 2048 && #[trigger] pixels[p] == 1 && ({
                        let r = (p / 64 - y0) % 32;
                        let c = (p % 64 - x0) % 64;
                        c < 8 && r < n && 8 * r + c < k - 1 && sprite_bit(mem[index + r], c)
                    });
                assert(pixels[p] == 1);
            }
        } else {
            assert forall|p: int| 0 <= p < 2048 && #[trigger] pixels[p] == 1 implies !({
                let rp = (p / 64 - y0) % 32;
                let cp = (p % 64 - x0) % 64;
                cp < 8 && rp < n && 8 * rp + cp < k && sprite_bit(mem[index + rp], cp)
            }) by {
                lemma_box_coords_inverse(x0, y0, p);
                let rp = (p / 64 - y0) % 32;
                let cp = (p % 64 - x0) % 64;
                if cp < 8 && rp < n && 8 * rp + cp == k - 1 {
                    assert(rp == r && cp == c);
                }
            }
        }
    }
}

/// `Dxyn` on a screen 64 pixels wide XORs the sprite onto the screen: every pixel under a set
/// bit of the `n` bytes from `index` on, in the box at `(Vx mod 64, Vy mod 32)` wrapping
/// around, is flipped, and every other pixel is kept. When `n > 0`, VF becomes 1 exactly when
/// a flipped pixel was on, else 0; when `n == 0` the registers are kept.
pub proof fn lemma_dxyn_xors_sprite(s: CpuView)
    requires
        s.registers.len() == 16,
        s.display.pixels.len() == 2048,
        s.display.width == 64,
    ensures
        ({
            let t = s.after_dxyn();
            let old = s.display.pixels;
            let n = s.opcode as int % 16;
            &&& t.display.pixels.len() == 2048
            &&& forall|p: int|
                0 <= p < 2048 ==> #[trigger] t.display.pixels[p] == (if dxyn_flips(s, p) {
                    old[p] ^ 1u8
                } else {
                    old[p]
                })
            &&& n > 0 ==> (t.registers == s.registers.update(
                15,
                if exists|p: int| 0 <= p < 2048 && dxyn_flips(s, p) && #[trigger] old[p] == 1 {
                    1u8
                } else {
                    0u8
                },
            ))
            &&& n == 0 ==> t.registers == s.registers
        }),
{
    let op = s.opcode as int;
    let n = op % 16;
    let x0 = s.sprite_x();
    let y0 = s.sprite_y();
    let index = s.index as int;
    let k = (8 * n) as nat;
    let old = s.display.pixels;
    lemma_fits_64(x0, y0, n);
    lemma_draw_bits_is_xor(old, s.memory, index, 64, x0, y0, n, k);
    lemma_flip_mask_64(s.memory, index, x0, y0, n, k);
    lemma_collides_64(old, s.memory, index, x0, y0, n, k);
    let t = s.after_dxyn();
    assert forall|p: int| 0 <= p < 2048 implies #[trigger] t.display.pixels[p] == (if dxyn_flips(
        s,
        p,
    ) {
        old[p] ^ 1u8
    } else {
        old[p]
    }) by {
        let r = (p / 64 - y0) % 32;
        let c = (p % 64 - x0) % 64;
        if c < 8 {
            lemma_sprite_bit_is_byte_bit(s.memory[index + r], c);
        }
        let v = old[p];
        assert(v ^ 0u8 == v) by (bit_vector);
        let _ = flip_mask(s.memory, index, 64, x0, y0, k)[p];
    }
    if n > 0 {
        let hit = exists|p: int| 0 <= p < 2048 && dxyn_flips(s, p) && #[trigger] old[p] == 1;
        if hit {
            let p = choose|p: int| 0 <= p < 2048 && dxyn_flips(s, p) && #[trigger] old[p] == 1;
            let r = (p / 64 - y0) % 32;
            let c = (p % 64 - x0) % 64;
            lemma_sprite_bit_is_byte_bit(s.memory[index + r], c);
            assert(old[p] == 1);
        } else {
            assert forall|p: int| 0 <= p < 2048 && #[trigger] old[p] == 1 implies !({
                let r = (p / 64 - y0) % 32;
                let c = (p % 64 - x0) % 64;
                c < 8 && r < n && 8 * r + c < k && sprite_bit(s.memory[index + r], c)
            }) by {
                let r = (p / 64 - y0) % 32;
                let c = (p % 64 - x0) % 64;
                if 0 <= c < 8 {
                    lemma_sprite_bit_is_byte_bit(s.memory[index + r], c);
                }
                assert(!dxyn_flips(s, p));
            }
        }
    }
}

/// The big-endian word at `a` in the memory of `s`.
pub open spec fn word(s: CpuView, a: int) -> u16 {
    (s.memory[a] as int * 256 + s.memory[a + 1] as int) as u16
}

/// Machine `s` with `registers` and `index` replaced, then the instruction at `next` fetched:
/// `opcode` is the word at `next` and `pc` is two bytes on.
pub open spec fn continue_at(s: CpuView, registers: Seq<u8>, index: u16, next: int) -> CpuView {
    CpuView { registers, index, opcode: word(s, next), pc: (next + 2) as usize, ..s }
}

/// The loads and bitwise instructions, over all machines: the register they write, with the
/// value stated, everything else kept, and the next instruction fetched.
pub proof fn lemma_load_instructions(s: CpuView)
    requires
        s.registers.len() == 16,
    ensures
        ({
            let op = s.opcode as int;
            let x = (op / 256) % 16;
            let y = (op / 16) % 16;
            let kk = op % 256;
            let vx = s.registers[x];
            let vy = s.registers[y];
            let regs = s.registers;
            let pc = s.pc as int;
            &&& s.after_6xnn() == continue_at(s, regs.update(x, kk as u8), s.index, pc)
            &&& s.after_8xy0() == continue_at(s, regs.update(x, vy), s.index, pc)
            &&& s.after_8xy1() == continue_at(s, regs.update(x, vx | vy), s.index, pc)
            &&& s.after_8xy2() == continue_at(s, regs.update(x, vx & vy), s.index, pc)
            &&& s.after_8xy3() == continue_at(s, regs.update(x, vx ^ vy), s.index, pc)
            &&& s.after_annn() == continue_at(s, regs, (op % 4096) as u16, pc)
        }),
{
}

/// The additions, over all machines: `7xkk` adds the whole byte `kk` to `Vx` modulo 256;
/// `8xy4` sets VF to the carry, then `Vx` to the low byte of `Vx + Vy`.
pub proof fn lemma_add_instructions(s: CpuView)
    requires
        s.registers.len() == 16,
    ensures
        ({
            let op = s.opcode as int;
            let x = (op / 256) % 16;
            let y = (op / 16) % 16;
            let kk = op % 256;
            let vx = s.registers[x];
            let vy = s.registers[y];
            let regs = s.registers;
            let pc = s.pc as int;
            &&& s.after_7xnn() == continue_at(
                s,
                regs.update(x, (if vx + kk < 256 { vx + kk } else { vx + kk - 256 }) as u8),
                s.index,
                pc,
            )
            &&& s.after_8xy4() == continue_at(
                s,
                regs.update(15, if vx + vy < 256 { 0u8 } else { 1u8 }).update(
                    x,
                    (if vx + vy < 256 { vx + vy } else { vx + vy - 256 }) as u8,
                ),
                s.index,
                pc,
            )
        }),
{
}

/// The subtractions, over all machines (they fetch nothing): VF is 0 on a borrow, else 1,
/// then `Vx` is the difference modulo 256.
pub proof fn lemma_sub_instructions(s: CpuView)
    requires
        s.registers.len() == 16,
    ensures
        ({
            let op = s.opcode as int;
            let x = (op / 256) % 16;
            let y = (op / 16) % 16;
            let kk = op % 256;
            let vx = s.registers[x];
            let vy = s.registers[y];
            let regs = s.registers;
            let pc = s.pc as int;
            &&& s.after_8xy5() == CpuView {
                registers: regs.update(15, if vy > vx { 0u8 } else { 1u8 }).update(
                    x,
                    (if vy > vx { vx - vy + 256 } else { vx - vy }) as u8,
                ),
                ..s
            }
            &&& s.after_8xy7() == CpuView {
                registers: regs.update(15, if vx > vy { 0u8 } else { 1u8 }).update(
                    x,
                    (if vx > vy { vy - vx + 256 } else { vy - vx }) as u8,
                ),
                ..s
            }
        }),
{
}

/// The shifts, over all machines (they fetch nothing): VF takes the bit shifted out of `Vx`.
pub proof fn lemma_shift_instructions(s: CpuView)
    requires
        s.registers.len() == 16,
    ensures
        ({
            let x = (s.opcode as int / 256) % 16;
            let vx = s.registers[x];
            &&& s.after_8xy6() == CpuView {
                registers: s.registers.update(15, vx & 1u8).update(x, vx >> 1u8),
                ..s
            }
            &&& s.after_8xye() == CpuView {
                registers: s.registers.update(15, vx >> 7u8).update(x, vx << 1u8),
                ..s
            }
        }),
{
    let x = (s.opcode as int / 256) % 16;
    let vx = s.registers[x];
    assert(vx & 1u8 == vx % 2 && vx >> 1u8 == vx / 2 && vx >> 7u8 == vx / 128 && (vx << 1u8) as int
        == (vx * 2) % 256) by (bit_vector);
    assert(s.after_8xy6() =~= CpuView {
        registers: s.registers.update(15, vx & 1u8).update(x, vx >> 1u8),
        ..s
    });
    assert(s.after_8xye() =~= CpuView {
        registers: s.registers.update(15, vx >> 7u8).update(x, vx << 1u8),
        ..s
    });
}

/// The skips: `3xkk` skips exactly when `Vx == kk`, `4xkk` exactly when `Vx != kk`, `5xy0`
/// exactly when `Vx == Vy`; skipping fetches the instruction four bytes on instead of two.
pub proof fn lemma_skip_instructions(s: CpuView)
    requires
        s.registers.len() == 16,
        s.pc + 4 <= usize::MAX,
    ensures
        ({
            let op = s.opcode as int;
            let vx = s.registers[(op / 256) % 16];
            let vy = s.registers[(op / 16) % 16];
            let kk = op % 256;
            let pc = s.pc as int;
            &&& s.after_3xkk() == continue_at(
                s,
                s.registers,
                s.index,
                if vx == kk { pc + 2 } else { pc },
            )
            &&& s.after_4xkk() == continue_at(
                s,
                s.registers,
                s.index,
                if vx != kk { pc + 2 } else { pc },
            )
            &&& s.after_5xy0() == continue_at(
                s,
                s.registers,
                s.index,
                if vx == vy { pc + 2 } else { pc },
            )
        }),
{
}

/// The control transfers: `1nnn` continues at `nnn`; `2nnn` pushes `pc`, increments the
/// stack pointer and continues at `nnn`; `00EE` pops the address it continues at and
/// decrements the stack pointer; `00E0` turns every pixel off and continues.
pub proof fn lemma_control_instructions(s: CpuView)
    ensures
        ({
            let nnn = s.opcode as int % 4096;
            let pc = s.pc as int;
            let top = s.stack[s.stack.len() - 1] as int;
            &&& s.after_1nnn() == continue_at(s, s.registers, s.index, nnn)
            &&& s.after_2nnn() == CpuView {
                stack: s.stack.push(s.pc),
                sp: (s.sp + 1) as usize,
                ..continue_at(s, s.registers, s.index, nnn)
            }
            &&& s.after_00ee() == CpuView {
                stack: s.stack.subrange(0, s.stack.len() - 1),
                sp: (s.sp - 1) as usize,
                ..continue_at(s, s.registers, s.index, top)
            }
            &&& s.after_00e0() == CpuView {
                display: crate::display::VDataView {
                    pixels: Seq::new(2048, |p: int| 0u8),
                    ..s.display
                },
                ..continue_at(s, s.registers, s.index, pc)
            }
        }),
{
}

/// Decoding by the opcode's nibbles `K X Y N`.
pub proof fn lemma_decode_table(op: u16)
    ensures
        ({
            let k = op as int / 4096;
            let n = op as int % 16;
            &&& op == 0x00E0 <==> instruction_of(op) == Instruction::ClearScreen
            &&& op == 0x00EE <==> instruction_of(op) == Instruction::Return
            &&& k == 1 <==> instruction_of(op) == Instruction::Jump
            &&& k == 2 <==> instruction_of(op) == Instruction::Call
            &&& k == 3 <==> instruction_of(op) == Instruction::SkipIfEqualByte
            &&& k == 4 <==> instruction_of(op) == Instruction::SkipIfNotEqualByte
            &&& (k == 5 && n == 0) <==> instruction_of(op) == Instruction::SkipIfEqualRegister
            &&& k == 6 <==> instruction_of(op) == Instruction::LoadByte
            &&& k == 7 <==> instruction_of(op) == Instruction::AddByte
            &&& (k == 8 && n == 0) <==> instruction_of(op) == Instruction::LoadRegister
            &&& (k == 8 && n == 1) <==> instruction_of(op) == Instruction::Or
            &&& (k == 8 && n == 2) <==> instruction_of(op) == Instruction::And
            &&& (k == 8 && n == 3) <==> instruction_of(op) == Instruction::Xor
            &&& (k == 8 && n == 4) <==> instruction_of(op) == Instruction::AddRegister
            &&& k == 0xA <==> instruction_of(op) == Instruction::LoadIndex
            &&& k == 0xD <==> instruction_of(op) == Instruction::Draw
            &&& (op == 0x00E0 <==> effect_of(instruction_of(op)) == Effect::ClearScreen)
            &&& (k == 0xD <==> effect_of(instruction_of(op)) == Effect::Redraw)
        }),
{
}

/// `execute` runs the instruction its opcode names: each pattern of nibbles gives the machine
/// of the matching instruction, with the register results stated once more for the
/// register instructions, and any other opcode only fetches the next instruction.
pub proof fn lemma_execute_dispatch(s: CpuView)
    requires
        s.registers.len() == 16,
    ensures
        ({
            let op = s.opcode as int;
            let k = op / 4096;
            let n = op % 16;
            let x = (op / 256) % 16;
            let vx = s.registers[x];
            let vy = s.registers[(op / 16) % 16];
            let kk = op % 256;
            let t = s.after_execute();
            &&& op == 0x00E0 ==> t == s.after_00e0()
            &&& op == 0x00EE ==> t == s.after_00ee()
            &&& k == 1 ==> t == s.after_1nnn()
            &&& k == 2 ==> t == s.after_2nnn()
            &&& k == 3 ==> t == s.after_3xkk()
            &&& k == 4 ==> t == s.after_4xkk()
            &&& (k == 5 && n == 0) ==> t == s.after_5xy0()
            &&& k == 6 ==> t == s.after_6xnn() && t.registers == s.registers.update(x, kk as u8)
            &&& k == 7 ==> t == s.after_7xnn() && t.registers == s.registers.update(
                x,
                ((vx + kk) % 256) as u8,
            )
            &&& (k == 8 && n == 0) ==> t == s.after_8xy0() && t.registers == s.registers.update(x, vy)
            &&& (k == 8 && n == 1) ==> t == s.after_8xy1() && t.registers == s.registers.update(
                x,
                vx | vy,
            )
            &&& (k == 8 && n == 2) ==> t == s.after_8xy2() && t.registers == s.registers.update(
                x,
                vx & vy,
            )
            &&& (k == 8 && n == 3) ==> t == s.after_8xy3() && t.registers == s.registers.update(
                x,
                vx ^ vy,
            )
            &&& (k == 8 && n == 4) ==> t == s.after_8xy4() && t.registers[x] == (vx + vy) % 256
            &&& k == 0xA ==> t == s.after_annn() && t.index == op % 4096
            &&& k == 0xD ==> t == s.after_dxyn()
            &&& ((k == 0 && op != 0x00E0 && op != 0x00EE) || (k == 5 && n != 0) || (k == 8 && n
                > 4) || k == 9 || k == 0xB || k == 0xC || k == 0xE || k == 0xF) ==> t
                == continue_at(s, s.registers, s.index, s.pc as int)
        }),
{
    lemma_load_instructions(s);
    lemma_add_instructions(s);
}

/// Pixel of row `r`, column `c` of the sprite of `Dxyn` on machine `s`: rows are
/// `display.width` pixels apart, columns wrap around at 64 and rows at 32, starting at
/// `(Vx mod 64, Vy mod 32)`.
pub open spec fn box_pixel(s: CpuView, r: int, c: int) -> int {
    let op = s.opcode as int;
    let x0 = s.registers[(op / 256) % 16] % 64;
    let y0 = s.registers[(op / 16) % 16] % 32;
    s.display.width as int * ((y0 + r) % 32) + (x0 + c) % 64
}

/// Whether `(r, c)` is a bit of the sprite of `Dxyn`: one of its `n` rows, one of 8 columns.
pub open spec fn in_box(s: CpuView, r: int, c: int) -> bool {
    0 <= r < s.opcode as int % 16 && 0 <= c < 8
}

/// Whether bit `(r, c)` of the sprite of `Dxyn` is set.
pub open spec fn box_bit(s: CpuView, r: int, c: int) -> bool {
    byte_bit(s.memory[s.index + r], c)
}

/// With distinct sprite bits on distinct pixels, the first `k` bits flip exactly the pixels of
/// the set bits before bit `k`.
proof fn lemma_flip_mask_distinct(s: CpuView, k: nat)
    requires
        s.registers.len() == 16,
        k <= 8 * (s.opcode as int % 16),
        forall|r: int, c: int| in_box(s, r, c) ==> 0 <= #[trigger] box_pixel(s, r, c) < 2048,
        forall|r1: int, c1: int, r2: int, c2: int|
            in_box(s, r1, c1) && in_box(s, r2, c2) && (r1 != r2 || c1 != c2) ==> #[trigger] box_pixel(
                s,
                r1,
                c1,
            ) != #[trigger] box_pixel(s, r2, c2),
    ensures
        ({
            let m = flip_mask(s.memory, s.index as int, s.display.width as int, s.sprite_x(), s.sprite_y(), k);
            &&& m.len() == 2048
            &&& forall|r: int, c: int|
                in_box(s, r, c) ==> m[#[trigger] box_pixel(s, r, c)] == (if 8 * r + c < k && box_bit(
                    s,
                    r,
                    c,
                ) {
                    1u8
                } else {
                    0u8
                })
            &&& forall|p: int|
                0 <= p < 2048 && (forall|r: int, c: int| in_box(s, r, c) ==> box_pixel(s, r, c) != p)
                    ==> #[trigger] m[p] == 0u8
        }),
    decreases k,
{
    let w = s.display.width as int;
    let x0 = s.sprite_x();
    let y0 = s.sprite_y();
    let index = s.index as int;
    if k > 0 {
        lemma_flip_mask_distinct(s, (k - 1) as nat);
        let j = k - 1;
        let rj = j / 8;
        let cj = j % 8;
        assert(in_box(s, rj, cj));
        let q = box_pixel(s, rj, cj);
        assert(q == pixel_index(w, x0, y0, rj, cj));
        lemma_sprite_bit_is_byte_bit(s.memory[index + rj], cj);
        let prev = flip_mask(s.memory, index, w, x0, y0, (k - 1) as nat);
        let m = flip_mask(s.memory, index, w, x0, y0, k);
        assert(0u8 ^ 1u8 == 1u8) by (bit_vector);
        assert forall|r: int, c: int| in_box(s, r, c) implies m[#[trigger] box_pixel(s, r, c)] == (
        if 8 * r + c < k && box_bit(s, r, c) {
            1u8
        } else {
            0u8
        }) by {
            if r == rj && c == cj {
            } else {
                assert(box_pixel(s, r, c) != box_pixel(s, rj, cj));
                assert(8 * r + c != k - 1);
            }
        }
    }
}

/// `Dxyn` XORs the sprite onto the screen whenever its bits land on distinct pixels inside the
/// screen: the pixel of every set bit is flipped, the pixel of every clear bit and every
/// pixel outside the sprite is kept; when `n > 0` VF becomes 1 exactly when a set bit found
/// its pixel on, else 0; when `n == 0` the registers are kept.
pub proof fn lemma_dxyn_draws_box(s: CpuView)
    requires
        s.registers.len() == 16,
        s.display.pixels.len() == 2048,
        forall|r: int, c: int| in_box(s, r, c) ==> 0 <= #[trigger] box_pixel(s, r, c) < 2048,
        forall|r1: int, c1: int, r2: int, c2: int|
            in_box(s, r1, c1) && in_box(s, r2, c2) && (r1 != r2 || c1 != c2) ==> #[trigger] box_pixel(
                s,
                r1,
                c1,
            ) != #[trigger] box_pixel(s, r2, c2),
    ensures
        ({
            let t = s.after_dxyn();
            let old = s.display.pixels;
            let new = t.display.pixels;
            &&& forall|r: int, c: int|
                in_box(s, r, c) ==> new[#[trigger] box_pixel(s, r, c)] == (if box_bit(s, r, c) {
                    old[box_pixel(s, r, c)] ^ 1u8
                } else {
                    old[box_pixel(s, r, c)]
                })
            &&& forall|p: int|
                0 <= p < 2048 && (forall|r: int, c: int| in_box(s, r, c) ==> box_pixel(s, r, c) != p)
                    ==> #[trigger] new[p] == old[p]
            &&& s.opcode as int % 16 > 0 ==> t.registers == s.registers.update(
                15,
                if exists|r: int, c: int|
                    in_box(s, r, c) && box_bit(s, r, c) && old[#[trigger] box_pixel(s, r, c)] == 1 {
                    1u8
                } else {
                    0u8
                },
            )
            &&& s.opcode as int % 16 == 0 ==> t.registers == s.registers
        }),
{
    let w = s.display.width as int;
    let x0 = s.sprite_x();
    let y0 = s.sprite_y();
    let index = s.index as int;
    let n = s.opcode as int % 16;
    let k = (8 * n) as nat;
    let old = s.display.pixels;
    assert(sprite_fits(w, x0, y0, n)) by {
        assert forall|r: int, c: int| 0 <= r < n && 0 <= c < 8 implies #[trigger] pixel_index(
            w,
            x0,
            y0,
            r,
            c,
        ) < 2048 by {
            assert(in_box(s, r, c));
            assert(pixel_index(w, x0, y0, r, c) == box_pixel(s, r, c));
        }
    }
    lemma_draw_bits_is_xor(old, s.memory, index, w, x0, y0, n, k);
    lemma_flip_mask_distinct(s, k);
    let m = flip_mask(s.memory, index, w, x0, y0, k);
    let t = s.after_dxyn();
    assert forall|r: int, c: int| in_box(s, r, c) implies t.display.pixels[#[trigger] box_pixel(
        s,
        r,
        c,
    )] == (if box_bit(s, r, c) {
        old[box_pixel(s, r, c)] ^ 1u8
    } else {
        old[box_pixel(s, r, c)]
    }) by {
        let v = old[box_pixel(s, r, c)];
        assert(v ^ 0u8 == v) by (bit_vector);
    }
    assert forall|p: int|
        0 <= p < 2048 && (forall|r: int, c: int| in_box(s, r, c) ==> box_pixel(s, r, c) != p)
        implies #[trigger] t.display.pixels[p] == old[p] by {
        let v = old[p];
        assert(m[p] == 0u8);
        assert(v ^ 0u8 == v) by (bit_vector);
    }
    lemma_collides_distinct(s, k);
}

/// With distinct sprite bits on distinct pixels, drawing the first `k` bits collides exactly
/// when one of them is set and finds its pixel on.
proof fn lemma_collides_distinct(s: CpuView, k: nat)
    requires
        s.registers.len() == 16,
        s.display.pixels.len() == 2048,
        k <= 8 * (s.opcode as int % 16),
        forall|r: int, c: int| in_box(s, r, c) ==> 0 <= #[trigger] box_pixel(s, r, c) < 2048,
        forall|r1: int, c1: int, r2: int, c2: int|
            in_box(s, r1, c1) && in_box(s, r2, c2) && (r1 != r2 || c1 != c2) ==> #[trigger] box_pixel(
                s,
                r1,
                c1,
            ) != #[trigger] box_pixel(s, r2, c2),
    ensures
        draw_bits(
            s.display.pixels,
            s.memory,
            s.index as int,
            s.display.width as int,
            s.sprite_x(),
            s.sprite_y(),
            k,
        ).1 <==> exists|r: int, c: int|
            in_box(s, r, c) && 8 * r + c < k && box_bit(s, r, c) && s.display.pixels[
                #[trigger] box_pixel(s, r, c)] == 1,
    decreases k,
{
    let w = s.display.width as int;
    let x0 = s.sprite_x();
    let y0 = s.sprite_y();
    let index = s.index as int;
    let n = s.opcode as int % 16;
    let old = s.display.pixels;
    if k > 0 {
        lemma_collides_distinct(s, (k - 1) as nat);
        assert(sprite_fits(w, x0, y0, n)) by {
            assert forall|r: int, c: int| 0 <= r < n && 0 <= c < 8 implies #[trigger] pixel_index(
                w,
                x0,
                y0,
                r,
                c,
            ) < 2048 by {
                assert(in_box(s, r, c));
                assert(pixel_index(w, x0, y0, r, c) == box_pixel(s, r, c));
            }
        }
        lemma_draw_bits_is_xor(old, s.memory, index, w, x0, y0, n, (k - 1) as nat);
        lemma_flip_mask_distinct(s, (k - 1) as nat);
        let j = k - 1;
        let rj = j / 8;
        let cj = j % 8;
        assert(in_box(s, rj, cj));
        let q = box_pixel(s, rj, cj);
        assert(q == pixel_index(w, x0, y0, rj, cj));
        lemma_sprite_bit_is_byte_bit(s.memory[index + rj], cj);
        let prev = draw_bits(old, s.memory, index, w, x0, y0, (k - 1) as nat);
        let v = old[q];
        assert(v ^ 0u8 == v) by (bit_vector);
        assert(prev.0[q] == old[q]);
        if draw_bits(old, s.memory, index, w, x0, y0, k).1 {
            if !prev.1 {
                assert(in_box(s, rj, cj) && 8 * rj + cj < k && box_bit(s, rj, cj) && old[box_pixel(
                    s,
                    rj,
                    cj,
                )] == 1);
            } else {
                let (r, c) = choose|r: int, c: int|
                    in_box(s, r, c) && 8 * r + c < k - 1 && box_bit(s, r, c) && old[
                        #[trigger] box_pixel(s, r, c)] == 1;
                assert(in_box(s, r, c) && 8 * r + c < k && box_bit(s, r, c) && old[box_pixel(
                    s,
                    r,
                    c,
                )] == 1);
            }
        } else {
            assert forall|r: int, c: int|
                in_box(s, r, c) && 8 * r + c < k && box_bit(s, r, c) implies old[
                #[trigger] box_pixel(s, r, c)] != 1 by {
                if 8 * r + c == k - 1 {
                    assert(r == rj && c == cj);
                }
            }
        }
    }
}

/// Loading a program puts byte `i` of it at `0x200 + i` and keeps every other byte.
pub proof fn lemma_open_places_rom(mem: Seq<u8>, rom: Seq<u8>)
    requires
        0x200 + rom.len() <= mem.len(),
    ensures
        memory_with_rom(mem, rom).len() == mem.len(),
        forall|i: int| 0 <= i < rom.len() ==> #[trigger] memory_with_rom(mem, rom)[0x200 + i] == rom[i],
        forall|a: int|
            0 <= a < mem.len() && (a < 0x200 || a >= 0x200 + rom.len()) ==> #[trigger] memory_with_rom(
                mem,
                rom,
            )[a] == mem[a],
{
}

/// The lit pixels among the first `n` are listed as `(x, y)` with `x < 64`, each pixel
/// `64 * y + x` exactly when it is on, in increasing order of pixel.
pub proof fn lemma_lit_points(pixels: Seq<u8>, n: int)
    requires
        0 <= n <= pixels.len(),
        pixels.len() <= 2048,
    ensures
        forall|x: u32, y: u32|
            lit_points(pixels, n).contains((x, y)) <==> (x < 64 && 64 * y + x < n && pixels[64 * y
                + x] != 0),
        forall|i: int, j: int|
            0 <= i < j < lit_points(pixels, n).len() ==> 64 * (#[trigger] lit_points(pixels, n)[i]).1
                + lit_points(pixels, n)[i].0 < 64 * (#[trigger] lit_points(pixels, n)[j]).1
                + lit_points(pixels, n)[j].0,
        forall|i: int|
            0 <= i < lit_points(pixels, n).len() ==> (#[trigger] lit_points(pixels, n)[i]).0 < 64
                && 64 * lit_points(pixels, n)[i].1 + lit_points(pixels, n)[i].0 < n,
    decreases n,
{
    if n > 0 {
        lemma_lit_points(pixels, n - 1);
        let prev = lit_points(pixels, n - 1);
        let cur = lit_points(pixels, n);
        let m = n - 1;
        let e: (u32, u32) = ((m % 64) as u32, (m / 64) as u32);
        assert(64 * e.1 + e.0 == m && e.0 < 64);
        assert forall|x: u32, y: u32|
            cur.contains((x, y)) <==> (x < 64 && 64 * y + x < n && pixels[64 * y + x] != 0) by {
            if x < 64 && 64 * y + x == m {
                assert(x == e.0 && y == e.1) by (nonlinear_arith)
                    requires
                        x < 64,
                        64 * y + x == m,
                        e.0 == m % 64,
                        e.1 == m / 64,
                        0 <= m,
                ;
            }
            if pixels[m] != 0 {
                assert(cur == prev.push(e));
                if cur.contains((x, y)) && !prev.contains((x, y)) {
                    let i = choose|i: int| 0 <= i < cur.len() && cur[i] == (x, y);
                    assert(i == prev.len());
                }
                if prev.contains((x, y)) {
                    let i = choose|i: int| 0 <= i < prev.len() && prev[i] == (x, y);
                    assert(cur[i] == (x, y));
                }
                if x == e.0 && y == e.1 {
                    assert(cur[prev.len() as int] == (x, y));
                }
            }
        }
    }
}

/// When the current instruction can run, stated over the opcode's nibbles: a return needs an
/// address on the stack and a stack pointer of at least 1; a call a stack pointer below
/// `usize::MAX`; every instruction that it continues at lies inside memory; a draw needs its
/// sprite bytes inside memory and every sprite bit inside the 2048 pixels.
pub proof fn lemma_executable_conditions(s: CpuView)
    requires
        s.registers.len() == 16,
    ensures
        ({
            let op = s.opcode as int;
            let k = op / 4096;
            let n = op % 16;
            let nnn = op % 4096;
            let kk = op % 256;
            let vx = s.registers[(op / 256) % 16];
            let vy = s.registers[(op / 16) % 16];
            let pc = s.pc as int;
            &&& op == 0x00EE ==> (s.executable() <==> (s.stack.len() > 0 && s.sp >= 1
                && s.stack[s.stack.len() - 1] + 1 < 4096))
            &&& k == 1 ==> (s.executable() <==> nnn + 1 < 4096)
            &&& k == 2 ==> (s.executable() <==> (nnn + 1 < 4096 && s.sp < usize::MAX))
            &&& k == 3 ==> (s.executable() <==> pc + (if vx == kk { 3int } else { 1int }) < 4096)
            &&& k == 4 ==> (s.executable() <==> pc + (if vx != kk { 3int } else { 1int }) < 4096)
            &&& (k == 5 && n == 0) ==> (s.executable() <==> pc + (if vx == vy { 3int } else { 1int })
                < 4096)
            &&& k == 0xD ==> (s.executable() <==> ((n == 0 || s.index + n <= 4096) && (forall|
                r: int,
                c: int,
            | in_box(s, r, c) ==> #[trigger] box_pixel(s, r, c) < 2048) && pc + 1 < 4096))
            &&& (op != 0x00EE && k != 1 && k != 2 && k != 3 && k != 4 && !(k == 5 && n == 0) && k
                != 0xD) ==> (s.executable() <==> pc + 1 < 4096)
        }),
{
    let op = s.opcode as int;
    let n = op % 16;
    if op / 4096 == 0xD {
        let w = s.display.width as int;
        let x0 = s.sprite_x();
        let y0 = s.sprite_y();
        assert(s.sprite_fits_screen() <==> (forall|r: int, c: int|
            in_box(s, r, c) ==> #[trigger] box_pixel(s, r, c) < 2048)) by {
            if s.sprite_fits_screen() {
                assert forall|r: int, c: int| in_box(s, r, c) implies #[trigger] box_pixel(s, r, c)
                    < 2048 by {
                    assert(pixel_index(w, x0, y0, r, c) == box_pixel(s, r, c));
                }
            }
            if forall|r: int, c: int| in_box(s, r, c) ==> #[trigger] box_pixel(s, r, c) < 2048 {
                assert forall|r: int, c: int| 0 <= r < n && 0 <= c < 8 implies #[trigger] pixel_index(
                    w,
                    x0,
                    y0,
                    r,
                    c,
                ) < 2048 by {
                    assert(in_box(s, r, c));
                    assert(pixel_index(w, x0, y0, r, c) == box_pixel(s, r, c));
                }
            }
        }
    }
}

} // verus!
