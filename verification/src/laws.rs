//! Properties of the machine that span instructions.

use vstd::prelude::*;
use crate::cpu::{
    CpuView, FLAG_REGISTER, ROM_START, op_x, op_y, initial_cpu, initial_memory, memory_with_rom,
};
use crate::instruction::instruction_of;
use crate::sprite::{
    draw_sprite, sprite_collides, sprite_fits, draw_bits, flip_mask, pixel_index,
    lemma_draw_bits_is_xor,
};

verus! {

/// A call followed by a return resumes right after the call: the machine is the one that
/// merely fetching the next instruction would have given.
pub proof fn lemma_call_then_return(s: CpuView)
    requires
        s.can_call(),
        s.can_fetch(),
    ensures
        s.after_2nnn().can_return(),
        s.after_2nnn().after_00ee() == s.fetch(),
{
    assert(s.after_2nnn().stack.drop_last() =~= s.stack);
}

/// A program loaded into a fresh machine starts with its first two bytes: the first fetch
/// reads them as the opcode and moves on to the next instruction.
pub proof fn lemma_loaded_program_first_fetch(rom: Seq<u8>)
    requires
        2 <= rom.len(),
        ROM_START + rom.len() <= crate::cpu::MEMORY_SIZE,
    ensures
        ({
            let s = CpuView { memory: memory_with_rom(initial_memory(), rom), ..initial_cpu() };
            &&& s.can_fetch()
            &&& s.fetch().opcode == rom[0] * 256 + rom[1]
            &&& s.fetch().pc == ROM_START + 2
        }),
{
}

/// Of `3xkk` and `4xkk` on the same machine exactly one skips: one continues two bytes on,
/// the other four.
pub proof fn lemma_skips_complementary(s: CpuView)
    requires
        s.pc + 3 < crate::cpu::MEMORY_SIZE,
    ensures
        s.after_3xkk().pc != s.after_4xkk().pc,
        s.after_3xkk().pc == s.pc + 2 || s.after_3xkk().pc == s.pc + 4,
        s.after_4xkk().pc == s.pc + 2 || s.after_4xkk().pc == s.pc + 4,
{
}

/// Drawing a sprite twice leaves the screen as it was.
pub proof fn lemma_draw_twice_restores(
    pixels: Seq<u8>,
    mem: Seq<u8>,
    index: int,
    w: int,
    x0: int,
    y0: int,
    n: int,
)
    requires
        pixels.len() == 2048,
        0 <= w,
        0 <= n,
        sprite_fits(w, x0, y0, n),
    ensures
        draw_sprite(draw_sprite(pixels, mem, index, w, x0, y0, n), mem, index, w, x0, y0, n)
            == pixels,
{
    let k = (8 * n) as nat;
    let t = flip_mask(mem, index, w, x0, y0, k);
    lemma_draw_bits_is_xor(pixels, mem, index, w, x0, y0, n, k);
    let once = draw_sprite(pixels, mem, index, w, x0, y0, n);
    lemma_draw_bits_is_xor(once, mem, index, w, x0, y0, n, k);
    let twice = draw_sprite(once, mem, index, w, x0, y0, n);
    assert forall|p: int| 0 <= p < 2048 implies twice[p] == pixels[p] by {
        let v = pixels[p];
        let b = t[p];
        assert((v ^ b) ^ b == v) by (bit_vector);
    }
    assert(twice =~= pixels);
}

/// `Dxyn` run twice on the same sprite, with neither coordinate in VF, leaves the screen as
/// it was.
pub proof fn lemma_dxyn_twice_restores_screen(s: CpuView)
    requires
        op_x(s.opcode) != FLAG_REGISTER,
        op_y(s.opcode) != FLAG_REGISTER,
        s.registers.len() == 16,
        s.display.pixels.len() == 2048,
        s.sprite_fits_screen(),
    ensures
        s.drawn().drawn().display == s.display,
{
    let t = s.drawn();
    assert(t.sprite_x() == s.sprite_x() && t.sprite_y() == s.sprite_y());
    lemma_draw_twice_restores(
        s.display.pixels,
        s.memory,
        s.index as int,
        s.display.width as int,
        s.sprite_x(),
        s.sprite_y(),
        crate::cpu::op_n(s.opcode),
    );
}

/// On a display 64 pixels wide, distinct bits of a sprite land on distinct pixels.
proof fn lemma_pixel_index_injective(x0: int, y0: int, j: int, k: int)
    requires
        0 <= x0 < 64,
        0 <= y0 < 32,
        0 <= j < 128,
        0 <= k < 128,
        j != k,
    ensures
        pixel_index(64, x0, y0, j / 8, j % 8) != pixel_index(64, x0, y0, k / 8, k % 8),
{
    let (rj, cj, rk, ck) = (j / 8, j % 8, k / 8, k % 8);
    let (yj, xj, yk, xk) = ((y0 + rj) % 32, (x0 + cj) % 64, (y0 + rk) % 32, (x0 + ck) % 64);
    if yj * 64 + xj == yk * 64 + xk {
        assert(yj == yk && xj == xk) by (nonlinear_arith)
            requires
                yj * 64 + xj == yk * 64 + xk,
                0 <= xj < 64,
                0 <= xk < 64,
        ;
        assert(rj == rk);
        assert(cj == ck);
    }
}

/// On a blank screen 64 pixels wide, the bits after the first `k` still find their pixels
/// off, and no collision has happened.
proof fn lemma_blank_untouched(mem: Seq<u8>, index: int, x0: int, y0: int, n: int, k: nat)
    requires
        0 <= x0 < 64,
        0 <= y0 < 32,
        0 <= n <= 16,
        k <= 8 * n,
    ensures
        !flip_collides(mem, index, x0, y0, k),
        forall|j: int|
            k <= j < 8 * n ==> flip_mask(mem, index, 64, x0, y0, k)[#[trigger] pixel_index(
                64,
                x0,
                y0,
                j / 8,
                j % 8,
            )] == 0,
        flip_mask(mem, index, 64, x0, y0, k).len() == 2048,
    decreases k,
{
    if k > 0 {
        lemma_blank_untouched(mem, index, x0, y0, n, (k - 1) as nat);
        let kk = k - 1;
        assert forall|j: int| k <= j < 8 * n implies flip_mask(mem, index, 64, x0, y0, k)[
            #[trigger] pixel_index(64, x0, y0, j / 8, j % 8)] == 0 by {
            lemma_pixel_index_injective(x0, y0, j, kk);
            assert(kk <= j);
        }
        assert(kk <= kk < 8 * n);
        assert(flip_mask(mem, index, 64, x0, y0, kk as nat)[pixel_index(64, x0, y0, kk / 8, kk % 8)]
            == 0);
    }
}

/// Whether the first `k` bits of the sprite, drawn on a blank screen 64 pixels wide, collide.
spec fn flip_collides(mem: Seq<u8>, index: int, x0: int, y0: int, k: nat) -> bool {
    draw_bits(Seq::new(2048, |p: int| 0u8), mem, index, 64, x0, y0, k).1
}

/// On a screen 64 pixels wide, drawing on a blank screen reports no collision.
pub proof fn lemma_draw_on_blank_no_collision(mem: Seq<u8>, index: int, x0: int, y0: int, n: int)
    requires
        0 <= x0 < 64,
        0 <= y0 < 32,
        0 <= n <= 16,
    ensures
        !sprite_collides(Seq::new(2048, |p: int| 0u8), mem, index, 64, x0, y0, n),
{
    lemma_blank_untouched(mem, index, x0, y0, n, (8 * n) as nat);
}

/// On a screen 64 pixels wide, after `00E0` drawing a sprite with rows reports no collision.
pub proof fn lemma_clear_then_draw_no_collision(s: CpuView)
    requires
        s.registers.len() == 16,
        s.display.width == 64,
        crate::cpu::op_n(s.after_00e0().opcode) != 0,
    ensures
        s.after_00e0().drawn().registers[FLAG_REGISTER as int] == 0,
{
    let t = s.after_00e0();
    assert(t.display.pixels =~= Seq::new(2048, |p: int| 0u8));
    lemma_draw_on_blank_no_collision(
        t.memory,
        t.index as int,
        t.sprite_x(),
        t.sprite_y(),
        crate::cpu::op_n(t.opcode),
    );
}

/// `8xy4` loses nothing: the new `Vx` plus 256 times the carry in VF is the sum.
pub proof fn lemma_add_with_carry(s: CpuView)
    requires
        op_x(s.opcode) != FLAG_REGISTER,
        s.registers.len() == 16,
    ensures
        ({
            let t = s.after_8xy4();
            t.registers[op_x(s.opcode)] + 256 * t.registers[FLAG_REGISTER as int] == s.vx() + s.vy()
        }),
{
}

/// `8xy5` loses nothing: `Vx - Vy` is the new `Vx`, less 256 when VF reports a borrow.
pub proof fn lemma_sub_with_borrow(s: CpuView)
    requires
        op_x(s.opcode) != FLAG_REGISTER,
        s.registers.len() == 16,
    ensures
        ({
            let t = s.after_8xy5();
            s.vx() - s.vy() == t.registers[op_x(s.opcode)] - 256 * (1 - t.registers[FLAG_REGISTER as int])
        }),
{
}

/// `8xy7` loses nothing: `Vy - Vx` is the new `Vx`, less 256 when VF reports a borrow.
pub proof fn lemma_subn_with_borrow(s: CpuView)
    requires
        op_x(s.opcode) != FLAG_REGISTER,
        s.registers.len() == 16,
    ensures
        ({
            let t = s.after_8xy7();
            s.vy() - s.vx() == t.registers[op_x(s.opcode)] - 256 * (1 - t.registers[FLAG_REGISTER as int])
        }),
{
}

/// The shifts lose nothing: the bit shifted out lands in VF.
pub proof fn lemma_shifts_keep_bits(s: CpuView)
    requires
        op_x(s.opcode) != FLAG_REGISTER,
        s.registers.len() == 16,
    ensures
        ({
            let t = s.after_8xy6();
            2 * t.registers[op_x(s.opcode)] + t.registers[FLAG_REGISTER as int] == s.vx()
        }),
        ({
            let t = s.after_8xye();
            t.registers[op_x(s.opcode)] + 256 * t.registers[FLAG_REGISTER as int] == 2 * s.vx()
        }),
{
}

/// No instruction writes memory.
pub proof fn lemma_execute_keeps_memory(s: CpuView)
    ensures
        s.after_execute().memory == s.memory,
{
}

/// Every instruction but the jumps, calls, returns and skips moves on to the next one.
pub proof fn lemma_execute_sequential_pc(s: CpuView)
    requires
        s.executable(),
        !(instruction_of(s.opcode) is Return),
        !(instruction_of(s.opcode) is Jump),
        !(instruction_of(s.opcode) is Call),
        !(instruction_of(s.opcode) is SkipIfEqualByte),
        !(instruction_of(s.opcode) is SkipIfNotEqualByte),
        !(instruction_of(s.opcode) is SkipIfEqualRegister),
    ensures
        s.after_execute().pc == s.pc + 2,
{
}

/// Only calls and returns touch the stack: a call pushes the address after it and
/// increments the stack pointer, a return pops and decrements it.
pub proof fn lemma_execute_stack(s: CpuView)
    requires
        s.executable(),
    ensures
        instruction_of(s.opcode) is Call ==> s.after_execute().stack == s.stack.push(s.pc)
            && s.after_execute().sp == s.sp + 1,
        instruction_of(s.opcode) is Return ==> s.after_execute().stack == s.stack.drop_last()
            && s.after_execute().sp == s.sp - 1,
        !(instruction_of(s.opcode) is Call) && !(instruction_of(s.opcode) is Return)
            ==> s.after_execute().stack == s.stack && s.after_execute().sp == s.sp,
{
}

} // verus!
