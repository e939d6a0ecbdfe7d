//! Drawing sprites on the screen.
//!
//! A sprite is `n` bytes read from memory, one byte per row of 8 pixels, the most
//! significant bit leftmost. Drawing it at `(x0, y0)` visits its bits row by row, left to
//! right; each set bit flips the screen pixel under it. Columns wrap around at 64 and rows
//! at 32; a row `y`, column `x` point is the pixel `w * y + x`, where `w` is the width of the
//! display. A pixel that a set bit finds on is a collision.

use vstd::prelude::*;
use vstd::arithmetic::power2::pow2;
use vstd::bits::lemma_u8_shr_is_div;

verus! {

/// Pixel index of row `r`, column `c` of a sprite drawn at `(x0, y0)` on a display of width
/// `w`, the coordinates wrapped around at 64 columns and 32 rows.
pub open spec fn pixel_index(w: int, x0: int, y0: int, r: int, c: int) -> int {
    w * ((y0 + r) % 32) + (x0 + c) % 64
}

/// Whether every bit of an `n`-row sprite at `(x0, y0)` lands inside the 2048 pixels.
pub open spec fn sprite_fits(w: int, x0: int, y0: int, n: int) -> bool {
    forall|r: int, c: int| 0 <= r < n && 0 <= c < 8 ==> #[trigger] pixel_index(w, x0, y0, r, c) < 2048
}

/// Whether bit `c` of `byte`, counted from the most significant, is set.
pub open spec fn sprite_bit(byte: u8, c: int) -> bool {
    (byte as int / pow2((7 - c) as nat) as int) % 2 == 1
}

/// The screen and the collision flag after the first `k` bits of the sprite at `mem[index..]`
/// (8 bits a row) have been drawn at `(x0, y0)` on a display of width `w`.
pub open spec fn draw_bits(
    pixels: Seq<u8>,
    mem: Seq<u8>,
    index: int,
    w: int,
    x0: int,
    y0: int,
    k: nat,
) -> (Seq<u8>, bool)
    decreases k,
{
    if k == 0 {
        (pixels, false)
    } else {
        let prev = draw_bits(pixels, mem, index, w, x0, y0, (k - 1) as nat);
        let r = (k - 1) / 8;
        let c = (k - 1) % 8;
        if sprite_bit(mem[index + r], c) {
            let q = pixel_index(w, x0, y0, r, c);
            (prev.0.update(q, prev.0[q] ^ 1u8), prev.1 || prev.0[q] == 1)
        } else {
            prev
        }
    }
}

/// The screen after drawing the `n`-row sprite at `mem[index..]` at `(x0, y0)`.
pub open spec fn draw_sprite(
    pixels: Seq<u8>,
    mem: Seq<u8>,
    index: int,
    w: int,
    x0: int,
    y0: int,
    n: int,
) -> Seq<u8> {
    draw_bits(pixels, mem, index, w, x0, y0, (8 * n) as nat).0
}

/// Whether drawing the sprite found one of its pixels on.
pub open spec fn sprite_collides(
    pixels: Seq<u8>,
    mem: Seq<u8>,
    index: int,
    w: int,
    x0: int,
    y0: int,
    n: int,
) -> bool {
    draw_bits(pixels, mem, index, w, x0, y0, (8 * n) as nat).1
}

/// The pixels that the first `k` bits of the sprite flip, as a mask of 0s and 1s: what
/// drawing them on a blank screen leaves.
pub open spec fn flip_mask(mem: Seq<u8>, index: int, w: int, x0: int, y0: int, k: nat) -> Seq<u8> {
    draw_bits(Seq::new(2048, |p: int| 0u8), mem, index, w, x0, y0, k).0
}

/// Drawing only flips: the screen after `k` bits is the old screen XOR the flip mask.
pub proof fn lemma_draw_bits_is_xor(
    pixels: Seq<u8>,
    mem: Seq<u8>,
    index: int,
    w: int,
    x0: int,
    y0: int,
    n: int,
    k: nat,
)
    requires
        pixels.len() == 2048,
        0 <= w,
        sprite_fits(w, x0, y0, n),
        k <= 8 * n,
    ensures
        draw_bits(pixels, mem, index, w, x0, y0, k).0 == Seq::new(
            2048,
            |p: int| pixels[p] ^ flip_mask(mem, index, w, x0, y0, k)[p],
        ),
        flip_mask(mem, index, w, x0, y0, k).len() == 2048,
    decreases k,
{
    let zeros = Seq::new(2048, |p: int| 0u8);
    if k == 0 {
        assert forall|p: int| 0 <= p < 2048 implies pixels[p] ^ zeros[p] == pixels[p] by {
            let v = pixels[p];
            assert(v ^ 0u8 == v) by (bit_vector);
        }
        assert(draw_bits(pixels, mem, index, w, x0, y0, k).0 =~= Seq::new(
            2048,
            |p: int| pixels[p] ^ flip_mask(mem, index, w, x0, y0, k)[p],
        ));
    } else {
        lemma_draw_bits_is_xor(pixels, mem, index, w, x0, y0, n, (k - 1) as nat);
        let r = (k - 1) / 8;
        let c = (k - 1) % 8;
        assert(0 <= r < n && 0 <= c < 8);
        let q = pixel_index(w, x0, y0, r, c);
        let yy = (y0 + r) % 32;
        assert(0 <= w * yy) by (nonlinear_arith)
            requires
                0 <= w,
                0 <= yy,
        ;
        assert(0 <= q < 2048);
        let t = flip_mask(mem, index, w, x0, y0, (k - 1) as nat);
        if sprite_bit(mem[index + r], c) {
            assert forall|p: int| 0 <= p < 2048 && p == q implies (pixels[p] ^ t[p]) ^ 1u8
                == pixels[p] ^ (t[p] ^ 1u8) by {
                let a = pixels[p];
                let b = t[p];
                assert((a ^ b) ^ 1u8 == a ^ (b ^ 1u8)) by (bit_vector);
            }
        }
        assert(draw_bits(pixels, mem, index, w, x0, y0, k).0 =~= Seq::new(
            2048,
            |p: int| pixels[p] ^ flip_mask(mem, index, w, x0, y0, k)[p],
        ));
    }
}

/// Whether an `n`-row sprite at `(x0, y0)` on a display of width `w` fits the screen.
pub(crate) fn fits_screen(w: u32, x0: u32, y0: u32, n: u32) -> (r: bool)
    ensures
        r == sprite_fits(w as int, x0 as int, y0 as int, n as int),
{
    let mut row: u32 = 0;
    while row < n
        invariant
            row <= n,
            forall|r: int, c: int|
                0 <= r < row && 0 <= c < 8 ==> #[trigger] pixel_index(
                    w as int,
                    x0 as int,
                    y0 as int,
                    r,
                    c,
                ) < 2048,
        decreases n - row,
    {
        let mut column: u32 = 0;
        while column < 8
            invariant
                row < n,
                column <= 8,
                forall|r: int, c: int|
                    (0 <= r < row && 0 <= c < 8) || (r == row && 0 <= c < column)
                        ==> #[trigger] pixel_index(w as int, x0 as int, y0 as int, r, c) < 2048,
            decreases 8 - column,
        {
            let yy: u64 = ((y0 as u64 + row as u64) % 32) as u64;
            let xx: u64 = ((x0 as u64 + column as u64) % 64) as u64;
            assert(w * yy <= 0xFFFF_FFFFu64 * 31) by (nonlinear_arith)
                requires
                    w <= 0xFFFF_FFFFu64,
                    yy < 32,
            ;
            let p: u64 = (w as u64) * yy + xx;
            assert(p == pixel_index(w as int, x0 as int, y0 as int, row as int, column as int));
            if p >= 2048 {
                return false;
            }
            column = column + 1;
        }
        row = row + 1;
    }
    true
}

/// The bit test of the drawing loop reads `sprite_bit`.
pub proof fn lemma_mask_bit(byte: u8, c: u32)
    requires
        c < 8,
    ensures
        ((0x80u8 >> c) & byte != 0) == sprite_bit(byte, c as int),
{
    let k: u8 = (7 - c) as u8;
    assert(((0x80u8 >> c) & byte != 0) == ((byte >> k) & 1u8 == 1u8)) by (bit_vector)
        requires
            c < 8,
            k == 7 - c,
    ;
    let s: u8 = byte >> k;
    assert((s & 1u8 == 1u8) == (s % 2 == 1)) by (bit_vector);
    lemma_u8_shr_is_div(byte, k);
}

} // verus!
