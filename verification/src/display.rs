//! Frame-buffer data of the CHIP-8 screen.

use vstd::prelude::*;

verus! {

/// Width of the CHIP-8 screen in pixels.
pub const C8_WIDTH: u8 = 64;

/// Height of the CHIP-8 screen in pixels.
pub const C8_HEIGHT: u8 = 32;

/// Number of pixels of the unscaled CHIP-8 screen (64 x 32).
pub const SCREEN_PIXELS: usize = 2048;

/// The mathematical content of a [`VData`].
#[verifier::ext_equal]
pub struct VDataView {
    pub base_width: u8,
    pub base_height: u8,
    pub width: u32,
    pub height: u32,
    pub scale_factor: u32,
    pub pixelvec: Seq<u8>,
    pub pixels: Seq<u8>,
}

/// Canvas data of the emulator: the unscaled screen and its scaled size.
pub struct VData {
    /// Chip8's default width (64)
    pub base_width: u8,
    /// Chip8's default height (32)
    pub base_height: u8,
    /// Width after scaling
    pub width: u32,
    /// Height after scaling
    pub height: u32,
    /// Scale factor that the base dimensions are multiplied with
    pub scale_factor: u32,
    /// One byte for each pixel of the screen after scaling
    pub pixelvec: Vec<u8>,
    /// One byte for each pixel of the original 64 x 32 screen, row by row
    pub pixels: [u8; 2048],
}

impl View for VData {
    type V = VDataView;

    open spec fn view(&self) -> VDataView {
        VDataView {
            base_width: self.base_width,
            base_height: self.base_height,
            width: self.width,
            height: self.height,
            scale_factor: self.scale_factor,
            pixelvec: self.pixelvec@,
            pixels: self.pixels@,
        }
    }
}

/// The number of pixels of a screen scaled by `sf` in both directions.
pub open spec fn scaled_pixel_count(sf: int) -> int {
    (64 * sf) * (32 * sf)
}

/// The canvas data that `VData::new(sf)` builds: a black screen of both sizes.
pub open spec fn fresh_vdata(sf: u32) -> VDataView {
    VDataView {
        base_width: 64,
        base_height: 32,
        width: (64 * sf) as u32,
        height: (32 * sf) as u32,
        scale_factor: sf,
        pixelvec: Seq::new(scaled_pixel_count(sf as int) as nat, |i: int| 0u8),
        pixels: Seq::new(2048, |i: int| 0u8),
    }
}

/// Coordinates `(x, y)` of the pixels among the first `n` of `pixels` that are on, in order.
pub open spec fn lit_points(pixels: Seq<u8>, n: int) -> Seq<(u32, u32)>
    decreases n,
{
    if n <= 0 {
        Seq::empty()
    } else if pixels[n - 1] != 0 {
        lit_points(pixels, n - 1).push((((n - 1) % 64) as u32, ((n - 1) / 64) as u32))
    } else {
        lit_points(pixels, n - 1)
    }
}

impl VData {
    /// The coordinates of the pixels of the screen that are on, row by row.
    pub fn lit_pixels(&self) -> (r: Vec<(u32, u32)>)
        ensures
            r@ == lit_points(self.pixels@, 2048),
    {
        let mut r: Vec<(u32, u32)> = Vec::new();
        let mut i: usize = 0;
        while i < SCREEN_PIXELS
            invariant
                i <= SCREEN_PIXELS,
                r@ == lit_points(self.pixels@, i as int),
            decreases SCREEN_PIXELS - i,
        {
            if self.pixels[i] != 0 {
                let x: u32 = (i % 64) as u32;
                let y: u32 = (i / 64) as u32;
                r.push((x, y));
            }
            i = i + 1;
        }
        r
    }

    /// Construct a new canvas for the scale factor `sf`.
    ///
    /// The scaled pixel count is computed in `u32`, so `sf` is at most 1448.
    pub fn new(sf: u32) -> (r: VData)
        requires
            scaled_pixel_count(sf as int) <= u32::MAX,
        ensures
            r@ == fresh_vdata(sf),
    {
        assert(64 * sf <= scaled_pixel_count(sf as int) || sf == 0) by (nonlinear_arith)
            requires sf >= 0;
        assert(32 * sf <= 64 * sf);
        let w: u32 = 64 * sf;
        let h: u32 = 32 * sf;
        assert(w * h == scaled_pixel_count(sf as int));
        let n: u32 = w * h;
        let mut pixelvec: Vec<u8> = Vec::new();
        let mut i: u32 = 0;
        while i < n
            invariant
                i <= n,
                pixelvec@ == Seq::new(i as nat, |k: int| 0u8),
            decreases n - i,
        {
            pixelvec.push(0);
            i = i + 1;
        }
        VData {
            base_width: C8_WIDTH,
            base_height: C8_HEIGHT,
            width: w,
            height: h,
            scale_factor: sf,
            pixelvec,
            pixels: [0; 2048],
        }
    }
}

impl Default for VData {
    /// A canvas scaled 24 times.
    fn default() -> (r: VData)
        ensures
            r@ == fresh_vdata(24),
    {
        VData::new(24)
    }
}

} // verus!
