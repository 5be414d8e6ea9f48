//! Decoded image buffer.

use vstd::prelude::*;
use crate::modespec::SstvMode;

verus! {

/// A decoded (or in-progress) SSTV image: row-major `[R, G, B]` pixels.
#[derive(Clone, Debug)]
pub struct SstvImage {
    /// Mode the image was transmitted in.
    pub mode: SstvMode,
    /// Width in pixels.
    pub width: u32,
    /// Height in pixels.
    pub height: u32,
    /// Row-major pixels, `width * height` of them.
    pub pixels: Vec<[u8; 3]>,
}

/// Index of pixel `(x, y)` in a row-major image of width `width`.
pub open spec fn pixel_index(width: int, x: int, y: int) -> int {
    y * width + x
}

impl SstvImage {
    /// A black `width` x `height` image.
    pub fn new(mode: SstvMode, width: u32, height: u32) -> (img: Self)
        requires
            width as int * height as int <= usize::MAX,
        ensures
            img.mode == mode,
            img.width == width,
            img.height == height,
            img.pixels@ == Seq::new((width * height) as nat, |i: int| [0u8, 0u8, 0u8]),
    {
        let n = width as usize * height as usize;
        let mut pixels: Vec<[u8; 3]> = Vec::new();
        let mut i: usize = 0;
        while i < n
            invariant
                i <= n,
                n == width * height,
                pixels@ == Seq::new(i as nat, |k: int| [0u8, 0u8, 0u8]),
            decreases n - i,
        {
            pixels.push([0u8, 0u8, 0u8]);
            i = i + 1;
            assert(pixels@ =~= Seq::new(i as nat, |k: int| [0u8, 0u8, 0u8]));
        }
        SstvImage { mode, width, height, pixels }
    }

    /// Set pixel `(x, y)` to `rgb`. Coordinates outside the image (or past
    /// the pixel buffer) leave the image unchanged.
    pub fn put_pixel(&mut self, x: u32, y: u32, rgb: [u8; 3])
        ensures
            final(self).mode == old(self).mode,
            final(self).width == old(self).width,
            final(self).height == old(self).height,
            ({
                let idx = pixel_index(old(self).width as int, x as int, y as int);
                if x < old(self).width && y < old(self).height && idx < old(self).pixels@.len() {
                    final(self).pixels@ == old(self).pixels@.update(idx, rgb)
                } else {
                    final(self).pixels@ == old(self).pixels@
                }
            }),
    {
        if x < self.width && y < self.height {
            proof {
                assert(y as int * self.width as int <= u32::MAX as int * u32::MAX as int) by (nonlinear_arith)
                    requires
                        y <= u32::MAX,
                        self.width <= u32::MAX;
            }
            let idx = y as u64 * self.width as u64 + x as u64;
            assert(idx == pixel_index(self.width as int, x as int, y as int)) by (nonlinear_arith)
                requires
                    idx == y as int * self.width as int + x as int;
            if idx < self.pixels.len() as u64 {
                self.pixels.set(idx as usize, rgb);
            }
        }
    }

    /// Copy of row `y`.
    pub fn row(&self, y: u32) -> (pixels: Vec<[u8; 3]>)
        requires
            y < self.height,
            self.pixels@.len() == self.width * self.height,
        ensures
            pixels@ == self.pixels@.subrange(
                pixel_index(self.width as int, 0, y as int),
                pixel_index(self.width as int, 0, y as int) + self.width,
            ),
    {
        let w = self.width as usize;
        let plen = self.pixels.len();
        proof {
            assert((y as int + 1) * self.width <= self.width * self.height) by (nonlinear_arith)
                requires
                    y < self.height;
            assert(y as int * self.width + self.width == (y as int + 1) * self.width) by (nonlinear_arith);
            assert(y as int * self.width <= (y as int + 1) * self.width) by (nonlinear_arith);
            assert((y as int + 1) * self.width <= plen);
        }
        let start = y as usize * w;
        let end = start + w;
        let mut out: Vec<[u8; 3]> = Vec::new();
        let mut i: usize = start;
        while i < end
            invariant
                start <= i <= end,
                end == start + w,
                end <= self.pixels@.len(),
                start == pixel_index(self.width as int, 0, y as int),
                w == self.width,
                out@ == self.pixels@.subrange(start as int, i as int),
            decreases end - i,
        {
            out.push(self.pixels[i]);
            i = i + 1;
            assert(out@ =~= self.pixels@.subrange(start as int, i as int));
        }
        out
    }
}

} // verus!
