//! The contiguous RGBA pixel buffer a capture produces.

use vstd::prelude::*;

verus! {

/// A contiguous RGBA8 image: `pixels` holds `width * height` pixels of
/// four bytes each, row by row (stride is `width * 4`).  Created fresh
/// per capture and handed on by value: ownership transfers from the
/// compositor to the sinks, never aliasing.
#[derive(Debug, Clone, PartialEq, Eq)]
pub struct PixelBuffer {
    pub width: u32,
    pub height: u32,
    pub pixels: Vec<u8>,
}

/// Byte offset of channel `c` of the pixel at `(px, py)` in a buffer
/// `width` pixels wide.
pub open spec fn out_index(width: int, px: int, py: int, c: int) -> int {
    (py * width + px) * 4 + c
}

impl PixelBuffer {
    /// The byte vector is exactly as long as the dimensions call for.
    pub open spec fn wf(self) -> bool {
        self.pixels@.len() == self.width * self.height * 4
    }

    /// A fresh buffer of the requested size with every byte zero, i.e.
    /// fully transparent.
    pub fn new_zeroed(width: u32, height: u32) -> (r: PixelBuffer)
        requires
            width * height * 4 <= usize::MAX,
        ensures
            r.wf(),
            r.width == width,
            r.height == height,
            forall|i: int| 0 <= i < r.pixels@.len() ==> r.pixels@[i] == 0u8,
    {
        proof {
            assert(width * height <= width * height * 4) by (nonlinear_arith)
                requires width >= 0 && height >= 0;
        }
        let n: usize = (width as usize) * (height as usize) * 4;
        let pixels: Vec<u8> = vec![0u8; n];
        PixelBuffer { width, height, pixels }
    }
}

} // verus!
