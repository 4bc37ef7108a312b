//! The preview window's state.

use vstd::prelude::*;

verus! {

/// Byte offset of channel `k` of flat pixel `i` in an RGBA buffer.
pub open spec fn pixel_byte(i: int, k: int) -> int {
    4 * i + k
}

/// What the preview surface shows and where: the captured image, the
/// window's position in virtual-desktop coordinates, and whether it is
/// visible.  The window chrome itself — drag-to-move, the close
/// button — belongs to the UI collaborator; this is the state the
/// library hands it.
#[derive(Debug, Clone, PartialEq, Eq)]
pub struct PreviewWindowState {
    pub width: u32,
    pub height: u32,
    pub pixels: Vec<u8>,
    pub x: i32,
    pub y: i32,
    pub visible: bool,
}

impl PreviewWindowState {
    /// Build the preview's pixel buffer from captured RGBA data: pixel
    /// `i` is copied verbatim when `image_data` holds all four of its
    /// bytes, and stays zero otherwise.  The window starts hidden at
    /// the origin.
    pub fn new(image_data: Vec<u8>, width: u32, height: u32) -> (w: PreviewWindowState)
        requires
            width * height * 4 <= usize::MAX,
        ensures
            w.width == width,
            w.height == height,
            w.x == 0,
            w.y == 0,
            !w.visible,
            w.pixels@.len() == width * height * 4,
            forall|i: int, k: int|
                0 <= i < width * height && 0 <= k < 4 ==> w.pixels@[#[trigger] pixel_byte(i, k)]
                    == (if 4 * i + 3 < image_data@.len() {
                    image_data@[4 * i + k]
                } else {
                    0u8
                }),
    {
        proof {
            assert(width * height <= width * height * 4) by (nonlinear_arith)
                requires width >= 0 && height >= 0;
        }
        let count: usize = (width as usize) * (height as usize);
        let n: usize = count * 4;
        let mut pixels: Vec<u8> = vec![0u8; n];
        let mut i: usize = 0;
        while i < count
            invariant
                count == width * height,
                n == count * 4,
                n <= usize::MAX,
                pixels@.len() == n,
                i <= count,
                forall|j: int, k: int|
                    0 <= j < count && 0 <= k < 4 ==> pixels@[#[trigger] pixel_byte(j, k)] == (if j
                        < i && 4 * j + 3 < image_data@.len() {
                        image_data@[4 * j + k]
                    } else {
                        0u8
                    }),
            decreases count - i,
        {
            let base: usize = 4 * i;
            if base + 3 < image_data.len() {
                pixels[base] = image_data[base];
                pixels[base + 1] = image_data[base + 1];
                pixels[base + 2] = image_data[base + 2];
                pixels[base + 3] = image_data[base + 3];
            }
            i += 1;
        }
        PreviewWindowState { width, height, pixels, x: 0, y: 0, visible: false }
    }

    /// Move the window to the given virtual-desktop position.
    pub fn set_position(&mut self, x: i32, y: i32)
        ensures
            final(self).x == x,
            final(self).y == y,
            final(self).width == old(self).width,
            final(self).height == old(self).height,
            final(self).pixels == old(self).pixels,
            final(self).visible == old(self).visible,
    {
        self.x = x;
        self.y = y;
    }

    /// Show the window; everything else stays as it was.
    pub fn show(&mut self)
        ensures
            final(self).visible,
            final(self).x == old(self).x,
            final(self).y == old(self).y,
            final(self).width == old(self).width,
            final(self).height == old(self).height,
            final(self).pixels == old(self).pixels,
    {
        self.visible = true;
    }
}

} // verus!
