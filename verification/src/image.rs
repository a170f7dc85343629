//! The framebuffer: a color buffer and a z-buffer of fixed dimensions,
//! with bounded pixel and depth access.
//!
//! Depth values are fixed-point integers in which greater means closer;
//! the z-buffer starts at the most negative representable value, so the
//! first fragment to reach a pixel always passes the depth test.

use vstd::prelude::*;
use vstd::arithmetic::div_mod::lemma_fundamental_div_mod_converse_div;
use vstd::arithmetic::div_mod::lemma_fundamental_div_mod_converse_mod;

verus! {

/// One pixel: three unsigned 8-bit channels in (blue, green, red)
/// order, matching the TGA wire format directly. No alpha.
#[derive(Clone, Copy, Debug, PartialEq, Eq, Structural)]
pub struct Color(pub u8, pub u8, pub u8);

/// The mathematical model of an [`Image`]: its dimensions and the two
/// row-major buffers.
#[verifier::ext_equal]
pub struct ImageV {
    pub width: int,
    pub height: int,
    pub colors: Seq<Color>,
    pub depths: Seq<i64>,
}

impl ImageV {
    /// Dimensions fit the TGA wire format and both buffers hold exactly
    /// one entry per pixel.
    pub open spec fn wf(self) -> bool {
        &&& 0 <= self.width <= 0xFFFF
        &&& 0 <= self.height <= 0xFFFF
        &&& self.colors.len() == self.width * self.height
        &&& self.depths.len() == self.width * self.height
    }

    /// Row-major index of the pixel at `(x, y)`.
    pub open spec fn idx(self, x: int, y: int) -> int {
        y * self.width + x
    }

    pub open spec fn in_bounds(self, x: int, y: int) -> bool {
        0 <= x < self.width && 0 <= y < self.height
    }
}

/// The framebuffer. `width` and `height` are fixed at construction;
/// `data` holds the colors and `zbuffer` the depths, both row-major
/// with `width * height` entries.
pub struct Image {
    pub width: i32,
    pub height: i32,
    pub data: Vec<Color>,
    pub zbuffer: Vec<i64>,
}

impl View for Image {
    type V = ImageV;

    open spec fn view(&self) -> ImageV {
        ImageV {
            width: self.width as int,
            height: self.height as int,
            colors: self.data@,
            depths: self.zbuffer@,
        }
    }
}

/// A row-major index stays below the buffer length and decomposes back
/// into its column and row.
pub proof fn lemma_row_major(x: int, y: int, w: int, h: int)
    requires
        0 <= x < w,
        0 <= y < h,
        w <= 0xFFFF,
        h <= 0xFFFF,
    ensures
        0 <= y * w + x < w * h,
        w * h <= 0xFFFF * 0xFFFF,
        (y * w + x) % w == x,
        (y * w + x) / w == y,
{
    assert(0 <= y * w + x && y * w + x <= w * h - w + x && w * h <= 0xFFFF * 0xFFFF)
        by (nonlinear_arith)
        requires
            0 <= x < w,
            0 <= y < h,
            w <= 0xFFFF,
            h <= 0xFFFF,
    ;
    lemma_fundamental_div_mod_converse_div(y * w + x, w, y, x);
    lemma_fundamental_div_mod_converse_mod(y * w + x, w, y, x);
}

impl Image {
    pub open spec fn wf(self) -> bool {
        self@.wf()
    }

    /// A fresh canvas: every pixel black, every depth entry at the
    /// most negative representable value.
    pub fn new(width: i32, height: i32) -> (r: Image)
        requires
            0 <= width <= 0xFFFF,
            0 <= height <= 0xFFFF,
        ensures
            r.wf(),
            r@.width == width,
            r@.height == height,
            forall|i: int| 0 <= i < r@.colors.len() ==> r@.colors[i] == (Color(0, 0, 0)),
            forall|i: int| 0 <= i < r@.depths.len() ==> r@.depths[i] == i64::MIN,
    {
        proof {
            assert((width as int) * (height as int) <= 0xFFFF * 0xFFFF) by (nonlinear_arith)
                requires
                    0 <= width <= 0xFFFF,
                    0 <= height <= 0xFFFF,
            ;
        }
        let n: usize = (width as usize) * (height as usize);
        let mut data: Vec<Color> = Vec::new();
        let mut zbuffer: Vec<i64> = Vec::new();
        let mut i: usize = 0;
        while i < n
            invariant
                i <= n,
                data@.len() == i,
                zbuffer@.len() == i,
                forall|j: int| 0 <= j < i ==> data@[j] == (Color(0, 0, 0)),
                forall|j: int| 0 <= j < i ==> zbuffer@[j] == i64::MIN,
            decreases n - i,
        {
            data.push(Color(0, 0, 0));
            zbuffer.push(i64::MIN);
            i = i + 1;
        }
        Image { width, height, data, zbuffer }
    }

    /// Writes the color at `(x, y)`; silently a no-op when either
    /// coordinate lies outside the buffer. Depths are untouched.
    pub fn set_pixel(&mut self, x: i32, y: i32, c: Color)
        requires
            old(self).wf(),
        ensures
            final(self).wf(),
            final(self)@.width == old(self)@.width,
            final(self)@.height == old(self)@.height,
            final(self)@.depths == old(self)@.depths,
            final(self)@.colors == (if old(self)@.in_bounds(x as int, y as int) {
                old(self)@.colors.update(old(self)@.idx(x as int, y as int), c)
            } else {
                old(self)@.colors
            }),
    {
        if !(x < 0 || y < 0 || x >= self.width || y >= self.height) {
            proof {
                lemma_row_major(x as int, y as int, self@.width, self@.height);
            }
            let idx: usize = (y as usize) * (self.width as usize) + (x as usize);
            self.data[idx] = c;
        }
    }

    /// Writes the depth at `(x, y)`; silently a no-op when either
    /// coordinate lies outside the buffer. Colors are untouched.
    pub fn set_depth(&mut self, x: i32, y: i32, d: i64)
        requires
            old(self).wf(),
        ensures
            final(self).wf(),
            final(self)@.width == old(self)@.width,
            final(self)@.height == old(self)@.height,
            final(self)@.colors == old(self)@.colors,
            final(self)@.depths == (if old(self)@.in_bounds(x as int, y as int) {
                old(self)@.depths.update(old(self)@.idx(x as int, y as int), d)
            } else {
                old(self)@.depths
            }),
    {
        if !(x < 0 || y < 0 || x >= self.width || y >= self.height) {
            proof {
                lemma_row_major(x as int, y as int, self@.width, self@.height);
            }
            let idx: usize = (y as usize) * (self.width as usize) + (x as usize);
            self.zbuffer[idx] = d;
        }
    }

    /// Reads the depth at `(x, y)`. Out-of-bounds reads are the
    /// caller's fault: the coordinates must already be clipped.
    pub fn get_depth(&self, x: i32, y: i32) -> (r: i64)
        requires
            self.wf(),
            self@.in_bounds(x as int, y as int),
        ensures
            r == self@.depths[self@.idx(x as int, y as int)],
    {
        proof {
            lemma_row_major(x as int, y as int, self@.width, self@.height);
        }
        let idx: usize = (y as usize) * (self.width as usize) + (x as usize);
        self.zbuffer[idx]
    }

    /// Reads the color at `(x, y)`. Out-of-bounds reads are the
    /// caller's fault: the coordinates must already be clipped.
    pub fn get_pixel(&self, x: i32, y: i32) -> (r: Color)
        requires
            self.wf(),
            self@.in_bounds(x as int, y as int),
        ensures
            r == self@.colors[self@.idx(x as int, y as int)],
    {
        proof {
            lemma_row_major(x as int, y as int, self@.width, self@.height);
        }
        let idx: usize = (y as usize) * (self.width as usize) + (x as usize);
        self.data[idx]
    }

    /// Replaces the whole color buffer; the new buffer must hold one
    /// entry per pixel, so the dimensions keep their meaning.
    pub fn set_data_buffer(&mut self, data: Vec<Color>)
        requires
            old(self).wf(),
            data@.len() == old(self)@.colors.len(),
        ensures
            final(self).wf(),
            final(self)@.width == old(self)@.width,
            final(self)@.height == old(self)@.height,
            final(self)@.colors == data@,
            final(self)@.depths == old(self)@.depths,
    {
        self.data = data;
    }
}

} // verus!
