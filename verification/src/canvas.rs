//! The pixel surfaces: a glyph bitmap handed in by the rasterizer, and
//! the canvas that bitmaps are blitted into. One byte per pixel
//! (a coverage/alpha value), rows stored top to bottom.

use vstd::prelude::*;

use crate::rect::{rect_contains, Rect};

verus! {

/// The byte at column `x`, row `y` of a row-major `width`-wide buffer.
pub open spec fn byte_at(pixels: Seq<u8>, width: int, x: int, y: int) -> u8 {
    pixels[y * width + x]
}

/// Row-major addresses are injective: inside a `width`-wide buffer,
/// distinct coordinates never share an index.
proof fn lemma_row_major_injective(width: int, x1: int, y1: int, x2: int, y2: int)
    by (nonlinear_arith)
    requires
        0 <= x1 < width,
        0 <= x2 < width,
        y1 * width + x1 == y2 * width + x2,
    ensures
        x1 == x2,
        y1 == y2,
{
}

/// Every in-range coordinate addresses a byte of the buffer.
proof fn lemma_row_major_in_range(width: int, height: int, x: int, y: int)
    by (nonlinear_arith)
    requires
        0 <= x < width,
        0 <= y < height,
    ensures
        0 <= y * width + x < height * width,
{
}

/// The product of two `u32` dimensions always fits in a `u64`.
proof fn lemma_u32_area_fits_u64(a: int, b: int)
    by (nonlinear_arith)
    requires
        0 <= a <= 0xFFFF_FFFF,
        0 <= b <= 0xFFFF_FFFF,
    ensures
        a * b <= 0xFFFF_FFFF_FFFF_FFFF,
{
}

/// A rasterized glyph: a `width` by `height` pixel buffer.
pub struct Bitmap {
    pub width: u32,
    pub height: u32,
    pub pixels: Vec<u8>,
}

impl Bitmap {
    /// The buffer holds exactly one byte per pixel.
    pub open spec fn wf(self) -> bool {
        self.pixels@.len() == self.width * self.height
    }

    /// The pixel at column `x`, row `y`.
    pub open spec fn spec_byte(self, x: int, y: int) -> u8 {
        byte_at(self.pixels@, self.width as int, x, y)
    }

    /// Wrap a pixel buffer, refusing one whose length does not match
    /// the stated dimensions.
    pub fn new(width: u32, height: u32, pixels: Vec<u8>) -> (result: Option<Bitmap>)
        ensures
            match result {
                Some(b) => {
                    &&& b.wf()
                    &&& b.width == width
                    &&& b.height == height
                    &&& b.pixels@ == pixels@
                },
                None => pixels@.len() != width * height,
            },
    {
        proof {
            lemma_u32_area_fits_u64(width as int, height as int);
        }
        let expected: u64 = (width as u64) * (height as u64);
        if (pixels.len() as u64) == expected {
            Some(Bitmap { width, height, pixels })
        } else {
            None
        }
    }

    /// A `width` by `height` bitmap with every pixel set to `value`.
    pub fn filled(width: u32, height: u32, value: u8) -> (result: Option<Bitmap>)
        ensures
            match result {
                Some(b) => {
                    &&& b.wf()
                    &&& b.width == width
                    &&& b.height == height
                    &&& forall|i: int| 0 <= i < b.pixels@.len() ==> b.pixels@[i] == value
                },
                None => width * height > usize::MAX,
            },
    {
        proof {
            lemma_u32_area_fits_u64(width as int, height as int);
        }
        let total: u64 = (width as u64) * (height as u64);
        if total > (usize::MAX as u64) {
            return None;
        }
        let n: usize = total as usize;
        let mut pixels: Vec<u8> = Vec::new();
        while pixels.len() < n
            invariant
                pixels@.len() <= n,
                forall|i: int| 0 <= i < pixels@.len() ==> pixels@[i] == value,
            decreases n - pixels@.len(),
        {
            pixels.push(value);
        }
        Some(Bitmap { width, height, pixels })
    }

    /// Read the pixel at column `x`, row `y`.
    pub fn byte(&self, x: u32, y: u32) -> (b: u8)
        requires
            self.wf(),
            x < self.width,
            y < self.height,
        ensures
            b == self.spec_byte(x as int, y as int),
    {
        let buffer_len: usize = self.pixels.len();
        proof {
            lemma_row_major_in_range(self.width as int, self.height as int, x as int, y as int);
        }
        let idx: usize = (y as usize) * (self.width as usize) + (x as usize);
        assert(idx < buffer_len);
        self.pixels[idx]
    }
}

/// The cache's fixed-size pixel surface, zero-initialized at
/// construction and written only by rectangular blits.
pub struct Canvas {
    pub width: u32,
    pub height: u32,
    pub pixels: Vec<u8>,
}

impl Canvas {
    /// The buffer holds exactly one byte per pixel.
    pub open spec fn wf(self) -> bool {
        self.pixels@.len() == self.width * self.height
    }

    /// The pixel at column `x`, row `y`.
    pub open spec fn spec_byte(self, x: int, y: int) -> u8 {
        byte_at(self.pixels@, self.width as int, x, y)
    }

    /// Both canvases have the same dimensions.
    pub open spec fn same_size(self, other: Canvas) -> bool {
        self.width == other.width && self.height == other.height
    }

    /// A zero-filled `width` by `height` canvas. The size limit is the
    /// machine's: the buffer must be addressable.
    pub fn new(width: u32, height: u32) -> (canvas: Canvas)
        requires
            width * height <= usize::MAX,
        ensures
            canvas.wf(),
            canvas.width == width,
            canvas.height == height,
            forall|i: int| 0 <= i < canvas.pixels@.len() ==> canvas.pixels@[i] == 0,
    {
        let n: usize = (width as usize) * (height as usize);
        let mut pixels: Vec<u8> = Vec::new();
        while pixels.len() < n
            invariant
                pixels@.len() <= n,
                forall|i: int| 0 <= i < pixels@.len() ==> pixels@[i] == 0,
            decreases n - pixels@.len(),
        {
            pixels.push(0);
        }
        Canvas { width, height, pixels }
    }

    /// Read the pixel at column `x`, row `y`.
    pub fn byte(&self, x: u32, y: u32) -> (b: u8)
        requires
            self.wf(),
            x < self.width,
            y < self.height,
        ensures
            b == self.spec_byte(x as int, y as int),
    {
        let buffer_len: usize = self.pixels.len();
        proof {
            lemma_row_major_in_range(self.width as int, self.height as int, x as int, y as int);
        }
        let idx: usize = (y as usize) * (self.width as usize) + (x as usize);
        assert(idx < buffer_len);
        self.pixels[idx]
    }

    /// Write one pixel; every other pixel keeps its value.
    fn set_byte(&mut self, x: u32, y: u32, value: u8)
        requires
            old(self).wf(),
            x < old(self).width,
            y < old(self).height,
        ensures
            final(self).wf(),
            final(self).same_size(*old(self)),
            final(self).spec_byte(x as int, y as int) == value,
            forall|cx: int, cy: int|
                0 <= cx < old(self).width && 0 <= cy < old(self).height && !(cx == x && cy == y)
                    ==> #[trigger] final(self).spec_byte(cx, cy) == old(self).spec_byte(cx, cy),
    {
        let ghost pre = *self;
        let buffer_len: usize = self.pixels.len();
        proof {
            lemma_row_major_in_range(self.width as int, self.height as int, x as int, y as int);
        }
        let idx: usize = (y as usize) * (self.width as usize) + (x as usize);
        assert(idx < buffer_len);
        self.pixels.set(idx, value);
        proof {
            assert forall|cx: int, cy: int|
                0 <= cx < pre.width && 0 <= cy < pre.height && !(cx == x && cy == y)
                    implies #[trigger] self.spec_byte(cx, cy) == pre.spec_byte(cx, cy) by {
                lemma_row_major_in_range(pre.width as int, pre.height as int, cx, cy);
                if cy * pre.width + cx == y * pre.width + x {
                    lemma_row_major_injective(pre.width as int, cx, cy, x as int, y as int);
                }
            }
        }
    }

    /// Blit `bitmap` into the canvas with its top-left corner at
    /// `(r.x, r.y)`: inside `r` the canvas afterwards holds the
    /// bitmap's pixels, and every pixel outside `r` is untouched.
    pub fn blit(&mut self, r: Rect, bitmap: &Bitmap)
        requires
            old(self).wf(),
            bitmap.wf(),
            r.width == bitmap.width,
            r.height == bitmap.height,
            r.x + r.width <= old(self).width,
            r.y + r.height <= old(self).height,
        ensures
            final(self).wf(),
            final(self).same_size(*old(self)),
            forall|dx: int, dy: int|
                0 <= dx < r.width && 0 <= dy < r.height
                    ==> #[trigger] final(self).spec_byte(r.x + dx, r.y + dy)
                        == bitmap.spec_byte(dx, dy),
            forall|cx: int, cy: int|
                0 <= cx < old(self).width && 0 <= cy < old(self).height && !rect_contains(r, cx, cy)
                    ==> #[trigger] final(self).spec_byte(cx, cy) == old(self).spec_byte(cx, cy),
    {
        let ghost pre = *self;
        let mut dy: u32 = 0;
        while dy < bitmap.height
            invariant
                self.wf(),
                self.same_size(pre),
                bitmap.wf(),
                r.width == bitmap.width,
                r.height == bitmap.height,
                r.x + r.width <= pre.width,
                r.y + r.height <= pre.height,
                dy <= bitmap.height,
                forall|i: int, j: int|
                    0 <= i < r.width && 0 <= j < dy
                        ==> #[trigger] self.spec_byte(r.x + i, r.y + j) == bitmap.spec_byte(i, j),
                forall|cx: int, cy: int|
                    0 <= cx < pre.width && 0 <= cy < pre.height
                        && !(r.x <= cx < r.x + r.width && r.y <= cy < r.y + dy)
                        ==> #[trigger] self.spec_byte(cx, cy) == pre.spec_byte(cx, cy),
            decreases bitmap.height - dy,
        {
            let mut dx: u32 = 0;
            while dx < bitmap.width
                invariant
                    self.wf(),
                    self.same_size(pre),
                    bitmap.wf(),
                    r.width == bitmap.width,
                    r.height == bitmap.height,
                    r.x + r.width <= pre.width,
                    r.y + r.height <= pre.height,
                    dy < bitmap.height,
                    dx <= bitmap.width,
                    forall|i: int, j: int|
                        0 <= i < r.width && 0 <= j < dy
                            ==> #[trigger] self.spec_byte(r.x + i, r.y + j)
                                == bitmap.spec_byte(i, j),
                    forall|i: int|
                        0 <= i < dx
                            ==> #[trigger] self.spec_byte(r.x + i, r.y + dy) == bitmap.spec_byte(
                            i,
                            dy as int,
                        ),
                    forall|cx: int, cy: int|
                        0 <= cx < pre.width && 0 <= cy < pre.height
                            && !(r.x <= cx < r.x + r.width && r.y <= cy < r.y + dy)
                            && !(r.x <= cx < r.x + dx && cy == r.y + dy)
                            ==> #[trigger] self.spec_byte(cx, cy) == pre.spec_byte(cx, cy),
                decreases bitmap.width - dx,
            {
                let v = bitmap.byte(dx, dy);
                self.set_byte(r.x + dx, r.y + dy, v);
                dx = dx + 1;
            }
            dy = dy + 1;
        }
    }
}

} // verus!
