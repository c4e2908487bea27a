//! A rectangular buffer of packed 32-bit color pixels, exclusively owned by
//! the boot sequence. Every drawing operation either stays within
//! `[0, width) x [0, height)` or fails explicitly; nothing ever writes out of
//! bounds.

use vstd::prelude::*;

verus! {

/// Failure of a drawing operation: the requested area does not lie within
/// the surface.
#[derive(Clone, Copy, Debug, PartialEq, Eq, Structural)]
pub enum SurfaceError {
    OutOfBounds,
}

/// A rectangular pixel buffer. Row-major: the pixel at `(x, y)` lives at
/// index `y * width + x`.
pub struct PixelSurface {
    pub width: usize,
    pub height: usize,
    pub pixels: Vec<u32>,
}

impl PixelSurface {
    /// The buffer holds exactly one pixel per coordinate of the rectangle.
    pub open spec fn wf(self) -> bool {
        self.pixels@.len() == self.width * self.height
    }

    /// `(x, y)` lies within the surface.
    pub open spec fn in_bounds(self, x: int, y: int) -> bool {
        0 <= x < self.width && 0 <= y < self.height
    }

    /// The color stored at `(x, y)`.
    pub open spec fn pixel_at(self, x: int, y: int) -> u32 {
        self.pixels@[y * self.width + x]
    }

    /// Builds a surface of the given size with every pixel set to `color`.
    /// The precondition is the machine limit that the pixel count fits the
    /// address space.
    pub fn new_filled(width: usize, height: usize, color: u32) -> (s: PixelSurface)
        requires
            width * height <= usize::MAX,
        ensures
            s.wf(),
            s.width == width,
            s.height == height,
            forall|x: int, y: int| s.in_bounds(x, y) ==> s.pixel_at(x, y) == color,
    {
        let count: usize = width * height;
        let mut pixels: Vec<u32> = Vec::new();
        let mut i: usize = 0;
        while i < count
            invariant
                i <= count,
                pixels@.len() == i,
                forall|j: int| 0 <= j < i ==> pixels@[j] == color,
            decreases count - i,
        {
            pixels.push(color);
            i = i + 1;
        }
        let s = PixelSurface { width, height, pixels };
        proof {
            assert forall|x: int, y: int| s.in_bounds(x, y) implies s.pixel_at(x, y)
                == color by {
                lemma_index_bound(x, y, width as int, height as int);
            }
        }
        s
    }

    /// Writes one pixel. The caller must stay in bounds; every other pixel
    /// is untouched.
    pub fn set_pixel(&mut self, x: usize, y: usize, color: u32)
        requires
            old(self).wf(),
            old(self).in_bounds(x as int, y as int),
        ensures
            final(self).wf(),
            final(self).width == old(self).width,
            final(self).height == old(self).height,
            final(self).pixel_at(x as int, y as int) == color,
            forall|a: int, b: int|
                final(self).in_bounds(a, b) && !(a == x && b == y) ==> final(self).pixel_at(a, b)
                    == old(self).pixel_at(a, b),
    {
        let n = self.pixels.len();
        proof {
            lemma_index_bound(x as int, y as int, self.width as int, self.height as int);
        }
        let idx: usize = y * self.width + x;
        self.pixels.set(idx, color);
        proof {
            assert forall|a: int, b: int|
                self.in_bounds(a, b) && !(a == x && b == y) implies self.pixel_at(a, b) == old(
                self,
            ).pixel_at(a, b) by {
                lemma_index_bound(a, b, self.width as int, self.height as int);
                lemma_index_injective(self.width as int, x as int, y as int, a, b);
            }
        }
    }

    /// Reads one pixel back.
    pub fn get_pixel(&self, x: usize, y: usize) -> (c: u32)
        requires
            self.wf(),
            self.in_bounds(x as int, y as int),
        ensures
            c == self.pixel_at(x as int, y as int),
    {
        let n = self.pixels.len();
        proof {
            lemma_index_bound(x as int, y as int, self.width as int, self.height as int);
        }
        let idx: usize = y * self.width + x;
        self.pixels[idx]
    }

    /// Fills the rectangle of size `w` by `h` whose top-left corner is
    /// `(x0, y0)` with one color. Fails, changing nothing, exactly when the
    /// rectangle does not lie within the surface.
    pub fn fill_rect(&mut self, color: u32, x0: usize, y0: usize, w: usize, h: usize) -> (r: Result<
        (),
        SurfaceError,
    >)
        requires
            old(self).wf(),
        ensures
            final(self).wf(),
            final(self).width == old(self).width,
            final(self).height == old(self).height,
            r is Ok <==> x0 + w <= old(self).width && y0 + h <= old(self).height,
            r is Err ==> *final(self) == *old(self) && r == Result::<(), SurfaceError>::Err(
                SurfaceError::OutOfBounds,
            ),
            r is Ok ==> forall|x: int, y: int|
                final(self).in_bounds(x, y) ==> final(self).pixel_at(x, y) == (if x0 <= x < x0 + w
                    && y0 <= y < y0 + h {
                    color
                } else {
                    old(self).pixel_at(x, y)
                }),
    {
        if w > self.width || x0 > self.width - w || h > self.height || y0 > self.height - h {
            return Err(SurfaceError::OutOfBounds);
        }
        let mut dy: usize = 0;
        while dy < h
            invariant
                self.wf(),
                self.width == old(self).width,
                self.height == old(self).height,
                x0 + w <= self.width,
                y0 + h <= self.height,
                dy <= h,
                forall|x: int, y: int|
                    self.in_bounds(x, y) ==> self.pixel_at(x, y) == (if x0 <= x < x0 + w && y0 <= y
                        < y0 + dy {
                        color
                    } else {
                        old(self).pixel_at(x, y)
                    }),
            decreases h - dy,
        {
            let mut dx: usize = 0;
            while dx < w
                invariant
                    self.wf(),
                    self.width == old(self).width,
                    self.height == old(self).height,
                    x0 + w <= self.width,
                    y0 + h <= self.height,
                    dy < h,
                    dx <= w,
                    forall|x: int, y: int|
                        self.in_bounds(x, y) ==> self.pixel_at(x, y) == (if (x0 <= x < x0 + w && y0
                            <= y < y0 + dy) || (y == y0 + dy && x0 <= x < x0 + dx) {
                            color
                        } else {
                            old(self).pixel_at(x, y)
                        }),
                decreases w - dx,
            {
                self.set_pixel(x0 + dx, y0 + dy, color);
                dx = dx + 1;
            }
            dy = dy + 1;
        }
        Ok(())
    }

    /// Fills the entire surface with one color: afterwards every coordinate
    /// reads back exactly `color`.
    pub fn clear(&mut self, color: u32)
        requires
            old(self).wf(),
        ensures
            final(self).wf(),
            final(self).width == old(self).width,
            final(self).height == old(self).height,
            forall|x: int, y: int|
                final(self).in_bounds(x, y) ==> final(self).pixel_at(x, y) == color,
    {
        let w = self.width;
        let h = self.height;
        let r = self.fill_rect(color, 0, 0, w, h);
        match r {
            Ok(()) => (),
            Err(_) => {
                proof {
                    assert(false);
                }
            },
        }
    }

    /// Paints the deterministic self-test pattern: a two-axis color gradient
    /// with a constant blue floor, so the pattern can never be all black. A
    /// purely visual smoke test that the surface is addressable; drawing it
    /// twice leaves the same pixels as drawing it once, since every pixel is
    /// a function of its coordinates alone.
    pub fn draw_test_pattern(&mut self)
        requires
            old(self).wf(),
        ensures
            final(self).wf(),
            final(self).width == old(self).width,
            final(self).height == old(self).height,
            forall|x: int, y: int|
                final(self).in_bounds(x, y) ==> final(self).pixel_at(x, y) == test_pattern_color(
                    x,
                    y,
                ),
    {
        let mut y: usize = 0;
        while y < self.height
            invariant
                self.wf(),
                self.width == old(self).width,
                self.height == old(self).height,
                y <= self.height,
                forall|a: int, b: int|
                    self.in_bounds(a, b) && b < y ==> self.pixel_at(a, b) == test_pattern_color(
                        a,
                        b,
                    ),
                forall|a: int, b: int|
                    self.in_bounds(a, b) && b >= y ==> self.pixel_at(a, b) == old(self).pixel_at(
                        a,
                        b,
                    ),
            decreases self.height - y,
        {
            let mut x: usize = 0;
            while x < self.width
                invariant
                    self.wf(),
                    self.width == old(self).width,
                    self.height == old(self).height,
                    y < self.height,
                    x <= self.width,
                    forall|a: int, b: int|
                        self.in_bounds(a, b) && (b < y || (b == y && a < x)) ==> self.pixel_at(a, b)
                            == test_pattern_color(a, b),
                    forall|a: int, b: int|
                        self.in_bounds(a, b) && (b > y || (b == y && a >= x)) ==> self.pixel_at(
                            a,
                            b,
                        ) == old(self).pixel_at(a, b),
                decreases self.width - x,
            {
                let c: u32 = ((x % 256) as u32) * 65536 + ((y % 256) as u32) * 256 + 128;
                self.set_pixel(x, y, c);
                x = x + 1;
            }
            y = y + 1;
        }
    }
}

/// The color the self-test pattern assigns to `(x, y)`: red follows the
/// column, green follows the row, and blue is the constant 128.
pub open spec fn test_pattern_color(x: int, y: int) -> u32 {
    ((x % 256) * 65536 + (y % 256) * 256 + 128) as u32
}

/// Within a `w` by `h` rectangle, the row-major index lies within the
/// buffer.
proof fn lemma_index_bound(x: int, y: int, w: int, h: int)
    requires
        0 <= x < w,
        0 <= y < h,
    ensures
        0 <= y * w + x < w * h,
{
    assert(0 <= y * w + x < w * h) by (nonlinear_arith)
        requires
            0 <= x < w,
            0 <= y < h,
    ;
}

/// Distinct in-bounds coordinates map to distinct row-major indexes.
proof fn lemma_index_injective(w: int, x1: int, y1: int, x2: int, y2: int)
    requires
        0 <= x1 < w,
        0 <= x2 < w,
        !(x1 == x2 && y1 == y2),
    ensures
        y1 * w + x1 != y2 * w + x2,
{
    assert(y1 * w + x1 != y2 * w + x2) by (nonlinear_arith)
        requires
            0 <= x1 < w,
            0 <= x2 < w,
            !(x1 == x2 && y1 == y2),
    ;
}

/// After a clear, every readback shows the fill color: all four corners, the
/// exact center, and every coordinate in between.
pub proof fn lemma_clear_readback(s: PixelSurface, color: u32)
    requires
        s.wf(),
        s.width > 0,
        s.height > 0,
        forall|x: int, y: int| s.in_bounds(x, y) ==> s.pixel_at(x, y) == color,
    ensures
        s.pixel_at(0, 0) == color,
        s.pixel_at(s.width - 1, 0) == color,
        s.pixel_at(0, s.height - 1) == color,
        s.pixel_at(s.width - 1, s.height - 1) == color,
        s.pixel_at(s.width as int / 2, s.height as int / 2) == color,
{
}

/// The self-test pattern is visible: on any nonempty surface it painted, at
/// least one pixel differs from black. In fact its blue channel makes every
/// pixel nonzero.
pub proof fn lemma_test_pattern_visible(s: PixelSurface)
    requires
        s.wf(),
        s.width > 0,
        s.height > 0,
        forall|x: int, y: int| s.in_bounds(x, y) ==> s.pixel_at(x, y) == test_pattern_color(x, y),
    ensures
        exists|x: int, y: int| s.in_bounds(x, y) && s.pixel_at(x, y) != 0u32,
        forall|x: int, y: int| s.in_bounds(x, y) ==> s.pixel_at(x, y) != 0u32,
{
    assert forall|x: int, y: int| s.in_bounds(x, y) implies s.pixel_at(x, y) != 0u32 by {
        assert(0 <= x % 256 < 256 && 0 <= y % 256 < 256);
        assert(test_pattern_color(x, y) != 0u32);
    }
    assert(s.in_bounds(0, 0) && s.pixel_at(0, 0) != 0u32);
}

} // verus!
