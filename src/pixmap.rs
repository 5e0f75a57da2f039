//! The pixmap: a fixed-size grid of colors stored in row-major order.

use vstd::prelude::*;

use crate::color::Color;

verus! {

/// Why a pixmap operation failed.
#[derive(Debug, Copy, Clone, PartialEq, Eq, Structural)]
pub enum PixmapError {
    /// The coordinates lie outside the pixmap.
    OutOfBounds,
    /// Raw data of a length other than `width * height` was given.
    SizeMismatch,
    /// A pixmap needs a positive width and height, and a pixel count that the
    /// machine can address in every encoding.
    InvalidSize,
}

/// The largest pixel count a pixmap may have: every encoding of it, four bytes per
/// pixel and then base64, stays well within the address space.
pub open spec fn max_pixels() -> int {
    (usize::MAX / 8) as int
}

/// What a pixmap holds: its dimensions and its colors in row-major order.
pub struct PixmapModel {
    pub width: nat,
    pub height: nat,
    pub pixels: Seq<Color>,
}

impl PixmapModel {
    pub open spec fn wf(self) -> bool {
        &&& self.width > 0
        &&& self.height > 0
        &&& self.width * self.height <= max_pixels()
        &&& self.pixels.len() == self.width * self.height
    }

    pub open spec fn in_bounds(self, x: int, y: int) -> bool {
        0 <= x < self.width && 0 <= y < self.height
    }

    /// Position of `(x, y)` in the row-major sequence.
    pub open spec fn index(self, x: int, y: int) -> int {
        y * self.width + x
    }

    pub open spec fn get(self, x: int, y: int) -> Color {
        self.pixels[self.index(x, y)]
    }

    /// The same pixmap with pixel `(x, y)` changed to `c`.
    pub open spec fn set(self, x: int, y: int, c: Color) -> PixmapModel {
        PixmapModel {
            width: self.width,
            height: self.height,
            pixels: self.pixels.update(self.index(x, y), c),
        }
    }
}

/// The index of an in-bounds pixel lies within the pixel sequence.
pub proof fn lemma_index_in_range(w: int, h: int, x: int, y: int)
    requires
        0 <= x < w,
        0 <= y < h,
    ensures
        0 <= y * w + x < w * h,
{
    assert(y * w + x < w * h) by (nonlinear_arith)
        requires
            0 <= x < w,
            0 <= y < h,
    ;
    assert(0 <= y * w) by (nonlinear_arith)
        requires
            0 <= y,
            0 <= w,
    ;
}

/// A fixed-size 2D array of colors.
pub struct Pixmap {
    width: usize,
    height: usize,
    data: Vec<Color>,
}

impl View for Pixmap {
    type V = PixmapModel;

    closed spec fn view(&self) -> PixmapModel {
        PixmapModel { width: self.width as nat, height: self.height as nat, pixels: self.data@ }
    }
}

impl Pixmap {
    pub open spec fn wf(&self) -> bool {
        self@.wf()
    }

    /// A black pixmap of the given dimensions.
    pub fn new(width: usize, height: usize) -> (r: Result<Pixmap, PixmapError>)
        ensures
            (width > 0 && height > 0 && width * height <= max_pixels()) <==> r is Ok,
            r is Err ==> r->Err_0 == PixmapError::InvalidSize,
            r matches Ok(p) ==> p.wf() && p@.width == width && p@.height == height && p@.pixels
                =~= Seq::new((width * height) as nat, |i: int| Color(0, 0, 0)),
    {
        if width == 0 || height == 0 {
            return Err(PixmapError::InvalidSize);
        }
        if width > (usize::MAX / 8) / height {
            proof {
                assert(width * height > usize::MAX / 8) by (nonlinear_arith)
                    requires
                        width > (usize::MAX / 8) / height,
                        height > 0,
                ;
            }
            return Err(PixmapError::InvalidSize);
        }
        proof {
            assert(width * height <= usize::MAX / 8) by (nonlinear_arith)
                requires
                    width <= (usize::MAX / 8) / height,
                    height > 0,
            ;
        }
        let n = width * height;
        let mut data: Vec<Color> = Vec::new();
        let mut i: usize = 0;
        while i < n
            invariant
                i <= n,
                data@ =~= Seq::new(i as nat, |j: int| Color(0, 0, 0)),
            decreases n - i,
        {
            data.push(Color(0, 0, 0));
            i = i + 1;
        }
        Ok(Pixmap { width, height, data })
    }

    /// The dimensions as *(width, height)*.
    pub fn get_size(&self) -> (r: (usize, usize))
        ensures
            r.0 == self@.width,
            r.1 == self@.height,
    {
        (self.width, self.height)
    }

    /// The color of pixel `(x, y)`.
    pub fn get_pixel(&self, x: usize, y: usize) -> (r: Result<Color, PixmapError>)
        requires
            self.wf(),
        ensures
            self@.in_bounds(x as int, y as int) ==> r == Ok::<Color, PixmapError>(
                self@.get(x as int, y as int),
            ),
            !self@.in_bounds(x as int, y as int) ==> r == Err::<Color, PixmapError>(
                PixmapError::OutOfBounds,
            ),
    {
        if x < self.width && y < self.height {
            proof {
                lemma_index_in_range(self.width as int, self.height as int, x as int, y as int);
            }
            Ok(self.data[y * self.width + x])
        } else {
            Err(PixmapError::OutOfBounds)
        }
    }

    /// Set pixel `(x, y)` to `color`.
    pub fn set_pixel(&mut self, x: usize, y: usize, color: Color) -> (r: Result<(), PixmapError>)
        requires
            old(self).wf(),
        ensures
            final(self).wf(),
            old(self)@.in_bounds(x as int, y as int) ==> r is Ok && final(self)@ == old(self)@.set(
                x as int,
                y as int,
                color,
            ),
            !old(self)@.in_bounds(x as int, y as int) ==> r == Err::<(), PixmapError>(
                PixmapError::OutOfBounds,
            ) && final(self)@ == old(self)@,
    {
        if x < self.width && y < self.height {
            proof {
                lemma_index_in_range(self.width as int, self.height as int, x as int, y as int);
            }
            let i = y * self.width + x;
            self.data.set(i, color);
            Ok(())
        } else {
            Err(PixmapError::OutOfBounds)
        }
    }

    /// All colors in row-major order.
    pub fn get_raw_data(&self) -> (r: Vec<Color>)
        ensures
            r@ == self@.pixels,
    {
        self.data.clone()
    }

    /// Replace all colors by `data`, given in row-major order.
    pub fn put_raw_data(&mut self, data: &[Color]) -> (r: Result<(), PixmapError>)
        requires
            old(self).wf(),
        ensures
            final(self).wf(),
            data@.len() == old(self)@.pixels.len() ==> r is Ok && final(self)@ == (PixmapModel {
                pixels: data@,
                ..old(self)@
            }),
            data@.len() != old(self)@.pixels.len() ==> r == Err::<(), PixmapError>(
                PixmapError::SizeMismatch,
            ) && final(self)@ == old(self)@,
    {
        if data.len() != self.data.len() {
            return Err(PixmapError::SizeMismatch);
        }
        let mut v: Vec<Color> = Vec::new();
        let mut i: usize = 0;
        while i < data.len()
            invariant
                i <= data@.len(),
                v@ =~= data@.subrange(0, i as int),
            decreases data@.len() - i,
        {
            v.push(data[i]);
            i = i + 1;
        }
        assert(v@ =~= data@);
        self.data = v;
        Ok(())
    }
}

/// Reading a pixel right after setting it gives the color that was set.
pub proof fn lemma_set_then_get(p: PixmapModel, x: int, y: int, c: Color)
    requires
        p.wf(),
        p.in_bounds(x, y),
    ensures
        p.set(x, y, c).wf(),
        p.set(x, y, c).get(x, y) == c,
{
    lemma_index_in_range(p.width as int, p.height as int, x, y);
}

} // verus!
