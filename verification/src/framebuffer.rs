//! The color plane of a framebuffer: a row-major grid of pixels
//!
//! A framebuffer pairs this grid with a depth value per pixel; the depths are
//! floating-point numbers, so the depth plane and the depth test live with the
//! framebuffer itself, outside this library.

use vstd::prelude::*;

use crate::geometry::{Coordinate, Dimensions, HasDimensions};
use crate::error::RenderResult;
use crate::pixels::{
    pixel_mut_in_bounds, pixel_ref_in_bounds, PixelBuffer, PixelMut, PixelRead, PixelRef, PixelWrite,
};

verus! {

/// A row-major grid of `width * height` pixels
#[derive(Clone)]
pub struct ColorBuffer<P> {
    width: u32,
    height: u32,
    color: Vec<P>,
}

/// The position of pixel `(x, y)` in the row-major order of a grid `width` pixels wide
pub open spec fn pixel_index(width: u32, x: u32, y: u32) -> int {
    x + y * width
}

impl<P> ColorBuffer<P> {
    /// The pixels, in row-major order
    pub closed spec fn pixels(self) -> Seq<P> {
        self.color@
    }

    /// Width in pixels
    pub closed spec fn width_spec(self) -> u32 {
        self.width
    }

    /// Height in pixels
    pub closed spec fn height_spec(self) -> u32 {
        self.height
    }

    /// The grid holds one pixel per coordinate: `width * height` of them.
    pub open spec fn wf(self) -> bool {
        self.pixels().len() == self.width_spec() * self.height_spec()
    }

    /// Whether `(x, y)` names a pixel of the grid
    pub open spec fn holds(self, x: u32, y: u32) -> bool {
        x < self.width_spec() && y < self.height_spec()
    }

    /// The pixel at `(x, y)`
    pub open spec fn pixel_spec(self, x: u32, y: u32) -> P {
        self.pixels()[pixel_index(self.width_spec(), x, y)]
    }

    /// Creates a grid of the given size with every pixel set to `pixel`.
    pub fn new_with(width: u32, height: u32, pixel: P) -> (r: ColorBuffer<P>)
        where P: Copy,
        requires
            width * height <= usize::MAX,
        ensures
            r.wf(),
            r.width_spec() == width,
            r.height_spec() == height,
            forall|i: int| 0 <= i < r.pixels().len() ==> #[trigger] r.pixels()[i] == pixel,
    {
        let len: usize = width as usize * height as usize;
        let mut color: Vec<P> = Vec::with_capacity(len);
        let mut i: usize = 0;
        while i < len
            invariant
                i <= len,
                color@.len() == i,
                forall|k: int| 0 <= k < i ==> #[trigger] color@[k] == pixel,
            decreases len - i,
        {
            color.push(pixel);
            i += 1;
        }
        ColorBuffer { width, height, color }
    }

    /// Creates a grid of the given size with every pixel set to `P::default()`.
    pub fn new(width: u32, height: u32) -> (r: ColorBuffer<P>)
        where P: Copy + Default,
        requires
            width * height <= usize::MAX,
        ensures
            r.wf(),
            r.width_spec() == width,
            r.height_spec() == height,
            forall|i: int, j: int|
                0 <= i < r.pixels().len() && 0 <= j < r.pixels().len() ==> #[trigger] r.pixels()[i]
                    == #[trigger] r.pixels()[j],
    {
        ColorBuffer::new_with(width, height, P::default())
    }

    /// Sets every pixel to `pixel`.
    pub fn clear_with(&mut self, pixel: P)
        where P: Copy,
        ensures
            final(self).width_spec() == old(self).width_spec(),
            final(self).height_spec() == old(self).height_spec(),
            final(self).pixels().len() == old(self).pixels().len(),
            forall|i: int| 0 <= i < final(self).pixels().len() ==> #[trigger] final(self).pixels()[i] == pixel,
    {
        let len = self.color.len();
        let mut i: usize = 0;
        while i < len
            invariant
                i <= len,
                len == self.color@.len(),
                self.width == old(self).width,
                self.height == old(self).height,
                self.color@.len() == old(self).color@.len(),
                forall|k: int| 0 <= k < i ==> #[trigger] self.color@[k] == pixel,
            decreases len - i,
        {
            self.color.set(i, pixel);
            i += 1;
        }
    }

    /// Sets every pixel to `P::default()`.
    pub fn clear(&mut self)
        where P: Copy + Default,
        ensures
            final(self).width_spec() == old(self).width_spec(),
            final(self).height_spec() == old(self).height_spec(),
            final(self).pixels().len() == old(self).pixels().len(),
            forall|i: int, j: int|
                0 <= i < final(self).pixels().len() && 0 <= j < final(self).pixels().len()
                    ==> #[trigger] final(self).pixels()[i] == #[trigger] final(self).pixels()[j],
    {
        self.clear_with(P::default())
    }

    /// The pixels, in row-major order
    pub fn color_buffer(&self) -> (r: &[P])
        ensures
            r@ == self.pixels(),
    {
        self.color.as_slice()
    }

    /// The pixels, in row-major order, to be changed in place
    pub fn color_buffer_mut(&mut self) -> (r: &mut [P])
        ensures
            r@ == old(self).pixels(),
            final(self).pixels() == final(r)@,
            final(self).width_spec() == old(self).width_spec(),
            final(self).height_spec() == old(self).height_spec(),
    {
        self.color.as_mut_slice()
    }

    /// Width in pixels
    #[inline(always)]
    pub fn width(&self) -> (r: u32)
        ensures
            r == self.width_spec(),
    {
        self.width
    }

    /// Height in pixels
    #[inline(always)]
    pub fn height(&self) -> (r: u32)
        ensures
            r == self.height_spec(),
    {
        self.height
    }

    /// Checks if `(x, y)` names a pixel of the grid
    #[inline(always)]
    pub fn check_coordinate(&self, x: u32, y: u32) -> (r: bool)
        ensures
            r == self.holds(x, y),
    {
        x < self.width && y < self.height
    }

    /// The pixel at `(x, y)`; the coordinate is checked by the caller.
    #[inline]
    pub fn pixel(&self, x: u32, y: u32) -> (r: &P)
        requires
            self.wf(),
            self.holds(x, y),
        ensures
            *r == self.pixel_spec(x, y),
    {
        let count: usize = self.color.len();
        proof {
            self.lemma_index_in_grid(x, y);
        }
        assert(pixel_index(self.width, x, y) < count);
        &self.color[x as usize + y as usize * self.width as usize]
    }

    /// The pixel at `(x, y)`, to be changed in place; the coordinate is checked by the caller.
    #[inline]
    pub fn pixel_mut(&mut self, x: u32, y: u32) -> (r: &mut P)
        requires
            old(self).wf(),
            old(self).holds(x, y),
        ensures
            *r == old(self).pixel_spec(x, y),
            final(self).width_spec() == old(self).width_spec(),
            final(self).height_spec() == old(self).height_spec(),
            final(self).pixels() == old(self).pixels().update(
                pixel_index(old(self).width_spec(), x, y),
                *final(r),
            ),
    {
        let count: usize = self.color.len();
        proof {
            self.lemma_index_in_grid(x, y);
        }
        assert(pixel_index(self.width, x, y) < count);
        let i: usize = x as usize + y as usize * self.width as usize;
        &mut self.color[i]
    }

    /// A pixel inside the grid has a row-major position below the number of pixels.
    pub proof fn lemma_index_in_grid(self, x: u32, y: u32)
        requires
            self.wf(),
            self.holds(x, y),
        ensures
            0 <= pixel_index(self.width_spec(), x, y) < self.pixels().len(),
            (Coordinate { x, y }).index_in(self.dimensions_spec()) == pixel_index(
                self.width_spec(),
                x,
                y,
            ),
    {
        let d = Dimensions { width: self.width, height: self.height };
        d.lemma_index_below_area(Coordinate { x, y });
    }
}

/// Distinct coordinates inside a grid name distinct row-major positions.
pub proof fn lemma_pixel_index_injective(width: u32, x: u32, y: u32, x2: u32, y2: u32)
    requires
        x < width,
        x2 < width,
        pixel_index(width, x, y) == pixel_index(width, x2, y2),
    ensures
        x == x2,
        y == y2,
{
    let w = width as int;
    assert(y == y2) by (nonlinear_arith)
        requires
            0 <= x < w,
            0 <= x2 < w,
            y >= 0,
            y2 >= 0,
            x + y * w == x2 + y2 * w,
    {
        if y < y2 {
            assert(x + y * w < (y + 1) * w);
            assert((y + 1) * w <= y2 * w);
        } else if y2 < y {
            assert(x2 + y2 * w < (y2 + 1) * w);
            assert((y2 + 1) * w <= y * w);
        }
    }
}

/// A write through `pixel_mut` reads back through `pixel` and touches no
/// other pixel: the grid whose pixels are `buffer`'s with the pixel at
/// `(x, y)` replaced by `color` (what `pixel_mut` leaves after storing
/// `color`) holds `color` at `(x, y)`, `buffer`'s pixel at every other
/// coordinate, and one pixel per coordinate still.
pub proof fn law_pixel_write_isolated<P>(
    buffer: ColorBuffer<P>,
    after: ColorBuffer<P>,
    x: u32,
    y: u32,
    x2: u32,
    y2: u32,
    color: P,
)
    requires
        buffer.wf(),
        buffer.holds(x, y),
        buffer.holds(x2, y2),
        after.width_spec() == buffer.width_spec(),
        after.height_spec() == buffer.height_spec(),
        after.pixels() == buffer.pixels().update(pixel_index(buffer.width_spec(), x, y), color),
    ensures
        after.wf(),
        after.pixel_spec(x, y) == color,
        (x2, y2) != (x, y) ==> after.pixel_spec(x2, y2) == buffer.pixel_spec(x2, y2),
{
    buffer.lemma_index_in_grid(x, y);
    buffer.lemma_index_in_grid(x2, y2);
    if pixel_index(buffer.width_spec(), x, y) == pixel_index(buffer.width_spec(), x2, y2) {
        lemma_pixel_index_injective(buffer.width_spec(), x, y, x2, y2);
    }
}

impl<P> HasDimensions for ColorBuffer<P> {
    open spec fn dimensions_spec(&self) -> Dimensions {
        Dimensions { width: self.width_spec(), height: self.height_spec() }
    }

    fn dimensions(&self) -> (r: Dimensions)
        ensures
            r == (Dimensions { width: self.width_spec(), height: self.height_spec() }),
    {
        Dimensions { width: self.width, height: self.height }
    }
}

impl<P: Copy> PixelBuffer for ColorBuffer<P> {
    type Color = P;

    open spec fn indexable(&self) -> bool {
        &&& self.wf()
        &&& self.pixels().len() <= usize::MAX
    }

    proof fn lemma_indexable(&self) {
    }
}

impl<P: Copy> PixelRead for ColorBuffer<P> {
    open spec fn pixel_count(&self) -> nat {
        self.pixels().len()
    }

    open spec fn pixel_at(&self, index: int) -> P {
        self.pixels()[index]
    }

    open spec fn locates(&self, coord: Coordinate) -> bool {
        self.dimensions_spec().in_bounds_spec(coord)
    }

    open spec fn location(&self, coord: Coordinate) -> int {
        coord.index_in(self.dimensions_spec())
    }

    #[inline]
    fn get_pixel_unchecked(&self, index: usize) -> (r: P) {
        self.color[index]
    }

    fn pixel_ref(&self, coord: Coordinate) -> (r: RenderResult<PixelRef<'_, Self>>) {
        proof {
            if self.dimensions_spec().in_bounds_spec(coord) {
                self.dimensions_spec().lemma_index_below_area(coord);
            }
        }
        pixel_ref_in_bounds(self, coord)
    }
}

impl<P: Copy> PixelWrite for ColorBuffer<P> {
    #[inline]
    fn set_pixel_unchecked(&mut self, index: usize, color: P) {
        self.color.set(index, color);
    }

    fn pixel_mut(&mut self, coord: Coordinate) -> (r: RenderResult<PixelMut<'_, Self>>) {
        proof {
            if self.dimensions_spec().in_bounds_spec(coord) {
                self.dimensions_spec().lemma_index_below_area(coord);
            }
        }
        pixel_mut_in_bounds(self, coord)
    }
}

} // verus!
