//! Partial PixelBuffers

use vstd::prelude::*;

use crate::error::{RenderError, RenderResult};
use crate::geometry::{Coordinate, Dimensions, HasDimensions};

use super::{PixelBuffer, PixelRead, PixelWrite, PixelRef, PixelMut};

verus! {

/// Common properties and methods for `PartialPixelBuffer` types
pub trait PartialPixelBuffer: PixelBuffer {
    /// The parent pixelbuffer type
    type PixelBuffer;

    /// Relative to the parent pixelbuffer, the starting coordinate of the partial pixelbuffer
    fn start(&self) -> Coordinate;

    /// Relative to the parent pixelbuffer, the ending coordinate of the partial pixelbuffer
    fn end(&self) -> Coordinate;

    /// Reference to the parent pixelbuffer
    fn parent(&self) -> &Self::PixelBuffer;
}

/// Partial `PixelBuffer`, a sub-image of the parent `PixelBuffer`
pub struct PartialPixelBufferRef<'a, P> {
    pub(crate) parent: &'a P,
    pub(crate) start: Coordinate,
    pub(crate) end: Coordinate,
}

/// Mutable partial `PixelBuffer`, a sub-image of the parent `PixelBuffer`
pub struct PartialPixelBufferMut<'a, P> {
    pub(crate) parent: &'a mut P,
    pub(crate) start: Coordinate,
    pub(crate) end: Coordinate,
}

/// The extent of the rectangle from `start` to `end` (partial buffers are
/// only made with `start` before `end` on both axes, where this is `end - start`)
pub open spec fn extent(start: Coordinate, end: Coordinate) -> Dimensions {
    Dimensions {
        width: if end.x >= start.x {
            (end.x - start.x) as u32
        } else {
            0
        },
        height: if end.y >= start.y {
            (end.y - start.y) as u32
        } else {
            0
        },
    }
}

/// The coordinate in the parent buffer of a coordinate relative to `start`,
/// where it exists
pub open spec fn shifted(coord: Coordinate, start: Coordinate) -> Option<Coordinate> {
    if coord.x + start.x <= u32::MAX && coord.y + start.y <= u32::MAX {
        Some(coord.plus(start))
    } else {
        None
    }
}

/// Adds `start` to a coordinate relative to it, where the sum exists.
fn shift(coord: Coordinate, start: Coordinate) -> (r: Option<Coordinate>)
    ensures
        r == shifted(coord, start),
{
    match (coord.x.checked_add(start.x), coord.y.checked_add(start.y)) {
        (Some(x), Some(y)) => Some(Coordinate { x, y }),
        _ => None,
    }
}

impl<'a, P> PartialPixelBufferRef<'a, P> {
    /// The parent buffer
    pub closed spec fn parent_view(self) -> P {
        *self.parent
    }

    /// The starting corner, relative to the parent
    pub closed spec fn start_view(self) -> Coordinate {
        self.start
    }

    /// The ending corner, relative to the parent
    pub closed spec fn end_view(self) -> Coordinate {
        self.end
    }

    pub(crate) fn new(parent: &'a P, start: Coordinate, end: Coordinate) -> (r: PartialPixelBufferRef<'a, P>)
        requires
            start.precedes(end),
        ensures
            r.parent_view() == *parent,
            r.start_view() == start,
            r.end_view() == end,
    {
        PartialPixelBufferRef { parent, start, end }
    }
}

impl<'a, P> PartialPixelBufferMut<'a, P> {
    /// The parent buffer, as it is now
    pub closed spec fn parent_view(self) -> P {
        *self.parent
    }

    /// The starting corner, relative to the parent
    pub closed spec fn start_view(self) -> Coordinate {
        self.start
    }

    /// The ending corner, relative to the parent
    pub closed spec fn end_view(self) -> Coordinate {
        self.end
    }

    pub(crate) fn new(parent: &'a mut P, start: Coordinate, end: Coordinate) -> (r: PartialPixelBufferMut<'a, P>)
        requires
            start.precedes(end),
        ensures
            r.parent_view() == *old(parent),
            r.start_view() == start,
            r.end_view() == end,
            *final(r.parent) == *final(parent),
    {
        PartialPixelBufferMut { parent, start, end }
    }
}

impl<'a, P: PixelBuffer> PartialPixelBuffer for PartialPixelBufferRef<'a, P> {
    type PixelBuffer = P;

    /// The start, or bottom left corner, of the partial `PixelBuffer` in relation to the parent `PixelBuffer`
    #[inline]
    fn start(&self) -> (r: Coordinate)
        ensures
            r == self.start_view(),
    {
        self.start
    }

    /// The end, or top right corner, of the partial `PixelBuffer` in relation to the parent `PixelBuffer`
    #[inline]
    fn end(&self) -> (r: Coordinate)
        ensures
            r == self.end_view(),
    {
        self.end
    }

    /// Reference to the parent `PixelBuffer`
    #[inline]
    fn parent(&self) -> (r: &P)
        ensures
            *r == self.parent_view(),
    {
        self.parent
    }
}

impl<'a, P: PixelBuffer> PartialPixelBuffer for PartialPixelBufferMut<'a, P> {
    type PixelBuffer = P;

    /// The start, or bottom left corner, of the partial `PixelBuffer` in relation to the parent `PixelBuffer`
    #[inline]
    fn start(&self) -> (r: Coordinate)
        ensures
            r == self.start_view(),
    {
        self.start
    }

    /// The end, or top right corner, of the partial `PixelBuffer` in relation to the parent `PixelBuffer`
    #[inline]
    fn end(&self) -> (r: Coordinate)
        ensures
            r == self.end_view(),
    {
        self.end
    }

    /// Reference to the parent `PixelBuffer`
    #[inline]
    fn parent(&self) -> (r: &P)
        ensures
            *r == self.parent_view(),
    {
        self.parent
    }
}

impl<'a, P> HasDimensions for PartialPixelBufferRef<'a, P> {
    open spec fn dimensions_spec(&self) -> Dimensions {
        extent(self.start_view(), self.end_view())
    }

    fn dimensions(&self) -> (r: Dimensions)
        ensures
            r == extent(self.start_view(), self.end_view()),
    {
        Dimensions {
            width: self.end.x.saturating_sub(self.start.x),
            height: self.end.y.saturating_sub(self.start.y),
        }
    }
}

impl<'a, P> HasDimensions for PartialPixelBufferMut<'a, P> {
    open spec fn dimensions_spec(&self) -> Dimensions {
        extent(self.start_view(), self.end_view())
    }

    fn dimensions(&self) -> (r: Dimensions)
        ensures
            r == extent(self.start_view(), self.end_view()),
    {
        Dimensions {
            width: self.end.x.saturating_sub(self.start.x),
            height: self.end.y.saturating_sub(self.start.y),
        }
    }
}

impl<'a, P: PixelBuffer> PixelBuffer for PartialPixelBufferRef<'a, P> {
    type Color = <P as PixelBuffer>::Color;

    open spec fn indexable(&self) -> bool {
        &&& self.parent_view().indexable()
        &&& extent(self.start_view(), self.end_view()).area_spec() <= usize::MAX
    }

    proof fn lemma_indexable(&self) {
    }
}

impl<'a, P: PixelRead> PixelRead for PartialPixelBufferRef<'a, P> {
    open spec fn pixel_count(&self) -> nat {
        self.parent_view().pixel_count()
    }

    open spec fn pixel_at(&self, index: int) -> Self::Color {
        self.parent_view().pixel_at(index)
    }

    open spec fn locates(&self, coord: Coordinate) -> bool {
        &&& self.dimensions_spec().in_bounds_spec(coord)
        &&& match shifted(coord, self.start_view()) {
            Some(parent_coord) => self.parent_view().locates(parent_coord),
            None => false,
        }
    }

    open spec fn location(&self, coord: Coordinate) -> int {
        match shifted(coord, self.start_view()) {
            Some(parent_coord) => self.parent_view().location(parent_coord),
            None => 0,
        }
    }

    #[inline]
    fn get_pixel_unchecked(&self, index: usize) -> (r: Self::Color) {
        self.parent.get_pixel_unchecked(index)
    }

    /// The pixel of the parent at `coord + start`: the coordinate counts from
    /// the partial buffer's start corner, and is checked against the partial
    /// buffer's own dimensions and against the parent.
    fn pixel_ref(&self, coord: Coordinate) -> (r: RenderResult<PixelRef<'_, Self>>)
    {
        if !self.dimensions().in_bounds(coord) {
            return Err(RenderError::InvalidPixelCoordinate);
        }
        match shift(coord, self.start) {
            Some(parent_coord) => match self.parent.pixel_ref(parent_coord) {
                Ok(pixel) => Ok(PixelRef::new(pixel.position(), self)),
                Err(error) => Err(error),
            },
            None => Err(RenderError::InvalidPixelCoordinate),
        }
    }
}

impl<'a, P: PixelBuffer> PixelBuffer for PartialPixelBufferMut<'a, P> {
    type Color = <P as PixelBuffer>::Color;

    open spec fn indexable(&self) -> bool {
        &&& self.parent_view().indexable()
        &&& extent(self.start_view(), self.end_view()).area_spec() <= usize::MAX
    }

    proof fn lemma_indexable(&self) {
    }
}

impl<'a, P: PixelRead> PixelRead for PartialPixelBufferMut<'a, P> {
    open spec fn pixel_count(&self) -> nat {
        self.parent_view().pixel_count()
    }

    open spec fn pixel_at(&self, index: int) -> Self::Color {
        self.parent_view().pixel_at(index)
    }

    open spec fn locates(&self, coord: Coordinate) -> bool {
        &&& self.dimensions_spec().in_bounds_spec(coord)
        &&& match shifted(coord, self.start_view()) {
            Some(parent_coord) => self.parent_view().locates(parent_coord),
            None => false,
        }
    }

    open spec fn location(&self, coord: Coordinate) -> int {
        match shifted(coord, self.start_view()) {
            Some(parent_coord) => self.parent_view().location(parent_coord),
            None => 0,
        }
    }

    #[inline]
    fn get_pixel_unchecked(&self, index: usize) -> (r: Self::Color) {
        self.parent.get_pixel_unchecked(index)
    }

    /// The pixel of the parent at `coord + start`: the coordinate counts from
    /// the partial buffer's start corner, and is checked against the partial
    /// buffer's own dimensions and against the parent.
    fn pixel_ref(&self, coord: Coordinate) -> (r: RenderResult<PixelRef<'_, Self>>)
    {
        if !self.dimensions().in_bounds(coord) {
            return Err(RenderError::InvalidPixelCoordinate);
        }
        match shift(coord, self.start) {
            Some(parent_coord) => match self.parent.pixel_ref(parent_coord) {
                Ok(pixel) => Ok(PixelRef::new(pixel.position(), self)),
                Err(error) => Err(error),
            },
            None => Err(RenderError::InvalidPixelCoordinate),
        }
    }
}

impl<'a, P: PixelWrite> PixelWrite for PartialPixelBufferMut<'a, P> {
    #[inline]
    fn set_pixel_unchecked(&mut self, index: usize, color: Self::Color) {
        self.parent.set_pixel_unchecked(index, color);
    }

    /// The pixel of the parent at `coord + start`: the coordinate counts from
    /// the partial buffer's start corner, and is checked against the partial
    /// buffer's own dimensions and against the parent.
    fn pixel_mut(&mut self, coord: Coordinate) -> (r: RenderResult<PixelMut<'_, Self>>)
    {
        if !self.dimensions().in_bounds(coord) {
            return Err(RenderError::InvalidPixelCoordinate);
        }
        match shift(coord, self.start) {
            Some(parent_coord) => {
                let found = self.parent.pixel_mut(parent_coord);
                match found {
                    Ok(pixel) => {
                        let PixelMut(index, _) = pixel;
                        Ok(PixelMut::new(index, self))
                    },
                    Err(error) => Err(error),
                }
            },
            None => Err(RenderError::InvalidPixelCoordinate),
        }
    }
}

/// Whether a partial buffer from `start` to `end` over `parent` finds a pixel
/// at `coord`: the coordinate lies before `end - start` on both axes (x
/// against the width, y against the height), and the parent finds a pixel at
/// `coord + start`.
pub open spec fn partial_finds<P: PixelRead>(parent: P, start: Coordinate, end: Coordinate, coord: Coordinate) -> bool {
    &&& coord.x < end.x - start.x
    &&& coord.y < end.y - start.y
    &&& coord.x + start.x <= u32::MAX
    &&& coord.y + start.y <= u32::MAX
    &&& parent.locates(Coordinate { x: (coord.x + start.x) as u32, y: (coord.y + start.y) as u32 })
}

/// A partial buffer is the sub-image from `start` to `end` of its parent: it
/// finds a pixel at `coord` exactly when `coord` lies inside `end - start`
/// and the parent finds a pixel at `coord + start`, and the pixel it finds is
/// the parent's pixel there.
pub proof fn law_partial_ref_sub_image<'a, P: PixelRead>(partial: PartialPixelBufferRef<'a, P>, coord: Coordinate)
    ensures
        partial.locates(coord) <==> partial_finds(
            partial.parent_view(),
            partial.start_view(),
            partial.end_view(),
            coord,
        ),
        partial.locates(coord) ==> partial.location(coord) == partial.parent_view().location(
            Coordinate {
                x: (coord.x + partial.start_view().x) as u32,
                y: (coord.y + partial.start_view().y) as u32,
            },
        ),
{
}

/// A mutable partial buffer is the sub-image from `start` to `end` of its
/// parent, as `law_partial_ref_sub_image` states for a shared one.
pub proof fn law_partial_mut_sub_image<'a, P: PixelRead>(partial: PartialPixelBufferMut<'a, P>, coord: Coordinate)
    ensures
        partial.locates(coord) <==> partial_finds(
            partial.parent_view(),
            partial.start_view(),
            partial.end_view(),
            coord,
        ),
        partial.locates(coord) ==> partial.location(coord) == partial.parent_view().location(
            Coordinate {
                x: (coord.x + partial.start_view().x) as u32,
                y: (coord.y + partial.start_view().y) as u32,
            },
        ),
{
}

} // verus!
