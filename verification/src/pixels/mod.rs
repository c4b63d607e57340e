//! Pixel accessor structures

use vstd::prelude::*;

use crate::error::{RenderError, RenderResult};
use crate::geometry::{Coordinate, HasDimensions};

pub mod accessor;
pub mod iterator;
pub mod partial;

pub use self::iterator::PixelBufferIter;
pub use self::partial::{PartialPixelBuffer, PartialPixelBufferRef, PartialPixelBufferMut};
pub use self::accessor::{PixelRef, PixelMut};

verus! {

/// Generic buffer type trait, which defines the `Color` type for any pixel in the buffer
pub trait PixelBuffer: Sized + HasDimensions {
    type Color: Copy;

    /// Whether every pixel of the buffer, and of any buffer it is a part of,
    /// can be numbered by a `usize` index.
    spec fn indexable(&self) -> bool;

    /// An indexable buffer numbers its pixels by `usize` indices.
    proof fn lemma_indexable(&self)
        requires
            self.indexable(),
        ensures
            self.dimensions_spec().area_spec() <= usize::MAX,
    ;

    /// Returns a partial 2D "slice" of a pixelbuffer with most of the same properties.
    ///
    /// Partial pixelbuffers are slower than direct usage of their parent pixelbuffer as every pixel access requires
    /// computing the offset to the parent pixelbuffer.
    fn partial_ref(&self, start: Coordinate, end: Coordinate) -> (r: RenderResult<
        PartialPixelBufferRef<'_, Self>,
    >)
        ensures
            r is Ok <==> start.precedes(end),
            r matches Ok(partial) ==> partial.parent_view() == *self && partial.start_view() == start
                && partial.end_view() == end,
    {
        if start.x < end.x && start.y < end.y {
            Ok(PartialPixelBufferRef::new(self, start, end))
        } else {
            Err(RenderError::InvalidPixelCoordinate)
        }
    }

    /// Returns a mutable partial 2D "slice" of a pixelbuffer with most of the same properties.
    ///
    /// Partial pixelbuffers are slower than direct usage of their parent pixelbuffer as every pixel access requires
    /// computing the offset to the parent pixelbuffer.
    fn partial_mut(&mut self, start: Coordinate, end: Coordinate) -> (r: RenderResult<
        PartialPixelBufferMut<'_, Self>,
    >)
        ensures
            r is Ok <==> start.precedes(end),
            r matches Ok(partial) ==> partial.parent_view() == *old(self) && partial.start_view()
                == start && partial.end_view() == end,
            r is Err ==> *final(self) == *old(self),
    {
        if start.x < end.x && start.y < end.y {
            Ok(PartialPixelBufferMut::new(self, start, end))
        } else {
            Err(RenderError::InvalidPixelCoordinate)
        }
    }
}

/// Defines methods for reading raw pixel values.
pub trait PixelRead: PixelBuffer {
    /// Number of pixels that indices can name
    spec fn pixel_count(&self) -> nat;

    /// The pixel at an index
    spec fn pixel_at(&self, index: int) -> Self::Color;

    /// Access a pixel at the given index without checking bounds.
    ///
    /// This is meant for internal use, do not attempt to use it directly. Please use
    /// `pixel_ref` or `pixel_iter` to access pixel values safely.
    fn get_pixel_unchecked(&self, index: usize) -> (r: Self::Color)
        requires
            index < self.pixel_count(),
        ensures
            r == self.pixel_at(index as int),
    ;

    /// Whether `pixel_ref` and `pixel_mut` find a pixel at the coordinate.
    ///
    /// For a whole buffer this is whether the coordinate lies inside its
    /// dimensions, as `pixel_ref_in_bounds` checks it.
    spec fn locates(&self, coord: Coordinate) -> bool;

    /// The index of the pixel that `pixel_ref` and `pixel_mut` find at the
    /// coordinate; for a whole buffer its row-major index.
    spec fn location(&self, coord: Coordinate) -> int;

    /// Get a "reference" to the pixel at the given coordinate.
    ///
    /// Throws `RenderError::InvalidPixelCoordinate` on invalid pixel coordinates.
    fn pixel_ref(&self, coord: Coordinate) -> (r: RenderResult<PixelRef<'_, Self>>)
        requires
            self.indexable(),
        ensures
            r is Ok <==> self.locates(coord),
            r matches Ok(pixel) ==> pixel.buffer() == *self && pixel.index() == self.location(
                coord,
            ) && 0 <= pixel.index() < self.pixel_count(),
    ;

    /// Efficient iterator for accessing all pixels in the buffer.
    ///
    /// However, certain framebuffers or pixelbuffers may provide their
    /// own iterators for even more efficient access.
    fn pixel_iter(&self) -> (r: PixelBufferIter<'_, Self>)
        requires
            self.indexable(),
        ensures
            r.buffer() == *self,
            r.position() == 0,
            r.max_len() == self.dimensions_spec().area_spec(),
    {
        proof {
            self.lemma_indexable();
        }
        PixelBufferIter::new(self, 0, self.dimensions().area())
    }
}

/// Two buffers of the same dimensions that hold the same pixels
pub open spec fn same_pixels<P: PixelRead>(a: P, b: P) -> bool {
    &&& a.dimensions_spec() == b.dimensions_spec()
    &&& a.indexable() == b.indexable()
    &&& a.pixel_count() == b.pixel_count()
    &&& forall|i: int| 0 <= i < a.pixel_count() ==> #[trigger] a.pixel_at(i) == b.pixel_at(i)
}

/// Defines methods for writing to raw pixel values.
pub trait PixelWrite: PixelRead {
    /// Set a pixel at the given index without checking bounds.
    ///
    /// This is meant for internal use, do not attempt to use it directly. Please use
    /// `pixel_mut` to access pixel values safely.
    fn set_pixel_unchecked(&mut self, index: usize, color: Self::Color)
        requires
            index < old(self).pixel_count(),
        ensures
            final(self).pixel_count() == old(self).pixel_count(),
            final(self).pixel_at(index as int) == color,
            forall|i: int|
                0 <= i < old(self).pixel_count() && i != index ==> #[trigger] final(self).pixel_at(i)
                    == old(self).pixel_at(i),
            final(self).dimensions_spec() == old(self).dimensions_spec(),
            final(self).indexable() == old(self).indexable(),
    ;

    /// Get a mutable "reference" to the pixel at the given coordinate.
    ///
    /// Throws `RenderError::InvalidPixelCoordinate` on invalid pixel coordinates.
    fn pixel_mut(&mut self, coord: Coordinate) -> (r: RenderResult<PixelMut<'_, Self>>)
        requires
            old(self).indexable(),
        ensures
            r is Ok <==> old(self).locates(coord),
            r matches Ok(pixel) ==> same_pixels(pixel.buffer(), *old(self)) && pixel.index()
                == old(self).location(coord) && 0 <= pixel.index() < old(self).pixel_count()
                && *final(pixel.1) == *final(self),
            r is Err ==> same_pixels(*final(self), *old(self)),
    ;
}

/// The pixel reference of a whole buffer: the pixel at the coordinate's
/// row-major index where the coordinate lies inside the buffer's dimensions,
/// else `RenderError::InvalidPixelCoordinate`.
pub fn pixel_ref_in_bounds<P: PixelBuffer>(buffer: &P, coord: Coordinate) -> (r: RenderResult<
    PixelRef<'_, P>,
>)
    requires
        buffer.indexable(),
    ensures
        r is Ok <==> buffer.dimensions_spec().in_bounds_spec(coord),
        r matches Ok(pixel) ==> pixel.buffer() == *buffer && pixel.index() == coord.index_in(
            buffer.dimensions_spec(),
        ),
{
    let dim = buffer.dimensions();
    proof {
        buffer.lemma_indexable();
    }
    if dim.in_bounds(coord) {
        proof {
            dim.lemma_index_below_area(coord);
        }
        Ok(PixelRef::new(coord.into_index(dim), buffer))
    } else {
        Err(RenderError::InvalidPixelCoordinate)
    }
}

/// The mutable pixel reference of a whole buffer: the pixel at the
/// coordinate's row-major index where the coordinate lies inside the buffer's
/// dimensions, else `RenderError::InvalidPixelCoordinate`, with the buffer left
/// as it was.
pub fn pixel_mut_in_bounds<P: PixelBuffer>(buffer: &mut P, coord: Coordinate) -> (r: RenderResult<
    PixelMut<'_, P>,
>)
    requires
        old(buffer).indexable(),
    ensures
        r is Ok <==> old(buffer).dimensions_spec().in_bounds_spec(coord),
        r matches Ok(pixel) ==> pixel.buffer() == *old(buffer) && pixel.index() == coord.index_in(
            old(buffer).dimensions_spec(),
        ) && *final(pixel.1) == *final(buffer),
        r is Err ==> *final(buffer) == *old(buffer),
{
    let dim = buffer.dimensions();
    proof {
        buffer.lemma_indexable();
    }
    if dim.in_bounds(coord) {
        proof {
            dim.lemma_index_below_area(coord);
        }
        Ok(PixelMut::new(coord.into_index(dim), buffer))
    } else {
        Err(RenderError::InvalidPixelCoordinate)
    }
}

} // verus!
