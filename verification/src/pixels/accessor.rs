//! Accessors for a single pixel of a pixel buffer

use vstd::prelude::*;

use vstd::std_specs::convert::FromSpecImpl;

use super::{PixelBuffer, PixelRead, PixelWrite};

verus! {

/// Immutable reference to a pixel.
///
/// Provides a read-only accessor for the pixel at the coordinates given at creation.
pub struct PixelRef<'a, P>(pub(crate) usize, pub(crate) &'a P);

impl<'a, P: PixelRead> Clone for PixelRef<'a, P> {
    fn clone(&self) -> (r: PixelRef<'a, P>)
        ensures
            r == *self,
    {
        PixelRef(self.0, self.1)
    }
}

impl<'a, P: PixelRead> Copy for PixelRef<'a, P> {

}

/// Mutable reference to a pixel
///
/// Provides a writable accessor for the pixel at the coordinates given at creation.
pub struct PixelMut<'a, P>(pub usize, pub &'a mut P);

impl<'a, P> PixelRef<'a, P> {
    /// Index of the pixel in its buffer
    pub closed spec fn index(self) -> int {
        self.0 as int
    }

    /// The buffer that holds the pixel
    pub closed spec fn buffer(self) -> P {
        *self.1
    }

    /// Index of the pixel in its buffer
    #[inline(always)]
    pub(crate) fn position(&self) -> (r: usize)
        ensures
            r == self.index(),
    {
        self.0
    }

    #[inline(always)]
    pub(crate) fn new(index: usize, framebuffer: &'a P) -> (r: PixelRef<'a, P>)
        ensures
            r.index() == index,
            r.buffer() == *framebuffer,
    {
        PixelRef(index, framebuffer)
    }
}

impl<'a, P: PixelRead> PixelRef<'a, P> {
    /// Get the pixel
    #[inline]
    pub fn get(&self) -> (r: <P as PixelBuffer>::Color)
        requires
            self.index() < self.buffer().pixel_count(),
        ensures
            r == self.buffer().pixel_at(self.index()),
    {
        self.1.get_pixel_unchecked(self.0)
    }
}

impl<'a, P> PixelMut<'a, P> {
    /// Index of the pixel in its buffer
    pub open spec fn index(self) -> int {
        self.0 as int
    }

    /// The buffer that holds the pixel, as it is now
    pub open spec fn buffer(self) -> P {
        *self.1
    }

    #[inline(always)]
    pub(crate) fn new(index: usize, framebuffer: &'a mut P) -> (r: PixelMut<'a, P>)
        ensures
            r.index() == index,
            r.buffer() == *old(framebuffer),
            *final(r.1) == *final(framebuffer),
    {
        PixelMut(index, framebuffer)
    }
}

impl<'a, P: PixelWrite> PixelMut<'a, P> {
    /// Get the pixel
    #[inline]
    pub fn get(&self) -> (r: <P as PixelBuffer>::Color)
        requires
            self.index() < self.buffer().pixel_count(),
        ensures
            r == self.buffer().pixel_at(self.index()),
    {
        self.1.get_pixel_unchecked(self.0)
    }

    /// Set the pixel
    #[inline]
    pub fn set(&mut self, color: <P as PixelBuffer>::Color)
        requires
            old(self).index() < old(self).buffer().pixel_count(),
        ensures
            final(self).index() == old(self).index(),
            final(self).buffer().pixel_count() == old(self).buffer().pixel_count(),
            final(self).buffer().pixel_at(old(self).index()) == color,
            forall|i: int|
                0 <= i < old(self).buffer().pixel_count() && i != old(self).index()
                    ==> #[trigger] final(self).buffer().pixel_at(i) == old(self).buffer().pixel_at(i),
            final(self).buffer().dimensions_spec() == old(self).buffer().dimensions_spec(),
            *final(final(self).1) == *final(old(self).1),
    {
        self.1.set_pixel_unchecked(self.0, color)
    }

    /// Downcast the current `PixelMut` into an immutable `PixelRef`.
    #[inline]
    pub fn into_ref(self) -> (r: PixelRef<'a, P>)
        ensures
            r.index() == self.index(),
            r.buffer() == self.buffer(),
    {
        PixelRef(self.0, self.1)
    }
}

impl<'a, P: PixelWrite> From<PixelMut<'a, P>> for PixelRef<'a, P> {
    /// Downcast a `PixelMut` into an immutable `PixelRef`, as `into_ref` does.
    fn from(pixel: PixelMut<'a, P>) -> (r: PixelRef<'a, P>)
        ensures
            r.index() == pixel.index(),
            r.buffer() == pixel.buffer(),
    {
        pixel.into_ref()
    }
}

impl<'a, P: PixelWrite> FromSpecImpl<PixelMut<'a, P>> for PixelRef<'a, P> {
    open spec fn obeys_from_spec() -> bool {
        true
    }

    closed spec fn from_spec(v: PixelMut<'a, P>) -> PixelRef<'a, P> {
        PixelRef(v.0, &*v.1)
    }
}

} // verus!
