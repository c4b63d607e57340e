//! Texture handling: sampling filters, edge behavior and the texture trait

use vstd::prelude::*;

use crate::pixels::PixelBuffer;

verus! {

/// How a texture is sampled between pixel centers
#[derive(Debug, Clone, Copy, PartialEq, Eq, Structural)]
pub enum Filter {
    Nearest,
    Bilinear,
}

impl Default for Filter {
    fn default() -> (r: Filter)
        ensures
            r == Filter::Nearest,
    {
        Filter::Nearest
    }
}

/// What sampling outside of a texture gives
#[derive(Debug, Clone, Copy)]
pub enum Edge<C> {
    /// Equivalent to `GL_CLAMP_TO_EDGE`
    Clamp,
    /// Equivalent to `GL_REPEAT`
    Wrap,
    /// Equivalent to `GL_CLAMP_TO_BORDER`
    Border(C),
}

impl<C> Default for Edge<C> {
    fn default() -> (r: Edge<C>)
        ensures
            r is Clamp,
    {
        Edge::Clamp
    }
}

/// A pixel buffer that can be sampled as a texture
pub trait Texture: PixelBuffer {

}

impl<T> Texture for T where T: PixelBuffer {

}

} // verus!
