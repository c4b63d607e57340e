//! Rendering errors

use vstd::prelude::*;

verus! {

/// Errors raised by pixel access
#[derive(Debug, Clone, Copy, PartialEq, Eq, Structural)]
pub enum RenderError {
    /// The coordinate names no pixel of the buffer
    InvalidPixelCoordinate,
}

/// Result of fallible rendering operations
pub type RenderResult<T> = Result<T, RenderError>;

} // verus!
