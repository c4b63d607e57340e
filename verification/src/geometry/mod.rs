//! Pixel coordinates, image dimensions and face winding

use vstd::prelude::*;

pub mod clip;

verus! {

/// Position of a pixel, counted in whole pixels from the origin corner.
#[derive(Debug, Clone, Copy, PartialEq, Eq, Hash, Structural)]
pub struct Coordinate {
    pub x: u32,
    pub y: u32,
}

/// Width and height of a two-dimensional buffer, in pixels.
#[derive(Debug, Clone, Copy, PartialEq, Eq, Hash, Structural)]
pub struct Dimensions {
    pub width: u32,
    pub height: u32,
}

impl Coordinate {
    /// Creates a coordinate from its two components
    #[inline(always)]
    pub fn new(x: u32, y: u32) -> (r: Coordinate)
        ensures
            r.x == x,
            r.y == y,
    {
        Coordinate { x, y }
    }

    /// Row-major index of the pixel in a buffer of the given dimensions
    pub open spec fn index_in(self, dimensions: Dimensions) -> int {
        self.x + self.y * dimensions.width
    }

    /// Converts the coordinate into the row-major index of its pixel in a buffer
    /// of the given dimensions.
    #[inline]
    pub fn into_index(self, dimensions: Dimensions) -> (r: usize)
        requires
            self.index_in(dimensions) <= usize::MAX,
        ensures
            r == self.index_in(dimensions),
            dimensions.in_bounds_spec(self) ==> r < dimensions.area_spec(),
    {
        proof {
            if dimensions.in_bounds_spec(self) {
                dimensions.lemma_index_below_area(self);
            }
        }
        self.x as usize + self.y as usize * dimensions.width as usize
    }

    /// The componentwise sum of two coordinates
    pub open spec fn plus(self, other: Coordinate) -> Coordinate {
        Coordinate { x: (self.x + other.x) as u32, y: (self.y + other.y) as u32 }
    }

    /// Adds two coordinates componentwise
    #[inline]
    pub fn add(self, other: Coordinate) -> (r: Coordinate)
        requires
            self.x + other.x <= u32::MAX,
            self.y + other.y <= u32::MAX,
        ensures
            r == self.plus(other),
    {
        Coordinate { x: self.x + other.x, y: self.y + other.y }
    }

    /// Whether `self` lies strictly below and left of `other` on both axes,
    /// so that the two span a non-empty rectangle.
    pub open spec fn precedes(self, other: Coordinate) -> bool {
        self.x < other.x && self.y < other.y
    }
}

impl Dimensions {
    /// Creates dimensions from a width and a height
    #[inline(always)]
    pub fn new(width: u32, height: u32) -> (r: Dimensions)
        ensures
            r.width == width,
            r.height == height,
    {
        Dimensions { width, height }
    }

    /// Number of pixels
    pub open spec fn area_spec(self) -> int {
        self.width * self.height
    }

    /// Whether the coordinate names a pixel inside these dimensions
    pub open spec fn in_bounds_spec(self, coordinate: Coordinate) -> bool {
        coordinate.x < self.width && coordinate.y < self.height
    }

    /// Number of pixels
    #[inline]
    pub fn area(&self) -> (r: usize)
        requires
            self.area_spec() <= usize::MAX,
        ensures
            r == self.area_spec(),
    {
        self.width as usize * self.height as usize
    }

    /// Checks if the coordinate names a pixel inside these dimensions
    #[inline]
    pub fn in_bounds(&self, coordinate: Coordinate) -> (r: bool)
        ensures
            r == self.in_bounds_spec(coordinate),
    {
        coordinate.x < self.width && coordinate.y < self.height
    }

    /// The row-major index of a pixel inside the dimensions lies below the area.
    pub proof fn lemma_index_below_area(self, coordinate: Coordinate)
        requires
            self.in_bounds_spec(coordinate),
        ensures
            0 <= coordinate.index_in(self) < self.area_spec(),
    {
        let x = coordinate.x as int;
        let y = coordinate.y as int;
        let w = self.width as int;
        let h = self.height as int;
        assert(0 <= x + y * w < w * h) by (nonlinear_arith)
            requires
                0 <= x < w,
                0 <= y < h,
        ;
    }
}

/// The row-major index of a pixel gives its coordinate back: the column is the
/// remainder and the row the quotient of the index by the width, so distinct
/// pixels have distinct indices.
pub proof fn law_index_identifies_coordinate(dimensions: Dimensions, coordinate: Coordinate)
    requires
        dimensions.in_bounds_spec(coordinate),
    ensures
        coordinate.index_in(dimensions) % (dimensions.width as int) == coordinate.x,
        coordinate.index_in(dimensions) / (dimensions.width as int) == coordinate.y,
{
    let w = dimensions.width as int;
    assert(coordinate.index_in(dimensions) == coordinate.y * w + coordinate.x) by (nonlinear_arith)
        requires
            coordinate.index_in(dimensions) == coordinate.x + coordinate.y * w,
    ;
    vstd::arithmetic::div_mod::lemma_fundamental_div_mod_converse(
        coordinate.index_in(dimensions),
        w,
        coordinate.y as int,
        coordinate.x as int,
    );
}

/// Types that have dimensions, such as pixel buffers
pub trait HasDimensions {
    /// The dimensions that `dimensions` returns
    spec fn dimensions_spec(&self) -> Dimensions;

    /// Width and height of the value, in pixels
    fn dimensions(&self) -> (r: Dimensions)
        ensures
            r == self.dimensions_spec(),
    ;
}

/// Defines face winding variations. These apply to screen-space vertices,
/// so imagine the vertices as they are viewed from the final image.
///
/// If all triangles of a mesh have the same face winding,
/// then triangles that are facing away from the screen can be skipped since they
/// will have the opposite winding order, since they are viewed from the back. This is known
/// as backface culling.
#[derive(Debug, Clone, Copy, PartialEq, Eq, Structural)]
pub enum FaceWinding {
    /// Clockwise face winding
    Clockwise,
    /// Counter-Clockwise face winding
    CounterClockwise,
}

} // verus!
