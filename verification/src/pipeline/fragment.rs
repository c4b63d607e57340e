//! Fragment stage: the fragment type and the tiling of the render target

use vstd::prelude::*;

use crate::geometry::{Coordinate, Dimensions, FaceWinding};
use crate::stencil::{Stencil, StencilOp, StencilTest};

verus! {

/// Default width and height, in pixels, of the tiles that the fragment stage renders one by one.
pub const DEFAULT_TILE_EDGE: u32 = 128;

/// Default size of the tiles that the fragment stage renders one by one.
pub fn default_tile_size() -> (r: Dimensions)
    ensures
        r.width == DEFAULT_TILE_EDGE,
        r.height == DEFAULT_TILE_EDGE,
{
    Dimensions { width: DEFAULT_TILE_EDGE, height: DEFAULT_TILE_EDGE }
}

/// Fragment returned by the fragment shader, which can either be a color
/// value for the pixel or a discard flag to skip that fragment altogether.
#[derive(Debug, Clone, Copy)]
pub enum Fragment<C> {
    /// Discard the fragment altogether, as if it was never there.
    Discard,
    /// Desired color for the pixel
    Color(C),
}

/// The smaller of two numbers
pub open spec fn min_int(a: int, b: int) -> int {
    if a < b {
        a
    } else {
        b
    }
}

/// How many steps of length `step` starting at `0, step, 2 * step, ...` begin
/// below `extent`.
pub open spec fn segment_count(extent: int, step: int) -> int {
    (extent + step - 1) / step
}

/// The tile in row `row` and column `col` of the tiling of `dimensions` with
/// tiles of `tile_size`: the corners of the half-open rectangle it spans, where
/// the far corner is cut off at the target's width and height.
pub open spec fn tile_at(dimensions: Dimensions, tile_size: Dimensions, row: int, col: int) -> (
    Coordinate,
    Coordinate,
) {
    let xmax = dimensions.width as int;
    let ymax = dimensions.height as int;
    (
        Coordinate { x: (col * tile_size.width) as u32, y: (row * tile_size.height) as u32 },
        Coordinate {
            x: min_int((col + 1) * tile_size.width, xmax) as u32,
            y: min_int((row + 1) * tile_size.height, ymax) as u32,
        },
    )
}

/// Number of tile columns of the tiling
pub open spec fn tile_columns(dimensions: Dimensions, tile_size: Dimensions) -> int {
    segment_count(dimensions.width as int, tile_size.width as int)
}

/// Number of tile rows of the tiling
pub open spec fn tile_rows(dimensions: Dimensions, tile_size: Dimensions) -> int {
    segment_count(dimensions.height as int, tile_size.height as int)
}

/// A step begins below `extent` exactly when its number is below the count of steps.
pub proof fn lemma_segment_count(extent: int, step: int, i: int)
    requires
        extent >= 0,
        step >= 1,
        i >= 0,
    ensures
        segment_count(extent, step) >= 0,
        (i * step < extent) == (i < segment_count(extent, step)),
        segment_count(extent, step) * step >= extent,
{
    let q = segment_count(extent, step);
    vstd::arithmetic::div_mod::lemma_fundamental_div_mod(extent + step - 1, step);
    let rem = (extent + step - 1) % step;
    assert(0 <= rem < step) by {
        vstd::arithmetic::div_mod::lemma_mod_bound(extent + step - 1, step);
    }
    assert(extent + step - 1 == step * q + rem);
    assert(q >= 0) by (nonlinear_arith)
        requires
            extent + step - 1 == step * q + rem,
            0 <= rem < step,
            extent >= 0,
            step >= 1,
    ;
    assert((i * step < extent) == (i < q)) by (nonlinear_arith)
        requires
            extent + step - 1 == step * q + rem,
            0 <= rem < step,
            extent >= 0,
            step >= 1,
            i >= 0,
            q >= 0,
    ;
    assert(q * step >= extent) by (nonlinear_arith)
        requires
            extent + step - 1 == step * q + rem,
            0 <= rem < step,
    ;
}

/// Row-major positions of earlier rows lie below the start of a later row.
proof fn lemma_row_major(a: int, b: int, row: int, cols: int)
    requires
        0 <= a < row,
        0 <= b < cols,
    ensures
        0 <= a * cols + b < row * cols,
        a * cols + b < (a + 1) * cols,
{
    assert(0 <= a * cols + b < row * cols) by (nonlinear_arith)
        requires
            0 <= a < row,
            0 <= b < cols,
    ;
    assert(a * cols + b < (a + 1) * cols) by (nonlinear_arith)
        requires
            0 <= b < cols,
    ;
}

/// Splits the render target into the tiles that the fragment stage renders
/// one by one, in row-major order.
///
/// Tiles are half-open rectangles, each at most `tile_size` large, that
/// together cover the whole target, one pixel in exactly one tile.
pub fn tiles(dimensions: Dimensions, tile_size: Dimensions) -> (r: Vec<(Coordinate, Coordinate)>)
    requires
        tile_size.width >= 1,
        tile_size.height >= 1,
    ensures
        r@.len() == tile_rows(dimensions, tile_size) * tile_columns(dimensions, tile_size),
        forall|row: int, col: int|
            0 <= row < tile_rows(dimensions, tile_size) && 0 <= col < tile_columns(
                dimensions,
                tile_size,
            ) ==> r@[row * tile_columns(dimensions, tile_size) + col] == #[trigger] tile_at(
                dimensions,
                tile_size,
                row,
                col,
            ),
{
    let mut tiles: Vec<(Coordinate, Coordinate)> = Vec::new();

    let xmax: u32 = dimensions.width;
    let ymax: u32 = dimensions.height;
    let ghost cols = tile_columns(dimensions, tile_size);
    let ghost rows = tile_rows(dimensions, tile_size);
    let ghost tw = tile_size.width as int;
    let ghost th = tile_size.height as int;

    proof {
        lemma_segment_count(xmax as int, tw, 0);
        lemma_segment_count(ymax as int, th, 0);
    }

    let mut y: u32 = 0;
    let ghost mut row: int = 0;

    while y < ymax
        invariant
            xmax == dimensions.width,
            ymax == dimensions.height,
            cols == tile_columns(dimensions, tile_size),
            rows == tile_rows(dimensions, tile_size),
            tw == tile_size.width,
            th == tile_size.height,
            tw >= 1,
            th >= 1,
            cols >= 0,
            rows >= 0,
            0 <= row <= rows,
            y == min_int(row * th, ymax as int),
            tiles@.len() == row * cols,
            forall|a: int, b: int|
                0 <= a < row && 0 <= b < cols ==> tiles@[a * cols + b] == #[trigger] tile_at(
                    dimensions,
                    tile_size,
                    a,
                    b,
                ),
        decreases ymax - y,
    {
        proof {
            lemma_segment_count(ymax as int, th, row);
            lemma_segment_count(ymax as int, th, row + 1);
        }
        assert(y == row * th);
        let next_y: u32 = if (y as u64) + (tile_size.height as u64) < ymax as u64 {
            y + tile_size.height
        } else {
            ymax
        };
        assert(row * th + th == (row + 1) * th) by (nonlinear_arith);

        let mut x: u32 = 0;
        let ghost mut col: int = 0;

        while x < xmax
            invariant
                xmax == dimensions.width,
                ymax == dimensions.height,
                cols == tile_columns(dimensions, tile_size),
                rows == tile_rows(dimensions, tile_size),
                tw == tile_size.width,
                th == tile_size.height,
                tw >= 1,
                th >= 1,
                cols >= 0,
                0 <= row < rows,
                y == row * th,
                next_y == min_int((row + 1) * th, ymax as int),
                0 <= col <= cols,
                x == min_int(col * tw, xmax as int),
                tiles@.len() == row * cols + col,
                forall|a: int, b: int|
                    0 <= a < row && 0 <= b < cols ==> tiles@[a * cols + b] == #[trigger] tile_at(
                        dimensions,
                        tile_size,
                        a,
                        b,
                    ),
                forall|b: int|
                    0 <= b < col ==> tiles@[row * cols + b] == #[trigger] tile_at(
                        dimensions,
                        tile_size,
                        row,
                        b,
                    ),
            decreases xmax - x,
        {
            proof {
                lemma_segment_count(xmax as int, tw, col);
                lemma_segment_count(xmax as int, tw, col + 1);
            }
            assert(x == col * tw);
            assert(col * tw + tw == (col + 1) * tw) by (nonlinear_arith);
            let next_x: u32 = if (x as u64) + (tile_size.width as u64) < xmax as u64 {
                x + tile_size.width
            } else {
                xmax
            };
            let ghost before = tiles@;
            tiles.push((Coordinate::new(x, y), Coordinate::new(next_x, next_y)));
            proof {
                assert forall|a: int, b: int|
                    0 <= a < row && 0 <= b < cols implies tiles@[a * cols + b]
                    == #[trigger] tile_at(dimensions, tile_size, a, b) by {
                    lemma_row_major(a, b, row, cols);
                    assert(row * cols <= row * cols + col);
                    assert(tiles@[a * cols + b] == before[a * cols + b]);
                }
                assert(tiles@[row * cols + col] == tile_at(dimensions, tile_size, row, col));
            }
            x = next_x;
            proof {
                col = col + 1;
            }
        }
        proof {
            lemma_segment_count(xmax as int, tw, col);
            assert(col == cols);
            assert forall|a: int, b: int|
                0 <= a < row + 1 && 0 <= b < cols implies tiles@[a * cols + b]
                == #[trigger] tile_at(dimensions, tile_size, a, b) by {
                if a == row {
                } else {
                }
            }
            assert(row * cols + cols == (row + 1) * cols) by (nonlinear_arith);
        }
        y = next_y;
        proof {
            row = row + 1;
        }
    }
    proof {
        lemma_segment_count(ymax as int, th, row);
    }
    tiles
}

/// Whether the pixel `(x, y)` lies in the half-open rectangle of the tile.
pub open spec fn tile_contains(tile: (Coordinate, Coordinate), x: int, y: int) -> bool {
    &&& tile.0.x <= x < tile.1.x
    &&& tile.0.y <= y < tile.1.y
}

/// The number `v` lies in step `i` of length `step` exactly when `i` is `v / step`.
proof fn lemma_in_step(v: int, step: int, i: int)
    requires
        v >= 0,
        step >= 1,
        i >= 0,
    ensures
        (i * step <= v < (i + 1) * step) == (i == v / step),
        (v / step) * step <= v < (v / step + 1) * step,
        v / step >= 0,
{
    vstd::arithmetic::div_mod::lemma_fundamental_div_mod(v, step);
    vstd::arithmetic::div_mod::lemma_mod_bound(v, step);
    let q = v / step;
    assert(q * step <= v < (q + 1) * step) by (nonlinear_arith)
        requires
            v == step * q + v % step,
            0 <= v % step < step,
    ;
    assert(q >= 0) by (nonlinear_arith)
        requires
            q * step <= v < (q + 1) * step,
            v >= 0,
            step >= 1,
    ;
    assert((i + 1) * step == i * step + step) by (nonlinear_arith);
    if i * step <= v < (i + 1) * step {
        vstd::arithmetic::div_mod::lemma_fundamental_div_mod_converse(v, step, i, v - i * step);
    }
}

/// Every tile is a non-empty rectangle that lies inside the target.
pub proof fn law_tiles_inside(dimensions: Dimensions, tile_size: Dimensions, row: int, col: int)
    requires
        tile_size.width >= 1,
        tile_size.height >= 1,
        0 <= row < tile_rows(dimensions, tile_size),
        0 <= col < tile_columns(dimensions, tile_size),
    ensures
        tile_at(dimensions, tile_size, row, col).0.x < tile_at(dimensions, tile_size, row, col).1.x
            <= dimensions.width,
        tile_at(dimensions, tile_size, row, col).0.y < tile_at(dimensions, tile_size, row, col).1.y
            <= dimensions.height,
{
    let tw = tile_size.width as int;
    let th = tile_size.height as int;
    lemma_segment_count(dimensions.width as int, tw, col);
    lemma_segment_count(dimensions.height as int, th, row);
    assert(col * tw < (col + 1) * tw) by (nonlinear_arith)
        requires
            tw >= 1,
    ;
    assert(row * th < (row + 1) * th) by (nonlinear_arith)
        requires
            th >= 1,
    ;
    assert(col * tw >= 0) by (nonlinear_arith)
        requires
            tw >= 1,
            col >= 0,
    ;
    assert(row * th >= 0) by (nonlinear_arith)
        requires
            th >= 1,
            row >= 0,
    ;
}

/// The tiles partition the target: every pixel `(x, y)` of the target lies
/// in exactly one tile, the one in row `y / tile height` and column
/// `x / tile width`.
pub proof fn law_tiles_partition(dimensions: Dimensions, tile_size: Dimensions, x: int, y: int)
    requires
        tile_size.width >= 1,
        tile_size.height >= 1,
        0 <= x < dimensions.width,
        0 <= y < dimensions.height,
    ensures
        0 <= y / (tile_size.height as int) < tile_rows(dimensions, tile_size),
        0 <= x / (tile_size.width as int) < tile_columns(dimensions, tile_size),
        tile_contains(
            tile_at(
                dimensions,
                tile_size,
                y / (tile_size.height as int),
                x / (tile_size.width as int),
            ),
            x,
            y,
        ),
        forall|row: int, col: int|
            0 <= row < tile_rows(dimensions, tile_size) && 0 <= col < tile_columns(
                dimensions,
                tile_size,
            ) && tile_contains(#[trigger] tile_at(dimensions, tile_size, row, col), x, y) ==> row
                == y / (tile_size.height as int) && col == x / (tile_size.width as int),
{
    let tw = tile_size.width as int;
    let th = tile_size.height as int;
    let xmax = dimensions.width as int;
    let ymax = dimensions.height as int;
    let col = x / tw;
    let row = y / th;
    lemma_in_step(x, tw, col);
    lemma_in_step(y, th, row);
    lemma_segment_count(xmax, tw, col);
    lemma_segment_count(ymax, th, row);
    assert forall|r: int, c: int|
        0 <= r < tile_rows(dimensions, tile_size) && 0 <= c < tile_columns(dimensions, tile_size)
            && tile_contains(#[trigger] tile_at(dimensions, tile_size, r, c), x, y) implies r
        == row && c == col by {
        lemma_segment_count(xmax, tw, c);
        lemma_segment_count(ymax, th, r);
        assert(c * tw >= 0) by (nonlinear_arith)
            requires
                tw >= 1,
                c >= 0,
        ;
        assert(r * th >= 0) by (nonlinear_arith)
            requires
                th >= 1,
                r >= 0,
        ;
        lemma_in_step(x, tw, c);
        lemma_in_step(y, th, r);
    }
}

/// The stencil stage of one pixel: the test of the configured value `value`
/// against the pixel's stored value `present`; where it passes, the value the
/// operation makes of the stored one, which is stored back.
pub fn stencil_stage<T: Stencil + Copy>(test: StencilTest, op: StencilOp<T>, present: T, value: T) -> (r:
    Option<T>)
    ensures
        r is Some <==> test.passes(present.value(), value.value()),
        r matches Some(s) ==> s.value() == op.outcome(present.value()),
{
    if test.test(present, value) {
        Some(op.op(present))
    } else {
        None
    }
}

/// Whether a pixel is shaded: its stencil test passed, the primitive covers
/// it, it lies in front of the viewer (`z < 0`) and in front of what the
/// depth plane holds there.
pub fn shade_decision(stencil_passed: bool, covered: bool, z_negative: bool, in_front: bool) -> (r:
    bool)
    ensures
        r == (stencil_passed && covered && z_negative && in_front),
{
    stencil_passed && covered && z_negative && in_front
}

/// The winding of a screen-space triangle whose signed area is negative
/// (`area_negative`) or not
pub open spec fn winding_of(area_negative: bool) -> FaceWinding {
    if area_negative {
        FaceWinding::Clockwise
    } else {
        FaceWinding::CounterClockwise
    }
}

/// Whether a triangle is culled: faces of the culled winding are skipped.
pub fn culled(cull_faces: Option<FaceWinding>, area_negative: bool) -> (r: bool)
    ensures
        r == (cull_faces == Some(winding_of(area_negative))),
{
    match cull_faces {
        Some(winding) => {
            let own = if area_negative {
                FaceWinding::Clockwise
            } else {
                FaceWinding::CounterClockwise
            };
            match (winding, own) {
                (FaceWinding::Clockwise, FaceWinding::Clockwise) => true,
                (FaceWinding::CounterClockwise, FaceWinding::CounterClockwise) => true,
                _ => false,
            }
        },
        None => false,
    }
}

/// The first column of the box from `lo` to `hi` (both inclusive) cut to the
/// half-open tile
pub open spec fn box_start_x(lo: Coordinate, tile: (Coordinate, Coordinate)) -> int {
    if lo.x < tile.0.x {
        tile.0.x as int
    } else {
        lo.x as int
    }
}

/// The first row of the box cut to the tile
pub open spec fn box_start_y(lo: Coordinate, tile: (Coordinate, Coordinate)) -> int {
    if lo.y < tile.0.y {
        tile.0.y as int
    } else {
        lo.y as int
    }
}

/// The number of columns of the box cut to the tile
pub open spec fn box_columns(lo: Coordinate, hi: Coordinate, tile: (Coordinate, Coordinate)) -> int {
    let end = min_int(hi.x + 1, tile.1.x as int);
    if end > box_start_x(lo, tile) {
        end - box_start_x(lo, tile)
    } else {
        0
    }
}

/// The number of rows of the box cut to the tile
pub open spec fn box_rows(lo: Coordinate, hi: Coordinate, tile: (Coordinate, Coordinate)) -> int {
    let end = min_int(hi.y + 1, tile.1.y as int);
    if end > box_start_y(lo, tile) {
        end - box_start_y(lo, tile)
    } else {
        0
    }
}

/// The `k`-th pixel, in row-major order, of the box cut to the tile
pub open spec fn box_pixel(lo: Coordinate, hi: Coordinate, tile: (Coordinate, Coordinate), k: int) -> Coordinate {
    let cols = box_columns(lo, hi, tile);
    Coordinate {
        x: (box_start_x(lo, tile) + k % cols) as u32,
        y: (box_start_y(lo, tile) + k / cols) as u32,
    }
}

/// The pixels of a primitive's bounding box, from `lo` to `hi` inclusive, that
/// lie in the half-open tile, as row-major indices into the target, row by
/// row.
pub fn box_in_tile(lo: Coordinate, hi: Coordinate, tile: (Coordinate, Coordinate), dimensions: Dimensions) -> (r:
    Vec<usize>)
    requires
        tile.0.x <= tile.1.x <= dimensions.width,
        tile.0.y <= tile.1.y <= dimensions.height,
        dimensions.area_spec() <= usize::MAX,
    ensures
        r@.len() == box_rows(lo, hi, tile) * box_columns(lo, hi, tile),
        forall|k: int|
            0 <= k < r@.len() ==> {
                &&& #[trigger] r@[k] == box_pixel(lo, hi, tile, k).index_in(dimensions)
                &&& dimensions.in_bounds_spec(box_pixel(lo, hi, tile, k))
                &&& r@[k] < dimensions.area_spec()
            },
{
    let x0: u32 = if lo.x < tile.0.x {
        tile.0.x
    } else {
        lo.x
    };
    let y0: u32 = if lo.y < tile.0.y {
        tile.0.y
    } else {
        lo.y
    };
    let x1: u32 = if (hi.x as u64) + 1 < tile.1.x as u64 {
        hi.x + 1
    } else {
        tile.1.x
    };
    let y1: u32 = if (hi.y as u64) + 1 < tile.1.y as u64 {
        hi.y + 1
    } else {
        tile.1.y
    };
    let ghost cols = box_columns(lo, hi, tile);
    let ghost rows = box_rows(lo, hi, tile);
    let mut out: Vec<usize> = Vec::new();
    if x0 >= x1 || y0 >= y1 {
        assert(cols == 0 || rows == 0);
        assert(rows * cols == 0) by (nonlinear_arith)
            requires
                cols == 0 || rows == 0,
        ;
        return out;
    }
    assert(cols == x1 - x0 && rows == y1 - y0);
    let mut y: u32 = y0;
    while y < y1
        invariant
            x0 < x1 <= dimensions.width,
            y0 <= y <= y1 <= dimensions.height,
            cols == x1 - x0,
            rows == y1 - y0,
            x0 == box_start_x(lo, tile),
            y0 == box_start_y(lo, tile),
            cols == box_columns(lo, hi, tile),
            dimensions.area_spec() <= usize::MAX,
            out@.len() == (y - y0) * cols,
            forall|k: int|
                0 <= k < out@.len() ==> {
                    &&& #[trigger] out@[k] == box_pixel(lo, hi, tile, k).index_in(dimensions)
                    &&& dimensions.in_bounds_spec(box_pixel(lo, hi, tile, k))
                    &&& out@[k] < dimensions.area_spec()
                },
        decreases y1 - y,
    {
        let mut x: u32 = x0;
        while x < x1
            invariant
                x0 <= x <= x1 <= dimensions.width,
                y0 <= y < y1 <= dimensions.height,
                cols == x1 - x0,
                x0 == box_start_x(lo, tile),
                y0 == box_start_y(lo, tile),
                cols == box_columns(lo, hi, tile),
                dimensions.area_spec() <= usize::MAX,
                out@.len() == (y - y0) * cols + (x - x0),
                forall|k: int|
                    0 <= k < out@.len() ==> {
                        &&& #[trigger] out@[k] == box_pixel(lo, hi, tile, k).index_in(dimensions)
                        &&& dimensions.in_bounds_spec(box_pixel(lo, hi, tile, k))
                        &&& out@[k] < dimensions.area_spec()
                    },
            decreases x1 - x,
        {
            let pixel = Coordinate::new(x, y);
            proof {
                dimensions.lemma_index_below_area(pixel);
                let k = (y - y0) * cols + (x - x0);
                assert(k % cols == x - x0 && k / cols == y - y0) by {
                    vstd::arithmetic::div_mod::lemma_fundamental_div_mod_converse(
                        k,
                        cols,
                        y - y0,
                        x - x0,
                    );
                }
            }
            let ghost before = out@;
            out.push(pixel.into_index(dimensions));
            proof {
                assert forall|k: int| 0 <= k < out@.len() implies {
                    &&& #[trigger] out@[k] == box_pixel(lo, hi, tile, k).index_in(dimensions)
                    &&& dimensions.in_bounds_spec(box_pixel(lo, hi, tile, k))
                    &&& out@[k] < dimensions.area_spec()
                } by {
                    if k < before.len() {
                        assert(out@[k] == before[k]);
                    }
                }
            }
            x += 1;
        }
        assert((y - y0) * cols + cols == (y + 1 - y0) * cols) by (nonlinear_arith);
        y += 1;
    }
    assert(rows * cols == (y1 - y0) * cols);
    out
}

/// The index of the pixel a line plots at `(x, y)`, where that pixel lies
/// inside the target.
pub fn plotted_index(x: i64, y: i64, dimensions: Dimensions) -> (r: Option<usize>)
    requires
        dimensions.area_spec() <= usize::MAX,
    ensures
        r is Some <==> 0 <= x < dimensions.width && 0 <= y < dimensions.height,
        r matches Some(i) ==> i == x + y * dimensions.width && i < dimensions.area_spec(),
{
    if 0 <= x && x < dimensions.width as i64 && 0 <= y && y < dimensions.height as i64 {
        let pixel = Coordinate::new(x as u32, y as u32);
        proof {
            dimensions.lemma_index_below_area(pixel);
        }
        Some(pixel.into_index(dimensions))
    } else {
        None
    }
}

/// The depth test: a fragment at `fragment_depth` is in front of what the
/// depth plane holds at the pixel where it is no smaller. Depths are stored as
/// keys that order as the depths do.
pub fn depth_test(depth: &Vec<u32>, index: usize, fragment_depth: u32) -> (r: bool)
    requires
        index < depth@.len(),
    ensures
        r == (fragment_depth >= depth@[index as int]),
{
    fragment_depth >= depth[index]
}

/// Whether a pixel is shaded: the stencil test of the configured value
/// against the stored one passes, the primitive covers the pixel, it lies in
/// front of the viewer (`z < 0`) and in front of what the depth plane holds.
/// Nothing is written: the stencil operation is applied when the shaded
/// fragment is stored (`store_fragment`).
pub fn fragment_gate<T: Stencil + Copy>(
    stencil: &Vec<T>,
    depth: &Vec<u32>,
    index: usize,
    test: StencilTest,
    value: T,
    covered: bool,
    z_negative: bool,
    fragment_depth: u32,
) -> (r: bool)
    requires
        index < stencil@.len(),
        index < depth@.len(),
    ensures
        r == (test.passes(stencil@[index as int].value(), value.value()) && covered && z_negative
            && fragment_depth >= depth@[index as int]),
{
    let passed = test.test(stencil[index], value);
    let in_front = depth_test(depth, index, fragment_depth);
    shade_decision(passed, covered, z_negative, in_front)
}

/// The color plane after a fragment is stored at `index`: a discarded
/// fragment leaves it as it was, as if the fragment was never there.
pub open spec fn stored_colors<C>(color: Seq<C>, index: int, fragment: Fragment<C>) -> Seq<C> {
    match fragment {
        Fragment::Discard => color,
        Fragment::Color(c) => color.update(index, c),
    }
}

/// The depth plane after a fragment at `fragment_depth` is stored at `index`:
/// a discarded fragment leaves it as it was.
pub open spec fn stored_depths<C>(depth: Seq<u32>, index: int, fragment: Fragment<C>, fragment_depth: u32) -> Seq<u32> {
    match fragment {
        Fragment::Discard => depth,
        Fragment::Color(_) => depth.update(index, fragment_depth),
    }
}

/// Whether the stencil plane after a fragment is stored at `index` is as it
/// should be: a discarded fragment leaves it as it was; a colored one leaves
/// at `index` the value the stencil operation makes of the stored one, and
/// every other value as it was.
pub open spec fn stored_stencil<T: Stencil + Copy, C>(
    before: Seq<T>,
    after: Seq<T>,
    index: int,
    fragment: Fragment<C>,
    op: StencilOp<T>,
) -> bool {
    match fragment {
        Fragment::Discard => after == before,
        Fragment::Color(_) => {
            &&& after == before.update(index, after[index])
            &&& after[index].value() == op.outcome(before[index].value())
        },
    }
}

/// Stores a shaded fragment, one that passed `fragment_gate`: a colored
/// fragment (its color already blended over the stored one) replaces the
/// pixel's color and depth, and the stencil operation is applied to the
/// pixel's stencil value; a discarded fragment leaves all three planes
/// untouched.
pub fn store_fragment<C: Copy, T: Stencil + Copy>(
    color: &mut Vec<C>,
    depth: &mut Vec<u32>,
    stencil: &mut Vec<T>,
    index: usize,
    fragment: Fragment<C>,
    fragment_depth: u32,
    op: StencilOp<T>,
)
    requires
        index < old(color)@.len(),
        index < old(depth)@.len(),
        index < old(stencil)@.len(),
        fragment_depth >= old(depth)@[index as int],
    ensures
        final(color)@ == stored_colors(old(color)@, index as int, fragment),
        final(depth)@ == stored_depths(old(depth)@, index as int, fragment, fragment_depth),
        stored_stencil(old(stencil)@, final(stencil)@, index as int, fragment, op),
{
    match fragment {
        Fragment::Discard => {},
        Fragment::Color(c) => {
            color.set(index, c);
            depth.set(index, fragment_depth);
            let next = op.op(stencil[index]);
            stencil.set(index, next);
        },
    }
}

/// The depth plane only moves forward: storing a fragment that passed the
/// depth test leaves every stored depth at least where it was, and a colored
/// fragment leaves its own depth at its pixel.
pub proof fn law_depth_monotone<C>(depth: Seq<u32>, index: int, fragment: Fragment<C>, fragment_depth: u32)
    requires
        0 <= index < depth.len(),
        fragment_depth >= depth[index],
    ensures
        stored_depths(depth, index, fragment, fragment_depth).len() == depth.len(),
        forall|i: int|
            0 <= i < depth.len() ==> #[trigger] stored_depths(depth, index, fragment, fragment_depth)[i]
                >= depth[i],
        fragment is Color ==> stored_depths(depth, index, fragment, fragment_depth)[index]
            == fragment_depth,
{
}

/// A discarded fragment is as if it was never there: the color, depth and
/// stencil planes all stay as they were.
pub proof fn law_discard_untouched<C, T: Stencil + Copy>(
    color: Seq<C>,
    depth: Seq<u32>,
    stencil_before: Seq<T>,
    stencil_after: Seq<T>,
    index: int,
    fragment_depth: u32,
    op: StencilOp<T>,
)
    requires
        stored_stencil(stencil_before, stencil_after, index, Fragment::<C>::Discard, op),
    ensures
        stored_colors(color, index, Fragment::<C>::Discard) == color,
        stored_depths(depth, index, Fragment::<C>::Discard, fragment_depth) == depth,
        stencil_after == stencil_before,
{
}

/// One store of a run of stored fragments: its pixel, whether the fragment
/// has a color (otherwise it was discarded), and its depth.
pub type FragmentStore = (int, bool, u32);

/// The depth plane after a run of stores, one after the other
pub open spec fn depths_after_run(depth: Seq<u32>, run: Seq<FragmentStore>) -> Seq<u32>
    decreases run.len(),
{
    if run.len() == 0 {
        depth
    } else {
        let (index, colored, d) = run[0];
        let next = if colored {
            depth.update(index, d)
        } else {
            depth
        };
        depths_after_run(next, run.drop_first())
    }
}

/// Every store of the run passed the depth test when it was made: its pixel
/// lies in the plane and its depth is no smaller than the one stored there
/// at that moment.
pub open spec fn run_passes_depth_test(depth: Seq<u32>, run: Seq<FragmentStore>) -> bool
    decreases run.len(),
{
    if run.len() == 0 {
        true
    } else {
        let (index, colored, d) = run[0];
        let next = if colored {
            depth.update(index, d)
        } else {
            depth
        };
        &&& 0 <= index < depth.len()
        &&& d >= depth[index]
        &&& run_passes_depth_test(next, run.drop_first())
    }
}

/// Over a whole run of the fragment stage the depth plane only moves
/// forward: where every store passed the depth test when it was made, every
/// depth at the end is at least the depth at the start.
pub proof fn law_depth_monotone_run(depth: Seq<u32>, run: Seq<FragmentStore>)
    requires
        run_passes_depth_test(depth, run),
    ensures
        depths_after_run(depth, run).len() == depth.len(),
        forall|i: int| 0 <= i < depth.len() ==> #[trigger] depths_after_run(depth, run)[i] >= depth[i],
    decreases run.len(),
{
    if run.len() > 0 {
        let (index, colored, d) = run[0];
        let next = if colored {
            depth.update(index, d)
        } else {
            depth
        };
        law_depth_monotone_run(next, run.drop_first());
        assert forall|i: int| 0 <= i < depth.len() implies #[trigger] depths_after_run(depth, run)[i]
            >= depth[i] by {
            assert(depths_after_run(depth, run) == depths_after_run(next, run.drop_first()));
            assert(depths_after_run(next, run.drop_first())[i] >= next[i]);
        }
    }
}

/// Whether `(x, y)` is a pixel of the box from `lo` to `hi` (both inclusive)
/// that lies in the half-open tile
pub open spec fn in_box_and_tile(lo: Coordinate, hi: Coordinate, tile: (Coordinate, Coordinate), x: int, y: int) -> bool {
    &&& lo.x <= x <= hi.x
    &&& lo.y <= y <= hi.y
    &&& tile.0.x <= x < tile.1.x
    &&& tile.0.y <= y < tile.1.y
}

/// Whether the walk of the box in the tile reaches the pixel `(x, y)`
pub open spec fn box_reaches(lo: Coordinate, hi: Coordinate, tile: (Coordinate, Coordinate), x: int, y: int) -> bool {
    exists|k: int|
        0 <= k < box_rows(lo, hi, tile) * box_columns(lo, hi, tile) && #[trigger] box_pixel(
            lo,
            hi,
            tile,
            k,
        ) == (Coordinate { x: x as u32, y: y as u32 })
}

/// The walk of a bounding box in a tile visits exactly the pixels of the box
/// (inclusive of its last row and column) that lie in the tile: every pixel
/// it visits is one, every one is visited, there are as many rows and
/// columns as the box and the tile share, and the walk goes row by row, each
/// row from left to right, so no pixel is visited twice.
pub proof fn law_box_walk_exact(lo: Coordinate, hi: Coordinate, tile: (Coordinate, Coordinate), x: int, y: int)
    ensures
        box_columns(lo, hi, tile) == max_of(
            0,
            min_int(hi.x + 1, tile.1.x as int) - max_of(lo.x as int, tile.0.x as int),
        ),
        box_rows(lo, hi, tile) == max_of(
            0,
            min_int(hi.y + 1, tile.1.y as int) - max_of(lo.y as int, tile.0.y as int),
        ),
        forall|k: int|
            0 <= k < box_rows(lo, hi, tile) * box_columns(lo, hi, tile) ==> in_box_and_tile(
                lo,
                hi,
                tile,
                #[trigger] box_pixel(lo, hi, tile, k).x as int,
                box_pixel(lo, hi, tile, k).y as int,
            ),
        in_box_and_tile(lo, hi, tile, x, y) ==> box_reaches(lo, hi, tile, x, y),
        forall|j: int, k: int|
            0 <= j < k < box_rows(lo, hi, tile) * box_columns(lo, hi, tile) ==> {
                let a = #[trigger] box_pixel(lo, hi, tile, j);
                let b = #[trigger] box_pixel(lo, hi, tile, k);
                a.y < b.y || (a.y == b.y && a.x < b.x)
            },
{
    let cols = box_columns(lo, hi, tile);
    let rows = box_rows(lo, hi, tile);
    let sx = box_start_x(lo, tile);
    let sy = box_start_y(lo, tile);
    assert forall|k: int| 0 <= k < rows * cols implies in_box_and_tile(
        lo,
        hi,
        tile,
        #[trigger] box_pixel(lo, hi, tile, k).x as int,
        box_pixel(lo, hi, tile, k).y as int,
    ) by {
        assert(cols > 0 && rows > 0) by (nonlinear_arith)
            requires
                0 <= k < rows * cols,
                rows >= 0,
                cols >= 0,
        ;
        vstd::arithmetic::div_mod::lemma_fundamental_div_mod(k, cols);
        vstd::arithmetic::div_mod::lemma_mod_bound(k, cols);
        assert(0 <= k / cols < rows) by (nonlinear_arith)
            requires
                0 <= k < rows * cols,
                k == cols * (k / cols) + k % cols,
                0 <= k % cols < cols,
                cols > 0,
        ;
    }
    assert forall|j: int, k: int| 0 <= j < k < rows * cols implies {
        let a = #[trigger] box_pixel(lo, hi, tile, j);
        let b = #[trigger] box_pixel(lo, hi, tile, k);
        a.y < b.y || (a.y == b.y && a.x < b.x)
    } by {
        assert(cols > 0) by (nonlinear_arith)
            requires
                0 <= k < rows * cols,
                rows >= 0,
                cols >= 0,
        ;
        vstd::arithmetic::div_mod::lemma_fundamental_div_mod(j, cols);
        vstd::arithmetic::div_mod::lemma_fundamental_div_mod(k, cols);
        vstd::arithmetic::div_mod::lemma_mod_bound(j, cols);
        vstd::arithmetic::div_mod::lemma_mod_bound(k, cols);
        vstd::arithmetic::div_mod::lemma_div_is_ordered(j, k, cols);
        assert(0 <= j / cols && 0 <= k / cols < rows) by (nonlinear_arith)
            requires
                0 <= j < k < rows * cols,
                k == cols * (k / cols) + k % cols,
                j == cols * (j / cols) + j % cols,
                0 <= k % cols < cols,
                0 <= j % cols < cols,
                cols > 0,
        ;
        if j / cols == k / cols {
            assert(j % cols < k % cols);
        }
    }
    if in_box_and_tile(lo, hi, tile, x, y) {
        let k = (y - sy) * cols + (x - sx);
        assert(0 <= x - sx < cols && 0 <= y - sy < rows);
        vstd::arithmetic::div_mod::lemma_fundamental_div_mod_converse(k, cols, y - sy, x - sx);
        assert(0 <= k < rows * cols) by (nonlinear_arith)
            requires
                k == (y - sy) * cols + (x - sx),
                0 <= x - sx < cols,
                0 <= y - sy < rows,
        ;
        assert(box_pixel(lo, hi, tile, k) == (Coordinate { x: x as u32, y: y as u32 }));
    }
}

/// The larger of two numbers
pub open spec fn max_of(a: int, b: int) -> int {
    if a < b {
        b
    } else {
        a
    }
}

} // verus!
