//! Line stepping for the rasterizer

use vstd::prelude::*;

verus! {

/// A line handed to `bresenham_line` spans at most `LINE_COORDINATE_LIMIT`
/// pixels along each axis, which keeps every intermediate value of the
/// stepping inside `i64`.
pub const LINE_COORDINATE_LIMIT: i64 = 0x1000_0000_0000_0000;

/// Absolute value of an integer
pub open spec fn abs_int(v: int) -> int {
    if v < 0 {
        -v
    } else {
        v
    }
}

/// The larger of two numbers
pub open spec fn max_int(a: int, b: int) -> int {
    if a < b {
        b
    } else {
        a
    }
}

/// How far the `k`-th pixel of a line lies from its first pixel, along x and
/// along y, for a line that spans `a` pixels along x and `b` pixels along y.
///
/// The line steps once along the longer axis per pixel; along the shorter axis
/// it takes the nearest whole offset, `(2 * b * k + a) / (2 * a)` rounded down,
/// so that halfway cases round up along y and down along x.
pub open spec fn line_step_offsets(a: int, b: int, k: int) -> (int, int) {
    if a >= b {
        (
            k,
            if a == 0 {
                0
            } else {
                (2 * b * k + a) / (2 * a)
            },
        )
    } else {
        ((2 * a * k + b) / (2 * b), k)
    }
}

/// Number of pixels of the line from `(x0, y0)` to `(x1, y1)`
pub open spec fn line_pixel_count(x0: int, y0: int, x1: int, y1: int) -> int {
    max_int(abs_int(x1 - x0), abs_int(y1 - y0)) + 1
}

/// The `k`-th pixel of the line from `(x0, y0)` to `(x1, y1)`
pub open spec fn line_pixel(x0: int, y0: int, x1: int, y1: int, k: int) -> (int, int) {
    let offsets = line_step_offsets(abs_int(x1 - x0), abs_int(y1 - y0), k);
    (
        if x0 < x1 {
            x0 + offsets.0
        } else {
            x0 - offsets.0
        },
        if y0 < y1 {
            y0 + offsets.1
        } else {
            y0 - offsets.1
        },
    )
}

/// The offset along the shorter axis is the one that `line_step_offsets` names,
/// given how far it lies from the line.
proof fn lemma_nearest_offset(major: int, minor: int, k: int, m: int)
    requires
        major > 0,
        0 <= 2 * minor * k + major - 2 * major * m < 2 * major,
    ensures
        m == (2 * minor * k + major) / (2 * major),
{
    assert(m * (2 * major) == 2 * major * m) by (nonlinear_arith);
    vstd::arithmetic::div_mod::lemma_fundamental_div_mod_converse(
        2 * minor * k + major,
        2 * major,
        m,
        2 * minor * k + major - 2 * major * m,
    );
}

/// Uses Bresenham's algorithm to compute the pixels of a line, in the order in
/// which it plots them, from `(x0, y0)` to `(x1, y1)`.
///
/// [https://en.wikipedia.org/wiki/Bresenham%27s_line_algorithm](https://en.wikipedia.org/wiki/Bresenham%27s_line_algorithm)
pub fn bresenham_line(x0: i64, y0: i64, x1: i64, y1: i64) -> (r: Vec<(i64, i64)>)
    requires
        -LINE_COORDINATE_LIMIT <= x1 - x0 <= LINE_COORDINATE_LIMIT,
        -LINE_COORDINATE_LIMIT <= y1 - y0 <= LINE_COORDINATE_LIMIT,
    ensures
        r@.len() == line_pixel_count(x0 as int, y0 as int, x1 as int, y1 as int),
        forall|k: int|
            0 <= k < r@.len() ==> (r@[k].0 as int, r@[k].1 as int) == #[trigger] line_pixel(
                x0 as int,
                y0 as int,
                x1 as int,
                y1 as int,
                k,
            ),
{
    let dx: i64 = if x1 >= x0 {
        x1 - x0
    } else {
        x0 - x1
    };
    let dy: i64 = if y1 >= y0 {
        y0 - y1
    } else {
        y1 - y0
    };

    let sx: i64 = if x0 < x1 {
        1
    } else {
        -1
    };
    let sy: i64 = if y0 < y1 {
        1
    } else {
        -1
    };

    let mut err: i64 = dx + dy;
    let mut x: i64 = x0;
    let mut y: i64 = y0;
    let mut points: Vec<(i64, i64)> = Vec::new();

    let ghost a: int = dx as int;
    let ghost b: int = -dy;
    let ghost mut i: int = 0;
    let ghost mut j: int = 0;
    let ghost mut q: int = 0;

    loop
        invariant_except_break
            a == dx,
            b == -dy,
            a == abs_int(x1 - x0),
            b == abs_int(y1 - y0),
            0 <= a <= LINE_COORDINATE_LIMIT,
            0 <= b <= LINE_COORDINATE_LIMIT,
            sx == (if x0 < x1 {
                1int
            } else {
                -1int
            }),
            sy == (if y0 < y1 {
                1int
            } else {
                -1int
            }),
            0 <= i <= a,
            0 <= j <= b,
            x == (if x0 < x1 {
                x0 + i
            } else {
                x0 - i
            }),
            y == (if y0 < y1 {
                y0 + j
            } else {
                y0 - j
            }),
            q == a * j - b * i,
            err == q + a - b,
            a >= b ==> i == points@.len(),
            a >= b && a > 0 ==> -a < 2 * q <= a,
            a < b ==> j == points@.len(),
            a < b ==> -b <= 2 * q < b,
            forall|m: int|
                0 <= m < points@.len() ==> (points@[m].0 as int, points@[m].1 as int)
                    == #[trigger] line_pixel(x0 as int, y0 as int, x1 as int, y1 as int, m),
        ensures
            points@.len() == line_pixel_count(x0 as int, y0 as int, x1 as int, y1 as int),
            forall|m: int|
                0 <= m < points@.len() ==> (points@[m].0 as int, points@[m].1 as int)
                    == #[trigger] line_pixel(x0 as int, y0 as int, x1 as int, y1 as int, m),
        decreases (a - i) + (b - j),
    {
        let ghost k = points@.len() as int;
        proof {
            if a >= b {
                if a > 0 {
                    assert(2 * b * k + a - 2 * a * j == a - 2 * q) by (nonlinear_arith)
                        requires
                            q == a * j - b * i,
                            k == i,
                    ;
                    lemma_nearest_offset(a, b, k, j);
                }
            } else {
                assert(2 * a * k + b - 2 * b * i == b + 2 * q) by (nonlinear_arith)
                    requires
                        q == a * j - b * i,
                        k == j,
                ;
                lemma_nearest_offset(b, a, k, i);
            }
        }
        points.push((x, y));
        assert(points@[k] == (x, y));

        if x == x1 && y == y1 {
            assert(i == a);
            assert(j == b);
            break;
        }
        proof {
            if a >= b {
                if i == a {
                    if a > 0 {
                        assert(j >= b) by (nonlinear_arith)
                            requires
                                -a < 2 * q,
                                q == a * j - b * i,
                                i == a,
                                a > 0,
                        ;
                    }
                    assert(false);
                }
            } else {
                if j == b {
                    assert(i == a) by (nonlinear_arith)
                        requires
                            -b <= 2 * q < b,
                            q == a * j - b * i,
                            j == b,
                            b > 0,
                    ;
                    assert(false);
                }
            }
        }

        let e2: i64 = 2 * err;

        if e2 >= dy {
            proof {
                if a < b && i == a {
                    assert(2 * q <= -2 * a) by (nonlinear_arith)
                        requires
                            q == a * j - b * i,
                            i == a,
                            j < b,
                            a >= 0,
                    ;
                }
                assert(a * j - b * (i + 1) == q - b) by (nonlinear_arith)
                    requires
                        q == a * j - b * i,
                ;
                i = i + 1;
                q = q - b;
            }
            err += dy;
            x += sx;
        }

        if e2 <= dx {
            proof {
                if a >= b && j == b {
                    assert(2 * (a * j - b * (i - 1)) >= 2 * b) by (nonlinear_arith)
                        requires
                            j == b,
                            i - 1 < a,
                            b >= 0,
                    ;
                }
                assert(a * (j + 1) - b * i == q + a) by (nonlinear_arith)
                    requires
                        q == a * j - b * i,
                ;
                j = j + 1;
                q = q + a;
            }
            err += dx;
            y += sy;
        }
    }
    points
}

/// Adding at most `m` to a number raises its quotient by `m` by at most one.
proof fn lemma_div_step(n: int, d: int, m: int)
    requires
        m > 0,
        n >= 0,
        0 <= d <= m,
    ensures
        n / m <= (n + d) / m <= n / m + 1,
        n / m >= 0,
{
    vstd::arithmetic::div_mod::lemma_fundamental_div_mod(n, m);
    vstd::arithmetic::div_mod::lemma_mod_bound(n, m);
    let q = n / m;
    let r = n % m;
    assert(q >= 0) by (nonlinear_arith)
        requires
            n == m * q + r,
            0 <= r < m,
            n >= 0,
    ;
    if r + d < m {
        assert(q * m == m * q) by (nonlinear_arith);
        vstd::arithmetic::div_mod::lemma_fundamental_div_mod_converse(n + d, m, q, r + d);
    } else {
        assert((q + 1) * m == m * q + m) by (nonlinear_arith);
        vstd::arithmetic::div_mod::lemma_fundamental_div_mod_converse(n + d, m, q + 1, r + d - m);
    }
}

/// The offset along the shorter axis at step `k` lies within half a pixel of
/// the ideal line.
proof fn lemma_nearest_bound(major: int, minor: int, k: int)
    requires
        major > 0,
        0 <= minor <= major,
        k >= 0,
    ensures
        -major < 2 * (major * ((2 * minor * k + major) / (2 * major)) - minor * k) <= major,
        (2 * minor * k + major) / (2 * major) >= 0,
{
    let n = 2 * minor * k + major;
    let m = 2 * major;
    assert(n >= 0) by (nonlinear_arith)
        requires
            minor >= 0,
            k >= 0,
            major > 0,
            n == 2 * minor * k + major,
    ;
    vstd::arithmetic::div_mod::lemma_fundamental_div_mod(n, m);
    vstd::arithmetic::div_mod::lemma_mod_bound(n, m);
    let q = n / m;
    assert(-major < 2 * (major * q - minor * k) <= major) by (nonlinear_arith)
        requires
            n == m * q + n % m,
            0 <= n % m < m,
            m == 2 * major,
            n == 2 * minor * k + major,
    ;
    lemma_div_step(n, 0, m);
}

/// The pixels of a line: the first is the start and the last the end of the
/// line; each step moves one pixel along the longer axis and at most one
/// along the shorter axis; and every pixel lies within half a pixel of the
/// ideal line along the shorter axis.
pub proof fn law_line_offsets(a: int, b: int, k: int)
    requires
        a >= 0,
        b >= 0,
        0 <= k <= max_int(a, b),
    ensures
        line_step_offsets(a, b, 0) == (0int, 0int),
        line_step_offsets(a, b, max_int(a, b)) == (a, b),
        0 <= line_step_offsets(a, b, k).0 <= a,
        0 <= line_step_offsets(a, b, k).1 <= b,
        k < max_int(a, b) ==> {
            let step = (
                line_step_offsets(a, b, k + 1).0 - line_step_offsets(a, b, k).0,
                line_step_offsets(a, b, k + 1).1 - line_step_offsets(a, b, k).1,
            );
            &&& 0 <= step.0 <= 1
            &&& 0 <= step.1 <= 1
            &&& a >= b ==> step.0 == 1
            &&& a < b ==> step.1 == 1
        },
        -max_int(a, b) <= 2 * (a * line_step_offsets(a, b, k).1 - b * line_step_offsets(a, b, k).0)
            <= max_int(a, b),
{
    if a >= b {
        if a > 0 {
            vstd::arithmetic::div_mod::lemma_fundamental_div_mod_converse(a, 2 * a, 0, a);
            assert(2 * b * a + a == b * (2 * a) + a) by (nonlinear_arith);
            vstd::arithmetic::div_mod::lemma_fundamental_div_mod_converse(
                2 * b * a + a,
                2 * a,
                b,
                a,
            );
            lemma_nearest_bound(a, b, k);
            let j = (2 * b * k + a) / (2 * a);
            assert(a * j - b * k == -(b * k - a * j)) by (nonlinear_arith);
            if k < a {
                assert(2 * b * (k + 1) + a == (2 * b * k + a) + 2 * b) by (nonlinear_arith);
                assert(2 * b * k + a >= 0) by (nonlinear_arith)
                    requires
                        b >= 0,
                        k >= 0,
                        a > 0,
                ;
                lemma_div_step(2 * b * k + a, 2 * b, 2 * a);
            }
            assert(2 * b * k + a <= 2 * b * a + a) by (nonlinear_arith)
                requires
                    0 <= b <= a,
                    0 <= k <= a,
            ;
            vstd::arithmetic::div_mod::lemma_div_is_ordered(2 * b * k + a, 2 * b * a + a, 2 * a);
        }
    } else {
        vstd::arithmetic::div_mod::lemma_fundamental_div_mod_converse(b, 2 * b, 0, b);
        assert(2 * a * b + b == a * (2 * b) + b) by (nonlinear_arith);
        vstd::arithmetic::div_mod::lemma_fundamental_div_mod_converse(2 * a * b + b, 2 * b, a, b);
        lemma_nearest_bound(b, a, k);
        if k < b {
            assert(2 * a * (k + 1) + b == (2 * a * k + b) + 2 * a) by (nonlinear_arith);
            assert(2 * a * k + b >= 0) by (nonlinear_arith)
                requires
                    a >= 0,
                    k >= 0,
                    b > 0,
            ;
            lemma_div_step(2 * a * k + b, 2 * a, 2 * b);
        }
        assert(2 * a * k + b <= 2 * a * b + b) by (nonlinear_arith)
            requires
                0 <= a <= b,
                0 <= k <= b,
        ;
        vstd::arithmetic::div_mod::lemma_div_is_ordered(2 * a * k + b, 2 * a * b + b, 2 * b);
    }
}

/// A line starts at its first endpoint and ends at its second.
pub proof fn law_line_endpoints(x0: int, y0: int, x1: int, y1: int)
    ensures
        line_pixel(x0, y0, x1, y1, 0) == (x0, y0),
        line_pixel(x0, y0, x1, y1, line_pixel_count(x0, y0, x1, y1) - 1) == (x1, y1),
{
    law_line_offsets(abs_int(x1 - x0), abs_int(y1 - y0), 0);
}

} // verus!
