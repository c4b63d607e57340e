use softrender::geometry::{Coordinate, Dimensions};
use softrender::pipeline::fragment::{default_tile_size, tiles, Fragment, DEFAULT_TILE_EDGE};
use softrender::pipeline::rasterization::{bresenham_line, LINE_COORDINATE_LIMIT};

/// Half-open tiles covering the whole target, row by row, written out plainly.
fn reference_tiles(dimensions: Dimensions, tile_size: Dimensions) -> Vec<(Coordinate, Coordinate)> {
    let mut out = Vec::new();
    let xmax = dimensions.width;
    let ymax = dimensions.height;
    let mut y = 0u32;
    while y < ymax {
        let next_y = std::cmp::min(y + tile_size.height, ymax);
        let mut x = 0u32;
        while x < xmax {
            let next_x = std::cmp::min(x + tile_size.width, xmax);
            out.push((Coordinate::new(x, y), Coordinate::new(next_x, next_y)));
            x = next_x;
        }
        y = next_y;
    }
    out
}

/// Bresenham's loop as the rasterizer runs it, collecting the plotted pixels.
fn reference_line(mut x0: i64, mut y0: i64, x1: i64, y1: i64) -> Vec<(i64, i64)> {
    let mut out = Vec::new();
    let dx = (x1 - x0).abs();
    let dy = -(y1 - y0).abs();
    let sx = if x0 < x1 { 1 } else { -1 };
    let sy = if y0 < y1 { 1 } else { -1 };
    let mut err = dx + dy;
    loop {
        out.push((x0, y0));
        if x0 == x1 && y0 == y1 {
            break;
        }
        let e2 = 2 * err;
        if e2 >= dy {
            err += dy;
            x0 += sx;
        }
        if e2 <= dx {
            err += dx;
            y0 += sy;
        }
    }
    out
}

#[test]
fn default_tile_is_square() {
    assert_eq!(DEFAULT_TILE_EDGE, 128);
    assert_eq!(default_tile_size(), Dimensions::new(128, 128));
}

#[test]
fn tiles_of_300_by_200() {
    let t = tiles(Dimensions::new(300, 200), default_tile_size());
    let c = Coordinate::new;
    assert_eq!(
        t,
        vec![
            (c(0, 0), c(128, 128)),
            (c(128, 0), c(256, 128)),
            (c(256, 0), c(300, 128)),
            (c(0, 128), c(128, 200)),
            (c(128, 128), c(256, 200)),
            (c(256, 128), c(300, 200)),
        ]
    );
}

#[test]
fn tiles_of_thin_and_empty_targets() {
    let c = Coordinate::new;
    assert_eq!(
        tiles(Dimensions::new(1, 10), Dimensions::new(8, 8)),
        vec![(c(0, 0), c(1, 8)), (c(0, 8), c(1, 10))]
    );
    assert_eq!(tiles(Dimensions::new(1, 1), Dimensions::new(8, 8)), vec![(c(0, 0), c(1, 1))]);
    assert!(tiles(Dimensions::new(0, 100), Dimensions::new(8, 8)).is_empty());
    assert!(tiles(Dimensions::new(100, 0), Dimensions::new(8, 8)).is_empty());
}

#[test]
fn tiles_match_the_tiling_loop() {
    for w in 0..24u32 {
        for h in 0..12u32 {
            for tw in 1..7u32 {
                for th in [1u32, 2, 5, 11, 40].iter() {
                    let dims = Dimensions::new(w, h);
                    let size = Dimensions::new(tw, *th);
                    assert_eq!(tiles(dims, size), reference_tiles(dims, size));
                }
            }
        }
    }
}

#[test]
fn tiles_near_the_largest_width() {
    let dims = Dimensions::new(u32::MAX, 3);
    let size = Dimensions::new(u32::MAX - 10, 8);
    let t = tiles(dims, size);
    assert_eq!(
        t,
        vec![
            (Coordinate::new(0, 0), Coordinate::new(u32::MAX - 10, 3)),
            (Coordinate::new(u32::MAX - 10, 0), Coordinate::new(u32::MAX, 3)),
        ]
    );
}

#[test]
fn tiles_law_partition() {
    // every pixel lies in exactly one tile, the one in row y / th and column x / tw
    let dims = Dimensions::new(37, 23);
    let size = Dimensions::new(8, 5);
    let t = tiles(dims, size);
    let cols = (dims.width + size.width - 1) / size.width;
    for y in 0..dims.height {
        for x in 0..dims.width {
            let holders: Vec<usize> = (0..t.len())
                .filter(|&i| t[i].0.x <= x && x < t[i].1.x && t[i].0.y <= y && y < t[i].1.y)
                .collect();
            let expected = ((y / size.height) * cols + x / size.width) as usize;
            assert_eq!(holders, vec![expected]);
        }
    }
    for (start, end) in t {
        assert!(start.x < end.x && end.x <= dims.width);
        assert!(start.y < end.y && end.y <= dims.height);
    }
}

#[test]
fn fragment_variants() {
    let f: Fragment<u8> = Fragment::Color(3);
    match f {
        Fragment::Color(c) => assert_eq!(c, 3),
        Fragment::Discard => panic!("expected a color"),
    }
    let d: Fragment<u8> = Fragment::Discard;
    assert!(matches!(d, Fragment::Discard));
}

#[test]
fn bresenham_shallow_line() {
    assert_eq!(bresenham_line(0, 0, 3, 1), vec![(0, 0), (1, 0), (2, 1), (3, 1)]);
}

#[test]
fn bresenham_single_pixel() {
    assert_eq!(bresenham_line(5, -7, 5, -7), vec![(5, -7)]);
}

#[test]
fn bresenham_axis_lines() {
    assert_eq!(bresenham_line(2, 1, 2, 4), vec![(2, 1), (2, 2), (2, 3), (2, 4)]);
    assert_eq!(bresenham_line(3, 0, 0, 0), vec![(3, 0), (2, 0), (1, 0), (0, 0)]);
}

#[test]
fn bresenham_diagonal_and_steep() {
    assert_eq!(bresenham_line(0, 0, -3, -3), vec![(0, 0), (-1, -1), (-2, -2), (-3, -3)]);
    assert_eq!(bresenham_line(0, 0, 1, 3), vec![(0, 0), (0, 1), (1, 2), (1, 3)]);
}

#[test]
fn bresenham_matches_the_plot_loop() {
    for x0 in -6..=6i64 {
        for y0 in -6..=6i64 {
            for x1 in -6..=6i64 {
                for y1 in -6..=6i64 {
                    assert_eq!(bresenham_line(x0, y0, x1, y1), reference_line(x0, y0, x1, y1));
                }
            }
        }
    }
    assert_eq!(bresenham_line(0, 0, 1000, 371), reference_line(0, 0, 1000, 371));
    assert_eq!(bresenham_line(-500, 20, 17, -900), reference_line(-500, 20, 17, -900));
}

#[test]
fn bresenham_law_endpoints_and_steps() {
    for (x0, y0, x1, y1) in [(0i64, 0i64, 9i64, 4i64), (3, 8, -5, -1), (-2, 7, -2, -7), (4, 4, 10, 4)].iter() {
        let line = bresenham_line(*x0, *y0, *x1, *y1);
        let count = std::cmp::max((x1 - x0).abs(), (y1 - y0).abs()) + 1;
        assert_eq!(line.len() as i64, count);
        assert_eq!(line[0], (*x0, *y0));
        assert_eq!(*line.last().unwrap(), (*x1, *y1));
        for pair in line.windows(2) {
            assert!((pair[1].0 - pair[0].0).abs() <= 1);
            assert!((pair[1].1 - pair[0].1).abs() <= 1);
        }
    }
}

#[test]
fn bresenham_at_the_coordinate_limit() {
    let l = LINE_COORDINATE_LIMIT;
    let line = bresenham_line(l - 2, -l, l, -l + 1);
    assert_eq!(line, vec![(l - 2, -l), (l - 1, -l + 1), (l, -l + 1)]);
    // far from the origin, a short line is stepped as any other
    let m = 1i64 << 62;
    assert_eq!(bresenham_line(m, m, m, m - 2), vec![(m, m), (m, m - 1), (m, m - 2)]);
    assert_eq!(bresenham_line(i64::MAX - 1, 0, i64::MAX, 0), vec![(i64::MAX - 1, 0), (i64::MAX, 0)]);
}
