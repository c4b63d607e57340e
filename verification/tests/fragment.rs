use softrender::geometry::{Coordinate, Dimensions, FaceWinding};
use softrender::pipeline::fragment::{
    box_in_tile, culled, depth_test, fragment_gate, plotted_index, shade_decision, stencil_stage,
    store_fragment, tiles, Fragment,
};
use softrender::stencil::{StencilOp, StencilTest};

#[test]
fn stencil_stage_passes_and_operates() {
    assert_eq!(stencil_stage(StencilTest::Always, StencilOp::Increment { wrap: false }, 4u8, 9u8), Some(5));
    assert_eq!(stencil_stage(StencilTest::Equal, StencilOp::Replace(7u8), 4u8, 9u8), None);
    assert_eq!(stencil_stage(StencilTest::Equal, StencilOp::Replace(7u8), 9u8, 9u8), Some(7));
    assert_eq!(stencil_stage(StencilTest::Never, StencilOp::<u8>::Zero, 1u8, 1u8), None);
}

#[test]
fn shading_needs_every_test() {
    assert!(shade_decision(true, true, true, true));
    for i in 0..15u8 {
        let bits = [i & 1 != 0, i & 2 != 0, i & 4 != 0, i & 8 != 0];
        assert!(!shade_decision(bits[0], bits[1], bits[2], bits[3]));
    }
}

#[test]
fn culling_by_winding() {
    assert!(!culled(None, true));
    assert!(culled(Some(FaceWinding::Clockwise), true));
    assert!(!culled(Some(FaceWinding::Clockwise), false));
    assert!(culled(Some(FaceWinding::CounterClockwise), false));
}

#[test]
fn box_cut_to_tile() {
    let dims = Dimensions::new(10, 8);
    let tile = (Coordinate::new(4, 2), Coordinate::new(8, 6));
    // box (2,3)..=(5,9) cut to x in 4..6, y in 3..6
    let pixels = box_in_tile(Coordinate::new(2, 3), Coordinate::new(5, 9), tile, dims);
    assert_eq!(pixels, vec![34, 35, 44, 45, 54, 55]);
    // a box outside the tile has no pixels
    assert!(box_in_tile(Coordinate::new(0, 0), Coordinate::new(1, 1), tile, dims).is_empty());
}

#[test]
fn boxes_over_all_tiles_cover_each_pixel_once() {
    let dims = Dimensions::new(13, 7);
    let mut count = vec![0; 91];
    for tile in tiles(dims, Dimensions::new(4, 3)) {
        for i in box_in_tile(Coordinate::new(0, 0), Coordinate::new(12, 6), tile, dims) {
            count[i] += 1;
        }
    }
    assert!(count.iter().all(|&c| c == 1));
}

#[test]
fn plotted_pixels_inside_the_target() {
    let dims = Dimensions::new(5, 4);
    assert_eq!(plotted_index(2, 3, dims), Some(17));
    assert_eq!(plotted_index(-1, 0, dims), None);
    assert_eq!(plotted_index(5, 0, dims), None);
    assert_eq!(plotted_index(0, 4, dims), None);
}

#[test]
fn gate_decides_without_writing() {
    let stencil = vec![0u8, 4, 0, 0];
    let depth = vec![10u32; 4];
    // stencil passes but the fragment is behind: not shaded
    assert!(!fragment_gate(&stencil, &depth, 2, StencilTest::Always, 0, true, true, 9));
    // not covered: not shaded
    assert!(!fragment_gate(&stencil, &depth, 2, StencilTest::Always, 0, false, true, 10));
    // behind the viewer: not shaded
    assert!(!fragment_gate(&stencil, &depth, 2, StencilTest::Always, 0, true, false, 10));
    // in front, covered, z < 0: shaded
    assert!(fragment_gate(&stencil, &depth, 1, StencilTest::Always, 0, true, true, 10));
    // stencil fails: not shaded
    assert!(!fragment_gate(&stencil, &depth, 1, StencilTest::Equal, 3, true, true, 20));
    assert!(fragment_gate(&stencil, &depth, 1, StencilTest::Equal, 4, true, true, 20));
    assert!(depth_test(&depth, 0, 10));
    assert!(!depth_test(&depth, 0, 9));
}

#[test]
fn stored_fragments_and_depth_monotone() {
    let mut color = vec!['a'; 3];
    let mut depth = vec![5u32; 3];
    let mut stencil = vec![1u8; 3];
    let op = StencilOp::Increment { wrap: false };
    // a discarded fragment is as if it was never there
    store_fragment(&mut color, &mut depth, &mut stencil, 1, Fragment::Discard, 9, op);
    assert_eq!(color, vec!['a'; 3]);
    assert_eq!(depth, vec![5; 3]);
    assert_eq!(stencil, vec![1; 3]);
    store_fragment(&mut color, &mut depth, &mut stencil, 1, Fragment::Color('z'), 9, op);
    assert_eq!(color, vec!['a', 'z', 'a']);
    assert_eq!(depth, vec![5, 9, 5]);
    assert_eq!(stencil, vec![1, 2, 1]);
    let before = depth.clone();
    store_fragment(&mut color, &mut depth, &mut stencil, 0, Fragment::Color('y'), 5, op);
    assert!(depth.iter().zip(before.iter()).all(|(a, b)| a >= b));
}

#[test]
fn depth_moves_forward_over_a_run() {
    let mut color = vec![0u8; 6];
    let mut depth = vec![3u32; 6];
    let mut stencil = vec![(); 6];
    let start = depth.clone();
    let run = [(0usize, 4u32, true), (0, 4, false), (3, 9, true), (0, 7, true), (5, 3, true)];
    for (index, d, colored) in run.iter() {
        if fragment_gate(&stencil, &depth, *index, StencilTest::Always, (), true, true, *d) {
            let fragment = if *colored { Fragment::Color(1u8) } else { Fragment::Discard };
            store_fragment(&mut color, &mut depth, &mut stencil, *index, fragment, *d, StencilOp::Keep);
        }
    }
    assert_eq!(depth, vec![7, 3, 3, 9, 3, 3]);
    assert!(depth.iter().zip(start.iter()).all(|(a, b)| a >= b));
}
