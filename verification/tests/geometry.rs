use softrender::geometry::clip::{
    clip_triangle_plan, line_clip_step, point_inside_all, polygon_triangles, ClippingPlane,
    LineClipAction, PolygonPlan, PolygonVertex, ALL_CLIPPING_PLANES,
};
use softrender::geometry::{Coordinate, Dimensions, FaceWinding, HasDimensions};
use softrender::framebuffer::ColorBuffer;
use softrender::utils::clamp;

fn plan_items(plan: &PolygonPlan) -> Vec<PolygonVertex> {
    let mut items = Vec::new();
    for i in 0..plan.len() {
        items.push(plan.get(i));
    }
    items
}

#[test]
fn coordinate_index_is_row_major() {
    let dims = Dimensions::new(4, 3);
    assert_eq!(Coordinate::new(0, 0).into_index(dims), 0);
    assert_eq!(Coordinate::new(3, 0).into_index(dims), 3);
    assert_eq!(Coordinate::new(1, 2).into_index(dims), 9);
    assert_eq!(Coordinate::new(3, 2).into_index(dims), 11);
    assert_eq!(dims.area(), 12);
}

#[test]
fn coordinate_add_is_componentwise() {
    let c = Coordinate::new(3, 4).add(Coordinate::new(10, 20));
    assert_eq!(c, Coordinate { x: 13, y: 24 });
}

#[test]
fn dimensions_bounds() {
    let dims = Dimensions::new(4, 3);
    assert!(dims.in_bounds(Coordinate::new(0, 0)));
    assert!(dims.in_bounds(Coordinate::new(3, 2)));
    assert!(!dims.in_bounds(Coordinate::new(4, 0)));
    assert!(!dims.in_bounds(Coordinate::new(0, 3)));
    assert!(!Dimensions::new(0, 5).in_bounds(Coordinate::new(0, 0)));
    assert_eq!(Dimensions::new(0, 5).area(), 0);
}

#[test]
fn has_dimensions_reports_dimensions() {
    let b = ColorBuffer::new_with(7, 9, 0u8);
    assert_eq!(b.dimensions(), Dimensions { width: 7, height: 9 });
    assert_ne!(FaceWinding::Clockwise, FaceWinding::CounterClockwise);
}

#[test]
fn clamp_limits_to_range() {
    assert_eq!(clamp(5, 0, 10), 5);
    assert_eq!(clamp(-3, 0, 10), 0);
    assert_eq!(clamp(12, 0, 10), 10);
    assert_eq!(clamp(0, 0, 10), 0);
    assert_eq!(clamp(10, 0, 10), 10);
    assert_eq!(clamp(1.5f32, 0.0, 1.0), 1.0);
    assert_eq!(clamp(-0.5f64, 0.0, 1.0), 0.0);
}

#[test]
fn clipping_planes_in_order() {
    assert_eq!(
        ALL_CLIPPING_PLANES,
        [
            ClippingPlane::Left,
            ClippingPlane::Right,
            ClippingPlane::Top,
            ClippingPlane::Bottom,
            ClippingPlane::Near,
            ClippingPlane::Far,
        ]
    );
}

#[test]
fn clip_plan_triangle_inside() {
    // a triangle inside every plane goes through unchanged
    let plan = clip_triangle_plan([[true; 6]; 3]);
    assert_eq!(plan.len(), 3);
    assert_eq!(
        plan_items(&plan),
        vec![PolygonVertex::Corner(1), PolygonVertex::Corner(2), PolygonVertex::Corner(0)]
    );
    assert_eq!(polygon_triangles(plan.len()), vec![(0, 1, 2)]);
}

#[test]
fn clip_plan_triangle_outside() {
    let plan = clip_triangle_plan([[false; 6]; 3]);
    assert_eq!(plan.len(), 0);
    assert!(plan_items(&plan).is_empty());
}

#[test]
fn clip_plan_corner_outside_left() {
    let mut inside = [[true; 6]; 3];
    inside[0][0] = false;
    let plan = clip_triangle_plan(inside);
    assert_eq!(
        plan_items(&plan),
        vec![
            PolygonVertex::Crossing { plane: ClippingPlane::Left, from: 0, to: 1 },
            PolygonVertex::Corner(1),
            PolygonVertex::Corner(2),
            PolygonVertex::Crossing { plane: ClippingPlane::Left, from: 2, to: 0 },
        ]
    );
}

#[test]
fn clip_plan_edge_crossing_far_plane() {
    // corner c lies beyond the far plane only
    let mut inside = [[true; 6]; 3];
    inside[2][5] = false;
    let items = plan_items(&clip_triangle_plan(inside));
    assert_eq!(
        items,
        vec![
            PolygonVertex::Corner(1),
            PolygonVertex::Crossing { plane: ClippingPlane::Far, from: 1, to: 2 },
            PolygonVertex::Crossing { plane: ClippingPlane::Far, from: 2, to: 0 },
            PolygonVertex::Corner(0),
        ]
    );
}

#[test]
fn clip_plan_law_vertices_name_triangle() {
    // every plan holds at most 21 vertices, each a corner or a crossing on an edge
    for mask in 0u32..(1 << 9) {
        let mut inside = [[true; 6]; 3];
        for corner in 0..3 {
            for plane in 0..3 {
                inside[corner][plane * 2] = mask & (1 << (corner * 3 + plane)) != 0;
            }
        }
        let items = plan_items(&clip_triangle_plan(inside));
        assert!(items.len() <= 21);
        for v in items {
            match v {
                PolygonVertex::Corner(c) => assert!(c < 3),
                PolygonVertex::Crossing { from, to, .. } => {
                    assert!([(0, 1), (1, 2), (2, 0)].contains(&(from, to)))
                }
            }
        }
    }
}

#[test]
fn polygon_fan_triangles() {
    assert!(polygon_triangles(0).is_empty());
    assert!(polygon_triangles(2).is_empty());
    assert_eq!(polygon_triangles(3), vec![(0, 1, 2)]);
    assert_eq!(polygon_triangles(4), vec![(3, 0, 1), (3, 1, 2)]);
    assert_eq!(polygon_triangles(5), vec![(4, 0, 1), (4, 1, 2), (4, 2, 3)]);
    assert_eq!(polygon_triangles(18).len(), 16);
}

#[test]
fn line_clip_steps() {
    assert_eq!(line_clip_step(true, true, 0), (LineClipAction::Keep, 0, false));
    assert_eq!(line_clip_step(false, false, 1), (LineClipAction::Reject, 1, false));
    assert_eq!(line_clip_step(true, false, 0), (LineClipAction::MoveEnd, 1, false));
    assert_eq!(line_clip_step(false, true, 1), (LineClipAction::MoveStart, 2, false));
    assert_eq!(line_clip_step(true, false, 2), (LineClipAction::MoveEnd, 3, true));
    assert_eq!(line_clip_step(true, true, 3), (LineClipAction::Keep, 3, true));
}

#[test]
fn point_clipping() {
    assert!(point_inside_all([true; 6]));
    for i in 0..6 {
        let mut inside = [true; 6];
        inside[i] = false;
        assert!(!point_inside_all(inside));
    }
    assert!(!point_inside_all([false; 6]));
}

#[test]
fn index_law_identifies_coordinate() {
    let dims = Dimensions::new(7, 5);
    let mut seen = vec![false; 35];
    for y in 0..5 {
        for x in 0..7 {
            let i = Coordinate::new(x, y).into_index(dims);
            assert_eq!(i % 7, x as usize);
            assert_eq!(i / 7, y as usize);
            assert!(!seen[i]);
            seen[i] = true;
        }
    }
}
