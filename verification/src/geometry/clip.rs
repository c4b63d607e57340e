//! Clipping planes and the plans by which primitives are clipped against them.
//!
//! Whether a vertex lies inside a plane, and where an edge crosses it, are
//! computed on floating-point clip-space positions by the caller; the plans
//! here decide, from those answers alone, which vertices the clipped
//! primitive is made of.

use vstd::prelude::*;

use smallvec::SmallVec;

verus! {

/// The six planes of the clip-space view volume
#[derive(Debug, Clone, Copy, PartialEq, Eq, Structural)]
pub enum ClippingPlane {
    Left,
    Right,
    Top,
    Bottom,
    Near,
    Far,
}

/// All clipping planes in a constant array. Useful for iterating over all of them.
pub const ALL_CLIPPING_PLANES: [ClippingPlane; 6] = [
    ClippingPlane::Left,
    ClippingPlane::Right,
    ClippingPlane::Top,
    ClippingPlane::Bottom,
    ClippingPlane::Near,
    ClippingPlane::Far,
];

/// The plane at position `i` of `ALL_CLIPPING_PLANES`
pub open spec fn plane_at(i: int) -> ClippingPlane {
    if i == 0 {
        ClippingPlane::Left
    } else if i == 1 {
        ClippingPlane::Right
    } else if i == 2 {
        ClippingPlane::Top
    } else if i == 3 {
        ClippingPlane::Bottom
    } else if i == 4 {
        ClippingPlane::Near
    } else {
        ClippingPlane::Far
    }
}

/// One vertex of a clipped triangle, named by where it comes from: a corner
/// of the triangle (0, 1 or 2 for `a`, `b`, `c`), or the point where the edge
/// from corner `from` to corner `to` crosses `plane`.
#[derive(Debug, Clone, Copy, PartialEq, Eq, Structural)]
pub enum PolygonVertex {
    Corner(usize),
    Crossing { plane: ClippingPlane, from: usize, to: usize },
}

/// A clipped triangle's polygon, as the vertices it is made of, kept in the
/// small vector that clipping fills (room for four vertices before it moves
/// to the heap).
#[verifier::external_body]
pub struct PolygonPlan {
    vertices: SmallVec<[PolygonVertex; 4]>,
}

/// The vertices that a polygon plan holds, in order.
pub uninterp spec fn polygon_items(polygon: PolygonPlan) -> Seq<PolygonVertex>;

/// `SmallVec::new`: an empty vector, holding no items.
#[verifier::external_body]
fn polygon_new() -> (r: PolygonPlan)
    ensures
        polygon_items(r) == Seq::<PolygonVertex>::empty(),
{
    PolygonPlan { vertices: SmallVec::new() }
}

/// `SmallVec::push`: appends the item after the items already held.
#[verifier::external_body]
fn polygon_push(polygon: &mut PolygonPlan, item: PolygonVertex)
    requires
        polygon_items(*old(polygon)).len() < usize::MAX,
    ensures
        polygon_items(*final(polygon)) == polygon_items(*old(polygon)).push(item),
{
    polygon.vertices.push(item)
}

/// `SmallVec::len`: the number of items held.
#[verifier::external_body]
fn polygon_len(polygon: &PolygonPlan) -> (r: usize)
    ensures
        r == polygon_items(*polygon).len(),
{
    polygon.vertices.len()
}

/// Indexing a `SmallVec` (through its slice): the item at position `index`.
#[verifier::external_body]
fn polygon_get(polygon: &PolygonPlan, index: usize) -> (r: PolygonVertex)
    requires
        index < polygon_items(*polygon).len(),
    ensures
        r == polygon_items(*polygon)[index as int],
{
    polygon.vertices[index]
}

impl PolygonPlan {
    /// Number of vertices of the polygon
    pub fn len(&self) -> (r: usize)
        ensures
            r == polygon_items(*self).len(),
    {
        polygon_len(self)
    }

    /// The vertex at position `index` of the polygon
    pub fn get(&self, index: usize) -> (r: PolygonVertex)
        requires
            index < polygon_items(*self).len(),
        ensures
            r == polygon_items(*self)[index as int],
    {
        polygon_get(self, index)
    }
}

/// The two corners joined by edge `edge` of a triangle, in the order in which
/// clipping walks them: `(a, b)`, `(b, c)`, `(c, a)`.
pub open spec fn edge_corners(edge: int) -> (int, int) {
    if edge == 0 {
        (0, 1)
    } else if edge == 1 {
        (1, 2)
    } else {
        (2, 0)
    }
}

/// Whether corner `corner` lies inside every clipping plane
pub open spec fn corner_inside(inside: [[bool; 6]; 3], corner: int) -> bool {
    forall|plane: int| 0 <= plane < 6 ==> #[trigger] inside@[corner]@[plane]
}

/// What clipping adds for edge `edge` against plane `plane`: the crossing
/// point where exactly one of the edge's corners is inside the plane, and,
/// once the last plane has been tested, the edge's second corner where it is
/// inside every plane.
pub open spec fn edge_plane_items(inside: [[bool; 6]; 3], edge: int, plane: int) -> Seq<PolygonVertex> {
    let (s, p) = edge_corners(edge);
    let s_in = inside@[s]@[plane];
    let p_in = inside@[p]@[plane];
    (if s_in != p_in {
        seq![PolygonVertex::Crossing { plane: plane_at(plane), from: s as usize, to: p as usize }]
    } else {
        Seq::empty()
    }) + (if plane == 5 && corner_inside(inside, p) {
        seq![PolygonVertex::Corner(p as usize)]
    } else {
        Seq::empty()
    })
}

/// What clipping adds in its first `steps` steps, one step per edge and
/// plane, planes varying fastest.
pub open spec fn clip_plan_steps(inside: [[bool; 6]; 3], steps: nat) -> Seq<PolygonVertex>
    decreases steps,
{
    if steps == 0 {
        Seq::empty()
    } else {
        clip_plan_steps(inside, (steps - 1) as nat) + edge_plane_items(
            inside,
            (steps - 1) / 6,
            (steps - 1) % 6,
        )
    }
}

/// The vertices of a triangle clipped against all planes, given for each
/// corner (`inside[corner][plane]`) whether it lies inside each plane of
/// `ALL_CLIPPING_PLANES`.
pub open spec fn clip_plan(inside: [[bool; 6]; 3]) -> Seq<PolygonVertex> {
    clip_plan_steps(inside, 18)
}

proof fn lemma_clip_plan_steps_len(inside: [[bool; 6]; 3], steps: nat)
    ensures
        clip_plan_steps(inside, steps).len() <= steps + steps / 6,
    decreases steps,
{
    if steps > 0 {
        lemma_clip_plan_steps_len(inside, (steps - 1) as nat);
        let n = (steps - 1) as int;
        assert(n % 6 == 5 ==> steps / 6 == n / 6 + 1);
        assert(n % 6 != 5 ==> steps / 6 == n / 6);
    }
}

/// Plans the polygon that a triangle becomes when clipped: walks the edges
/// `(a, b)`, `(b, c)`, `(c, a)` and, for each edge, all clipping planes,
/// adding the crossing point where the edge crosses the plane; after the
/// planes it adds the edge's second corner where that corner is inside every
/// plane. A triangle inside every plane so goes through unchanged.
pub fn clip_triangle_plan(inside: [[bool; 6]; 3]) -> (r: PolygonPlan)
    ensures
        polygon_items(r) == clip_plan(inside),
{
    let mut polygon = polygon_new();
    let mut edge: usize = 0;
    while edge < 3
        invariant
            edge <= 3,
            polygon_items(polygon) == clip_plan_steps(inside, (edge * 6) as nat),
        decreases 3 - edge,
    {
        let (s, p): (usize, usize) = if edge == 0 {
            (0, 1)
        } else if edge == 1 {
            (1, 2)
        } else {
            (2, 0)
        };
        let p_all = point_inside_all(inside[p]);
        let mut plane: usize = 0;
        while plane < 6
            invariant
                edge < 3,
                plane <= 6,
                (s as int, p as int) == edge_corners(edge as int),
                p_all == corner_inside(inside, p as int),
                polygon_items(polygon) == clip_plan_steps(inside, (edge * 6 + plane) as nat),
            decreases 6 - plane,
        {
            let ghost before = polygon_items(polygon);
            proof {
                lemma_clip_plan_steps_len(inside, (edge * 6 + plane) as nat);
            }
            let s_in = inside[s][plane];
            let p_in = inside[p][plane];

            // Edge intersects clipping plane
            if s_in != p_in {
                polygon_push(
                    &mut polygon,
                    PolygonVertex::Crossing { plane: ALL_CLIPPING_PLANES[plane], from: s, to: p },
                );
            }
            if plane == 5 && p_all {
                polygon_push(&mut polygon, PolygonVertex::Corner(p));
            }
            proof {
                let step = (edge * 6 + plane) as nat;
                assert(step / 6 == edge as int);
                assert(step % 6 == plane as int);
                assert(polygon_items(polygon) =~= before + edge_plane_items(
                    inside,
                    edge as int,
                    plane as int,
                ));
            }
            plane += 1;
        }
        edge += 1;
    }
    polygon
}

/// The triangles, as positions of vertices in the clipped polygon, that a
/// clipped polygon of `count` vertices is cut into: the polygon itself where
/// it has three vertices, otherwise a fan around its last vertex.
pub open spec fn fan_triangles(count: int) -> Seq<(int, int, int)> {
    if count == 3 {
        seq![(0int, 1int, 2int)]
    } else if count > 3 {
        Seq::new((count - 2) as nat, |i: int| (count - 1, i, i + 1))
    } else {
        Seq::empty()
    }
}

/// Cuts a clipped polygon of `count` vertices into triangles: a polygon of
/// three vertices stays as it is, a larger one is cut into a fan of triangles
/// that all share its last vertex, and a smaller one gives none.
pub fn polygon_triangles(count: usize) -> (r: Vec<(usize, usize, usize)>)
    ensures
        r@.len() == fan_triangles(count as int).len(),
        forall|i: int|
            0 <= i < r@.len() ==> (r@[i].0 as int, r@[i].1 as int, r@[i].2 as int)
                == #[trigger] fan_triangles(count as int)[i],
{
    let mut triangles: Vec<(usize, usize, usize)> = Vec::new();
    if count == 3 {
        triangles.push((0, 1, 2));
    } else if count > 3 {
        let last = count - 1;
        let mut i: usize = 0;
        while i < count - 2
            invariant
                count > 3,
                last == count - 1,
                i <= count - 2,
                triangles@.len() == i,
                forall|k: int|
                    0 <= k < i ==> (triangles@[k].0 as int, triangles@[k].1 as int, triangles@[
                        k
                    ].2 as int) == #[trigger] fan_triangles(count as int)[k],
            decreases count - 2 - i,
        {
            triangles.push((last, i, i + 1));
            i += 1;
        }
    }
    triangles
}

/// What clipping a line does at one plane, given which of its current
/// endpoints lie inside the plane.
#[derive(Debug, Clone, Copy, PartialEq, Eq, Structural)]
pub enum LineClipAction {
    /// Both endpoints are outside: the line is dropped.
    Reject,
    /// Only the start is inside: the end moves to the crossing point.
    MoveEnd,
    /// Only the end is inside: the start moves to the crossing point.
    MoveStart,
    /// Both endpoints are inside: nothing changes.
    Keep,
}

/// The action for a line whose start and end are inside the plane or not.
pub open spec fn line_clip_action(start_inside: bool, end_inside: bool) -> LineClipAction {
    if start_inside != end_inside {
        if start_inside {
            LineClipAction::MoveEnd
        } else {
            LineClipAction::MoveStart
        }
    } else if !start_inside {
        LineClipAction::Reject
    } else {
        LineClipAction::Keep
    }
}

/// One step of clipping a line against the planes in turn: the action for
/// this plane, the number of crossings found so far, and whether the
/// remaining planes are skipped (a segment crosses at most two planes, so
/// the walk stops once more than two crossings were counted).
pub fn line_clip_step(start_inside: bool, end_inside: bool, intersections: u32) -> (r: (
    LineClipAction,
    u32,
    bool,
))
    requires
        intersections < u32::MAX,
    ensures
        r.0 == line_clip_action(start_inside, end_inside),
        r.1 == intersections + (if start_inside != end_inside {
            1int
        } else {
            0int
        }),
        r.2 == (r.0 != LineClipAction::Reject && r.1 > 2),
{
    if start_inside != end_inside {
        let action = if start_inside {
            LineClipAction::MoveEnd
        } else {
            LineClipAction::MoveStart
        };
        let intersections = intersections + 1;
        (action, intersections, intersections > 2)
    } else if !start_inside {
        (LineClipAction::Reject, intersections, false)
    } else {
        (LineClipAction::Keep, intersections, intersections > 2)
    }
}

/// A point is kept by clipping exactly when it lies inside every plane.
pub fn point_inside_all(inside: [bool; 6]) -> (r: bool)
    ensures
        r == (forall|i: int| 0 <= i < 6 ==> #[trigger] inside@[i]),
{
    let mut i: usize = 0;
    while i < 6
        invariant
            i <= 6,
            forall|k: int| 0 <= k < i ==> #[trigger] inside@[k],
        decreases 6 - i,
    {
        if !inside[i] {
            return false;
        }
        i += 1;
    }
    true
}

/// Whether a planned vertex names a corner of the triangle, or a crossing on
/// one of the triangle's edges walked from its first to its second corner.
pub open spec fn names_triangle_vertex(vertex: PolygonVertex) -> bool {
    match vertex {
        PolygonVertex::Corner(corner) => corner < 3,
        PolygonVertex::Crossing { plane, from, to } => exists|edge: int|
            0 <= edge < 3 && #[trigger] edge_corners(edge) == (from as int, to as int),
    }
}

/// Every vertex of a clipping plan names a corner of the triangle or a point
/// on one of its edges, and a plan holds at most one crossing per edge and
/// plane and one corner per edge, so at most 21.
pub proof fn law_clip_plan_vertices(inside: [[bool; 6]; 3])
    ensures
        clip_plan(inside).len() <= 21,
        forall|k: int|
            0 <= k < clip_plan(inside).len() ==> names_triangle_vertex(
                #[trigger] clip_plan(inside)[k],
            ),
{
    lemma_clip_plan_steps_len(inside, 18);
    lemma_clip_plan_steps_vertices(inside, 18);
}

proof fn lemma_clip_plan_steps_vertices(inside: [[bool; 6]; 3], steps: nat)
    requires
        steps <= 18,
    ensures
        forall|k: int|
            0 <= k < clip_plan_steps(inside, steps).len() ==> names_triangle_vertex(
                #[trigger] clip_plan_steps(inside, steps)[k],
            ),
    decreases steps,
{
    if steps > 0 {
        let prev = clip_plan_steps(inside, (steps - 1) as nat);
        let edge = (steps - 1) / 6;
        let plane = (steps - 1) % 6;
        lemma_clip_plan_steps_vertices(inside, (steps - 1) as nat);
        let added = edge_plane_items(inside, edge, plane);
        assert forall|k: int| 0 <= k < added.len() implies names_triangle_vertex(
            #[trigger] added[k],
        ) by {
            let (s, p) = edge_corners(edge);
            assert(edge_corners(edge) == (s, p));
        }
        assert forall|k: int|
            0 <= k < clip_plan_steps(inside, steps).len() implies names_triangle_vertex(
            #[trigger] clip_plan_steps(inside, steps)[k],
        ) by {
            if k < prev.len() {
                assert(clip_plan_steps(inside, steps)[k] == prev[k]);
            } else {
                assert(clip_plan_steps(inside, steps)[k] == added[k - prev.len()]);
            }
        }
    }
}

/// Every corner of the triangle lies inside every plane.
pub open spec fn all_inside(inside: [[bool; 6]; 3]) -> bool {
    forall|c: int, p: int| 0 <= c < 3 && 0 <= p < 6 ==> #[trigger] inside@[c]@[p]
}

/// No corner of the triangle lies inside any plane.
pub open spec fn all_outside(inside: [[bool; 6]; 3]) -> bool {
    forall|c: int, p: int| 0 <= c < 3 && 0 <= p < 6 ==> !#[trigger] inside@[c]@[p]
}

proof fn lemma_clip_plan_steps_extremes(inside: [[bool; 6]; 3], steps: nat)
    requires
        steps <= 18,
    ensures
        all_inside(inside) ==> clip_plan_steps(inside, steps).len() == steps / 6,
        all_inside(inside) ==> forall|k: int|
            0 <= k < steps / 6 ==> #[trigger] clip_plan_steps(inside, steps)[k]
                == PolygonVertex::Corner(edge_corners(k).1 as usize),
        all_outside(inside) ==> clip_plan_steps(inside, steps).len() == 0,
    decreases steps,
{
    if steps > 0 {
        let n = (steps - 1) as nat;
        lemma_clip_plan_steps_extremes(inside, n);
        let edge = (n / 6) as int;
        let plane = (n % 6) as int;
        let (s, p) = edge_corners(edge);
        assert(0 <= s < 3 && 0 <= p < 3);
        assert(0 <= plane < 6);
        let prev = clip_plan_steps(inside, n);
        let added = edge_plane_items(inside, edge, plane);
        assert(plane == 5 ==> steps / 6 == n / 6 + 1);
        assert(plane != 5 ==> steps / 6 == n / 6);
        if all_inside(inside) {
            assert(inside@[s]@[plane] && inside@[p]@[plane]);
            if plane == 5 {
                assert(corner_inside(inside, p));
                assert(added =~= seq![PolygonVertex::Corner(p as usize)]);
            } else {
                assert(added =~= Seq::<PolygonVertex>::empty());
            }
            assert forall|k: int| 0 <= k < steps / 6 implies #[trigger] clip_plan_steps(
                inside,
                steps,
            )[k] == PolygonVertex::Corner(edge_corners(k).1 as usize) by {
                if k < n / 6 {
                    assert(clip_plan_steps(inside, steps)[k] == prev[k]);
                } else {
                    assert(k == edge);
                }
            }
        }
        if all_outside(inside) {
            assert(!inside@[s]@[plane] && !inside@[p]@[plane]);
            assert(!corner_inside(inside, p)) by {
                assert(!inside@[p]@[0]);
            }
            assert(added =~= Seq::<PolygonVertex>::empty());
        }
    }
}

/// A triangle inside every plane goes through unchanged: its plan is its
/// corners `b`, `c`, `a` (the second corner of each edge), the same triangle
/// with the same winding. A triangle outside every plane is dropped: its plan
/// is empty.
pub proof fn law_clip_plan_extremes(inside: [[bool; 6]; 3])
    ensures
        all_inside(inside) ==> clip_plan(inside) == seq![
            PolygonVertex::Corner(1),
            PolygonVertex::Corner(2),
            PolygonVertex::Corner(0),
        ],
        all_outside(inside) ==> clip_plan(inside).len() == 0,
{
    lemma_clip_plan_steps_extremes(inside, 18);
    if all_inside(inside) {
        let plan = clip_plan(inside);
        assert(plan[0] == PolygonVertex::Corner(edge_corners(0).1 as usize));
        assert(plan[1] == PolygonVertex::Corner(edge_corners(1).1 as usize));
        assert(plan[2] == PolygonVertex::Corner(edge_corners(2).1 as usize));
        assert(plan =~= seq![PolygonVertex::Corner(1), PolygonVertex::Corner(2), PolygonVertex::Corner(0)]);
    }
}

/// Whether one of the three indices of a triangle is `v`
pub open spec fn uses_vertex(triangle: (int, int, int), v: int) -> bool {
    triangle.0 == v || triangle.1 == v || triangle.2 == v
}

/// Whether some triangle of the fan over `count` vertices uses vertex `v`
pub open spec fn fan_uses_vertex(count: int, v: int) -> bool {
    exists|i: int| 0 <= i < fan_triangles(count).len() && uses_vertex(#[trigger] fan_triangles(count)[i], v)
}

/// The triangles a clipped polygon is cut into cover it without degenerate
/// pieces: a polygon of `count >= 3` vertices gives `count - 2` triangles,
/// each of three distinct vertices of the polygon, each sharing the polygon's
/// last vertex, and together using every vertex; a smaller polygon gives none.
/// Each triangle joins an edge of the polygon to the last vertex, with its
/// vertices in the polygon's order (so the winding is kept), and the
/// triangles follow the polygon's edges in order.
pub proof fn law_fan_covers_polygon(count: int)
    ensures
        count < 3 ==> fan_triangles(count).len() == 0,
        count >= 3 ==> fan_triangles(count).len() == count - 2,
        count >= 3 ==> forall|i: int|
            0 <= i < fan_triangles(count).len() ==> {
                let t = #[trigger] fan_triangles(count)[i];
                &&& 0 <= t.0 < count && 0 <= t.1 < count && 0 <= t.2 < count
                &&& t.0 != t.1 && t.1 != t.2 && t.0 != t.2
                &&& uses_vertex(t, count - 1)
                &&& (t.0 < t.1 < t.2 || t.1 < t.2 < t.0 || t.2 < t.0 < t.1)
                &&& t.2 == t.1 + 1
            },
        count >= 3 ==> forall|i: int, j: int|
            0 <= i < j < fan_triangles(count).len() ==> (#[trigger] fan_triangles(count)[i]).1
                < (#[trigger] fan_triangles(count)[j]).1,
        count >= 3 ==> forall|v: int| 0 <= v < count ==> #[trigger] fan_uses_vertex(count, v),
{
    if count >= 3 {
        assert forall|v: int| 0 <= v < count implies #[trigger] fan_uses_vertex(count, v) by {
            let i = if v == count - 1 {
                0
            } else if v <= count - 3 {
                v
            } else {
                count - 3
            };
            assert(uses_vertex(fan_triangles(count)[i], v));
        }
    }
}

/// The position of a plane in `ALL_CLIPPING_PLANES`
pub open spec fn plane_index(plane: ClippingPlane) -> int {
    match plane {
        ClippingPlane::Left => 0,
        ClippingPlane::Right => 1,
        ClippingPlane::Top => 2,
        ClippingPlane::Bottom => 3,
        ClippingPlane::Near => 4,
        ClippingPlane::Far => 5,
    }
}

/// Whether a planned vertex is one clipping may make: a corner that lies
/// inside every plane, or the point where an edge walked from corner `from`
/// to corner `to` crosses a plane that separates the two corners.
pub open spec fn planned_vertex_sound(inside: [[bool; 6]; 3], vertex: PolygonVertex) -> bool {
    match vertex {
        PolygonVertex::Corner(c) => c < 3 && forall|k: int|
            0 <= k < 6 ==> #[trigger] inside@[c as int]@[k],
        PolygonVertex::Crossing { plane, from, to } => {
            &&& from < 3 && to < 3
            &&& (from == 0 && to == 1) || (from == 1 && to == 2) || (from == 2 && to == 0)
            &&& inside@[from as int]@[plane_index(plane)] != inside@[to as int]@[plane_index(plane)]
        },
    }
}

proof fn lemma_plane_index(plane: int)
    requires
        0 <= plane < 6,
    ensures
        plane_index(plane_at(plane)) == plane,
        ALL_CLIPPING_PLANES@[plane] == plane_at(plane),
{
}

proof fn lemma_clip_plan_steps_sound(inside: [[bool; 6]; 3], steps: nat)
    requires
        steps <= 18,
    ensures
        forall|k: int|
            0 <= k < clip_plan_steps(inside, steps).len() ==> planned_vertex_sound(
                inside,
                #[trigger] clip_plan_steps(inside, steps)[k],
            ),
    decreases steps,
{
    if steps > 0 {
        let n = (steps - 1) as nat;
        lemma_clip_plan_steps_sound(inside, n);
        let edge = (n / 6) as int;
        let plane = (n % 6) as int;
        lemma_plane_index(plane);
        let prev = clip_plan_steps(inside, n);
        let added = edge_plane_items(inside, edge, plane);
        assert forall|k: int| 0 <= k < added.len() implies planned_vertex_sound(
            inside,
            #[trigger] added[k],
        ) by {
            let (a, b) = edge_corners(edge);
            if plane == 5 && corner_inside(inside, b) {
                assert forall|j: int| 0 <= j < 6 implies #[trigger] inside@[b]@[j] by {
                    assert(inside@[b]@[j]);
                }
            }
        }
        assert forall|k: int| 0 <= k < clip_plan_steps(inside, steps).len() implies planned_vertex_sound(
            inside,
            #[trigger] clip_plan_steps(inside, steps)[k],
        ) by {
            if k < prev.len() {
                assert(clip_plan_steps(inside, steps)[k] == prev[k]);
            } else {
                assert(clip_plan_steps(inside, steps)[k] == added[k - prev.len()]);
            }
        }
    }
}

/// Every vertex of a clipping plan is one clipping may make: each crossing
/// is on an edge of the triangle walked in order and names a plane that
/// separates the edge's two corners, and each corner lies inside every plane.
pub proof fn law_clip_plan_sound(inside: [[bool; 6]; 3])
    ensures
        forall|k: int|
            0 <= k < clip_plan(inside).len() ==> planned_vertex_sound(
                inside,
                #[trigger] clip_plan(inside)[k],
            ),
{
    lemma_clip_plan_steps_sound(inside, 18);
}

proof fn lemma_clip_plan_steps_prefix(inside: [[bool; 6]; 3], n: nat, m: nat)
    requires
        n <= m,
    ensures
        clip_plan_steps(inside, n).len() <= clip_plan_steps(inside, m).len(),
        forall|i: int|
            0 <= i < clip_plan_steps(inside, n).len() ==> #[trigger] clip_plan_steps(inside, m)[i]
                == clip_plan_steps(inside, n)[i],
    decreases m,
{
    if n < m {
        lemma_clip_plan_steps_prefix(inside, n, (m - 1) as nat);
        assert forall|i: int| 0 <= i < clip_plan_steps(inside, n).len() implies #[trigger] clip_plan_steps(
            inside,
            m,
        )[i] == clip_plan_steps(inside, n)[i] by {
            assert(clip_plan_steps(inside, m)[i] == clip_plan_steps(inside, (m - 1) as nat)[i]);
        }
    }
}

/// Whether the plan holds the crossing of edge `from`..`to` with the plane at
/// position `plane`
pub open spec fn plan_has_crossing(plan: Seq<PolygonVertex>, from: int, to: int, plane: int) -> bool {
    exists|j: int|
        0 <= j < plan.len() && (#[trigger] plan[j] matches PolygonVertex::Crossing {
            plane: q,
            from: f,
            to: t,
        } && f == from && t == to && plane_index(q) == plane)
}

/// Clipping misses nothing: for every edge of the triangle and every plane
/// that separates the edge's two corners, the plan holds the crossing of the
/// edge with that plane; and every corner that lies inside every plane is in
/// the plan.
pub proof fn law_clip_plan_complete(inside: [[bool; 6]; 3], edge: int, plane: int)
    requires
        0 <= edge < 3,
        0 <= plane < 6,
    ensures
        inside@[edge_corners(edge).0]@[plane] != inside@[edge_corners(edge).1]@[plane]
            ==> plan_has_crossing(clip_plan(inside), edge_corners(edge).0, edge_corners(edge).1, plane),
        (forall|k: int| 0 <= k < 6 ==> #[trigger] inside@[edge_corners(edge).1]@[k])
            ==> clip_plan(inside).contains(PolygonVertex::Corner(edge_corners(edge).1 as usize)),
{
    let t = (edge * 6 + plane) as nat;
    assert(t / 6 == edge && t % 6 == plane);
    lemma_plane_index(plane);
    lemma_clip_plan_steps_prefix(inside, t + 1, 18);
    let before = clip_plan_steps(inside, t);
    let after = clip_plan_steps(inside, t + 1);
    let added = edge_plane_items(inside, edge, plane);
    assert(after == before + added);
    let (s, p) = edge_corners(edge);
    if inside@[s]@[plane] != inside@[p]@[plane] {
        let j = before.len() as int;
        assert(after[j] == added[0]);
        assert(clip_plan(inside)[j] == after[j]);
    }
    if forall|k: int| 0 <= k < 6 ==> #[trigger] inside@[p]@[k] {
        let t5 = (edge * 6 + 5) as nat;
        assert(t5 / 6 == edge && t5 % 6 == 5);
        lemma_clip_plan_steps_prefix(inside, t5 + 1, 18);
        let b5 = clip_plan_steps(inside, t5);
        let a5 = clip_plan_steps(inside, t5 + 1);
        let items5 = edge_plane_items(inside, edge, 5);
        assert(a5 == b5 + items5);
        assert(corner_inside(inside, p));
        let j = a5.len() - 1;
        assert(a5[j] == PolygonVertex::Corner(p as usize));
        assert(clip_plan(inside)[j] == a5[j]);
    }
}

/// Where a planned vertex belongs in the walk of the triangle: edges in the
/// order `(a, b)`, `(b, c)`, `(c, a)`, within an edge the crossings in the
/// order of `ALL_CLIPPING_PLANES`, then the edge's second corner.
pub open spec fn walk_position(vertex: PolygonVertex) -> int {
    match vertex {
        PolygonVertex::Crossing { plane, from, to } => from * 7 + plane_index(plane),
        PolygonVertex::Corner(c) => ((c + 2) % 3) * 7 + 6,
    }
}

/// The first position that step `n` of the plan may add
spec fn step_bound(n: int) -> int {
    (n / 6) * 7 + n % 6
}

proof fn lemma_clip_plan_steps_ordered(inside: [[bool; 6]; 3], steps: nat)
    requires
        steps <= 18,
    ensures
        forall|k: int|
            0 <= k < clip_plan_steps(inside, steps).len() ==> walk_position(
                #[trigger] clip_plan_steps(inside, steps)[k],
            ) < step_bound(steps as int),
        forall|j: int, k: int|
            0 <= j < k < clip_plan_steps(inside, steps).len() ==> walk_position(
                #[trigger] clip_plan_steps(inside, steps)[j],
            ) < walk_position(#[trigger] clip_plan_steps(inside, steps)[k]),
    decreases steps,
{
    if steps > 0 {
        let n = (steps - 1) as nat;
        lemma_clip_plan_steps_ordered(inside, n);
        let edge = (n / 6) as int;
        let plane = (n % 6) as int;
        lemma_plane_index(plane);
        let prev = clip_plan_steps(inside, n);
        let added = edge_plane_items(inside, edge, plane);
        let all = clip_plan_steps(inside, steps);
        assert(all == prev + added);
        assert(step_bound(n as int) == edge * 7 + plane);
        assert(step_bound(steps as int) == if plane == 5 {
            edge * 7 + 7
        } else {
            edge * 7 + plane + 1
        });
        assert forall|k: int| 0 <= k < added.len() implies step_bound(n as int) <= walk_position(
            #[trigger] added[k],
        ) < step_bound(steps as int) && (k == 1 ==> walk_position(added[0]) < walk_position(
            added[1],
        )) by {
            let (a, b) = edge_corners(edge);
            assert(b == (if edge == 0 {
                1int
            } else if edge == 1 {
                2int
            } else {
                0int
            }));
            assert((b + 2) % 3 == edge);
        }
        assert forall|k: int| 0 <= k < all.len() implies walk_position(#[trigger] all[k])
            < step_bound(steps as int) by {
            if k < prev.len() {
                assert(all[k] == prev[k]);
            } else {
                assert(all[k] == added[k - prev.len()]);
            }
        }
        assert forall|j: int, k: int| 0 <= j < k < all.len() implies walk_position(
            #[trigger] all[j],
        ) < walk_position(#[trigger] all[k]) by {
            if k < prev.len() {
                assert(all[k] == prev[k]);
                assert(all[j] == prev[j]);
            } else if j < prev.len() {
                assert(all[j] == prev[j]);
                assert(all[k] == added[k - prev.len()]);
            } else {
                assert(all[j] == added[j - prev.len()]);
                assert(all[k] == added[k - prev.len()]);
            }
        }
    }
}

/// A clipping plan walks the triangle in order: its vertices stand in the
/// order of the edges `(a, b)`, `(b, c)`, `(c, a)`, within an edge the
/// crossings in the order of `ALL_CLIPPING_PLANES` and then the edge's second
/// corner, and no vertex stands in it twice.
pub proof fn law_clip_plan_ordered(inside: [[bool; 6]; 3])
    ensures
        forall|j: int, k: int|
            0 <= j < k < clip_plan(inside).len() ==> walk_position(#[trigger] clip_plan(inside)[j])
                < walk_position(#[trigger] clip_plan(inside)[k]),
{
    lemma_clip_plan_steps_ordered(inside, 18);
}

} // verus!
