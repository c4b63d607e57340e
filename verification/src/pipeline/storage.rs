//! Storage structures for the primitives that the geometry stage generates

use vstd::prelude::*;

use crate::primitive::PrimitiveRef;

verus! {

/// Primitives kept apart by kind: points one vertex each, lines two
/// consecutive vertices each, triangles three consecutive vertices each.
#[derive(Clone)]
pub struct SeparablePrimitiveStorage<V> {
    pub points: Vec<V>,
    pub lines: Vec<V>,
    pub tris: Vec<V>,
}

impl<V> SeparablePrimitiveStorage<V> {
    /// The line and triangle lists hold whole primitives only.
    pub open spec fn whole_primitives(&self) -> bool {
        &&& self.lines@.len() % 2 == 0
        &&& self.tris@.len() % 3 == 0
    }

    /// Moves all primitives of `other` to the end of `self`'s lists, leaving `other` empty
    pub fn append(&mut self, other: &mut SeparablePrimitiveStorage<V>)
        ensures
            final(self).points@ == old(self).points@ + old(other).points@,
            final(self).lines@ == old(self).lines@ + old(other).lines@,
            final(self).tris@ == old(self).tris@ + old(other).tris@,
            final(other).points@ == Seq::<V>::empty(),
            final(other).lines@ == Seq::<V>::empty(),
            final(other).tris@ == Seq::<V>::empty(),
            old(self).whole_primitives() && old(other).whole_primitives()
                ==> final(self).whole_primitives(),
    {
        self.points.append(&mut other.points);
        self.lines.append(&mut other.lines);
        self.tris.append(&mut other.tris);
    }

    /// Adds a point
    #[inline]
    pub fn push_point(&mut self, point: V)
        ensures
            final(self).points@ == old(self).points@.push(point),
            final(self).lines@ == old(self).lines@,
            final(self).tris@ == old(self).tris@,
            old(self).whole_primitives() ==> final(self).whole_primitives(),
    {
        self.points.push(point);
    }

    /// Adds a line
    #[inline]
    pub fn push_line(&mut self, start: V, end: V)
        ensures
            final(self).points@ == old(self).points@,
            final(self).lines@ == old(self).lines@.push(start).push(end),
            final(self).tris@ == old(self).tris@,
            old(self).whole_primitives() ==> final(self).whole_primitives(),
    {
        self.lines.reserve(2);
        self.lines.push(start);
        self.lines.push(end);
    }

    /// Adds a triangle
    #[inline]
    pub fn push_triangle(&mut self, a: V, b: V, c: V)
        ensures
            final(self).points@ == old(self).points@,
            final(self).lines@ == old(self).lines@,
            final(self).tris@ == old(self).tris@.push(a).push(b).push(c),
            old(self).whole_primitives() ==> final(self).whole_primitives(),
    {
        self.tris.reserve(3);
        self.tris.push(a);
        self.tris.push(b);
        self.tris.push(c);
    }
}

impl<V> Default for SeparablePrimitiveStorage<V> {
    fn default() -> (r: SeparablePrimitiveStorage<V>)
        ensures
            r.points@ == Seq::<V>::empty(),
            r.lines@ == Seq::<V>::empty(),
            r.tris@ == Seq::<V>::empty(),
    {
        SeparablePrimitiveStorage { points: Vec::new(), lines: Vec::new(), tris: Vec::new() }
    }
}

/// The list of one kind of a storage: its points (`kind == 0`), its lines
/// (`kind == 1`) or its triangles (otherwise)
pub open spec fn kind_list<V>(storage: SeparablePrimitiveStorage<V>, kind: int) -> Seq<V> {
    if kind == 0 {
        storage.points@
    } else if kind == 1 {
        storage.lines@
    } else {
        storage.tris@
    }
}

/// The lists of one kind of several storages, one after the other
pub open spec fn gathered<V>(parts: Seq<SeparablePrimitiveStorage<V>>, kind: int) -> Seq<V> {
    parts.map_values(|part: SeparablePrimitiveStorage<V>| kind_list(part, kind)).flatten()
}

/// Adding one more storage at the end adds its list at the end.
proof fn lemma_gathered_push<V>(parts: Seq<SeparablePrimitiveStorage<V>>, i: int, kind: int)
    requires
        0 <= i < parts.len(),
    ensures
        gathered(parts.take(i + 1), kind) == gathered(parts.take(i), kind) + kind_list(
            parts[i],
            kind,
        ),
{
    let f = |part: SeparablePrimitiveStorage<V>| kind_list(part, kind);
    assert(parts.take(i + 1).map_values(f) =~= parts.take(i).map_values(f).push(kind_list(parts[i], kind)));
    parts.take(i).map_values(f).lemma_flatten_push(kind_list(parts[i], kind));
}

/// Gathers the primitives of several storages into one: each list holds the
/// lists of that kind of all the storages, one after the other, and the
/// storages are left empty.
pub fn merge_storages<V>(parts: &mut Vec<SeparablePrimitiveStorage<V>>) -> (r: SeparablePrimitiveStorage<V>)
    ensures
        r.points@ == gathered(old(parts)@, 0),
        r.lines@ == gathered(old(parts)@, 1),
        r.tris@ == gathered(old(parts)@, 2),
        final(parts)@.len() == old(parts)@.len(),
        forall|k: int|
            0 <= k < final(parts)@.len() ==> (#[trigger] final(parts)@[k]).points@.len() == 0
                && final(parts)@[k].lines@.len() == 0 && final(parts)@[k].tris@.len() == 0,
        (forall|k: int| 0 <= k < old(parts)@.len() ==> (#[trigger] old(parts)@[k]).whole_primitives())
            ==> r.whole_primitives(),
{
    let mut num_point_vertices: usize = 0;
    let mut num_line_vertices: usize = 0;
    let mut num_tri_vertices: usize = 0;
    let mut j: usize = 0;
    while j < parts.len()
        invariant
            j <= parts@.len(),
        decreases parts@.len() - j,
    {
        num_point_vertices = num_point_vertices.saturating_add(parts[j].points.len());
        num_line_vertices = num_line_vertices.saturating_add(parts[j].lines.len());
        num_tri_vertices = num_tri_vertices.saturating_add(parts[j].tris.len());
        j += 1;
    }

    let mut storage = SeparablePrimitiveStorage {
        points: Vec::with_capacity(num_point_vertices),
        lines: Vec::with_capacity(num_line_vertices),
        tris: Vec::with_capacity(num_tri_vertices),
    };

    let ghost before = parts@;
    let ghost all_whole = forall|k: int|
        0 <= k < before.len() ==> (#[trigger] before[k]).whole_primitives();
    proof {
        assert(before.take(0).map_values(|part: SeparablePrimitiveStorage<V>| kind_list(part, 0)) =~= Seq::empty());
        assert(before.take(0).map_values(|part: SeparablePrimitiveStorage<V>| kind_list(part, 1)) =~= Seq::empty());
        assert(before.take(0).map_values(|part: SeparablePrimitiveStorage<V>| kind_list(part, 2)) =~= Seq::empty());
    }
    let mut i: usize = 0;
    while i < parts.len()
        invariant
            i <= parts@.len(),
            parts@.len() == before.len(),
            all_whole == (forall|k: int|
                0 <= k < before.len() ==> (#[trigger] before[k]).whole_primitives()),
            storage.points@ == gathered(before.take(i as int), 0),
            storage.lines@ == gathered(before.take(i as int), 1),
            storage.tris@ == gathered(before.take(i as int), 2),
            all_whole ==> storage.whole_primitives(),
            forall|k: int|
                0 <= k < i ==> (#[trigger] parts@[k]).points@.len() == 0 && parts@[k].lines@.len()
                    == 0 && parts@[k].tris@.len() == 0,
            forall|k: int| i <= k < parts@.len() ==> #[trigger] parts@[k] == before[k],
        decreases parts@.len() - i,
    {
        proof {
            lemma_gathered_push(before, i as int, 0);
            lemma_gathered_push(before, i as int, 1);
            lemma_gathered_push(before, i as int, 2);
        }
        storage.append(&mut parts[i]);
        i += 1;
    }
    proof {
        assert(before.take(before.len() as int) =~= before);
    }
    storage
}

/// Primitives in screen-space, kept apart by kind as in `SeparablePrimitiveStorage`
#[derive(Clone)]
pub struct SeparableScreenPrimitiveStorage<V> {
    pub points: Vec<V>,
    pub lines: Vec<V>,
    pub tris: Vec<V>,
}

impl<V> Default for SeparableScreenPrimitiveStorage<V> {
    fn default() -> (r: SeparableScreenPrimitiveStorage<V>)
        ensures
            r.points@ == Seq::<V>::empty(),
            r.lines@ == Seq::<V>::empty(),
            r.tris@ == Seq::<V>::empty(),
    {
        SeparableScreenPrimitiveStorage { points: Vec::new(), lines: Vec::new(), tris: Vec::new() }
    }
}

/// Holds a reference to the internal storage structure for primitives
pub struct PrimitiveStorage<'s, V> {
    pub inner: &'s mut SeparablePrimitiveStorage<V>,
}

impl<'s, V> PrimitiveStorage<'s, V> {
    /// Adds a point to the storage
    #[inline(always)]
    pub fn emit_point(&mut self, point: V)
        ensures
            final(self).inner.points@ == old(self).inner.points@.push(point),
            final(self).inner.lines@ == old(self).inner.lines@,
            final(self).inner.tris@ == old(self).inner.tris@,
            old(self).inner.whole_primitives() ==> final(self).inner.whole_primitives(),
            *final(final(self).inner) == *final(old(self).inner),
    {
        self.inner.push_point(point);
    }

    /// Adds a line to the storage
    #[inline(always)]
    pub fn emit_line(&mut self, start: V, end: V)
        ensures
            final(self).inner.points@ == old(self).inner.points@,
            final(self).inner.lines@ == old(self).inner.lines@.push(start).push(end),
            final(self).inner.tris@ == old(self).inner.tris@,
            old(self).inner.whole_primitives() ==> final(self).inner.whole_primitives(),
            *final(final(self).inner) == *final(old(self).inner),
    {
        self.inner.push_line(start, end);
    }

    /// Adds a triangle to the storage
    #[inline(always)]
    pub fn emit_triangle(&mut self, a: V, b: V, c: V)
        ensures
            final(self).inner.points@ == old(self).inner.points@,
            final(self).inner.lines@ == old(self).inner.lines@,
            final(self).inner.tris@ == old(self).inner.tris@.push(a).push(b).push(c),
            old(self).inner.whole_primitives() ==> final(self).inner.whole_primitives(),
            *final(final(self).inner) == *final(old(self).inner),
    {
        self.inner.push_triangle(a, b, c)
    }

    /// Adds a copy of the primitive to the storage, to the list of its kind
    #[inline]
    pub fn emit<'p>(&mut self, primitive: PrimitiveRef<'p, V>) where V: Clone
        ensures
            ({
                let added = primitive.vertices().len();
                let list = if added == 1 {
                    (old(self).inner.points@, final(self).inner.points@)
                } else if added == 2 {
                    (old(self).inner.lines@, final(self).inner.lines@)
                } else {
                    (old(self).inner.tris@, final(self).inner.tris@)
                };
                &&& list.1.len() == list.0.len() + added
                &&& list.1.take(list.0.len() as int) == list.0
                &&& forall|k: int|
                    0 <= k < added ==> cloned(
                        #[trigger] primitive.vertices()[k],
                        list.1[list.0.len() + k],
                    )
            }),
            added_elsewhere_unchanged(primitive, *old(self).inner, *final(self).inner),
            old(self).inner.whole_primitives() ==> final(self).inner.whole_primitives(),
            *final(final(self).inner) == *final(old(self).inner),
    {
        match primitive {
            PrimitiveRef::Point(point) => self.emit_point(point.clone()),
            PrimitiveRef::Line { start, end } => self.emit_line(start.clone(), end.clone()),
            PrimitiveRef::Triangle { a, b, c } => self.emit_triangle(a.clone(), b.clone(), c.clone()),
        }
    }
}

/// The lists of the kinds other than the primitive's own are left as they were.
pub open spec fn added_elsewhere_unchanged<'p, V>(
    primitive: PrimitiveRef<'p, V>,
    before: SeparablePrimitiveStorage<V>,
    after: SeparablePrimitiveStorage<V>,
) -> bool {
    &&& !(primitive is Point) ==> after.points@ == before.points@
    &&& !(primitive is Line) ==> after.lines@ == before.lines@
    &&& !(primitive is Triangle) ==> after.tris@ == before.tris@
}

} // verus!
