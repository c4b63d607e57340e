//! Primitive kinds and references to the vertices of one primitive

use vstd::prelude::*;

verus! {

/// Holds references to primitive vertices for each primitive type
#[derive(Debug, Clone, Copy)]
pub enum PrimitiveRef<'p, V> {
    Point(&'p V),
    Line { start: &'p V, end: &'p V },
    Triangle { a: &'p V, b: &'p V, c: &'p V },
}

/// Holds mutable references to primitive vertices for each primitive type
#[derive(Debug)]
pub enum PrimitiveMut<'p, V> {
    Point(&'p mut V),
    Line { start: &'p mut V, end: &'p mut V },
    Triangle { a: &'p mut V, b: &'p mut V, c: &'p mut V },
}

impl<'p, V> PrimitiveRef<'p, V> {
    /// The vertices of the primitive, in order; their number tells the kind
    /// of primitive (one for a point, two for a line, three for a triangle)
    pub open spec fn vertices(self) -> Seq<V> {
        match self {
            PrimitiveRef::Point(point) => seq![*point],
            PrimitiveRef::Line { start, end } => seq![*start, *end],
            PrimitiveRef::Triangle { a, b, c } => seq![*a, *b, *c],
        }
    }
}

impl<'p, V> PrimitiveMut<'p, V> {
    /// The vertices of the primitive, in order, as they are now
    pub open spec fn vertices(self) -> Seq<V> {
        match self {
            PrimitiveMut::Point(point) => seq![*point],
            PrimitiveMut::Line { start, end } => seq![*start, *end],
            PrimitiveMut::Triangle { a, b, c } => seq![*a, *b, *c],
        }
    }

}

/// The vertices that the indices name, in the order of the indices
pub open spec fn indexed<V>(vertices: Seq<V>, indices: Seq<usize>) -> Seq<V> {
    Seq::new(indices.len(), |k: int| vertices[indices[k] as int])
}

/// Defines the kinds of primitives that can be rendered by themselves.
pub trait Primitive {
    /// The number of vertices of one primitive of this kind
    spec fn vertex_count() -> nat;

    /// Get's the number of vertices for the given primitive type
    fn num_vertices() -> (r: usize)
        ensures
            r == Self::vertex_count(),
            1 <= r <= 3,
    ;

    /// Creates a `PrimitiveRef` from the first vertices of a slice
    ///
    /// This is used internally.
    fn create_ref_from_vertices<'p, V>(vertices: &'p [V]) -> (r: PrimitiveRef<'p, V>)
        requires
            vertices@.len() >= Self::vertex_count(),
        ensures
            r.vertices() == vertices@.take(Self::vertex_count() as int),
    ;

    /// Creates a 'PrimitiveMut` from the first vertices of a slice
    ///
    /// This is used internally.
    fn create_mut_from_vertices<'p, V>(vertices: &'p mut [V]) -> (r: PrimitiveMut<'p, V>)
        requires
            old(vertices)@.len() >= Self::vertex_count(),
        ensures
            r.vertices() == old(vertices)@.take(Self::vertex_count() as int),
            final(vertices)@ == (match r {
                PrimitiveMut::Point(point) => seq![*final(point)],
                PrimitiveMut::Line { start, end } => seq![*final(start), *final(end)],
                PrimitiveMut::Triangle { a, b, c } => seq![*final(a), *final(b), *final(c)],
            }) + old(vertices)@.skip(Self::vertex_count() as int),
    ;

    /// Creates a `PrimitiveRef` from some indexed vertices.
    ///
    /// This are used internally.
    fn create_ref_from_indexed_vertices<'p, V>(vertices: &'p [V], indices: &[usize]) -> (r:
        PrimitiveRef<'p, V>)
        requires
            indices@.len() >= Self::vertex_count(),
            forall|k: int|
                0 <= k < Self::vertex_count() ==> #[trigger] indices@[k] < vertices@.len(),
        ensures
            r.vertices() == indexed(vertices@, indices@.take(Self::vertex_count() as int)),
    ;
}

/// Individual points
#[derive(Debug, Clone, Copy, Default)]
pub struct Point;

/// Lines between two vertices
#[derive(Debug, Clone, Copy, Default)]
pub struct Line;

/// Triangles between three vertices
#[derive(Debug, Clone, Copy, Default)]
pub struct Triangle;

impl Primitive for Point {
    open spec fn vertex_count() -> nat {
        1
    }

    #[inline(always)]
    fn num_vertices() -> (r: usize) {
        1
    }

    fn create_ref_from_vertices<'p, V>(vertices: &'p [V]) -> (r: PrimitiveRef<'p, V>) {
        let r = PrimitiveRef::Point(&vertices[0]);
        assert(r.vertices() =~= vertices@.take(1));
        r
    }

    fn create_mut_from_vertices<'p, V>(vertices: &'p mut [V]) -> (r: PrimitiveMut<'p, V>) {
        let (point, rest) = vertices.split_at_mut(1);
        let point = <[V]>::first_mut(point).unwrap();
        PrimitiveMut::Point(point)
    }

    fn create_ref_from_indexed_vertices<'p, V>(vertices: &'p [V], indices: &[usize]) -> (r:
        PrimitiveRef<'p, V>) {
        let r = PrimitiveRef::Point(&vertices[indices[0]]);
        assert(r.vertices() =~= indexed(vertices@, indices@.take(1)));
        r
    }
}

impl Primitive for Line {
    open spec fn vertex_count() -> nat {
        2
    }

    #[inline(always)]
    fn num_vertices() -> (r: usize) {
        2
    }

    fn create_ref_from_vertices<'p, V>(vertices: &'p [V]) -> (r: PrimitiveRef<'p, V>) {
        let r = PrimitiveRef::Line { start: &vertices[0], end: &vertices[1] };
        assert(r.vertices() =~= vertices@.take(2));
        r
    }

    fn create_mut_from_vertices<'p, V>(vertices: &'p mut [V]) -> (r: PrimitiveMut<'p, V>) {
        let (start, rest) = vertices.split_at_mut(1);
        let (end, rest) = rest.split_at_mut(1);
        let start = <[V]>::first_mut(start).unwrap();
        let end = <[V]>::first_mut(end).unwrap();
        PrimitiveMut::Line { start, end }
    }

    fn create_ref_from_indexed_vertices<'p, V>(vertices: &'p [V], indices: &[usize]) -> (r:
        PrimitiveRef<'p, V>) {
        let r = PrimitiveRef::Line { start: &vertices[indices[0]], end: &vertices[indices[1]] };
        assert(r.vertices() =~= indexed(vertices@, indices@.take(2)));
        r
    }
}

impl Primitive for Triangle {
    open spec fn vertex_count() -> nat {
        3
    }

    #[inline(always)]
    fn num_vertices() -> (r: usize) {
        3
    }

    fn create_ref_from_vertices<'p, V>(vertices: &'p [V]) -> (r: PrimitiveRef<'p, V>) {
        let r = PrimitiveRef::Triangle { a: &vertices[0], b: &vertices[1], c: &vertices[2] };
        assert(r.vertices() =~= vertices@.take(3));
        r
    }

    fn create_mut_from_vertices<'p, V>(vertices: &'p mut [V]) -> (r: PrimitiveMut<'p, V>) {
        let (a, rest) = vertices.split_at_mut(1);
        let (b, rest) = rest.split_at_mut(1);
        let (c, rest) = rest.split_at_mut(1);
        let a = <[V]>::first_mut(a).unwrap();
        let b = <[V]>::first_mut(b).unwrap();
        let c = <[V]>::first_mut(c).unwrap();
        PrimitiveMut::Triangle { a, b, c }
    }

    fn create_ref_from_indexed_vertices<'p, V>(vertices: &'p [V], indices: &[usize]) -> (r:
        PrimitiveRef<'p, V>) {
        let r = PrimitiveRef::Triangle {
            a: &vertices[indices[0]],
            b: &vertices[indices[1]],
            c: &vertices[indices[2]],
        };
        assert(r.vertices() =~= indexed(vertices@, indices@.take(3)));
        r
    }
}

/// The `k`-th primitive of a list that holds whole primitives of `count`
/// vertices each, one after the other
pub open spec fn nth_primitive<V>(vertices: Seq<V>, count: nat, k: int) -> Seq<V> {
    vertices.subrange(k * count, k * count + count)
}

/// Splits a list of vertices into its primitives of kind `T`, in order: the
/// first `T::num_vertices()` vertices form the first primitive, the next ones
/// the second, and so on. The list holds whole primitives only.
pub fn split_primitives<'p, T: Primitive, V>(vertices: &'p [V]) -> (r: Vec<PrimitiveRef<'p, V>>)
    requires
        vertices@.len() % T::vertex_count() == 0,
    ensures
        r@.len() * T::vertex_count() == vertices@.len(),
        forall|k: int|
            0 <= k < r@.len() ==> #[trigger] r@[k].vertices() == nth_primitive(
                vertices@,
                T::vertex_count(),
                k,
            ),
{
    let n = T::num_vertices();
    let len = vertices.len();
    let ghost total: int = len as int / n as int;
    proof {
        vstd::arithmetic::div_mod::lemma_fundamental_div_mod(len as int, n as int);
    }
    let mut out: Vec<PrimitiveRef<'p, V>> = Vec::new();
    let mut i: usize = 0;
    assert(out@.len() * n == 0) by (nonlinear_arith)
        requires
            out@.len() == 0,
    ;
    while i < len
        invariant
            n == T::vertex_count(),
            1 <= n <= 3,
            len == vertices@.len(),
            len == n * total,
            i == out@.len() * n,
            i <= len,
            forall|k: int|
                0 <= k < out@.len() ==> #[trigger] out@[k].vertices() == nth_primitive(
                    vertices@,
                    T::vertex_count(),
                    k,
                ),
        decreases len - i,
    {
        let ghost k: int = out@.len() as int;
        assert(i + n <= len) by (nonlinear_arith)
            requires
                i == k * n,
                i < len,
                len == n * total,
                n >= 1,
        ;
        let rest = &vertices[i..len];
        let primitive = T::create_ref_from_vertices(rest);
        assert(rest@.take(n as int) =~= nth_primitive(vertices@, T::vertex_count(), k));
        out.push(primitive);
        assert((k + 1) * n == k * n + n) by (nonlinear_arith);
        i = i + n;
    }
    out
}

/// Splits a list of indices into the primitives of kind `T` that they name,
/// in order: the first `T::num_vertices()` indices name the vertices of the
/// first primitive, the next ones those of the second, and so on. The list
/// holds whole primitives only, and every index names a vertex.
pub fn split_indexed_primitives<'p, T: Primitive, V>(vertices: &'p [V], indices: &[usize]) -> (r: Vec<
    PrimitiveRef<'p, V>,
>)
    requires
        indices@.len() % T::vertex_count() == 0,
        forall|j: int| 0 <= j < indices@.len() ==> #[trigger] indices@[j] < vertices@.len(),
    ensures
        r@.len() * T::vertex_count() == indices@.len(),
        forall|k: int|
            0 <= k < r@.len() ==> #[trigger] r@[k].vertices() == indexed(
                vertices@,
                nth_primitive(indices@, T::vertex_count(), k),
            ),
{
    let n = T::num_vertices();
    let len = indices.len();
    let ghost total: int = len as int / n as int;
    proof {
        vstd::arithmetic::div_mod::lemma_fundamental_div_mod(len as int, n as int);
    }
    let mut out: Vec<PrimitiveRef<'p, V>> = Vec::new();
    let mut i: usize = 0;
    assert(out@.len() * n == 0) by (nonlinear_arith)
        requires
            out@.len() == 0,
    ;
    while i < len
        invariant
            n == T::vertex_count(),
            1 <= n <= 3,
            len == indices@.len(),
            len == n * total,
            i == out@.len() * n,
            i <= len,
            forall|j: int| 0 <= j < indices@.len() ==> #[trigger] indices@[j] < vertices@.len(),
            forall|k: int|
                0 <= k < out@.len() ==> #[trigger] out@[k].vertices() == indexed(
                    vertices@,
                    nth_primitive(indices@, T::vertex_count(), k),
                ),
        decreases len - i,
    {
        let ghost k: int = out@.len() as int;
        assert(i + n <= len) by (nonlinear_arith)
            requires
                i == k * n,
                i < len,
                len == n * total,
                n >= 1,
        ;
        let rest = &indices[i..len];
        assert forall|j: int| 0 <= j < T::vertex_count() implies #[trigger] rest@[j] < vertices@.len() by {
            assert(rest@[j] == indices@[i + j]);
        }
        let primitive = T::create_ref_from_indexed_vertices(vertices, rest);
        assert(rest@.take(n as int) =~= nth_primitive(indices@, T::vertex_count(), k));
        out.push(primitive);
        assert((k + 1) * n == k * n + n) by (nonlinear_arith);
        i = i + n;
    }
    out
}

/// Naming the first `n` vertices by the indices `0, 1, ..., n - 1` gives the
/// same vertices as taking the first `n` in order, so an indexed primitive
/// built with those indices equals the primitive built from the vertices.
pub proof fn law_identity_indices<V>(vertices: Seq<V>, n: nat)
    requires
        n <= vertices.len(),
        n <= usize::MAX,
    ensures
        indexed(vertices, Seq::new(n, |k: int| k as usize)) == vertices.take(n as int),
{
    assert(indexed(vertices, Seq::new(n, |k: int| k as usize)) =~= vertices.take(n as int));
}

} // verus!
