use softrender::pipeline::storage::{
    merge_storages, PrimitiveStorage, SeparablePrimitiveStorage, SeparableScreenPrimitiveStorage,
};
use softrender::primitive::{
    split_indexed_primitives, split_primitives, Line, Point, Primitive, PrimitiveMut, PrimitiveRef,
    Triangle,
};

fn ref_vertices<V: Copy>(r: PrimitiveRef<'_, V>) -> Vec<V> {
    match r {
        PrimitiveRef::Point(p) => vec![*p],
        PrimitiveRef::Line { start, end } => vec![*start, *end],
        PrimitiveRef::Triangle { a, b, c } => vec![*a, *b, *c],
    }
}

#[test]
fn primitive_vertex_counts() {
    assert_eq!(Point::num_vertices(), 1);
    assert_eq!(Line::num_vertices(), 2);
    assert_eq!(Triangle::num_vertices(), 3);
}

#[test]
fn primitive_refs_from_vertices() {
    let v = [10, 20, 30, 40];
    assert_eq!(ref_vertices(Point::create_ref_from_vertices(&v)), vec![10]);
    assert_eq!(ref_vertices(Line::create_ref_from_vertices(&v)), vec![10, 20]);
    assert_eq!(ref_vertices(Triangle::create_ref_from_vertices(&v)), vec![10, 20, 30]);
    assert_eq!(ref_vertices(Triangle::create_ref_from_vertices(&v[1..])), vec![20, 30, 40]);
}

#[test]
fn primitive_refs_from_indexed_vertices() {
    let v = ['a', 'b', 'c', 'd'];
    assert_eq!(ref_vertices(Point::create_ref_from_indexed_vertices(&v, &[3])), vec!['d']);
    assert_eq!(ref_vertices(Line::create_ref_from_indexed_vertices(&v, &[2, 0])), vec!['c', 'a']);
    assert_eq!(
        ref_vertices(Triangle::create_ref_from_indexed_vertices(&v, &[1, 1, 3, 0])),
        vec!['b', 'b', 'd']
    );
}

#[test]
fn primitive_law_identity_indices() {
    let v = [5u8, 6, 7];
    let idx = [0usize, 1, 2];
    assert_eq!(
        ref_vertices(Triangle::create_ref_from_indexed_vertices(&v, &idx)),
        ref_vertices(Triangle::create_ref_from_vertices(&v))
    );
    assert_eq!(
        ref_vertices(Line::create_ref_from_indexed_vertices(&v, &idx)),
        ref_vertices(Line::create_ref_from_vertices(&v))
    );
}

#[test]
fn primitive_mut_writes_through() {
    let mut v = [1, 2, 3, 4];
    match Triangle::create_mut_from_vertices(&mut v) {
        PrimitiveMut::Triangle { a, b, c } => {
            *a += 10;
            *b += 20;
            *c += 30;
        }
        _ => panic!("expected a triangle"),
    }
    assert_eq!(v, [11, 22, 33, 4]);
    match Line::create_mut_from_vertices(&mut v[2..]) {
        PrimitiveMut::Line { start, end } => {
            *start = 0;
            *end = 9;
        }
        _ => panic!("expected a line"),
    }
    assert_eq!(v, [11, 22, 0, 9]);
    match Point::create_mut_from_vertices(&mut v) {
        PrimitiveMut::Point(p) => *p = 7,
        _ => panic!("expected a point"),
    }
    assert_eq!(v, [7, 22, 0, 9]);
}

#[test]
fn storage_push_keeps_kinds_apart() {
    let mut s: SeparablePrimitiveStorage<u32> = SeparablePrimitiveStorage::default();
    assert!(s.points.is_empty() && s.lines.is_empty() && s.tris.is_empty());
    s.push_point(1);
    s.push_line(2, 3);
    s.push_triangle(4, 5, 6);
    s.push_point(7);
    assert_eq!(s.points, vec![1, 7]);
    assert_eq!(s.lines, vec![2, 3]);
    assert_eq!(s.tris, vec![4, 5, 6]);
}

#[test]
fn storage_append_moves_everything() {
    let mut a: SeparablePrimitiveStorage<u32> = SeparablePrimitiveStorage::default();
    a.push_point(1);
    a.push_line(2, 3);
    let mut b: SeparablePrimitiveStorage<u32> = SeparablePrimitiveStorage::default();
    b.push_point(10);
    b.push_triangle(11, 12, 13);
    b.push_line(14, 15);
    a.append(&mut b);
    assert_eq!(a.points, vec![1, 10]);
    assert_eq!(a.lines, vec![2, 3, 14, 15]);
    assert_eq!(a.tris, vec![11, 12, 13]);
    assert!(b.points.is_empty() && b.lines.is_empty() && b.tris.is_empty());
    assert_eq!(a.lines.len() % 2, 0);
    assert_eq!(a.tris.len() % 3, 0);
}

#[test]
fn storage_emit_through_handle() {
    let mut inner: SeparablePrimitiveStorage<char> = SeparablePrimitiveStorage::default();
    {
        let mut storage = PrimitiveStorage { inner: &mut inner };
        storage.emit_point('p');
        storage.emit_line('s', 'e');
        storage.emit_triangle('a', 'b', 'c');
        let v = ['x', 'y', 'z'];
        storage.emit(Triangle::create_ref_from_vertices(&v));
        storage.emit(Line::create_ref_from_vertices(&v));
        storage.emit(Point::create_ref_from_vertices(&v[2..]));
    }
    assert_eq!(inner.points, vec!['p', 'z']);
    assert_eq!(inner.lines, vec!['s', 'e', 'x', 'y']);
    assert_eq!(inner.tris, vec!['a', 'b', 'c', 'x', 'y', 'z']);
}

#[test]
fn screen_storage_starts_empty() {
    let s: SeparableScreenPrimitiveStorage<f32> = SeparableScreenPrimitiveStorage::default();
    assert!(s.points.is_empty() && s.lines.is_empty() && s.tris.is_empty());
}

#[test]
fn split_vertex_lists_into_primitives() {
    let v = [1, 2, 3, 4, 5, 6];
    let tris: Vec<Vec<i32>> = split_primitives::<Triangle, i32>(&v).into_iter().map(ref_vertices).collect();
    assert_eq!(tris, vec![vec![1, 2, 3], vec![4, 5, 6]]);
    let lines: Vec<Vec<i32>> = split_primitives::<Line, i32>(&v).into_iter().map(ref_vertices).collect();
    assert_eq!(lines, vec![vec![1, 2], vec![3, 4], vec![5, 6]]);
    let points = split_primitives::<Point, i32>(&v);
    assert_eq!(points.len(), 6);
    assert!(split_primitives::<Triangle, i32>(&[]).is_empty());
}

#[test]
fn split_index_lists_into_primitives() {
    let v = ['a', 'b', 'c', 'd'];
    let tris: Vec<Vec<char>> = split_indexed_primitives::<Triangle, char>(&v, &[0, 1, 2, 2, 3, 0])
        .into_iter()
        .map(ref_vertices)
        .collect();
    assert_eq!(tris, vec![vec!['a', 'b', 'c'], vec!['c', 'd', 'a']]);
    let lines: Vec<Vec<char>> = split_indexed_primitives::<Line, char>(&v, &[3, 3, 1, 0])
        .into_iter()
        .map(ref_vertices)
        .collect();
    assert_eq!(lines, vec![vec!['d', 'd'], vec!['b', 'a']]);
}

#[test]
fn merge_storages_gathers_in_order() {
    let mut a: SeparablePrimitiveStorage<u8> = SeparablePrimitiveStorage::default();
    a.push_point(1);
    a.push_triangle(2, 3, 4);
    let mut b: SeparablePrimitiveStorage<u8> = SeparablePrimitiveStorage::default();
    b.push_line(5, 6);
    b.push_point(7);
    let mut c: SeparablePrimitiveStorage<u8> = SeparablePrimitiveStorage::default();
    c.push_triangle(8, 9, 10);
    c.push_line(11, 12);
    let mut parts = vec![a, b, c];
    let merged = merge_storages(&mut parts);
    assert_eq!(merged.points, vec![1, 7]);
    assert_eq!(merged.lines, vec![5, 6, 11, 12]);
    assert_eq!(merged.tris, vec![2, 3, 4, 8, 9, 10]);
    assert_eq!(parts.len(), 3);
    for part in &parts {
        assert!(part.points.is_empty() && part.lines.is_empty() && part.tris.is_empty());
    }
    let mut none: Vec<SeparablePrimitiveStorage<u8>> = Vec::new();
    let empty = merge_storages(&mut none);
    assert!(empty.points.is_empty() && empty.lines.is_empty() && empty.tris.is_empty());
}
