use softrender::error::RenderError;
use softrender::framebuffer::ColorBuffer;
use softrender::geometry::{Coordinate, Dimensions, HasDimensions};
use softrender::pixels::{PartialPixelBuffer, PixelBuffer, PixelRead, PixelRef, PixelWrite};
use softrender::renderer::RenderQueue;
use softrender::texture::{Edge, Filter};

/// A grid whose pixels count up from zero in row-major order
fn grid(width: u32, height: u32) -> ColorBuffer<u8> {
    let mut g = ColorBuffer::new_with(width, height, 0u8);
    for (i, p) in g.color_buffer_mut().iter_mut().enumerate() {
        *p = i as u8;
    }
    g
}

#[test]
fn pixel_ref_reads_row_major() {
    let g = grid(4, 3);
    assert_eq!(g.pixel_ref(Coordinate::new(0, 0)).unwrap().get(), 0);
    assert_eq!(g.pixel_ref(Coordinate::new(3, 0)).unwrap().get(), 3);
    assert_eq!(g.pixel_ref(Coordinate::new(1, 2)).unwrap().get(), 9);
}

#[test]
fn pixel_ref_rejects_outside_coordinates() {
    let g = grid(4, 3);
    assert!(matches!(g.pixel_ref(Coordinate::new(4, 0)), Err(RenderError::InvalidPixelCoordinate)));
    assert!(matches!(g.pixel_ref(Coordinate::new(0, 3)), Err(RenderError::InvalidPixelCoordinate)));
}

#[test]
fn pixel_mut_writes_one_pixel() {
    let mut g = grid(4, 3);
    {
        let mut p = PixelWrite::pixel_mut(&mut g, Coordinate::new(2, 1)).unwrap();
        assert_eq!(p.get(), 6);
        p.set(200);
        assert_eq!(p.get(), 200);
        let r = p.into_ref();
        assert_eq!(r.get(), 200);
    }
    let mut expected: Vec<u8> = (0..12).collect();
    expected[6] = 200;
    assert_eq!(g.color_buffer().to_vec(), expected);
}

#[test]
fn pixel_mut_rejects_outside_and_leaves_buffer() {
    let mut g = grid(2, 2);
    assert!(matches!(PixelWrite::pixel_mut(&mut g, Coordinate::new(2, 2)), Err(RenderError::InvalidPixelCoordinate)));
    assert_eq!(g.color_buffer().to_vec(), vec![0, 1, 2, 3]);
}

#[test]
fn pixel_iter_walks_all_pixels() {
    let g = grid(3, 2);
    let mut it = g.pixel_iter();
    let mut seen = Vec::new();
    while let Some(p) = it.next() {
        seen.push(p.get());
    }
    assert_eq!(seen, vec![0, 1, 2, 3, 4, 5]);
    assert!(it.next().is_none());
}

#[test]
fn pixel_iter_walks_from_both_ends() {
    let g = grid(3, 2);
    let mut it = g.pixel_iter();
    assert_eq!(it.clone().next_back().map(|p| p.get()), Some(5));
    let mut seen = Vec::new();
    loop {
        let front = it.next();
        let back = it.next_back();
        if front.is_none() && back.is_none() {
            break;
        }
        seen.extend(front.map(|p| p.get()));
        seen.extend(back.map(|p| p.get()));
    }
    assert_eq!(seen, vec![0, 5, 1, 4, 2, 3]);
    assert!(it.next().is_none());
    assert!(it.next_back().is_none());
}

#[test]
fn partial_ref_rejects_coordinates_past_its_end() {
    let g = grid(4, 4);
    let part = g.partial_ref(Coordinate::new(0, 0), Coordinate::new(2, 2)).unwrap();
    assert_eq!(part.pixel_ref(Coordinate::new(1, 1)).unwrap().get(), 5);
    assert!(matches!(part.pixel_ref(Coordinate::new(2, 0)), Err(RenderError::InvalidPixelCoordinate)));
    assert!(matches!(part.pixel_ref(Coordinate::new(0, 2)), Err(RenderError::InvalidPixelCoordinate)));
}

#[test]
fn partial_ref_requires_ordered_corners() {
    let g = grid(4, 4);
    assert!(g.partial_ref(Coordinate::new(1, 1), Coordinate::new(3, 4)).is_ok());
    assert!(matches!(
        g.partial_ref(Coordinate::new(2, 1), Coordinate::new(2, 3)),
        Err(RenderError::InvalidPixelCoordinate)
    ));
    assert!(matches!(
        g.partial_ref(Coordinate::new(3, 3), Coordinate::new(1, 1)),
        Err(RenderError::InvalidPixelCoordinate)
    ));
}

#[test]
fn partial_ref_offsets_into_parent() {
    let g = grid(4, 4);
    let part = g.partial_ref(Coordinate::new(1, 2), Coordinate::new(3, 4)).unwrap();
    assert_eq!(part.dimensions(), Dimensions::new(2, 2));
    assert_eq!(part.start(), Coordinate::new(1, 2));
    assert_eq!(part.end(), Coordinate::new(3, 4));
    assert_eq!(part.parent().color_buffer().len(), 16);
    // (0, 0) of the part is (1, 2) of the parent
    assert_eq!(part.pixel_ref(Coordinate::new(0, 0)).unwrap().get(), 9);
    assert_eq!(part.pixel_ref(Coordinate::new(1, 1)).unwrap().get(), 14);
    assert!(part.pixel_ref(Coordinate::new(3, 0)).is_err());
    assert!(part.pixel_ref(Coordinate::new(u32::MAX, 0)).is_err());
}

#[test]
fn partial_mut_writes_into_parent() {
    let mut g = grid(4, 4);
    {
        let mut part = g.partial_mut(Coordinate::new(2, 2), Coordinate::new(4, 4)).unwrap();
        assert_eq!(part.dimensions(), Dimensions::new(2, 2));
        let mut p = PixelWrite::pixel_mut(&mut part, Coordinate::new(1, 0)).unwrap();
        p.set(99);
        assert!(PixelWrite::pixel_mut(&mut part, Coordinate::new(0, u32::MAX)).is_err());
    }
    assert_eq!(g.color_buffer().to_vec()[11], 99);
    assert!(g.partial_mut(Coordinate::new(0, 0), Coordinate::new(0, 0)).is_err());
}

#[test]
fn render_queue_and_texture_defaults() {
    let q = RenderQueue::new();
    assert_eq!(std::sync::Arc::strong_count(&q), 1);
    assert_eq!(Filter::default(), Filter::Nearest);
    assert!(matches!(Edge::<u8>::default(), Edge::Clamp));
    assert!(matches!(Edge::Border(3u8), Edge::Border(3)));
}

#[test]
fn color_buffer_construction() {
    let b = ColorBuffer::new_with(3, 2, 7u16);
    assert_eq!(b.width(), 3);
    assert_eq!(b.height(), 2);
    assert_eq!(b.color_buffer(), &[7u16; 6][..]);
    assert_eq!(b.dimensions(), Dimensions::new(3, 2));
    let d: ColorBuffer<u32> = ColorBuffer::new(2, 2);
    assert_eq!(d.color_buffer(), &[0u32; 4][..]);
    let empty: ColorBuffer<u8> = ColorBuffer::new(0, 9);
    assert!(empty.color_buffer().is_empty());
}

#[test]
fn color_buffer_coordinates() {
    let b = grid(4, 3);
    assert!(b.check_coordinate(3, 2));
    assert!(!b.check_coordinate(4, 2));
    assert!(!b.check_coordinate(0, 3));
    assert_eq!(*b.pixel(0, 0), 0);
    assert_eq!(*b.pixel(3, 1), 7);
    assert_eq!(*b.pixel(2, 2), 10);
}

#[test]
fn color_buffer_pixel_mut_changes_one_pixel() {
    let mut b = grid(3, 3);
    *b.pixel_mut(1, 2) = 100;
    let mut expected: Vec<u8> = (0..9).collect();
    expected[7] = 100;
    assert_eq!(b.color_buffer().to_vec(), expected);
}

#[test]
fn color_buffer_clear() {
    let mut b = grid(3, 2);
    b.clear_with(42);
    assert_eq!(b.color_buffer(), &[42u8; 6][..]);
    b.clear();
    assert_eq!(b.color_buffer(), &[0u8; 6][..]);
    assert_eq!((b.width(), b.height()), (3, 2));
}

#[test]
fn pixel_ref_from_pixel_mut() {
    let mut g = grid(3, 3);
    let mut p = PixelWrite::pixel_mut(&mut g, Coordinate::new(2, 2)).unwrap();
    p.set(77);
    let r: PixelRef<'_, ColorBuffer<u8>> = PixelRef::from(p);
    assert_eq!(r.get(), 77);
}
