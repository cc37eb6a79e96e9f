use textmesh::glyph::TessellatedGlyph;
use textmesh::outline::{negate, to_vertex, GlyphOutlineEvent, Point, TriangleVertex};
use textmesh::tessellate::{TessellateError, TriangleBuilder};

fn pt(x: f32, y: f32) -> Point {
    Point { x: x.to_bits(), y: y.to_bits() }
}

fn vx(x: f32, y: f32) -> TriangleVertex {
    TriangleVertex { x: x.to_bits(), y: y.to_bits() }
}

#[test]
fn negate_flips_the_sign_of_a_number() {
    for v in [1.0f32, -1.0, 0.5, 1234.75, -3.0e9, f32::MAX, f32::MIN_POSITIVE] {
        assert_eq!(f32::from_bits(negate(v.to_bits())), -v);
    }
    assert_eq!(negate(0.0f32.to_bits()), (-0.0f32).to_bits());
    assert_eq!(negate(f32::INFINITY.to_bits()), f32::NEG_INFINITY.to_bits());
    assert_eq!(negate(negate(0x7fc0_0001)), 0x7fc0_0001);
}

#[test]
fn to_vertex_keeps_x_and_flips_y() {
    assert_eq!(to_vertex(pt(3.0, 4.0)), vx(3.0, -4.0));
    assert_eq!(to_vertex(pt(-3.0, -4.0)), vx(-3.0, 4.0));
}

#[test]
fn new_builder_holds_two_origin_vertices() {
    let b = TriangleBuilder::new();
    assert_eq!(b.verts(), &vec![vx(0.0, 0.0), vx(0.0, 0.0)]);
    assert!(b.indices().is_empty());
    assert!(b.qverts().is_empty());
}

#[test]
fn first_move_fills_the_opening_vertices() {
    let mut b = TriangleBuilder::new();
    b.move_to(pt(5.0, 7.0));
    assert_eq!(b.verts(), &vec![vx(5.0, -7.0), vx(5.0, -7.0)]);
    assert!(b.indices().is_empty());
}

#[test]
fn first_move_after_a_reset_fills_the_opening_vertices_of_the_glyph() {
    let mut b = TriangleBuilder::new();
    b.move_to(pt(5.0, 7.0));
    b.line_to(pt(6.0, 7.0)).unwrap();
    b.reset();
    b.move_to(pt(1.0, 2.0));
    assert_eq!(b.verts().len(), 5);
    assert_eq!(b.verts()[3], vx(1.0, -2.0));
    assert_eq!(b.verts()[4], vx(1.0, -2.0));
    assert_eq!(b.verts()[2], vx(6.0, -7.0));
    assert_eq!(b.indices().len(), 3);
    b.line_to(pt(2.0, 2.0)).unwrap();
    b.close().unwrap();
    assert_eq!(&b.indices()[3..], &[0u16, 1, 2, 0, 2, 0][..]);
}

#[test]
fn later_move_adds_a_vertex() {
    let mut b = TriangleBuilder::new();
    b.move_to(pt(5.0, 7.0));
    b.line_to(pt(6.0, 7.0)).unwrap();
    b.move_to(pt(1.0, 2.0));
    assert_eq!(b.verts(), &vec![vx(5.0, -7.0), vx(5.0, -7.0), vx(6.0, -7.0), vx(1.0, -2.0)]);
    b.line_to(pt(2.0, 2.0)).unwrap();
    b.close().unwrap();
    assert_eq!(b.indices(), &vec![0u16, 1, 2, 0, 3, 4, 0, 4, 3]);
}

#[test]
fn line_adds_a_fan_triangle() {
    let mut b = TriangleBuilder::new();
    b.move_to(pt(0.0, 0.0));
    b.line_to(pt(10.0, 0.0)).unwrap();
    assert_eq!(b.indices(), &vec![0u16, 1, 2]);
    b.line_to(pt(10.0, 10.0)).unwrap();
    assert_eq!(b.indices(), &vec![0u16, 1, 2, 0, 2, 3]);
    assert_eq!(b.verts().len(), 4);
    assert_eq!(b.verts()[3], vx(10.0, -10.0));
    assert!(b.qverts().is_empty());
}

#[test]
fn quadratic_adds_fan_and_overlay_triangle() {
    let mut b = TriangleBuilder::new();
    b.move_to(pt(0.0, 0.0));
    b.line_to(pt(4.0, 0.0)).unwrap();
    b.quadratic_curve_to(pt(6.0, 2.0), pt(4.0, 4.0)).unwrap();
    assert_eq!(b.indices(), &vec![0u16, 1, 2, 0, 2, 3]);
    assert_eq!(b.qverts(), &vec![vx(4.0, -4.0), vx(4.0, -0.0), vx(6.0, -2.0)]);
}

#[test]
fn cubic_is_drawn_as_a_line() {
    let mut b = TriangleBuilder::new();
    b.move_to(pt(0.0, 0.0));
    b.cubic_curve_to(pt(1.0, 1.0), pt(2.0, 1.0), pt(3.0, 0.0)).unwrap();
    assert_eq!(b.indices(), &vec![0u16, 1, 2]);
    assert_eq!(b.verts()[2], vx(3.0, -0.0));
    assert!(b.qverts().is_empty());
}

#[test]
fn close_goes_back_to_the_contour_start() {
    let mut b = TriangleBuilder::new();
    b.move_to(pt(0.0, 0.0));
    b.line_to(pt(1.0, 0.0)).unwrap();
    b.line_to(pt(1.0, 1.0)).unwrap();
    b.close().unwrap();
    assert_eq!(b.indices(), &vec![0u16, 1, 2, 0, 2, 3, 0, 3, 0]);
    assert_eq!(b.verts().len(), 4);
}

#[test]
fn apply_does_what_the_event_names() {
    let mut a = TriangleBuilder::new();
    let mut b = TriangleBuilder::new();
    a.move_to(pt(1.0, 1.0));
    a.line_to(pt(2.0, 1.0)).unwrap();
    a.quadratic_curve_to(pt(3.0, 2.0), pt(2.0, 3.0)).unwrap();
    a.cubic_curve_to(pt(1.0, 4.0), pt(0.0, 4.0), pt(0.0, 3.0)).unwrap();
    a.close().unwrap();
    for e in [
        GlyphOutlineEvent::MoveTo(pt(1.0, 1.0)),
        GlyphOutlineEvent::LineTo(pt(2.0, 1.0)),
        GlyphOutlineEvent::QuadraticTo(pt(3.0, 2.0), pt(2.0, 3.0)),
        GlyphOutlineEvent::CubicTo(pt(1.0, 4.0), pt(0.0, 4.0), pt(0.0, 3.0)),
        GlyphOutlineEvent::Close,
    ] {
        b.apply(e).unwrap();
    }
    assert_eq!(a.verts(), b.verts());
    assert_eq!(a.indices(), b.indices());
    assert_eq!(a.qverts(), b.qverts());
}

#[test]
fn triangle_contour_gives_three_triangles() {
    let mut b = TriangleBuilder::new();
    let events = vec![
        GlyphOutlineEvent::MoveTo(pt(0.0, 0.0)),
        GlyphOutlineEvent::LineTo(pt(10.0, 0.0)),
        GlyphOutlineEvent::LineTo(pt(0.0, 10.0)),
        GlyphOutlineEvent::Close,
    ];
    let glyph = b.add_glyph(&events).unwrap();
    assert_eq!(glyph.index_count, 9);
    assert_eq!(glyph.first_index, 0);
    assert_eq!(glyph.vertex_offset, 0);
    assert_eq!(b.indices(), &vec![0u16, 1, 2, 0, 2, 3, 0, 3, 0]);
}

fn polygon(n: usize) -> Vec<GlyphOutlineEvent> {
    let mut events = vec![GlyphOutlineEvent::MoveTo(pt(0.0, 0.0))];
    for i in 1..n {
        events.push(GlyphOutlineEvent::LineTo(pt(i as f32, (i * i) as f32)));
    }
    events.push(GlyphOutlineEvent::Close);
    events
}

#[test]
fn closed_contour_of_n_segments_gives_n_triangles() {
    for n in [1usize, 2, 3, 4, 7, 100] {
        let mut b = TriangleBuilder::new();
        let glyph = b.add_glyph(&polygon(n)).unwrap();
        assert_eq!(glyph.index_count as usize, 3 * n);
        assert_eq!(b.indices().len(), 3 * n);
        let last = &b.indices()[3 * n - 3..];
        assert_eq!(last, &[0u16, n as u16, 0][..]);
    }
}

#[test]
fn closed_contour_of_a_later_glyph_ends_at_its_start_vertex() {
    let mut b = TriangleBuilder::new();
    b.add_glyph(&polygon(3)).unwrap();
    let glyph = b.add_glyph(&polygon(4)).unwrap();
    assert_eq!(glyph.index_count, 12);
    assert_eq!(glyph.first_index, 9);
    assert_eq!(glyph.vertex_offset, 4);
    assert_eq!(&b.indices()[9..], &[0u16, 1, 2, 0, 2, 3, 0, 3, 4, 0, 4, 0][..]);
    assert_eq!(b.verts()[4], vx(0.0, -0.0));
    assert_eq!(b.verts()[5], vx(0.0, -0.0));
    assert_eq!(b.verts()[6], vx(1.0, -1.0));
}

#[test]
fn glyph_without_outline_has_an_empty_range() {
    let mut b = TriangleBuilder::new();
    let space = b.add_glyph(&vec![]).unwrap();
    assert_eq!(
        space,
        TessellatedGlyph {
            index_count: 0,
            first_index: 0,
            vertex_offset: 0,
            qvertex_count: 0,
            qvertex_offset: 0,
        }
    );
    let next = b.add_glyph(&polygon(3)).unwrap();
    assert_eq!(next.first_index, 0);
    assert_eq!(next.vertex_offset, 2);
    assert_eq!(next.index_count, 9);
    let again = b.add_glyph(&vec![]).unwrap();
    assert_eq!(again.index_count, 0);
    assert_eq!(again.first_index, 9);
    assert_eq!(again.vertex_offset, 6);
}

#[test]
fn add_glyph_reports_ranges_and_opens_the_next_glyph() {
    let mut b = TriangleBuilder::new();
    let events = vec![
        GlyphOutlineEvent::MoveTo(pt(0.0, 0.0)),
        GlyphOutlineEvent::QuadraticTo(pt(1.0, 1.0), pt(2.0, 0.0)),
        GlyphOutlineEvent::QuadraticTo(pt(1.0, -1.0), pt(0.0, 0.0)),
        GlyphOutlineEvent::Close,
    ];
    let first = b.add_glyph(&events).unwrap();
    assert_eq!(
        first,
        TessellatedGlyph {
            index_count: 9,
            first_index: 0,
            vertex_offset: 0,
            qvertex_count: 6,
            qvertex_offset: 0,
        }
    );
    assert_eq!(b.verts().len(), 6);
    let second = b.add_glyph(&events).unwrap();
    assert_eq!(
        second,
        TessellatedGlyph {
            index_count: 9,
            first_index: 9,
            vertex_offset: 4,
            qvertex_count: 6,
            qvertex_offset: 6,
        }
    );
    assert_eq!(b.verts().len(), 10);
    assert_eq!(&b.indices()[9..], &[0u16, 1, 2, 0, 2, 3, 0, 3, 0][..]);
    assert_eq!(&b.verts()[4..8], &b.verts()[0..4]);
}

#[test]
fn reset_opens_a_glyph_at_the_end_of_the_vertices() {
    let mut b = TriangleBuilder::new();
    b.move_to(pt(1.0, 1.0));
    b.line_to(pt(2.0, 2.0)).unwrap();
    b.reset();
    assert_eq!(b.verts().len(), 5);
    assert_eq!(b.verts()[3], vx(0.0, 0.0));
    assert_eq!(b.verts()[4], vx(0.0, 0.0));
    b.line_to(pt(3.0, 3.0)).unwrap();
    assert_eq!(&b.indices()[3..], &[0u16, 1, 2][..]);
    b.close().unwrap();
    assert_eq!(&b.indices()[6..], &[0u16, 2, 0][..]);
}

#[test]
fn glyph_with_too_many_vertices_is_refused() {
    let mut b = TriangleBuilder::new();
    b.move_to(pt(0.0, 0.0));
    for i in 2..=0xffffu32 {
        assert_eq!(b.line_to(pt(i as f32, 0.0)), Ok(()));
    }
    assert_eq!(b.verts().len(), 0x10000);
    assert_eq!(b.indices()[b.indices().len() - 1], 0xffff);
    let indices = b.indices().len();
    assert_eq!(b.line_to(pt(1.0, 1.0)), Err(TessellateError::IndexOverflow));
    assert_eq!(b.quadratic_curve_to(pt(1.0, 1.0), pt(2.0, 2.0)), Err(TessellateError::IndexOverflow));
    assert_eq!(
        b.cubic_curve_to(pt(1.0, 1.0), pt(2.0, 2.0), pt(3.0, 3.0)),
        Err(TessellateError::IndexOverflow)
    );
    assert_eq!(b.apply(GlyphOutlineEvent::LineTo(pt(1.0, 1.0))), Err(TessellateError::IndexOverflow));
    assert_eq!(b.verts().len(), 0x10000);
    assert_eq!(b.indices().len(), indices);
    assert!(b.qverts().is_empty());
    assert_eq!(b.close(), Ok(()));
    assert_eq!(&b.indices()[indices..], &[0u16, 0xffff, 0][..]);
}

#[test]
fn add_glyph_stops_at_the_event_that_does_not_fit() {
    let mut b = TriangleBuilder::new();
    let mut events = vec![GlyphOutlineEvent::MoveTo(pt(0.0, 0.0))];
    for i in 0..0x10000u32 {
        events.push(GlyphOutlineEvent::LineTo(pt(i as f32, 1.0)));
    }
    assert_eq!(b.add_glyph(&events), Err(TessellateError::IndexOverflow));
    assert_eq!(b.verts().len(), 0x10000);
    assert_eq!(b.indices().len(), 3 * 0xfffe);
}

#[test]
fn into_lists_hands_out_what_was_collected() {
    let mut b = TriangleBuilder::new();
    b.add_glyph(&polygon(3)).unwrap();
    let (verts, indices, qverts) = b.into_lists();
    assert_eq!(verts.len(), 6);
    assert_eq!(indices, vec![0u16, 1, 2, 0, 2, 3, 0, 3, 0]);
    assert!(qverts.is_empty());
}
