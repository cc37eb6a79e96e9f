use textmesh::contour::{decode_contour, decode_contours, OutlinePoint};
use textmesh::outline::{GlyphOutlineEvent, Point};

fn on(x: u32, y: u32) -> OutlinePoint {
    OutlinePoint { x, y, flags: 0 }
}

fn ctrl0(x: u32, y: u32) -> OutlinePoint {
    OutlinePoint { x, y, flags: 1 }
}

fn ctrl1(x: u32, y: u32) -> OutlinePoint {
    OutlinePoint { x, y, flags: 2 }
}

fn p(x: u32, y: u32) -> Point {
    Point { x, y }
}

#[test]
fn contour_without_points_has_no_events() {
    assert_eq!(decode_contour(&vec![]), Some(vec![]));
}

#[test]
fn contour_of_one_point_moves_and_closes() {
    assert_eq!(
        decode_contour(&vec![on(1, 2)]),
        Some(vec![GlyphOutlineEvent::MoveTo(p(1, 2)), GlyphOutlineEvent::Close])
    );
}

#[test]
fn contour_of_lines_and_curves_is_read_in_order() {
    let points = vec![
        on(0, 0),
        on(1, 0),
        ctrl0(2, 1),
        on(3, 0),
        ctrl0(4, 1),
        ctrl1(5, 1),
        on(6, 0),
        on(7, 7),
    ];
    assert_eq!(
        decode_contour(&points),
        Some(vec![
            GlyphOutlineEvent::MoveTo(p(0, 0)),
            GlyphOutlineEvent::LineTo(p(1, 0)),
            GlyphOutlineEvent::QuadraticTo(p(2, 1), p(3, 0)),
            GlyphOutlineEvent::CubicTo(p(4, 1), p(5, 1), p(6, 0)),
            GlyphOutlineEvent::LineTo(p(7, 7)),
            GlyphOutlineEvent::Close,
        ])
    );
}

#[test]
fn contour_that_ends_inside_a_curve_is_refused() {
    assert_eq!(decode_contour(&vec![on(0, 0), ctrl0(1, 1)]), None);
    assert_eq!(decode_contour(&vec![on(0, 0), ctrl0(1, 1), ctrl1(2, 2)]), None);
    assert_eq!(decode_contour(&vec![on(0, 0), on(1, 1), ctrl0(1, 1), ctrl0(2, 2)]), None);
}

#[test]
fn first_point_is_a_move_whatever_its_flags() {
    assert_eq!(
        decode_contour(&vec![ctrl0(9, 9), on(1, 1)]),
        Some(vec![
            GlyphOutlineEvent::MoveTo(p(9, 9)),
            GlyphOutlineEvent::LineTo(p(1, 1)),
            GlyphOutlineEvent::Close,
        ])
    );
}

#[test]
fn outline_is_its_contours_one_after_the_other() {
    let contours = vec![vec![on(0, 0), on(1, 1)], vec![], vec![on(5, 5), ctrl0(6, 6), on(7, 7)]];
    assert_eq!(
        decode_contours(&contours),
        Some(vec![
            GlyphOutlineEvent::MoveTo(p(0, 0)),
            GlyphOutlineEvent::LineTo(p(1, 1)),
            GlyphOutlineEvent::Close,
            GlyphOutlineEvent::MoveTo(p(5, 5)),
            GlyphOutlineEvent::QuadraticTo(p(6, 6), p(7, 7)),
            GlyphOutlineEvent::Close,
        ])
    );
    assert_eq!(decode_contours(&vec![]), Some(vec![]));
}

#[test]
fn outline_with_a_broken_contour_is_refused() {
    let contours = vec![vec![on(0, 0), on(1, 1)], vec![on(5, 5), ctrl0(6, 6)], vec![on(1, 1)]];
    assert_eq!(decode_contours(&contours), None);
}
