use vstd::prelude::*;
use crate::outline::{GlyphOutlineEvent, Point};
use crate::tessellate::{lemma_triangle_count_concat, triangle_count};

verus! {

/// A point of a contour as a font loader stores it: where it lies, and whether it is a
/// point of the curve (`flags` is zero) or a control point of a curve.
#[derive(Clone, Copy, Debug, PartialEq, Eq, Structural)]
pub struct OutlinePoint {
    pub x: u32,
    pub y: u32,
    pub flags: u8,
}

/// Where a stored point lies.
pub open spec fn point_of(p: OutlinePoint) -> Point {
    Point { x: p.x, y: p.y }
}

/// An event put before the events that follow it, if those are there.
pub open spec fn then_events(
    event: GlyphOutlineEvent,
    rest: Option<Seq<GlyphOutlineEvent>>,
) -> Option<Seq<GlyphOutlineEvent>> {
    match rest {
        Some(events) => Some(seq![event] + events),
        None => None,
    }
}

/// The segments that the points of a contour spell from position `i` on: a point of the
/// curve is a line to it; one control point and a point of the curve are a quadratic curve;
/// two control points and one more point are a cubic curve. A contour that ends in the
/// middle of a curve spells nothing.
pub open spec fn segments_from(points: Seq<OutlinePoint>, i: int) -> Option<
    Seq<GlyphOutlineEvent>,
>
    decreases points.len() - i,
{
    if i < 0 || i >= points.len() {
        Some(Seq::empty())
    } else if points[i].flags == 0 {
        then_events(GlyphOutlineEvent::LineTo(point_of(points[i])), segments_from(points, i + 1))
    } else if i + 1 >= points.len() {
        None
    } else if points[i + 1].flags == 0 {
        then_events(
            GlyphOutlineEvent::QuadraticTo(point_of(points[i]), point_of(points[i + 1])),
            segments_from(points, i + 2),
        )
    } else if i + 2 >= points.len() {
        None
    } else {
        then_events(
            GlyphOutlineEvent::CubicTo(
                point_of(points[i]),
                point_of(points[i + 1]),
                point_of(points[i + 2]),
            ),
            segments_from(points, i + 3),
        )
    }
}

/// The events of one contour: a move to its first point, its segments, and the close. A
/// contour without points has no events.
pub open spec fn contour_events(points: Seq<OutlinePoint>) -> Option<Seq<GlyphOutlineEvent>> {
    if points.len() == 0 {
        Some(Seq::empty())
    } else {
        match segments_from(points, 1) {
            Some(segments) => Some(
                seq![GlyphOutlineEvent::MoveTo(point_of(points[0]))] + segments
                    + seq![GlyphOutlineEvent::Close],
            ),
            None => None,
        }
    }
}

/// The events of the first `n` contours of an outline, one contour after the other.
pub open spec fn events_of_contours(contours: Seq<Seq<OutlinePoint>>, n: int) -> Option<
    Seq<GlyphOutlineEvent>,
>
    decreases n,
{
    if n <= 0 {
        Some(Seq::empty())
    } else {
        match (events_of_contours(contours, n - 1), contour_events(contours[n - 1])) {
            (Some(before), Some(events)) => Some(before + events),
            _ => None,
        }
    }
}

/// The events of an outline: those of all its contours, unless one of them spells nothing.
pub open spec fn outline_events(contours: Seq<Seq<OutlinePoint>>) -> Option<
    Seq<GlyphOutlineEvent>,
> {
    events_of_contours(contours, contours.len() as int)
}

/// The contours of an outline as plain sequences of points.
pub open spec fn contour_lists(contours: Seq<Vec<OutlinePoint>>) -> Seq<Seq<OutlinePoint>> {
    Seq::new(contours.len(), |k: int| contours[k]@)
}

/// An outline with a contour that has a point asks for at least one triangle: that contour
/// ends in a close.
pub proof fn lemma_contour_has_triangle(contours: Seq<Seq<OutlinePoint>>, n: int, k: int)
    requires
        0 <= k < n <= contours.len(),
        contours[k].len() >= 1,
        events_of_contours(contours, n) is Some,
    ensures
        triangle_count(events_of_contours(contours, n)->Some_0) >= 1,
    decreases n,
{
    let before = events_of_contours(contours, n - 1)->Some_0;
    let events = contour_events(contours[n - 1])->Some_0;
    lemma_triangle_count_concat(before, events);
    if k == n - 1 {
        let segments = segments_from(contours[k], 1)->Some_0;
        let head = seq![GlyphOutlineEvent::MoveTo(point_of(contours[k][0]))] + segments;
        let close = seq![GlyphOutlineEvent::Close];
        assert(events == head + close);
        lemma_triangle_count_concat(head, close);
        assert(close.skip(1) =~= Seq::empty());
        assert(triangle_count(close.skip(1)) == 0);
        assert(triangle_count(close) == 1);
    } else {
        lemma_contour_has_triangle(contours, n - 1, k);
    }
}

/// Reads the events of one contour from its points.
pub fn decode_contour(points: &Vec<OutlinePoint>) -> (r: Option<Vec<GlyphOutlineEvent>>)
    ensures
        r is Some <==> contour_events(points@) is Some,
        r matches Some(events) ==> contour_events(points@) == Some(events@),
{
    let mut events: Vec<GlyphOutlineEvent> = Vec::new();
    if points.len() == 0 {
        return Some(events);
    }
    let first = points[0];
    events.push(GlyphOutlineEvent::MoveTo(Point { x: first.x, y: first.y }));
    let ghost head = events@;
    let mut i: usize = 1;
    while i < points.len()
        invariant
            1 <= i <= points.len(),
            head == seq![GlyphOutlineEvent::MoveTo(point_of(points[0]))],
            events@.len() >= 1,
            events@.subrange(0, 1) == head,
            segments_from(points@, 1) == match segments_from(points@, i as int) {
                Some(rest) => Some(events@.skip(1) + rest),
                None => None,
            },
        decreases points.len() - i,
    {
        let ghost before = events@;
        let head_point = points[i];
        let head_at = Point { x: head_point.x, y: head_point.y };
        if head_point.flags == 0 {
            events.push(GlyphOutlineEvent::LineTo(head_at));
            proof {
                lemma_skip_push(before, GlyphOutlineEvent::LineTo(head_at));
                lemma_push_then(
                    before.skip(1),
                    GlyphOutlineEvent::LineTo(head_at),
                    segments_from(points@, i + 1),
                );
            }
            i += 1;
        } else if i + 1 >= points.len() {
            return None;
        } else {
            let mid_point = points[i + 1];
            let mid_at = Point { x: mid_point.x, y: mid_point.y };
            if mid_point.flags == 0 {
                events.push(GlyphOutlineEvent::QuadraticTo(head_at, mid_at));
                proof {
                    lemma_skip_push(before, GlyphOutlineEvent::QuadraticTo(head_at, mid_at));
                    lemma_push_then(
                        before.skip(1),
                        GlyphOutlineEvent::QuadraticTo(head_at, mid_at),
                        segments_from(points@, i + 2),
                    );
                }
                i += 2;
            } else if i + 2 >= points.len() {
                return None;
            } else {
                let end_point = points[i + 2];
                let end_at = Point { x: end_point.x, y: end_point.y };
                events.push(GlyphOutlineEvent::CubicTo(head_at, mid_at, end_at));
                proof {
                    lemma_skip_push(before, GlyphOutlineEvent::CubicTo(head_at, mid_at, end_at));
                    lemma_push_then(
                        before.skip(1),
                        GlyphOutlineEvent::CubicTo(head_at, mid_at, end_at),
                        segments_from(points@, i + 3),
                    );
                }
                i += 3;
            }
        }
    }
    events.push(GlyphOutlineEvent::Close);
    proof {
        let segments = segments_from(points@, 1)->Some_0;
        assert(events@ =~= head + segments + seq![GlyphOutlineEvent::Close]);
    }
    Some(events)
}

/// Skipping the first event of a list that grew by one is the skipped list grown by one.
proof fn lemma_skip_push(events: Seq<GlyphOutlineEvent>, event: GlyphOutlineEvent)
    requires
        events.len() >= 1,
    ensures
        events.push(event).skip(1) == events.skip(1).push(event),
        events.push(event).subrange(0, 1) == events.subrange(0, 1),
{
    assert(events.push(event).skip(1) =~= events.skip(1).push(event));
    assert(events.push(event).subrange(0, 1) =~= events.subrange(0, 1));
}

/// Events before an event that is followed by others are the events with that one, before
/// the others.
proof fn lemma_push_then(
    before: Seq<GlyphOutlineEvent>,
    event: GlyphOutlineEvent,
    rest: Option<Seq<GlyphOutlineEvent>>,
)
    ensures
        then_events(event, rest) matches Some(all) ==> before + all == before.push(event)
            + rest->Some_0,
{
    if let Some(events) = rest {
        assert(before + (seq![event] + events) =~= before.push(event) + events);
    }
}

/// Reads the events of a whole outline from its contours.
pub fn decode_contours(contours: &Vec<Vec<OutlinePoint>>) -> (r: Option<Vec<GlyphOutlineEvent>>)
    ensures
        r is Some <==> outline_events(contour_lists(contours@)) is Some,
        r matches Some(events) ==> outline_events(contour_lists(contours@)) == Some(events@),
{
    let mut events: Vec<GlyphOutlineEvent> = Vec::new();
    let mut k: usize = 0;
    while k < contours.len()
        invariant
            k <= contours.len(),
            contour_lists(contours@).len() == contours.len(),
            events_of_contours(contour_lists(contours@), k as int) == Some(events@),
        decreases contours.len() - k,
    {
        match decode_contour(&contours[k]) {
            None => {
                proof {
                    lemma_outline_fails(
                        contour_lists(contours@),
                        k + 1,
                        contours.len() as int,
                    );
                }
                return None;
            },
            Some(mut more) => {
                events.append(&mut more);
            },
        }
        k += 1;
    }
    Some(events)
}

/// An outline with a contour that spells nothing spells nothing.
proof fn lemma_outline_fails(contours: Seq<Seq<OutlinePoint>>, n: int, m: int)
    requires
        0 <= n <= m,
        events_of_contours(contours, n) is None,
    ensures
        events_of_contours(contours, m) is None,
    decreases m - n,
{
    if n < m {
        lemma_outline_fails(contours, n, m - 1);
    }
}

} // verus!
