use vstd::prelude::*;
use crate::glyph::TessellatedGlyph;
use crate::outline::{origin_vertex, to_vertex, vertex_of, GlyphOutlineEvent, Point, TriangleVertex};

verus! {

/// Why an outline could not be turned into triangles.
#[derive(Clone, Copy, Debug, PartialEq, Eq, Structural)]
pub enum TessellateError {
    /// A glyph has more vertices than a 16-bit index can name.
    IndexOverflow,
    /// The buffers have grown past what a 32-bit offset can name.
    RangeOverflow,
}

/// The largest vertex index, counted from a glyph's first vertex, that an index can hold.
pub open spec fn max_index() -> int {
    0xffff
}

/// What a triangle builder holds.
pub struct BuilderState {
    /// Where the current glyph's vertices start in `verts`.
    pub offset: int,
    /// The vertex at which the current contour started.
    pub starti: int,
    /// The winding vertices of all glyphs so far.
    pub verts: Seq<TriangleVertex>,
    /// The winding indices of all glyphs so far, three per triangle, each counted from the
    /// first vertex of the glyph it belongs to.
    pub indices: Seq<u16>,
    /// The overlay vertices of all glyphs so far, three per triangle.
    pub qverts: Seq<TriangleVertex>,
}

impl BuilderState {
    /// The state of a builder that has seen nothing: the first glyph's two opening vertices.
    pub open spec fn initial() -> BuilderState {
        BuilderState {
            offset: 0,
            starti: 0,
            verts: seq![origin_vertex(), origin_vertex()],
            indices: Seq::empty(),
            qverts: Seq::empty(),
        }
    }

    /// The current glyph has its two opening vertices, the contour start lies inside the
    /// glyph, and both triangle lists hold whole triangles.
    pub open spec fn wf(self) -> bool {
        &&& 0 <= self.offset
        &&& self.offset + 2 <= self.verts.len()
        &&& self.offset <= self.starti < self.verts.len()
        &&& self.indices.len() % 3 == 0
        &&& self.qverts.len() % 3 == 0
    }

    /// The current glyph has nothing but its two opening vertices.
    pub open spec fn fresh(self) -> bool {
        self.verts.len() == self.offset + 2
    }

    /// The index, counted from the glyph's first vertex, that the next vertex will get.
    pub open spec fn next_index(self) -> int {
        self.verts.len() - self.offset
    }

    /// One more vertex at a point, and the triangle from the glyph's first vertex over the
    /// vertex before to the new one.
    pub open spec fn fan_to(self, to: Point) -> BuilderState {
        let index = self.next_index();
        BuilderState {
            verts: self.verts.push(vertex_of(to)),
            indices: self.indices.push(0u16).push((index - 1) as u16).push(index as u16),
            ..self
        }
    }

    /// Starts a contour. The first contour of a glyph puts its point in the glyph's two
    /// opening vertices, the first of which is the apex of the glyph's fan, and starts
    /// there; every later contour adds a vertex and starts at that one.
    pub open spec fn move_to(self, to: Point) -> BuilderState {
        if self.fresh() {
            BuilderState {
                starti: self.offset,
                verts: self.verts.update(self.offset, vertex_of(to)).update(
                    self.offset + 1,
                    vertex_of(to),
                ),
                ..self
            }
        } else {
            BuilderState {
                starti: self.verts.len() as int,
                verts: self.verts.push(vertex_of(to)),
                ..self
            }
        }
    }

    /// A straight segment: one fan triangle.
    pub open spec fn line_to(self, to: Point) -> BuilderState {
        self.fan_to(to)
    }

    /// A quadratic curve: one fan triangle to its end point, and one overlay triangle of the
    /// end point, the point before and the control point.
    pub open spec fn quadratic_curve_to(self, ctrl: Point, to: Point) -> BuilderState {
        let s = self.fan_to(to);
        BuilderState {
            qverts: s.qverts.push(s.verts[s.verts.len() - 1]).push(
                s.verts[s.verts.len() - 2],
            ).push(vertex_of(ctrl)),
            ..s
        }
    }

    /// A cubic curve: one fan triangle to its end point, the control points left aside.
    pub open spec fn cubic_curve_to(self, to: Point) -> BuilderState {
        self.fan_to(to)
    }

    /// Closes the contour: the triangle from the glyph's first vertex over the last vertex to
    /// the vertex at which the contour started.
    pub open spec fn close(self) -> BuilderState {
        BuilderState {
            indices: self.indices.push(0u16).push((self.next_index() - 1) as u16).push(
                (self.starti - self.offset) as u16,
            ),
            ..self
        }
    }

    /// Ends the current glyph and opens the next: its vertices start after all that are
    /// there, with two opening vertices at the origin.
    pub open spec fn reset(self) -> BuilderState {
        BuilderState {
            offset: self.verts.len() as int,
            starti: self.verts.len() as int,
            verts: self.verts.push(origin_vertex()).push(origin_vertex()),
            ..self
        }
    }

    /// Whether an event's triangle can be written with 16-bit indices.
    pub open spec fn fits(self, event: GlyphOutlineEvent) -> bool {
        match event {
            GlyphOutlineEvent::MoveTo(_) => true,
            GlyphOutlineEvent::Close => self.next_index() - 1 <= max_index(),
            _ => self.next_index() <= max_index(),
        }
    }

    /// The state after one event.
    pub open spec fn step(self, event: GlyphOutlineEvent) -> BuilderState {
        match event {
            GlyphOutlineEvent::MoveTo(to) => self.move_to(to),
            GlyphOutlineEvent::LineTo(to) => self.line_to(to),
            GlyphOutlineEvent::QuadraticTo(ctrl, to) => self.quadratic_curve_to(ctrl, to),
            GlyphOutlineEvent::CubicTo(_, _, to) => self.cubic_curve_to(to),
            GlyphOutlineEvent::Close => self.close(),
        }
    }

    /// Whether every event of an outline fits when the events are taken in turn.
    pub open spec fn all_fit(self, events: Seq<GlyphOutlineEvent>) -> bool
        decreases events.len(),
    {
        events.len() == 0 || (self.fits(events[0]) && self.step(events[0]).all_fit(
            events.skip(1),
        ))
    }

    /// The state after the events of an outline, taken in turn up to the first that does not
    /// fit.
    pub open spec fn run(self, events: Seq<GlyphOutlineEvent>) -> BuilderState
        decreases events.len(),
    {
        if events.len() == 0 || !self.fits(events[0]) {
            self
        } else {
            self.step(events[0]).run(events.skip(1))
        }
    }

    /// Whether the buffers can still be addressed by 32-bit offsets.
    pub open spec fn in_range(self) -> bool {
        &&& self.verts.len() <= u32::MAX
        &&& self.indices.len() <= u32::MAX
        &&& self.qverts.len() <= u32::MAX
    }
}

/// The range of a glyph whose outline took a builder from `before` to `after`.
pub open spec fn glyph_between(before: BuilderState, after: BuilderState) -> TessellatedGlyph {
    TessellatedGlyph {
        index_count: (after.indices.len() - before.indices.len()) as u32,
        first_index: before.indices.len() as u32,
        vertex_offset: (before.verts.len() - 2) as u32,
        qvertex_count: (after.qverts.len() - before.qverts.len()) as u32,
        qvertex_offset: before.qverts.len() as u32,
    }
}

/// The number of events of an outline that add a winding triangle: all but the moves.
pub open spec fn triangle_count(events: Seq<GlyphOutlineEvent>) -> nat
    decreases events.len(),
{
    if events.len() == 0 {
        0
    } else {
        let rest = triangle_count(events.skip(1));
        if events[0] is MoveTo {
            rest
        } else {
            rest + 1
        }
    }
}

/// The number of events of an outline that add an overlay triangle: the quadratic curves.
pub open spec fn overlay_count(events: Seq<GlyphOutlineEvent>) -> nat
    decreases events.len(),
{
    if events.len() == 0 {
        0
    } else {
        let rest = overlay_count(events.skip(1));
        if events[0] is QuadraticTo {
            rest + 1
        } else {
            rest
        }
    }
}

/// What taking a whole glyph yields: its range, unless an index or an offset would overflow.
pub open spec fn glyph_outcome(s: BuilderState, events: Seq<GlyphOutlineEvent>) -> Result<
    TessellatedGlyph,
    TessellateError,
> {
    if !s.all_fit(events) {
        Err(TessellateError::IndexOverflow)
    } else if !s.run(events).in_range() {
        Err(TessellateError::RangeOverflow)
    } else {
        Ok(glyph_between(s, s.run(events)))
    }
}

/// The state after taking a whole glyph: its events applied and, where that went well, the
/// next glyph opened.
pub open spec fn after_glyph(s: BuilderState, events: Seq<GlyphOutlineEvent>) -> BuilderState {
    if glyph_outcome(s, events) is Ok {
        s.run(events).reset()
    } else {
        s.run(events)
    }
}

/// Events never take anything away: the glyph's start stays, the lists only grow, and what
/// the index and overlay lists held stays in place, as do the vertices of the glyphs before.
pub proof fn lemma_step_grows(s: BuilderState, event: GlyphOutlineEvent)
    requires
        s.wf(),
    ensures
        s.step(event).wf(),
        s.step(event).offset == s.offset,
        s.step(event).verts.len() >= s.verts.len(),
        s.step(event).indices.len() >= s.indices.len(),
        s.step(event).qverts.len() >= s.qverts.len(),
        s.step(event).indices.take(s.indices.len() as int) == s.indices,
        s.step(event).qverts.take(s.qverts.len() as int) == s.qverts,
        s.step(event).verts.take(s.offset) == s.verts.take(s.offset),
{
    let t = s.step(event);
    assert(t.indices.take(s.indices.len() as int) =~= s.indices);
    assert(t.qverts.take(s.qverts.len() as int) =~= s.qverts);
    assert(t.verts.take(s.offset) =~= s.verts.take(s.offset));
}

/// What holds of one event holds of a whole outline.
pub proof fn lemma_run_grows(s: BuilderState, events: Seq<GlyphOutlineEvent>)
    requires
        s.wf(),
    ensures
        s.run(events).wf(),
        s.run(events).offset == s.offset,
        s.run(events).verts.len() >= s.verts.len(),
        s.run(events).indices.len() >= s.indices.len(),
        s.run(events).qverts.len() >= s.qverts.len(),
        s.run(events).indices.take(s.indices.len() as int) == s.indices,
        s.run(events).qverts.take(s.qverts.len() as int) == s.qverts,
        s.run(events).verts.take(s.offset) == s.verts.take(s.offset),
    decreases events.len(),
{
    if events.len() != 0 && s.fits(events[0]) {
        let t = s.step(events[0]);
        let r = s.run(events);
        lemma_step_grows(s, events[0]);
        lemma_run_grows(t, events.skip(1));
        assert(r.indices.take(s.indices.len() as int) =~= r.indices.take(
            t.indices.len() as int,
        ).take(s.indices.len() as int));
        assert(r.qverts.take(s.qverts.len() as int) =~= r.qverts.take(
            t.qverts.len() as int,
        ).take(s.qverts.len() as int));
    } else {
        assert(s.indices.take(s.indices.len() as int) =~= s.indices);
        assert(s.qverts.take(s.qverts.len() as int) =~= s.qverts);
    }
}

/// An outline that fits adds three indices for each of its events but the moves, and three
/// overlay vertices for each of its quadratic curves.
pub proof fn lemma_run_counts(s: BuilderState, events: Seq<GlyphOutlineEvent>)
    requires
        s.wf(),
        s.all_fit(events),
    ensures
        s.run(events).indices.len() == s.indices.len() + 3 * triangle_count(events),
        s.run(events).qverts.len() == s.qverts.len() + 3 * overlay_count(events),
    decreases events.len(),
{
    if events.len() != 0 {
        lemma_step_grows(s, events[0]);
        lemma_run_counts(s.step(events[0]), events.skip(1));
    }
}

/// Every index that an outline adds names a vertex of the glyph that it belongs to.
pub proof fn lemma_run_indices_valid(s: BuilderState, events: Seq<GlyphOutlineEvent>)
    requires
        s.wf(),
    ensures
        forall|j: int|
            s.indices.len() <= j < s.run(events).indices.len() ==> s.offset + (#[trigger] s.run(
                events,
            ).indices[j]) < s.run(events).verts.len(),
    decreases events.len(),
{
    let r = s.run(events);
    if events.len() != 0 && s.fits(events[0]) {
        let t = s.step(events[0]);
        lemma_step_grows(s, events[0]);
        lemma_run_grows(t, events.skip(1));
        lemma_run_indices_valid(t, events.skip(1));
        assert forall|j: int| s.indices.len() <= j < r.indices.len() implies s.offset + (
        #[trigger] r.indices[j]) < r.verts.len() by {
            if j < t.indices.len() {
                assert(r.indices[j] == r.indices.take(t.indices.len() as int)[j]);
                assert(r.indices[j] == t.indices[j]);
                assert(s.offset + t.indices[j] < t.verts.len());
            }
        }
    }
}

/// The first move of a glyph puts its point at the apex of the glyph's fan, the glyph's first
/// vertex, and in the vertex after it; it adds no vertex and no index, and the contour
/// starts at the apex.
pub proof fn lemma_first_move_sets_apex(s: BuilderState, to: Point)
    requires
        s.wf(),
        s.fresh(),
    ensures
        s.move_to(to).verts[s.offset] == vertex_of(to),
        s.move_to(to).verts[s.offset + 1] == vertex_of(to),
        s.move_to(to).verts.len() == s.verts.len(),
        s.move_to(to).indices == s.indices,
        s.move_to(to).qverts == s.qverts,
        s.move_to(to).starti == s.offset,
        s.move_to(to).fresh(),
{
}

/// Once a glyph has more than its two opening vertices, no event moves a vertex that is
/// there: the apex stays where the first move put it.
pub proof fn lemma_vertices_stay(s: BuilderState, events: Seq<GlyphOutlineEvent>)
    requires
        s.wf(),
        !s.fresh(),
    ensures
        s.run(events).verts.take(s.verts.len() as int) == s.verts,
    decreases events.len(),
{
    if events.len() != 0 && s.fits(events[0]) {
        let t = s.step(events[0]);
        let r = s.run(events);
        lemma_step_grows(s, events[0]);
        lemma_run_grows(t, events.skip(1));
        lemma_vertices_stay(t, events.skip(1));
        assert(t.verts.take(s.verts.len() as int) =~= s.verts);
        assert(r.verts.take(s.verts.len() as int) =~= r.verts.take(t.verts.len() as int).take(
            s.verts.len() as int,
        ));
    } else {
        assert(s.verts.take(s.verts.len() as int) =~= s.verts);
    }
}

/// A glyph's range counts three indices for each event of its outline but the moves, and
/// three overlay vertices for each quadratic curve. An outline without events gives an
/// empty range.
pub proof fn lemma_glyph_counts(s: BuilderState, events: Seq<GlyphOutlineEvent>)
    requires
        s.wf(),
        glyph_outcome(s, events) is Ok,
    ensures
        glyph_outcome(s, events)->Ok_0.index_count == 3 * triangle_count(events),
        glyph_outcome(s, events)->Ok_0.qvertex_count == 3 * overlay_count(events),
        glyph_outcome(s, events)->Ok_0.first_index == s.indices.len(),
        glyph_outcome(s, events)->Ok_0.vertex_offset == s.verts.len() - 2,
        glyph_outcome(s, events)->Ok_0.qvertex_offset == s.qverts.len(),
        events.len() == 0 ==> glyph_outcome(s, events)->Ok_0.index_count == 0 && glyph_outcome(
            s,
            events,
        )->Ok_0.qvertex_count == 0,
{
    lemma_run_grows(s, events);
    lemma_run_counts(s, events);
}

/// Two outlines joined add the triangles of both.
pub proof fn lemma_triangle_count_concat(a: Seq<GlyphOutlineEvent>, b: Seq<GlyphOutlineEvent>)
    ensures
        triangle_count(a + b) == triangle_count(a) + triangle_count(b),
    decreases a.len(),
{
    if a.len() == 0 {
        assert(a + b =~= b);
    } else {
        assert((a + b)[0] == a[0]);
        assert((a + b).skip(1) =~= a.skip(1) + b);
        lemma_triangle_count_concat(a.skip(1), b);
    }
}

/// Taking two outlines one after the other is taking them joined.
pub proof fn lemma_run_concat(
    s: BuilderState,
    a: Seq<GlyphOutlineEvent>,
    b: Seq<GlyphOutlineEvent>,
)
    requires
        s.wf(),
    ensures
        s.all_fit(a + b) == (s.all_fit(a) && s.run(a).all_fit(b)),
        s.all_fit(a) ==> s.run(a + b) == s.run(a).run(b),
    decreases a.len(),
{
    if a.len() == 0 {
        assert(a + b =~= b);
    } else {
        assert((a + b)[0] == a[0]);
        assert((a + b).skip(1) =~= a.skip(1) + b);
        if s.fits(a[0]) {
            lemma_step_grows(s, a[0]);
            lemma_run_concat(s.step(a[0]), a.skip(1), b);
        }
    }
}

/// An outline without moves adds a triangle for each of its events, leaves the start of the
/// contour where it was, and leaves every vertex that was there as it was.
pub proof fn lemma_run_without_moves(s: BuilderState, events: Seq<GlyphOutlineEvent>)
    requires
        s.wf(),
        forall|i: int| 0 <= i < events.len() ==> !(#[trigger] events[i] is MoveTo),
    ensures
        triangle_count(events) == events.len(),
        s.run(events).starti == s.starti,
        s.run(events).verts.take(s.verts.len() as int) == s.verts,
    decreases events.len(),
{
    if events.len() == 0 {
        assert(s.verts.take(s.verts.len() as int) =~= s.verts);
    } else {
        let rest = events.skip(1);
        assert(!(events[0] is MoveTo));
        assert forall|i: int| 0 <= i < rest.len() implies !(#[trigger] rest[i] is MoveTo) by {
            assert(rest[i] == events[i + 1]);
        }
        lemma_step_grows(s, events[0]);
        lemma_run_without_moves(s.step(events[0]), rest);
        if s.fits(events[0]) {
            let t = s.step(events[0]);
            let r = s.run(events);
            lemma_run_grows(t, rest);
            assert(t.verts.take(s.verts.len() as int) =~= s.verts);
            assert(r.verts.take(s.verts.len() as int) =~= r.verts.take(t.verts.len() as int).take(
                s.verts.len() as int,
            ));
        } else {
            assert(s.verts.take(s.verts.len() as int) =~= s.verts);
        }
    }
}

/// A close adds one triangle and nothing else: the glyph's first vertex, the last vertex and
/// the vertex at which the contour started. Both vertex lists stay as they are.
pub proof fn lemma_close_adds_triple(s: BuilderState)
    requires
        s.wf(),
        s.fits(GlyphOutlineEvent::Close),
    ensures
        s.close().indices == s.indices + seq![
            0u16,
            (s.verts.len() - s.offset - 1) as u16,
            (s.starti - s.offset) as u16,
        ],
        s.close().indices[s.indices.len() as int + 1] == s.verts.len() - s.offset - 1,
        s.close().indices[s.indices.len() as int + 2] == s.starti - s.offset,
        s.close().verts == s.verts,
        s.close().qverts == s.qverts,
        s.close().starti == s.starti,
        s.close().offset == s.offset,
{
    assert(s.close().indices =~= s.indices + seq![
        0u16,
        (s.verts.len() - s.offset - 1) as u16,
        (s.starti - s.offset) as u16,
    ]);
}

/// The outline of one closed contour of straight segments: a move to the first point, a line
/// to each further point, and the close that draws the last segment.
pub open spec fn polygon(points: Seq<Point>) -> Seq<GlyphOutlineEvent> {
    seq![GlyphOutlineEvent::MoveTo(points[0])] + Seq::new(
        (points.len() - 1) as nat,
        |i: int| GlyphOutlineEvent::LineTo(points[i + 1]),
    ) + seq![GlyphOutlineEvent::Close]
}

/// A closed contour of as many straight segments as it has points adds one triangle for
/// each segment, and the last index of the last triangle is the vertex at which the contour
/// started, which holds the contour's first point. Where the contour is the glyph's first,
/// that vertex is the glyph's first, the apex of the fan.
pub proof fn lemma_closed_polygon(s: BuilderState, points: Seq<Point>)
    requires
        s.wf(),
        points.len() >= 1,
        s.all_fit(polygon(points)),
    ensures
        ({
            let r = s.run(polygon(points));
            &&& r.indices.len() == s.indices.len() + 3 * points.len()
            &&& r.indices[r.indices.len() - 3] == 0
            &&& r.indices[r.indices.len() - 2] == r.verts.len() - r.offset - 1
            &&& r.indices[r.indices.len() - 1] == r.starti - r.offset
            &&& r.offset <= r.starti < r.verts.len()
            &&& r.verts[r.starti] == vertex_of(points[0])
            &&& s.fresh() ==> r.starti == r.offset
        }),
{
    let first = GlyphOutlineEvent::MoveTo(points[0]);
    let lines = Seq::new(
        (points.len() - 1) as nat,
        |i: int| GlyphOutlineEvent::LineTo(points[i + 1]),
    );
    let last = seq![GlyphOutlineEvent::Close];
    let events = polygon(points);
    let tail = lines + last;
    assert(events[0] == first);
    assert(events.skip(1) =~= tail);
    let t = s.step(first);
    lemma_step_grows(s, first);
    assert(s.run(events) == t.run(tail));
    assert(t.all_fit(tail));
    assert(t.offset <= t.starti < t.verts.len());
    assert(t.verts[t.starti] == vertex_of(points[0]));
    lemma_run_concat(t, lines, last);
    let u = t.run(lines);
    lemma_run_grows(t, lines);
    lemma_run_without_moves(t, lines);
    assert(u.verts[t.starti] == u.verts.take(t.verts.len() as int)[t.starti]);
    assert(last[0] == GlyphOutlineEvent::Close);
    assert(last.skip(1).len() == 0);
    assert(u.all_fit(last));
    assert(u.fits(last[0]));
    assert(u.close().run(last.skip(1)) == u.close());
    assert(u.run(last) == u.close());
    lemma_run_counts(t, lines);
    let r = u.close();
    assert(r.indices.len() == u.indices.len() + 3);
    assert(u.next_index() - 1 <= max_index());
    assert(u.starti - u.offset <= max_index());
}

/// Collects the triangles of glyph after glyph into three shared lists.
pub struct TriangleBuilder {
    starti: usize,
    offset: usize,
    verts: Vec<TriangleVertex>,
    indices: Vec<u16>,
    qverts: Vec<TriangleVertex>,
}

impl View for TriangleBuilder {
    type V = BuilderState;

    closed spec fn view(&self) -> BuilderState {
        BuilderState {
            offset: self.offset as int,
            starti: self.starti as int,
            verts: self.verts@,
            indices: self.indices@,
            qverts: self.qverts@,
        }
    }
}

impl TriangleBuilder {
    /// A builder that has seen nothing.
    pub fn new() -> (b: TriangleBuilder)
        ensures
            b@ == BuilderState::initial(),
            b@.wf(),
    {
        let mut verts: Vec<TriangleVertex> = Vec::new();
        verts.push(TriangleVertex { x: 0, y: 0 });
        verts.push(TriangleVertex { x: 0, y: 0 });
        let b = TriangleBuilder {
            starti: 0,
            offset: 0,
            verts,
            indices: Vec::new(),
            qverts: Vec::new(),
        };
        assert(b@.verts =~= BuilderState::initial().verts);
        b
    }

    /// Ends the current glyph and opens the next.
    pub fn reset(&mut self)
        requires
            old(self)@.wf(),
        ensures
            final(self)@ == old(self)@.reset(),
            final(self)@.wf(),
            final(self)@.fresh(),
    {
        self.offset = self.verts.len();
        self.starti = self.verts.len();
        self.verts.push(TriangleVertex { x: 0, y: 0 });
        self.verts.push(TriangleVertex { x: 0, y: 0 });
    }

    /// Starts a contour at a point.
    pub fn move_to(&mut self, to: Point)
        requires
            old(self)@.wf(),
        ensures
            final(self)@ == old(self)@.move_to(to),
            final(self)@.wf(),
    {
        let vert = to_vertex(to);
        if self.verts.len() == self.offset + 2 {
            self.starti = self.offset;
            self.verts.set(self.offset, vert);
            self.verts.set(self.offset + 1, vert);
        } else {
            self.starti = self.verts.len();
            self.verts.push(vert);
        }
    }

    /// Adds a vertex at a point and the fan triangle that ends there.
    fn fan_to(&mut self, to: Point) -> (r: Result<(), TessellateError>)
        requires
            old(self)@.wf(),
        ensures
            final(self)@.wf(),
            old(self)@.next_index() <= max_index() ==> r is Ok && final(self)@ == old(self)@.fan_to(to),
            old(self)@.next_index() > max_index() ==> r == Err::<(), TessellateError>(
                TessellateError::IndexOverflow,
            ) && final(self)@ == old(self)@,
    {
        let index: usize = self.verts.len() - self.offset;
        if index > 0xffff {
            return Err(TessellateError::IndexOverflow);
        }
        self.verts.push(to_vertex(to));
        self.indices.push(0);
        self.indices.push((index - 1) as u16);
        self.indices.push(index as u16);
        Ok(())
    }

    /// A straight segment to a point.
    pub fn line_to(&mut self, to: Point) -> (r: Result<(), TessellateError>)
        requires
            old(self)@.wf(),
        ensures
            final(self)@.wf(),
            old(self)@.fits(GlyphOutlineEvent::LineTo(to)) ==> r is Ok && final(self)@ == old(self)@.line_to(to),
            !old(self)@.fits(GlyphOutlineEvent::LineTo(to)) ==> r == Err::<(), TessellateError>(
                TessellateError::IndexOverflow,
            ) && final(self)@ == old(self)@,
    {
        self.fan_to(to)
    }

    /// A quadratic curve over a control point to a point.
    pub fn quadratic_curve_to(&mut self, ctrl: Point, to: Point) -> (r: Result<
        (),
        TessellateError,
    >)
        requires
            old(self)@.wf(),
        ensures
            final(self)@.wf(),
            old(self)@.fits(GlyphOutlineEvent::QuadraticTo(ctrl, to)) ==> r is Ok && final(self)@
                == old(self)@.quadratic_curve_to(ctrl, to),
            !old(self)@.fits(GlyphOutlineEvent::QuadraticTo(ctrl, to)) ==> r == Err::<
                (),
                TessellateError,
            >(TessellateError::IndexOverflow) && final(self)@ == old(self)@,
    {
        match self.fan_to(to) {
            Err(e) => Err(e),
            Ok(()) => {
                let lasti: usize = self.verts.len() - 1;
                let last = self.verts[lasti];
                let before = self.verts[lasti - 1];
                self.qverts.push(last);
                self.qverts.push(before);
                self.qverts.push(to_vertex(ctrl));
                Ok(())
            },
        }
    }

    /// A cubic curve over two control points to a point; it is drawn as the straight segment
    /// to its end point.
    pub fn cubic_curve_to(&mut self, ctrl0: Point, ctrl1: Point, to: Point) -> (r: Result<
        (),
        TessellateError,
    >)
        requires
            old(self)@.wf(),
        ensures
            final(self)@.wf(),
            old(self)@.fits(GlyphOutlineEvent::CubicTo(ctrl0, ctrl1, to)) ==> r is Ok && final(self)@ == old(self)@.cubic_curve_to(to),
            !old(self)@.fits(GlyphOutlineEvent::CubicTo(ctrl0, ctrl1, to)) ==> r == Err::<
                (),
                TessellateError,
            >(TessellateError::IndexOverflow) && final(self)@ == old(self)@,
    {
        self.fan_to(to)
    }

    /// Closes the current contour.
    pub fn close(&mut self) -> (r: Result<(), TessellateError>)
        requires
            old(self)@.wf(),
        ensures
            final(self)@.wf(),
            old(self)@.fits(GlyphOutlineEvent::Close) ==> r is Ok && final(self)@ == old(self)@.close(),
            !old(self)@.fits(GlyphOutlineEvent::Close) ==> r == Err::<(), TessellateError>(
                TessellateError::IndexOverflow,
            ) && final(self)@ == old(self)@,
    {
        let last: usize = self.verts.len() - self.offset - 1;
        if last > 0xffff {
            return Err(TessellateError::IndexOverflow);
        }
        let start: usize = self.starti - self.offset;
        self.indices.push(0);
        self.indices.push(last as u16);
        self.indices.push(start as u16);
        Ok(())
    }

    /// Takes one event of an outline.
    pub fn apply(&mut self, event: GlyphOutlineEvent) -> (r: Result<(), TessellateError>)
        requires
            old(self)@.wf(),
        ensures
            final(self)@.wf(),
            old(self)@.fits(event) ==> r is Ok && final(self)@ == old(self)@.step(event),
            !old(self)@.fits(event) ==> r == Err::<(), TessellateError>(
                TessellateError::IndexOverflow,
            ) && final(self)@ == old(self)@,
    {
        match event {
            GlyphOutlineEvent::MoveTo(to) => {
                self.move_to(to);
                Ok(())
            },
            GlyphOutlineEvent::LineTo(to) => self.line_to(to),
            GlyphOutlineEvent::QuadraticTo(ctrl, to) => self.quadratic_curve_to(ctrl, to),
            GlyphOutlineEvent::CubicTo(ctrl0, ctrl1, to) => self.cubic_curve_to(ctrl0, ctrl1, to),
            GlyphOutlineEvent::Close => self.close(),
        }
    }

    /// Takes the whole outline of one glyph and opens the next glyph.
    ///
    /// The events are taken in turn. Where one does not fit, the builder stays as the events
    /// before it left it.
    pub fn add_glyph(&mut self, events: &Vec<GlyphOutlineEvent>) -> (r: Result<
        TessellatedGlyph,
        TessellateError,
    >)
        requires
            old(self)@.wf(),
        ensures
            final(self)@.wf(),
            r == glyph_outcome(old(self)@, events@),
            final(self)@ == after_glyph(old(self)@, events@),
    {
        let ghost start = self@;
        let index_start: usize = self.indices.len();
        let vert_start: usize = self.verts.len() - 2;
        let qvert_start: usize = self.qverts.len();
        let mut i: usize = 0;
        assert(events@.skip(0) =~= events@);
        while i < events.len()
            invariant
                i <= events.len(),
                start == old(self)@,
                start.wf(),
                self@.wf(),
                start.run(events@) == self@.run(events@.skip(i as int)),
                start.all_fit(events@) == self@.all_fit(events@.skip(i as int)),
            decreases events.len() - i,
        {
            let event = events[i];
            let ghost here = self@;
            let ghost rest = events@.skip(i as int);
            assert(rest[0] == event);
            assert(rest.skip(1) =~= events@.skip(i + 1));
            assert(here.run(rest) == if here.fits(event) {
                here.step(event).run(rest.skip(1))
            } else {
                here
            });
            assert(here.all_fit(rest) == (here.fits(event) && here.step(event).all_fit(
                rest.skip(1),
            )));
            match self.apply(event) {
                Err(e) => {
                    return Err(e);
                },
                Ok(()) => {},
            }
            i += 1;
        }
        proof {
            lemma_run_grows(start, events@);
        }
        if self.verts.len() > u32::MAX as usize || self.indices.len() > u32::MAX as usize
            || self.qverts.len() > u32::MAX as usize {
            return Err(TessellateError::RangeOverflow);
        }
        let glyph = TessellatedGlyph {
            index_count: (self.indices.len() - index_start) as u32,
            first_index: index_start as u32,
            vertex_offset: vert_start as u32,
            qvertex_count: (self.qverts.len() - qvert_start) as u32,
            qvertex_offset: qvert_start as u32,
        };
        self.reset();
        Ok(glyph)
    }

    /// Gives up the three lists.
    pub fn into_lists(self) -> (lists: (Vec<TriangleVertex>, Vec<u16>, Vec<TriangleVertex>))
        ensures
            lists.0@ == self@.verts,
            lists.1@ == self@.indices,
            lists.2@ == self@.qverts,
    {
        (self.verts, self.indices, self.qverts)
    }

    /// The winding vertices so far.
    pub fn verts(&self) -> (v: &Vec<TriangleVertex>)
        ensures
            v@ == self@.verts,
    {
        &self.verts
    }

    /// The winding indices so far.
    pub fn indices(&self) -> (v: &Vec<u16>)
        ensures
            v@ == self@.indices,
    {
        &self.indices
    }

    /// The overlay vertices so far.
    pub fn qverts(&self) -> (v: &Vec<TriangleVertex>)
        ensures
            v@ == self@.qverts,
    {
        &self.qverts
    }
}

} // verus!
