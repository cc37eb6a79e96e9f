use vstd::prelude::*;

verus! {

/// A point of a glyph outline.
///
/// Each coordinate is held as the bit pattern of a single-precision number, so that a point
/// passes through this library exactly as the font gave it.
#[derive(Clone, Copy, Debug, PartialEq, Eq, Structural)]
pub struct Point {
    pub x: u32,
    pub y: u32,
}

/// One step of a glyph's outline.
#[derive(Clone, Copy, Debug, PartialEq, Eq, Structural)]
pub enum GlyphOutlineEvent {
    /// Starts a contour at a point.
    MoveTo(Point),
    /// A straight segment to a point.
    LineTo(Point),
    /// A quadratic curve: its control point, then its end point.
    QuadraticTo(Point, Point),
    /// A cubic curve: its two control points, then its end point.
    CubicTo(Point, Point, Point),
    /// Closes the contour, back to where it started.
    Close,
}

/// A vertex of a triangle list, with the same representation of coordinates as [`Point`].
#[derive(Clone, Copy, Debug, PartialEq, Eq, Structural)]
pub struct TriangleVertex {
    pub x: u32,
    pub y: u32,
}

/// The bit that holds the sign of a single-precision number.
pub const SIGN_BIT: u32 = 0x8000_0000u32;

/// The bits of the number with the opposite sign.
pub open spec fn negated(bits: u32) -> u32 {
    bits ^ SIGN_BIT
}

/// The vertex drawn for an outline point: outlines have `y` pointing up, the screen has it
/// pointing down.
pub open spec fn vertex_of(p: Point) -> TriangleVertex {
    TriangleVertex { x: p.x, y: negated(p.y) }
}

/// The vertex at the origin, which stands in a glyph's first two places until the outline
/// says otherwise.
pub open spec fn origin_vertex() -> TriangleVertex {
    TriangleVertex { x: 0, y: 0 }
}

/// Flips the sign of a coordinate.
pub fn negate(bits: u32) -> (r: u32)
    ensures
        r == negated(bits),
{
    bits ^ SIGN_BIT
}

/// Turns an outline point into the vertex drawn for it.
pub fn to_vertex(p: Point) -> (v: TriangleVertex)
    ensures
        v == vertex_of(p),
{
    TriangleVertex { x: p.x, y: negate(p.y) }
}

/// Flipping a coordinate's sign twice gives the coordinate back, and one flip changes only
/// the sign bit.
pub proof fn lemma_negated_involution(bits: u32)
    ensures
        negated(negated(bits)) == bits,
        negated(bits) != bits,
        negated(bits) & 0x7fff_ffff == bits & 0x7fff_ffff,
{
    assert((bits ^ 0x8000_0000u32) ^ 0x8000_0000u32 == bits) by (bit_vector);
    assert((bits ^ 0x8000_0000u32) != bits) by (bit_vector);
    assert((bits ^ 0x8000_0000u32) & 0x7fff_ffff == bits & 0x7fff_ffff) by (bit_vector);
}

} // verus!
