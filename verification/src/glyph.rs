use vstd::prelude::*;

verus! {

/// Where one glyph's triangles lie inside the buffers of the block that holds it.
///
/// Every offset counts from the start of the block's own buffers.
#[derive(Clone, Copy, Debug, PartialEq, Eq, Structural)]
pub struct TessellatedGlyph {
    /// Number of entries of the winding index list that belong to the glyph.
    pub index_count: u32,
    /// Position of the glyph's first entry in the winding index list.
    pub first_index: u32,
    /// Position of the glyph's first vertex; the glyph's indices count from it.
    pub vertex_offset: u32,
    /// Number of overlay vertices that belong to the glyph.
    pub qvertex_count: u32,
    /// Position of the glyph's first overlay vertex.
    pub qvertex_offset: u32,
}

} // verus!
