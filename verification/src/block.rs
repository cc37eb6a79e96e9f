use vstd::prelude::*;
use crate::glyph::TessellatedGlyph;
use crate::outline::{GlyphOutlineEvent, TriangleVertex};
use crate::tessellate::{
    after_glyph, glyph_outcome, lemma_glyph_counts, lemma_run_counts, lemma_run_grows,
    lemma_run_indices_valid, overlay_count, triangle_count, BuilderState, TessellateError,
    TriangleBuilder,
};

verus! {

/// The triangles of one Unicode block: the three lists that all its glyphs share.
#[derive(Debug, PartialEq, Eq)]
pub struct BlockInfo {
    /// The winding vertices.
    pub verts: Vec<TriangleVertex>,
    /// The winding indices, each counted from the first vertex of its glyph.
    pub indices: Vec<u16>,
    /// The overlay vertices.
    pub qverts: Vec<TriangleVertex>,
}

/// The three lists of a block as plain sequences.
pub struct BlockGeometry {
    pub verts: Seq<TriangleVertex>,
    pub indices: Seq<u16>,
    pub qverts: Seq<TriangleVertex>,
}

impl View for BlockInfo {
    type V = BlockGeometry;

    open spec fn view(&self) -> BlockGeometry {
        BlockGeometry { verts: self.verts@, indices: self.indices@, qverts: self.qverts@ }
    }
}

/// The outline of one glyph, under the id that the font gives the glyph.
#[derive(Debug, PartialEq, Eq)]
pub struct GlyphOutline {
    pub glyph_id: u32,
    pub events: Vec<GlyphOutlineEvent>,
}

/// The outline of one glyph as plain values.
pub struct Outline {
    pub glyph_id: u32,
    pub events: Seq<GlyphOutlineEvent>,
}

impl View for GlyphOutline {
    type V = Outline;

    open spec fn view(&self) -> Outline {
        Outline { glyph_id: self.glyph_id, events: self.events@ }
    }
}

/// The outlines of a block as plain values.
pub open spec fn outline_views(outlines: Seq<GlyphOutline>) -> Seq<Outline> {
    Seq::new(outlines.len(), |k: int| outlines[k]@)
}

/// The lists that a builder has collected.
pub open spec fn geometry_of(s: BuilderState) -> BlockGeometry {
    BlockGeometry { verts: s.verts, indices: s.indices, qverts: s.qverts }
}

/// A glyph's range lies inside a block's lists: whole triangles, and every index names a
/// vertex that is there.
pub open spec fn glyph_in_geometry(g: TessellatedGlyph, geometry: BlockGeometry) -> bool {
    &&& g.index_count % 3 == 0
    &&& g.first_index + g.index_count <= geometry.indices.len()
    &&& g.vertex_offset + 2 <= geometry.verts.len()
    &&& forall|j: int|
        g.first_index <= j < g.first_index + g.index_count ==> g.vertex_offset + (
        #[trigger] geometry.indices[j]) < geometry.verts.len()
    &&& g.qvertex_count % 3 == 0
    &&& g.qvertex_offset + g.qvertex_count <= geometry.qverts.len()
}

/// The builder after the first `n` outlines of a block, each taken as a whole glyph.
pub open spec fn state_after(outlines: Seq<Outline>, n: int) -> BuilderState
    decreases n,
{
    if n <= 0 {
        BuilderState::initial()
    } else {
        after_glyph(state_after(outlines, n - 1), outlines[n - 1].events)
    }
}

/// What taking outline `k` of a block yields, after the outlines before it.
pub open spec fn range_of(outlines: Seq<Outline>, k: int) -> Result<
    TessellatedGlyph,
    TessellateError,
> {
    glyph_outcome(state_after(outlines, k), outlines[k].events)
}

/// The failure of the first of the first `n` outlines that fails, if one does.
pub open spec fn first_error(outlines: Seq<Outline>, n: int) -> Option<TessellateError>
    decreases n,
{
    if n <= 0 {
        None
    } else {
        match first_error(outlines, n - 1) {
            Some(e) => Some(e),
            None => match range_of(outlines, n - 1) {
                Err(e) => Some(e),
                Ok(_) => None,
            },
        }
    }
}

/// A tessellated block as plain values: its lists, and each glyph's id with its range, in
/// the order of the outlines.
pub struct BlockRasterView {
    pub geometry: BlockGeometry,
    pub glyphs: Seq<(u32, TessellatedGlyph)>,
}

/// What tessellating the outlines of a block yields.
pub open spec fn block_outcome(outlines: Seq<Outline>) -> Result<
    BlockRasterView,
    TessellateError,
> {
    match first_error(outlines, outlines.len() as int) {
        Some(e) => Err(e),
        None => Ok(
            BlockRasterView {
                geometry: geometry_of(state_after(outlines, outlines.len() as int)),
                glyphs: Seq::new(
                    outlines.len(),
                    |k: int| (outlines[k].glyph_id, range_of(outlines, k)->Ok_0),
                ),
            },
        ),
    }
}

impl BlockRasterView {
    /// Every glyph's range lies inside the lists.
    pub open spec fn wf(self) -> bool {
        forall|k: int|
            0 <= k < self.glyphs.len() ==> glyph_in_geometry(
                (#[trigger] self.glyphs[k]).1,
                self.geometry,
            )
    }
}

/// A tessellated block: its lists, and the range of each of its glyphs.
#[derive(Debug, PartialEq, Eq)]
pub struct BlockRaster {
    info: BlockInfo,
    glyphs: Vec<(u32, TessellatedGlyph)>,
}

impl View for BlockRaster {
    type V = BlockRasterView;

    closed spec fn view(&self) -> BlockRasterView {
        BlockRasterView { geometry: self.info@, glyphs: self.glyphs@ }
    }
}

impl BlockRaster {
    /// The block's lists.
    pub fn info(&self) -> (info: &BlockInfo)
        ensures
            info@ == self@.geometry,
    {
        &self.info
    }

    /// Each glyph's id with its range, in the order in which the glyphs were taken.
    pub fn glyphs(&self) -> (glyphs: &Vec<(u32, TessellatedGlyph)>)
        ensures
            glyphs@ == self@.glyphs,
    {
        &self.glyphs
    }

    /// Gives up the block's lists and ranges.
    pub fn into_parts(self) -> (parts: (BlockInfo, Vec<(u32, TessellatedGlyph)>))
        ensures
            parts.0@ == self@.geometry,
            parts.1@ == self@.glyphs,
    {
        (self.info, self.glyphs)
    }
}

/// A range stays inside the lists when a later glyph is added to them.
pub proof fn lemma_range_stays(g: TessellatedGlyph, s: BuilderState, events: Seq<GlyphOutlineEvent>)
    requires
        s.wf(),
        glyph_in_geometry(g, geometry_of(s)),
    ensures
        glyph_in_geometry(g, geometry_of(after_glyph(s, events))),
{
    let r = s.run(events);
    let t = after_glyph(s, events);
    lemma_run_grows(s, events);
    assert(t.indices == r.indices);
    assert forall|j: int| g.first_index <= j < g.first_index + g.index_count implies g.vertex_offset
        + (#[trigger] geometry_of(t).indices[j]) < geometry_of(t).verts.len() by {
        assert(r.indices[j] == r.indices.take(s.indices.len() as int)[j]);
        assert(s.indices[j] == geometry_of(s).indices[j]);
    }
}

/// The range of a glyph taken by a builder that was ready for it lies inside the lists as
/// they are after the glyph.
pub proof fn lemma_new_range_valid(s: BuilderState, events: Seq<GlyphOutlineEvent>)
    requires
        s.wf(),
        s.fresh(),
        glyph_outcome(s, events) is Ok,
    ensures
        glyph_in_geometry(glyph_outcome(s, events)->Ok_0, geometry_of(after_glyph(s, events))),
{
    let r = s.run(events);
    let t = after_glyph(s, events);
    let g = glyph_outcome(s, events)->Ok_0;
    lemma_run_grows(s, events);
    lemma_run_counts(s, events);
    lemma_run_indices_valid(s, events);
    assert(g.vertex_offset == s.offset);
    assert(g.first_index == s.indices.len());
    assert(g.index_count == r.indices.len() - s.indices.len());
    assert forall|j: int| g.first_index <= j < g.first_index + g.index_count implies g.vertex_offset
        + (#[trigger] geometry_of(t).indices[j]) < geometry_of(t).verts.len() by {
        assert(geometry_of(t).indices[j] == r.indices[j]);
    }
}

/// While no outline has failed, the builder is well formed and ready for the next glyph,
/// and every range given out so far lies inside its lists.
pub proof fn lemma_state_after(outlines: Seq<Outline>, n: int)
    requires
        0 <= n <= outlines.len(),
        first_error(outlines, n) is None,
    ensures
        state_after(outlines, n).wf(),
        state_after(outlines, n).fresh(),
        forall|k: int|
            0 <= k < n ==> (#[trigger] range_of(outlines, k)) is Ok && glyph_in_geometry(
                range_of(outlines, k)->Ok_0,
                geometry_of(state_after(outlines, n)),
            ),
    decreases n,
{
    if n > 0 {
        lemma_state_after(outlines, n - 1);
        let s = state_after(outlines, n - 1);
        let events = outlines[n - 1].events;
        lemma_run_grows(s, events);
        lemma_new_range_valid(s, events);
        assert forall|k: int| 0 <= k < n implies (#[trigger] range_of(outlines, k)) is Ok
            && glyph_in_geometry(
            range_of(outlines, k)->Ok_0,
            geometry_of(state_after(outlines, n)),
        ) by {
            if k < n - 1 {
                lemma_range_stays(range_of(outlines, k)->Ok_0, s, events);
            }
        }
    }
}

/// Every block that tessellates is well formed: no range of it names an index or a vertex
/// that is not there.
pub proof fn lemma_block_outcome_wf(outlines: Seq<Outline>)
    requires
        block_outcome(outlines) is Ok,
    ensures
        block_outcome(outlines)->Ok_0.wf(),
{
    lemma_state_after(outlines, outlines.len() as int);
}

/// In a block that tessellates, the range of each glyph counts three indices for each event
/// of the glyph's outline but the moves, and three overlay vertices for each quadratic
/// curve: whole triangles, at least one where the outline has a segment or a close.
pub proof fn lemma_block_glyph_counts(outlines: Seq<Outline>, k: int)
    requires
        block_outcome(outlines) is Ok,
        0 <= k < outlines.len(),
    ensures
        ({
            let glyph = block_outcome(outlines)->Ok_0.glyphs[k].1;
            &&& block_outcome(outlines)->Ok_0.glyphs.len() == outlines.len()
            &&& block_outcome(outlines)->Ok_0.glyphs[k].0 == outlines[k].glyph_id
            &&& glyph.index_count == 3 * triangle_count(outlines[k].events)
            &&& glyph.qvertex_count == 3 * overlay_count(outlines[k].events)
            &&& glyph.index_count % 3 == 0
            &&& triangle_count(outlines[k].events) >= 1 ==> glyph.index_count >= 3
        }),
{
    lemma_first_error_none(outlines, outlines.len() as int, k);
    lemma_first_error_none(outlines, outlines.len() as int, k + 1);
    lemma_state_after(outlines, k);
    lemma_state_after(outlines, k + 1);
    assert(range_of(outlines, k) is Ok);
    lemma_glyph_counts(state_after(outlines, k), outlines[k].events);
}

/// Where none of the first outlines has failed, none of fewer first outlines has.
pub proof fn lemma_first_error_none(outlines: Seq<Outline>, n: int, m: int)
    requires
        0 <= m <= n,
        first_error(outlines, n) is None,
    ensures
        first_error(outlines, m) is None,
    decreases n - m,
{
    if m < n {
        lemma_first_error_none(outlines, n - 1, m);
    }
}

/// Tessellates the outlines of a block, glyph after glyph, into one set of lists.
pub fn tessellate_block(outlines: &Vec<GlyphOutline>) -> (r: Result<BlockRaster, TessellateError>)
    ensures
        match r {
            Ok(raster) => block_outcome(outline_views(outlines@)) == Ok::<
                BlockRasterView,
                TessellateError,
            >(raster@) && raster@.wf(),
            Err(e) => block_outcome(outline_views(outlines@)) == Err::<
                BlockRasterView,
                TessellateError,
            >(e),
        },
{
    let ghost views = outline_views(outlines@);
    let mut builder = TriangleBuilder::new();
    let mut glyphs: Vec<(u32, TessellatedGlyph)> = Vec::new();
    let mut k: usize = 0;
    while k < outlines.len()
        invariant
            k <= outlines.len(),
            views == outline_views(outlines@),
            builder@.wf(),
            builder@ == state_after(views, k as int),
            first_error(views, k as int) is None,
            glyphs.len() == k,
            forall|j: int|
                0 <= j < k ==> #[trigger] glyphs[j] == (
                    views[j].glyph_id,
                    range_of(views, j)->Ok_0,
                ),
        decreases outlines.len() - k,
    {
        assert(views[k as int] == outlines[k as int]@);
        match builder.add_glyph(&outlines[k].events) {
            Err(e) => {
                proof {
                    lemma_first_error_stays(views, k + 1, outlines.len() as int);
                }
                return Err(e);
            },
            Ok(glyph) => {
                glyphs.push((outlines[k].glyph_id, glyph));
            },
        }
        k += 1;
    }
    let (verts, indices, qverts) = builder.into_lists();
    let info = BlockInfo { verts, indices, qverts };
    let raster = BlockRaster { info, glyphs };
    proof {
        assert(raster@.glyphs =~= block_outcome(views)->Ok_0.glyphs);
        lemma_block_outcome_wf(views);
    }
    Ok(raster)
}

/// Once an outline has failed, that failure stays the first.
pub proof fn lemma_first_error_stays(outlines: Seq<Outline>, n: int, m: int)
    requires
        0 <= n <= m,
        first_error(outlines, n) is Some,
    ensures
        first_error(outlines, m) == first_error(outlines, n),
    decreases m - n,
{
    if n < m {
        lemma_first_error_stays(outlines, n, m - 1);
    }
}

} // verus!
