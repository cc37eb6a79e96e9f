use vstd::prelude::*;
use std::collections::HashMap;
use crate::glyph::TessellatedGlyph;

verus! {

broadcast use vstd::std_specs::hash::group_hash_axioms;

/// One glyph of a shaped run: which glyph to draw and how the pen moves.
#[derive(Clone, Copy, Debug, PartialEq, Eq, Structural)]
pub struct ShapedGlyph {
    pub glyph_id: u32,
    pub x_advance: i32,
    pub y_advance: i32,
    pub x_offset: i32,
    pub y_offset: i32,
}

/// An indexed draw of one glyph's winding triangles.
#[derive(Clone, Copy, Debug, PartialEq, Eq, Structural)]
pub struct IndexedDrawCommand {
    pub index_count: u32,
    pub instance_count: u32,
    pub first_index: u32,
    pub vertex_offset: u32,
    pub first_instance: u32,
}

/// A plain draw of one glyph's overlay triangles.
#[derive(Clone, Copy, Debug, PartialEq, Eq, Structural)]
pub struct IndirectDrawCommand {
    pub vertex_count: u32,
    pub instance_count: u32,
    pub first_vertex: u32,
    pub first_instance: u32,
}

/// Where one glyph of a run is placed, in font units.
#[derive(Clone, Copy, Debug, PartialEq, Eq, Structural)]
pub struct ChInstance {
    pub x: i64,
    pub y: i64,
}

/// Why a run could not be turned into draw descriptors.
#[derive(Clone, Copy, Debug, PartialEq, Eq, Structural)]
pub enum DrawError {
    /// The text is longer than the shaper can take.
    TextTooLong,
    /// The run has more glyphs than an instance index can count.
    RunTooLong,
    /// A glyph of the run has no entry in the glyph index.
    GlyphNotLoaded,
    /// A glyph of the run moves the pen up or down: text is set along a horizontal line only.
    VerticalLayout,
}

/// Everything one draw call of one string needs, one entry per glyph of the run.
#[derive(Debug, PartialEq, Eq)]
pub struct DrawDescriptorSet {
    pub cmds: Vec<IndexedDrawCommand>,
    pub qcmds: Vec<IndirectDrawCommand>,
    pub instances: Vec<ChInstance>,
}

/// The descriptors of a draw call as plain sequences.
pub struct DrawDescriptors {
    pub cmds: Seq<IndexedDrawCommand>,
    pub qcmds: Seq<IndirectDrawCommand>,
    pub instances: Seq<ChInstance>,
}

impl View for DrawDescriptorSet {
    type V = DrawDescriptors;

    open spec fn view(&self) -> DrawDescriptors {
        DrawDescriptors { cmds: self.cmds@, qcmds: self.qcmds@, instances: self.instances@ }
    }
}

/// The largest number of glyphs a run may have: each glyph needs an instance index of its own.
pub open spec fn max_run_len() -> int {
    u32::MAX as int
}

/// The pen's horizontal position before glyph `k`: the sum of the advances of the glyphs before it.
pub open spec fn pen_x(run: Seq<ShapedGlyph>, k: int) -> int
    decreases k,
{
    if k <= 0 {
        0
    } else {
        pen_x(run, k - 1) + run[k - 1].x_advance
    }
}

/// Where glyph `k` is placed: the pen before it, moved by the glyph's own offset. The pen
/// stays on the baseline, so the glyph's height is its own offset.
pub open spec fn instance_at(run: Seq<ShapedGlyph>, k: int) -> ChInstance {
    ChInstance { x: (pen_x(run, k) + run[k].x_offset) as i64, y: run[k].y_offset as i64 }
}

/// The indexed draw of glyph `k` of a run, given the glyph's range.
pub open spec fn indexed_command(glyph: TessellatedGlyph, k: int) -> IndexedDrawCommand {
    IndexedDrawCommand {
        index_count: glyph.index_count,
        instance_count: 1,
        first_index: glyph.first_index,
        vertex_offset: glyph.vertex_offset,
        first_instance: k as u32,
    }
}

/// The overlay draw of glyph `k` of a run, given the glyph's range.
pub open spec fn indirect_command(glyph: TessellatedGlyph, k: int) -> IndirectDrawCommand {
    IndirectDrawCommand {
        vertex_count: glyph.qvertex_count,
        instance_count: 1,
        first_vertex: glyph.qvertex_offset,
        first_instance: k as u32,
    }
}

/// Every glyph of the run has an entry in the index.
pub open spec fn all_loaded(index: Map<u32, TessellatedGlyph>, run: Seq<ShapedGlyph>) -> bool {
    forall|k: int| 0 <= k < run.len() ==> index.contains_key(#[trigger] run[k].glyph_id)
}

/// No glyph of the run moves the pen up or down.
pub open spec fn all_horizontal(run: Seq<ShapedGlyph>) -> bool {
    forall|k: int| 0 <= k < run.len() ==> (#[trigger] run[k]).y_advance == 0
}

/// The descriptors that a run yields against a glyph index.
pub open spec fn descriptors(index: Map<u32, TessellatedGlyph>, run: Seq<ShapedGlyph>)
    -> DrawDescriptors {
    DrawDescriptors {
        cmds: Seq::new(run.len(), |k: int| indexed_command(index[run[k].glyph_id], k)),
        qcmds: Seq::new(run.len(), |k: int| indirect_command(index[run[k].glyph_id], k)),
        instances: Seq::new(run.len(), |k: int| instance_at(run, k)),
    }
}

/// What drawing a run yields: the first of the three failures that applies, else the
/// descriptors.
pub open spec fn draw_outcome(index: Map<u32, TessellatedGlyph>, run: Seq<ShapedGlyph>)
    -> Result<DrawDescriptors, DrawError> {
    if run.len() > max_run_len() {
        Err(DrawError::RunTooLong)
    } else if !all_loaded(index, run) {
        Err(DrawError::GlyphNotLoaded)
    } else if !all_horizontal(run) {
        Err(DrawError::VerticalLayout)
    } else {
        Ok(descriptors(index, run))
    }
}

/// The pen stays within what each advance can add to it.
pub proof fn lemma_pen_bounds(run: Seq<ShapedGlyph>, k: int)
    requires
        0 <= k <= run.len(),
    ensures
        -(k * 0x8000_0000) <= pen_x(run, k) <= k * 0x7fff_ffff,
    decreases k,
{
    if k > 0 {
        lemma_pen_bounds(run, k - 1);
    }
}

/// A draw that succeeds gives each glyph of the run the range that the index holds for it,
/// one instance, and the glyph's position in the run as its instance index.
pub proof fn lemma_commands_match_index(
    index: Map<u32, TessellatedGlyph>,
    run: Seq<ShapedGlyph>,
    k: int,
)
    requires
        draw_outcome(index, run) is Ok,
        0 <= k < run.len(),
    ensures
        ({
            let d = draw_outcome(index, run)->Ok_0;
            let glyph = index[run[k].glyph_id];
            &&& index.contains_key(run[k].glyph_id)
            &&& d.cmds.len() == run.len()
            &&& d.qcmds.len() == run.len()
            &&& d.instances.len() == run.len()
            &&& d.cmds[k].index_count == glyph.index_count
            &&& d.cmds[k].first_index == glyph.first_index
            &&& d.cmds[k].vertex_offset == glyph.vertex_offset
            &&& d.cmds[k].instance_count == 1
            &&& d.cmds[k].first_instance == k
            &&& d.qcmds[k].vertex_count == glyph.qvertex_count
            &&& d.qcmds[k].first_vertex == glyph.qvertex_offset
            &&& d.qcmds[k].instance_count == 1
            &&& d.qcmds[k].first_instance == k
        }),
{
    assert(index.contains_key(run[k].glyph_id));
}

/// A run with a glyph that the index does not hold is not drawn: the draw fails, and it
/// fails for that reason.
pub proof fn lemma_unloaded_glyph_fails(
    index: Map<u32, TessellatedGlyph>,
    run: Seq<ShapedGlyph>,
    k: int,
)
    requires
        run.len() <= max_run_len(),
        0 <= k < run.len(),
        !index.contains_key(run[k].glyph_id),
    ensures
        draw_outcome(index, run) == Err::<DrawDescriptors, DrawError>(DrawError::GlyphNotLoaded),
{
}

/// In a draw that succeeds no glyph has a vertical advance, each glyph sits at the height of
/// its own offset, the first glyph sits at its own offset, and each later glyph sits where
/// the glyph before it sat, moved by that glyph's advance and by the difference of the two
/// offsets: a glyph's own advance moves only the glyphs after it.
pub proof fn lemma_pen_accumulates(index: Map<u32, TessellatedGlyph>, run: Seq<ShapedGlyph>, k: int)
    requires
        draw_outcome(index, run) is Ok,
        0 <= k < run.len(),
    ensures
        ({
            let d = draw_outcome(index, run)->Ok_0;
            &&& run[k].y_advance == 0
            &&& d.instances[k].y == run[k].y_offset
            &&& d.instances[k].x == pen_x(run, k) + run[k].x_offset
            &&& k == 0 ==> d.instances[k].x == run[k].x_offset
            &&& k > 0 ==> d.instances[k].x - run[k].x_offset == d.instances[k - 1].x - run[k
                - 1].x_offset + run[k - 1].x_advance
        }),
{
    lemma_pen_bounds(run, k);
    if k > 0 {
        lemma_pen_bounds(run, k - 1);
        assert(pen_x(run, k) == pen_x(run, k - 1) + run[k - 1].x_advance);
    } else {
        assert(pen_x(run, 0) == 0);
    }
}

/// Builds the two draw commands of every glyph of a run: the glyph's range from the index,
/// one instance, and the glyph's position in the run as its instance index.
pub fn build_commands(index: &HashMap<u32, TessellatedGlyph>, run: &Vec<ShapedGlyph>) -> (r: Option<
    (Vec<IndexedDrawCommand>, Vec<IndirectDrawCommand>),
>)
    requires
        run.len() <= max_run_len(),
    ensures
        r is Some <==> all_loaded(index@, run@),
        r matches Some((cmds, qcmds)) ==> cmds@ == descriptors(index@, run@).cmds && qcmds@
            == descriptors(index@, run@).qcmds,
{
    let mut cmds: Vec<IndexedDrawCommand> = Vec::new();
    let mut qcmds: Vec<IndirectDrawCommand> = Vec::new();
    let mut k: usize = 0;
    while k < run.len()
        invariant
            k <= run.len() <= max_run_len(),
            cmds.len() == k,
            qcmds.len() == k,
            forall|j: int| 0 <= j < k ==> index@.contains_key(#[trigger] run[j].glyph_id),
            forall|j: int|
                0 <= j < k ==> #[trigger] cmds[j] == indexed_command(
                    index@[run[j].glyph_id],
                    j,
                ),
            forall|j: int|
                0 <= j < k ==> #[trigger] qcmds[j] == indirect_command(
                    index@[run[j].glyph_id],
                    j,
                ),
        decreases run.len() - k,
    {
        let glyph_id = run[k].glyph_id;
        match index.get(&glyph_id) {
            None => {
                return None;
            },
            Some(glyph) => {
                cmds.push(
                    IndexedDrawCommand {
                        index_count: glyph.index_count,
                        instance_count: 1,
                        first_index: glyph.first_index,
                        vertex_offset: glyph.vertex_offset,
                        first_instance: k as u32,
                    },
                );
                qcmds.push(
                    IndirectDrawCommand {
                        vertex_count: glyph.qvertex_count,
                        instance_count: 1,
                        first_vertex: glyph.qvertex_offset,
                        first_instance: k as u32,
                    },
                );
            },
        }
        k += 1;
    }
    assert(cmds@ =~= descriptors(index@, run@).cmds);
    assert(qcmds@ =~= descriptors(index@, run@).qcmds);
    Some((cmds, qcmds))
}

/// Places every glyph of a run: the pen starts at the origin, each glyph sits at the pen moved
/// by the glyph's offset, and the pen then moves on by the glyph's advance. A glyph that
/// would move the pen up or down is refused.
pub fn build_instances(run: &Vec<ShapedGlyph>) -> (r: Option<Vec<ChInstance>>)
    requires
        run.len() <= max_run_len(),
    ensures
        r is Some <==> all_horizontal(run@),
        r matches Some(instances) ==> instances@ == descriptors(Map::empty(), run@).instances,
{
    let mut instances: Vec<ChInstance> = Vec::new();
    let mut pen_x_now: i64 = 0;
    let mut k: usize = 0;
    while k < run.len()
        invariant
            k <= run.len() <= max_run_len(),
            instances.len() == k,
            pen_x_now == pen_x(run@, k as int),
            forall|j: int| 0 <= j < k ==> (#[trigger] run[j]).y_advance == 0,
            forall|j: int| 0 <= j < k ==> #[trigger] instances[j] == instance_at(run@, j),
        decreases run.len() - k,
    {
        let glyph = run[k];
        proof {
            lemma_pen_bounds(run@, k as int);
            lemma_pen_bounds(run@, k + 1);
        }
        if glyph.y_advance != 0 {
            return None;
        }
        let x: i64 = pen_x_now + glyph.x_offset as i64;
        let y: i64 = glyph.y_offset as i64;
        instances.push(ChInstance { x, y });
        pen_x_now = pen_x_now + glyph.x_advance as i64;
        k += 1;
    }
    assert(instances@ =~= descriptors(Map::empty(), run@).instances);
    Some(instances)
}

/// Turns a shaped run into draw descriptors against a glyph index.
pub fn build_descriptors(index: &HashMap<u32, TessellatedGlyph>, run: &Vec<ShapedGlyph>) -> (r:
    Result<DrawDescriptorSet, DrawError>)
    ensures
        match r {
            Ok(set) => draw_outcome(index@, run@) == Ok::<DrawDescriptors, DrawError>(set@),
            Err(e) => draw_outcome(index@, run@) == Err::<DrawDescriptors, DrawError>(e),
        },
{
    if run.len() > u32::MAX as usize {
        return Err(DrawError::RunTooLong);
    }
    let (cmds, qcmds) = match build_commands(index, run) {
        Some(pair) => pair,
        None => {
            return Err(DrawError::GlyphNotLoaded);
        },
    };
    let instances = match build_instances(run) {
        Some(instances) => instances,
        None => {
            return Err(DrawError::VerticalLayout);
        },
    };
    Ok(DrawDescriptorSet { cmds, qcmds, instances })
}

} // verus!
