use vstd::prelude::*;
use vstd::hash_map::StringHashMap;
use vstd::string::StringSliceAdditionalSpecFns;
use std::collections::HashMap;
use crate::block::{glyph_in_geometry, BlockGeometry, BlockInfo, BlockRaster, BlockRasterView};
use vstd::set_lib::lemma_len_subset;
use crate::contour::lemma_contour_has_triangle;
use crate::draw::{
    all_loaded, build_descriptors, draw_outcome, lemma_commands_match_index,
    lemma_unloaded_glyph_fails, max_run_len, DrawDescriptorSet, DrawDescriptors, DrawError,
    IndexedDrawCommand, IndirectDrawCommand, ShapedGlyph,
};
use crate::outline::GlyphOutlineEvent;
use crate::tessellate::{
    glyph_outcome, lemma_glyph_counts, overlay_count, triangle_count, BuilderState,
};
use crate::glyph::TessellatedGlyph;
use crate::rasterizer::{
    lemma_block_raster_counts, lemma_block_raster_covers, lemma_block_raster_wf, outline_outcome,
    FontTables, LoadError, Rasterizer,
};
use crate::unicode::unicode_block_range;
use crate::shaping::{max_text_len, shape_text};

verus! {

broadcast use vstd::std_specs::hash::group_hash_axioms;

/// One entry of the glyph index: the range of a glyph, and the name of the block in whose
/// lists the range lies.
pub struct GlyphEntry {
    pub block: Seq<char>,
    pub glyph: TessellatedGlyph,
}

/// A glyph index after the first `n` of a block's ranges were offered to it, each under its
/// glyph's id. A glyph that the index holds already keeps the entry it has: a range, once
/// given, stays.
pub open spec fn index_with(
    glyphs: Map<u32, GlyphEntry>,
    block: Seq<char>,
    entries: Seq<(u32, TessellatedGlyph)>,
    n: int,
) -> Map<u32, GlyphEntry>
    decreases n,
{
    if n <= 0 {
        glyphs
    } else {
        let before = index_with(glyphs, block, entries, n - 1);
        if before.contains_key(entries[n - 1].0) {
            before
        } else {
            before.insert(entries[n - 1].0, GlyphEntry { block, glyph: entries[n - 1].1 })
        }
    }
}

/// What a font holds: the lists of each block that was loaded, by the block's name, and the
/// range of each glyph that was loaded, by the glyph's id, with the block that it lies in.
pub struct FontView {
    pub blocks: Map<Seq<char>, BlockGeometry>,
    pub glyphs: Map<u32, GlyphEntry>,
}

impl FontView {
    /// A font into which nothing was loaded.
    pub open spec fn empty() -> FontView {
        FontView { blocks: Map::empty(), glyphs: Map::empty() }
    }

    /// The range of each glyph of the index, without the blocks.
    pub open spec fn ranges(self) -> Map<u32, TessellatedGlyph> {
        Map::new(|id: u32| self.glyphs.contains_key(id), |id: u32| self.glyphs[id].glyph)
    }

    /// An entry names a block that is there, and its range lies inside the lists of that
    /// block.
    pub open spec fn holds(self, entry: GlyphEntry) -> bool {
        self.blocks.contains_key(entry.block) && glyph_in_geometry(
            entry.glyph,
            self.blocks[entry.block],
        )
    }

    /// Every range of the index lies inside the lists of its own block.
    pub open spec fn wf(self) -> bool {
        forall|id: u32| #[trigger] self.glyphs.contains_key(id) ==> self.holds(self.glyphs[id])
    }

    /// The font after a block was loaded under a name: as before where a block of that name
    /// is there already, else with the block's lists under the name and the block's ranges
    /// offered to the index.
    pub open spec fn with_block(self, name: Seq<char>, raster: BlockRasterView) -> FontView {
        if self.blocks.contains_key(name) {
            self
        } else {
            FontView {
                blocks: self.blocks.insert(name, raster.geometry),
                glyphs: index_with(self.glyphs, name, raster.glyphs, raster.glyphs.len() as int),
            }
        }
    }
}

/// What making sure of a block yields, and the font afterwards: a block that is there is
/// left alone; any other is tessellated from the font's tables and taken in, unless that
/// fails, which leaves the font as it was.
pub open spec fn load_outcome(v: FontView, tables: FontTables, name: Seq<char>) -> (
    Result<bool, LoadError>,
    FontView,
) {
    if v.blocks.contains_key(name) {
        (Ok(false), v)
    } else {
        match tables.block_raster(name) {
            Err(e) => (Err(e), v),
            Ok(raster) => (Ok(true), v.with_block(name, raster)),
        }
    }
}

/// The result of a draw call, with the descriptors as plain sequences.
pub open spec fn outcome_view(r: Result<DrawDescriptorSet, DrawError>) -> Result<
    DrawDescriptors,
    DrawError,
> {
    match r {
        Ok(set) => Ok(set@),
        Err(e) => Err(e),
    }
}

/// Offering ranges to an index changes no entry that the index held. Every entry that it
/// holds afterwards was there before, or lies in the block that was offered and has one of
/// the ranges offered; and every glyph that was offered has an entry afterwards.
pub proof fn lemma_index_with(
    glyphs: Map<u32, GlyphEntry>,
    block: Seq<char>,
    entries: Seq<(u32, TessellatedGlyph)>,
    n: int,
    id: u32,
)
    requires
        0 <= n <= entries.len(),
    ensures
        glyphs.contains_key(id) ==> index_with(glyphs, block, entries, n).contains_key(id)
            && index_with(glyphs, block, entries, n)[id] == glyphs[id],
        index_with(glyphs, block, entries, n).contains_key(id) <==> glyphs.contains_key(id)
            || exists|k: int| 0 <= k < n && (#[trigger] entries[k]).0 == id,
        index_with(glyphs, block, entries, n).contains_key(id) && !glyphs.contains_key(id) ==> {
            &&& index_with(glyphs, block, entries, n)[id].block == block
            &&& exists|k: int|
                0 <= k < n && #[trigger] entries[k] == (
                    id,
                    index_with(glyphs, block, entries, n)[id].glyph,
                )
        },
    decreases n,
{
    if n > 0 {
        lemma_index_with(glyphs, block, entries, n - 1, id);
        let before = index_with(glyphs, block, entries, n - 1);
        let after = index_with(glyphs, block, entries, n);
        if after.contains_key(id) && !glyphs.contains_key(id) {
            if before.contains_key(id) {
                let k = choose|k: int|
                    0 <= k < n - 1 && #[trigger] entries[k] == (id, before[id].glyph);
                assert(entries[k] == (id, after[id].glyph));
            } else {
                assert(entries[n - 1] == (id, after[id].glyph));
            }
        }
        if entries[n - 1].0 == id {
            assert(after.contains_key(id));
        }
    }
}

/// Loading a block into a well-formed font leaves it well formed.
pub proof fn lemma_with_block_wf(v: FontView, name: Seq<char>, raster: BlockRasterView)
    requires
        v.wf(),
        raster.wf(),
    ensures
        v.with_block(name, raster).wf(),
{
    let w = v.with_block(name, raster);
    if !v.blocks.contains_key(name) {
        assert forall|id: u32| #[trigger] w.glyphs.contains_key(id) implies w.holds(
            w.glyphs[id],
        ) by {
            lemma_index_with(v.glyphs, name, raster.glyphs, raster.glyphs.len() as int, id);
            if v.glyphs.contains_key(id) {
                assert(v.holds(v.glyphs[id]));
                assert(w.blocks.contains_key(v.glyphs[id].block));
            } else {
                let k = choose|k: int|
                    0 <= k < raster.glyphs.len() && #[trigger] raster.glyphs[k] == (
                        id,
                        w.glyphs[id].glyph,
                    );
                assert(glyph_in_geometry(raster.glyphs[k].1, raster.geometry));
                assert(w.blocks.contains_key(name));
            }
        }
    }
}

/// Making sure of a block twice is making sure of it once: after a load that went well, a
/// second one finds the block, whatever font it is given, and changes nothing. Every glyph
/// keeps the range that the first load gave it.
pub proof fn lemma_load_twice(v: FontView, first: FontTables, second: FontTables, name: Seq<char>)
    requires
        load_outcome(v, first, name).0 is Ok,
    ensures
        load_outcome(v, first, name).1.blocks.contains_key(name),
        load_outcome(load_outcome(v, first, name).1, second, name) == (
            Ok::<bool, LoadError>(false),
            load_outcome(v, first, name).1,
        ),
{
}

/// Making sure of a block leaves the lists of every other block as they were, and takes no
/// block away, whether it goes well or not.
pub proof fn lemma_load_keeps_blocks(
    v: FontView,
    tables: FontTables,
    name: Seq<char>,
    other: Seq<char>,
)
    requires
        v.blocks.contains_key(other),
    ensures
        load_outcome(v, tables, name).1.blocks.contains_key(other),
        load_outcome(v, tables, name).1.blocks[other] == v.blocks[other],
{
}

/// Making sure of a block changes no range that the index held: every glyph keeps its range
/// and the block that the range lies in, whatever the new block holds under the same id.
pub proof fn lemma_load_keeps_glyphs(v: FontView, tables: FontTables, name: Seq<char>, id: u32)
    requires
        v.glyphs.contains_key(id),
    ensures
        load_outcome(v, tables, name).1.glyphs.contains_key(id),
        load_outcome(v, tables, name).1.glyphs[id] == v.glyphs[id],
{
    if !v.blocks.contains_key(name) {
        if let Ok(raster) = tables.block_raster(name) {
            lemma_index_with(v.glyphs, name, raster.glyphs, raster.glyphs.len() as int, id);
        }
    }
}

/// After a block was loaded, every character of the block that the font has a glyph for
/// has that glyph in the index.
pub proof fn lemma_load_covers_block(v: FontView, tables: FontTables, name: Seq<char>, c: char)
    requires
        load_outcome(v, tables, name).0 == Ok::<bool, LoadError>(true),
        unicode_block_range(name) is Some,
        unicode_block_range(name)->Some_0.0 <= c <= unicode_block_range(name)->Some_0.1,
        tables.glyphs.contains_key(c),
    ensures
        load_outcome(v, tables, name).1.glyphs.contains_key(tables.glyphs[c]),
{
    let raster = tables.block_raster(name)->Ok_0;
    lemma_block_raster_covers(tables, name, c);
    lemma_index_with(v.glyphs, name, raster.glyphs, raster.glyphs.len() as int, tables.glyphs[c]);
}

/// A glyph that a load brought into the index lies in the block that was loaded, inside that
/// block's lists, and its range counts the triangles of the font's outline of the glyph:
/// three indices for each event but the moves, three overlay vertices for each quadratic
/// curve. A glyph without outline has an entry that counts nothing.
pub proof fn lemma_loaded_glyph(v: FontView, tables: FontTables, name: Seq<char>, glyph_id: u32)
    requires
        v.wf(),
        load_outcome(v, tables, name).0 == Ok::<bool, LoadError>(true),
        !v.glyphs.contains_key(glyph_id),
        load_outcome(v, tables, name).1.glyphs.contains_key(glyph_id),
    ensures
        ({
            let after = load_outcome(v, tables, name).1;
            let entry = after.glyphs[glyph_id];
            let outline = outline_outcome(glyph_id, tables.contours_of(glyph_id));
            &&& entry.block == name
            &&& after.blocks.contains_key(name)
            &&& after.blocks[name] == tables.block_raster(name)->Ok_0.geometry
            &&& glyph_in_geometry(entry.glyph, after.blocks[name])
            &&& outline is Ok
            &&& entry.glyph.index_count == 3 * triangle_count(outline->Ok_0.events)
            &&& entry.glyph.qvertex_count == 3 * overlay_count(outline->Ok_0.events)
            &&& outline->Ok_0.events.len() == 0 ==> entry.glyph.index_count == 0
                && entry.glyph.qvertex_count == 0
        }),
{
    let raster = tables.block_raster(name)->Ok_0;
    let after = load_outcome(v, tables, name).1;
    lemma_index_with(v.glyphs, name, raster.glyphs, raster.glyphs.len() as int, glyph_id);
    let k = choose|k: int|
        0 <= k < raster.glyphs.len() && #[trigger] raster.glyphs[k] == (
            glyph_id,
            after.glyphs[glyph_id].glyph,
        );
    lemma_block_raster_counts(tables, name, k);
    lemma_load_wf(v, tables, name);
}

/// A glyph that a load brought into the index and whose outline in the font has a contour
/// with a point has at least one triangle: its range counts three indices or more.
pub proof fn lemma_loaded_glyph_with_contour(
    v: FontView,
    tables: FontTables,
    name: Seq<char>,
    glyph_id: u32,
    j: int,
)
    requires
        v.wf(),
        load_outcome(v, tables, name).0 == Ok::<bool, LoadError>(true),
        !v.glyphs.contains_key(glyph_id),
        load_outcome(v, tables, name).1.glyphs.contains_key(glyph_id),
        tables.contours.contains_key(glyph_id),
        0 <= j < tables.contours[glyph_id].len(),
        tables.contours[glyph_id][j].len() >= 1,
    ensures
        load_outcome(v, tables, name).1.glyphs[glyph_id].glyph.index_count >= 3,
        load_outcome(v, tables, name).1.glyphs[glyph_id].glyph.index_count % 3 == 0,
{
    lemma_loaded_glyph(v, tables, name, glyph_id);
    let contours = tables.contours[glyph_id];
    lemma_contour_has_triangle(contours, contours.len() as int, j);
}

/// Offering ranges to an index with finitely many entries leaves it with finitely many.
pub proof fn lemma_index_with_finite(
    glyphs: Map<u32, GlyphEntry>,
    block: Seq<char>,
    entries: Seq<(u32, TessellatedGlyph)>,
    n: int,
)
    requires
        glyphs.dom().finite(),
    ensures
        index_with(glyphs, block, entries, n).dom().finite(),
    decreases n,
{
    if n > 0 {
        lemma_index_with_finite(glyphs, block, entries, n - 1);
    }
}

/// After a block was loaded, the index has at least as many entries as there are characters
/// of the block, among any given ones, whose glyphs in the font differ from each other.
pub proof fn lemma_load_counts(
    v: FontView,
    tables: FontTables,
    name: Seq<char>,
    letters: Seq<char>,
)
    requires
        v.glyphs.dom().finite(),
        load_outcome(v, tables, name).0 == Ok::<bool, LoadError>(true),
        unicode_block_range(name) is Some,
        forall|i: int|
            0 <= i < letters.len() ==> unicode_block_range(name)->Some_0.0 <= #[trigger] letters[i]
                <= unicode_block_range(name)->Some_0.1 && tables.glyphs.contains_key(letters[i]),
        forall|i: int, j: int|
            0 <= i < j < letters.len() ==> tables.glyphs[letters[i]] != tables.glyphs[letters[j]],
    ensures
        load_outcome(v, tables, name).1.glyphs.dom().finite(),
        load_outcome(v, tables, name).1.glyphs.dom().len() >= letters.len(),
{
    let after = load_outcome(v, tables, name).1;
    let raster = tables.block_raster(name)->Ok_0;
    let ids = Seq::new(letters.len(), |i: int| tables.glyphs[letters[i]]);
    lemma_index_with_finite(v.glyphs, name, raster.glyphs, raster.glyphs.len() as int);
    assert(ids.no_duplicates());
    ids.unique_seq_to_set();
    assert forall|id: u32| ids.to_set().contains(id) implies after.glyphs.dom().contains(id) by {
        let i = choose|i: int| 0 <= i < ids.len() && ids[i] == id;
        lemma_load_covers_block(v, tables, name, letters[i]);
    }
    lemma_len_subset(ids.to_set(), after.glyphs.dom());
}

/// The lists that a load files under a name are those of the block tessellated alone from
/// the font's tables, whatever the font held before; every range of that block lies inside
/// those lists, and none in the lists of another block.
pub proof fn lemma_loaded_block_is_its_own(v: FontView, tables: FontTables, name: Seq<char>)
    requires
        load_outcome(v, tables, name).0 == Ok::<bool, LoadError>(true),
    ensures
        tables.block_raster(name) is Ok,
        tables.block_raster(name)->Ok_0.wf(),
        load_outcome(v, tables, name).1.blocks.contains_key(name),
        load_outcome(v, tables, name).1.blocks[name] == tables.block_raster(name)->Ok_0.geometry,
{
    lemma_block_raster_wf(tables, name);
}

/// The blocks that a font holds after two blocks were made sure of do not depend on which of
/// the two came first: each block's lists are its own.
pub proof fn lemma_loads_commute_on_blocks(
    v: FontView,
    tables: FontTables,
    one: Seq<char>,
    other: Seq<char>,
)
    ensures
        load_outcome(load_outcome(v, tables, one).1, tables, other).1.blocks == load_outcome(
            load_outcome(v, tables, other).1,
            tables,
            one,
        ).1.blocks,
{
    let a = load_outcome(load_outcome(v, tables, one).1, tables, other).1.blocks;
    let b = load_outcome(load_outcome(v, tables, other).1, tables, one).1.blocks;
    assert(a =~= b);
}

/// Making sure of a block keeps a well-formed font well formed.
pub proof fn lemma_load_wf(v: FontView, tables: FontTables, name: Seq<char>)
    requires
        v.wf(),
    ensures
        load_outcome(v, tables, name).1.wf(),
{
    if !v.blocks.contains_key(name) {
        if let Ok(raster) = tables.block_raster(name) {
            lemma_block_raster_wf(tables, name);
            lemma_with_block_wf(v, name, raster);
        }
    }
}

/// The range that a pair of draw commands names.
pub open spec fn range_of_commands(cmd: IndexedDrawCommand, qcmd: IndirectDrawCommand)
    -> TessellatedGlyph {
    TessellatedGlyph {
        index_count: cmd.index_count,
        first_index: cmd.first_index,
        vertex_offset: cmd.vertex_offset,
        qvertex_count: qcmd.vertex_count,
        qvertex_offset: qcmd.first_vertex,
    }
}

/// Whatever a well-formed font draws lies inside the lists of the block that the glyph
/// belongs to: no command reaches past the indices or the vertices that are there.
pub proof fn lemma_draw_within_blocks(v: FontView, run: Seq<ShapedGlyph>, k: int)
    requires
        v.wf(),
        draw_outcome(v.ranges(), run) is Ok,
        0 <= k < run.len(),
    ensures
        v.glyphs.contains_key(run[k].glyph_id),
        v.holds(
            GlyphEntry {
                block: v.glyphs[run[k].glyph_id].block,
                glyph: range_of_commands(
                    draw_outcome(v.ranges(), run)->Ok_0.cmds[k],
                    draw_outcome(v.ranges(), run)->Ok_0.qcmds[k],
                ),
            },
        ),
{
    lemma_commands_match_index(v.ranges(), run, k);
    let d = draw_outcome(v.ranges(), run)->Ok_0;
    assert(v.glyphs.contains_key(run[k].glyph_id));
    assert(range_of_commands(d.cmds[k], d.qcmds[k]) == v.glyphs[run[k].glyph_id].glyph);
}

/// A font draws a run only if it holds every glyph of the run: a run of which it lacks a
/// glyph is refused, and refused for that reason unless the run is too long to be drawn at
/// all.
pub proof fn lemma_draw_needs_every_glyph(v: FontView, run: Seq<ShapedGlyph>, k: int)
    requires
        0 <= k < run.len(),
    ensures
        !v.glyphs.contains_key(run[k].glyph_id) ==> draw_outcome(v.ranges(), run) is Err,
        !v.glyphs.contains_key(run[k].glyph_id) && run.len() <= max_run_len() ==> draw_outcome(
            v.ranges(),
            run,
        ) == Err::<DrawDescriptors, DrawError>(DrawError::GlyphNotLoaded),
        draw_outcome(v.ranges(), run) is Ok ==> v.glyphs.contains_key(run[k].glyph_id),
{
    if !v.glyphs.contains_key(run[k].glyph_id) && run.len() <= max_run_len() {
        lemma_unloaded_glyph_fails(v.ranges(), run, k);
    }
    if draw_outcome(v.ranges(), run) is Ok {
        lemma_commands_match_index(v.ranges(), run, k);
    }
}

/// A font that is in order draws every run of glyphs that it holds, unless the run is too
/// long or moves the pen up or down: a set comes back, with one entry per glyph in each of
/// its three lists, and every command stays inside the lists of its glyph's block.
pub proof fn lemma_draw_succeeds(v: FontView, run: Seq<ShapedGlyph>)
    requires
        v.wf(),
        run.len() <= max_run_len(),
        forall|k: int| 0 <= k < run.len() ==> v.glyphs.contains_key((#[trigger] run[k]).glyph_id),
        forall|k: int| 0 <= k < run.len() ==> (#[trigger] run[k]).y_advance == 0,
    ensures
        draw_outcome(v.ranges(), run) is Ok,
        draw_outcome(v.ranges(), run)->Ok_0.cmds.len() == run.len(),
        draw_outcome(v.ranges(), run)->Ok_0.qcmds.len() == run.len(),
        draw_outcome(v.ranges(), run)->Ok_0.instances.len() == run.len(),
        forall|k: int|
            #![trigger run[k]]
            0 <= k < run.len() ==> v.holds(
                GlyphEntry {
                    block: v.glyphs[run[k].glyph_id].block,
                    glyph: range_of_commands(
                        draw_outcome(v.ranges(), run)->Ok_0.cmds[k],
                        draw_outcome(v.ranges(), run)->Ok_0.qcmds[k],
                    ),
                },
            ),
{
    assert(all_loaded(v.ranges(), run)) by {
        assert forall|k: int| 0 <= k < run.len() implies v.ranges().contains_key(
            #[trigger] run[k].glyph_id,
        ) by {
            assert(v.glyphs.contains_key(run[k].glyph_id));
        }
    }
    assert forall|k: int| #![trigger run[k]] 0 <= k < run.len() implies v.holds(
        GlyphEntry {
            block: v.glyphs[run[k].glyph_id].block,
            glyph: range_of_commands(
                draw_outcome(v.ranges(), run)->Ok_0.cmds[k],
                draw_outcome(v.ranges(), run)->Ok_0.qcmds[k],
            ),
        },
    ) by {
        lemma_draw_within_blocks(v, run, k);
    }
}

/// A glyph without outline is drawn with empty ranges: where the index holds for a glyph of
/// the run what a builder gave for an outline without events, both commands of that glyph
/// count nothing.
pub proof fn lemma_empty_glyph_draws_nothing(
    s: BuilderState,
    index: Map<u32, TessellatedGlyph>,
    run: Seq<ShapedGlyph>,
    k: int,
)
    requires
        s.wf(),
        glyph_outcome(s, Seq::<GlyphOutlineEvent>::empty()) is Ok,
        draw_outcome(index, run) is Ok,
        0 <= k < run.len(),
        index[run[k].glyph_id] == glyph_outcome(s, Seq::<GlyphOutlineEvent>::empty())->Ok_0,
    ensures
        draw_outcome(index, run)->Ok_0.cmds[k].index_count == 0,
        draw_outcome(index, run)->Ok_0.qcmds[k].vertex_count == 0,
{
    lemma_glyph_counts(s, Seq::<GlyphOutlineEvent>::empty());
    lemma_commands_match_index(index, run, k);
}

/// The text engine's state for one font: the blocks that were loaded and the index of
/// their glyphs.
pub struct TextFont {
    font_data: Vec<u8>,
    block_info: StringHashMap<BlockInfo>,
    glyph_info: HashMap<u32, TessellatedGlyph>,
    glyph_block: HashMap<u32, String>,
}

impl View for TextFont {
    type V = FontView;

    closed spec fn view(&self) -> FontView {
        FontView {
            blocks: Map::new(
                |name: Seq<char>| self.block_info@.contains_key(name),
                |name: Seq<char>| self.block_info@[name]@,
            ),
            glyphs: Map::new(
                |id: u32| self.glyph_info@.contains_key(id),
                |id: u32| GlyphEntry { block: self.glyph_block@[id]@, glyph: self.glyph_info@[id] },
            ),
        }
    }
}

impl TextFont {
    /// The bytes of the font file that texts are shaped with.
    pub closed spec fn font_bytes(&self) -> Seq<u8> {
        self.font_data@
    }

    /// The font is in order: every glyph of the index has its range and its block, and
    /// every range lies inside the lists of its own block.
    pub closed spec fn wf(&self) -> bool {
        &&& self.glyph_info@.dom() == self.glyph_block@.dom()
        &&& self@.wf()
    }

    /// A font that is in order has a well-formed view, with finitely many glyphs.
    pub proof fn lemma_wf(&self)
        requires
            self.wf(),
        ensures
            self@.wf(),
            self@.glyphs.dom().finite(),
    {
        assert(self@.glyphs.dom() =~= self.glyph_info@.dom());
    }

    /// A font into which nothing was loaded yet, for the bytes of a font file.
    pub fn new(font_data: Vec<u8>) -> (font: TextFont)
        ensures
            font@ == FontView::empty(),
            font.wf(),
            font.font_bytes() == font_data@,
    {
        let font = TextFont {
            font_data,
            block_info: StringHashMap::new(),
            glyph_info: HashMap::new(),
            glyph_block: HashMap::new(),
        };
        assert(font@.blocks =~= Map::empty());
        assert(font@.glyphs =~= Map::empty());
        assert(font.glyph_info@.dom() =~= font.glyph_block@.dom());
        font
    }

    /// Whether a block of that name was loaded.
    pub fn has_block(&self, name: &str) -> (r: bool)
        ensures
            r == self@.blocks.contains_key(name@),
    {
        self.block_info.contains_key(name)
    }

    /// The lists of the block that was loaded under a name.
    pub fn block(&self, name: &str) -> (r: Option<&BlockInfo>)
        ensures
            r is Some <==> self@.blocks.contains_key(name@),
            r matches Some(info) ==> info@ == self@.blocks[name@],
    {
        self.block_info.get(name)
    }

    /// The range of a glyph in the lists of its block.
    pub fn glyph(&self, glyph_id: u32) -> (r: Option<TessellatedGlyph>)
        ensures
            r is Some <==> self@.glyphs.contains_key(glyph_id),
            r matches Some(glyph) ==> glyph == self@.glyphs[glyph_id].glyph,
    {
        match self.glyph_info.get(&glyph_id) {
            Some(glyph) => Some(*glyph),
            None => None,
        }
    }

    /// The name of the block in whose lists the range of a glyph lies.
    pub fn glyph_block(&self, glyph_id: u32) -> (r: Option<&String>)
        requires
            self.wf(),
        ensures
            r is Some <==> self@.glyphs.contains_key(glyph_id),
            r matches Some(name) ==> name@ == self@.glyphs[glyph_id].block,
    {
        assert(self.glyph_info@.dom().contains(glyph_id) == self.glyph_block@.dom().contains(
            glyph_id,
        ));
        self.glyph_block.get(&glyph_id)
    }

    /// Takes a tessellated block in under a name, unless a block of that name is there.
    /// Says whether the block was taken in. A glyph that the index holds already keeps the
    /// range and the block that it has.
    pub fn insert_block(&mut self, name: &str, raster: BlockRaster) -> (inserted: bool)
        requires
            old(self).wf(),
            raster@.wf(),
        ensures
            inserted == !old(self)@.blocks.contains_key(name@),
            final(self)@ == old(self)@.with_block(name@, raster@),
            final(self).wf(),
            final(self)@.wf(),
            final(self).font_bytes() == old(self).font_bytes(),
    {
        if self.block_info.contains_key(name) {
            return false;
        }
        let ghost before = self@;
        let ghost view = raster@;
        let (info, glyphs) = raster.into_parts();
        self.block_info.insert(name.to_owned(), info);
        assert(self@.blocks =~= before.blocks.insert(name@, view.geometry));
        assert(self@.glyphs =~= before.glyphs);
        let mut k: usize = 0;
        while k < glyphs.len()
            invariant
                k <= glyphs.len(),
                glyphs@ == view.glyphs,
                self.glyph_info@.dom() == self.glyph_block@.dom(),
                self@.blocks == before.blocks.insert(name@, view.geometry),
                self@.glyphs == index_with(before.glyphs, name@, view.glyphs, k as int),
                self.font_bytes() == old(self).font_bytes(),
            decreases glyphs.len() - k,
        {
            let ghost index = self@.glyphs;
            let (glyph_id, glyph) = glyphs[k];
            if !self.glyph_info.contains_key(&glyph_id) {
                self.glyph_info.insert(glyph_id, glyph);
                self.glyph_block.insert(glyph_id, name.to_owned());
                assert(self.glyph_info@.dom() =~= self.glyph_block@.dom());
                assert(self@.glyphs =~= index.insert(
                    glyph_id,
                    GlyphEntry { block: name@, glyph },
                ));
            }
            k += 1;
        }
        proof {
            lemma_with_block_wf(before, name@, view);
        }
        true
    }

    /// Makes sure that a named Unicode block is loaded: a block that is there is left alone,
    /// any other is tessellated by the rasterizer and taken in. Says whether the block was
    /// loaded by this call.
    pub fn load_block(&mut self, rasterizer: &Rasterizer, name: &str) -> (r: Result<
        bool,
        LoadError,
    >)
        requires
            old(self).wf(),
        ensures
            (r, final(self)@) == load_outcome(old(self)@, rasterizer@, name@),
            final(self).wf(),
            final(self)@.wf(),
            final(self).font_bytes() == old(self).font_bytes(),
    {
        if self.has_block(name) {
            return Ok(false);
        }
        match rasterizer.rasterize_block(name) {
            Err(e) => Err(e),
            Ok(raster) => {
                self.insert_block(name, raster);
                Ok(true)
            },
        }
    }

    /// The draw descriptors of a run that was shaped already.
    pub fn draw_run(&self, run: &Vec<ShapedGlyph>) -> (r: Result<DrawDescriptorSet, DrawError>)
        ensures
            outcome_view(r) == draw_outcome(self@.ranges(), run@),
    {
        assert(self@.ranges() =~= self.glyph_info@);
        build_descriptors(&self.glyph_info, run)
    }

    /// Shapes a text and gives the draw descriptors of the run that comes out. Every glyph
    /// of the run has to be loaded: nothing is loaded here. The empty text is an empty run.
    pub fn draw(&self, text: &str) -> (r: Result<DrawDescriptorSet, DrawError>)
        ensures
            text.spec_bytes().len() > max_text_len() ==> r == Err::<DrawDescriptorSet, DrawError>(
                DrawError::TextTooLong,
            ),
            text.spec_bytes().len() == 0 ==> outcome_view(r) == draw_outcome(
                self@.ranges(),
                Seq::empty(),
            ),
            text.spec_bytes().len() <= max_text_len() ==> exists|run: Seq<ShapedGlyph>|
                outcome_view(r) == #[trigger] draw_outcome(self@.ranges(), run),
    {
        let len = text.as_bytes().len();
        if len > i32::MAX as usize {
            return Err(DrawError::TextTooLong);
        }
        let run = if len == 0 {
            Vec::new()
        } else {
            shape_text(&self.font_data, text)
        };
        let r = self.draw_run(&run);
        assert(outcome_view(r) == draw_outcome(self@.ranges(), run@));
        r
    }
}

} // verus!
