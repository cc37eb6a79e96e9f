use vstd::prelude::*;
use std::sync::Arc;
use font_kit::hinting::HintingOptions;
use font_kit::outline::OutlineBuilder;
use crate::block::{
    block_outcome, lemma_block_glyph_counts, lemma_block_outcome_wf, outline_views,
    tessellate_block, BlockRaster, BlockRasterView, GlyphOutline, Outline,
};
use crate::contour::{contour_lists, decode_contours, outline_events, OutlinePoint};
use crate::outline::GlyphOutlineEvent;
use crate::tessellate::{overlay_count, triangle_count, TessellateError};
use crate::unicode::{
    block_chars, char_range, is_database, lemma_char_range_contains, unicode_block_range,
    BlockTable,
};

verus! {

/// A font that `font_kit` has loaded. Nothing of it is visible here but the two tables that
/// `font_glyphs` and `font_contours` name.
#[verifier::external_type_specification]
#[verifier::external_body]
pub struct ExLoadedFont(font_kit::font::Font);

/// Why a block could not be loaded.
#[derive(Clone, Copy, Debug, PartialEq, Eq, Structural)]
pub enum LoadError {
    /// The bytes are not a font that the loader can read.
    AssetLoad,
    /// No Unicode block has the name asked for.
    UnknownBlock,
    /// The font gave no outline for one of its glyphs, or one that breaks off inside a curve.
    Rasterization,
    /// A glyph has more vertices than a 16-bit index can name.
    IndexOverflow,
    /// The block's lists have grown past what a 32-bit offset can name.
    RangeOverflow,
}

/// The failure to load a block that a failure to tessellate it amounts to.
pub open spec fn load_error_of(e: TessellateError) -> LoadError {
    match e {
        TessellateError::IndexOverflow => LoadError::IndexOverflow,
        TessellateError::RangeOverflow => LoadError::RangeOverflow,
    }
}

/// The character map of a loaded font: the characters that the font has a glyph for, each
/// with the id of its glyph.
pub uninterp spec fn font_glyphs(font: font_kit::font::Font) -> Map<char, u32>;

/// The outlines of a loaded font: the ids of the glyphs that the font gives an outline for,
/// each with the contours of its unhinted outline, a contour being its points in order.
pub uninterp spec fn font_contours(font: font_kit::font::Font) -> Map<u32, Seq<Seq<OutlinePoint>>>;

/// The two tables of a font that a rasterizer reads.
pub struct FontTables {
    /// The glyph of each character that has one.
    pub glyphs: Map<char, u32>,
    /// The contours of each glyph that has an outline.
    pub contours: Map<u32, Seq<Seq<OutlinePoint>>>,
}

/// The two tables of a loaded font.
pub open spec fn font_tables(font: font_kit::font::Font) -> FontTables {
    FontTables { glyphs: font_glyphs(font), contours: font_contours(font) }
}

/// Calls `font_kit::font::Font::from_bytes` on the bytes of a font file, for the first font
/// in them. `None` stands for the loader's refusal of the bytes.
///
/// Trusted, with nothing claimed of the answer: whether the loader takes the bytes, and what
/// font it makes of them, is also up to the font library of the machine and to how the
/// process has set it up.
#[verifier::external_body]
fn parse_font(font_data: Vec<u8>) -> (font: Option<font_kit::font::Font>) {
    font_kit::font::Font::from_bytes(Arc::new(font_data), 0).ok()
}

/// Calls `font_kit::font::Font::glyph_for_char`: the id of the glyph that the font draws for
/// a character, if it has one.
///
/// Trusted: the id is looked up in the font's character map, which `font_glyphs` names.
#[verifier::external_body]
fn glyph_for_char(font: &font_kit::font::Font, ch: char) -> (glyph_id: Option<u32>)
    ensures
        glyph_id is Some <==> font_glyphs(*font).contains_key(ch),
        glyph_id matches Some(id) ==> font_glyphs(*font)[ch] == id,
{
    font.glyph_for_char(ch)
}

/// Calls `font_kit::font::Font::outline` without hinting, into the sink that `font_kit`
/// itself provides, and hands out what that sink collected: for each contour its points,
/// each with the bits of its two coordinates and with its flags. `None` stands for the
/// loader's refusal of the glyph.
///
/// Trusted: the points are read from the font's outline of the glyph, which `font_contours`
/// names; nothing is claimed of what they are. A glyph without contours is answered by the
/// loader before it reads any point, and comes out as no contours at all.
#[verifier::external_body]
fn glyph_contours(font: &font_kit::font::Font, glyph_id: u32) -> (contours: Option<
    Vec<Vec<OutlinePoint>>,
>)
    ensures
        contours is Some <==> font_contours(*font).contains_key(glyph_id),
        contours matches Some(c) ==> contour_lists(c@) == font_contours(*font)[glyph_id],
{
    let mut sink = OutlineBuilder::new();
    match font.outline(glyph_id, HintingOptions::None, &mut sink) {
        Ok(()) => Some(
            sink.into_outline().contours.iter().map(
                |c| c.positions.iter().zip(c.flags.iter()).map(
                    |(p, f)| OutlinePoint { x: p.x().to_bits(), y: p.y().to_bits(), flags: f.bits() },
                ).collect(),
            ).collect(),
        ),
        Err(_) => None,
    }
}

/// What a font's answer for one glyph amounts to: the events that the contours spell. It is
/// a failure where the font gave nothing, or contours that break off inside a curve.
pub open spec fn outline_outcome(glyph_id: u32, contours: Option<Seq<Seq<OutlinePoint>>>) -> Result<
    Outline,
    LoadError,
> {
    match contours {
        None => Err(LoadError::Rasterization),
        Some(contours) => match outline_events(contours) {
            Some(events) => Ok(Outline { glyph_id, events }),
            None => Err(LoadError::Rasterization),
        },
    }
}

impl FontTables {
    /// What the font gives for a glyph.
    pub open spec fn contours_of(self, glyph_id: u32) -> Option<Seq<Seq<OutlinePoint>>> {
        if self.contours.contains_key(glyph_id) {
            Some(self.contours[glyph_id])
        } else {
            None
        }
    }

    /// The outlines of the glyphs of the first `n` of the given characters, in the order of
    /// the characters. A character without a glyph is passed over; the first glyph without a
    /// sound outline is a failure.
    pub open spec fn outlines(self, chars: Seq<char>, n: int) -> Result<Seq<Outline>, LoadError>
        decreases n,
    {
        if n <= 0 {
            Ok(Seq::empty())
        } else {
            match self.outlines(chars, n - 1) {
                Err(e) => Err(e),
                Ok(before) => if !self.glyphs.contains_key(chars[n - 1]) {
                    Ok(before)
                } else {
                    let glyph_id = self.glyphs[chars[n - 1]];
                    match outline_outcome(glyph_id, self.contours_of(glyph_id)) {
                        Ok(outline) => Ok(before.push(outline)),
                        Err(e) => Err(e),
                    }
                },
            }
        }
    }

    /// What tessellating the glyphs of the given characters yields.
    pub open spec fn raster(self, chars: Seq<char>) -> Result<BlockRasterView, LoadError> {
        match self.outlines(chars, chars.len() as int) {
            Err(e) => Err(e),
            Ok(outlines) => raster_outcome(outlines),
        }
    }

    /// What tessellating the block of a name yields.
    pub open spec fn block_raster(self, name: Seq<char>) -> Result<BlockRasterView, LoadError> {
        match unicode_block_range(name) {
            None => Err(LoadError::UnknownBlock),
            Some((low, high)) => self.raster(char_range(low, high)),
        }
    }
}

/// What tessellating outlines yields, with a failure told as a failure to load.
pub open spec fn raster_outcome(outlines: Seq<Outline>) -> Result<BlockRasterView, LoadError> {
    match block_outcome(outlines) {
        Ok(raster) => Ok(raster),
        Err(e) => Err(load_error_of(e)),
    }
}

/// The result of a tessellation, with the block as plain values.
pub open spec fn raster_view(r: Result<BlockRaster, LoadError>) -> Result<
    BlockRasterView,
    LoadError,
> {
    match r {
        Ok(raster) => Ok(raster@),
        Err(e) => Err(e),
    }
}

/// The result of collecting outlines, with the outlines as plain values.
pub open spec fn outlines_view(r: Result<Vec<GlyphOutline>, LoadError>) -> Result<
    Seq<Outline>,
    LoadError,
> {
    match r {
        Ok(outlines) => Ok(outline_views(outlines@)),
        Err(e) => Err(e),
    }
}

/// The one owner of a loaded font: it turns the characters of a Unicode block into
/// triangles, one block at a time.
pub struct Rasterizer {
    font: font_kit::font::Font,
    blocks: BlockTable,
}

impl View for Rasterizer {
    type V = FontTables;

    closed spec fn view(&self) -> FontTables {
        font_tables(self.font)
    }
}

impl Rasterizer {
    /// The rasterizer's table of blocks is that of the Unicode character database.
    #[verifier::type_invariant]
    closed spec fn inv(self) -> bool {
        is_database(self.blocks@)
    }

    /// Loads a font from the bytes of a font file. Whether the bytes are a font is for the
    /// loader to say; what comes of its answer is [`Rasterizer::from_loaded`].
    pub fn new(font_data: Vec<u8>) -> (r: Result<Rasterizer, LoadError>)
        ensures
            r matches Err(e) ==> e == LoadError::AssetLoad,
    {
        Rasterizer::from_loaded(parse_font(font_data))
    }

    /// Takes the loader's answer to the bytes of a font file: the font that it loaded gets
    /// its owner, which reads that font's tables; its refusal is a failure to load the asset.
    pub fn from_loaded(font: Option<font_kit::font::Font>) -> (r: Result<Rasterizer, LoadError>)
        ensures
            match font {
                Some(loaded) => r matches Ok(rasterizer) && rasterizer@ == font_tables(loaded),
                None => r matches Err(LoadError::AssetLoad),
            },
    {
        match font {
            Some(font) => Ok(Rasterizer { font, blocks: BlockTable::new() }),
            None => Err(LoadError::AssetLoad),
        }
    }

    /// The outlines of the glyphs that the font has for the given characters, in the order of
    /// the characters. A character without a glyph is passed over.
    pub fn outlines(&self, chars: &Vec<char>) -> (r: Result<Vec<GlyphOutline>, LoadError>)
        ensures
            outlines_view(r) == self@.outlines(chars@, chars.len() as int),
    {
        let mut outlines: Vec<GlyphOutline> = Vec::new();
        let mut i: usize = 0;
        assert(outline_views(outlines@) =~= Seq::empty());
        while i < chars.len()
            invariant
                i <= chars.len(),
                self@.outlines(chars@, i as int) == Ok::<Seq<Outline>, LoadError>(
                    outline_views(outlines@),
                ),
            decreases chars.len() - i,
        {
            let ghost before = outline_views(outlines@);
            if let Some(glyph_id) = glyph_for_char(&self.font, chars[i]) {
                match glyph_outline(glyph_id, glyph_contours(&self.font, glyph_id)) {
                    Ok(outline) => {
                        outlines.push(outline);
                        assert(outline_views(outlines@) =~= before.push(outline@));
                    },
                    Err(e) => {
                        proof {
                            lemma_outlines_fail(self@, chars@, i + 1, chars.len() as int);
                        }
                        return Err(e);
                    },
                }
            }
            i += 1;
        }
        Ok(outlines)
    }

    /// Tessellates every glyph that the font has for the characters of a named Unicode block.
    /// A name that the Unicode character database does not list is refused.
    pub fn rasterize_block(&self, name: &str) -> (r: Result<BlockRaster, LoadError>)
        ensures
            raster_view(r) == self@.block_raster(name@),
            r matches Ok(raster) ==> raster@.wf(),
    {
        proof {
            use_type_invariant(self);
        }
        let (low, high) = match self.blocks.range(name) {
            Some(range) => range,
            None => {
                return Err(LoadError::UnknownBlock);
            },
        };
        let chars = block_chars(low, high);
        let outlines = self.outlines(&chars)?;
        raster_of(&outlines)
    }
}

/// Whatever block a font's tables give is well formed: no range of it names an index or a
/// vertex that is not there.
pub proof fn lemma_block_raster_wf(tables: FontTables, name: Seq<char>)
    requires
        tables.block_raster(name) is Ok,
    ensures
        tables.block_raster(name)->Ok_0.wf(),
{
    let (low, high) = unicode_block_range(name)->Some_0;
    let chars = char_range(low, high);
    let outlines = tables.outlines(chars, chars.len() as int)->Ok_0;
    lemma_block_outcome_wf(outlines);
}

/// A block fails to load for one of four reasons: its name is unknown, the font's outline of
/// a glyph is missing or broken, a glyph is too large, or the block is. A font that was
/// loaded is never the reason.
pub proof fn lemma_block_raster_errors(tables: FontTables, name: Seq<char>)
    requires
        tables.block_raster(name) is Err,
    ensures
        tables.block_raster(name)->Err_0 != LoadError::AssetLoad,
        tables.block_raster(name)->Err_0 == LoadError::UnknownBlock <==> unicode_block_range(name)
            is None,
{
    if let Some((low, high)) = unicode_block_range(name) {
        let chars = char_range(low, high);
        lemma_outlines_errors(tables, chars, chars.len() as int);
    }
}

/// Collecting outlines fails only for a missing or broken outline.
proof fn lemma_outlines_errors(tables: FontTables, chars: Seq<char>, n: int)
    ensures
        tables.outlines(chars, n) matches Err(e) ==> e == LoadError::Rasterization,
    decreases n,
{
    if n > 0 {
        lemma_outlines_errors(tables, chars, n - 1);
    }
}

/// Where the outlines of the first characters were collected, the glyph of each of those
/// characters that has one is among them.
pub proof fn lemma_outlines_cover(tables: FontTables, chars: Seq<char>, n: int, j: int)
    requires
        0 <= j < n <= chars.len(),
        tables.outlines(chars, n) is Ok,
        tables.glyphs.contains_key(chars[j]),
    ensures
        exists|k: int|
            0 <= k < tables.outlines(chars, n)->Ok_0.len() && (#[trigger] tables.outlines(
                chars,
                n,
            )->Ok_0[k]).glyph_id == tables.glyphs[chars[j]],
    decreases n,
{
    let all = tables.outlines(chars, n)->Ok_0;
    let before = tables.outlines(chars, n - 1)->Ok_0;
    if j == n - 1 {
        assert(all[all.len() - 1].glyph_id == tables.glyphs[chars[j]]);
    } else {
        lemma_outlines_cover(tables, chars, n - 1, j);
        let k = choose|k: int|
            0 <= k < before.len() && (#[trigger] before[k]).glyph_id == tables.glyphs[chars[j]];
        assert(all[k] == before[k]);
    }
}

/// Every outline that was collected is what the font gives for the glyph it is filed under.
pub proof fn lemma_outlines_are_the_fonts(tables: FontTables, chars: Seq<char>, n: int, k: int)
    requires
        0 <= n <= chars.len(),
        tables.outlines(chars, n) is Ok,
        0 <= k < tables.outlines(chars, n)->Ok_0.len(),
    ensures
        outline_outcome(
            tables.outlines(chars, n)->Ok_0[k].glyph_id,
            tables.contours_of(tables.outlines(chars, n)->Ok_0[k].glyph_id),
        ) == Ok::<Outline, LoadError>(tables.outlines(chars, n)->Ok_0[k]),
    decreases n,
{
    if n > 0 {
        let before = tables.outlines(chars, n - 1)->Ok_0;
        if k < before.len() {
            lemma_outlines_are_the_fonts(tables, chars, n - 1, k);
        }
    }
}

/// Every range of a block that was tessellated from a font's tables counts the triangles of
/// the font's outline of its glyph: three indices for each event but the moves, three
/// overlay vertices for each quadratic curve.
pub proof fn lemma_block_raster_counts(tables: FontTables, name: Seq<char>, k: int)
    requires
        tables.block_raster(name) is Ok,
        0 <= k < tables.block_raster(name)->Ok_0.glyphs.len(),
    ensures
        ({
            let (glyph_id, glyph) = tables.block_raster(name)->Ok_0.glyphs[k];
            let outline = outline_outcome(glyph_id, tables.contours_of(glyph_id));
            &&& outline is Ok
            &&& glyph.index_count == 3 * triangle_count(outline->Ok_0.events)
            &&& glyph.qvertex_count == 3 * overlay_count(outline->Ok_0.events)
        }),
{
    let (low, high) = unicode_block_range(name)->Some_0;
    let chars = char_range(low, high);
    let outlines = tables.outlines(chars, chars.len() as int)->Ok_0;
    lemma_block_glyph_counts(outlines, k);
    lemma_outlines_are_the_fonts(tables, chars, chars.len() as int, k);
}

/// Where the block of a name was tessellated, the glyph of each character of the block that
/// the font has a glyph for has a range in it.
pub proof fn lemma_block_raster_covers(tables: FontTables, name: Seq<char>, c: char)
    requires
        tables.block_raster(name) is Ok,
        unicode_block_range(name) is Some,
        unicode_block_range(name)->Some_0.0 <= c <= unicode_block_range(name)->Some_0.1,
        tables.glyphs.contains_key(c),
    ensures
        exists|k: int|
            0 <= k < tables.block_raster(name)->Ok_0.glyphs.len() && (
            #[trigger] tables.block_raster(name)->Ok_0.glyphs[k]).0 == tables.glyphs[c],
{
    let (low, high) = unicode_block_range(name)->Some_0;
    let chars = char_range(low, high);
    lemma_char_range_contains(low, high, c);
    let j = choose|j: int| 0 <= j < chars.len() && chars[j] == c;
    lemma_outlines_cover(tables, chars, chars.len() as int, j);
    let outlines = tables.outlines(chars, chars.len() as int)->Ok_0;
    let k = choose|k: int|
        0 <= k < outlines.len() && (#[trigger] outlines[k]).glyph_id == tables.glyphs[c];
    lemma_block_glyph_counts(outlines, k);
    assert(tables.block_raster(name)->Ok_0.glyphs[k].0 == tables.glyphs[c]);
}

/// Once a glyph has failed, the failure stays.
proof fn lemma_outlines_fail(tables: FontTables, chars: Seq<char>, n: int, m: int)
    requires
        0 <= n <= m,
        tables.outlines(chars, n) is Err,
    ensures
        tables.outlines(chars, m) == tables.outlines(chars, n),
    decreases m - n,
{
    if n < m {
        lemma_outlines_fail(tables, chars, n, m - 1);
    }
}

/// The outline of a glyph from what the font gave for it.
pub fn glyph_outline(glyph_id: u32, contours: Option<Vec<Vec<OutlinePoint>>>) -> (r: Result<
    GlyphOutline,
    LoadError,
>)
    ensures
        match r {
            Ok(outline) => outline_outcome(
                glyph_id,
                match contours {
                    Some(c) => Some(contour_lists(c@)),
                    None => None,
                },
            ) == Ok::<Outline, LoadError>(outline@),
            Err(e) => outline_outcome(
                glyph_id,
                match contours {
                    Some(c) => Some(contour_lists(c@)),
                    None => None,
                },
            ) == Err::<Outline, LoadError>(e),
        },
{
    match contours {
        None => Err(LoadError::Rasterization),
        Some(contours) => match decode_contours(&contours) {
            Some(events) => Ok(GlyphOutline { glyph_id, events }),
            None => Err(LoadError::Rasterization),
        },
    }
}

/// Tessellates the outlines of a block, with a failure told as a failure to load.
pub fn raster_of(outlines: &Vec<GlyphOutline>) -> (r: Result<BlockRaster, LoadError>)
    ensures
        raster_view(r) == raster_outcome(outline_views(outlines@)),
        r matches Ok(raster) ==> raster@.wf(),
{
    match tessellate_block(outlines) {
        Ok(raster) => Ok(raster),
        Err(TessellateError::IndexOverflow) => Err(LoadError::IndexOverflow),
        Err(TessellateError::RangeOverflow) => Err(LoadError::RangeOverflow),
    }
}

} // verus!
