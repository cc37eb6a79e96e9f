use vstd::prelude::*;
use vstd::string::StringSliceAdditionalSpecFns;
use crate::draw::ShapedGlyph;

verus! {

/// The longest text, in bytes, that the shaper can be handed.
pub open spec fn max_text_len() -> int {
    i32::MAX as int
}

/// Shapes a text with HarfBuzz: `harfbuzz_rs::Face::from_bytes` for the first font in the
/// bytes, `harfbuzz_rs::Font::new`, `harfbuzz_rs::UnicodeBuffer::add_str` and
/// `harfbuzz_rs::shape` without extra features. Each glyph that comes out is handed on with
/// its id, its two advances and its two offsets.
///
/// Trusted, with nothing claimed of the run: the glyphs are whatever the font's tables and
/// the shaper's guess of script and language make of the text. The text's length is bounded
/// because the buffer takes it as a 32-bit signed number, and the text is not empty because
/// a buffer that never held anything has no glyph array to hand out.
#[verifier::external_body]
pub(crate) fn shape_text(font_data: &Vec<u8>, text: &str) -> (run: Vec<ShapedGlyph>)
    requires
        0 < text.spec_bytes().len() <= max_text_len(),
{
    let font = harfbuzz_rs::Font::new(harfbuzz_rs::Face::from_bytes(font_data, 0));
    let output = harfbuzz_rs::shape(&font, harfbuzz_rs::UnicodeBuffer::new().add_str(text), &[]);
    output.get_glyph_infos().iter().zip(output.get_glyph_positions().iter()).map(
        |(info, pos)| ShapedGlyph {
            glyph_id: info.codepoint,
            x_advance: pos.x_advance,
            y_advance: pos.y_advance,
            x_offset: pos.x_offset,
            y_offset: pos.y_offset,
        },
    ).collect()
}

} // verus!
