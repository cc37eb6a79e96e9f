//! Text as triangles: glyph outlines are tessellated once per Unicode block, and a string is
//! drawn by shaping it and emitting one pair of draw commands and one position per glyph.
//!
//! - [`outline`]: points, outline events and vertices.
//! - [`contour`]: reading outline events from the contours that a font loader stores.
//! - [`tessellate`]: the triangle builder, which fans each contour out from the glyph's
//!   first vertex and lays one more triangle over each quadratic curve.
//! - [`glyph`]: the range of one glyph inside the lists of its block.
//! - [`block`]: a whole block tessellated into one set of lists, with a range per glyph.
//! - [`unicode`]: the named blocks of the Unicode character database.
//! - [`rasterizer`]: the owner of a loaded font, which tessellates a named block.
//! - [`shaping`]: the text shaper.
//! - [`draw`]: draw commands and glyph positions for a shaped run.
//! - [`font`]: the blocks and glyph ranges that were loaded, and drawing text against them.

pub mod block;
pub mod contour;
pub mod draw;
pub mod font;
pub mod glyph;
pub mod outline;
pub mod rasterizer;
pub mod shaping;
pub mod tessellate;
pub mod unicode;
