//! Rendering helpers: fades, fonts, glyphs, palettes, tiles and
//! viewports.

pub mod fade;
pub mod font;
pub mod glyph;
pub mod palette;
pub mod tile;
pub mod viewport;
