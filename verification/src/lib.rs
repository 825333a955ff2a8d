//! Verified decoder for the sfnt (TrueType/OpenType) font container:
//! table directory, head table, cmap format 4 character-to-glyph mapping,
//! and loca/glyf outline byte-range resolution.

pub mod cmap;
pub mod directory;
pub mod error;
pub mod font;
pub mod format4;
pub mod glyph;
pub mod head;
pub mod loca;
pub mod reader;
