//! A character-grid diagram engine: a buffer of glyph rows with a pending
//! overlay, line and box rasterisation, routed connectors, junction fixup and
//! snapshot-based undo/redo.
pub mod buffer;
pub mod config;
pub mod geometry;
pub mod glyphs;
pub mod history;
pub mod junctions;
pub mod laws;
pub mod raster;
pub mod router;
pub mod text;
pub mod tools;
