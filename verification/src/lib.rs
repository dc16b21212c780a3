//! A text-mode console renderer: an 80x25 shadow grid of glyph bytes with a
//! write position, line-oriented ingestion with scrolling, per-row alignment
//! padding, and a flusher that rewrites a 2000-cell screen region (two bytes
//! per cell: glyph, then attribute) from the shadow grid.

pub mod laws;
pub mod model;
pub mod vga_buf;
