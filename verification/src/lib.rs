//! A small immediate-mode drawing layer for a one-button message-box dialog.
//!
//! The library owns an ARGB32 pixel buffer and draws into it directly: solid
//! rectangle fills, pre-rasterized glyph images blended with a darken rule,
//! and a composite "button" operation that pairs a conditional draw with a
//! mouse hit test.  Font shaping and the window event pump live outside the
//! library; they hand in plain values (glyph rasters, mouse coordinates) and
//! read the finished pixel buffer back out.

pub mod color;
pub mod dialog;
pub mod geom;
pub mod glyph;
pub mod surface;
