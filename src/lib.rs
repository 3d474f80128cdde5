//! Large-digit countdown rendering: a glyph table, the composition of a
//! `MM:SS` time into one block of text, centering on a terminal, and the
//! per-second decisions of a countdown.
pub mod glyph;
pub mod compose;
pub mod render;
pub mod layout;
pub mod ticker;
pub mod input;
