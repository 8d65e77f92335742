//! Core of a terminal emulator: a streaming escape-sequence interpreter and
//! the character grid it drives, with the small decisions of the layers
//! around them (key encoding, reading the child's output, drawing cells).

pub mod ansi;
pub mod atlas;
pub mod grid;
pub mod keys;
pub mod laws;
pub mod pty;
pub mod style;

pub use ansi::AnsiParser;
pub use atlas::{blit_coverage, extract_region, ShelfPacker};
pub use grid::Grid;
pub use keys::{key_bytes, SpecialKey};
pub use pty::PtyEvent;
pub use style::{Cell, CellStyle, Color};
