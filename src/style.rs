//! Cells and the styles they are drawn with.

use vstd::prelude::*;

verus! {

/// A colour as the terminal names it; the display layer maps it to pixels.
#[derive(Clone, Copy, Debug, PartialEq, Eq, Structural)]
pub enum Color {
    /// The configured default of the slot it stands in (foreground or background).
    Default,
    /// An entry of the 16-colour ANSI palette.
    Indexed(u8),
    /// A direct colour, each component read as a fraction of 255.
    Rgb(u16, u16, u16),
}

/// Colours and attributes applied to a written character.
#[derive(Clone, Copy, Debug, PartialEq, Eq, Structural)]
pub struct CellStyle {
    pub fg: Color,
    pub bg: Color,
    pub bold: bool,
    pub italic: bool,
    pub underline: bool,
    pub inverse: bool,
}

/// One position of the grid.
#[derive(Clone, Copy, Debug, PartialEq, Eq, Structural)]
pub struct Cell {
    pub c: char,
    pub style: CellStyle,
    pub dirty: bool,
}

/// The pen of a fresh terminal: default colours, no attribute.
pub open spec fn default_style() -> CellStyle {
    CellStyle {
        fg: Color::Default,
        bg: Color::Default,
        bold: false,
        italic: false,
        underline: false,
        inverse: false,
    }
}

/// An empty position: a space in the default style.
pub open spec fn default_cell() -> Cell {
    Cell { c: ' ', style: default_style(), dirty: true }
}

impl Default for CellStyle {
    fn default() -> (s: Self)
        ensures
            s == default_style(),
    {
        CellStyle {
            fg: Color::Default,
            bg: Color::Default,
            bold: false,
            italic: false,
            underline: false,
            inverse: false,
        }
    }
}

impl Default for Cell {
    fn default() -> (c: Self)
        ensures
            c == default_cell(),
    {
        Cell { c: ' ', style: CellStyle::default(), dirty: true }
    }
}

impl CellStyle {
    /// Foreground and background as drawn: swapped when `inverse` is set.
    pub fn draw_colors(&self) -> (r: (Color, Color))
        ensures
            r == (if self.inverse {
                (self.bg, self.fg)
            } else {
                (self.fg, self.bg)
            }),
    {
        if self.inverse {
            (self.bg, self.fg)
        } else {
            (self.fg, self.bg)
        }
    }
}

impl Cell {
    /// An empty-looking cell: a space on the default background, which
    /// needs no drawing.
    pub fn is_blank(&self) -> (r: bool)
        ensures
            r == (self.c == ' ' && self.style.bg == Color::Default),
    {
        self.c == ' ' && self.style.bg == Color::Default
    }
}

} // verus!
