//! Visual configuration: palette, font, spacing, cursor.

use vstd::prelude::*;
use crate::completion::opt_text;
use crate::palette::Palette;
use crate::snapshot::CursorShape;

verus! {

/// A single-precision real number, by the bits of its IEEE 754 form. The
/// configuration carries such numbers through; only the renderer computes with
/// them.
#[derive(Clone, Copy, Debug, PartialEq, Eq, Structural)]
pub struct Real32 {
    pub bits: u32,
}

/// The bits of 15.
pub const FIFTEEN_BITS: u32 = 0x4170_0000;

/// The bits of 1.25.
pub const FIVE_QUARTERS_BITS: u32 = 0x3fa0_0000;

/// The bits of 8.
pub const EIGHT_BITS: u32 = 0x4100_0000;

/// Symmetric inner padding around the grid, in pixels.
#[derive(Clone, Copy, Debug, PartialEq, Eq, Structural)]
pub struct Padding {
    pub x: Real32,
    pub y: Real32,
}

/// Eight pixels on each side.
pub open spec fn default_padding() -> Padding {
    Padding { x: Real32 { bits: EIGHT_BITS }, y: Real32 { bits: EIGHT_BITS } }
}

impl Padding {
    /// Padding of `x` and `y`.
    pub fn new(x: Real32, y: Real32) -> (p: Self)
        ensures
            p == (Padding { x, y }),
    {
        Padding { x, y }
    }
}

impl Default for Padding {
    fn default() -> (p: Self)
        ensures
            p == default_padding(),
    {
        Padding { x: Real32 { bits: EIGHT_BITS }, y: Real32 { bits: EIGHT_BITS } }
    }
}

/// Everything that controls how the terminal looks.
#[derive(Clone, Debug)]
pub struct Theme {
    pub palette: Palette,
    /// Preferred font family. `None` asks the renderer for a system monospace.
    pub font_family: Option<String>,
    /// Font size in logical pixels.
    pub font_size: Real32,
    /// Line-height multiplier applied to the font size.
    pub line_height: Real32,
    /// Inner padding around the grid.
    pub padding: Padding,
    /// Default cursor shape.
    pub cursor_shape: CursorShape,
}

/// A theme with its text as characters.
pub ghost struct ThemeView {
    pub palette: Palette,
    pub font_family: Option<Seq<char>>,
    pub font_size: Real32,
    pub line_height: Real32,
    pub padding: Padding,
    pub cursor_shape: CursorShape,
}

impl Theme {
    pub open spec fn view(&self) -> ThemeView {
        ThemeView {
            palette: self.palette,
            font_family: opt_text(self.font_family),
            font_size: self.font_size,
            line_height: self.line_height,
            padding: self.padding,
            cursor_shape: self.cursor_shape,
        }
    }
}

/// Whether this is the built-in theme.
pub open spec fn is_default_theme(t: ThemeView) -> bool {
    &&& t.palette.is_shelvd_dark()
    &&& t.font_family.is_none()
    &&& t.font_size == (Real32 { bits: FIFTEEN_BITS })
    &&& t.line_height == (Real32 { bits: FIVE_QUARTERS_BITS })
    &&& t.padding == default_padding()
    &&& t.cursor_shape == CursorShape::Block
}

impl Default for Theme {
    fn default() -> (t: Self)
        ensures
            is_default_theme(t@),
    {
        Theme {
            palette: Palette::default(),
            font_family: None,
            font_size: Real32 { bits: FIFTEEN_BITS },
            line_height: Real32 { bits: FIVE_QUARTERS_BITS },
            padding: Padding::default(),
            cursor_shape: CursorShape::Block,
        }
    }
}

} // verus!
