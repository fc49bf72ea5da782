//! A fully color-resolved, render-ready view of the terminal grid.
//!
//! The terminal produces a [`GridSnapshot`] each frame (resolving named/indexed
//! colors against the palette and applying inverse), so a renderer never needs
//! to know about the emulator or the palette.

use vstd::prelude::*;
use crate::color::Rgba;
use crate::geometry::cell_count;

verus! {

/// Per-cell rendering attributes: a set of the bits below.
#[derive(Clone, Copy, PartialEq, Eq, Debug, Structural)]
pub struct CellFlags {
    pub bits: u16,
}

impl CellFlags {
    pub const BOLD: u16 = 1;
    pub const ITALIC: u16 = 2;
    pub const UNDERLINE: u16 = 4;
    pub const STRIKEOUT: u16 = 8;
    /// Leading cell of a double-width (e.g. CJK) glyph.
    pub const WIDE: u16 = 16;
    /// Trailing placeholder cell that follows a [`CellFlags::WIDE`] cell.
    pub const WIDE_SPACER: u16 = 32;
    /// Cell covered by the active selection.
    pub const SELECTED: u16 = 64;

    /// Whether every bit of `mask` is set.
    pub open spec fn has(self, mask: u16) -> bool {
        self.bits & mask == mask
    }

    /// These flags with every bit of `mask` set as well.
    pub open spec fn plus(self, mask: u16) -> CellFlags {
        CellFlags { bits: self.bits | mask }
    }

    /// No flags.
    pub fn empty() -> (f: Self)
        ensures
            f == (CellFlags { bits: 0 }),
    {
        CellFlags { bits: 0 }
    }

    /// The flags of `mask`.
    pub fn of(mask: u16) -> (f: Self)
        ensures
            f == (CellFlags { bits: mask }),
    {
        CellFlags { bits: mask }
    }

    /// Whether every flag of `mask` is set.
    pub fn contains(self, mask: u16) -> (b: bool)
        ensures
            b == self.has(mask),
    {
        self.bits & mask == mask
    }

    /// Set every flag of `mask`.
    pub fn insert(&mut self, mask: u16)
        ensures
            *final(self) == old(self).plus(mask),
    {
        self.bits = self.bits | mask;
    }
}

impl Default for CellFlags {
    fn default() -> (f: Self)
        ensures
            f == (CellFlags { bits: 0 }),
    {
        CellFlags::empty()
    }
}

/// A flag that was set is there, and those that share no bit with it stay as
/// they were.
pub proof fn flags_plus_has(f: CellFlags, mask: u16, other: u16)
    ensures
        f.plus(mask).has(mask),
        other & mask == 0 ==> f.plus(mask).has(other) == f.has(other),
{
    let b = f.bits;
    assert((b | mask) & mask == mask) by (bit_vector);
    assert(other & mask == 0 ==> ((b | mask) & other == other) == (b & other == other)) by (bit_vector);
}

/// One rendered cell: a character plus its resolved colors and attributes.
#[derive(Clone, Copy, Debug, PartialEq, Eq, Structural)]
pub struct CellSnapshot {
    pub c: char,
    pub fg: Rgba,
    pub bg: Rgba,
    pub flags: CellFlags,
}

/// A blank cell in the given colors.
pub open spec fn blank_cell(fg: Rgba, bg: Rgba) -> CellSnapshot {
    CellSnapshot { c: ' ', fg, bg, flags: CellFlags { bits: 0 } }
}

impl CellSnapshot {
    /// A space in the given colors, with no attribute.
    pub fn blank(fg: Rgba, bg: Rgba) -> (c: Self)
        ensures
            c == blank_cell(fg, bg),
    {
        Self { c: ' ', fg, bg, flags: CellFlags::empty() }
    }

    /// Whether this cell holds no glyph.
    pub open spec fn blank_glyph(&self) -> bool {
        self.c == ' ' || self.c == '\0'
    }

    /// Whether this cell would draw nothing but its background.
    pub fn is_blank(&self) -> (b: bool)
        ensures
            b == self.blank_glyph(),
    {
        self.c == ' ' || self.c == '\0'
    }
}

/// How the cursor is drawn.
#[derive(Clone, Copy, Debug, PartialEq, Eq, Structural)]
pub enum CursorShape {
    Block,
    Beam,
    Underline,
    Hidden,
}

/// The cursor's position and appearance for this frame.
#[derive(Clone, Copy, Debug, PartialEq, Eq, Structural)]
pub struct CursorSnapshot {
    pub col: u16,
    pub row: u16,
    pub shape: CursorShape,
    pub color: Rgba,
    /// Color to paint the glyph sitting under a block cursor.
    pub text_color: Rgba,
}

/// Per-visible-row command-block decoration, parallel to the rows of a
/// [`GridSnapshot`]. The terminal fills this in; the renderer just paints it.
#[derive(Clone, Copy, Debug, PartialEq, Eq, Structural)]
pub struct RowDecor {
    /// The command block this row belongs to (0 = none).
    pub block_id: u32,
    /// The row's block finished with a non-zero exit code.
    pub failed: bool,
    /// This is the first row of its block — draw a separator above it.
    pub block_top: bool,
}

/// The decoration of a row that belongs to no block.
pub open spec fn no_decor() -> RowDecor {
    RowDecor { block_id: 0, failed: false, block_top: false }
}

impl Default for RowDecor {
    fn default() -> (d: Self)
        ensures
            d == no_decor(),
    {
        RowDecor { block_id: 0, failed: false, block_top: false }
    }
}

/// A command header pinned to the top of the viewport when its block's prompt
/// has scrolled out of view.
#[derive(Clone, Debug, PartialEq, Eq)]
pub struct StickyHeader {
    /// The block's command text.
    pub command: String,
    /// The block finished with a non-zero exit code.
    pub failed: bool,
}

/// A complete, render-ready snapshot of the visible grid.
#[derive(Clone, Debug)]
pub struct GridSnapshot {
    pub cols: u16,
    pub rows: u16,
    /// Row-major cells, length == `cols * rows`.
    pub cells: Vec<CellSnapshot>,
    pub cursor: Option<CursorSnapshot>,
    /// Default background, used to clear the surface.
    pub background: Rgba,
    /// Background painted over cells flagged [`CellFlags::SELECTED`].
    pub selection_color: Rgba,
    /// Per-row block decoration, length == `rows`.
    pub rows_decor: Vec<RowDecor>,
    /// Sticky command header for the block at the top of the viewport, if its
    /// prompt has scrolled off.
    pub sticky: Option<StickyHeader>,
    /// Left-edge stripe color for a failed block.
    pub block_stripe: Rgba,
    /// Subtle background wash (with alpha) over a failed block's rows.
    pub block_tint: Rgba,
    /// Hairline color drawn between adjacent blocks.
    pub block_separator: Rgba,
    /// How many rows at the bottom belong to the pinned input band.
    pub input_band_rows: u16,
}

impl GridSnapshot {
    /// The buffers have the lengths that the size asks for.
    pub open spec fn wf(&self) -> bool {
        &&& self.cells@.len() == self.cols * self.rows
        &&& self.rows_decor@.len() == self.rows
    }

    /// The cells of row `r`.
    pub open spec fn row_cells(&self, r: int) -> Seq<CellSnapshot> {
        self.cells@.subrange(r * self.cols, (r + 1) * self.cols)
    }

    /// A grid filled with blank cells.
    pub fn filled(cols: u16, rows: u16, fg: Rgba, bg: Rgba) -> (g: Self)
        ensures
            g.wf(),
            g.cols == cols,
            g.rows == rows,
            forall|i: int| 0 <= i < g.cells@.len() ==> #[trigger] g.cells@[i] == blank_cell(fg, bg),
            forall|i: int| 0 <= i < rows ==> #[trigger] g.rows_decor@[i] == no_decor(),
            g.cursor.is_none(),
            g.sticky.is_none(),
            g.background == bg,
            g.selection_color == bg,
            g.block_stripe == bg,
            g.block_tint == bg,
            g.block_separator == bg,
            g.input_band_rows == 0,
    {
        let blank = CellSnapshot::blank(fg, bg);
        let n: usize = cell_count(cols, rows);
        Self {
            cols,
            rows,
            cells: vec![blank; n],
            cursor: None,
            background: bg,
            selection_color: bg,
            rows_decor: vec![RowDecor::default(); rows as usize],
            sticky: None,
            block_stripe: bg,
            block_tint: bg,
            block_separator: bg,
            input_band_rows: 0,
        }
    }

    /// Where the cell in column `col` of row `row` stands in `cells`.
    pub fn index(&self, col: u16, row: u16) -> (i: usize)
        ensures
            i == row * self.cols + col,
    {
        cell_count(row, self.cols) + col as usize
    }

    /// The cell in column `col` of row `row`, or `None` outside the grid.
    pub fn cell(&self, col: u16, row: u16) -> (c: Option<&CellSnapshot>)
        ensures
            match c {
                Some(c) => col < self.cols && row < self.rows && row * self.cols + col
                    < self.cells@.len() && *c == self.cells@[row * self.cols + col],
                None => col >= self.cols || row >= self.rows || row * self.cols + col
                    >= self.cells@.len(),
            },
    {
        if col < self.cols && row < self.rows {
            let i: usize = self.index(col, row);
            if i < self.cells.len() {
                Some(&self.cells[i])
            } else {
                None
            }
        } else {
            None
        }
    }
}

/// In a well-formed snapshot every position inside the grid has a cell of its
/// own: the index is in range, and no two positions share one.
pub proof fn cell_positions(g: GridSnapshot, col: int, row: int, col2: int, row2: int)
    requires
        g.wf(),
        0 <= col < g.cols,
        0 <= row < g.rows,
        0 <= col2 < g.cols,
        0 <= row2 < g.rows,
    ensures
        0 <= row * g.cols + col < g.cells@.len(),
        row * g.cols + col == row2 * g.cols + col2 ==> row == row2 && col == col2,
{
    row_in_range(g.cols as int, g.rows as int, row);
    if row * g.cols + col == row2 * g.cols + col2 {
        if row < row2 {
            row_in_range(g.cols as int, row2, row);
        } else if row2 < row {
            row_in_range(g.cols as int, row, row2);
        }
    }
}

/// Row `row` of a `cols`-wide grid ends before row `rows` begins.
pub proof fn row_in_range(cols: int, rows: int, row: int)
    requires
        0 <= cols,
        0 <= row < rows,
    ensures
        0 <= row * cols,
        row * cols + cols <= rows * cols,
        row * cols + cols == (row + 1) * cols,
{
    assert(0 <= row * cols) by (nonlinear_arith)
        requires
            0 <= row,
            0 <= cols,
    ;
    assert((row + 1) * cols == row * cols + cols) by (nonlinear_arith);
    assert((row + 1) * cols <= rows * cols) by (nonlinear_arith)
        requires
            row + 1 <= rows,
            0 <= cols,
    ;
}

} // verus!
