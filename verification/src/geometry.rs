//! Sizes of the grid, in cells, and of the window, in pixels.

use vstd::prelude::*;

verus! {

/// Size of the terminal grid in character cells.
#[derive(Clone, Copy, PartialEq, Eq, Debug, Structural)]
pub struct GridSize {
    pub cols: u16,
    pub rows: u16,
}

impl GridSize {
    /// A grid of `cols` × `rows` cells.
    pub fn new(cols: u16, rows: u16) -> (s: Self)
        ensures
            s == (GridSize { cols, rows }),
    {
        Self { cols, rows }
    }

    /// Number of cells in the grid.
    pub fn area(self) -> (n: usize)
        ensures
            n == self.cols * self.rows,
    {
        cell_count(self.cols, self.rows)
    }
}

/// The product of two 16-bit sizes.
pub fn cell_count(cols: u16, rows: u16) -> (n: usize)
    ensures
        n == cols * rows,
        n <= 65535 * 65535,
{
    proof {
        assert(0 <= cols * rows <= 65535 * 65535) by (nonlinear_arith)
            requires
                0 <= cols <= 65535,
                0 <= rows <= 65535,
        ;
    }
    cols as usize * rows as usize
}

/// A size in physical pixels.
#[derive(Clone, Copy, PartialEq, Eq, Debug, Structural)]
pub struct PixelSize {
    pub width: u32,
    pub height: u32,
}

impl PixelSize {
    /// A `width` × `height` pixel area.
    pub fn new(width: u32, height: u32) -> (s: Self)
        ensures
            s == (PixelSize { width, height }),
    {
        Self { width, height }
    }
}

/// An edge or corner of the window that a drag resizes.
#[derive(Clone, Copy, PartialEq, Eq, Debug, Structural)]
pub enum ResizeEdge {
    North,
    South,
    East,
    West,
    NorthEast,
    NorthWest,
    SouthEast,
    SouthWest,
}

/// A part of the titlebar.
#[derive(Clone, Copy, PartialEq, Eq, Debug, Structural)]
pub enum TitlebarHit {
    /// The bar itself, by which the window is moved.
    Drag,
    Minimize,
    Maximize,
    Close,
}

} // verus!
