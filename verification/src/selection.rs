//! A linear text selection over absolute lines, so that it spans frozen block
//! buffers and the live grid alike.

use vstd::prelude::*;

verus! {

/// Which half of a cell the pointer fell on.
#[derive(Clone, Copy, Debug, PartialEq, Eq, Structural)]
pub enum Side {
    Left,
    Right,
}

/// Which half of a cell a pixel fell on.
pub fn side(right_half: bool) -> (s: Side)
    ensures
        s == if right_half {
            Side::Right
        } else {
            Side::Left
        },
{
    if right_half {
        Side::Right
    } else {
        Side::Left
    }
}

/// One endpoint of a selection: an absolute line, a column, and which half of
/// that cell the pointer fell on (so the boundary cell is included or not).
#[derive(Clone, Copy, Debug, PartialEq, Eq, Structural)]
pub struct SelPoint {
    pub abs: i64,
    pub col: usize,
    pub side: Side,
}

/// A linear text selection.
#[derive(Clone, Copy, Debug, PartialEq, Eq, Structural)]
pub struct CompositeSelection {
    /// Where the drag started (its `side` is fixed for the drag).
    pub anchor: SelPoint,
    /// The current drag end (updated as the pointer moves).
    pub head: SelPoint,
}

/// Whether position `a` comes at or before `b` in reading order.
pub open spec fn reads_before(a: (int, int), b: (int, int)) -> bool {
    a.0 < b.0 || (a.0 == b.0 && a.1 <= b.1)
}

/// The first cell of a selection that begins at `p`: the cell itself, or the one
/// after it where the pointer was on its right half.
pub open spec fn first_cell(p: SelPoint, cols: int) -> (int, int) {
    match p.side {
        Side::Right => if p.col + 1 >= cols {
            (p.abs + 1, 0)
        } else {
            (p.abs as int, p.col + 1)
        },
        Side::Left => (p.abs as int, p.col as int),
    }
}

/// The last cell of a selection that ends at `p`: the cell itself, or the one
/// before it where the pointer was on its left half.
pub open spec fn last_cell(p: SelPoint, cols: int) -> (int, int) {
    match p.side {
        Side::Left => if p.col == 0 {
            (p.abs - 1, if cols > 0 {
                cols - 1
            } else {
                0
            })
        } else {
            (p.abs as int, p.col - 1)
        },
        Side::Right => (p.abs as int, p.col as int),
    }
}

impl CompositeSelection {
    /// Whether the anchor comes first.
    pub open spec fn forward(&self) -> bool {
        reads_before(
            (self.anchor.abs as int, self.anchor.col as int),
            (self.head.abs as int, self.head.col as int),
        )
    }

    /// The endpoint that comes first in reading order.
    pub open spec fn near(&self) -> SelPoint {
        if self.forward() {
            self.anchor
        } else {
            self.head
        }
    }

    /// The endpoint that comes last in reading order.
    pub open spec fn far(&self) -> SelPoint {
        if self.forward() {
            self.head
        } else {
            self.anchor
        }
    }

    /// The first and last cell of the selection, or `None` where it is empty.
    pub open spec fn span(&self, cols: int) -> Option<((int, int), (int, int))> {
        let first = first_cell(self.near(), cols);
        let last = last_cell(self.far(), cols);
        if reads_before(first, last) {
            Some((first, last))
        } else {
            None
        }
    }

    /// Whether the lines and columns of the first and last cell can be counted: folding
    /// a half of a cell in steps over no end of the numbers.
    pub open spec fn countable(&self, cols: int) -> bool {
        &&& self.near().side == Side::Right ==> self.near().col < usize::MAX
        &&& first_cell(self.near(), cols).0 <= i64::MAX
        &&& last_cell(self.far(), cols).0 >= i64::MIN
    }

    /// Whether the cell at `(abs, col)` is selected.
    pub open spec fn covers(&self, cols: int, abs: int, col: int) -> bool {
        match self.span(cols) {
            Some((first, last)) => reads_before(first, (abs, col)) && reads_before((abs, col), last),
            None => false,
        }
    }

    /// The selection's inclusive `(abs, col)` start and end in reading order, with
    /// the cell-half folded in: a `Right`-half start excludes its cell (begins at
    /// the next column, wrapping a line), a `Left`-half end excludes its cell.
    /// Returns `None` when the result is empty (e.g. a click with no drag).
    pub fn bounds(&self, cols: usize) -> (r: Option<((i64, usize), (i64, usize))>)
        requires
            self.countable(cols as int),
        ensures
            match (self.span(cols as int), r) {
                (Some((first, last)), Some((a, b))) => a.0 == first.0 && a.1 == first.1 && b.0
                    == last.0 && b.1 == last.1,
                (None, None) => true,
                _ => false,
            },
    {
        let forward: bool = self.anchor.abs < self.head.abs || (self.anchor.abs == self.head.abs
            && self.anchor.col <= self.head.col);
        let (s, e) = if forward {
            (self.anchor, self.head)
        } else {
            (self.head, self.anchor)
        };
        let start: (i64, usize) = match s.side {
            Side::Right => if s.col + 1 >= cols {
                (s.abs + 1, 0)
            } else {
                (s.abs, s.col + 1)
            },
            Side::Left => (s.abs, s.col),
        };
        let end: (i64, usize) = match e.side {
            Side::Left => if e.col == 0 {
                (e.abs - 1, if cols > 0 {
                    cols - 1
                } else {
                    0
                })
            } else {
                (e.abs, e.col - 1)
            },
            Side::Right => (e.abs, e.col),
        };
        if start.0 < end.0 || (start.0 == end.0 && start.1 <= end.1) {
            Some((start, end))
        } else {
            None
        }
    }
}

/// A click without a drag selects nothing.
pub proof fn click_selects_nothing(p: SelPoint, cols: int)
    ensures
        (CompositeSelection { anchor: p, head: p }).span(cols).is_none(),
{
}

/// What is selected begins no later than it ends.
pub proof fn selection_reads_forward(s: CompositeSelection, cols: int)
    ensures
        s.span(cols) matches Some((first, last)) ==> reads_before(first, last),
{
}

/// It does not matter at which end the drag began.
pub proof fn direction_does_not_matter(a: SelPoint, b: SelPoint, cols: int)
    requires
        a.abs != b.abs || a.col != b.col || a.side == b.side,
    ensures
        (CompositeSelection { anchor: a, head: b }).span(cols) == (CompositeSelection {
            anchor: b,
            head: a,
        }).span(cols),
{
}

} // verus!
