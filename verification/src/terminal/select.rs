//! Reading lines through the composite of frozen buffers and the live grid, and
//! the text selection over it.

use vstd::prelude::*;
use crate::model::{TermModel, cells_text, is_line, larger, marked, overlaid, row_of};
use crate::selection::{CompositeSelection, SelPoint, side};
use crate::snapshot::{CellFlags, CellSnapshot};
use crate::terminal::Terminal;
use crate::text::{chars_of, join_on, string_of, trim, trim_end_chars};

verus! {

/// A row of `n` equal cells.
pub(super) fn row_filled(cell: CellSnapshot, n: usize) -> (row: Vec<CellSnapshot>)
    ensures
        row@ == row_of(cell, n as int),
{
    let row = vec![cell; n];
    proof {
        assert(row@ =~= row_of(cell, n as int));
    }
    row
}

/// Lay `over` on the start of `row`.
pub(super) fn overlay(row: &mut Vec<CellSnapshot>, over: &[CellSnapshot])
    ensures
        final(row)@ == overlaid(old(row)@, over@),
{
    let ghost want = overlaid(row@, over@);
    let n: usize = if over.len() < row.len() {
        over.len()
    } else {
        row.len()
    };
    let mut i: usize = 0;
    while i < n
        invariant
            i <= n <= row@.len(),
            n <= over@.len(),
            row@.len() == old(row)@.len(),
            forall|k: int| 0 <= k < i ==> #[trigger] row@[k] == over@[k],
            forall|k: int| i <= k < row@.len() ==> #[trigger] row@[k] == old(row)@[k],
        decreases n - i,
    {
        row[i] = over[i];
        i = i + 1;
    }
    proof {
        assert(row@ =~= want);
    }
}

/// The characters of a run of cells, without those of the spacers.
fn text_of_cells(cells: &[CellSnapshot]) -> (v: Vec<char>)
    ensures
        v@ == cells_text(cells@),
{
    let mut v: Vec<char> = Vec::new();
    let mut i: usize = 0;
    while i < cells.len()
        invariant
            i <= cells.len(),
            v@ == cells_text(cells@.take(i as int)),
        decreases cells.len() - i,
    {
        proof {
            assert(cells@.take(i + 1).drop_last() =~= cells@.take(i as int));
        }
        if !cells[i].flags.contains(CellFlags::WIDE_SPACER) {
            v.push(cells[i].c);
        }
        i = i + 1;
    }
    proof {
        assert(cells@.take(cells@.len() as int) =~= cells@);
    }
    v
}

impl Terminal {
    /// A blank cell in the default colors.
    pub(super) fn blank(&self) -> (c: CellSnapshot)
        ensures
            c == self@.blank(),
    {
        CellSnapshot::blank(self.palette.foreground, self.palette.background)
    }

    /// The cells of one composite line: from a finished block's frozen buffer when
    /// `abs` lands inside one, else from the live grid. Out-of-range lines are
    /// blank.
    pub(super) fn composite_row(&self, abs: i64) -> (row: Vec<CellSnapshot>)
        requires
            self.wf(),
        ensures
            row@ == self@.composite_row(abs as int),
            row@.len() == self@.cols,
    {
        let cols: usize = self.dims.cols as usize;
        let mut row = row_filled(self.blank(), cols);
        if let Some(idx) = self.block_row(abs) {
            if self.frozen_backed(idx) {
                let ghost f = self@.frozen[idx as int];
                proof {
                    assert(self@.blocks[idx as int] == self.blocks@[idx as int]@);
                    assert(f == self.frozen@[idx as int]@);
                    assert(crate::model::block_lines_ok(self@.blocks[idx as int]));
                }
                let fb = &self.frozen[idx];
                // The buffer's last row is the block's end line; map back from
                // there so a clipped head (rows lost to history) lines up.
                if let Some(end) = self.blocks[idx].end_line {
                    let up: i128 = end as i128 - abs as i128;
                    let rows: usize = fb.rows();
                    proof {
                        assert(rows == f.row_count());
                    }
                    if up >= 0 && up < rows as i128 {
                        let k: usize = rows - 1 - up as usize;
                        if let Some(src) = fb.row(k) {
                            overlay(&mut row, src);
                            proof {
                                assert(src@ == f.row(k as int));
                            }
                        }
                    }
                }
                return row;
            }
        }
        let g: i128 = abs as i128 - self.abs_base as i128;
        if g < 0 - self.depth() as i128 || g > self.dims.rows as i128 - 1 {
            return row;
        }
        self.shown_row(g as i32, cols)
    }

    /// Concatenate the composite cells in the inclusive `(abs, col)` range
    /// `start..=end` (reading order) as text: each absolute line right-trimmed,
    /// wide-glyph spacers dropped, lines joined by `\n`. Shared by selection copy
    /// and whole-block copy.
    pub(super) fn composite_text(&self, start: (i64, usize), end: (i64, usize)) -> (s: String)
        requires
            self.wf(),
            end.0 < i64::MAX,
        ensures
            s@ == self@.range_text((start.0 as int, start.1 as int), (end.0 as int, end.1 as int)),
    {
        let cols: usize = self.dims.cols as usize;
        let mut out: Vec<char> = Vec::new();
        let mut abs: i64 = start.0;
        let ghost a = (start.0 as int, start.1 as int);
        let ghost b = (end.0 as int, end.1 as int);
        let ghost m = self@;
        proof {
            assert(m.range_lines(a, b, 0) =~= Seq::empty());
        }
        while abs <= end.0
            invariant
                self.wf(),
                m == self@,
                cols == m.cols,
                a == (start.0 as int, start.1 as int),
                b == (end.0 as int, end.1 as int),
                start.0 <= abs,
                end.0 < i64::MAX,
                abs <= end.0 + 1 || abs == start.0,
                out@ == join_on(m.range_lines(a, b, abs - start.0), seq!['\n']),
            decreases end.0 - abs + 1,
        {
            let row = self.composite_row(abs);
            let lo: usize = if abs == start.0 {
                start.1
            } else {
                0
            };
            let hi: usize = if abs == end.0 {
                end.1
            } else {
                cols - 1
            };
            let mut line: Vec<char> = if lo <= hi && hi < cols {
                let part = row.as_slice();
                let mut t = text_of_cells(&part[lo..hi + 1]);
                trim_end_chars(&mut t);
                t
            } else {
                Vec::new()
            };
            let ghost n = abs - start.0;
            let ghost lines = m.range_lines(a, b, n);
            let ghost next = m.range_lines(a, b, n + 1);
            let ghost before = out@;
            let ghost lv = line@;
            proof {
                assert(lv =~= m.line_text(abs as int, lo as int, hi as int));
                assert(next.last() == lv);
                assert(next.drop_last() =~= lines);
            }
            if abs > start.0 {
                out.push('\n');
            }
            out.append(&mut line);
            proof {
                if n == 0 {
                    assert(before =~= Seq::empty());
                    assert(next.len() == 1);
                    assert(out@ =~= next[0]);
                } else {
                    assert(out@ =~= before + seq!['\n'] + lv);
                }
            }
            abs = abs + 1;
        }
        proof {
            assert(abs - start.0 == larger(end.0 - start.0 + 1, 0));
        }
        string_of(&out)
    }

    /// The full text (prompt through output) of the block currently at the top
    /// of the viewport, for copy-block. Reads through the composite, so a block
    /// that has scrolled out of the live grid still copies from its frozen buffer.
    pub fn current_block_text(&self) -> (s: Option<String>)
        requires
            self.wf(),
        ensures
            match self@.top_block_text() {
                Some(t) => s.is_some() && s->0@ == t,
                None => s.is_none(),
            },
    {
        let top: i64 = self.viewport_top_line();
        let idx: usize = match self.block_row(top) {
            Some(i) => i,
            None => {
                return None;
            },
        };
        proof {
            assert(self@.blocks[idx as int] == self.blocks@[idx as int]@);
            assert(crate::model::block_lines_ok(self@.blocks[idx as int]));
        }
        let start: i64 = self.blocks[idx].prompt_line;
        let end: i64 = self.block_end(idx);
        let text = self.composite_text((start, 0), (end - 1, self.dims.cols as usize - 1));
        let mut chars = chars_of(text.as_str());
        trim_end_chars(&mut chars);
        if chars.len() == 0 {
            None
        } else {
            Some(string_of(&chars))
        }
    }

    // --- selection ---

    /// Begin a linear selection at a viewport cell.
    pub fn selection_start(&mut self, col: u16, row: u16, right_half: bool)
        requires
            old(self).wf(),
        ensures
            final(self).wf(),
            ({
                let p = old(self)@.point_at(col as int, row as int, right_half);
                final(self)@ == (TermModel {
                    sel: Some(CompositeSelection { anchor: p, head: p }),
                    ..old(self)@
                })
            }),
    {
        let p = self.viewport_to_abs(col, row, right_half);
        self.sel = Some(CompositeSelection { anchor: p, head: p });
    }

    /// Extend the in-progress selection to a viewport cell.
    pub fn selection_update(&mut self, col: u16, row: u16, right_half: bool)
        requires
            old(self).wf(),
        ensures
            final(self).wf(),
            final(self)@ == (TermModel {
                sel: match old(self)@.sel {
                    Some(s) => Some(
                        CompositeSelection {
                            anchor: s.anchor,
                            head: old(self)@.point_at(col as int, row as int, right_half),
                        },
                    ),
                    None => None,
                },
                ..old(self)@
            }),
    {
        let p = self.viewport_to_abs(col, row, right_half);
        self.sel = match self.sel {
            Some(s) => Some(CompositeSelection { anchor: s.anchor, head: p }),
            None => None,
        };
    }

    /// Clear any active selection.
    pub fn selection_clear(&mut self)
        requires
            old(self).wf(),
        ensures
            final(self).wf(),
            final(self)@ == (TermModel { sel: None, ..old(self)@ }),
    {
        self.sel = None;
    }

    /// The first and last selected cell.
    pub(super) fn selection_span(&self) -> (r: Option<((i64, usize), (i64, usize))>)
        requires
            self.wf(),
        ensures
            match self@.sel {
                Some(s) => match (s.span(self@.cols), r) {
                    (Some((first, last)), Some((a, b))) => a.0 == first.0 && a.1 == first.1 && b.0
                        == last.0 && b.1 == last.1,
                    (None, None) => true,
                    _ => false,
                },
                None => r.is_none(),
            },
            match r {
                Some((a, b)) => b.0 < i64::MAX,
                None => true,
            },
    {
        match self.sel {
            Some(s) => s.bounds(self.dims.cols as usize),
            None => None,
        }
    }

    /// The selected text, if the selection is non-empty. Walks the selected
    /// absolute lines through the composite, so it reads frozen block buffers and
    /// the live grid identically — a selection can span the frozen/live boundary.
    /// Each visual line is right-trimmed and joined by `\n`.
    pub fn selection_text(&self) -> (s: Option<String>)
        requires
            self.wf(),
        ensures
            match self@.selected_text() {
                Some(t) => s.is_some() && s->0@ == t,
                None => s.is_none(),
            },
    {
        match self.selection_span() {
            Some((start, end)) => {
                let text = self.composite_text(start, end);
                let t = trim(text.as_str());
                if chars_of(t.as_str()).len() == 0 {
                    None
                } else {
                    Some(text)
                }
            },
            None => None,
        }
    }

    /// Map a viewport cell to a composite selection endpoint (absolute line +
    /// column + which cell-half the pointer fell on). The line math mirrors the
    /// snapshot's row→line mapping (scrolled: straight onto the composite line;
    /// live edge: undo the bottom-anchor shift) but yields an absolute line, so the
    /// selection lives in the same coordinate space as the composite.
    fn viewport_to_abs(&self, col: u16, row: u16, right_half: bool) -> (p: SelPoint)
        requires
            self.wf(),
        ensures
            p == self@.point_at(col as int, row as int, right_half),
            is_line(p.abs as int),
            p.col <= 65535,
    {
        let max_col: u16 = self.dims.cols - 1;
        let abs: i64 = match self.scroll_top_abs {
            Some(top) => top + row as i64,
            None => self.abs_base + row as i64 - self.display_shift(),
        };
        let c: u16 = if col < max_col {
            col
        } else {
            max_col
        };
        SelPoint { abs, col: c as usize, side: side(right_half) }
    }

    /// `row`, as line `abs`, with its selected cells flagged.
    pub(super) fn flag_selection(
        &self,
        row: &mut Vec<CellSnapshot>,
        abs: i64,
        span: Option<((i64, usize), (i64, usize))>,
    )
        requires
            match self@.sel {
                Some(s) => match (s.span(self@.cols), span) {
                    (Some((first, last)), Some((a, b))) => a.0 == first.0 && a.1 == first.1 && b.0
                        == last.0 && b.1 == last.1,
                    (None, None) => true,
                    _ => false,
                },
                None => span.is_none(),
            },
        ensures
            final(row)@ == self@.with_selection(old(row)@, abs as int),
    {
        let ghost want = self@.with_selection(row@, abs as int);
        if let Some((a, b)) = span {
            let mut c: usize = 0;
            while c < row.len()
                invariant
                    c <= row@.len(),
                    row@.len() == old(row)@.len(),
                    match self@.sel {
                        Some(s) => s.span(self@.cols) == Some(
                            ((a.0 as int, a.1 as int), (b.0 as int, b.1 as int)),
                        ),
                        None => false,
                    },
                    forall|k: int|
                        0 <= k < c ==> #[trigger] row@[k] == marked(
                            old(row)@[k],
                            self@.selected(abs as int, k),
                        ),
                    forall|k: int| c <= k < row@.len() ==> #[trigger] row@[k] == old(row)@[k],
                decreases row@.len() - c,
            {
                let after: bool = a.0 < abs || (a.0 == abs && a.1 <= c);
                let before: bool = abs < b.0 || (abs == b.0 && c <= b.1);
                if after && before {
                    let mut cell = row[c];
                    cell.flags.insert(CellFlags::SELECTED);
                    row[c] = cell;
                }
                c = c + 1;
            }
        }
        proof {
            assert(row@ =~= want);
        }
    }
}

} // verus!
