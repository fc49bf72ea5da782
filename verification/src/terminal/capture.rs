//! Reading the grid: the cursor, cells, and the text and rows of blocks.

use vstd::prelude::*;
use crate::block::{Block, FrozenView};
use crate::emulator::{GridCell, MAX_SCROLLBACK, grid_cell, in_grid, text_readable};
use crate::frozen::{FrozenBlock, lines_of};
use crate::model::{EXCERPT_LINES, is_line, without_trailing_blanks};
use crate::snapshot::CellSnapshot;
use crate::terminal::Terminal;
use crate::text::{trim, trim_end};

verus! {

/// Drop trailing blank cells from a frozen logical line — soft-wrap padding is
/// not part of the unwrapped content the line stands for.
pub fn trim_trailing_blanks(line: &mut Vec<CellSnapshot>)
    ensures
        final(line)@ == without_trailing_blanks(old(line)@),
{
    while line.len() > 0 && line[line.len() - 1].is_blank()
        invariant
            without_trailing_blanks(line@) == without_trailing_blanks(old(line)@),
        decreases line@.len(),
    {
        let _ = line.pop();
    }
}

/// A copy of a run of cells.
pub(crate) fn copy_cells(cells: &[CellSnapshot]) -> (v: Vec<CellSnapshot>)
    ensures
        v@ == cells@,
{
    let mut v: Vec<CellSnapshot> = Vec::new();
    let mut i: usize = 0;
    while i < cells.len()
        invariant
            i <= cells.len(),
            v@ == cells@.take(i as int),
        decreases cells.len() - i,
    {
        v.push(cells[i]);
        proof {
            assert(cells@.take(i + 1) =~= cells@.take(i as int).push(cells@[i as int]));
        }
        i = i + 1;
    }
    proof {
        assert(cells@.take(cells@.len() as int) =~= cells@);
    }
    v
}

impl Terminal {
    /// How many lines of history can be addressed.
    pub(super) fn depth(&self) -> (d: i64)
        ensures
            d == self@.depth(),
            0 <= d <= MAX_SCROLLBACK,
    {
        let n: usize = self.emu.history_size();
        if n > MAX_SCROLLBACK {
            MAX_SCROLLBACK as i64
        } else {
            n as i64
        }
    }

    /// The oldest line that the grid still holds.
    pub(super) fn oldest_kept(&self) -> (l: i64)
        requires
            self.wf(),
        ensures
            l == self@.oldest_kept(),
    {
        self.abs_base - self.depth()
    }

    /// The cursor's row on the screen.
    pub(super) fn cursor_row(&self) -> (r: i64)
        requires
            self.wf(),
        ensures
            r == self@.cursor_row(),
            0 <= r < self@.rows,
    {
        let line: i64 = self.emu.cursor_point().0 as i64;
        let last: i64 = self.dims.rows as i64 - 1;
        if line < 0 {
            0
        } else if line > last {
            last
        } else {
            line
        }
    }

    /// The cursor's column.
    pub(super) fn cursor_col(&self) -> (c: usize)
        requires
            self.wf(),
        ensures
            c == self@.cursor_col(),
            0 <= c < self@.cols,
    {
        let col: usize = self.emu.cursor_point().1;
        let last: usize = self.dims.cols as usize - 1;
        if col > last {
            last
        } else {
            col
        }
    }

    /// Absolute grid line of the cursor right now.
    pub(super) fn absolute_cursor_line(&self) -> (l: i64)
        requires
            self.wf(),
        ensures
            l == self@.cursor_abs(),
            is_line(l as int),
    {
        self.abs_base + self.cursor_row()
    }

    /// Clamp an absolute line to a line of the grid, so text extraction never
    /// indexes outside the retained buffer.
    pub(super) fn abs_to_grid_line(&self, abs: i64) -> (g: i32)
        requires
            self.wf(),
        ensures
            g == self@.grid_line(abs as int),
            -self@.depth() <= g < self@.rows,
            in_grid(self@.log, g as int, 0),
    {
        let g: i128 = abs as i128 - self.abs_base as i128;
        let top: i128 = 0 - self.depth() as i128;
        let bottom: i128 = self.dims.rows as i128 - 1;
        let line: i128 = if g < top {
            top
        } else if g > bottom {
            bottom
        } else {
            g
        };
        line as i32
    }

    /// A cell of the grid as it is rendered.
    pub(super) fn shown_cell(&self, line: i32, col: usize) -> (c: CellSnapshot)
        requires
            self.wf(),
            -self@.depth() <= line < self@.rows,
            col < self@.cols,
        ensures
            c == self@.shown_cell(line as int, col as int),
    {
        let cell = self.emu.cell(line, col);
        self.palette.cell_to_snapshot(&cell)
    }

    /// Whether a line of the grid continues on the next one. Soft-wrap is flagged
    /// on a row's last cell.
    pub(super) fn line_wraps(&self, line: i32) -> (b: bool)
        requires
            self.wf(),
            -self@.depth() <= line < self@.rows,
        ensures
            b == self@.wraps(line as int),
    {
        let cell = self.emu.cell(line, self.dims.cols as usize - 1);
        cell.intersects(GridCell::WRAPLINE)
    }

    /// The first `n` cells of a line of the grid, as they are rendered.
    pub(super) fn shown_row(&self, line: i32, n: usize) -> (row: Vec<CellSnapshot>)
        requires
            self.wf(),
            -self@.depth() <= line < self@.rows,
            n <= self@.cols,
        ensures
            row@ == self@.shown_row(line as int, n as int),
    {
        let mut row: Vec<CellSnapshot> = Vec::new();
        let mut c: usize = 0;
        while c < n
            invariant
                c <= n <= self@.cols,
                self.wf(),
                -self@.depth() <= line < self@.rows,
                row@ == self@.shown_row(line as int, c as int),
            decreases n - c,
        {
            row.push(self.shown_cell(line, c));
            proof {
                assert(row@ =~= self@.shown_row(line as int, c + 1));
            }
            c = c + 1;
        }
        row
    }

    /// Whether the text of these grid lines can be read.
    fn lines_readable(&self, first: i32, col: usize, last: i32) -> (b: bool)
        requires
            self.wf(),
            -self@.depth() <= first < self@.rows,
            -self@.depth() <= last < self@.rows,
        ensures
            b == text_readable(self@.log, first as int, col as int, last as int),
    {
        let cols: usize = self.dims.cols as usize;
        if col >= cols {
            return false;
        }
        if col == 0 && self.emu.cell(first, 0).intersects(GridCell::WIDE_CHAR_SPACER) {
            return false;
        }
        let mut l: i32 = first;
        while l < last
            invariant
                self.wf(),
                -self@.depth() <= first < self@.rows,
                -self@.depth() <= last < self@.rows,
                first <= l,
                l <= last || l == first,
                cols == self@.cols,
                forall|k: int|
                    first < k <= l ==> !(#[trigger] grid_cell(self@.log, k, 0)).any(
                        GridCell::WIDE_CHAR_SPACER,
                    ),
            decreases last - l,
        {
            l = l + 1;
            if self.emu.cell(l, 0).intersects(GridCell::WIDE_CHAR_SPACER) {
                proof {
                    assert(grid_cell(self@.log, l as int, 0).any(GridCell::WIDE_CHAR_SPACER));
                }
                return false;
            }
        }
        let above: bool = last as i64 - 1 >= 0 - self.depth();
        proof {
            assert(above == in_grid(self@.log, last - 1, 0));
        }
        above || !self.emu.cell(last, cols - 1).intersects(GridCell::LEADING_WIDE_CHAR_SPACER)
    }

    /// The text of the grid between absolute lines, from column `col` of the
    /// first to the end of the last.
    fn text_between(&self, first: i64, col: usize, last: i64) -> (s: String)
        requires
            self.wf(),
        ensures
            s@ == self@.text_between(first as int, col as int, last as int),
    {
        if last < first {
            return String::new();
        }
        let l0: i32 = self.abs_to_grid_line(first);
        let l1: i32 = self.abs_to_grid_line(last);
        if l1 < l0 || !self.lines_readable(l0, col, l1) {
            return String::new();
        }
        self.emu.text((l0, col), (l1, self.dims.cols as usize - 1))
    }

    /// Read the typed command text spanning `B`..`C`: output begins on `out_line`,
    /// and the command ends before it.
    pub(super) fn capture_command(&self, cmd_line: i64, cmd_col: usize, out_line: i64) -> (s: String)
        requires
            self.wf(),
            is_line(cmd_line as int),
            is_line(out_line as int),
        ensures
            s@ == self@.command_text(cmd_line as int, cmd_col as int, out_line as int),
    {
        let text = self.text_between(cmd_line, cmd_col, out_line - 1);
        trim(text.as_str())
    }

    /// Capture columns `[0, end_col)` of one absolute grid line as render-ready
    /// cells — the prompt prefix (everything before the typed command), kept with
    /// its real colors so the input band can show it in its normal style rather
    /// than a flat dim. Read at OutputStart, when the line is still on the grid.
    pub(super) fn capture_row_cells(&self, line: i64, end_col: usize) -> (v: Vec<CellSnapshot>)
        requires
            self.wf(),
            is_line(line as int),
        ensures
            v@ == self@.shown_row(
                self@.grid_line(line as int),
                crate::model::smaller(end_col as int, self@.cols),
            ),
    {
        let g: i32 = self.abs_to_grid_line(line);
        let cols: usize = self.dims.cols as usize;
        let end: usize = if end_col < cols {
            end_col
        } else {
            cols
        };
        self.shown_row(g, end)
    }

    /// Read a trailing slice of a block's output, for later suggested actions.
    pub(super) fn capture_excerpt(&self, out_line: i64, end_line: i64) -> (s: String)
        requires
            self.wf(),
            is_line(out_line as int),
            is_line(end_line as int),
        ensures
            s@ == self@.excerpt(out_line as int, end_line as int),
    {
        if end_line <= out_line {
            return String::new();
        }
        let first: i64 = if end_line - EXCERPT_LINES > out_line {
            end_line - EXCERPT_LINES
        } else {
            out_line
        };
        let text = self.text_between(first, 0, end_line - 1);
        trim_end(text.as_str())
    }

    /// Freeze a finished block into an immutable [`FrozenBlock`]: its rows
    /// (prompt→end) captured as resolved cells at the current width, plus the
    /// unwrapped logical lines for later reflow. Only retained rows are read — any
    /// head that already scrolled out of history is omitted, since those cells are
    /// gone.
    pub(super) fn freeze_block(&self, b: &Block, failed: bool, end: i64) -> (f: FrozenBlock)
        requires
            self.wf(),
            is_line(b.prompt_line as int),
            is_line(end as int),
        ensures
            f@ == (FrozenView { failed, ..self@.frozen_of(b@, end as int) }),
    {
        let cols: usize = self.dims.cols as usize;
        let oldest: i64 = self.abs_base - self.depth();
        let start: i64 = if b.prompt_line > oldest {
            b.prompt_line
        } else {
            oldest
        };
        let mut cells: Vec<CellSnapshot> = Vec::new();
        let mut logical_lines: Vec<Vec<CellSnapshot>> = Vec::new();
        let mut logical: Vec<CellSnapshot> = Vec::new();
        let mut abs: i64 = start;
        proof {
            assert(lines_of(logical_lines@) =~= Seq::empty());
        }
        while abs <= end
            invariant
                self.wf(),
                cols == self@.cols,
                is_line(end as int),
                start <= abs,
                abs <= end + 1 || abs == start,
                cells@ == self@.block_cells(start as int, abs - start),
                lines_of(logical_lines@) == self@.block_lines(start as int, abs - start).0,
                logical@ == self@.block_lines(start as int, abs - start).1,
            decreases end - abs + 1,
        {
            let g: i32 = self.abs_to_grid_line(abs);
            let wrapped: bool = self.line_wraps(g);
            let ghost c0 = cells@;
            let ghost l0 = logical@;
            let ghost d0 = lines_of(logical_lines@);
            let mut row = self.shown_row(g, cols);
            let mut copy = copy_cells(&row);
            let ghost r = row@;
            cells.append(&mut row);
            logical.append(&mut copy);
            proof {
                let n = abs - start + 1;
                assert(start + n - 1 == abs);
                assert(cells@ =~= c0 + r);
                assert(logical@ =~= l0 + r);
            }
            if !wrapped {
                trim_trailing_blanks(&mut logical);
                let ghost t = logical@;
                logical_lines.push(logical);
                logical = Vec::new();
                proof {
                    assert(lines_of(logical_lines@) =~= d0.push(t));
                }
            }
            abs = abs + 1;
        }
        // A trailing soft-wrapped run with no closing unwrapped row.
        if logical.len() > 0 {
            let ghost d0 = lines_of(logical_lines@);
            trim_trailing_blanks(&mut logical);
            let ghost t = logical@;
            logical_lines.push(logical);
            proof {
                assert(lines_of(logical_lines@) =~= d0.push(t));
            }
        }
        FrozenBlock {
            id: b.id,
            command: b.command.clone(),
            failed,
            cwd: b.cwd.clone(),
            cols: self.dims.cols,
            cells,
            logical_lines,
            blank: CellSnapshot::blank(self.palette.foreground, self.palette.background),
        }
    }
}

} // verus!
