//! Resizing: re-wrapping the frozen buffers and re-anchoring the blocks.

use vstd::prelude::*;
use crate::block::{Block, frozen_views};
use crate::emulator::{GridCell, TermDimensions, fits_one_column, grid_cell, in_grid, no_wide_cell};
use crate::frozen::{FrozenBlock, reflowed};
use crate::model::{LINE_BOUND, LINE_LIMIT, TermModel, line_at, pinned, stack_end, stack_height, stacked};
use crate::model_laws::{reanchoring_keeps_wf, resizing_keeps_wf, stack_in_bounds};
use crate::terminal::Terminal;

verus! {

/// `x` as a line number.
fn clamp_line(x: i128) -> (l: i64)
    ensures
        l == line_at(x as int),
{
    if x < -(LINE_LIMIT as i128) {
        -LINE_LIMIT
    } else if x > LINE_BOUND as i128 {
        LINE_BOUND
    } else {
        x as i64
    }
}

impl Terminal {
    /// Resize the grid to `cols` × `rows` cells. The frozen blocks are re-wrapped
    /// to the new width and the block stack re-anchored against the re-wrapped
    /// grid, so command-block scrollback survives the resize.
    ///
    /// A grid with double-width glyphs is never made one column wide;
    /// [`Terminal::try_resize`] tests that.
    pub fn resize(&mut self, cols: u16, rows: u16)
        requires
            old(self).wf(),
            old(self)@.fits(cols),
        ensures
            final(self).wf(),
            final(self)@ == old(self)@.resized(cols, rows),
    {
        proof {
            resizing_keeps_wf(self@, cols, rows);
        }
        self.dims = TermDimensions::new(cols, rows);
        self.emu.resize(self.dims);
        // Reflow renumbers lines; rebase the scroll baseline to the new history
        // depth so the next chunk's delta is measured from solid ground.
        self.prev_history = self.emu.history_size();
        self.prev_alt = self.alt_screen();
        self.pending_cwd = None;
        let ghost m = self@;
        proof {
            let base = old(self)@;
            let log = m.log;
            assert(crate::emulator::log_size(log) == (m.cols, m.rows));
            reveal(crate::emulator::fed_chunks);
            assert(log.drop_last() =~= base.log);
            assert(m.wf());
        }
        self.reanchor_blocks_for_reflow(cols);
    }

    /// Resize the grid where it can take the new size, and say whether it could: one
    /// with double-width glyphs refuses to be one column wide, and is left as it was.
    pub fn try_resize(&mut self, cols: u16, rows: u16) -> (taken: bool)
        requires
            old(self).wf(),
        ensures
            final(self).wf(),
            taken == old(self)@.fits(cols),
            final(self)@ == if taken {
                old(self)@.resized(cols, rows)
            } else {
                old(self)@
            },
    {
        if cols < 2 && !self.fits_one_column() {
            return false;
        }
        self.resize(cols, rows);
        true
    }

    /// Whether the grid can be one column wide. What the main screen holds while the
    /// other one is up cannot be read, so then any double-width glyph counts that it
    /// was shown since the last reset.
    fn fits_one_column(&self) -> (b: bool)
        requires
            self.wf(),
        ensures
            b == fits_one_column(self@.log),
    {
        self.dims.cols == 1 || !self.glyphs.wide || (!self.alt_screen() && self.no_wide_cell())
    }

    /// Whether the grid has no cell with a double-width glyph.
    fn no_wide_cell(&self) -> (b: bool)
        requires
            self.wf(),
        ensures
            b == no_wide_cell(self@.log),
    {
        let top: i64 = 0 - self.depth();
        let rows: i64 = self.dims.rows as i64;
        let mut line: i64 = top;
        while line < rows
            invariant
                self.wf(),
                top == -self@.depth(),
                rows == self@.rows,
                top <= line <= rows,
                forall|l: int, c: int|
                    l < line && in_grid(self@.log, l, c) ==> !(#[trigger] grid_cell(self@.log, l, c)).any(
                        GridCell::WIDE_CHAR,
                    ),
            decreases rows - line,
        {
            let mut col: usize = 0;
            while col < self.dims.cols as usize
                invariant
                    self.wf(),
                    top == -self@.depth(),
                    rows == self@.rows,
                    top <= line < rows,
                    col <= self@.cols,
                    forall|l: int, c: int|
                        (l < line || (l == line && c < col)) && in_grid(self@.log, l, c) ==> !(
                        #[trigger] grid_cell(self@.log, l, c)).any(GridCell::WIDE_CHAR),
                decreases self.dims.cols - col,
            {
                if self.emu.cell(line as i32, col).intersects(GridCell::WIDE_CHAR) {
                    return false;
                }
                col = col + 1;
            }
            line = line + 1;
        }
        true
    }

    /// Whether every finished block has its buffer at the same place in the list.
    fn blocks_aligned(&self) -> (b: bool)
        requires
            self.wf(),
            self@.blocks.len() > 0,
        ensures
            b == self@.aligned(),
    {
        let n: usize = self.blocks.len();
        proof {
            assert(self@.blocks.last() == self.blocks@[n - 1]@);
        }
        let finished: usize = if self.blocks[n - 1].end_line.is_none() {
            n - 1
        } else {
            n
        };
        if finished != self.frozen.len() {
            return false;
        }
        let mut i: usize = 0;
        while i < self.frozen.len()
            invariant
                self.wf(),
                i <= self.frozen@.len() <= self.blocks@.len(),
                forall|k: int| 0 <= k < i ==> (#[trigger] self@.frozen[k]).id == self@.blocks[k].id,
            decreases self.frozen@.len() - i,
        {
            proof {
                assert(self@.frozen[i as int] == self.frozen@[i as int]@);
                assert(self@.blocks[i as int] == self.blocks@[i as int]@);
            }
            if self.blocks[i].id != self.frozen[i].id {
                return false;
            }
            i = i + 1;
        }
        true
    }

    /// Re-wrap every frozen buffer to `cols`.
    fn reflow_frozen(&mut self, cols: u16)
        ensures
            final(self)@ == (TermModel {
                frozen: old(self)@.reflowed_frozen(cols as int),
                ..old(self)@
            }),
            final(self).ahead() == old(self).ahead(),
    {
        let ghost f0 = self@.frozen;
        let ghost want = self@.reflowed_frozen(cols as int);
        let mut from: Vec<FrozenBlock> = Vec::new();
        std::mem::swap(&mut from, &mut self.frozen);
        let ghost src = from@;
        let mut done: Vec<FrozenBlock> = Vec::new();
        proof {
            assert(frozen_views(done@) =~= want.take(0));
        }
        for f in it: from
            invariant
                it.seq() == src,
                f0 == frozen_views(src),
                want.len() == src.len(),
                forall|k: int|
                    0 <= k < src.len() ==> #[trigger] want[k] == (crate::block::FrozenView {
                        cols: cols as int,
                        cells: reflowed(f0[k].lines, cols as int, f0[k].blank),
                        ..f0[k]
                    }),
                frozen_views(done@) == want.take(it.index() as int),
        {
            let ghost k = it.index() as int;
            let ghost before = frozen_views(done@);
            let ghost fv = f@;
            let mut g = f;
            g.reflow(cols);
            proof {
                assert(f0[k] == src[k]@);
                assert(g@ == want[k]);
            }
            let ghost gv = g@;
            done.push(g);
            proof {
                assert(frozen_views(done@) =~= before.push(gv));
                assert(want.take(k).push(want[k]) =~= want.take(k + 1));
            }
        }
        proof {
            assert(want.take(want.len() as int) =~= want);
        }
        self.frozen = done;
    }

    /// Reflow the frozen buffers to `cols` and rebuild the block anchors against
    /// the reflowed live grid. A reflow renumbers the grid (and so invalidates the
    /// absolute anchors the composite addresses blocks by), and there's no way to
    /// recover where the old OSC marks landed — so re-derive the anchors: stack
    /// the (reflowed) frozen blocks contiguously, ending just above the open
    /// block's prompt, so finished output renders from the frozen buffers and the
    /// live grid only backs the active region. Falls back to clearing the whole
    /// block model if the buffers are not aligned with the blocks.
    fn reanchor_blocks_for_reflow(&mut self, cols: u16)
        requires
            old(self).wf(),
        ensures
            final(self).wf(),
            final(self)@ == old(self)@.reanchored(cols as int),
    {
        let ghost m0 = self@;
        proof {
            reanchoring_keeps_wf(m0, cols as int);
        }
        if self.blocks.len() == 0 || !self.blocks_aligned() {
            self.blocks = Vec::new();
            self.frozen = Vec::new();
            proof {
                assert(self@.blocks =~= Seq::empty());
                assert(self@.frozen =~= Seq::empty());
            }
            return ;
        }
        let n: usize = self.blocks.len();
        proof {
            assert(m0.blocks.last() == self.blocks@[n - 1]@);
        }
        let has_open: bool = self.blocks[n - 1].end_line.is_none();
        // At a resting prompt the prompt sits on the cursor's line, so the frozen
        // stack ends just above it (and covers the on-screen finished tails, which
        // therefore render from frozen — no double-draw). While a command runs (or
        // in the brief gap with no open block) the prompt position is unrecoverable,
        // so anchor at the active-region top.
        let base: i64 = if has_open && !self.command_running() && !self.alt_screen() {
            self.absolute_cursor_line()
        } else {
            self.abs_base
        };
        proof {
            assert(base == m0.reflow_base());
        }
        self.reflow_frozen(cols);
        let ghost frozen = m0.reflowed_frozen(cols as int);
        let ghost want = m0.reanchored(cols as int).blocks;
        // Stack the finished blocks upward from `base - 1`, newest first: rebuild
        // the list from its end.
        let mut old_blocks: Vec<Block> = Vec::new();
        std::mem::swap(&mut old_blocks, &mut self.blocks);
        proof {
            assert(self@.blocks =~= Seq::empty());
        }
        let mut rev: Vec<Block> = Vec::new();
        if has_open {
            if let Some(mut b) = old_blocks.pop() {
                proof {
                    assert(b@ == m0.blocks[n - 1]);
                    assert(crate::model::block_lines_ok(m0.blocks[n - 1]));
                }
                b.output_line = match b.output_line {
                    Some(o) => {
                        let off: i128 = if o > b.prompt_line {
                            o as i128 - b.prompt_line as i128
                        } else {
                            0
                        };
                        Some(clamp_line(base as i128 + off))
                    },
                    None => None,
                };
                b.prompt_line = base;
                proof {
                    assert(b@ == pinned(m0.blocks[n - 1], base as int));
                    assert(want[n - 1] == b@);
                }
                rev.push(b);
            }
        }
        let mut i: usize = self.frozen.len();
        let mut end: i64 = base - 1;
        proof {
            assert(self.frozen@.len() == frozen.len());
            assert(forall|j: int| 0 <= j < old_blocks@.len() ==> #[trigger] old_blocks@[j]@ == m0.blocks[j]);
            if frozen.len() > 0 {
                assert(end == stack_end(frozen, base as int, frozen.len() - 1));
            }
        }
        while i > 0
            invariant
                m0.wf(),
                i <= frozen.len(),
                frozen.len() <= n,
                n == m0.blocks.len(),
                n - frozen.len() == if has_open {
                    1int
                } else {
                    0
                },
                frozen == m0.reflowed_frozen(cols as int),
                self@.frozen == frozen,
                self.ahead() == old(self).ahead(),
                self@ == (TermModel { frozen, blocks: Seq::empty(), ..m0 }),
                0 <= base <= LINE_LIMIT + 65535,
                i > 0 ==> end == stack_end(frozen, base as int, i - 1),
                want.len() == n,
                want == m0.reanchored(cols as int).blocks,
                m0.aligned(),
                m0.blocks.len() > 0,
                base == m0.reflow_base(),
                old_blocks@.len() == i,
                forall|j: int| 0 <= j < i ==> #[trigger] old_blocks@[j]@ == m0.blocks[j],
                rev@.len() == n - i,
                forall|j: int| 0 <= j < rev@.len() ==> #[trigger] rev@[j]@ == want[n - 1 - j],
            decreases i,
        {
            i = i - 1;
            proof {
                assert(self@.frozen[i as int] == self.frozen@[i as int]@);
                assert(crate::model::block_lines_ok(m0.blocks[i as int]));
                stack_in_bounds(frozen, base as int, i as int);
            }
            let rows: usize = self.frozen[i].rows();
            let height: i64 = if rows == 0 {
                1
            } else if rows as u64 > i64::MAX as u64 {
                i64::MAX
            } else {
                rows as i64
            };
            proof {
                assert(self.frozen@[i as int].row_count() == self.frozen@[i as int]@.row_count());
                assert(height == stack_height(frozen[i as int]));
            }
            let start: i64 = clamp_line(end as i128 - (height as i128 - 1));
            if let Some(mut b) = old_blocks.pop() {
                proof {
                    assert(b@ == m0.blocks[i as int]);
                }
                b.output_line = match b.output_line {
                    Some(o) => {
                        let d: i128 = o as i128 - b.prompt_line as i128;
                        let last: i128 = height as i128 - 1;
                        let off: i128 = if d < 0 {
                            0
                        } else if d > last {
                            last
                        } else {
                            d
                        };
                        Some(clamp_line(start as i128 + off))
                    },
                    None => None,
                };
                b.prompt_line = start;
                b.end_line = Some(end);
                proof {
                    assert(b@ == stacked(m0.blocks[i as int], frozen, base as int, i as int));
                    assert(want[i as int] == b@);
                }
                rev.push(b);
            }
            end = start - 1;
        }
        // Put them back oldest first.
        let mut blocks: Vec<Block> = Vec::new();
        while rev.len() > 0
            invariant
                n == want.len(),
                rev@.len() <= n,
                blocks@.len() + rev@.len() == n,
                forall|j: int| 0 <= j < rev@.len() ==> #[trigger] rev@[j]@ == want[n - 1 - j],
                forall|j: int| 0 <= j < blocks@.len() ==> #[trigger] blocks@[j]@ == want[j],
            decreases rev@.len(),
        {
            let ghost k = rev@.len() - 1;
            if let Some(b) = rev.pop() {
                proof {
                    assert(b@ == want[n - 1 - k]);
                }
                blocks.push(b);
            }
        }
        self.blocks = blocks;
        proof {
            assert(self@.blocks =~= want);
        }
    }
}

} // verus!
