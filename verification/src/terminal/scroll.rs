//! Scrolling through history, and moving between command blocks.

use vstd::prelude::*;
use crate::model::{LINE_BOUND, TermModel, is_line, lead};
use crate::terminal::Terminal;

verus! {

impl Terminal {
    /// Absolute line currently shown at the top of the viewport: the composite
    /// scroll position when scrolled, else the live edge.
    pub fn viewport_top_line(&self) -> (l: i64)
        requires
            self.wf(),
        ensures
            l == self@.viewport_top(),
            is_line(l as int),
    {
        match self.scroll_top_abs {
            Some(t) => t,
            None => self.abs_base,
        }
    }

    /// Oldest absolute line the composite can render. With command blocks the
    /// first block's prompt is the floor: the frozen buffers are authoritative for
    /// finished output (and outlive the grid's own scrollback), and after a reflow
    /// the raw grid history below the re-anchored stack holds the same blocks at
    /// stale positions — so it must not be reachable. Without blocks the live
    /// grid's retained-history floor applies. Never past the live edge, so it is a
    /// safe clamp lower bound.
    pub(super) fn composite_oldest_abs(&self) -> (l: i64)
        requires
            self.wf(),
        ensures
            l == self@.oldest_shown(),
            l <= self@.abs_base,
            is_line(l as int),
    {
        if self.blocks.len() > 0 {
            proof {
                assert(self@.blocks[0] == self.blocks@[0]@);
                assert(crate::model::block_lines_ok(self@.blocks[0]));
            }
            let first: i64 = self.blocks[0].prompt_line;
            if first <= self.abs_base {
                first
            } else {
                self.abs_base
            }
        } else {
            self.oldest_kept()
        }
    }

    /// Park the composite so absolute line `abs` is the top visible row, clamped to
    /// the oldest renderable line; snapping back to the live edge once `abs`
    /// reaches it.
    pub(super) fn scroll_top_to(&mut self, abs: i128)
        requires
            old(self).wf(),
        ensures
            final(self).wf(),
            final(self)@ == old(self)@.scrolled_to(abs as int),
    {
        let edge: i64 = self.abs_base;
        let oldest: i64 = self.composite_oldest_abs();
        let t: i64 = if abs < oldest as i128 {
            oldest
        } else if abs > edge as i128 {
            edge
        } else {
            abs as i64
        };
        self.scroll_top_abs = if t >= edge {
            None
        } else {
            Some(t)
        };
    }

    /// Scroll the viewport by `delta` lines (positive scrolls up, into history).
    /// Moves the composite top line; clamped to the oldest renderable line and
    /// snapping back to the live edge at the bottom.
    pub fn scroll_lines(&mut self, delta: i32)
        requires
            old(self).wf(),
        ensures
            final(self).wf(),
            final(self)@ == old(self)@.scrolled_to(old(self)@.viewport_top() - delta),
    {
        let cur: i64 = self.viewport_top_line();
        self.scroll_top_to(cur as i128 - delta as i128);
    }

    /// Scroll up one screen.
    pub fn scroll_page_up(&mut self)
        requires
            old(self).wf(),
        ensures
            final(self).wf(),
            final(self)@ == old(self)@.scrolled_to(
                old(self)@.viewport_top() - (old(self)@.rows - 1),
            ),
    {
        self.scroll_lines(self.dims.rows as i32 - 1);
    }

    /// Scroll down one screen.
    pub fn scroll_page_down(&mut self)
        requires
            old(self).wf(),
        ensures
            final(self).wf(),
            final(self)@ == old(self)@.scrolled_to(
                old(self)@.viewport_top() + (old(self)@.rows - 1),
            ),
    {
        self.scroll_lines(0 - (self.dims.rows as i32 - 1));
    }

    /// Jump to the oldest line in history.
    pub fn scroll_to_top(&mut self)
        requires
            old(self).wf(),
        ensures
            final(self).wf(),
            final(self)@ == old(self)@.scrolled_to(old(self)@.oldest_shown()),
    {
        let oldest: i64 = self.composite_oldest_abs();
        self.scroll_top_to(oldest as i128);
    }

    /// Jump back to the live edge.
    pub fn scroll_to_bottom(&mut self)
        requires
            old(self).wf(),
        ensures
            final(self).wf(),
            final(self)@ == (TermModel { scroll_top: None, ..old(self)@ }),
    {
        self.scroll_top_abs = None;
    }

    /// Whether the viewport is scrolled away from the live edge.
    pub fn is_scrolled(&self) -> (b: bool)
        ensures
            b == self@.scrolled(),
    {
        self.scroll_top_abs.is_some()
    }

    /// Scroll so the previous block's prompt sits at the top of the viewport.
    /// Returns whether there was a previous block to jump to.
    pub fn scroll_to_prev_block(&mut self) -> (found: bool)
        requires
            old(self).wf(),
        ensures
            final(self).wf(),
            match old(self)@.prev_block(old(self)@.blocks.len() as int) {
                Some(i) => found && final(self)@ == old(self)@.scrolled_to(
                    old(self)@.blocks[i].prompt_line,
                ),
                None => !found && final(self)@ == old(self)@,
            },
    {
        let top: i64 = self.viewport_top_line();
        let mut i: usize = self.blocks.len();
        while i > 0
            invariant
                self.wf(),
                self == old(self),
                i <= self@.blocks.len(),
                top == self@.viewport_top(),
                self@.prev_block(self@.blocks.len() as int) == self@.prev_block(i as int),
            decreases i,
        {
            i = i - 1;
            proof {
                assert(self@.blocks[i as int] == self.blocks@[i as int]@);
            }
            let line: i64 = self.blocks[i].prompt_line;
            if line < top {
                self.scroll_top_to(line as i128);
                return true;
            }
        }
        false
    }

    /// Scroll so the next block's prompt sits at the top of the viewport. Returns
    /// whether there was a next block to jump to.
    pub fn scroll_to_next_block(&mut self) -> (found: bool)
        requires
            old(self).wf(),
        ensures
            final(self).wf(),
            match old(self)@.next_block(0) {
                Some(i) => found && final(self)@ == old(self)@.scrolled_to(
                    old(self)@.blocks[i].prompt_line,
                ),
                None => !found && final(self)@ == old(self)@,
            },
    {
        let top: i64 = self.viewport_top_line();
        let mut i: usize = 0;
        while i < self.blocks.len()
            invariant
                self.wf(),
                self == old(self),
                i <= self@.blocks.len(),
                top == self@.viewport_top(),
                self@.next_block(0) == self@.next_block(i as int),
            decreases self@.blocks.len() - i,
        {
            proof {
                assert(self@.blocks[i as int] == self.blocks@[i as int]@);
            }
            let line: i64 = self.blocks[i].prompt_line;
            if line > top {
                self.scroll_top_to(line as i128);
                return true;
            }
            i = i + 1;
        }
        false
    }

    /// The line after the last one of block `i`.
    pub(super) fn block_end(&self, i: usize) -> (l: i64)
        requires
            self.wf(),
            i < self@.blocks.len(),
        ensures
            l == self@.block_end(i as int),
            -LINE_BOUND <= l <= LINE_BOUND + 1,
    {
        proof {
            assert(self@.blocks[i as int] == self.blocks@[i as int]@);
            assert(crate::model::block_lines_ok(self@.blocks[i as int]));
        }
        if i + 1 < self.blocks.len() {
            proof {
                assert(self@.blocks[i + 1] == self.blocks@[i + 1]@);
                assert(crate::model::block_lines_ok(self@.blocks[i + 1]));
            }
            self.blocks[i + 1].prompt_line
        } else {
            match self.blocks[i].end_line {
                Some(e) => e + 1,
                None => self.absolute_cursor_line() + 1,
            }
        }
    }

    /// The index of the block covering absolute line `abs`, if any. Blocks are
    /// contiguous: a block runs until the next block's prompt; the open block
    /// runs to its recorded end or the cursor.
    pub(super) fn block_row(&self, abs: i64) -> (r: Option<usize>)
        requires
            self.wf(),
        ensures
            match self@.block_at(abs as int) {
                Some(i) => r == Some(i as usize) && 0 <= i < self@.blocks.len(),
                None => r.is_none(),
            },
    {
        let mut count: usize = 0;
        proof {
            assert(self@.blocks.skip(0) =~= self@.blocks);
        }
        while count < self.blocks.len() && self.blocks[count].prompt_line <= abs
            invariant
                self.wf(),
                count <= self@.blocks.len(),
                lead(self@.blocks, abs as int) == count + lead(
                    self@.blocks.skip(count as int),
                    abs as int,
                ),
            decreases self@.blocks.len() - count,
        {
            proof {
                assert(self@.blocks.skip(count as int)[0] == self.blocks@[count as int]@);
                assert(self@.blocks.skip(count as int).skip(1) =~= self@.blocks.skip(count + 1));
            }
            count = count + 1;
        }
        proof {
            if count < self@.blocks.len() {
                assert(self@.blocks.skip(count as int)[0] == self.blocks@[count as int]@);
            }
            assert(lead(self@.blocks, abs as int) == count);
        }
        if count == 0 {
            return None;
        }
        let idx: usize = count - 1;
        if abs < self.block_end(idx) {
            Some(idx)
        } else {
            None
        }
    }
}

} // verus!
