//! The pinned input band: how tall it is, how it pushes the output up, and what
//! its rows hold.

use vstd::prelude::*;
use crate::decimal::to_decimal;
use crate::emulator::{MODE_SHOW_CURSOR, grid_cell};
use crate::layout::{width_of_text, wrap_chunks, write_row, written};
use crate::model::{BOTTOM_GUTTER, MAX_QUEUE_ROWS, clamp, larger, overlaid, row_of, smaller};
use crate::resolve::occupied;
use crate::snapshot::{CellFlags, CellSnapshot, CursorShape, CursorSnapshot};
use crate::terminal::Terminal;
use crate::terminal::select::{overlay, row_filled};
use crate::text::{char_rows, chars_of, string_of};

verus! {

/// The typed text, wrapped: its rows, and whether the caret has a row of its own.
pub(super) struct TypedRows {
    pub chunks: Vec<Vec<char>>,
    pub spills: bool,
}

impl Terminal {
    /// The rows of the typed text.
    pub(super) fn typed_rows(&self) -> (t: TypedRows)
        requires
            self.wf(),
        ensures
            char_rows(t.chunks@) == self@.band_chunks(),
            t.spills == self@.band_spills(),
            t.chunks@.len() >= 1,
    {
        let source = self.band_input_source();
        let (chunks, spills) = wrap_chunks(
            self.band_prefix_width(),
            &source,
            self.dims.cols as usize,
        );
        TypedRows { chunks, spills }
    }

    /// Display width of the captured prompt prefix that leads the running
    /// type-ahead field, clamped to the grid (each prefix cell is one column).
    pub(super) fn band_prefix_width(&self) -> (w: usize)
        requires
            self.wf(),
        ensures
            w == self@.prefix_width(),
            w <= self@.cols,
    {
        let cols: usize = self.dims.cols as usize;
        let n: usize = self.blocks.len();
        if n == 0 {
            return 0;
        }
        proof {
            assert(self@.blocks.last() == self.blocks@[n - 1]@);
        }
        let w: usize = self.blocks[n - 1].prompt_prefix.len();
        if w < cols {
            w
        } else {
            cols
        }
    }

    /// The typed input as it is rendered into the band: the text itself, or one
    /// bullet per character when masked (no-echo).
    fn band_input_source(&self) -> (v: Vec<char>)
        ensures
            v@ == self@.band_text(),
    {
        let input = chars_of(self.band.input.as_str());
        if self.band.masked {
            let v = vec!['\u{2022}'; input.len()];
            proof {
                assert(v@ =~= self@.band_text());
            }
            v
        } else {
            input
        }
    }

    /// Visual rows the running type-ahead field needs once soft-wrapped at the
    /// grid width: the prompt prefix plus the typed input, up to `max`. One row
    /// when it fits a single line or nothing is typed (the running command shows
    /// as a one-row placeholder).
    fn band_input_height(&self, max: i64) -> (h: i64)
        requires
            self.wf(),
            1 <= max <= 65535,
        ensures
            h == clamp(self@.band_height(), 1, max as int),
    {
        if chars_of(self.band.input.as_str()).len() == 0 {
            return 1;
        }
        let t = self.typed_rows();
        proof {
            assert(t.chunks@.len() == self@.band_chunks().len());
        }
        if t.chunks.len() >= max as usize {
            max
        } else {
            t.chunks.len() as i64 + if t.spills {
                1
            } else {
                0
            }
        }
    }

    /// Grid-row span `(top, bottom)` of the resting prompt's logical input — the
    /// soft-wrapped command line the cursor sits on. `bottom` follows soft-wrap
    /// down from the cursor; `top` is the open block's command line (where input
    /// begins) when shell integration provides it, else the soft-wrap predecessors
    /// of the cursor. Bounded so the band always leaves one content row. A single
    /// row when the input does not wrap.
    pub(super) fn resting_input_span(&self) -> (s: (i64, i64))
        requires
            self.wf(),
        ensures
            s.0 == self@.input_top(),
            s.1 == self@.input_bottom(),
            s.0 <= s.1,
            -self@.depth() <= s.0,
            0 <= s.1 < self@.rows,
            s.1 - s.0 + 1 <= larger(self@.rows - 1, 1),
    {
        let cursor: i64 = self.cursor_row();
        let last: i64 = self.dims.rows as i64 - 1;
        let mut bottom: i64 = cursor;
        while bottom < last && self.line_wraps(bottom as i32)
            invariant
                self.wf(),
                cursor == self@.cursor_row(),
                last == self@.rows - 1,
                0 <= cursor <= bottom <= last,
                self@.run_bottom(cursor as int) == self@.run_bottom(bottom as int),
            decreases last - bottom,
        {
            bottom = bottom + 1;
        }
        let n: usize = self.blocks.len();
        proof {
            if n > 0 {
                assert(self@.blocks.last() == self.blocks@[n - 1]@);
                assert(crate::model::block_lines_ok(self@.blocks[n - 1]));
            }
        }
        let top: i64 = if n > 0 && self.blocks[n - 1].end_line.is_none() {
            let g: i64 = self.abs_to_grid_line(self.blocks[n - 1].command_line) as i64;
            if g < cursor {
                g
            } else {
                cursor
            }
        } else {
            let mut t: i64 = cursor;
            while t > 0 && self.line_wraps((t - 1) as i32)
                invariant
                    self.wf(),
                    0 <= t <= cursor < self@.rows,
                    self@.run_top(cursor as int) == self@.run_top(t as int),
                decreases t,
            {
                t = t - 1;
            }
            t
        };
        // Leave at least one content row above the band.
        let max_h: i64 = if last > 1 {
            last
        } else {
            1
        };
        let floor: i64 = bottom - (max_h - 1);
        let t1: i64 = if top > floor {
            top
        } else {
            floor
        };
        let t2: i64 = if t1 < bottom {
            t1
        } else {
            bottom
        };
        (t2, bottom)
    }

    /// Rows to reserve at the bottom for the pinned input band: the input line plus
    /// one row per queued command (stacked above it). Queued commands add rows
    /// whenever the queue is non-empty, pushing the console up. The band is ruled
    /// out on the alt screen and in scrollback (laid out plainly there), and on a
    /// degenerate 1-row grid. Capped to leave at least one content row.
    pub(super) fn input_band_rows(&self) -> (b: i64)
        requires
            self.wf(),
        ensures
            b == self@.band_rows(),
            0 <= b < self@.rows,
    {
        if self.dims.rows <= 1 || self.is_scrolled() || self.alt_screen() {
            return 0;
        }
        let max_total: i64 = self.dims.rows as i64 - 1;
        let input: i64 = self.clamped_input_height(max_total);
        let room: i64 = max_total - input;
        let queued: usize = self.band.queued.len();
        let want: i64 = if queued < MAX_QUEUE_ROWS {
            queued as i64
        } else {
            MAX_QUEUE_ROWS as i64
        };
        let queue: i64 = if want < room {
            want
        } else {
            room
        };
        input + queue
    }

    /// The rows of the input line, at least one and at most `max`.
    pub(super) fn clamped_input_height(&self, max: i64) -> (h: i64)
        requires
            self.wf(),
            1 <= max <= 65535,
        ensures
            h == clamp(self@.input_height(), 1, max as int),
    {
        if self.command_running() {
            self.band_input_height(max)
        } else {
            let (top, bottom) = self.resting_input_span();
            let h: i64 = bottom - top + 1;
            if h > max {
                max
            } else {
                h
            }
        }
    }

    /// Whether a grid row shows anything.
    fn row_occupied(&self, line: i32) -> (b: bool)
        requires
            self.wf(),
            0 <= line < self@.rows,
        ensures
            b == self@.row_occupied(line as int),
    {
        let cols: usize = self.dims.cols as usize;
        let mut c: usize = 0;
        while c < cols
            invariant
                self.wf(),
                c <= cols,
                cols == self@.cols,
                0 <= line < self@.rows,
                forall|k: int|
                    0 <= k < c ==> !occupied(
                        self@.palette,
                        #[trigger] grid_cell(self@.log, line as int, k),
                    ),
            decreases cols - c,
        {
            let cell = self.emu.cell(line, c);
            if self.palette.is_occupied(&cell) {
                proof {
                    assert(occupied(self@.palette, grid_cell(self@.log, line as int, c as int)));
                }
                return true;
            }
            c = c + 1;
        }
        false
    }

    /// The lowest occupied visible row at the live edge: the cursor's row or the
    /// last row carrying visible content, whichever is lower (0-based screen row).
    fn content_bottom(&self) -> (b: i64)
        requires
            self.wf(),
        ensures
            b == self@.content_bottom(),
            self@.cursor_row() <= b < self@.rows,
    {
        let cursor: i64 = self.cursor_row();
        let mut line: i64 = self.dims.rows as i64 - 1;
        while line > cursor
            invariant
                self.wf(),
                cursor == self@.cursor_row(),
                0 <= cursor <= line < self@.rows,
                self@.content_bottom() == self@.lowest(line as int),
            decreases line - cursor,
        {
            if self.row_occupied(line as i32) {
                return line;
            }
            line = line - 1;
        }
        cursor
    }

    /// Blank rows to reserve above the output region so it rests just above the
    /// pinned input band. The live input line is relocated into the band and holds
    /// still there, so the output below is laid out **like a conventional
    /// terminal**: it hugs the band, fills upward, and scrolls the oldest visible
    /// row off the top once it grows past the grid. The reserve shrinks (then the
    /// offset goes negative) as output fills, clamped at `-band`. Scrolled history
    /// and the alternate screen are laid out plainly, so it returns 0 there.
    pub(super) fn display_shift(&self) -> (s: i64)
        requires
            self.wf(),
        ensures
            s == self@.shift(),
            -65535 <= s <= 131070,
    {
        self.display_shift_with(self.input_band_rows())
    }

    /// [`Self::display_shift`] given a precomputed band reserve, so a caller that
    /// also fills the band derives both from one value.
    pub(super) fn display_shift_with(&self, band: i64) -> (s: i64)
        requires
            self.wf(),
            0 <= band <= 65535,
        ensures
            s == self@.shift_for(band as int),
            -band <= s <= 131070,
    {
        if self.is_scrolled() || self.alt_screen() || self.dims.rows <= 1 {
            return 0;
        }
        let rows: i64 = self.dims.rows as i64;
        let reserve: i64 = if band > BOTTOM_GUTTER {
            band
        } else {
            BOTTOM_GUTTER
        };
        let relocated: i64 = if self.command_running() {
            0
        } else {
            let (top, bottom) = self.resting_input_span();
            bottom - top + 1
        };
        let out_bottom: i64 = self.content_bottom() - relocated;
        let s: i64 = rows - 1 - reserve - out_bottom;
        if s > 0 - band {
            s
        } else {
            0 - band
        }
    }

    /// Blank rows currently reserved above the output region by the bottom-anchor
    /// layout. The app watches this for the smooth fill transition: when a burst of
    /// output makes it shrink, the output glides up by that many cell-heights in one
    /// frame. (The pinned input band is unaffected; only the output region moves.)
    pub fn anchor_shift(&self) -> (s: u16)
        requires
            self.wf(),
        ensures
            s == larger(self@.shift(), 0) as u16,
    {
        let s: i64 = self.display_shift();
        if s > 0 {
            s as u16
        } else {
            0
        }
    }

    /// A blank cell in the dim color of the band.
    fn dim_blank(&self) -> (c: CellSnapshot)
        ensures
            c == self@.dim_blank(),
    {
        CellSnapshot::blank(self.palette.indexed(8), self.palette.background)
    }

    /// Row `i` of the queue, dim and italic: pending, distinct from the bright
    /// input line. When more are queued than `count` rows, the last row collapses
    /// the remainder into a "+ N more queued" line.
    pub(super) fn queue_row(&self, i: usize, count: usize) -> (row: Vec<CellSnapshot>)
        requires
            self.wf(),
            i < count <= self@.band.queued.len(),
        ensures
            row@ == self@.queue_row(i as int, count as int),
            row@.len() == self@.cols,
    {
        let total: usize = self.band.queued.len();
        let mut style = self.dim_blank();
        style.flags = CellFlags::of(CellFlags::ITALIC);
        let mut text: Vec<char> = Vec::new();
        if i + 1 == count && total > count {
            let mut plus = chars_of("+ ");
            let mut digits = to_decimal((total - (count - 1)) as u64);
            let mut more = chars_of(" more queued");
            text.append(&mut plus);
            text.append(&mut digits);
            text.append(&mut more);
        } else {
            text.push('\u{2022}');
            text.push(' ');
            proof {
                assert(text@ =~= seq!['\u{2022}', ' ']);
                assert(self@.band.queued[i as int] == self.band.queued@[i as int]@);
            }
            let mut command = chars_of(self.band.queued[i].as_str());
            text.append(&mut command);
        }
        proof {
            assert(text@ =~= self@.queue_text(i as int, count as int));
        }
        let cols: usize = self.dims.cols as usize;
        let mut row = row_filled(self.dim_blank(), cols);
        write_row(&mut row, 0, cols, &text, style);
        row
    }

    /// An empty band row, led by the captured prompt prefix.
    fn prefixed_row(&self) -> (row: Vec<CellSnapshot>)
        requires
            self.wf(),
        ensures
            row@ == overlaid(row_of(self@.dim_blank(), self@.cols), self@.prefix()),
            row@.len() == self@.cols,
    {
        let n: usize = self.blocks.len();
        let mut row = row_filled(self.dim_blank(), self.dims.cols as usize);
        let ghost empty = row@;
        if n > 0 {
            proof {
                assert(self@.blocks.last() == self.blocks@[n - 1]@);
            }
            overlay(&mut row, &self.blocks[n - 1].prompt_prefix);
        } else {
            proof {
                assert(overlaid(empty, Seq::empty()) =~= empty);
            }
        }
        row
    }

    /// The input row while nothing is typed: the running command from its start,
    /// grayed as a placeholder, until typed over.
    pub(super) fn placeholder_row(&self) -> (row: Vec<CellSnapshot>)
        requires
            self.wf(),
        ensures
            row@ == written(
                overlaid(row_of(self@.dim_blank(), self@.cols), self@.prefix()),
                self@.prefix_width(),
                self@.cols,
                self@.placeholder(),
                self@.dim_blank(),
            ),
            row@.len() == self@.cols,
    {
        let n: usize = self.blocks.len();
        let mut text: Vec<char> = Vec::new();
        if n > 0 {
            proof {
                assert(self@.blocks.last() == self.blocks@[n - 1]@);
            }
            text = chars_of(self.blocks[n - 1].command.as_str());
        }
        if text.len() == 0 {
            text = chars_of("running\u{2026}");
        }
        let mut row = self.prefixed_row();
        let w: usize = self.band_prefix_width();
        write_row(&mut row, w, self.dims.cols as usize, &text, self.dim_blank());
        row
    }

    /// The column that the caret is on, or one past the row where it is further
    /// out.
    pub(super) fn caret_col(&self, t: &TypedRows) -> (c: usize)
        requires
            self.wf(),
            char_rows(t.chunks@) == self@.band_chunks(),
            t.spills == self@.band_spills(),
            t.chunks@.len() >= 1,
        ensures
            c == smaller(self@.caret_col(), self@.cols),
    {
        let cols: usize = self.dims.cols as usize;
        if t.spills {
            return 0;
        }
        let n: usize = t.chunks.len();
        let base: usize = if n <= 1 {
            self.band_prefix_width()
        } else {
            0
        };
        proof {
            assert(self@.band_chunks().last() == t.chunks@[n - 1]@);
        }
        let last = string_of(&t.chunks[n - 1]);
        let w: usize = width_of_text(last.as_str());
        if w >= cols - base {
            cols
        } else {
            base + w
        }
    }

    /// Wrapped row `v` of the type-ahead field: the captured prompt prefix leads
    /// the first one, the typed text is in the normal foreground, and the
    /// suggestion follows the caret dimmed to the end of its row — clipped, so it
    /// never grows the band.
    pub(super) fn type_row(&self, t: &TypedRows, v: usize) -> (row: Vec<CellSnapshot>)
        requires
            self.wf(),
            char_rows(t.chunks@) == self@.band_chunks(),
            t.spills == self@.band_spills(),
            t.chunks@.len() >= 1,
        ensures
            row@ == self@.type_row(v as int),
            row@.len() == self@.cols,
    {
        let cols: usize = self.dims.cols as usize;
        let n: usize = t.chunks.len();
        let fg_blank = self.blank();
        let mut row: Vec<CellSnapshot> = Vec::new();
        if v == 0 {
            row = self.prefixed_row();
            let w: usize = self.band_prefix_width();
            proof {
                assert(self@.band_chunks()[0] == t.chunks@[0]@);
            }
            write_row(&mut row, w, cols, &t.chunks[0], fg_blank);
        } else {
            row = row_filled(self.dim_blank(), cols);
            if v < n {
                proof {
                    assert(self@.band_chunks()[v as int] == t.chunks@[v as int]@);
                }
                write_row(&mut row, 0, cols, &t.chunks[v], fg_blank);
            }
        }
        let caret: usize = if t.spills {
            n
        } else {
            n - 1
        };
        if let Some(suffix) = &self.band.suggestion {
            if v == caret {
                let at: usize = self.caret_col(t);
                let text = chars_of(suffix.as_str());
                write_row(&mut row, at, cols, &text, self.dim_blank());
            }
        }
        row
    }

    /// Whether the cursor is to be shown.
    fn cursor_on(&self) -> (b: bool)
        ensures
            b == self@.cursor_on(),
    {
        self.seen_output && self.cursor_shape != CursorShape::Hidden && self.has_mode(
            MODE_SHOW_CURSOR,
        )
    }

    /// The shell's cursor at a position, honoring its shape.
    fn cursor_at(&self, col: u16, row: u16) -> (c: CursorSnapshot)
        ensures
            c == self@.cursor_at(col as int, row as int),
    {
        CursorSnapshot {
            col,
            row,
            shape: self.cursor_shape,
            color: self.palette.cursor,
            text_color: self.palette.cursor_text,
        }
    }

    /// A beam caret on the band's input area at `col`/`row`: a text-insertion
    /// point, distinct from the block cursor the shell draws.
    fn band_beam(&self, col: usize, row: u16) -> (c: CursorSnapshot)
        requires
            self.wf(),
        ensures
            c == self@.beam_at(col as int, row as int),
    {
        let last: usize = self.dims.cols as usize - 1;
        let c: usize = if col < last {
            col
        } else {
            last
        };
        let mut cursor = self.cursor_at(c as u16, row);
        cursor.shape = CursorShape::Beam;
        cursor
    }

    /// The cursor of the screen at the live edge.
    pub(super) fn live_cursor(&self, band: i64, shift: i64) -> (c: Option<CursorSnapshot>)
        requires
            self.wf(),
            !self@.scrolled(),
            band == self@.band_rows(),
            shift == self@.shift(),
            -65535 <= shift <= 131070,
            0 <= band < self@.rows,
        ensures
            c == self@.screen_cursor(),
    {
        let rows: i64 = self.dims.rows as i64;
        if band <= 0 {
            let row: i64 = self.cursor_row() + shift;
            if self.cursor_on() && 0 <= row && row < rows {
                return Some(self.cursor_at(self.cursor_col() as u16, row as u16));
            }
            return None;
        }
        let height: i64 = self.clamped_input_height(band);
        let input_top: i64 = rows - height;
        if !self.command_running() {
            if !self.cursor_on() {
                return None;
            }
            let (top, bottom) = self.resting_input_span();
            let h: i64 = if bottom - top + 1 < height {
                bottom - top + 1
            } else {
                height
            };
            let d: i64 = self.cursor_row() - top;
            let off: i64 = if d < 0 {
                0
            } else if d > h - 1 {
                h - 1
            } else {
                d
            };
            return Some(self.cursor_at(self.cursor_col() as u16, (input_top + off) as u16));
        }
        if chars_of(self.band.input.as_str()).len() == 0 {
            return Some(self.band_beam(self.band_prefix_width(), input_top as u16));
        }
        let t = self.typed_rows();
        proof {
            assert(t.chunks@.len() == self@.band_chunks().len());
        }
        // The caret is on the last of the wrapped rows, and so is the last one
        // shown.
        let n: usize = t.chunks.len();
        let below: usize = if t.spills {
            n
        } else {
            n - 1
        };
        let caret: i64 = if below < height as usize {
            below as i64
        } else {
            height - 1
        };
        let col: usize = self.caret_col(&t);
        proof {
            let cc = self@.caret_col();
            assert(smaller(smaller(cc, self@.cols), self@.cols - 1) == smaller(cc, self@.cols - 1));
        }
        Some(self.band_beam(col, (input_top + caret) as u16))
    }
}

} // verus!
