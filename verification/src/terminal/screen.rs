//! The render-ready snapshot of the screen.

use vstd::prelude::*;
use crate::block::BlockState;
use crate::color::Rgba;
use crate::model::{is_line, is_screen_of, sticky_view};
use crate::snapshot::{CellSnapshot, GridSnapshot, RowDecor, StickyHeader, row_in_range};
use crate::terminal::Terminal;
use crate::terminal::band::TypedRows;
use crate::terminal::select::row_filled;
use crate::text::{char_rows, chars_of};

verus! {

/// Appending a row of `cols` cells adds one row, and leaves the others.
proof fn append_row(cells: Seq<CellSnapshot>, row: Seq<CellSnapshot>, cols: int, n: int)
    requires
        cols >= 0,
        n >= 0,
        cells.len() as int == n * cols,
        row.len() == cols,
    ensures
        (cells + row).len() as int == (n + 1) * cols,
        (cells + row).subrange(n * cols, (n + 1) * cols) == row,
        forall|k: int|
            0 <= k < n ==> #[trigger] (cells + row).subrange(k * cols, (k + 1) * cols)
                == cells.subrange(k * cols, (k + 1) * cols),
{
    row_in_range(cols, n + 1, n);
    assert((cells + row).subrange(n * cols, (n + 1) * cols) =~= row);
    assert forall|k: int| 0 <= k < n implies #[trigger] (cells + row).subrange(
        k * cols,
        (k + 1) * cols,
    ) == cells.subrange(k * cols, (k + 1) * cols) by {
        row_in_range(cols, n, k);
        assert((cells + row).subrange(k * cols, (k + 1) * cols) =~= cells.subrange(
            k * cols,
            (k + 1) * cols,
        ));
    }
}

impl Terminal {
    /// The decoration of a row that shows line `abs`.
    fn decor_at(&self, abs: i64) -> (d: RowDecor)
        requires
            self.wf(),
        ensures
            d == self@.decor_at(abs as int),
    {
        match self.block_row(abs) {
            Some(i) => {
                proof {
                    assert(self@.blocks[i as int] == self.blocks@[i as int]@);
                }
                let b = &self.blocks[i];
                RowDecor {
                    block_id: b.id,
                    failed: b.state == BlockState::Failed,
                    block_top: abs == b.prompt_line,
                }
            },
            None => RowDecor::default(),
        }
    }

    /// The sticky header for the block that line `top` belongs to, if its prompt
    /// is above the view.
    fn sticky_at(&self, top: i64) -> (s: Option<StickyHeader>)
        requires
            self.wf(),
        ensures
            sticky_view(s) == self@.sticky_at(top as int),
    {
        match self.block_row(top) {
            Some(i) => {
                proof {
                    assert(self@.blocks[i as int] == self.blocks@[i as int]@);
                }
                let b = &self.blocks[i];
                if b.prompt_line < top && chars_of(b.command.as_str()).len() > 0 {
                    Some(
                        StickyHeader {
                            command: b.command.clone(),
                            failed: b.state == BlockState::Failed,
                        },
                    )
                } else {
                    None
                }
            },
            None => None,
        }
    }

    /// Row `r` of the output region at the live edge.
    fn output_row(
        &self,
        r: i64,
        shift: i64,
        relocated: Option<(i64, i64)>,
        span: Option<((i64, usize), (i64, usize))>,
    ) -> (row: Vec<CellSnapshot>)
        requires
            self.wf(),
            0 <= r < self@.rows,
            shift == self@.shift(),
            -65535 <= shift <= 131070,
            match relocated {
                Some((top, bottom)) => self@.band_rows() > 0 && !self@.running() && top
                    == self@.input_top() && bottom == self@.input_bottom(),
                None => self@.band_rows() <= 0 || self@.running(),
            },
            match self@.sel {
                Some(s) => match (s.span(self@.cols), span) {
                    (Some((first, last)), Some((a, b))) => a.0 == first.0 && a.1 == first.1 && b.0
                        == last.0 && b.1 == last.1,
                    (None, None) => true,
                    _ => false,
                },
                None => span.is_none(),
            },
        ensures
            row@ == self@.output_row(r as int),
            row@.len() == self@.cols,
    {
        let cols: usize = self.dims.cols as usize;
        let line: i64 = r - shift;
        let moved: bool = match relocated {
            Some((top, bottom)) => top <= line && line <= bottom,
            None => false,
        };
        if 0 <= line && line < self.dims.rows as i64 && !moved {
            let mut row = self.shown_row(line as i32, cols);
            self.flag_selection(&mut row, self.abs_base + line, span);
            row
        } else {
            row_filled(self.blank(), cols)
        }
    }

    /// Row `i` of the band's input line.
    fn input_row(&self, i: usize, height: usize, typed: &Option<TypedRows>) -> (row: Vec<CellSnapshot>)
        requires
            self.wf(),
            self@.band_rows() > 0,
            height == self@.band_input_rows(),
            i < height,
            match *typed {
                Some(t) => self@.running() && self@.band.input.len() > 0 && char_rows(t.chunks@)
                    == self@.band_chunks() && t.spills == self@.band_spills() && t.chunks@.len()
                    >= 1,
                None => !self@.running() || self@.band.input.len() == 0,
            },
        ensures
            row@ == self@.input_row(i as int),
            row@.len() == self@.cols,
    {
        let cols: usize = self.dims.cols as usize;
        if !self.command_running() {
            let (top, bottom) = self.resting_input_span();
            return self.shown_row((top + i as i64) as i32, cols);
        }
        match typed {
            None => self.placeholder_row(),
            Some(t) => {
                proof {
                    assert(t.chunks@.len() == self@.band_chunks().len());
                }
                let n: usize = t.chunks.len();
                // When the wrapped field is taller than the band allows, its last
                // rows are shown, so that the caret stays visible.
                let first: usize = if t.spills {
                    if n >= height {
                        n - height + 1
                    } else {
                        0
                    }
                } else if n > height {
                    n - height
                } else {
                    0
                };
                self.type_row(t, first + i)
            },
        }
    }

    /// Build a render-ready snapshot of the visible grid.
    ///
    /// At the live edge the live input line is relocated into the pinned bottom
    /// band and the output region above it is bottom-anchored (hugs the band, fills
    /// upward, then scrolls) — so the input holds still while output behaves like a
    /// conventional terminal; scrolled back, it paints the composite — frozen block
    /// buffers above the live grid's active region.
    pub fn snapshot(&self) -> (snap: GridSnapshot)
        requires
            self.wf(),
        ensures
            is_screen_of(snap, self@),
    {
        match self.scroll_top_abs {
            Some(top) => self.composite_snapshot(top),
            None => self.live_snapshot(),
        }
    }

    /// An empty snapshot in the terminal's size and colors.
    fn empty_snapshot(&self) -> (snap: GridSnapshot)
        requires
            self.wf(),
        ensures
            snap.cols == self@.cols,
            snap.rows == self@.rows,
            snap.cells@.len() == 0,
            snap.rows_decor@.len() == 0,
            snap.cursor.is_none(),
            snap.sticky.is_none(),
            snap.input_band_rows == 0,
            snap.background == self@.palette.background,
            snap.selection_color == self@.palette.selection,
            snap.block_stripe == self@.palette.colors@[9],
            snap.block_tint == (Rgba { a: 30, ..self@.palette.colors@[1] }),
            snap.block_separator == self@.palette.colors@[8],
    {
        let red = self.palette.indexed(1);
        GridSnapshot {
            cols: self.dims.cols,
            rows: self.dims.rows,
            cells: Vec::new(),
            cursor: None,
            background: self.palette.background,
            selection_color: self.palette.selection,
            rows_decor: Vec::new(),
            sticky: None,
            block_stripe: self.palette.indexed(9),
            block_tint: Rgba::new(red.r, red.g, red.b, 30),
            block_separator: self.palette.indexed(8),
            input_band_rows: 0,
        }
    }

    /// Snapshot while scrolled back through history: a top-aligned window over the
    /// composite, starting at line `top`. Each row is sourced from a finished
    /// block's frozen buffer when the absolute line falls inside one, and from the
    /// live grid otherwise (the active region, or raw history when there is no
    /// shell integration). No bottom-anchor, input band, or live cursor here —
    /// those belong to the live edge. Selection is flagged per cell in composite
    /// (absolute-line) space, so it spans the frozen/live boundary.
    fn composite_snapshot(&self, top: i64) -> (snap: GridSnapshot)
        requires
            self.wf(),
            self@.scroll_top == Some(top as int),
        ensures
            is_screen_of(snap, self@),
    {
        let mut snap = self.empty_snapshot();
        let span = self.selection_span();
        let rows: usize = self.dims.rows as usize;
        let ghost m = self@;
        let ghost cols = m.cols;
        let mut r: usize = 0;
        while r < rows
            invariant
                self.wf(),
                m == self@,
                cols == m.cols,
                m.scroll_top == Some(top as int),
                is_line(top as int),
                r <= rows,
                rows == m.rows,
                snap.cols == cols,
                snap.rows == rows,
                snap.cells@.len() as int == r * cols,
                snap.rows_decor@.len() == r,
                match m.sel {
                    Some(s) => match (s.span(m.cols), span) {
                        (Some((first, last)), Some((a, b))) => a.0 == first.0 && a.1 == first.1
                            && b.0 == last.0 && b.1 == last.1,
                        (None, None) => true,
                        _ => false,
                    },
                    None => span.is_none(),
                },
                forall|k: int| 0 <= k < r ==> #[trigger] snap.row_cells(k) == m.screen_row(k),
                forall|k: int| 0 <= k < r ==> #[trigger] snap.rows_decor@[k] == m.screen_decor(k),
                snap.cursor.is_none(),
                snap.sticky.is_none(),
                snap.input_band_rows == 0,
                snap.background == m.palette.background,
                snap.selection_color == m.palette.selection,
                snap.block_stripe == m.palette.colors@[9],
                snap.block_tint == (Rgba { a: 30, ..m.palette.colors@[1] }),
                snap.block_separator == m.palette.colors@[8],
            decreases rows - r,
        {
            let abs: i64 = top + r as i64;
            let mut row = self.composite_row(abs);
            self.flag_selection(&mut row, abs, span);
            let ghost rv = row@;
            let ghost before = snap;
            proof {
                append_row(snap.cells@, rv, cols, r as int);
            }
            snap.cells.append(&mut row);
            snap.rows_decor.push(self.decor_at(abs));
            proof {
                assert(snap.cells@ == before.cells@ + rv);
                assert forall|k: int| 0 <= k < r + 1 implies #[trigger] snap.row_cells(k)
                    == m.screen_row(k) by {
                    if k < r {
                        assert(before.row_cells(k) == m.screen_row(k));
                    }
                }
            }
            r = r + 1;
        }
        let ghost built = snap;
        snap.sticky = self.sticky_at(top);
        proof {
            assert forall|k: int| 0 <= k < m.rows implies #[trigger] snap.row_cells(k)
                == m.screen_row(k) by {
                assert(built.row_cells(k) == m.screen_row(k));
            }
            assert(r * cols == cols * r) by (nonlinear_arith);
        }
        snap
    }

    /// Snapshot at the live edge.
    fn live_snapshot(&self) -> (snap: GridSnapshot)
        requires
            self.wf(),
            self@.scroll_top.is_none(),
        ensures
            is_screen_of(snap, self@),
    {
        let mut snap = self.empty_snapshot();
        let span = self.selection_span();
        let band: i64 = self.input_band_rows();
        let shift: i64 = self.display_shift_with(band);
        // At a resting prompt the live input line — its whole soft-wrapped span —
        // is relocated into the band; those rows are not drawn in the output
        // region as well. While a command runs there is no resting prompt to move.
        let relocated: Option<(i64, i64)> = if band > 0 && !self.command_running() {
            Some(self.resting_input_span())
        } else {
            None
        };
        let height: i64 = if band > 0 {
            self.clamped_input_height(band)
        } else {
            0
        };
        let typed: Option<TypedRows> = if self.command_running() && chars_of(
            self.band.input.as_str(),
        ).len() > 0 {
            Some(self.typed_rows())
        } else {
            None
        };
        let rows: usize = self.dims.rows as usize;
        let band_top: usize = rows - band as usize;
        let input_top: usize = rows - height as usize;
        let ghost m = self@;
        let ghost cols = m.cols;
        let mut r: usize = 0;
        proof {
            crate::screen_laws::band_leaves_a_content_row(m);
        }
        while r < rows
            invariant
                self.wf(),
                m == self@,
                cols == m.cols,
                m.scroll_top.is_none(),
                r <= rows,
                rows == m.rows,
                band == m.band_rows(),
                0 <= band < rows,
                shift == m.shift(),
                -65535 <= shift <= 131070,
                band_top == rows - band,
                band > 0 ==> height == m.band_input_rows() && 1 <= height <= band,
                band > 0 ==> band - height <= m.band.queued.len(),
                band <= 0 ==> height == 0,
                input_top == rows - height,
                match relocated {
                    Some((top, bottom)) => band > 0 && !m.running() && top == m.input_top()
                        && bottom == m.input_bottom(),
                    None => band <= 0 || m.running(),
                },
                match typed {
                    Some(t) => m.running() && m.band.input.len() > 0 && char_rows(t.chunks@)
                        == m.band_chunks() && t.spills == m.band_spills() && t.chunks@.len() >= 1,
                    None => !m.running() || m.band.input.len() == 0,
                },
                snap.cols == cols,
                snap.rows == rows,
                snap.cells@.len() as int == r * cols,
                snap.rows_decor@.len() == r,
                match m.sel {
                    Some(s) => match (s.span(m.cols), span) {
                        (Some((first, last)), Some((a, b))) => a.0 == first.0 && a.1 == first.1
                            && b.0 == last.0 && b.1 == last.1,
                        (None, None) => true,
                        _ => false,
                    },
                    None => span.is_none(),
                },
                forall|k: int| 0 <= k < r ==> #[trigger] snap.row_cells(k) == m.screen_row(k),
                forall|k: int| 0 <= k < r ==> #[trigger] snap.rows_decor@[k] == m.screen_decor(k),
                snap.cursor.is_none(),
                snap.sticky.is_none(),
                snap.input_band_rows == 0,
                snap.background == m.palette.background,
                snap.selection_color == m.palette.selection,
                snap.block_stripe == m.palette.colors@[9],
                snap.block_tint == (Rgba { a: 30, ..m.palette.colors@[1] }),
                snap.block_separator == m.palette.colors@[8],
            decreases rows - r,
        {
            let mut row = if r < band_top {
                self.output_row(r as i64, shift, relocated, span)
            } else if r < input_top {
                self.queue_row(r - band_top, band as usize - height as usize)
            } else {
                self.input_row(r - input_top, height as usize, &typed)
            };
            let decor = if r < band_top && r as i64 >= shift {
                self.decor_at(self.abs_base + r as i64 - shift)
            } else {
                RowDecor::default()
            };
            let ghost rv = row@;
            let ghost before = snap;
            proof {
                assert(rv == m.screen_row(r as int));
                append_row(snap.cells@, rv, cols, r as int);
            }
            snap.cells.append(&mut row);
            snap.rows_decor.push(decor);
            proof {
                assert(snap.cells@ == before.cells@ + rv);
                assert forall|k: int| 0 <= k < r + 1 implies #[trigger] snap.row_cells(k)
                    == m.screen_row(k) by {
                    if k < r {
                        assert(before.row_cells(k) == m.screen_row(k));
                    }
                }
            }
            r = r + 1;
        }
        let ghost built = snap;
        snap.cursor = self.live_cursor(band, shift);
        if shift <= 0 {
            snap.sticky = self.sticky_at(self.abs_base - shift);
        }
        snap.input_band_rows = band as u16;
        proof {
            assert forall|k: int| 0 <= k < m.rows implies #[trigger] snap.row_cells(k)
                == m.screen_row(k) by {
                assert(built.row_cells(k) == m.screen_row(k));
            }
            assert(r * cols == cols * r) by (nonlinear_arith);
        }
        snap
    }
}

} // verus!
