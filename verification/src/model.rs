//! The terminal in mathematical terms: what each operation does to it, and what
//! is on the screen.

use vstd::prelude::*;
use crate::color::Rgba;
use crate::block::{BlockState, BlockView, FrozenView, finished_state, fresh_block};
use crate::completion::ResponseView;
use crate::decimal::decimal;
use crate::emulator::{EmuEventView, EmuOp, GridCell, MAX_SCROLLBACK, MODE_ALT_SCREEN, MODE_SHOW_CURSOR, Sight, emitted, foreseen, grid_cell, grid_cursor, grid_history, grid_text, fed_chunks, fits_one_column, log_size, term_mode, text_readable};
use crate::layout::{caret_spills, text_width, wrapped, written};
use crate::osc133::{MarkerView, ScanState, SemanticKind, scan_hits, scan_state};
use crate::palette::Palette;
use crate::resolve::{occupied, shown};
use crate::selection::{CompositeSelection, SelPoint, Side};
use crate::snapshot::{CellFlags, CellSnapshot, CursorShape, CursorSnapshot, GridSnapshot, RowDecor, StickyHeader, blank_cell, no_decor};
use crate::text::{join_on, trimmed, trimmed_end};
use crate::wide::has_room;

verus! {

/// The furthest from zero that the screen's first line is counted: the largest `i64`,
/// less some of the tallest screens, so that the lines around it have numbers too.
pub const LINE_LIMIT: i64 = 0x7fff_ffff_fff0_0000;

/// The furthest from zero that any line is numbered.
pub const LINE_BOUND: i64 = 0x7fff_ffff_fff8_0000;

/// Most command blocks that are kept when a new one opens.
pub const MAX_BLOCKS: usize = 2000;

/// How many lines at the end of a command's output are kept as an excerpt.
pub const EXCERPT_LINES: i64 = 5;

/// Rows of breathing room left below the bottom-anchored prompt so it does not
/// sit flush against the window's bottom edge.
pub const BOTTOM_GUTTER: i64 = 1;

/// Most queued commands shown as their own rows in the band before the rest
/// collapse into a "+N more" line, so a long queue can't swallow the screen.
pub const MAX_QUEUE_ROWS: usize = 6;

/// `x`, or the nearer end of `lo..=hi` where it lies outside.
pub open spec fn clamp(x: int, lo: int, hi: int) -> int {
    if x < lo {
        lo
    } else if x > hi {
        hi
    } else {
        x
    }
}

/// `x` as a line number.
pub open spec fn line_at(x: int) -> int {
    clamp(x, -LINE_LIMIT as int, LINE_BOUND as int)
}

/// Whether `x` may be a line number.
pub open spec fn is_line(x: int) -> bool {
    -LINE_BOUND <= x <= LINE_BOUND
}

/// The larger of two integers.
pub open spec fn larger(a: int, b: int) -> int {
    if a >= b {
        a
    } else {
        b
    }
}

/// The smaller of two integers.
pub open spec fn smaller(a: int, b: int) -> int {
    if a <= b {
        a
    } else {
        b
    }
}

/// What the input band shows.
pub ghost struct BandView {
    pub input: Seq<char>,
    pub queued: Seq<Seq<char>>,
    pub masked: bool,
    pub suggestion: Option<Seq<char>>,
}

/// A side effect of the terminal.
pub ghost enum EventView {
    PtyWrite(Seq<u8>),
    Title(Seq<char>),
    ResetTitle,
    ClipboardStore(Seq<char>),
    Bell,
    Wakeup,
    MouseCursorDirty,
    CursorBlink,
    SemanticPrompt { kind: SemanticKind, line: int },
    WorkingDirectory(Seq<char>),
    Completion(ResponseView),
    Exit,
}

/// What becomes of an event on the emulator's channel.
pub open spec fn forwarded(e: EmuEventView) -> Option<EventView> {
    match e {
        EmuEventView::PtyWrite(s) => Some(EventView::PtyWrite(vstd::utf8::encode_utf8(s))),
        EmuEventView::Title(t) => Some(EventView::Title(t)),
        EmuEventView::ResetTitle => Some(EventView::ResetTitle),
        EmuEventView::ClipboardStore(s) => Some(EventView::ClipboardStore(s)),
        EmuEventView::Bell => Some(EventView::Bell),
        EmuEventView::Wakeup => Some(EventView::Wakeup),
        EmuEventView::MouseCursorDirty => Some(EventView::MouseCursorDirty),
        EmuEventView::CursorBlinkingChange => Some(EventView::CursorBlink),
        EmuEventView::Exit => Some(EventView::Exit),
        EmuEventView::Other => None,
        EmuEventView::Own(e) => Some(e),
    }
}

/// What becomes of a run of them.
pub open spec fn forwarded_all(events: Seq<EmuEventView>) -> Seq<EventView>
    decreases events.len(),
{
    if events.len() == 0 {
        Seq::empty()
    } else {
        match forwarded(events.last()) {
            Some(e) => forwarded_all(events.drop_last()).push(e),
            None => forwarded_all(events.drop_last()),
        }
    }
}

/// Line without the blank cells at its end.
pub open spec fn without_trailing_blanks(line: Seq<CellSnapshot>) -> Seq<CellSnapshot>
    decreases line.len(),
{
    if line.len() > 0 && line.last().blank_glyph() {
        without_trailing_blanks(line.drop_last())
    } else {
        line
    }
}

/// A row of `cols` equal cells.
pub open spec fn row_of(cell: CellSnapshot, cols: int) -> Seq<CellSnapshot> {
    Seq::new(cols as nat, |c: int| cell)
}

/// `row` with the cells of `over` laid on its start.
pub open spec fn overlaid(row: Seq<CellSnapshot>, over: Seq<CellSnapshot>) -> Seq<CellSnapshot> {
    Seq::new(
        row.len(),
        |c: int|
            if c < over.len() {
                over[c]
            } else {
                row[c]
            },
    )
}

/// The text of a run of cells: their characters, without those of the spacers.
pub open spec fn cells_text(cells: Seq<CellSnapshot>) -> Seq<char>
    decreases cells.len(),
{
    if cells.len() == 0 {
        Seq::empty()
    } else if cells.last().flags.has(CellFlags::WIDE_SPACER) {
        cells_text(cells.drop_last())
    } else {
        cells_text(cells.drop_last()).push(cells.last().c)
    }
}

/// `cell`, flagged as selected where `on` holds.
pub open spec fn marked(cell: CellSnapshot, on: bool) -> CellSnapshot {
    if on {
        CellSnapshot { flags: cell.flags.plus(CellFlags::SELECTED), ..cell }
    } else {
        cell
    }
}

/// The terminal's state.
pub ghost struct TermModel {
    /// Everything done to the emulator.
    pub log: Seq<EmuOp>,
    /// Where the marker scanner is.
    pub scan: ScanState,
    /// Absolute line of the top of the screen.
    pub abs_base: int,
    /// The history depth last seen.
    pub prev_history: int,
    /// Whether the alternate screen was last seen active.
    pub prev_alt: bool,
    /// Command blocks, oldest first.
    pub blocks: Seq<BlockView>,
    /// Frozen buffers of the finished blocks, oldest first.
    pub frozen: Seq<FrozenView>,
    /// The line at the top of the viewport while scrolled back.
    pub scroll_top: Option<int>,
    /// The id of the next block.
    pub next_id: int,
    /// The working directory reported since the last block opened.
    pub pending_cwd: Option<Seq<char>>,
    pub palette: Palette,
    pub shape: CursorShape,
    pub cols: int,
    pub rows: int,
    /// Whether any output has arrived.
    pub seen_output: bool,
    pub band: BandView,
    pub sel: Option<CompositeSelection>,
    /// Side effects not taken yet, oldest first.
    pub outbox: Seq<EventView>,
    /// Whether output came that there is no room for; the terminal takes no more then.
    pub halted: bool,
}

/// Whether the block's line numbers are within bounds.
pub open spec fn block_lines_ok(b: BlockView) -> bool {
    &&& is_line(b.prompt_line)
    &&& is_line(b.command_line)
    &&& (b.output_line matches Some(l) ==> is_line(l))
    &&& (b.end_line matches Some(l) ==> is_line(l))
}

/// The ids of the finished blocks, in order.
pub open spec fn finished_ids(blocks: Seq<BlockView>) -> Seq<int>
    decreases blocks.len(),
{
    if blocks.len() == 0 {
        Seq::empty()
    } else if blocks.last().end_line.is_some() {
        finished_ids(blocks.drop_last()).push(blocks.last().id)
    } else {
        finished_ids(blocks.drop_last())
    }
}

/// The ids of the frozen buffers, in order.
pub open spec fn frozen_ids(frozen: Seq<FrozenView>) -> Seq<int> {
    frozen.map_values(|f: FrozenView| f.id)
}

/// Whether the selection's lines are within bounds.
pub open spec fn sel_ok(sel: Option<CompositeSelection>, cols: int) -> bool {
    sel matches Some(s) ==> is_line(s.anchor.abs as int) && is_line(s.head.abs as int)
        && s.anchor.col <= 65535 && s.head.col <= 65535
}

/// How many of the leading blocks begin at or above line `abs`.
pub open spec fn lead(blocks: Seq<BlockView>, abs: int) -> int
    decreases blocks.len(),
{
    if blocks.len() == 0 || blocks[0].prompt_line > abs {
        0
    } else {
        1 + lead(blocks.skip(1), abs)
    }
}

/// `frozen` without the leading buffers whose id is below `id`.
pub open spec fn frozen_from(frozen: Seq<FrozenView>, id: int) -> Seq<FrozenView>
    decreases frozen.len(),
{
    if frozen.len() > 0 && frozen[0].id < id {
        frozen_from(frozen.skip(1), id)
    } else {
        frozen
    }
}

impl TermModel {
    /// What every operation keeps: sizes and line numbers are within bounds,
    /// block ids are positive and strictly increase, and the frozen buffers are
    /// those of the finished blocks, in the same order.
    pub open spec fn wf(self) -> bool {
        &&& 1 <= self.cols <= 65535
        &&& 1 <= self.rows <= 65535
        &&& log_size(self.log) == (self.cols, self.rows)
        &&& 0 <= self.abs_base <= LINE_LIMIT
        &&& self.blocks.len() <= MAX_BLOCKS + 1
        &&& 1 <= self.next_id <= u32::MAX
        &&& forall|i: int| 0 <= i < self.blocks.len() ==> block_lines_ok(#[trigger] self.blocks[i])
        &&& self.ids_increase()
        &&& frozen_ids(self.frozen) == finished_ids(self.blocks)
        &&& (self.scroll_top matches Some(t) ==> -LINE_BOUND <= t <= LINE_LIMIT)
        &&& sel_ok(self.sel, self.cols)
    }

    /// Block ids are positive, below the next one, and strictly increase.
    pub open spec fn ids_increase(self) -> bool {
        &&& forall|i: int| 0 <= i < self.blocks.len() ==> 1 <= (#[trigger] self.blocks[i]).id < self.next_id
        &&& forall|i: int, j: int|
            0 <= i < j < self.blocks.len() ==> (#[trigger] self.blocks[i]).id < (
            #[trigger] self.blocks[j]).id
    }

    /// Whether the grid has room for what the segment `seg` displays: one column has
    /// none for a double-width glyph.
    pub open spec fn has_room_for(self, seg: Seq<u8>) -> bool {
        seg.len() == 0 || self.cols >= 2 || has_room(fed_chunks(self.log), seg)
    }

    /// The `k`th segment of the chunk `bytes`, which is split at its markers.
    pub open spec fn segment(self, bytes: Seq<u8>, k: int) -> Seq<u8> {
        let hits = scan_hits(self.scan, bytes);
        let from = if k <= 0 {
            0
        } else {
            hits[k - 1].0
        };
        let to = if k < hits.len() {
            hits[k].0
        } else {
            bytes.len() as int
        };
        bytes.subrange(from, to)
    }

    /// The state when the chunk `bytes` begins.
    pub open spec fn begun(self, bytes: Seq<u8>) -> TermModel {
        TermModel {
            seen_output: self.seen_output || bytes.len() > 0,
            scan: scan_state(self.scan, bytes),
            ..self
        }
    }

    /// The state before the `k`th segment of the chunk `bytes`.
    pub open spec fn before_segment(self, bytes: Seq<u8>, k: int) -> TermModel {
        self.begun(bytes).after_hits(bytes, scan_hits(self.scan, bytes), k)
    }

    /// What the parser makes of the `k`th segment of the chunk `bytes`.
    pub open spec fn sights(self, bytes: Seq<u8>, k: int) -> Seq<Sight> {
        foreseen(fed_chunks(self.before_segment(bytes, k).log), self.segment(bytes, k))
    }

    /// Whether there is room for the `k`th segment of the chunk `bytes`, after those
    /// before it.
    #[verifier::opaque]
    pub open spec fn segment_fits(self, bytes: Seq<u8>, k: int) -> bool {
        self.before_segment(bytes, k).has_room_for(self.segment(bytes, k))
    }

    /// Whether the terminal can take in the chunk `bytes`: it did not stop, and there is
    /// room for each segment.
    pub open spec fn takes(self, bytes: Seq<u8>) -> bool {
        &&& !self.halted
        &&& forall|k: int| 0 <= k <= scan_hits(self.scan, bytes).len() ==> #[trigger] self.segment_fits(bytes, k)
    }

    /// The first segment from the `k`th on that there is no room for.
    pub open spec fn first_without_room(self, bytes: Seq<u8>, k: int) -> int
        decreases scan_hits(self.scan, bytes).len() + 1 - k,
    {
        if k > scan_hits(self.scan, bytes).len() || !self.segment_fits(bytes, k) {
            k
        } else {
            self.first_without_room(bytes, k + 1)
        }
    }

    /// The state after the chunk `bytes` was refused: the terminal has stopped before
    /// the segment that there is no room for.
    pub open spec fn stopped(self, bytes: Seq<u8>) -> TermModel {
        if self.halted {
            self
        } else {
            TermModel {
                halted: true,
                ..self.before_segment(bytes, self.first_without_room(bytes, 0))
            }
        }
    }

    /// Whether the grid can be made `cols` wide: one column has no room for the
    /// double-width glyphs that it holds.
    pub open spec fn fits(self, cols: u16) -> bool {
        cols >= 2 || fits_one_column(self.log)
    }

    /// How many lines of history can be addressed.
    pub open spec fn depth(self) -> int {
        smaller(grid_history(self.log) as int, MAX_SCROLLBACK as int)
    }

    /// The cursor's row on the screen.
    pub open spec fn cursor_row(self) -> int {
        clamp(grid_cursor(self.log).0, 0, self.rows - 1)
    }

    /// The cursor's column.
    pub open spec fn cursor_col(self) -> int {
        clamp(grid_cursor(self.log).1, 0, self.cols - 1)
    }

    /// The cursor's absolute line.
    pub open spec fn cursor_abs(self) -> int {
        self.abs_base + self.cursor_row()
    }

    /// Whether any of these mode bits is set.
    pub open spec fn has_mode(self, bits: u32) -> bool {
        term_mode(self.log) & bits != 0
    }

    /// Whether the alternate screen is active.
    pub open spec fn alt(self) -> bool {
        self.has_mode(MODE_ALT_SCREEN)
    }

    /// The oldest line that the grid still holds.
    pub open spec fn oldest_kept(self) -> int {
        self.abs_base - self.depth()
    }

    /// The grid line of absolute line `abs`, or the nearest that the grid holds.
    pub open spec fn grid_line(self, abs: int) -> int {
        clamp(abs - self.abs_base, -self.depth(), self.rows - 1)
    }

    /// A cell of the grid as it is rendered.
    pub open spec fn shown_cell(self, line: int, col: int) -> CellSnapshot {
        shown(self.palette, grid_cell(self.log, line, col))
    }

    /// The first `n` cells of a line of the grid, as they are rendered.
    pub open spec fn shown_row(self, line: int, n: int) -> Seq<CellSnapshot> {
        Seq::new(n as nat, |c: int| self.shown_cell(line, c))
    }

    /// Whether a line of the grid continues on the next one.
    pub open spec fn wraps(self, line: int) -> bool {
        grid_cell(self.log, line, self.cols - 1).any(GridCell::WRAPLINE)
    }

    /// The text of the grid between absolute lines, from column `col` of the first
    /// to the end of the last; empty where it cannot be read.
    pub open spec fn text_between(self, first: int, col: int, last: int) -> Seq<char> {
        let l0 = self.grid_line(first);
        let l1 = self.grid_line(last);
        if last < first || l1 < l0 || !text_readable(self.log, l0, col, l1) {
            Seq::empty()
        } else {
            grid_text(self.log, l0, col, l1, self.cols - 1)
        }
    }

    /// The typed command between its start and the line where output begins.
    pub open spec fn command_text(self, cmd_line: int, cmd_col: int, out_line: int) -> Seq<char> {
        trimmed(self.text_between(cmd_line, cmd_col, out_line - 1))
    }

    /// The last lines of a command's output.
    pub open spec fn excerpt(self, out_line: int, end_line: int) -> Seq<char> {
        if end_line <= out_line {
            Seq::empty()
        } else {
            trimmed_end(
                self.text_between(larger(end_line - EXCERPT_LINES, out_line), 0, end_line - 1),
            )
        }
    }

    /// The cells of `n` lines from absolute line `first` on.
    pub open spec fn block_cells(self, first: int, n: int) -> Seq<CellSnapshot>
        decreases n,
    {
        if n <= 0 {
            Seq::empty()
        } else {
            self.block_cells(first, n - 1) + self.shown_row(self.grid_line(first + n - 1), self.cols)
        }
    }

    /// The logical lines among `n` lines from absolute line `first` on: those that
    /// are complete, and the start of one that is not. A line that the grid
    /// wrapped goes on in the next row; any other ends there, and loses its
    /// trailing blanks.
    pub open spec fn block_lines(self, first: int, n: int) -> (Seq<Seq<CellSnapshot>>, Seq<CellSnapshot>)
        decreases n,
    {
        if n <= 0 {
            (Seq::empty(), Seq::empty())
        } else {
            let (done, cur) = self.block_lines(first, n - 1);
            let line = self.grid_line(first + n - 1);
            let run = cur + self.shown_row(line, self.cols);
            if self.wraps(line) {
                (done, run)
            } else {
                (done.push(without_trailing_blanks(run)), Seq::empty())
            }
        }
    }

    /// The frozen buffer of a block that ends on line `end`: its rows as they are
    /// on the grid now, without those that left history.
    pub open spec fn frozen_of(self, b: BlockView, end: int) -> FrozenView {
        let first = larger(b.prompt_line, self.oldest_kept());
        let n = larger(end - first + 1, 0);
        let (done, cur) = self.block_lines(first, n);
        FrozenView {
            id: b.id,
            command: b.command,
            failed: b.state == BlockState::Failed,
            cwd: b.cwd,
            cols: self.cols,
            cells: self.block_cells(first, n),
            lines: if cur.len() > 0 {
                done.push(without_trailing_blanks(cur))
            } else {
                done
            },
            blank: blank_cell(self.palette.foreground, self.palette.background),
        }
    }

    // --- taking input ---

    /// The state after the emulator took in `bytes`.
    pub open spec fn fed(self, bytes: Seq<u8>) -> TermModel {
        if bytes.len() == 0 {
            self
        } else {
            (TermModel {
                log: self.log.push(EmuOp::Feed(bytes)),
                outbox: self.outbox + forwarded_all(emitted(self.log, bytes)),
                ..self
            }).synced()
        }
    }

    /// The state after the line origin was brought up to date: lines that entered
    /// history move it down; a history that shrank (a clear) voids every anchor;
    /// on the alternate screen, or across a swap of screens, it stays.
    pub open spec fn synced(self) -> TermModel {
        let hist = grid_history(self.log) as int;
        if self.alt() != self.prev_alt {
            TermModel { prev_alt: self.alt(), prev_history: hist, ..self }
        } else if self.alt() {
            TermModel { prev_history: hist, ..self }
        } else if hist >= self.prev_history {
            TermModel {
                abs_base: smaller(self.abs_base + (hist - self.prev_history), LINE_LIMIT as int),
                prev_history: hist,
                ..self
            }
        } else {
            TermModel {
                abs_base: 0,
                blocks: Seq::empty(),
                frozen: Seq::empty(),
                prev_history: hist,
                ..self
            }
        }
    }

    /// The state after one marker.
    pub open spec fn marked_by(self, m: MarkerView) -> TermModel {
        match m {
            MarkerView::Semantic(kind) => {
                let next = self.after_semantic(kind, self.cursor_abs(), self.cursor_col());
                TermModel {
                    outbox: next.outbox.push(
                        EventView::SemanticPrompt { kind, line: self.cursor_abs() },
                    ),
                    ..next
                }
            },
            MarkerView::Cwd(path) => TermModel {
                blocks: if self.blocks.len() > 0 && self.blocks.last().cwd.is_none() {
                    self.blocks.drop_last().push(
                        BlockView { cwd: Some(path), ..self.blocks.last() },
                    )
                } else {
                    self.blocks
                },
                pending_cwd: Some(path),
                outbox: self.outbox.push(EventView::WorkingDirectory(path)),
                ..self
            },
            MarkerView::Completion(r) => TermModel {
                outbox: self.outbox.push(EventView::Completion(r)),
                ..self
            },
        }
    }

    /// The state after a semantic-prompt marker seen at `line`, `col`.
    pub open spec fn after_semantic(self, kind: SemanticKind, line: int, col: int) -> TermModel {
        match kind {
            SemanticKind::PromptStart => self.opened(line),
            SemanticKind::PromptEnd => if self.blocks.len() == 0 {
                self
            } else {
                self.with_last(
                    BlockView {
                        command_line: line,
                        command_col: col,
                        command_started: true,
                        ..self.blocks.last()
                    },
                )
            },
            SemanticKind::OutputStart => if self.blocks.len() == 0
                || self.blocks.last().output_line.is_some() {
                self
            } else {
                let b = self.blocks.last();
                self.with_last(
                    BlockView {
                        output_line: Some(line),
                        command: self.command_text(b.command_line, b.command_col, line),
                        prompt_prefix: self.shown_row(
                            self.grid_line(b.command_line),
                            smaller(b.command_col, self.cols),
                        ),
                        started: true,
                        ..b
                    },
                )
            },
            SemanticKind::CommandFinished(exit) => if self.blocks.len() == 0 {
                self
            } else {
                self.finished(exit, line)
            },
        }
    }

    /// The state with another last block.
    pub open spec fn with_last(self, b: BlockView) -> TermModel {
        TermModel { blocks: self.blocks.drop_last().push(b), ..self }
    }

    /// The state after a block opened at `line`. Once the ids are used up, no
    /// block opens any more.
    pub open spec fn opened(self, line: int) -> TermModel {
        let p = self.pruned();
        if p.next_id >= u32::MAX {
            p
        } else {
            TermModel {
                blocks: p.blocks.push(fresh_block(p.next_id, line, p.pending_cwd)),
                next_id: p.next_id + 1,
                pending_cwd: None,
                ..p
            }
        }
    }

    /// The state after the last block finished on `line`: the block is closed and
    /// its buffer frozen, in place of one frozen before.
    pub open spec fn finished(self, exit: Option<i32>, line: int) -> TermModel {
        let b = self.blocks.last();
        let closed = BlockView {
            end_line: Some(line),
            exit_code: exit,
            state: finished_state(exit),
            output_excerpt: match b.output_line {
                Some(out) => self.excerpt(out, line),
                None => b.output_excerpt,
            },
            ..b
        };
        let f = self.frozen_of(closed, line);
        TermModel {
            frozen: if self.frozen.len() > 0 && self.frozen.last().id == b.id {
                self.frozen.drop_last().push(f)
            } else {
                self.frozen.push(f)
            },
            ..self.with_last(closed)
        }
    }

    /// Whether block `i` has its frozen buffer at the same place in the list.
    pub open spec fn backed(self, i: int) -> bool {
        i < self.frozen.len() && self.frozen[i].id == self.blocks[i].id
    }

    /// How many blocks from the front have left the grid's history whole, with no
    /// frozen buffer to show them from, counting from block `i` on.
    pub open spec fn stale(self, i: int) -> int
        decreases self.blocks.len() - i,
    {
        if 0 <= i && i + 1 < self.blocks.len() && self.blocks[i + 1].prompt_line <= self.oldest_kept()
            && !self.backed(i) {
            self.stale(i + 1)
        } else {
            i
        }
    }

    /// The state after the oldest blocks were dropped: those gone from history
    /// that no buffer backs, then any above the cap; and with them their buffers.
    pub open spec fn pruned(self) -> TermModel {
        let rest = self.blocks.skip(self.stale(0));
        let kept = if rest.len() > MAX_BLOCKS {
            rest.skip(rest.len() - MAX_BLOCKS)
        } else {
            rest
        };
        TermModel {
            blocks: kept,
            frozen: if kept.len() == 0 {
                Seq::empty()
            } else {
                frozen_from(self.frozen, kept[0].id)
            },
            ..self
        }
    }

    /// The state after the chunk `bytes` up to its `n`th marker: the emulator was
    /// fed up to that marker's end, and the marker applied.
    pub open spec fn after_hits(self, bytes: Seq<u8>, hits: Seq<(int, MarkerView)>, n: int) -> TermModel
        decreases n,
    {
        if n <= 0 {
            self
        } else {
            let from = if n == 1 {
                0
            } else {
                hits[n - 2].0
            };
            let hit = hits[n - 1];
            self.after_hits(bytes, hits, n - 1).fed(bytes.subrange(from, hit.0)).marked_by(hit.1)
        }
    }

    /// The state after the chunk `bytes` was processed.
    pub open spec fn processed(self, bytes: Seq<u8>) -> TermModel {
        let hits = scan_hits(self.scan, bytes);
        let start = self.begun(bytes);
        let from = if hits.len() == 0 {
            0
        } else {
            hits.last().0
        };
        start.after_hits(bytes, hits, hits.len() as int).fed(
            bytes.subrange(from, bytes.len() as int),
        )
    }

    // --- resizing ---

    /// The state after the grid took a new size.
    pub open spec fn resized(self, cols: u16, rows: u16) -> TermModel {
        let c = crate::emulator::at_least_one(cols) as int;
        let r = crate::emulator::at_least_one(rows) as int;
        let m = TermModel {
            cols: c,
            rows: r,
            log: self.log.push(EmuOp::Resize { cols: c, rows: r }),
            pending_cwd: None,
            ..self
        };
        (TermModel { prev_history: grid_history(m.log) as int, prev_alt: m.alt(), ..m }).reanchored(
            cols as int,
        )
    }

    /// Whether the newest block is still open.
    pub open spec fn has_open(self) -> bool {
        self.blocks.len() > 0 && self.blocks.last().end_line.is_none()
    }

    /// Whether every finished block has its buffer at the same place in the list.
    pub open spec fn aligned(self) -> bool {
        &&& self.frozen.len() == self.blocks.len() - (if self.has_open() {
            1int
        } else {
            0
        })
        &&& forall|i: int| 0 <= i < self.frozen.len() ==> (#[trigger] self.frozen[i]).id == self.blocks[i].id
    }

    /// The frozen buffers re-wrapped to `cols`.
    pub open spec fn reflowed_frozen(self, cols: int) -> Seq<FrozenView> {
        self.frozen.map_values(
            |f: FrozenView| f.rewrapped(cols),
        )
    }

    /// Where the open block's content begins on the re-wrapped screen: the
    /// cursor's line at a resting prompt, else the top of the screen.
    pub open spec fn reflow_base(self) -> int {
        if self.has_open() && !self.running() && !self.alt() {
            self.cursor_abs()
        } else {
            self.abs_base
        }
    }

    /// The state after a re-wrap to `cols`: the frozen buffers are re-wrapped, and
    /// the blocks stacked so that they end just above the open block.
    pub open spec fn reanchored(self, cols: int) -> TermModel {
        if self.blocks.len() == 0 || !self.aligned() {
            TermModel { blocks: Seq::empty(), frozen: Seq::empty(), ..self }
        } else {
            let frozen = self.reflowed_frozen(cols);
            let base = self.reflow_base();
            TermModel {
                frozen,
                blocks: Seq::new(
                    self.blocks.len(),
                    |i: int|
                        if i < frozen.len() {
                            stacked(self.blocks[i], frozen, base, i)
                        } else {
                            pinned(self.blocks[i], base)
                        },
                ),
                ..self
            }
        }
    }

    // --- scrolling ---

    /// The line at the top of the viewport.
    pub open spec fn viewport_top(self) -> int {
        match self.scroll_top {
            Some(t) => t,
            None => self.abs_base,
        }
    }

    /// The oldest line that can be scrolled to: the first block's prompt, or what
    /// the grid keeps where there is no block.
    pub open spec fn oldest_shown(self) -> int {
        if self.blocks.len() > 0 {
            smaller(self.blocks[0].prompt_line, self.abs_base)
        } else {
            self.oldest_kept()
        }
    }

    /// The state with line `abs` at the top of the viewport, or the nearest line
    /// that can be.
    pub open spec fn scrolled_to(self, abs: int) -> TermModel {
        let t = clamp(abs, self.oldest_shown(), self.abs_base);
        TermModel {
            scroll_top: if t >= self.abs_base {
                None
            } else {
                Some(t)
            },
            ..self
        }
    }

    /// The newest of the first `n` blocks whose prompt is above the viewport.
    pub open spec fn prev_block(self, n: int) -> Option<int>
        decreases n,
    {
        if n <= 0 {
            None
        } else if self.blocks[n - 1].prompt_line < self.viewport_top() {
            Some(n - 1)
        } else {
            self.prev_block(n - 1)
        }
    }

    /// The oldest block, from block `i` on, whose prompt is below the top of the
    /// viewport.
    pub open spec fn next_block(self, i: int) -> Option<int>
        decreases self.blocks.len() - i,
    {
        if i >= self.blocks.len() {
            None
        } else if self.blocks[i].prompt_line > self.viewport_top() {
            Some(i)
        } else {
            self.next_block(i + 1)
        }
    }

    /// Whether the viewport is scrolled away from the live edge.
    pub open spec fn scrolled(self) -> bool {
        self.scroll_top.is_some()
    }

    /// Whether a command is running: its output began, and it has not finished.
    pub open spec fn running(self) -> bool {
        self.blocks.len() > 0 && self.blocks.last().output_line.is_some()
            && self.blocks.last().end_line.is_none()
    }

    /// The line after the last one of block `i`.
    pub open spec fn block_end(self, i: int) -> int {
        if i + 1 < self.blocks.len() {
            self.blocks[i + 1].prompt_line
        } else {
            match self.blocks[i].end_line {
                Some(e) => e + 1,
                None => self.cursor_abs() + 1,
            }
        }
    }

    /// The block that line `abs` belongs to.
    pub open spec fn block_at(self, abs: int) -> Option<int> {
        let n = lead(self.blocks, abs);
        if n > 0 && abs < self.block_end(n - 1) {
            Some(n - 1)
        } else {
            None
        }
    }

    // --- the screen ---

    /// A blank cell in the default colors.
    pub open spec fn blank(self) -> CellSnapshot {
        blank_cell(self.palette.foreground, self.palette.background)
    }

    /// A blank cell in the dim color of the band.
    pub open spec fn dim_blank(self) -> CellSnapshot {
        blank_cell(self.palette.colors@[8], self.palette.background)
    }

    /// The cells of absolute line `abs`: from the frozen buffer of the block it
    /// belongs to, else from the grid, else blank. A buffer's last row is its
    /// block's last line.
    pub open spec fn composite_row(self, abs: int) -> Seq<CellSnapshot> {
        let empty = row_of(self.blank(), self.cols);
        let idx = self.block_at(abs);
        if idx.is_some() && self.backed(idx->0) {
            let f = self.frozen[idx->0];
            match self.blocks[idx->0].end_line {
                Some(end) => {
                    let k = abs - end + f.row_count() - 1;
                    if 0 <= k < f.row_count() {
                        overlaid(empty, f.row(k))
                    } else {
                        empty
                    }
                },
                None => empty,
            }
        } else if -self.depth() <= abs - self.abs_base <= self.rows - 1 {
            self.shown_row(abs - self.abs_base, self.cols)
        } else {
            empty
        }
    }

    /// Whether the cell in column `col` of line `abs` is selected.
    pub open spec fn selected(self, abs: int, col: int) -> bool {
        match self.sel {
            Some(s) => s.covers(self.cols, abs, col),
            None => false,
        }
    }

    /// `row`, as line `abs`, with its selected cells flagged.
    pub open spec fn with_selection(self, row: Seq<CellSnapshot>, abs: int) -> Seq<CellSnapshot> {
        Seq::new(row.len(), |c: int| marked(row[c], self.selected(abs, c)))
    }

    /// The text of line `abs` between two columns, both included, without the
    /// white space at its end.
    pub open spec fn line_text(self, abs: int, lo: int, hi: int) -> Seq<char> {
        if lo <= hi < self.cols {
            trimmed_end(cells_text(self.composite_row(abs).subrange(lo, hi + 1)))
        } else {
            Seq::empty()
        }
    }

    /// The texts of the first `n` lines of the range from `first` to `last`.
    pub open spec fn range_lines(self, first: (int, int), last: (int, int), n: int) -> Seq<Seq<char>> {
        Seq::new(
            n as nat,
            |i: int|
                {
                    let abs = first.0 + i;
                    self.line_text(
                        abs,
                        if i == 0 {
                            first.1
                        } else {
                            0
                        },
                        if abs == last.0 {
                            last.1
                        } else {
                            self.cols - 1
                        },
                    )
                },
        )
    }

    /// The text of the cells from `first` to `last` in reading order, both
    /// included, one line of text for each line.
    pub open spec fn range_text(self, first: (int, int), last: (int, int)) -> Seq<char> {
        join_on(
            self.range_lines(first, last, larger(last.0 - first.0 + 1, 0)),
            seq!['\n'],
        )
    }

    /// The selected text; none where it is white space alone.
    pub open spec fn selected_text(self) -> Option<Seq<char>> {
        match self.sel {
            Some(s) => match s.span(self.cols) {
                Some((first, last)) => {
                    let t = self.range_text(first, last);
                    if trimmed(t).len() == 0 {
                        None
                    } else {
                        Some(t)
                    }
                },
                None => None,
            },
            None => None,
        }
    }

    /// The text of the block at the top of the viewport.
    pub open spec fn top_block_text(self) -> Option<Seq<char>> {
        match self.block_at(self.viewport_top()) {
            Some(i) => {
                let t = trimmed_end(
                    self.range_text(
                        (self.blocks[i].prompt_line, 0),
                        (self.block_end(i) - 1, self.cols - 1),
                    ),
                );
                if t.len() == 0 {
                    None
                } else {
                    Some(t)
                }
            },
            None => None,
        }
    }

    /// The last row of the soft-wrapped run that goes on from `line`.
    pub open spec fn run_bottom(self, line: int) -> int
        decreases self.rows - line,
    {
        if line < self.rows - 1 && self.wraps(line) {
            self.run_bottom(line + 1)
        } else {
            line
        }
    }

    /// The first row of the soft-wrapped run that leads to `line`.
    pub open spec fn run_top(self, line: int) -> int
        decreases line,
    {
        if line > 0 && self.wraps(line - 1) {
            self.run_top(line - 1)
        } else {
            line
        }
    }

    /// The last grid row of the resting prompt's input.
    pub open spec fn input_bottom(self) -> int {
        self.run_bottom(self.cursor_row())
    }

    /// The first grid row of the resting prompt's input: where the open block's
    /// command begins, or the soft-wrapped rows above the cursor; never so far up
    /// that no row is left for content.
    pub open spec fn input_top(self) -> int {
        let bottom = self.input_bottom();
        let top = if self.has_open() {
            smaller(self.grid_line(self.blocks.last().command_line), self.cursor_row())
        } else {
            self.run_top(self.cursor_row())
        };
        smaller(larger(top, bottom - (larger(self.rows - 1, 1) - 1)), bottom)
    }

    /// How many rows the resting prompt's input takes.
    pub open spec fn resting_height(self) -> int {
        self.input_bottom() - self.input_top() + 1
    }

    /// The captured prompt of the running command.
    pub open spec fn prefix(self) -> Seq<CellSnapshot> {
        if self.blocks.len() > 0 {
            self.blocks.last().prompt_prefix
        } else {
            Seq::empty()
        }
    }

    /// How many columns the captured prompt takes.
    pub open spec fn prefix_width(self) -> int {
        smaller(self.prefix().len() as int, self.cols)
    }

    /// The typed text as it is shown: one bullet per character where it is masked.
    pub open spec fn band_text(self) -> Seq<char> {
        if self.band.masked {
            Seq::new(self.band.input.len(), |i: int| '\u{2022}')
        } else {
            self.band.input
        }
    }

    /// The rows of the typed text.
    pub open spec fn band_chunks(self) -> Seq<Seq<char>> {
        wrapped(self.prefix_width(), self.band_text(), self.cols)
    }

    /// Whether the caret has a row of its own below the typed text.
    pub open spec fn band_spills(self) -> bool {
        caret_spills(self.prefix_width(), self.band_text(), self.cols)
    }

    /// How many rows the typed text takes, with its caret.
    pub open spec fn band_height(self) -> int {
        if self.band.input.len() == 0 {
            1
        } else {
            self.band_chunks().len() + (if self.band_spills() {
                1int
            } else {
                0
            })
        }
    }

    /// How many rows the input line takes, before the screen's height is heeded.
    pub open spec fn input_height(self) -> int {
        if self.running() {
            self.band_height()
        } else {
            self.resting_height()
        }
    }

    /// How many rows the queued commands take above an input line of `input` rows.
    pub open spec fn queue_rows(self, input: int) -> int {
        larger(
            smaller(
                smaller(self.band.queued.len() as int, MAX_QUEUE_ROWS as int),
                self.rows - 1 - input,
            ),
            0,
        )
    }

    /// How many rows at the bottom the input band takes: its input line and the
    /// queued commands, with at least one row left for content. None on a screen
    /// of one row, on the alternate screen, or while scrolled back.
    pub open spec fn band_rows(self) -> int {
        if self.rows <= 1 || self.scrolled() || self.alt() {
            0
        } else {
            let input = clamp(self.input_height(), 1, self.rows - 1);
            input + self.queue_rows(input)
        }
    }

    /// Whether a grid row shows anything.
    pub open spec fn row_occupied(self, line: int) -> bool {
        exists|c: int|
            0 <= c < self.cols && occupied(self.palette, #[trigger] grid_cell(self.log, line, c))
    }

    /// The lowest row at or above `line` that shows anything, or the cursor's row
    /// where that is lower.
    pub open spec fn lowest(self, line: int) -> int
        decreases line + 1,
    {
        if line <= self.cursor_row() || line < 0 {
            self.cursor_row()
        } else if self.row_occupied(line) {
            line
        } else {
            self.lowest(line - 1)
        }
    }

    /// The lowest row that shows anything.
    pub open spec fn content_bottom(self) -> int {
        self.lowest(self.rows - 1)
    }

    /// How many rows down the grid is drawn, above a band of `band` rows: as many
    /// as put the last output just above the band; below zero where the band
    /// pushes rows off the top.
    pub open spec fn shift_for(self, band: int) -> int {
        if self.scrolled() || self.alt() || self.rows <= 1 {
            0
        } else {
            let reserve = larger(BOTTOM_GUTTER as int, band);
            let relocated = if self.running() {
                0
            } else {
                self.resting_height()
            };
            larger(self.rows - 1 - reserve - (self.content_bottom() - relocated), -band)
        }
    }

    /// How many rows down the grid is drawn.
    pub open spec fn shift(self) -> int {
        self.shift_for(self.band_rows())
    }

    /// The selection endpoint at a cell of the viewport.
    pub open spec fn point_at(self, col: int, row: int, right_half: bool) -> SelPoint {
        SelPoint {
            abs: (match self.scroll_top {
                Some(top) => top + row,
                None => self.abs_base + row - self.shift(),
            }) as i64,
            col: smaller(col, self.cols - 1) as usize,
            side: if right_half {
                Side::Right
            } else {
                Side::Left
            },
        }
    }

    /// Whether a grid row was moved into the band.
    pub open spec fn moved_to_band(self, line: int) -> bool {
        &&& self.band_rows() > 0
        &&& !self.running()
        &&& self.input_top() <= line <= self.input_bottom()
    }

    /// Row `r` of the output region at the live edge.
    pub open spec fn output_row(self, r: int) -> Seq<CellSnapshot> {
        let line = r - self.shift();
        if 0 <= line < self.rows && !self.moved_to_band(line) {
            self.with_selection(self.shown_row(line, self.cols), self.abs_base + line)
        } else {
            row_of(self.blank(), self.cols)
        }
    }

    /// How many of the band's rows its input line takes.
    pub open spec fn band_input_rows(self) -> int {
        clamp(self.input_height(), 1, self.band_rows())
    }

    /// The first row of the band's input line.
    pub open spec fn band_input_top(self) -> int {
        self.rows - self.band_input_rows()
    }

    /// The text of row `i` of the queue, shown in `count` rows.
    pub open spec fn queue_text(self, i: int, count: int) -> Seq<char> {
        let total = self.band.queued.len() as int;
        if i + 1 == count && total > count {
            "+ "@ + decimal((total - (count - 1)) as nat) + " more queued"@
        } else {
            seq!['\u{2022}', ' '] + self.band.queued[i]
        }
    }

    /// Row `i` of the queue, dim and italic.
    pub open spec fn queue_row(self, i: int, count: int) -> Seq<CellSnapshot> {
        let style = CellSnapshot {
            flags: CellFlags { bits: CellFlags::ITALIC },
            ..self.dim_blank()
        };
        written(
            row_of(self.dim_blank(), self.cols),
            0,
            self.cols,
            self.queue_text(i, count),
            style,
        )
    }

    /// What stands in for the typed text while there is none.
    pub open spec fn placeholder(self) -> Seq<char> {
        if self.blocks.len() > 0 && self.blocks.last().command.len() > 0 {
            self.blocks.last().command
        } else {
            "running\u{2026}"@
        }
    }

    /// The wrapped row that the caret is on.
    pub open spec fn caret_row(self) -> int {
        if self.band_spills() {
            self.band_chunks().len() as int
        } else {
            self.band_chunks().len() - 1
        }
    }

    /// The column that the caret is on.
    pub open spec fn caret_col(self) -> int {
        if self.band_spills() {
            0
        } else {
            let chunks = self.band_chunks();
            (if chunks.len() <= 1 {
                self.prefix_width()
            } else {
                0
            }) + text_width(chunks.last())
        }
    }

    /// The first wrapped row that is visible in `height` rows, so that the last
    /// one is.
    pub open spec fn first_visible(self, height: int) -> int {
        larger(self.band_height() - height, 0)
    }

    /// Wrapped row `v` of the type-ahead field: the prompt leads the first one, and
    /// the suggestion follows the caret, dimmed, to the end of its row.
    pub open spec fn type_row(self, v: int) -> Seq<CellSnapshot> {
        let empty = row_of(self.dim_blank(), self.cols);
        let chunks = self.band_chunks();
        let typed = if v == 0 {
            written(
                overlaid(empty, self.prefix()),
                self.prefix_width(),
                self.cols,
                chunks[0],
                self.blank(),
            )
        } else if v < chunks.len() {
            written(empty, 0, self.cols, chunks[v], self.blank())
        } else {
            empty
        };
        match self.band.suggestion {
            Some(s) => if v == self.caret_row() {
                written(
                    typed,
                    smaller(self.caret_col(), self.cols),
                    self.cols,
                    s,
                    self.dim_blank(),
                )
            } else {
                typed
            },
            None => typed,
        }
    }

    /// Row `i` of the band's input line.
    pub open spec fn input_row(self, i: int) -> Seq<CellSnapshot> {
        if !self.running() {
            self.shown_row(self.input_top() + i, self.cols)
        } else if self.band.input.len() == 0 {
            written(
                overlaid(row_of(self.dim_blank(), self.cols), self.prefix()),
                self.prefix_width(),
                self.cols,
                self.placeholder(),
                self.dim_blank(),
            )
        } else {
            self.type_row(self.first_visible(self.band_input_rows()) + i)
        }
    }

    /// Row `r` of the screen at the live edge: the queue and the input line at the
    /// bottom, and the output region above them.
    pub open spec fn live_row(self, r: int) -> Seq<CellSnapshot> {
        let band = self.band_rows();
        if r < self.rows - band {
            self.output_row(r)
        } else if r < self.band_input_top() {
            self.queue_row(r - (self.rows - band), band - self.band_input_rows())
        } else {
            self.input_row(r - self.band_input_top())
        }
    }

    /// Row `r` of the screen.
    pub open spec fn screen_row(self, r: int) -> Seq<CellSnapshot> {
        match self.scroll_top {
            Some(top) => self.with_selection(self.composite_row(top + r), top + r),
            None => self.live_row(r),
        }
    }

    /// Whether the cursor is to be shown.
    pub open spec fn cursor_on(self) -> bool {
        &&& self.seen_output
        &&& self.shape != CursorShape::Hidden
        &&& self.has_mode(MODE_SHOW_CURSOR)
    }

    /// The cursor at a position, in its own shape.
    pub open spec fn cursor_at(self, col: int, row: int) -> CursorSnapshot {
        CursorSnapshot {
            col: col as u16,
            row: row as u16,
            shape: self.shape,
            color: self.palette.cursor,
            text_color: self.palette.cursor_text,
        }
    }

    /// The text caret at a position, kept within the row.
    pub open spec fn beam_at(self, col: int, row: int) -> CursorSnapshot {
        CursorSnapshot {
            shape: CursorShape::Beam,
            ..self.cursor_at(smaller(col, self.cols - 1), row)
        }
    }

    /// The cursor of the screen.
    pub open spec fn screen_cursor(self) -> Option<CursorSnapshot> {
        if self.scrolled() {
            None
        } else if self.band_rows() <= 0 {
            let row = self.cursor_row() + self.shift();
            if self.cursor_on() && 0 <= row < self.rows {
                Some(self.cursor_at(self.cursor_col(), row))
            } else {
                None
            }
        } else if !self.running() {
            if self.cursor_on() {
                let h = smaller(self.resting_height(), self.band_input_rows());
                Some(
                    self.cursor_at(
                        self.cursor_col(),
                        self.band_input_top() + clamp(self.cursor_row() - self.input_top(), 0, h - 1),
                    ),
                )
            } else {
                None
            }
        } else if self.band.input.len() == 0 {
            Some(self.beam_at(self.prefix_width(), self.band_input_top()))
        } else {
            Some(
                self.beam_at(
                    self.caret_col(),
                    self.band_input_top() + larger(
                        self.caret_row() - self.first_visible(self.band_input_rows()),
                        0,
                    ),
                ),
            )
        }
    }

    /// The decoration of a row that shows line `abs`.
    pub open spec fn decor_at(self, abs: int) -> RowDecor {
        match self.block_at(abs) {
            Some(i) => RowDecor {
                block_id: self.blocks[i].id as u32,
                failed: self.blocks[i].state == BlockState::Failed,
                block_top: abs == self.blocks[i].prompt_line,
            },
            None => no_decor(),
        }
    }

    /// The decoration of row `r` of the screen: none in the band, nor in the
    /// padding above the output.
    pub open spec fn screen_decor(self, r: int) -> RowDecor {
        match self.scroll_top {
            Some(top) => self.decor_at(top + r),
            None => if r < self.rows - self.band_rows() && r >= self.shift() {
                self.decor_at(self.abs_base + r - self.shift())
            } else {
                no_decor()
            },
        }
    }

    /// The header for the block that line `top` belongs to, if its prompt is
    /// above: its command, and whether it failed.
    pub open spec fn sticky_at(self, top: int) -> Option<(Seq<char>, bool)> {
        match self.block_at(top) {
            Some(i) => {
                let b = self.blocks[i];
                if b.prompt_line < top && b.command.len() > 0 {
                    Some((b.command, b.state == BlockState::Failed))
                } else {
                    None
                }
            },
            None => None,
        }
    }

    /// The sticky header of the screen.
    pub open spec fn screen_sticky(self) -> Option<(Seq<char>, bool)> {
        match self.scroll_top {
            Some(top) => self.sticky_at(top),
            None => if self.shift() <= 0 {
                self.sticky_at(self.abs_base - self.shift())
            } else {
                None
            },
        }
    }
}

/// A sticky header as its text and whether its block failed.
pub open spec fn sticky_view(s: Option<StickyHeader>) -> Option<(Seq<char>, bool)> {
    match s {
        Some(h) => Some((h.command@, h.failed)),
        None => None,
    }
}

/// Whether `s` is the screen of the terminal `m`: every row, its decoration, the
/// cursor, the header, the band and the colors.
pub open spec fn is_screen_of(s: GridSnapshot, m: TermModel) -> bool {
    &&& s.wf()
    &&& s.cols == m.cols
    &&& s.rows == m.rows
    &&& forall|r: int| 0 <= r < m.rows ==> #[trigger] s.row_cells(r) == m.screen_row(r)
    &&& forall|r: int| 0 <= r < m.rows ==> #[trigger] s.rows_decor@[r] == m.screen_decor(r)
    &&& s.cursor == m.screen_cursor()
    &&& sticky_view(s.sticky) == m.screen_sticky()
    &&& s.input_band_rows == m.band_rows()
    &&& s.background == m.palette.background
    &&& s.selection_color == m.palette.selection
    &&& s.block_stripe == m.palette.colors@[9]
    &&& s.block_tint == (Rgba { a: 30, ..m.palette.colors@[1] })
    &&& s.block_separator == m.palette.colors@[8]
}

/// The rows that a buffer takes in the stack: at least one.
pub open spec fn stack_height(f: FrozenView) -> int {
    clamp(f.row_count(), 1, i64::MAX as int)
}

/// The last line of buffer `i`, stacked with the others above line `base`.
pub open spec fn stack_end(frozen: Seq<FrozenView>, base: int, i: int) -> int
    decreases frozen.len() - i, 0int,
{
    if 0 <= i && i + 1 < frozen.len() {
        stack_start(frozen, base, i + 1) - 1
    } else {
        base - 1
    }
}

/// The first line of buffer `i`, stacked with the others above line `base`.
pub open spec fn stack_start(frozen: Seq<FrozenView>, base: int, i: int) -> int
    decreases frozen.len() - i, 1int,
{
    line_at(stack_end(frozen, base, i) - (stack_height(frozen[i]) - 1))
}

/// A finished block at its place in the stack. Its output begins as far below
/// its prompt as before, but within the block.
pub open spec fn stacked(b: BlockView, frozen: Seq<FrozenView>, base: int, i: int) -> BlockView {
    let start = stack_start(frozen, base, i);
    BlockView {
        prompt_line: start,
        output_line: match b.output_line {
            Some(o) => Some(
                line_at(start + clamp(o - b.prompt_line, 0, stack_height(frozen[i]) - 1)),
            ),
            None => None,
        },
        end_line: Some(stack_end(frozen, base, i)),
        ..b
    }
}

/// The open block, moved to begin on line `base`. Its output begins as far below
/// its prompt as before.
pub open spec fn pinned(b: BlockView, base: int) -> BlockView {
    BlockView {
        prompt_line: base,
        output_line: match b.output_line {
            Some(o) => Some(line_at(base + larger(o - b.prompt_line, 0))),
            None => None,
        },
        ..b
    }
}

} // verus!
