//! The terminal: emulation state, command blocks, scrolling and selection.
//!
//! Owns the emulator, feeds it raw PTY bytes, and produces a fully
//! color-resolved [`GridSnapshot`](crate::snapshot::GridSnapshot) for the
//! renderer. Terminal-generated side effects (writes back to the PTY, title
//! changes, the bell) queue up as [`TermEvent`]s for the event-loop owner to act
//! on.

use vstd::prelude::*;
use crate::block::{Block, BlockState, block_views, frozen_views, now, state_for_exit};
use crate::completion::{CompletionResponse, opt_text};
use crate::emulator::{EmuEvent, EmuEventView, EmuOp, Emulator, MAX_SCROLLBACK, MODE_ALT_SCREEN, MODE_BRACKETED_PASTE, MODE_MOUSE, MODE_MOUSE_DRAG, MODE_MOUSE_MOTION, MODE_SGR_MOUSE, TermDimensions, at_least_one, cursor_blinks, emu_event_views, emitted, fed_chunks, inputs, pending, read_ahead};
use crate::frozen::FrozenBlock;
use crate::model::{BandView, EventView, LINE_LIMIT, MAX_BLOCKS, TermModel, finished_ids, forwarded, forwarded_all, frozen_from, frozen_ids, is_line};
use crate::model_laws::{feeding_keeps_wf, hits_keep_wf, marker_keeps_wf, forwarding_joins, pruning_keeps_wf, semantic_keeps_wf, stale_in_range};
use crate::osc133::{Marker, MarkerView, ScanState, Scanner, SemanticKind, hit_offsets_increase, hits_view, scan_hits};
use crate::palette::Palette;
use crate::selection::CompositeSelection;
use crate::snapshot::CursorShape;
use crate::text::bytes_of;

mod capture;
mod reflow;
mod band;
mod scroll;
mod screen;
mod select;
use crate::wide::Glyphs;

verus! {

/// A side effect produced by the terminal while parsing.
#[derive(Clone, Debug, PartialEq, Eq)]
pub enum TermEvent {
    /// The terminal wants to send these bytes back to the child (device
    /// attribute replies, cursor position reports, etc.). Must be honored or
    /// some programs hang.
    PtyWrite(Vec<u8>),
    /// Window title change (OSC 0/2).
    Title(String),
    /// Reset the window title to the default.
    ResetTitle,
    /// The program asked to put text on the system clipboard (OSC 52).
    ClipboardStore(String),
    /// Ring the bell.
    Bell,
    /// The grid changed and should be redrawn.
    Wakeup,
    /// The mouse cursor shape may need updating.
    MouseCursorDirty,
    /// The cursor's blink configuration changed (DECSCUSR); the event loop
    /// should refresh its blink scheduling.
    CursorBlink,
    /// A shell-integration semantic-prompt marker (OSC 133), anchored to the
    /// absolute grid line where the cursor sat when it arrived.
    SemanticPrompt { kind: SemanticKind, line: i64 },
    /// The shell reported its working directory (OSC 7).
    WorkingDirectory(String),
    /// A responder answered a completion request.
    Completion(CompletionResponse),
    /// The child process exited.
    Exit,
}

impl TermEvent {
    pub open spec fn view(&self) -> EventView {
        match self {
            TermEvent::PtyWrite(b) => EventView::PtyWrite(b@),
            TermEvent::Title(t) => EventView::Title(t@),
            TermEvent::ResetTitle => EventView::ResetTitle,
            TermEvent::ClipboardStore(s) => EventView::ClipboardStore(s@),
            TermEvent::Bell => EventView::Bell,
            TermEvent::Wakeup => EventView::Wakeup,
            TermEvent::MouseCursorDirty => EventView::MouseCursorDirty,
            TermEvent::CursorBlink => EventView::CursorBlink,
            TermEvent::SemanticPrompt { kind, line } => EventView::SemanticPrompt {
                kind: *kind,
                line: *line as int,
            },
            TermEvent::WorkingDirectory(p) => EventView::WorkingDirectory(p@),
            TermEvent::Completion(r) => EventView::Completion(r@),
            TermEvent::Exit => EventView::Exit,
        }
    }
}

/// Events as views.
pub open spec fn event_views(events: Seq<TermEvent>) -> Seq<EventView> {
    events.map_values(|e: TermEvent| e@)
}

/// What becomes of an event on the emulator's channel. Queries that carry a callback
/// (colors, text area, clipboard reads) are not answered.
pub fn map_event(event: EmuEvent) -> (r: Option<TermEvent>)
    ensures
        match forwarded(event@) {
            Some(e) => r.is_some() && r->0@ == e,
            None => r.is_none(),
        },
{
    match event {
        EmuEvent::PtyWrite(s) => Some(TermEvent::PtyWrite(bytes_of(s.as_str()))),
        EmuEvent::Title(t) => Some(TermEvent::Title(t)),
        EmuEvent::ResetTitle => Some(TermEvent::ResetTitle),
        EmuEvent::ClipboardStore(s) => Some(TermEvent::ClipboardStore(s)),
        EmuEvent::Bell => Some(TermEvent::Bell),
        EmuEvent::Wakeup => Some(TermEvent::Wakeup),
        EmuEvent::MouseCursorDirty => Some(TermEvent::MouseCursorDirty),
        EmuEvent::CursorBlinkingChange => Some(TermEvent::CursorBlink),
        EmuEvent::Exit => Some(TermEvent::Exit),
        EmuEvent::Other => None,
        EmuEvent::Own(e) => Some(e),
    }
}

/// What the bottom input band should display this frame, pushed by the app via
/// [`Terminal::set_band`]: the text typed into the always-editable input line and
/// the commands queued to run on upcoming prompts. While a command runs the band
/// is the live input field — when `input` is empty it shows the running command
/// grayed as a placeholder (see [`Terminal::command_running`]); as soon as the
/// user types, their text replaces it.
#[derive(Clone, Debug)]
pub struct BandState {
    /// Text typed into the band's input line — the next command being composed.
    /// Empty means show the running command as a grayed placeholder instead.
    pub input: String,
    /// Commands queued to run on upcoming prompts, oldest (next to run) first;
    /// shown stacked above the input line, pushing the console up.
    pub queued: Vec<String>,
    /// Mask the typed input (render one bullet per character) because the running
    /// command has turned terminal echo off — e.g. a `sudo` password prompt. The
    /// real text is still sent on Enter; only the on-screen rendering is hidden.
    pub masked: bool,
    /// The un-typed completion to show dimmed after the caret (ghost text): the
    /// rest of a prior command whose prefix matches `input`. None = nothing to
    /// suggest. The app computes it; the band only paints it.
    pub suggestion: Option<String>,
}

/// Strings as sequences of characters.
pub open spec fn string_views(v: Seq<String>) -> Seq<Seq<char>> {
    v.map_values(|s: String| s@)
}

impl BandState {
    pub open spec fn view(&self) -> BandView {
        BandView {
            input: self.input@,
            queued: string_views(self.queued@),
            masked: self.masked,
            suggestion: opt_text(self.suggestion),
        }
    }
}

/// The band of an idle terminal.
pub open spec fn empty_band() -> BandView {
    BandView { input: Seq::empty(), queued: Seq::empty(), masked: false, suggestion: None }
}

impl Default for BandState {
    fn default() -> (b: Self)
        ensures
            b@ == empty_band(),
    {
        let b = BandState {
            input: String::new(),
            queued: Vec::new(),
            masked: false,
            suggestion: None,
        };
        proof {
            assert(b@.queued =~= Seq::empty());
        }
        b
    }
}

/// The terminal model: parser + grid + color resolution.
pub struct Terminal {
    emu: Emulator,
    /// Tees the byte stream for shell-integration markers the emulator drops.
    scanner: Scanner,
    /// Absolute grid-line index of active line 0, advanced as content scrolls
    /// into history. Anchors semantic-prompt markers to a stable line number.
    abs_base: i64,
    /// Last observed scrollback depth, to derive the scroll delta each chunk.
    prev_history: usize,
    /// Last observed alt-screen state, to resync across buffer swaps.
    prev_alt: bool,
    /// Command blocks, oldest first, delimited by semantic-prompt markers.
    blocks: Vec<Block>,
    /// Frozen buffers of completed blocks, oldest first, one per finished block.
    /// Captured on OSC-133 `;D` and kept in lockstep with `blocks` (a finished
    /// block lives in both until pruned).
    frozen: Vec<FrozenBlock>,
    /// Composite scroll position. `None` at the live edge (the bottom-anchored
    /// live grid). `Some(abs)` is the absolute line shown at the top of the
    /// viewport while scrolled back through history; the snapshot then composites
    /// frozen block buffers (above) with the live grid's active region (below),
    /// indexed in absolute-line space — independent of the emulator's own
    /// scrollback offset, which stays at 0.
    scroll_top_abs: Option<i64>,
    /// Next block id to hand out (ids are never 0).
    next_block_id: u32,
    /// Working directory reported (OSC 7) since the last block opened.
    pending_cwd: Option<String>,
    palette: Palette,
    cursor_shape: CursorShape,
    dims: TermDimensions,
    /// Whether any PTY output has arrived yet. Before the shell prints its first
    /// byte the grid is empty; suppressing the cursor until then avoids a lone
    /// cursor flashing at the bottom of an otherwise blank, bottom-anchored screen.
    seen_output: bool,
    /// Input-band state pushed by the app.
    band: BandState,
    /// Active text selection, in composite (absolute-line) coordinates so it spans
    /// frozen block buffers and the live grid alike.
    sel: Option<CompositeSelection>,
    /// What is known of the glyphs of the output so far.
    glyphs: Glyphs,
    /// Whether output came that there is no room for.
    halted: bool,
}

/// The state of a fresh terminal.
pub open spec fn fresh_terminal(
    cols: u16,
    rows: u16,
    scrollback: usize,
    palette: Palette,
    shape: CursorShape,
) -> TermModel {
    let c = at_least_one(cols) as int;
    let r = at_least_one(rows) as int;
    TermModel {
        log: seq![EmuOp::Open { cols: c, rows: r, scrollback: scrollback as int }],
        scan: ScanState::Ground,
        abs_base: 0,
        prev_history: 0,
        prev_alt: false,
        blocks: Seq::empty(),
        frozen: Seq::empty(),
        scroll_top: None,
        next_id: 1,
        pending_cwd: None,
        palette,
        shape,
        cols: c,
        rows: r,
        seen_output: false,
        band: empty_band(),
        sel: None,
        outbox: Seq::empty(),
        halted: false,
    }
}

impl Terminal {
    pub closed spec fn view(&self) -> TermModel {
        TermModel {
            log: inputs(self.emu),
            scan: self.scanner@,
            abs_base: self.abs_base as int,
            prev_history: self.prev_history as int,
            prev_alt: self.prev_alt,
            blocks: block_views(self.blocks@),
            frozen: frozen_views(self.frozen@),
            scroll_top: crate::block::opt_int(self.scroll_top_abs),
            next_id: self.next_block_id as int,
            pending_cwd: opt_text(self.pending_cwd),
            palette: self.palette,
            shape: self.cursor_shape,
            cols: self.dims.cols as int,
            rows: self.dims.rows as int,
            seen_output: self.seen_output,
            band: self.band@,
            sel: self.sel,
            outbox: forwarded_all(pending(self.emu)),
            halted: self.halted,
        }
    }

    /// The model is well-formed, the glyphs of all that the emulator was fed are known,
    /// and as long as the terminal did not stop, nothing else was read ahead.
    pub closed spec fn wf(&self) -> bool {
        &&& self@.wf()
        &&& self.glyphs == Glyphs::after(fed_chunks(self@.log))
        &&& !self.halted ==> read_ahead(self.emu) == fed_chunks(self@.log)
    }

    /// What was read ahead, and what is known of it.
    spec fn ahead(&self) -> (Glyphs, Seq<Seq<u8>>) {
        (self.glyphs, read_ahead(self.emu))
    }

    /// What a well-formed terminal's model is.
    pub proof fn wf_model(&self)
        requires
            self.wf(),
        ensures
            self@.wf(),
    {
    }

    /// Create a terminal with the given grid size, scrollback depth, palette,
    /// and default cursor shape.
    pub fn new(
        cols: u16,
        rows: u16,
        scrollback: usize,
        palette: Palette,
        cursor_shape: CursorShape,
    ) -> (t: Self)
        requires
            scrollback <= MAX_SCROLLBACK,
        ensures
            t.wf(),
            t@ == fresh_terminal(cols, rows, scrollback, palette, cursor_shape),
    {
        let dims = TermDimensions::new(cols, rows);
        let emu = Emulator::open(dims, scrollback);
        let t = Terminal {
            emu,
            scanner: Scanner::new(),
            abs_base: 0,
            prev_history: 0,
            prev_alt: false,
            blocks: Vec::new(),
            frozen: Vec::new(),
            scroll_top_abs: None,
            next_block_id: 1,
            pending_cwd: None,
            palette,
            cursor_shape,
            dims,
            seen_output: false,
            band: BandState::default(),
            sel: None,
            glyphs: Glyphs::new(),
            halted: false,
        };
        proof {
            assert(t@.blocks =~= Seq::empty());
            assert(t@.frozen =~= Seq::empty());
            assert(t@.outbox =~= Seq::empty());
            assert(frozen_ids(t@.frozen) =~= finished_ids(t@.blocks));
            let log = t@.log;
            assert(log.last() == log[0]);
            reveal_with_fuel(fed_chunks, 2);
            reveal(Glyphs::after);
            assert(fed_chunks(log.drop_last()) =~= Seq::empty());
        }
        t
    }

    /// Feed bytes read from the PTY into the parser.
    ///
    /// The bytes are teed for shell-integration markers *before* they reach the
    /// emulator (which silently drops them). To anchor each marker to the grid
    /// line where it occurred, the stream is fed to the emulator in segments
    /// split at every marker terminator, reading the cursor in between.
    ///
    /// A grid one column wide has no room for a double-width glyph, so the bytes may
    /// then display none; [`Terminal::try_process`] tests that.
    pub fn process(&mut self, bytes: &[u8])
        requires
            old(self).wf(),
            old(self)@.takes(bytes@),
        ensures
            final(self).wf(),
            final(self)@ == old(self)@.processed(bytes@),
    {
        let _ = self.run(bytes);
    }

    /// Feed bytes where there is room for what they display, and say whether there was.
    /// Where a double-width glyph comes on one column, the terminal stops before the
    /// segment that holds it, and takes no more output.
    pub fn try_process(&mut self, bytes: &[u8]) -> (taken: bool)
        requires
            old(self).wf(),
        ensures
            final(self).wf(),
            taken == old(self)@.takes(bytes@),
            final(self)@ == if taken {
                old(self)@.processed(bytes@)
            } else {
                old(self)@.stopped(bytes@)
            },
    {
        if self.halted {
            return false;
        }
        self.run(bytes)
    }

    /// Feed the bytes segment by segment, as long as there is room.
    fn run(&mut self, bytes: &[u8]) -> (taken: bool)
        requires
            old(self).wf(),
            !old(self)@.halted,
        ensures
            final(self).wf(),
            taken == old(self)@.takes(bytes@),
            final(self)@ == if taken {
                old(self)@.processed(bytes@)
            } else {
                old(self)@.stopped(bytes@)
            },
    {
        let ghost m0 = self@;
        if bytes.len() > 0 {
            self.seen_output = true;
        }
        let hits = self.scanner.scan(bytes);
        let ghost hv = scan_hits(m0.scan, bytes@);
        let ghost begun = m0.begun(bytes@);
        proof {
            hit_offsets_increase(m0.scan, bytes@);
            assert(self@ == begun);
            assert(hits@.len() == hv.len());
        }
        let mut start: usize = 0;
        for hit in it: hits
            invariant
                it.seq() == hits@,
                hits_view(hits@) == hv,
                hv == scan_hits(m0.scan, bytes@),
                m0 == old(self)@,
                begun == m0.begun(bytes@),
                begun.wf(),
                !m0.halted,
                self.wf(),
                self@ == begun.after_hits(bytes@, hv, it.index() as int),
                start as int == if it.index() == 0 {
                    0
                } else {
                    hv[it.index() - 1].0
                },
                forall|i: int| 0 <= i < hv.len() ==> 1 <= (#[trigger] hv[i]).0 <= bytes@.len(),
                forall|i: int, j: int| 0 <= i < j < hv.len() ==> (#[trigger] hv[i]).0 < (#[trigger] hv[j]).0,
                m0.first_without_room(bytes@, 0) == m0.first_without_room(bytes@, it.index() as int),
                forall|k: int| 0 <= k < it.index() ==> #[trigger] m0.segment_fits(bytes@, k),
        {
            let ghost k = it.index() as int;
            proof {
                assert(hv[k] == (hits@[k].0 as int, hits@[k].1@));
                assert(hit == hits@[k]);
                assert(1 <= hv[k].0 <= bytes@.len());
                if k > 0 {
                    assert(hv[k - 1].0 < hv[k].0);
                }
                hits_keep_wf(begun, m0.scan, bytes@, k);
            }
            let (end, marker) = hit;
            let seg = &bytes[start..end];
            proof {
                assert(seg@ == m0.segment(bytes@, k));
                assert(m0.segment_fits(bytes@, k) == self@.has_room_for(seg@)) by {
                    reveal(TermModel::segment_fits);
                }
            }
            if !self.advance_segment(seg) {
                proof {
                    assert(!m0.segment_fits(bytes@, k));
                    assert(m0.first_without_room(bytes@, k) == k);
                }
                return false;
            }
            start = end;
            self.on_marker(marker);
        }
        let ghost n = hv.len() as int;
        let seg = &bytes[start..bytes.len()];
        proof {
            hits_keep_wf(begun, m0.scan, bytes@, n);
            assert(seg@ == m0.segment(bytes@, n));
            chunk_ends(m0, bytes@);
        }
        self.advance_segment(seg)
    }

    /// Feed one segment to the emulator where there is room for what it displays, and
    /// refresh the absolute-line origin; else stop.
    fn advance_segment(&mut self, seg: &[u8]) -> (fed: bool)
        requires
            old(self).wf(),
            !old(self)@.halted,
        ensures
            final(self).wf(),
            fed == old(self)@.has_room_for(seg@),
            final(self)@ == if fed {
                old(self)@.fed(seg@)
            } else {
                (TermModel { halted: true, ..old(self)@ })
            },
    {
        if seg.len() == 0 {
            return true;
        }
        let ghost m0 = self@;
        let sights = self.emu.foresee(seg);
        let mut glyphs: Glyphs = self.glyphs;
        let room: bool = glyphs.look(&sights);
        if self.dims.cols < 2 && !room {
            self.halted = true;
            return false;
        }
        proof {
            feeding_keeps_wf(m0, seg@);
            reveal(fed_chunks);
            reveal(Glyphs::after);
            let log = m0.log.push(EmuOp::Feed(seg@));
            assert(log.drop_last() =~= m0.log);
            let chunks = fed_chunks(m0.log);
            assert(chunks.push(seg@).drop_last() =~= chunks);
        }
        let ghost waiting = pending(self.emu);
        self.emu.advance(seg);
        self.glyphs = glyphs;
        proof {
            forwarding_joins(waiting, emitted(m0.log, seg@));
        }
        self.sync_abs_base();
        true
    }

    /// Put an event behind those that wait.
    fn post(&mut self, event: TermEvent)
        ensures
            final(self)@ == (TermModel {
                outbox: old(self)@.outbox.push(event@),
                ..old(self)@
            }),
            final(self).ahead() == old(self).ahead(),
    {
        let ghost waiting = pending(self.emu);
        let ghost own = EmuEventView::Own(event@);
        self.emu.post(event);
        proof {
            assert(waiting.push(own).drop_last() =~= waiting);
        }
    }

    /// Advance the absolute-line origin by however many lines just scrolled into
    /// history. Exact until the scrollback buffer saturates; frozen while the
    /// alt screen is active (its content never enters the main history).
    fn sync_abs_base(&mut self)
        requires
            0 <= old(self)@.abs_base <= LINE_LIMIT,
        ensures
            final(self)@ == old(self)@.synced(),
            final(self).ahead() == old(self).ahead(),
    {
        let ghost m0 = self@;
        let alt: bool = self.alt_screen();
        let hist: usize = self.emu.history_size();
        if alt != self.prev_alt {
            self.prev_alt = alt;
            self.prev_history = hist;
            return ;
        }
        if !alt {
            if hist >= self.prev_history {
                let grown: usize = hist - self.prev_history;
                self.abs_base = if grown as u64 >= (LINE_LIMIT - self.abs_base) as u64 {
                    LINE_LIMIT
                } else {
                    self.abs_base + grown as i64
                };
            } else {
                self.abs_base = 0;
                self.blocks = Vec::new();
                self.frozen = Vec::new();
                proof {
                    assert(self@.blocks =~= Seq::empty());
                    assert(self@.frozen =~= Seq::empty());
                }
            }
        }
        self.prev_history = hist;
    }

    /// Act on a recognized shell-integration marker: update the block model and
    /// queue the marker as an event.
    fn on_marker(&mut self, marker: Marker)
        requires
            old(self).wf(),
        ensures
            final(self).wf(),
            final(self)@ == old(self)@.marked_by(marker@),
    {
        let ghost m0 = self@;
        proof {
            marker_keeps_wf(m0, marker@);
        }
        match marker {
            Marker::Semantic(kind) => {
                let line: i64 = self.absolute_cursor_line();
                let col: usize = self.cursor_col();
                self.apply_semantic(kind, line, col);
                self.post(TermEvent::SemanticPrompt { kind, line });
            },
            Marker::Cwd(path) => {
                self.on_cwd(path);
            },
            Marker::Completion(r) => {
                self.post(TermEvent::Completion(r));
            },
        }
    }

    /// The shell is in the directory `path`: so is the last block, unless it knows of
    /// one.
    fn on_cwd(&mut self, path: String)
        ensures
            final(self)@ == old(self)@.marked_by(MarkerView::Cwd(path@)),
            final(self).ahead() == old(self).ahead(),
    {
        let ghost blocks = self@.blocks;
        if let Some(mut b) = self.blocks.pop() {
            let ghost last = b@;
            let ghost head = block_views(self.blocks@);
            proof {
                assert(head =~= blocks.drop_last());
                assert(last == blocks.last());
            }
            if b.cwd.is_none() {
                b.cwd = Some(path.clone());
            }
            self.blocks.push(b);
            proof {
                assert(block_views(self.blocks@) =~= head.push(b@));
                assert(blocks.drop_last().push(last) =~= blocks);
            }
        }
        proof {
            if blocks.len() == 0 {
                assert(self@.blocks =~= blocks);
            }
        }
        self.pending_cwd = Some(path.clone());
        self.post(TermEvent::WorkingDirectory(path));
    }

    /// Fold one semantic-prompt marker into the block model.
    fn apply_semantic(&mut self, kind: SemanticKind, line: i64, col: usize)
        requires
            old(self).wf(),
            is_line(line as int),
        ensures
            final(self).wf(),
            final(self)@ == old(self)@.after_semantic(kind, line as int, col as int),
    {
        let ghost m0 = self@;
        proof {
            semantic_keeps_wf(m0, kind, line as int, col as int);
        }
        match kind {
            SemanticKind::PromptStart => {
                self.prune_blocks();
                if self.next_block_id < u32::MAX {
                    let ghost p = self@;
                    let id: u32 = self.next_block_id;
                    self.next_block_id = id + 1;
                    let cwd = self.pending_cwd.take();
                    let b = Block::new(id, line, cwd);
                    self.blocks.push(b);
                    proof {
                        assert(block_views(self.blocks@) =~= p.blocks.push(b@));
                    }
                }
            },
            SemanticKind::PromptEnd => {
                if let Some(mut b) = self.blocks.pop() {
                    let ghost head = block_views(self.blocks@);
                    b.command_line = line;
                    b.command_col = col;
                    b.command_started = true;
                    self.blocks.push(b);
                    proof {
                        assert(head =~= m0.blocks.drop_last());
                        assert(block_views(self.blocks@) =~= head.push(b@));
                    }
                }
            },
            SemanticKind::OutputStart => {
                let n: usize = self.blocks.len();
                if n > 0 && self.blocks[n - 1].output_line.is_none() {
                    let cmd_line: i64 = self.blocks[n - 1].command_line;
                    let cmd_col: usize = self.blocks[n - 1].command_col;
                    proof {
                        assert(m0.blocks[n - 1] == self.blocks@[n - 1]@);
                        assert(crate::model::block_lines_ok(m0.blocks[n - 1]));
                    }
                    // The command is captured exactly once, with the prompt
                    // before it kept in its real colors.
                    let command = self.capture_command(cmd_line, cmd_col, line);
                    let prompt_prefix = self.capture_row_cells(cmd_line, cmd_col);
                    let started = now();
                    if let Some(mut b) = self.blocks.pop() {
                        let ghost head = block_views(self.blocks@);
                        b.output_line = Some(line);
                        b.command = command;
                        b.prompt_prefix = prompt_prefix;
                        b.started_at = Some(started);
                        self.blocks.push(b);
                        proof {
                            assert(head =~= m0.blocks.drop_last());
                            assert(block_views(self.blocks@) =~= head.push(b@));
                        }
                    }
                }
            },
            SemanticKind::CommandFinished(exit) => {
                self.finish_block(exit, line);
            },
        }
    }

    /// Close the last block, and freeze it into an immutable buffer.
    fn finish_block(&mut self, exit: Option<i32>, line: i64)
        requires
            old(self).wf(),
            is_line(line as int),
        ensures
            final(self).ahead() == old(self).ahead(),
            final(self)@ == if old(self)@.blocks.len() == 0 {
                old(self)@
            } else {
                old(self)@.finished(exit, line as int)
            },
    {
        let ghost m0 = self@;
        let n: usize = self.blocks.len();
        if n == 0 {
            return ;
        }
        proof {
            assert(m0.blocks[n - 1] == self.blocks@[n - 1]@);
            assert(crate::model::block_lines_ok(m0.blocks[n - 1]));
        }
        let excerpt: Option<String> = match self.blocks[n - 1].output_line {
            Some(out) => Some(self.capture_excerpt(out, line)),
            None => None,
        };
        let state = state_for_exit(exit);
        let f = self.freeze_block(&self.blocks[n - 1], state == BlockState::Failed, line);
        if let Some(mut b) = self.blocks.pop() {
            let ghost head = block_views(self.blocks@);
            b.end_line = Some(line);
            b.exit_code = exit;
            b.state = state;
            match excerpt {
                Some(e) => {
                    b.output_excerpt = e;
                },
                None => {},
            }
            let ghost closed = b@;
            self.blocks.push(b);
            let ghost mid = frozen_views(self.frozen@);
            let k: usize = self.frozen.len();
            let ghost fv = f@;
            if k > 0 && self.frozen[k - 1].id == f.id {
                let _ = self.frozen.pop();
                proof {
                    assert(frozen_views(self.frozen@) =~= mid.drop_last());
                    assert(mid.last() == mid[k - 1]);
                }
            } else {
                proof {
                    if k > 0 {
                        assert(mid.last() == mid[k - 1]);
                    }
                }
            }
            let ghost rest = frozen_views(self.frozen@);
            self.frozen.push(f);
            proof {
                assert(head =~= m0.blocks.drop_last());
                assert(block_views(self.blocks@) =~= head.push(closed));
                assert(frozen_views(self.frozen@) =~= rest.push(fv));
                assert(fv == m0.frozen_of(closed, line as int));
            }
        }
    }

    /// How many leading blocks have scrolled out of retained history and have no
    /// frozen buffer.
    fn count_stale(&self) -> (n: usize)
        requires
            self.wf(),
        ensures
            n == self@.stale(0),
    {
        let oldest: i64 = self.oldest_kept();
        let mut n: usize = 0;
        while n + 1 < self.blocks.len() && self.blocks[n + 1].prompt_line <= oldest && !self.frozen_backed(n)
            invariant
                self.wf(),
                oldest == self@.oldest_kept(),
                n < self@.blocks.len() || n == 0,
                self@.blocks.len() <= MAX_BLOCKS + 1,
                self@.stale(0) == self@.stale(n as int),
            decreases self.blocks.len() - n,
        {
            proof {
                assert(self@.blocks[n + 1] == self.blocks@[n + 1]@);
            }
            n = n + 1;
        }
        proof {
            if n + 1 < self@.blocks.len() {
                assert(self@.blocks[n + 1] == self.blocks@[n + 1]@);
            }
        }
        n
    }

    /// Drop blocks whose whole range has scrolled out of retained history *and*
    /// have no frozen buffer to render them from, plus a hard cap so a long-lived
    /// session can't grow the list without bound. Frozen blocks are authoritative
    /// for finished output and outlive the grid's own scrollback, so they survive
    /// the history floor and are bounded only by the cap.
    fn prune_blocks(&mut self)
        requires
            old(self).wf(),
        ensures
            final(self).wf(),
            final(self)@ == old(self)@.pruned(),
    {
        let ghost m0 = self@;
        proof {
            pruning_keeps_wf(m0);
        }
        let from: usize = self.first_kept();
        self.drop_blocks_before(from);
        // Keep the frozen list in lockstep: drop any frozen buffer whose source
        // block was just pruned (ids are monotonic, both lists oldest-first).
        if self.blocks.len() == 0 {
            self.frozen = Vec::new();
            proof {
                assert(self@.frozen =~= Seq::empty());
            }
        } else {
            let id: u32 = self.blocks[0].id;
            proof {
                assert(self@.blocks[0] == self.blocks@[0]@);
            }
            self.drop_frozen_below(id);
        }
    }

    /// The first block that is kept: none before it is still needed, and it and those
    /// after it are not too many.
    fn first_kept(&self) -> (from: usize)
        requires
            self.wf(),
        ensures
            from <= self@.blocks.len(),
            self@.pruned().blocks == self@.blocks.skip(from as int),
    {
        proof {
            stale_in_range(self@, 0);
        }
        let stale: usize = self.count_stale();
        let mut from: usize = stale;
        if self.blocks.len() - stale > MAX_BLOCKS {
            from = self.blocks.len() - MAX_BLOCKS;
        }
        proof {
            let rest = self@.blocks.skip(stale as int);
            assert(rest.skip(from - stale) =~= self@.blocks.skip(from as int));
        }
        from
    }

    /// Drop the blocks before block `from`.
    fn drop_blocks_before(&mut self, from: usize)
        requires
            from <= old(self)@.blocks.len(),
        ensures
            final(self)@ == (TermModel {
                blocks: old(self)@.blocks.skip(from as int),
                ..old(self)@
            }),
            final(self).ahead() == old(self).ahead(),
    {
        let ghost blocks = self@.blocks;
        if from > 0 {
            self.blocks = self.blocks.split_off(from);
        }
        proof {
            assert(block_views(self.blocks@) =~= blocks.skip(from as int));
        }
    }

    /// Whether block `i` has its frozen buffer at the same place in the list.
    fn frozen_backed(&self, i: usize) -> (b: bool)
        requires
            i < self@.blocks.len(),
        ensures
            b == self@.backed(i as int),
    {
        proof {
            assert(self@.blocks[i as int] == self.blocks@[i as int]@);
            if i < self.frozen@.len() {
                assert(self@.frozen[i as int] == self.frozen@[i as int]@);
            }
        }
        i < self.frozen.len() && self.frozen[i].id == self.blocks[i].id
    }

    /// Drop the leading frozen buffers whose id is below `id`.
    fn drop_frozen_below(&mut self, id: u32)
        ensures
            final(self)@ == (TermModel {
                frozen: frozen_from(old(self)@.frozen, id as int),
                ..old(self)@
            }),
            final(self).ahead() == old(self).ahead(),
    {
        let ghost f0 = frozen_views(self.frozen@);
        let mut k: usize = 0;
        proof {
            assert(f0.skip(0) =~= f0);
        }
        while k < self.frozen.len() && self.frozen[k].id < id
            invariant
                k <= self.frozen@.len(),
                f0 == frozen_views(self.frozen@),
                self == old(self),
                frozen_from(f0, id as int) == frozen_from(f0.skip(k as int), id as int),
            decreases self.frozen@.len() - k,
        {
            proof {
                assert(f0.skip(k as int)[0] == f0[k as int]);
                assert(f0[k as int] == self.frozen@[k as int]@);
                assert(f0.skip(k as int).skip(1) =~= f0.skip(k + 1));
            }
            k = k + 1;
        }
        proof {
            if k < self.frozen@.len() {
                assert(f0.skip(k as int)[0] == f0[k as int]);
                assert(f0[k as int] == self.frozen@[k as int]@);
            }
        }
        if k > 0 {
            self.frozen = self.frozen.split_off(k);
        }
        proof {
            assert(frozen_views(self.frozen@) =~= f0.skip(k as int));
        }
    }

    /// All command blocks, oldest first.
    pub fn blocks(&self) -> (b: &Vec<Block>)
        ensures
            block_views(b@) == self@.blocks,
    {
        &self.blocks
    }

    /// Frozen buffers of completed blocks, oldest first — one per finished block,
    /// captured on OSC-133 `;D`.
    pub fn frozen_blocks(&self) -> (f: &Vec<FrozenBlock>)
        ensures
            frozen_views(f@) == self@.frozen,
    {
        &self.frozen
    }

    /// Take the side effects that have queued up, oldest first.
    pub fn events(&mut self) -> (events: Vec<TermEvent>)
        requires
            old(self).wf(),
        ensures
            final(self).wf(),
            event_views(events@) == old(self)@.outbox,
            final(self)@ == (TermModel { outbox: Seq::empty(), ..old(self)@ }),
    {
        let ghost all = pending(self.emu);
        let waiting = self.emu.take_events();
        let mut taken: Vec<TermEvent> = Vec::new();
        proof {
            assert(all.take(0) =~= Seq::empty());
            assert(event_views(taken@) =~= forwarded_all(all.take(0)));
            assert(waiting@.len() == all.len());
        }
        for event in it: waiting
            invariant
                it.seq() == waiting@,
                emu_event_views(waiting@) == all,
                event_views(taken@) == forwarded_all(all.take(it.index() as int)),
        {
            let ghost k = it.index() as int;
            let ghost before = event_views(taken@);
            proof {
                assert(all[k] == waiting@[k]@);
                assert(event == waiting@[k]);
                assert(all.take(k + 1).drop_last() =~= all.take(k));
                assert(all.take(k + 1).last() == all[k]);
            }
            match map_event(event) {
                Some(e) => {
                    taken.push(e);
                    proof {
                        assert(event_views(taken@) =~= before.push(e@));
                    }
                },
                None => {},
            }
        }
        proof {
            assert(all.take(all.len() as int) =~= all);
        }
        taken
    }

    /// Current grid size in cells.
    pub fn grid_size(&self) -> (s: (u16, u16))
        ensures
            s.0 == self@.cols,
            s.1 == self@.rows,
    {
        (self.dims.cols, self.dims.rows)
    }

    /// Replace the active palette (e.g. on theme change).
    pub fn set_palette(&mut self, palette: Palette)
        requires
            old(self).wf(),
        ensures
            final(self).wf(),
            final(self)@ == (TermModel { palette, ..old(self)@ }),
    {
        self.palette = palette;
    }

    /// Push the bottom input band's state (the editable compose line and the
    /// type-ahead queue). The app owns the authoritative edit/queue state and
    /// pushes a fresh view here on every change, so band height and rendering
    /// stay derived from one source.
    pub fn set_band(&mut self, band: BandState)
        requires
            old(self).wf(),
        ensures
            final(self).wf(),
            final(self)@ == (TermModel { band: band@, ..old(self)@ }),
    {
        self.band = band;
    }

    /// Whether a command is running at the live edge: shell integration reported
    /// its output start (OSC 133;C) but not yet its finish (133;D).
    pub fn command_running(&self) -> (b: bool)
        ensures
            b == self@.running(),
    {
        let n: usize = self.blocks.len();
        proof {
            if n > 0 {
                assert(self@.blocks.last() == self.blocks@[n - 1]@);
            }
        }
        n > 0 && self.blocks[n - 1].output_line.is_some() && self.blocks[n - 1].end_line.is_none()
    }

    // --- terminal modes ---

    /// Whether any of these mode bits is set.
    fn has_mode(&self, bits: u32) -> (b: bool)
        ensures
            b == self@.has_mode(bits),
    {
        self.emu.mode() & bits != 0
    }

    /// Whether the program enabled bracketed paste (DEC 2004).
    pub fn bracketed_paste(&self) -> (b: bool)
        ensures
            b == self@.has_mode(MODE_BRACKETED_PASTE),
    {
        self.has_mode(MODE_BRACKETED_PASTE)
    }

    /// Whether the program is reading mouse events.
    pub fn mouse_mode(&self) -> (b: bool)
        ensures
            b == self@.has_mode(MODE_MOUSE),
    {
        self.has_mode(MODE_MOUSE)
    }

    /// Whether mouse reports should use SGR encoding (DEC 1006) rather than the
    /// legacy X10 byte encoding.
    pub fn sgr_mouse(&self) -> (b: bool)
        ensures
            b == self@.has_mode(MODE_SGR_MOUSE),
    {
        self.has_mode(MODE_SGR_MOUSE)
    }

    /// Whether the program asked for *all* pointer motion to be reported
    /// (DEC 1003), regardless of whether a button is held.
    pub fn mouse_report_all_motion(&self) -> (b: bool)
        ensures
            b == self@.has_mode(MODE_MOUSE_MOTION),
    {
        self.has_mode(MODE_MOUSE_MOTION)
    }

    /// Whether the program asked for button-held drag motion to be reported
    /// (DEC 1002).
    pub fn mouse_report_drag(&self) -> (b: bool)
        ensures
            b == self@.has_mode(MODE_MOUSE_DRAG),
    {
        self.has_mode(MODE_MOUSE_DRAG)
    }

    /// Whether the alternate screen is active (e.g. a full-screen TUI).
    pub fn alt_screen(&self) -> (b: bool)
        ensures
            b == self@.alt(),
    {
        self.has_mode(MODE_ALT_SCREEN)
    }

    /// Whether the program has requested a blinking cursor (DECSCUSR).
    pub fn cursor_blinking(&self) -> (b: bool)
        ensures
            b == cursor_blinks(self@.log),
    {
        self.emu.blinking()
    }
}

/// Where there is room for all segments of a chunk but the last, the last one decides.
proof fn chunk_ends(m: TermModel, bytes: Seq<u8>)
    requires
        !m.halted,
        ({
            let n = scan_hits(m.scan, bytes).len() as int;
            &&& m.first_without_room(bytes, 0) == m.first_without_room(bytes, n)
            &&& forall|k: int| 0 <= k < n ==> #[trigger] m.segment_fits(bytes, k)
        }),
    ensures
        ({
            let n = scan_hits(m.scan, bytes).len() as int;
            let before = m.before_segment(bytes, n);
            let seg = m.segment(bytes, n);
            &&& m.takes(bytes) == before.has_room_for(seg)
            &&& m.processed(bytes) == before.fed(seg)
            &&& !before.has_room_for(seg) ==> m.stopped(bytes) == (TermModel { halted: true, ..before })
        }),
{
    let hits = scan_hits(m.scan, bytes);
    let n = hits.len() as int;
    if n > 0 {
        assert(hits[n - 1] == hits.last());
    }
    reveal(TermModel::segment_fits);
}

} // verus!
