//! The session in mathematical terms: what each event does to it, and what it
//! asks of the window, the clipboard and the child.

use vstd::prelude::*;
use vstd::utf8::encode_utf8;
use crate::block::BlockView;
use crate::commands::{ActionView, bound_action, command_table};
use crate::emulator::{MODE_BRACKETED_PASTE, MODE_MOUSE, MODE_MOUSE_DRAG, MODE_MOUSE_MOTION, MODE_SGR_MOUSE};
use crate::geometry::{ResizeEdge, TitlebarHit};
use crate::keys::{Key, KeyPress, Modifiers, NamedKey, press_bytes};
use crate::model::{BandView, EventView, TermModel, larger};
use crate::mouse::{MouseAction, MouseButton, report_bytes};
use crate::osc133::SemanticKind;
use crate::overlay::{Kind, OverlayColors, OverlayView, erased, history_entries, palette_entries, query_typed, typed, typed_all, up_to};
use crate::selection::CompositeSelection;
use crate::text::{begins_with, trimmed};

verus! {

/// How long each cursor blink phase (visible, then hidden) lasts, in milliseconds.
pub const BLINK_INTERVAL: u64 = 500;

/// Smallest shrink of the bottom-anchor reserve, in rows, that starts the glide.
/// Single-line scrolls stay instant so ordinary typing feels snappy.
pub const GLIDE_MIN_ROWS: u16 = 2;

/// After a resize, the glide is held off for this many milliseconds. The shell
/// answers a resize by redrawing its prompt; that echo must not be mistaken for
/// output filling the screen.
pub const GLIDE_COOLDOWN: u64 = 150;

/// Two titlebar presses within this many milliseconds count as a double-click.
pub const DOUBLE_CLICK: u64 = 400;

/// What the session asks for.
pub ghost enum EffectView {
    /// End the program.
    Exit,
    /// Draw a new frame.
    Redraw,
    /// Write these bytes to the child.
    WritePty(Seq<u8>),
    /// Set the window's title.
    SetTitle(Seq<char>),
    /// Put text on the clipboard.
    SetClipboard(Seq<char>),
    /// Read the clipboard, and hand its text to the session to paste.
    ReadClipboard,
    /// Glide the grid up by this many rows.
    Glide(u16),
    /// Stop a glide.
    CancelGlide,
    /// Let the window be moved.
    DragWindow,
    /// Let the window be resized by this edge.
    DragResize(ResizeEdge),
    Minimize,
    ToggleMaximize,
    /// Highlight this window button.
    Hover(Option<TitlebarHit>),
}

/// A session's state.
pub ghost struct SessionModel {
    pub term: TermModel,
    pub mods: Modifiers,
    /// Whether a selection is being dragged.
    pub selecting: bool,
    /// The button held while the program reads the mouse.
    pub held: Option<u8>,
    /// The cell that motion was last reported for.
    pub report_cell: (u16, u16),
    pub focused: bool,
    /// Whether the cursor's blink phase shows it.
    pub blink_on: bool,
    /// When the blink phase last changed.
    pub last_blink: int,
    pub overlay: Option<OverlayView>,
    /// The text typed into the band.
    pub input: Seq<char>,
    /// Commands queued to run, oldest first.
    pub queue: Seq<Seq<char>>,
    pub colors: OverlayColors,
    /// The bottom-anchor reserve last seen.
    pub prev_shift: u16,
    /// When the window's geometry last changed.
    pub geometry: int,
    /// When the titlebar was last pressed.
    pub titlebar: Option<int>,
    pub hovered: Option<TitlebarHit>,
    /// Whether a program may set the clipboard.
    pub clipboard_write: bool,
}

/// What an event leads to: the next state, and what is asked for.
pub type Outcome = (SessionModel, Seq<EffectView>);

/// The commands of the blocks from block `i` on, the newest first, each once.
pub open spec fn history_of(blocks: Seq<BlockView>, i: int) -> Seq<Seq<char>>
    decreases blocks.len() - i,
{
    if i >= blocks.len() {
        Seq::empty()
    } else {
        let newer = history_of(blocks, i + 1);
        let c = blocks[i].command;
        if c.len() == 0 || newer.contains(c) {
            newer
        } else {
            newer.push(c)
        }
    }
}

/// The rest of the first command from `i` on that goes on from `input`.
pub open spec fn rest_of(commands: Seq<Seq<char>>, input: Seq<char>, i: int) -> Option<Seq<char>>
    decreases commands.len() - i,
{
    if i >= commands.len() {
        None
    } else if begins_with(commands[i], input) && commands[i].len() > input.len() {
        Some(commands[i].skip(input.len() as int))
    } else {
        rest_of(commands, input, i + 1)
    }
}

/// The bytes of pasted text: between markers where the program asked for them.
pub open spec fn paste_bytes(text: Seq<char>, bracketed: bool) -> Seq<u8> {
    if bracketed {
        seq![0x1bu8, 0x5b, 0x32, 0x30, 0x30, 0x7e] + encode_utf8(text) + seq![
            0x1bu8,
            0x5b,
            0x32,
            0x30,
            0x31,
            0x7e,
        ]
    } else {
        encode_utf8(text)
    }
}

/// How much later than `then` it is at `now`; nothing where it is earlier.
pub open spec fn elapsed(now: int, then: int) -> int {
    if now >= then {
        now - then
    } else {
        0
    }
}

/// When a blink phase that began at `start` is over, or the latest time that the
/// clock can show.
pub open spec fn blink_due(start: int) -> u64 {
    if start + BLINK_INTERVAL > u64::MAX {
        u64::MAX
    } else {
        (start + BLINK_INTERVAL) as u64
    }
}

/// `e`, `n` times.
pub open spec fn repeated(e: EffectView, n: int) -> Seq<EffectView> {
    Seq::new(n as nat, |i: int| e)
}

/// How far `x` is from zero.
pub open spec fn magnitude(x: int) -> int {
    if x < 0 {
        -x
    } else {
        x
    }
}

/// Bytes for a list of text, and the carriage return that runs it.
pub open spec fn entered(text: Seq<char>) -> Seq<u8> {
    encode_utf8(text).push(0x0d)
}

/// Whether a trimmed text is empty.
pub open spec fn is_blank_text(s: Seq<char>) -> bool {
    trimmed(s).len() == 0
}

impl SessionModel {
    /// The rest of a prior command that the typed text begins: the newest such
    /// command's. None while nothing is typed, or the text is masked.
    #[verifier::opaque]
    pub open spec fn suggestion(self, echo: bool) -> Option<Seq<char>> {
        if self.input.len() == 0 || !echo {
            None
        } else {
            rest_of(history_of(self.term.blocks, 0), self.input, 0)
        }
    }

    /// The state with the band showing the typed text and the queue; `echo` is
    /// whether the child's terminal echoes, and the text is masked where it does
    /// not.
    #[verifier::opaque]
    pub open spec fn synced(self, echo: bool) -> SessionModel {
        SessionModel {
            term: TermModel {
                band: BandView {
                    input: self.input,
                    queued: self.queue,
                    masked: !echo,
                    suggestion: self.suggestion(echo),
                },
                ..self.term
            },
            ..self
        }
    }

    /// The state at the live edge.
    pub open spec fn at_edge(self) -> SessionModel {
        SessionModel { term: TermModel { scroll_top: None, ..self.term }, ..self }
    }

    /// The state with another scroll position.
    pub open spec fn with_term(self, term: TermModel) -> SessionModel {
        SessionModel { term, ..self }
    }

    /// The palette, opened.
    #[verifier::opaque]
    pub open spec fn palette_opened(self) -> SessionModel {
        SessionModel {
            selecting: false,
            overlay: Some(
                OverlayView {
                    kind: Kind::Palette,
                    query: Seq::empty(),
                    candidates: palette_entries(command_table()),
                    filtered: up_to(palette_entries(command_table()).len() as int),
                    selected: 0,
                },
            ),
            ..self
        }
    }

    /// The history search, opened on the commands of this session's blocks.
    #[verifier::opaque]
    pub open spec fn history_opened(self) -> SessionModel {
        let commands = history_of(self.term.blocks, 0);
        SessionModel {
            selecting: false,
            overlay: Some(
                OverlayView {
                    kind: Kind::History,
                    query: Seq::empty(),
                    candidates: history_entries(commands),
                    filtered: up_to(commands.len() as int),
                    selected: 0,
                },
            ),
            ..self
        }
    }

    /// The state after a jump to a block, if there is one.
    #[verifier::opaque]
    pub open spec fn jumped(self, to: Option<int>) -> SessionModel {
        match to {
            Some(i) => self.scrolled_to(self.term.blocks[i].prompt_line),
            None => self,
        }
    }

    /// The selected text goes to the clipboard, where there is any.
    #[verifier::opaque]
    pub open spec fn selection_copied(self) -> Seq<EffectView> {
        match self.term.selected_text() {
            Some(t) => seq![EffectView::SetClipboard(t)],
            None => Seq::empty(),
        }
    }

    /// The text of the block at the top of the viewport goes to the clipboard,
    /// where there is any.
    #[verifier::opaque]
    pub open spec fn block_copied(self) -> Seq<EffectView> {
        match self.term.top_block_text() {
            Some(t) => seq![EffectView::SetClipboard(t)],
            None => Seq::empty(),
        }
    }

    /// The state with the top of the viewport moved to a line.
    #[verifier::opaque]
    pub open spec fn scrolled_to(self, abs: int) -> SessionModel {
        self.with_term(self.term.scrolled_to(abs))
    }

    /// The state with a selection begun at a cell.
    #[verifier::opaque]
    pub open spec fn selection_begun(self, cell: (u16, u16, bool)) -> SessionModel {
        let p = self.term.point_at(cell.0 as int, cell.1 as int, cell.2);
        SessionModel {
            term: TermModel {
                sel: Some(CompositeSelection { anchor: p, head: p }),
                ..self.term
            },
            selecting: true,
            ..self
        }
    }

    /// The state with the selection extended to a cell.
    #[verifier::opaque]
    pub open spec fn selection_extended(self, col: u16, row: u16, right: bool) -> SessionModel {
        self.with_term(
            TermModel {
                sel: match self.term.sel {
                    Some(s) => Some(
                        CompositeSelection {
                            anchor: s.anchor,
                            head: self.term.point_at(col as int, row as int, right),
                        },
                    ),
                    None => None,
                },
                ..self.term
            },
        )
    }

    /// What running a command leads to.
    #[verifier::opaque]
    pub open spec fn acted(self, a: ActionView, echo: bool) -> Outcome {
        match a {
            ActionView::OpenPalette => (self.palette_opened(), Seq::empty()),
            ActionView::ScrollToTop => (
                self.scrolled_to(self.term.oldest_shown()),
                Seq::empty(),
            ),
            ActionView::ScrollToBottom => (self.at_edge(), Seq::empty()),
            ActionView::CopySelection => (self, self.selection_copied()),
            ActionView::CopyBlock => (self, self.block_copied()),
            ActionView::Paste => (self, seq![EffectView::ReadClipboard]),
            ActionView::PrevBlock => (
                self.jumped(self.term.prev_block(self.term.blocks.len() as int)),
                Seq::empty(),
            ),
            ActionView::NextBlock => (self.jumped(self.term.next_block(0)), Seq::empty()),
            ActionView::PageUp => (
                self.scrolled_to(self.term.viewport_top() - (self.term.rows - 1)),
                Seq::empty(),
            ),
            ActionView::PageDown => (
                self.scrolled_to(self.term.viewport_top() + (self.term.rows - 1)),
                Seq::empty(),
            ),
            ActionView::SearchHistory => (self.history_opened(), Seq::empty()),
            ActionView::Quit => (self, seq![EffectView::Exit]),
            ActionView::InsertCommand(c) => (
                self.at_edge(),
                seq![EffectView::WritePty(encode_utf8(c))],
            ),
            ActionView::QueueInput => (
                (SessionModel {
                    input: Seq::empty(),
                    queue: if is_blank_text(self.input) {
                        self.queue
                    } else {
                        self.queue.push(self.input)
                    },
                    ..self
                }).synced(echo),
                Seq::empty(),
            ),
        }
    }

    /// What a fresh prompt leads to: the next queued command is run, or else a
    /// half-typed line is handed to the prompt.
    #[verifier::opaque]
    pub open spec fn prompted(self, echo: bool) -> Outcome {
        if self.queue.len() > 0 {
            (
                (SessionModel { queue: self.queue.skip(1), ..self }).synced(echo),
                seq![EffectView::WritePty(entered(self.queue[0]))],
            )
        } else if self.input.len() > 0 {
            (
                (SessionModel { input: Seq::empty(), ..self }).synced(echo),
                seq![EffectView::WritePty(encode_utf8(self.input))],
            )
        } else {
            (self, Seq::empty())
        }
    }

    /// What an event of the terminal leads to.
    #[verifier::opaque]
    pub open spec fn told(self, e: EventView, echo: bool, now: int) -> Outcome {
        match e {
            EventView::PtyWrite(b) => (self, seq![EffectView::WritePty(b)]),
            EventView::Title(t) => (self, seq![EffectView::SetTitle(t)]),
            EventView::ResetTitle => (self, seq![EffectView::SetTitle("shelvd"@)]),
            EventView::Exit => (self, seq![EffectView::Exit]),
            EventView::CursorBlink => (
                SessionModel { blink_on: true, last_blink: now, ..self },
                Seq::empty(),
            ),
            EventView::SemanticPrompt { kind, line } => if kind == SemanticKind::PromptStart {
                self.prompted(echo)
            } else {
                (self, Seq::empty())
            },
            EventView::ClipboardStore(t) => (
                self,
                if self.clipboard_write {
                    seq![EffectView::SetClipboard(t)]
                } else {
                    Seq::empty()
                },
            ),
            _ => (self, Seq::empty()),
        }
    }

    /// Whether an event of the terminal calls for a new frame.
    pub open spec fn needs_frame(e: EventView) -> bool {
        match e {
            EventView::CursorBlink => true,
            EventView::SemanticPrompt { kind, line } => true,
            _ => false,
        }
    }

    /// What the first `n` events of the terminal lead to. The end of the child
    /// ends the program, and what comes after it no longer counts.
    pub open spec fn told_all(self, events: Seq<EventView>, n: int, echo: bool, now: int) -> Outcome
        decreases n,
    {
        if n <= 0 {
            (self, Seq::empty())
        } else {
            let (m, out) = self.told_all(events, n - 1, echo, now);
            if ended(events, n - 1) {
                (m, out)
            } else {
                let (next, more) = m.told(events[n - 1], echo, now);
                (next, out + more)
            }
        }
    }

    /// Whether a shrink of the reserve from `prev_shift` to `shift` starts a glide.
    pub open spec fn glides(self, shift: u16, now: int) -> bool {
        &&& elapsed(now, self.geometry) >= GLIDE_COOLDOWN
        &&& shift < self.prev_shift
        &&& !self.term.alt()
        &&& !self.term.scrolled()
        &&& self.prev_shift - shift >= GLIDE_MIN_ROWS
    }

    /// The reserve above the output, as it is watched.
    #[verifier::opaque]
    pub open spec fn reserve(self) -> u16 {
        larger(self.term.shift(), 0) as u16
    }

    /// What a new frame of output leads to: the reserve is measured anew, and a
    /// sudden shrink of it starts a glide.
    #[verifier::opaque]
    pub open spec fn watched(self, now: int) -> Outcome {
        let shift = self.reserve();
        (
            SessionModel { prev_shift: shift, ..self },
            if self.glides(shift, now) {
                seq![EffectView::Glide((self.prev_shift - shift) as u16), EffectView::Redraw]
            } else {
                seq![EffectView::Redraw]
            },
        )
    }

    /// What the output taken in so far leads to; `fed` is whether there was any.
    #[verifier::opaque]
    pub open spec fn settled(self, fed: bool, echo: bool, now: int) -> Outcome {
        let events = self.term.outbox;
        let n = events.len() as int;
        let start = self.with_term(TermModel { outbox: Seq::empty(), ..self.term });
        let (m, out) = start.told_all(events, n, echo, now);
        if ended(events, n) || !(fed || wants_frame(events, n)) {
            (m, out)
        } else {
            let (next, more) = m.watched(now);
            (next, out + more)
        }
    }

    /// What a new size leads to: any glide stops, and the reserve is measured
    /// anew.
    #[verifier::opaque]
    pub open spec fn resized(self, cols: u16, rows: u16, now: int) -> Outcome {
        let m = self.with_term(self.term.resized(cols, rows));
        (
            SessionModel { prev_shift: m.reserve(), geometry: now, ..m },
            seq![EffectView::CancelGlide, EffectView::Redraw],
        )
    }

    /// Whether the mouse goes to the program: it reads the mouse, and Shift, which
    /// forces local selection, is not held.
    pub open spec fn mouse_forwarded(self) -> bool {
        self.term.has_mode(MODE_MOUSE) && !self.mods.shift
    }

    /// A report of the mouse.
    #[verifier::opaque]
    pub open spec fn report(self, action: MouseAction, col: u16, row: u16) -> EffectView {
        EffectView::WritePty(
            report_bytes(self.term.has_mode(MODE_SGR_MOUSE), action, col, row, self.mods),
        )
    }

    /// What the pointer's hovering over a window button leads to.
    #[verifier::opaque]
    pub open spec fn hovered_over(self, hit: Option<TitlebarHit>) -> Outcome {
        let h = if hit == Some(TitlebarHit::Drag) {
            None
        } else {
            hit
        };
        if h == self.hovered {
            (self, Seq::empty())
        } else {
            (
                SessionModel { hovered: h, ..self },
                seq![EffectView::Hover(h), EffectView::Redraw],
            )
        }
    }

    /// What the pointer's motion to a cell leads to, apart from hovering: a report
    /// to the program, at most one for each cell it crosses, or a longer
    /// selection.
    #[verifier::opaque]
    pub open spec fn pointed(self, col: u16, row: u16, right: bool) -> Outcome {
        if self.overlay.is_some() {
            (self, Seq::empty())
        } else if self.mouse_forwarded() {
            let wanted = self.term.has_mode(MODE_MOUSE_MOTION) || (self.held.is_some()
                && self.term.has_mode(MODE_MOUSE_DRAG));
            if wanted && (col, row) != self.report_cell {
                let button = match self.held {
                    Some(b) => b,
                    None => 3u8,
                };
                (
                    SessionModel { report_cell: (col, row), ..self },
                    seq![self.report(MouseAction::Motion(button), col, row)],
                )
            } else {
                (self, Seq::empty())
            }
        } else if self.selecting {
            (self.selection_extended(col, row, right), seq![EffectView::Redraw])
        } else {
            (self, Seq::empty())
        }
    }

    /// What the pointer's motion leads to.
    pub open spec fn moved(self, col: u16, row: u16, right: bool, hit: Option<TitlebarHit>) -> Outcome {
        let (m, out) = self.hovered_over(hit);
        let (next, more) = m.pointed(col, row, right);
        (next, out + more)
    }

    /// What a press on the titlebar leads to: a quick second one toggles maximize,
    /// else the window is moved.
    #[verifier::opaque]
    pub open spec fn titlebar_pressed(self, now: int) -> Outcome {
        let double = match self.titlebar {
            Some(t) => elapsed(now, t) <= DOUBLE_CLICK,
            None => false,
        };
        if double {
            (SessionModel { titlebar: None, ..self }, seq![EffectView::ToggleMaximize])
        } else {
            (SessionModel { titlebar: Some(now), ..self }, seq![EffectView::DragWindow])
        }
    }

    /// What a press on a part of the titlebar leads to.
    pub open spec fn titlebar_hit(self, hit: TitlebarHit, now: int) -> Outcome {
        match hit {
            TitlebarHit::Drag => self.titlebar_pressed(now),
            TitlebarHit::Minimize => (self, seq![EffectView::Minimize]),
            TitlebarHit::Maximize => (self, seq![EffectView::ToggleMaximize]),
            TitlebarHit::Close => (self, seq![EffectView::Exit]),
        }
    }

    /// The code of a button, as the mouse protocol has it.
    pub open spec fn code_of(button: MouseButton) -> Option<u8> {
        match button {
            MouseButton::Left => Some(0u8),
            MouseButton::Middle => Some(1u8),
            MouseButton::Right => Some(2u8),
            MouseButton::Other => None,
        }
    }

    /// What a mouse button leads to: an open overlay is dismissed; the window's
    /// own edges and titlebar come first; then the program, where it reads the
    /// mouse; then selection and paste.
    #[verifier::opaque]
    pub open spec fn clicked(
        self,
        pressed: bool,
        button: MouseButton,
        cell: (u16, u16, bool),
        edge: Option<ResizeEdge>,
        hit: Option<TitlebarHit>,
        now: int,
    ) -> Outcome {
        let (col, row, right) = cell;
        if self.overlay.is_some() {
            if pressed {
                (SessionModel { overlay: None, ..self }, seq![EffectView::Redraw])
            } else {
                (self, Seq::empty())
            }
        } else if button == MouseButton::Left && pressed && edge.is_some() {
            (self, seq![EffectView::DragResize(edge->0)])
        } else if button == MouseButton::Left && pressed && hit.is_some() {
            self.titlebar_hit(hit->0, now)
        } else if self.mouse_forwarded() {
            match SessionModel::code_of(button) {
                Some(b) => if pressed {
                    let m = SessionModel { held: Some(b), ..self };
                    (m, seq![m.report(MouseAction::Press(b), col, row)])
                } else {
                    let m = SessionModel { held: None, ..self };
                    (m, seq![m.report(MouseAction::Release(b), col, row)])
                },
                None => (self, Seq::empty()),
            }
        } else if button == MouseButton::Left && pressed {
            (self.selection_begun(cell), seq![EffectView::Redraw])
        } else if button == MouseButton::Left {
            (
                SessionModel { selecting: false, ..self },
                self.selection_copied(),
            )
        } else if button == MouseButton::Middle && pressed {
            (self, seq![EffectView::ReadClipboard])
        } else {
            (self, Seq::empty())
        }
    }

    /// The overlay with its highlight moved.
    #[verifier::opaque]
    pub open spec fn highlight_moved(o: OverlayView, delta: int) -> OverlayView {
        OverlayView {
            selected: if o.filtered.len() == 0 {
                o.selected
            } else {
                (o.selected + delta) % (o.filtered.len() as int)
            },
            ..o
        }
    }

    /// What the wheel leads to. `lines` is how far it turned for scrolling, and
    /// `notches` for reports; both are positive upward. It moves the highlight of
    /// an open overlay, is reported to a program that reads the mouse, sends arrow
    /// keys on the alternate screen, and else scrolls.
    #[verifier::opaque]
    pub open spec fn wheeled(self, lines: i32, notches: i32, col: u16, row: u16) -> Outcome {
        match self.overlay {
            Some(o) => if lines != 0 {
                (
                    SessionModel {
                        overlay: Some(SessionModel::highlight_moved(o, -(lines as int))),
                        ..self
                    },
                    seq![EffectView::Redraw],
                )
            } else {
                (self, Seq::empty())
            },
            None => if self.mouse_forwarded() {
                (
                    self,
                    repeated(
                        self.report(MouseAction::Wheel(notches > 0), col, row),
                        magnitude(notches as int),
                    ),
                )
            } else if lines == 0 {
                (self, Seq::empty())
            } else if self.term.alt() && !self.term.has_mode(MODE_MOUSE) {
                (
                    self,
                    repeated(
                        EffectView::WritePty(
                            if lines > 0 {
                                seq![0x1bu8, 0x5b, 0x41]
                            } else {
                                seq![0x1bu8, 0x5b, 0x42]
                            },
                        ),
                        magnitude(lines as int),
                    ),
                )
            } else {
                (
                    self.scrolled_to(self.term.viewport_top() - lines),
                    seq![EffectView::Redraw],
                )
            },
        }
    }

    /// The overlay after a key that edits it.
    pub open spec fn overlay_edited(o: OverlayView, key: Key) -> OverlayView {
        match key {
            Key::Named(NamedKey::ArrowUp) => SessionModel::highlight_moved(o, -1),
            Key::Named(NamedKey::ArrowDown) => SessionModel::highlight_moved(o, 1),
            Key::Named(NamedKey::Backspace) => (OverlayView {
                query: erased(o.query),
                ..o
            }).refiltered(),
            Key::Named(NamedKey::Space) => (OverlayView {
                query: typed(o.query, ' '),
                ..o
            }).refiltered(),
            Key::Character(s) => query_typed(o, s@),
            _ => o,
        }
    }

    /// What a key leads to while the overlay `o` is open: Escape closes it, Enter
    /// closes it and runs the highlighted command, and others edit it.
    #[verifier::opaque]
    pub open spec fn overlay_key(self, o: OverlayView, key: Key, echo: bool) -> Outcome {
        match key {
            Key::Named(NamedKey::Escape) => (
                SessionModel { overlay: None, ..self },
                seq![EffectView::Redraw],
            ),
            Key::Named(NamedKey::Enter) => {
                let m = SessionModel { overlay: None, ..self };
                if o.filtered.len() == 0 {
                    (m, seq![EffectView::Redraw])
                } else {
                    let (next, out) = m.acted(o.candidates[o.filtered[o.selected]].action, echo);
                    (next, out.push(EffectView::Redraw))
                }
            },
            _ => (
                SessionModel { overlay: Some(SessionModel::overlay_edited(o, key)), ..self },
                seq![EffectView::Redraw],
            ),
        }
    }

    /// What a key does to the band's input line: it edits it, and Enter sends it to
    /// the command.
    #[verifier::opaque]
    pub open spec fn band_edited(self, key: Key) -> Outcome {
        match key {
            Key::Named(NamedKey::Enter) => (
                SessionModel { input: Seq::empty(), ..self },
                seq![EffectView::WritePty(entered(self.input))],
            ),
            Key::Named(NamedKey::Backspace) => (
                SessionModel { input: erased(self.input), ..self },
                Seq::empty(),
            ),
            Key::Named(NamedKey::Space) => (
                SessionModel { input: typed(self.input, ' '), ..self },
                Seq::empty(),
            ),
            Key::Character(s) => (
                SessionModel { input: typed_all(self.input, s@), ..self },
                Seq::empty(),
            ),
            _ => (self, Seq::empty()),
        }
    }

    /// What a key leads to while a command runs: it goes to the band's input line,
    /// which is brought into view.
    #[verifier::opaque]
    pub open spec fn band_key(self, key: Key, echo: bool) -> Outcome {
        let (m, out) = self.band_edited(key);
        (m.at_edge().synced(echo), out.push(EffectView::Redraw))
    }

    /// What a key press leads to. An open overlay takes it; then a bound command
    /// runs; then, while a command runs on the main screen, it goes to the band,
    /// unless Control or Alt is held; and else its bytes go to the child.
    #[verifier::opaque]
    pub open spec fn pressed(self, press: KeyPress, echo: bool) -> Outcome {
        match self.overlay {
            Some(o) => self.overlay_key(o, press.logical_key, echo),
            None => match bound_action(command_table(), press.logical_key, self.mods, 0) {
                Some(a) => {
                    let (m, out) = self.acted(a, echo);
                    (m, out.push(EffectView::Redraw))
                },
                None => if self.term.running() && !self.term.alt() && !self.mods.ctrl
                    && !self.mods.alt {
                    self.band_key(press.logical_key, echo)
                } else {
                    match press_bytes(press, self.mods) {
                        Some(b) => (
                            self.at_edge(),
                            seq![EffectView::Redraw, EffectView::WritePty(b)],
                        ),
                        None => (self, Seq::empty()),
                    }
                },
            },
        }
    }

    /// What pasting text leads to.
    #[verifier::opaque]
    pub open spec fn pasted(self, text: Seq<char>) -> Seq<EffectView> {
        seq![
            EffectView::WritePty(paste_bytes(text, self.term.has_mode(MODE_BRACKETED_PASTE))),
        ]
    }

    /// Whether the cursor blinks now.
    pub open spec fn blinks(self) -> bool {
        self.focused && crate::emulator::cursor_blinks(self.term.log)
    }

    /// What the passing of time leads to: the blink phase changes when its time is
    /// up, and a cursor that does not blink is solid.
    #[verifier::opaque]
    pub open spec fn ticked(self, now: int) -> Outcome {
        if self.blinks() {
            if elapsed(now, self.last_blink) >= BLINK_INTERVAL {
                (
                    SessionModel { blink_on: !self.blink_on, last_blink: now, ..self },
                    seq![EffectView::Redraw],
                )
            } else {
                (self, Seq::empty())
            }
        } else if !self.blink_on {
            (SessionModel { blink_on: true, ..self }, seq![EffectView::Redraw])
        } else {
            (self, Seq::empty())
        }
    }

    /// Whether the grid's cursor is left out of a frame: in the hidden phase of a
    /// blinking cursor, or while an overlay has the focus.
    pub open spec fn cursor_hidden(self) -> bool {
        (self.blinks() && !self.blink_on) || self.overlay.is_some()
    }
}

/// Whether the child's end is among the first `n` events.
pub open spec fn ended(events: Seq<EventView>, n: int) -> bool
    decreases n,
{
    if n <= 0 {
        false
    } else {
        events[n - 1] is Exit || ended(events, n - 1)
    }
}

/// Whether one of the first `n` events calls for a new frame, before the child's
/// end.
pub open spec fn wants_frame(events: Seq<EventView>, n: int) -> bool
    decreases n,
{
    if n <= 0 {
        false
    } else {
        wants_frame(events, n - 1) || (!ended(events, n - 1) && SessionModel::needs_frame(
            events[n - 1],
        ))
    }
}

} // verus!
