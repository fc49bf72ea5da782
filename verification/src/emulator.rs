//! The emulator: `alacritty_terminal`'s grid and parser, behind plain values.
//!
//! What the grid shows is a function of everything the emulator was given: its
//! size, the bytes it was fed, and the sizes it was changed to, in order. The
//! contracts below name that history and speak of the grid in terms of it.

use vstd::prelude::*;
use alacritty_terminal::event::{Event, EventListener};
use alacritty_terminal::grid::Dimensions;
use alacritty_terminal::index::{Column, Line, Point};
use alacritty_terminal::term::Config;
use alacritty_terminal::vte::ansi::{Color, Handler, NamedPrivateMode, PrivateMode, Processor};
use alacritty_terminal::Term;
use crate::model::EventView;
use crate::terminal::TermEvent;
use crate::wide::{Glyphs, has_room};

verus! {

/// One thing done to an emulator.
pub ghost enum EmuOp {
    /// Created with a grid of this size and this much history.
    Open { cols: int, rows: int, scrollback: int },
    /// Fed these bytes.
    Feed(Seq<u8>),
    /// Given a new size.
    Resize { cols: int, rows: int },
}

/// A color as a cell names it.
#[derive(Clone, Copy, Debug, PartialEq, Eq, Structural)]
pub enum GridColor {
    /// A named slot, by its number: the sixteen base colors, then the special
    /// slots from [`NAMED_FOREGROUND`] on.
    Named(u16),
    /// An index into the palette.
    Indexed(u8),
    /// Red, green and blue.
    Direct(u8, u8, u8),
}

/// The slot of the default foreground.
pub const NAMED_FOREGROUND: u16 = 256;

/// The slot of the default background.
pub const NAMED_BACKGROUND: u16 = 257;

/// The slot of the cursor color.
pub const NAMED_CURSOR: u16 = 258;

/// One cell of the grid: its character, colors and attribute bits.
#[derive(Clone, Copy, Debug, PartialEq, Eq, Structural)]
pub struct GridCell {
    pub c: char,
    pub fg: GridColor,
    pub bg: GridColor,
    pub flags: u16,
}

impl GridCell {
    pub const INVERSE: u16 = 0x1;
    pub const BOLD: u16 = 0x2;
    pub const ITALIC: u16 = 0x4;
    /// Set on the last cell of a row that continues on the next one.
    pub const WRAPLINE: u16 = 0x10;
    pub const WIDE_CHAR: u16 = 0x20;
    pub const WIDE_CHAR_SPACER: u16 = 0x40;
    pub const HIDDEN: u16 = 0x100;
    pub const STRIKEOUT: u16 = 0x200;
    pub const LEADING_WIDE_CHAR_SPACER: u16 = 0x400;
    /// The bits of every kind of underline.
    pub const ALL_UNDERLINES: u16 = 0x7808;

    /// Whether any bit of `mask` is set.
    pub open spec fn any(self, mask: u16) -> bool {
        self.flags & mask != 0
    }

    /// Whether any bit of `mask` is set.
    pub fn intersects(&self, mask: u16) -> (b: bool)
        ensures
            b == self.any(mask),
    {
        self.flags & mask != 0
    }
}

/// The mode bit of a visible cursor.
pub const MODE_SHOW_CURSOR: u32 = 0x1;

/// The mode bit of click reports.
pub const MODE_MOUSE_CLICK: u32 = 0x8;

/// The mode bit of bracketed paste.
pub const MODE_BRACKETED_PASTE: u32 = 0x10;

/// The mode bit of SGR mouse reports.
pub const MODE_SGR_MOUSE: u32 = 0x20;

/// The mode bit of reports of all motion.
pub const MODE_MOUSE_MOTION: u32 = 0x40;

/// The mode bit of the alternate screen.
pub const MODE_ALT_SCREEN: u32 = 0x1000;

/// The mode bit of reports of motion with a button held.
pub const MODE_MOUSE_DRAG: u32 = 0x2000;

/// Any of the bits by which a program reads the mouse.
pub const MODE_MOUSE: u32 = 0x2048;

/// What waits on the emulator's channel: a side effect of the emulator, or an event of
/// the terminal around it.
#[derive(Clone, Debug, PartialEq, Eq)]
pub enum EmuEvent {
    PtyWrite(String),
    Title(String),
    ResetTitle,
    ClipboardStore(String),
    Bell,
    Wakeup,
    MouseCursorDirty,
    CursorBlinkingChange,
    Exit,
    /// A query that carries a callback, or one that does not concern us.
    Other,
    /// An event that the terminal put on the channel itself.
    Own(TermEvent),
}

/// A side effect with its text as characters.
pub ghost enum EmuEventView {
    PtyWrite(Seq<char>),
    Title(Seq<char>),
    ResetTitle,
    ClipboardStore(Seq<char>),
    Bell,
    Wakeup,
    MouseCursorDirty,
    CursorBlinkingChange,
    Exit,
    Other,
    Own(EventView),
}

impl EmuEvent {
    pub open spec fn view(&self) -> EmuEventView {
        match self {
            EmuEvent::PtyWrite(s) => EmuEventView::PtyWrite(s@),
            EmuEvent::Title(s) => EmuEventView::Title(s@),
            EmuEvent::ResetTitle => EmuEventView::ResetTitle,
            EmuEvent::ClipboardStore(s) => EmuEventView::ClipboardStore(s@),
            EmuEvent::Bell => EmuEventView::Bell,
            EmuEvent::Wakeup => EmuEventView::Wakeup,
            EmuEvent::MouseCursorDirty => EmuEventView::MouseCursorDirty,
            EmuEvent::CursorBlinkingChange => EmuEventView::CursorBlinkingChange,
            EmuEvent::Exit => EmuEventView::Exit,
            EmuEvent::Other => EmuEventView::Other,
            EmuEvent::Own(e) => EmuEventView::Own(e@),
        }
    }
}

/// Side effects as views.
pub open spec fn emu_event_views(events: Seq<EmuEvent>) -> Seq<EmuEventView> {
    events.map_values(|e: EmuEvent| e@)
}

/// What the parser makes of its input, as far as it matters to how wide a grid must be.
#[derive(Clone, Copy, Debug, PartialEq, Eq, Structural)]
pub enum Sight {
    /// A character to be displayed.
    Glyph(char),
    /// Lines wrap from here on.
    WrapOn,
    /// Lines do not wrap from here on.
    WrapOff,
    /// The alternate screen comes up.
    AltOn,
    /// The main screen comes up.
    AltOff,
    /// The terminal is reset.
    Reset,
    /// Another mode is set or unset.
    Other,
}

/// `vte`'s private mode, opaque.
#[verifier::external_type_specification]
#[verifier::external_body]
pub struct ExPrivateMode(alacritty_terminal::vte::ansi::PrivateMode);

/// Takes the place of a terminal behind a parser, and notes what comes by.
pub struct Lookout {
    /// What came by so far, in order.
    pub seen: Vec<Sight>,
}

impl Handler for Lookout {
    fn input(&mut self, c: char)
        ensures
            final(self).seen@ == old(self).seen@.push(Sight::Glyph(c)),
    {
        self.seen.push(Sight::Glyph(c));
    }

    fn reset_state(&mut self)
        ensures
            final(self).seen@ == old(self).seen@.push(Sight::Reset),
    {
        self.seen.push(Sight::Reset);
    }

    /// Tells `vte`'s modes of wrapping lines and of the alternate screen from its
    /// others.
    #[verifier::external_body]
    fn set_private_mode(&mut self, mode: PrivateMode) {
        self.seen.push(match mode {
            PrivateMode::Named(NamedPrivateMode::LineWrap) => Sight::WrapOn,
            PrivateMode::Named(NamedPrivateMode::SwapScreenAndSetRestoreCursor) => Sight::AltOn,
            _ => Sight::Other,
        });
    }

    /// Tells `vte`'s modes of wrapping lines and of the alternate screen from its
    /// others.
    #[verifier::external_body]
    fn unset_private_mode(&mut self, mode: PrivateMode) {
        self.seen.push(match mode {
            PrivateMode::Named(NamedPrivateMode::LineWrap) => Sight::WrapOff,
            PrivateMode::Named(NamedPrivateMode::SwapScreenAndSetRestoreCursor) => Sight::AltOff,
            _ => Sight::Other,
        });
    }
}

/// `alacritty_terminal`'s event, opaque.
#[verifier::external_type_specification]
#[verifier::external_body]
pub struct ExEvent(alacritty_terminal::event::Event);

/// `flume`'s sending half of a channel, opaque.
#[verifier::external_type_specification]
#[verifier::external_body]
#[verifier::reject_recursive_types(T)]
pub struct ExSender<T>(flume::Sender<T>);

/// Forwards the emulator's events onto a channel.
pub struct EventProxy {
    tx: flume::Sender<EmuEvent>,
}

impl EventListener for EventProxy {
    /// Sends each event on, variant for variant, over `flume::Sender::send`.
    #[verifier::external_body]
    fn send_event(&self, event: Event) {
        let _ = self.tx.send(match event {
            Event::PtyWrite(s) => EmuEvent::PtyWrite(s),
            Event::Title(s) => EmuEvent::Title(s),
            Event::ResetTitle => EmuEvent::ResetTitle,
            Event::ClipboardStore(_, s) => EmuEvent::ClipboardStore(s),
            Event::Bell => EmuEvent::Bell,
            Event::Wakeup => EmuEvent::Wakeup,
            Event::MouseCursorDirty => EmuEvent::MouseCursorDirty,
            Event::CursorBlinkingChange => EmuEvent::CursorBlinkingChange,
            Event::Exit => EmuEvent::Exit,
            _ => EmuEvent::Other,
        });
    }
}

/// Grid dimensions handed to the emulator, at least one cell each way. The grid
/// adds scrollback itself.
#[derive(Clone, Copy, Debug, PartialEq, Eq, Structural)]
pub struct TermDimensions {
    pub cols: u16,
    pub rows: u16,
}

/// The larger of a size and one.
pub open spec fn at_least_one(n: u16) -> u16 {
    if n == 0 {
        1
    } else {
        n
    }
}

impl TermDimensions {
    /// `cols` × `rows`, with a zero taken as one.
    pub fn new(cols: u16, rows: u16) -> (d: Self)
        ensures
            d == (TermDimensions { cols: at_least_one(cols), rows: at_least_one(rows) }),
    {
        TermDimensions {
            cols: if cols == 0 {
                1
            } else {
                cols
            },
            rows: if rows == 0 {
                1
            } else {
                rows
            },
        }
    }
}

impl Dimensions for TermDimensions {
    fn total_lines(&self) -> (n: usize)
        ensures
            n == self.rows,
    {
        self.rows as usize
    }

    fn screen_lines(&self) -> (n: usize)
        ensures
            n == self.rows,
    {
        self.rows as usize
    }

    fn columns(&self) -> (n: usize)
        ensures
            n == self.cols,
    {
        self.cols as usize
    }
}

/// The most history an emulator may be asked to keep: its lines are numbered
/// with `i32`, downward from the top of the screen.
pub const MAX_SCROLLBACK: usize = 0x7fff_0000;

/// `alacritty_terminal`'s `Term` and `vte`'s `Processor`, with a second processor that
/// reads ahead, and both ends of the `flume` channel that the events go to. Opaque:
/// [`inputs`], [`read_ahead`] and [`pending`] name what it holds.
#[verifier::external_body]
pub struct Emulator {
    term: Term<EventProxy>,
    parser: Processor,
    ahead: Processor,
    tx: flume::Sender<EmuEvent>,
    rx: flume::Receiver<EmuEvent>,
}

/// Everything done to an emulator so far, oldest first.
pub uninterp spec fn inputs(e: Emulator) -> Seq<EmuOp>;

/// The chunks that were read ahead so far, oldest first.
pub uninterp spec fn read_ahead(e: Emulator) -> Seq<Seq<u8>>;

/// What the parser makes of the chunk `bytes`, after the chunks before it.
pub uninterp spec fn foreseen(chunks: Seq<Seq<u8>>, bytes: Seq<u8>) -> Seq<Sight>;

/// The events that wait on an emulator's channel, oldest first.
pub uninterp spec fn pending(e: Emulator) -> Seq<EmuEventView>;

/// The side effects of feeding `bytes` to an emulator with the history `log`.
pub uninterp spec fn emitted(log: Seq<EmuOp>, bytes: Seq<u8>) -> Seq<EmuEventView>;

/// How many lines have scrolled off the screen and are kept.
pub uninterp spec fn grid_history(log: Seq<EmuOp>) -> nat;

/// The line and column of the cursor.
pub uninterp spec fn grid_cursor(log: Seq<EmuOp>) -> (int, int);

/// The mode bits.
pub uninterp spec fn term_mode(log: Seq<EmuOp>) -> u32;

/// Whether the cursor is set to blink.
pub uninterp spec fn cursor_blinks(log: Seq<EmuOp>) -> bool;

/// The cell in one line and column. Line 0 is the top of the screen; the lines
/// above it, in history, are negative.
pub uninterp spec fn grid_cell(log: Seq<EmuOp>, line: int, col: int) -> GridCell;

/// The text from one position to another, both included.
pub uninterp spec fn grid_text(
    log: Seq<EmuOp>,
    first_line: int,
    first_col: int,
    last_line: int,
    last_col: int,
) -> Seq<char>;

/// The size that `log` last gave the grid.
pub open spec fn log_size(log: Seq<EmuOp>) -> (int, int)
    decreases log.len(),
{
    if log.len() == 0 {
        (1, 1)
    } else {
        match log.last() {
            EmuOp::Open { cols, rows, scrollback } => (cols, rows),
            EmuOp::Resize { cols, rows } => (cols, rows),
            EmuOp::Feed(_) => log_size(log.drop_last()),
        }
    }
}

/// The chunks that were fed so far, oldest first.
#[verifier::opaque]
pub open spec fn fed_chunks(log: Seq<EmuOp>) -> Seq<Seq<u8>>
    decreases log.len(),
{
    if log.len() == 0 {
        Seq::empty()
    } else {
        match log.last() {
            EmuOp::Feed(bytes) => fed_chunks(log.drop_last()).push(bytes),
            _ => fed_chunks(log.drop_last()),
        }
    }
}

/// The bytes that were fed so far, one after the other.
pub open spec fn fed_bytes(log: Seq<EmuOp>) -> Seq<u8>
    decreases log.len(),
{
    if log.len() == 0 {
        Seq::empty()
    } else {
        match log.last() {
            EmuOp::Feed(bytes) => fed_bytes(log.drop_last()) + bytes,
            _ => fed_bytes(log.drop_last()),
        }
    }
}

/// Whether the grid has a cell in this line and column.
pub open spec fn in_grid(log: Seq<EmuOp>, line: int, col: int) -> bool {
    &&& -(MAX_SCROLLBACK as int) <= line
    &&& -grid_history(log) <= line < log_size(log).1
    &&& 0 <= col < log_size(log).0
}

/// Whether the grid has no cell with a double-width glyph.
pub open spec fn no_wide_cell(log: Seq<EmuOp>) -> bool {
    forall|line: int, col: int|
        in_grid(log, line, col) ==> !(#[trigger] grid_cell(log, line, col)).any(GridCell::WIDE_CHAR)
}

/// Whether the grid can be one column wide: it is so already, or the main screen, which
/// alone is re-wrapped, was shown no double-width glyph since the last reset, or it is
/// up and has none.
pub open spec fn fits_one_column(log: Seq<EmuOp>) -> bool {
    ||| log_size(log).0 == 1
    ||| !Glyphs::after(fed_chunks(log)).wide
    ||| term_mode(log) & MODE_ALT_SCREEN == 0 && no_wide_cell(log)
}

/// Whether the text of these lines can be read: the grid has them all, none
/// begins with the trailing half of a double-width glyph, and where the last one
/// ends in the placeholder of a glyph that did not fit, the grid has the line
/// above it.
pub open spec fn text_readable(log: Seq<EmuOp>, first_line: int, first_col: int, last_line: int) -> bool {
    &&& in_grid(log, first_line, first_col)
    &&& in_grid(log, last_line, 0)
    &&& !(first_col == 0 && grid_cell(log, first_line, 0).any(GridCell::WIDE_CHAR_SPACER))
    &&& forall|l: int|
        first_line < l <= last_line ==> !(#[trigger] grid_cell(log, l, 0)).any(
            GridCell::WIDE_CHAR_SPACER,
        )
    &&& in_grid(log, last_line - 1, 0) || !grid_cell(log, last_line, log_size(log).0 - 1).any(
        GridCell::LEADING_WIDE_CHAR_SPACER,
    )
}

impl Emulator {
    /// `Term::new` and `Processor::new`: an empty grid of the given size, joined
    /// to a new channel.
    #[verifier::external_body]
    pub(crate) fn open(dims: TermDimensions, scrollback: usize) -> (e: Emulator)
        requires
            dims.cols >= 1,
            dims.rows >= 1,
            scrollback <= MAX_SCROLLBACK,
        ensures
            inputs(e) == seq![
                EmuOp::Open {
                    cols: dims.cols as int,
                    rows: dims.rows as int,
                    scrollback: scrollback as int,
                },
            ],
            pending(e) == Seq::<EmuEventView>::empty(),
            read_ahead(e) == Seq::<Seq<u8>>::empty(),
    {
        let (tx, rx) = flume::unbounded();
        let config = Config { scrolling_history: scrollback, ..Config::default() };
        Emulator {
            term: Term::new(config, &dims, EventProxy { tx: tx.clone() }),
            parser: Processor::new(),
            ahead: Processor::new(),
            tx,
            rx,
        }
    }

    /// `Processor::advance` on the second processor, before a [`Lookout`] that notes what
    /// comes by. Which sights a chunk gives is left to [`foreseen`]: it rests on the
    /// chunk and on those before it, for a sequence may be cut between two of them.
    #[verifier::external_body]
    pub(crate) fn foresee(&mut self, bytes: &[u8]) -> (sights: Vec<Sight>)
        ensures
            sights@ == foreseen(read_ahead(*old(self)), bytes@),
            read_ahead(*final(self)) == read_ahead(*old(self)).push(bytes@),
            inputs(*final(self)) == inputs(*old(self)),
            pending(*final(self)) == pending(*old(self)),
    {
        let mut lookout = Lookout { seen: Vec::new() };
        self.ahead.advance(&mut lookout, bytes);
        lookout.seen
    }

    /// `Processor::advance`: feeds `bytes` to the terminal, whose events queue up
    /// on the channel. The grid of a terminal one column wide has no room for a
    /// double-width glyph, so such a terminal is given none while its lines wrap.
    #[verifier::external_body]
    pub(crate) fn advance(&mut self, bytes: &[u8])
        requires
            log_size(inputs(*old(self))).0 >= 2 || has_room(fed_chunks(inputs(*old(self))), bytes@),
        ensures
            inputs(*final(self)) == inputs(*old(self)).push(EmuOp::Feed(bytes@)),
            pending(*final(self)) == pending(*old(self)) + emitted(inputs(*old(self)), bytes@),
            read_ahead(*final(self)) == read_ahead(*old(self)),
    {
        self.parser.advance(&mut self.term, bytes);
    }

    /// `Sender::send`: puts an event of the terminal behind those that wait. The
    /// channel has no bound and its receiving end is here, so that sending never
    /// fails.
    #[verifier::external_body]
    pub(crate) fn post(&mut self, event: TermEvent)
        ensures
            pending(*final(self)) == pending(*old(self)).push(EmuEventView::Own(event@)),
            inputs(*final(self)) == inputs(*old(self)),
            read_ahead(*final(self)) == read_ahead(*old(self)),
    {
        let _ = self.tx.send(EmuEvent::Own(event));
    }

    /// `Receiver::try_iter`: takes the events that have queued up, oldest first.
    #[verifier::external_body]
    pub(crate) fn take_events(&mut self) -> (events: Vec<EmuEvent>)
        ensures
            emu_event_views(events@) == pending(*old(self)),
            pending(*final(self)) == Seq::<EmuEventView>::empty(),
            inputs(*final(self)) == inputs(*old(self)),
            read_ahead(*final(self)) == read_ahead(*old(self)),
    {
        self.rx.try_iter().collect()
    }

    /// `Term::resize`: re-wraps the grid to a new size, sending no event. A grid
    /// with double-width glyphs is never made one column wide.
    #[verifier::external_body]
    pub(crate) fn resize(&mut self, dims: TermDimensions)
        requires
            dims.cols >= 1,
            dims.rows >= 1,
            dims.cols >= 2 || fits_one_column(inputs(*old(self))),
        ensures
            inputs(*final(self)) == inputs(*old(self)).push(
                EmuOp::Resize { cols: dims.cols as int, rows: dims.rows as int },
            ),
            pending(*final(self)) == pending(*old(self)),
            read_ahead(*final(self)) == read_ahead(*old(self)),
    {
        self.term.resize(dims);
    }

    /// `Grid::history_size`.
    #[verifier::external_body]
    pub(crate) fn history_size(&self) -> (n: usize)
        ensures
            n == grid_history(inputs(*self)),
    {
        self.term.grid().history_size()
    }

    /// The grid's cursor position: its line and column.
    #[verifier::external_body]
    pub(crate) fn cursor_point(&self) -> (p: (i32, usize))
        ensures
            p.0 == grid_cursor(inputs(*self)).0,
            p.1 == grid_cursor(inputs(*self)).1,
    {
        let p = self.term.grid().cursor.point;
        (p.line.0, p.column.0)
    }

    /// `Term::mode`, as bits.
    #[verifier::external_body]
    pub(crate) fn mode(&self) -> (bits: u32)
        ensures
            bits == term_mode(inputs(*self)),
    {
        self.term.mode().bits()
    }

    /// The `blinking` of `Term::cursor_style`.
    #[verifier::external_body]
    pub(crate) fn blinking(&self) -> (b: bool)
        ensures
            b == cursor_blinks(inputs(*self)),
    {
        self.term.cursor_style().blinking
    }

    /// The grid's cell in one line and column, as plain values.
    #[verifier::external_body]
    pub(crate) fn cell(&self, line: i32, col: usize) -> (c: GridCell)
        requires
            in_grid(inputs(*self), line as int, col as int),
        ensures
            c == grid_cell(inputs(*self), line as int, col as int),
    {
        let cell = &self.term.grid()[Line(line)][Column(col)];
        let plain = |color: Color| match color {
            Color::Named(n) => GridColor::Named(n as u16),
            Color::Indexed(i) => GridColor::Indexed(i),
            Color::Spec(rgb) => GridColor::Direct(rgb.r, rgb.g, rgb.b),
        };
        GridCell { c: cell.c, fg: plain(cell.fg), bg: plain(cell.bg), flags: cell.flags.bits() }
    }

    /// `Term::bounds_to_string`: the text from one position to another.
    #[verifier::external_body]
    pub(crate) fn text(&self, first: (i32, usize), last: (i32, usize)) -> (s: String)
        requires
            text_readable(inputs(*self), first.0 as int, first.1 as int, last.0 as int),
            last.1 < log_size(inputs(*self)).0,
        ensures
            s@ == grid_text(
                inputs(*self),
                first.0 as int,
                first.1 as int,
                last.0 as int,
                last.1 as int,
            ),
    {
        let start = Point::new(Line(first.0), Column(first.1));
        let end = Point::new(Line(last.0), Column(last.1));
        self.term.bounds_to_string(start, end)
    }
}

} // verus!
