//! The session: the terminal, the overlay, the band's input line and the mouse,
//! and how each event of the window and the child acts on them. A session decides;
//! whoever owns the window carries out the [`Effect`]s it asks for.
//!
//! Times are milliseconds on a clock that does not go back.

use vstd::prelude::*;
use crate::block::block_views;
use crate::commands::{Action, ActionView, key_to_action};
use crate::geometry::{ResizeEdge, TitlebarHit};
use crate::keys::{Key, KeyPress, Modifiers, NamedKey, key_to_bytes};
use crate::model::{TermModel, is_screen_of};
use crate::mouse::{MouseAction, MouseButton, mouse_button_code, mouse_report};
use crate::osc133::SemanticKind;
use crate::overlay::{BandInput, Overlay, OverlayColors, OverlayState, OverlayView, is_overlay_of};
use crate::session_model::{BLINK_INTERVAL, DOUBLE_CLICK, EffectView, GLIDE_COOLDOWN, GLIDE_MIN_ROWS, SessionModel, blink_due, elapsed, ended, entered, history_of, is_blank_text, paste_bytes, repeated, rest_of, wants_frame};
use crate::snapshot::GridSnapshot;
use crate::terminal::{BandState, TermEvent, Terminal, event_views, string_views};
use crate::text::{bytes_of, chars_of, has_prefix, same_chars, string_of, sub_chars, trim};

verus! {

/// What a session asks for.
#[derive(Clone, Debug, PartialEq, Eq)]
pub enum Effect {
    /// End the program.
    Exit,
    /// Draw a new frame.
    Redraw,
    /// Write these bytes to the child.
    WritePty(Vec<u8>),
    /// Set the window's title.
    SetTitle(String),
    /// Put text on the clipboard.
    SetClipboard(String),
    /// Read the clipboard, and hand its text to [`Session::paste`].
    ReadClipboard,
    /// Glide the grid up by this many rows.
    Glide(u16),
    /// Stop a glide.
    CancelGlide,
    /// Let the window be moved.
    DragWindow,
    /// Let the window be resized by this edge.
    DragResize(ResizeEdge),
    Minimize,
    ToggleMaximize,
    /// Highlight this window button.
    Hover(Option<TitlebarHit>),
}

impl Effect {
    pub open spec fn view(&self) -> EffectView {
        match self {
            Effect::Exit => EffectView::Exit,
            Effect::Redraw => EffectView::Redraw,
            Effect::WritePty(b) => EffectView::WritePty(b@),
            Effect::SetTitle(s) => EffectView::SetTitle(s@),
            Effect::SetClipboard(s) => EffectView::SetClipboard(s@),
            Effect::ReadClipboard => EffectView::ReadClipboard,
            Effect::Glide(n) => EffectView::Glide(*n),
            Effect::CancelGlide => EffectView::CancelGlide,
            Effect::DragWindow => EffectView::DragWindow,
            Effect::DragResize(e) => EffectView::DragResize(*e),
            Effect::Minimize => EffectView::Minimize,
            Effect::ToggleMaximize => EffectView::ToggleMaximize,
            Effect::Hover(h) => EffectView::Hover(*h),
        }
    }
}

/// Effects as views.
pub open spec fn effect_views(v: Seq<Effect>) -> Seq<EffectView> {
    v.map_values(|e: Effect| e@)
}

fn no_effect() -> (v: Vec<Effect>)
    ensures
        effect_views(v@) == Seq::<EffectView>::empty(),
{
    let v: Vec<Effect> = Vec::new();
    proof {
        assert(effect_views(v@) =~= Seq::empty());
    }
    v
}

fn one_effect(e: Effect) -> (v: Vec<Effect>)
    ensures
        effect_views(v@) == seq![e@],
{
    let ghost ev = e@;
    let v: Vec<Effect> = vec![e];
    proof {
        assert(effect_views(v@) =~= seq![ev]);
    }
    v
}

fn push_effect(v: &mut Vec<Effect>, e: Effect)
    ensures
        effect_views(final(v)@) == effect_views(old(v)@).push(e@),
{
    let ghost before = effect_views(v@);
    let ghost ev = e@;
    v.push(e);
    proof {
        assert(effect_views(v@) =~= before.push(ev));
    }
}

fn append_effects(v: &mut Vec<Effect>, more: Vec<Effect>)
    ensures
        effect_views(final(v)@) == effect_views(old(v)@) + effect_views(more@),
{
    let ghost before = effect_views(v@);
    let ghost tail = effect_views(more@);
    let mut rest = more;
    v.append(&mut rest);
    proof {
        assert(effect_views(v@) =~= before + tail);
    }
}

/// The same bytes written again and again.
fn repeat_write(bytes: Vec<u8>, n: u32) -> (v: Vec<Effect>)
    ensures
        effect_views(v@) == repeated(EffectView::WritePty(bytes@), n as int),
{
    let mut v = no_effect();
    let mut i: u32 = 0;
    proof {
        assert(repeated(EffectView::WritePty(bytes@), 0) =~= Seq::empty());
    }
    while i < n
        invariant
            i <= n,
            effect_views(v@) == repeated(EffectView::WritePty(bytes@), i as int),
        decreases n - i,
    {
        let copy = copy_bytes(&bytes);
        push_effect(&mut v, Effect::WritePty(copy));
        proof {
            assert(effect_views(v@) =~= repeated(EffectView::WritePty(bytes@), i + 1));
        }
        i = i + 1;
    }
    v
}

fn copy_bytes(b: &Vec<u8>) -> (v: Vec<u8>)
    ensures
        v@ == b@,
{
    let mut v: Vec<u8> = Vec::new();
    let mut i: usize = 0;
    while i < b.len()
        invariant
            i <= b.len(),
            v@ == b@.take(i as int),
        decreases b.len() - i,
    {
        v.push(b[i]);
        proof {
            assert(b@.take(i + 1) =~= b@.take(i as int).push(b@[i as int]));
        }
        i = i + 1;
    }
    proof {
        assert(b@.take(b@.len() as int) =~= b@);
    }
    v
}

/// Text and the carriage return that runs it.
fn enter_bytes(text: &str) -> (b: Vec<u8>)
    ensures
        b@ == entered(text@),
{
    let mut b = bytes_of(text);
    b.push(0x0d);
    b
}

/// Pasted text as bytes, wrapped in bracketed-paste markers when the program has
/// enabled that mode.
pub fn paste_payload(text: &str, bracketed: bool) -> (b: Vec<u8>)
    ensures
        b@ == paste_bytes(text@, bracketed),
{
    let mut body = bytes_of(text);
    if bracketed {
        let mut b: Vec<u8> = vec![0x1b, 0x5b, 0x32, 0x30, 0x30, 0x7e];
        let mut end: Vec<u8> = vec![0x1b, 0x5b, 0x32, 0x30, 0x31, 0x7e];
        b.append(&mut body);
        b.append(&mut end);
        proof {
            assert(b@ =~= paste_bytes(text@, bracketed));
        }
        b
    } else {
        body
    }
}

/// Recent command strings, most recent first, deduplicated.
pub fn history_commands(terminal: &Terminal) -> (out: Vec<String>)
    ensures
        string_views(out@) == history_of(terminal@.blocks, 0),
{
    let blocks = terminal.blocks();
    let ghost bv = block_views(blocks@);
    let mut out: Vec<String> = Vec::new();
    let mut i: usize = blocks.len();
    proof {
        assert(string_views(out@) =~= history_of(bv, bv.len() as int));
    }
    while i > 0
        invariant
            i <= blocks.len(),
            bv == block_views(blocks@),
            string_views(out@) == history_of(bv, i as int),
        decreases i,
    {
        i = i - 1;
        let c = chars_of(blocks[i].command.as_str());
        let ghost newer = history_of(bv, i + 1);
        proof {
            assert(bv[i as int].command == c@);
        }
        if c.len() > 0 && !text_listed(&out, &c) {
            let ghost before = string_views(out@);
            out.push(blocks[i].command.clone());
            proof {
                assert(string_views(out@) =~= before.push(c@));
            }
        }
    }
    out
}

/// Whether a text is among `list`.
fn text_listed(list: &Vec<String>, text: &[char]) -> (b: bool)
    ensures
        b == string_views(list@).contains(text@),
{
    let mut i: usize = 0;
    while i < list.len()
        invariant
            i <= list.len(),
            forall|k: int| 0 <= k < i ==> #[trigger] string_views(list@)[k] != text@,
        decreases list.len() - i,
    {
        let v = chars_of(list[i].as_str());
        proof {
            assert(string_views(list@)[i as int] == v@);
        }
        if same_chars(&v, text) {
            return true;
        }
        i = i + 1;
    }
    false
}

/// The rest of the newest of `commands` that goes on from `input`.
fn rest_of_command(commands: &Vec<String>, input: &[char]) -> (r: Option<String>)
    ensures
        crate::completion::opt_text(r) == rest_of(string_views(commands@), input@, 0),
{
    let ghost cv = string_views(commands@);
    let mut i: usize = 0;
    while i < commands.len()
        invariant
            i <= commands.len(),
            cv == string_views(commands@),
            rest_of(cv, input@, 0) == rest_of(cv, input@, i as int),
        decreases commands.len() - i,
    {
        let c = chars_of(commands[i].as_str());
        proof {
            assert(cv[i as int] == c@);
        }
        if has_prefix(&c, input) && c.len() > input.len() {
            let rest = sub_chars(&c, input.len(), c.len());
            proof {
                assert(rest@ =~= c@.skip(input@.len() as int));
            }
            return Some(string_of(&rest));
        }
        i = i + 1;
    }
    None
}

/// A live session.
pub struct Session {
    terminal: Terminal,
    modifiers: Modifiers,
    /// Whether the left button is down and a selection is being dragged.
    selecting: bool,
    /// Base button code (0/1/2) held while the program is reading mouse events,
    /// used to report drag motion and to anchor the matching release report.
    mouse_held: Option<u8>,
    /// Last grid cell a motion report was emitted for, so per-pixel motion
    /// collapses to one report per cell crossed.
    last_report_cell: (u16, u16),
    /// Whether the window currently has focus (the cursor only blinks focused).
    focused: bool,
    /// Current blink phase — `true` shows the cursor, `false` hides it.
    blink_on: bool,
    /// When the blink phase last toggled.
    last_blink: u64,
    /// The open command palette / history overlay, if any. While present, the
    /// keyboard drives the overlay instead of the PTY.
    overlay: Option<OverlayState>,
    /// The bottom band's input line — what the user is typing while a command
    /// runs. Sent to the running command on Enter, or queued on Ctrl+Shift+Enter.
    input: BandInput,
    /// Commands queued ahead, flushed one at a time to the PTY on each new shell
    /// prompt (OSC 133;A).
    queue: Vec<String>,
    /// Overlay colors resolved from the theme at startup.
    overlay_colors: OverlayColors,
    /// Anchor shift (top-reserved blank rows) observed after the last PTY chunk,
    /// used to detect the burst-shrink that triggers a glide.
    prev_anchor_shift: u16,
    /// When the window geometry (size / scale) last changed.
    last_geometry_change: u64,
    /// Timestamp of the last titlebar press, for double-click-to-maximize.
    last_titlebar_press: Option<u64>,
    /// Which window button the pointer is hovering (for the highlight).
    hovered_button: Option<TitlebarHit>,
    /// Whether a program may set the clipboard.
    clipboard_write: bool,
}

/// A way to scroll.
#[derive(Clone, Copy, Debug, PartialEq, Eq, Structural)]
enum Scroll {
    Top,
    PageUp,
    PageDown,
    Lines(i32),
}

/// An optional overlay as a view.
pub open spec fn overlay_view(o: Option<OverlayState>) -> Option<OverlayView> {
    match o {
        Some(o) => Some(o@),
        None => None,
    }
}

/// An optional time as an integer.
pub open spec fn opt_time(t: Option<u64>) -> Option<int> {
    match t {
        Some(t) => Some(t as int),
        None => None,
    }
}

fn since(now: u64, then: u64) -> (d: u64)
    ensures
        d == elapsed(now as int, then as int),
{
    if now >= then {
        now - then
    } else {
        0
    }
}

impl Session {
    pub closed spec fn view(&self) -> SessionModel {
        SessionModel {
            term: self.terminal@,
            mods: self.modifiers,
            selecting: self.selecting,
            held: self.mouse_held,
            report_cell: self.last_report_cell,
            focused: self.focused,
            blink_on: self.blink_on,
            last_blink: self.last_blink as int,
            overlay: overlay_view(self.overlay),
            input: self.input@,
            queue: string_views(self.queue@),
            colors: self.overlay_colors,
            prev_shift: self.prev_anchor_shift,
            geometry: self.last_geometry_change as int,
            titlebar: opt_time(self.last_titlebar_press),
            hovered: self.hovered_button,
            clipboard_write: self.clipboard_write,
        }
    }

    /// The terminal and an open overlay are well-formed.
    pub closed spec fn wf(&self) -> bool {
        &&& self.terminal.wf()
        &&& (self.overlay matches Some(o) ==> o.wf())
    }

    /// Start a session on a terminal.
    pub fn new(terminal: Terminal, overlay_colors: OverlayColors, clipboard_write: bool, now: u64) -> (s:
        Self)
        requires
            terminal.wf(),
        ensures
            s.wf(),
            s@ == (SessionModel {
                term: terminal@,
                mods: Modifiers { ctrl: false, shift: false, alt: false },
                selecting: false,
                held: None,
                report_cell: (u16::MAX, u16::MAX),
                focused: true,
                blink_on: true,
                last_blink: now as int,
                overlay: None,
                input: Seq::empty(),
                queue: Seq::empty(),
                colors: overlay_colors,
                prev_shift: s@.reserve(),
                geometry: now as int,
                titlebar: None,
                hovered: None,
                clipboard_write,
            }),
    {
        proof {
            reveal(SessionModel::reserve);
        }
        let prev_anchor_shift: u16 = terminal.anchor_shift();
        let s = Session {
            terminal,
            modifiers: Modifiers::none(),
            selecting: false,
            mouse_held: None,
            last_report_cell: (u16::MAX, u16::MAX),
            focused: true,
            blink_on: true,
            last_blink: now,
            overlay: None,
            input: BandInput::default(),
            queue: Vec::new(),
            overlay_colors,
            prev_anchor_shift,
            last_geometry_change: now,
            last_titlebar_press: None,
            hovered_button: None,
            clipboard_write,
        };
        proof {
            assert(s@.queue =~= Seq::empty());
        }
        s
    }

    /// The terminal.
    pub fn terminal(&self) -> (t: &Terminal)
        ensures
            t@ == self@.term,
            self.wf() ==> t.wf(),
    {
        &self.terminal
    }

    /// Take in a chunk of the child's output. A grid one column wide has no room for
    /// a double-width glyph; [`Session::try_feed`] tests that.
    pub fn feed(&mut self, bytes: &[u8])
        requires
            old(self).wf(),
            old(self)@.term.takes(bytes@),
        ensures
            final(self).wf(),
            final(self)@ == old(self)@.with_term(old(self)@.term.processed(bytes@)),
    {
        self.terminal.process(bytes);
    }

    /// Take in a chunk of the child's output where there is room for what it displays,
    /// and say whether there was. Where a double-width glyph comes on one column, the
    /// terminal stops.
    pub fn try_feed(&mut self, bytes: &[u8]) -> (taken: bool)
        requires
            old(self).wf(),
        ensures
            final(self).wf(),
            taken == old(self)@.term.takes(bytes@),
            final(self)@ == if taken {
                old(self)@.with_term(old(self)@.term.processed(bytes@))
            } else {
                old(self)@.with_term(old(self)@.term.stopped(bytes@))
            },
    {
        self.terminal.try_process(bytes)
    }

    /// Honor the terminal's side effects after output was taken in: replies, the
    /// title, the clipboard, the prompt's queue, and the child's end. `fed` is
    /// whether there was any output, and `echo` whether the child's terminal
    /// echoes typed input.
    ///
    /// Where a burst of output shrank the bottom-anchor reserve by several rows at
    /// once, the grid glides up instead of jumping — only at the live edge of the
    /// main screen, and not right after a resize.
    pub fn settle(&mut self, fed: bool, echo: bool, now: u64) -> (out: Vec<Effect>)
        requires
            old(self).wf(),
        ensures
            final(self).wf(),
            (final(self)@, effect_views(out@)) == old(self)@.settled(fed, echo, now as int),
    {
        proof {
            reveal(SessionModel::settled);
        }
        let ghost m0 = self@;
        let events = self.terminal.events();
        let ghost ev = m0.term.outbox;
        let ghost start = self@;
        proof {
            assert(event_views(events@).len() == events@.len());
            assert(start == m0.with_term(TermModel { outbox: Seq::empty(), ..m0.term }));
        }
        let (mut out, wants, exit) = self.on_events(events, echo, now);
        if exit || !(fed || wants) {
            return out;
        }
        let more = self.watch_reserve(now);
        append_effects(&mut out, more);
        out
    }

    /// Measure the reserve above the output anew, and glide where it shrank by
    /// enough.
    fn watch_reserve(&mut self, now: u64) -> (out: Vec<Effect>)
        requires
            old(self).wf(),
        ensures
            final(self).wf(),
            (final(self)@, effect_views(out@)) == old(self)@.watched(now as int),
    {
        proof {
            reveal(SessionModel::reserve);
            reveal(SessionModel::watched);
        }
        let shift: u16 = self.terminal.anchor_shift();
        let prev: u16 = self.prev_anchor_shift;
        let cooled: bool = since(now, self.last_geometry_change) >= GLIDE_COOLDOWN;
        let main_edge: bool = !self.terminal.alt_screen() && !self.terminal.is_scrolled();
        self.prev_anchor_shift = shift;
        if cooled && shift < prev && main_edge && prev - shift >= GLIDE_MIN_ROWS {
            let mut out = one_effect(Effect::Glide(prev - shift));
            push_effect(&mut out, Effect::Redraw);
            proof {
                assert(effect_views(out@) =~= seq![
                    EffectView::Glide((prev - shift) as u16),
                    EffectView::Redraw,
                ]);
            }
            out
        } else {
            one_effect(Effect::Redraw)
        }
    }

    /// Act on the events of the terminal, up to the child's end. Also gives whether
    /// they call for a new frame, and whether the child ended.
    fn on_events(&mut self, events: Vec<TermEvent>, echo: bool, now: u64) -> (r: (
        Vec<Effect>,
        bool,
        bool,
    ))
        requires
            old(self).wf(),
        ensures
            final(self).wf(),
            ({
                let ev = event_views(events@);
                let n = events@.len() as int;
                &&& (final(self)@, effect_views(r.0@)) == old(self)@.told_all(ev, n, echo, now as int)
                &&& r.1 == wants_frame(ev, n)
                &&& r.2 == ended(ev, n)
            }),
    {
        let ghost start = self@;
        let ghost ev = event_views(events@);
        let mut out = no_effect();
        let mut wants: bool = false;
        let mut exit: bool = false;
        for event in it: events
            invariant
                it.seq() == events@,
                event_views(events@) == ev,
                self.wf(),
                exit == ended(ev, it.index() as int),
                wants == wants_frame(ev, it.index() as int),
                (self@, effect_views(out@)) == start.told_all(
                    ev,
                    it.index() as int,
                    echo,
                    now as int,
                ),
        {
            let ghost k = it.index() as int;
            proof {
                assert(ev[k] == events@[k]@);
                assert(event == events@[k]);
            }
            if !exit {
                let frame: bool = match &event {
                    TermEvent::CursorBlink => true,
                    TermEvent::SemanticPrompt { kind, line } => true,
                    _ => false,
                };
                let last: bool = match &event {
                    TermEvent::Exit => true,
                    _ => false,
                };
                let more = self.on_event(event, echo, now);
                append_effects(&mut out, more);
                wants = wants || frame;
                exit = last;
            }
        }
        (out, wants, exit)
    }

    /// Act on one event of the terminal.
    fn on_event(&mut self, event: TermEvent, echo: bool, now: u64) -> (out: Vec<Effect>)
        requires
            old(self).wf(),
        ensures
            final(self).wf(),
            (final(self)@, effect_views(out@)) == old(self)@.told(event@, echo, now as int),
    {
        proof {
            reveal(SessionModel::told);
        }
        match event {
            TermEvent::PtyWrite(bytes) => one_effect(Effect::WritePty(bytes)),
            TermEvent::Title(title) => one_effect(Effect::SetTitle(title)),
            TermEvent::ResetTitle => one_effect(Effect::SetTitle("shelvd".to_owned())),
            TermEvent::Exit => one_effect(Effect::Exit),
            TermEvent::CursorBlink => {
                self.blink_on = true;
                self.last_blink = now;
                no_effect()
            },
            TermEvent::SemanticPrompt { kind, line } => {
                if kind == SemanticKind::PromptStart {
                    self.on_prompt_start(echo)
                } else {
                    no_effect()
                }
            },
            TermEvent::ClipboardStore(text) => {
                if self.clipboard_write {
                    one_effect(Effect::SetClipboard(text))
                } else {
                    no_effect()
                }
            },
            TermEvent::Bell => no_effect(),
            TermEvent::Wakeup => no_effect(),
            TermEvent::MouseCursorDirty => no_effect(),
            TermEvent::WorkingDirectory(_) => no_effect(),
            TermEvent::Completion(_) => no_effect(),
        }
    }

    /// Handle a fresh shell prompt (OSC 133;A): advance the type-ahead queue by one.
    /// The queue runs on every prompt until drained. When nothing is queued but the
    /// band still holds a half-typed line, that line is handed to the now-idle prompt
    /// (no Enter, so it lands as editable input) rather than dropped.
    fn on_prompt_start(&mut self, echo: bool) -> (out: Vec<Effect>)
        requires
            old(self).wf(),
        ensures
            final(self).wf(),
            (final(self)@, effect_views(out@)) == old(self)@.prompted(echo),
    {
        proof {
            reveal(SessionModel::prompted);
        }
        let ghost m0 = self@;
        if self.queue.len() > 0 {
            let ghost q = string_views(self.queue@);
            let cmd = self.queue.remove(0);
            proof {
                assert(cmd@ == q[0]);
                assert(string_views(self.queue@) =~= q.skip(1));
            }
            let bytes = enter_bytes(cmd.as_str());
            self.sync_band(echo);
            return one_effect(Effect::WritePty(bytes));
        }
        if !self.input.is_empty() {
            let pending = self.input.take();
            let bytes = bytes_of(pending.as_str());
            self.sync_band(echo);
            return one_effect(Effect::WritePty(bytes));
        }
        no_effect()
    }

    /// Mirror the band's input and the queue into the terminal so it renders the
    /// input line and the queued commands. The input is masked when the running
    /// command has turned echo off (a password prompt); the real bytes are still
    /// what is sent on Enter.
    fn sync_band(&mut self, echo: bool)
        requires
            old(self).wf(),
        ensures
            final(self).wf(),
            final(self)@ == old(self)@.synced(echo),
    {
        proof {
            reveal(SessionModel::synced);
            reveal(SessionModel::suggestion);
        }
        let input = chars_of(self.input.text());
        let suggestion: Option<String> = if input.len() == 0 || !echo {
            None
        } else {
            let commands = history_commands(&self.terminal);
            rest_of_command(&commands, &input)
        };
        let queued = copy_strings(&self.queue);
        let band = BandState { input: string_of(&input), queued, masked: !echo, suggestion };
        self.terminal.set_band(band);
    }

    /// Execute a command.
    fn run_action(&mut self, action: Action, echo: bool) -> (out: Vec<Effect>)
        requires
            old(self).wf(),
        ensures
            final(self).wf(),
            (final(self)@, effect_views(out@)) == old(self)@.acted(action@, echo),
    {
        match action {
            Action::OpenPalette | Action::SearchHistory | Action::QueueInput => {
                self.edit_by(&action, echo);
                no_effect()
            },
            Action::CopySelection | Action::CopyBlock | Action::Paste | Action::Quit => {
                self.effects_of(&action, echo)
            },
            Action::InsertCommand(cmd) => self.insert_command(cmd, echo),
            Action::PrevBlock | Action::NextBlock => {
                self.jump_by(&action, echo);
                no_effect()
            },
            Action::ScrollToTop | Action::ScrollToBottom | Action::PageUp | Action::PageDown => {
                self.scroll_by(&action, echo);
                no_effect()
            },
        }
    }

    /// Open an overlay, or queue the band's input.
    fn edit_by(&mut self, action: &Action, echo: bool)
        requires
            old(self).wf(),
            action@ is OpenPalette || action@ is SearchHistory || action@ is QueueInput,
        ensures
            final(self).wf(),
            (final(self)@, Seq::<EffectView>::empty()) == old(self)@.acted(action@, echo),
    {
        proof {
            reveal(SessionModel::acted);
        }
        match action {
            Action::OpenPalette => self.open_palette(),
            Action::SearchHistory => self.open_history(),
            _ => self.queue_input(echo),
        }
    }

    /// What a command that changes nothing here leads to.
    fn effects_of(&self, action: &Action, echo: bool) -> (out: Vec<Effect>)
        requires
            self.wf(),
            action@ is CopySelection || action@ is CopyBlock || action@ is Paste || action@ is Quit,
        ensures
            (self@, effect_views(out@)) == self@.acted(action@, echo),
    {
        proof {
            reveal(SessionModel::acted);
        }
        match action {
            Action::CopySelection => self.copy_selection(),
            Action::CopyBlock => self.copy_block(),
            Action::Paste => one_effect(Effect::ReadClipboard),
            _ => one_effect(Effect::Exit),
        }
    }

    /// Hand a command to the prompt. The live edge comes into view first, so that the
    /// shell's echo of it is on-screen, not below the viewport.
    fn insert_command(&mut self, cmd: String, echo: bool) -> (out: Vec<Effect>)
        requires
            old(self).wf(),
        ensures
            final(self).wf(),
            (final(self)@, effect_views(out@)) == old(self)@.acted(ActionView::InsertCommand(cmd@), echo),
    {
        proof {
            reveal(SessionModel::acted);
        }
        self.terminal.scroll_to_bottom();
        one_effect(Effect::WritePty(bytes_of(cmd.as_str())))
    }

    /// Jump between blocks.
    fn jump_by(&mut self, action: &Action, echo: bool)
        requires
            old(self).wf(),
            action@ is PrevBlock || action@ is NextBlock,
        ensures
            final(self).wf(),
            (final(self)@, Seq::<EffectView>::empty()) == old(self)@.acted(action@, echo),
    {
        proof {
            reveal(SessionModel::acted);
        }
        match action {
            Action::PrevBlock => self.jump_to_block(false),
            _ => self.jump_to_block(true),
        }
    }

    /// Scroll by a screen, or to either end.
    fn scroll_by(&mut self, action: &Action, echo: bool)
        requires
            old(self).wf(),
            action@ is ScrollToTop || action@ is ScrollToBottom || action@ is PageUp
                || action@ is PageDown,
        ensures
            final(self).wf(),
            (final(self)@, Seq::<EffectView>::empty()) == old(self)@.acted(action@, echo),
    {
        proof {
            reveal(SessionModel::acted);
        }
        match action {
            Action::ScrollToTop => self.scroll(Scroll::Top),
            Action::PageUp => self.scroll(Scroll::PageUp),
            Action::PageDown => self.scroll(Scroll::PageDown),
            _ => self.terminal.scroll_to_bottom(),
        }
    }

    /// Open the command palette, dropping any drag in progress.
    fn open_palette(&mut self)
        requires
            old(self).wf(),
        ensures
            final(self).wf(),
            final(self)@ == old(self)@.palette_opened(),
    {
        proof {
            reveal(SessionModel::palette_opened);
        }
        self.selecting = false;
        self.overlay = Some(OverlayState::palette());
    }

    /// Open the history overlay from this session's block command strings,
    /// dropping any drag in progress.
    fn open_history(&mut self)
        requires
            old(self).wf(),
        ensures
            final(self).wf(),
            final(self)@ == old(self)@.history_opened(),
    {
        proof {
            reveal(SessionModel::history_opened);
        }
        let commands = history_commands(&self.terminal);
        proof {
            assert(string_views(commands@).len() == commands@.len());
        }
        self.selecting = false;
        self.overlay = Some(OverlayState::history(commands));
    }

    /// Scroll the terminal.
    fn scroll(&mut self, to: Scroll)
        requires
            old(self).wf(),
        ensures
            final(self).wf(),
            final(self)@ == old(self)@.scrolled_to(
                match to {
                    Scroll::Top => old(self)@.term.oldest_shown(),
                    Scroll::PageUp => old(self)@.term.viewport_top() - (old(self)@.term.rows - 1),
                    Scroll::PageDown => old(self)@.term.viewport_top() + (old(self)@.term.rows - 1),
                    Scroll::Lines(n) => old(self)@.term.viewport_top() - n,
                },
            ),
    {
        proof {
            reveal(SessionModel::scrolled_to);
        }
        match to {
            Scroll::Top => self.terminal.scroll_to_top(),
            Scroll::PageUp => self.terminal.scroll_page_up(),
            Scroll::PageDown => self.terminal.scroll_page_down(),
            Scroll::Lines(n) => self.terminal.scroll_lines(n),
        }
    }

    /// Jump to the next or the previous block, if there is one.
    fn jump_to_block(&mut self, next: bool)
        requires
            old(self).wf(),
        ensures
            final(self).wf(),
            final(self)@ == old(self)@.jumped(
                if next {
                    old(self)@.term.next_block(0)
                } else {
                    old(self)@.term.prev_block(old(self)@.term.blocks.len() as int)
                },
            ),
    {
        proof {
            reveal(SessionModel::jumped);
            reveal(SessionModel::scrolled_to);
        }
        if next {
            let _ = self.terminal.scroll_to_next_block();
        } else {
            let _ = self.terminal.scroll_to_prev_block();
        }
    }

    /// Add the band's current input to the type-ahead queue, to run on the next
    /// prompt; nothing is queued when the line is blank.
    fn queue_input(&mut self, echo: bool)
        requires
            old(self).wf(),
        ensures
            final(self).wf(),
            final(self)@ == (SessionModel {
                input: Seq::empty(),
                queue: if is_blank_text(old(self)@.input) {
                    old(self)@.queue
                } else {
                    old(self)@.queue.push(old(self)@.input)
                },
                ..old(self)@
            }).synced(echo),
    {
        let ghost q = string_views(self.queue@);
        let line = self.input.take();
        let t = trim(line.as_str());
        if chars_of(t.as_str()).len() > 0 {
            let ghost l = line@;
            self.queue.push(line);
            proof {
                assert(string_views(self.queue@) =~= q.push(l));
            }
        }
        self.sync_band(echo);
    }

    /// Copy the whole block at the top of the viewport to the clipboard.
    fn copy_block(&self) -> (out: Vec<Effect>)
        requires
            self.wf(),
        ensures
            effect_views(out@) == self@.block_copied(),
    {
        proof {
            reveal(SessionModel::block_copied);
        }
        match self.terminal.current_block_text() {
            Some(text) => one_effect(Effect::SetClipboard(text)),
            None => no_effect(),
        }
    }

    /// Copy the current selection to the clipboard, if it is non-empty.
    fn copy_selection(&self) -> (out: Vec<Effect>)
        requires
            self.wf(),
        ensures
            effect_views(out@) == self@.selection_copied(),
    {
        proof {
            reveal(SessionModel::selection_copied);
        }
        match self.terminal.selection_text() {
            Some(text) => one_effect(Effect::SetClipboard(text)),
            None => no_effect(),
        }
    }

    /// The held modifiers changed.
    pub fn modifiers_changed(&mut self, mods: Modifiers)
        requires
            old(self).wf(),
        ensures
            final(self).wf(),
            final(self)@ == (SessionModel { mods, ..old(self)@ }),
    {
        self.modifiers = mods;
    }

    /// The grid has a new size. Any glide stops, and the anchor is measured anew,
    /// so the new layout never triggers a spurious one. One column has no room for
    /// double-width glyphs; [`Session::try_resized`] tests that.
    pub fn resized(&mut self, cols: u16, rows: u16, now: u64) -> (out: Vec<Effect>)
        requires
            old(self).wf(),
            old(self)@.term.fits(cols),
        ensures
            final(self).wf(),
            (final(self)@, effect_views(out@)) == old(self)@.resized(cols, rows, now as int),
    {
        proof {
            reveal(SessionModel::resized);
            reveal(SessionModel::reserve);
        }
        self.terminal.resize(cols, rows);
        self.after_resize(now)
    }

    /// The grid has a new size, where it can take it; `None` where the grid has
    /// double-width glyphs and would be one column wide, and nothing changes.
    pub fn try_resized(&mut self, cols: u16, rows: u16, now: u64) -> (out: Option<Vec<Effect>>)
        requires
            old(self).wf(),
        ensures
            final(self).wf(),
            out.is_some() == old(self)@.term.fits(cols),
            match out {
                Some(effects) => (final(self)@, effect_views(effects@)) == old(self)@.resized(
                    cols,
                    rows,
                    now as int,
                ),
                None => final(self)@ == old(self)@,
            },
    {
        proof {
            reveal(SessionModel::resized);
            reveal(SessionModel::reserve);
        }
        if !self.terminal.try_resize(cols, rows) {
            return None;
        }
        Some(self.after_resize(now))
    }

    /// What follows a change of the grid's size.
    fn after_resize(&mut self, now: u64) -> (out: Vec<Effect>)
        requires
            old(self).wf(),
        ensures
            final(self).wf(),
            final(self)@ == (SessionModel {
                prev_shift: old(self)@.reserve(),
                geometry: now as int,
                ..old(self)@
            }),
            effect_views(out@) == seq![EffectView::CancelGlide, EffectView::Redraw],
    {
        proof {
            reveal(SessionModel::reserve);
        }
        self.prev_anchor_shift = self.terminal.anchor_shift();
        self.last_geometry_change = now;
        let mut out = one_effect(Effect::CancelGlide);
        push_effect(&mut out, Effect::Redraw);
        proof {
            assert(effect_views(out@) =~= seq![EffectView::CancelGlide, EffectView::Redraw]);
        }
        out
    }

    /// The pointer moved: over `cell` of the grid (column, row and whether its right
    /// half), and over `hit` of the titlebar.
    pub fn pointer_moved(&mut self, cell: (u16, u16, bool), hit: Option<TitlebarHit>) -> (out: Vec<
        Effect,
    >)
        requires
            old(self).wf(),
        ensures
            final(self).wf(),
            (final(self)@, effect_views(out@)) == old(self)@.moved(cell.0, cell.1, cell.2, hit),
    {
        let mut out = self.update_titlebar_hover(hit);
        let more = self.pointer_in_grid(cell);
        append_effects(&mut out, more);
        out
    }

    /// Refresh the hovered window button, redrawing only on change so the hover
    /// highlight follows the pointer without churn.
    fn update_titlebar_hover(&mut self, hit: Option<TitlebarHit>) -> (out: Vec<Effect>)
        requires
            old(self).wf(),
        ensures
            final(self).wf(),
            (final(self)@, effect_views(out@)) == old(self)@.hovered_over(hit),
    {
        proof {
            reveal(SessionModel::hovered_over);
        }
        let h: Option<TitlebarHit> = match hit {
            Some(TitlebarHit::Drag) => None,
            other => other,
        };
        if same_hit(h, self.hovered_button) {
            return no_effect();
        }
        self.hovered_button = h;
        let mut out = one_effect(Effect::Hover(h));
        push_effect(&mut out, Effect::Redraw);
        proof {
            assert(effect_views(out@) =~= seq![EffectView::Hover(h), EffectView::Redraw]);
        }
        out
    }

    fn pointer_in_grid(&mut self, cell: (u16, u16, bool)) -> (out: Vec<Effect>)
        requires
            old(self).wf(),
        ensures
            final(self).wf(),
            (final(self)@, effect_views(out@)) == old(self)@.pointed(cell.0, cell.1, cell.2),
    {
        proof {
            reveal(SessionModel::pointed);
        }
        let (col, row, right) = cell;
        if self.overlay.is_some() {
            return no_effect();
        }
        // Forward motion to the child when it is reading the mouse (and Shift, the
        // local-selection override, is not held).
        if self.mouse_forwarded() {
            let wanted: bool = self.terminal.mouse_report_all_motion() || (self.mouse_held.is_some()
                && self.terminal.mouse_report_drag());
            if wanted && (col != self.last_report_cell.0 || row != self.last_report_cell.1) {
                let button: u8 = match self.mouse_held {
                    Some(b) => b,
                    None => 3,
                };
                let report = self.report_mouse(MouseAction::Motion(button), col, row);
                self.last_report_cell = (col, row);
                return one_effect(report);
            }
            return no_effect();
        }
        if self.selecting {
            self.extend_selection(col, row, right);
            return one_effect(Effect::Redraw);
        }
        no_effect()
    }

    /// Extend the selection in progress to a cell.
    fn extend_selection(&mut self, col: u16, row: u16, right: bool)
        requires
            old(self).wf(),
        ensures
            final(self).wf(),
            final(self)@ == old(self)@.selection_extended(col, row, right),
    {
        proof {
            reveal(SessionModel::selection_extended);
        }
        self.terminal.selection_update(col, row, right);
    }

    /// Begin a selection at a cell.
    fn begin_selection(&mut self, cell: (u16, u16, bool))
        requires
            old(self).wf(),
        ensures
            final(self).wf(),
            final(self)@ == old(self)@.selection_begun(cell),
    {
        proof {
            reveal(SessionModel::selection_begun);
        }
        self.terminal.selection_start(cell.0, cell.1, cell.2);
        self.selecting = true;
    }

    /// Whether the mouse goes to the program.
    fn mouse_forwarded(&self) -> (b: bool)
        ensures
            b == self@.mouse_forwarded(),
    {
        self.terminal.mouse_mode() && !self.modifiers.shift
    }

    /// Encode `action` for the active mouse mode, to be written to the child.
    fn report_mouse(&self, action: MouseAction, col: u16, row: u16) -> (e: Effect)
        ensures
            e@ == self@.report(action, col, row),
    {
        proof {
            reveal(SessionModel::report);
        }
        Effect::WritePty(mouse_report(self.terminal.sgr_mouse(), action, col, row, self.modifiers))
    }

    /// A mouse button went down or up, over `cell` of the grid, and `edge` or `hit`
    /// of the window's own frame.
    pub fn mouse_input(
        &mut self,
        pressed: bool,
        button: MouseButton,
        cell: (u16, u16, bool),
        edge: Option<ResizeEdge>,
        hit: Option<TitlebarHit>,
        now: u64,
    ) -> (out: Vec<Effect>)
        requires
            old(self).wf(),
        ensures
            final(self).wf(),
            (final(self)@, effect_views(out@)) == old(self)@.clicked(
                pressed,
                button,
                cell,
                edge,
                hit,
                now as int,
            ),
    {
        proof {
            reveal(SessionModel::clicked);
        }
        let (col, row, right) = cell;
        // A click anywhere dismisses an open overlay.
        if self.overlay.is_some() {
            if pressed {
                self.overlay = None;
                return one_effect(Effect::Redraw);
            }
            return no_effect();
        }
        // Window chrome wins over the child and local selection: a press on a
        // resize edge or the titlebar drives the compositor.
        if button == MouseButton::Left && pressed {
            if let Some(e) = edge {
                return one_effect(Effect::DragResize(e));
            }
            if let Some(h) = hit {
                return match h {
                    TitlebarHit::Drag => self.titlebar_press(now),
                    TitlebarHit::Minimize => one_effect(Effect::Minimize),
                    TitlebarHit::Maximize => one_effect(Effect::ToggleMaximize),
                    TitlebarHit::Close => one_effect(Effect::Exit),
                };
            }
        }
        // Forward clicks to the child when it is reading the mouse; Shift forces
        // local selection/paste instead (the standard override).
        if self.mouse_forwarded() {
            return match mouse_button_code(button) {
                Some(b) => {
                    if pressed {
                        self.mouse_held = Some(b);
                        one_effect(self.report_mouse(MouseAction::Press(b), col, row))
                    } else {
                        self.mouse_held = None;
                        one_effect(self.report_mouse(MouseAction::Release(b), col, row))
                    }
                },
                None => no_effect(),
            };
        }
        if button == MouseButton::Left {
            if pressed {
                self.begin_selection(cell);
                one_effect(Effect::Redraw)
            } else {
                let out = self.copy_selection();
                self.selecting = false;
                out
            }
        } else if button == MouseButton::Middle && pressed {
            one_effect(Effect::ReadClipboard)
        } else {
            no_effect()
        }
    }

    /// A left press on the titlebar: a quick second press toggles maximize,
    /// otherwise it begins a compositor-driven window move.
    fn titlebar_press(&mut self, now: u64) -> (out: Vec<Effect>)
        requires
            old(self).wf(),
        ensures
            final(self).wf(),
            (final(self)@, effect_views(out@)) == old(self)@.titlebar_pressed(now as int),
    {
        proof {
            reveal(SessionModel::titlebar_pressed);
        }
        let double: bool = match self.last_titlebar_press {
            Some(t) => since(now, t) <= DOUBLE_CLICK,
            None => false,
        };
        if double {
            self.last_titlebar_press = None;
            one_effect(Effect::ToggleMaximize)
        } else {
            self.last_titlebar_press = Some(now);
            one_effect(Effect::DragWindow)
        }
    }

    /// The wheel turned: `lines` as it counts for scrolling, and `notches` as it
    /// counts for reports to a program, both positive upward.
    pub fn wheel(&mut self, lines: i32, notches: i32, col: u16, row: u16) -> (out: Vec<Effect>)
        requires
            old(self).wf(),
            lines > i32::MIN,
            notches > i32::MIN,
        ensures
            final(self).wf(),
            (final(self)@, effect_views(out@)) == old(self)@.wheeled(lines, notches, col, row),
    {
        proof {
            reveal(SessionModel::wheeled);
            reveal(SessionModel::report);
        }
        let mut taken: Option<OverlayState> = None;
        std::mem::swap(&mut taken, &mut self.overlay);
        if let Some(mut o) = taken {
            if lines != 0 {
                // Scrolling up moves the highlight up.
                move_highlight(&mut o, 0 - lines);
                self.overlay = Some(o);
                return one_effect(Effect::Redraw);
            }
            self.overlay = Some(o);
            return no_effect();
        }
        if self.mouse_forwarded() {
            let up: bool = notches > 0;
            let n: u32 = if notches < 0 {
                (0 - notches) as u32
            } else {
                notches as u32
            };
            let bytes = mouse_report(
                self.terminal.sgr_mouse(),
                MouseAction::Wheel(up),
                col,
                row,
                self.modifiers,
            );
            return repeat_write(bytes, n);
        }
        if lines == 0 {
            return no_effect();
        }
        if self.terminal.alt_screen() && !self.terminal.mouse_mode() {
            // No scrollback on the alt screen: drive the app with arrows.
            let last: u8 = if lines > 0 {
                0x41
            } else {
                0x42
            };
            let bytes: Vec<u8> = vec![0x1b, 0x5b, last];
            let n: u32 = if lines < 0 {
                (0 - lines) as u32
            } else {
                lines as u32
            };
            proof {
                assert(bytes@ =~= if lines > 0 {
                    seq![0x1bu8, 0x5b, 0x41]
                } else {
                    seq![0x1bu8, 0x5b, 0x42]
                });
            }
            return repeat_write(bytes, n);
        }
        self.scroll(Scroll::Lines(lines));
        one_effect(Effect::Redraw)
    }

    /// A key was pressed. `echo` is whether the child's terminal echoes typed
    /// input.
    pub fn key_pressed(&mut self, press: &KeyPress, echo: bool) -> (out: Vec<Effect>)
        requires
            old(self).wf(),
        ensures
            final(self).wf(),
            (final(self)@, effect_views(out@)) == old(self)@.pressed(*press, echo),
    {
        proof {
            reveal(SessionModel::pressed);
        }
        let mut taken: Option<OverlayState> = None;
        std::mem::swap(&mut taken, &mut self.overlay);
        // While an overlay is open the keyboard drives it, not the PTY.
        if let Some(o) = taken {
            return self.overlay_key(o, &press.logical_key, echo);
        }
        // A bound key chord runs its action; everything else is input.
        if let Some(action) = key_to_action(press, self.modifiers) {
            let mut out = self.run_action(action, echo);
            push_effect(&mut out, Effect::Redraw);
            return out;
        }
        // While a command runs, the bottom band is the live input field. Control
        // and Alt combos still pass straight through, so Ctrl+C and friends can
        // signal the command. The alt screen is exempt — full-screen apps own all
        // input there.
        if self.terminal.command_running() && !self.terminal.alt_screen() && !self.modifiers.ctrl
            && !self.modifiers.alt {
            return self.band_key(&press.logical_key, echo);
        }
        match key_to_bytes(press, self.modifiers) {
            Some(bytes) => self.send_key(bytes),
            None => no_effect(),
        }
    }

    /// Normal input: jump back to the live edge, then send the bytes.
    fn send_key(&mut self, bytes: Vec<u8>) -> (out: Vec<Effect>)
        requires
            old(self).wf(),
        ensures
            final(self).wf(),
            final(self)@ == old(self)@.at_edge(),
            effect_views(out@) == seq![EffectView::Redraw, EffectView::WritePty(bytes@)],
    {
        self.terminal.scroll_to_bottom();
        let ghost b = bytes@;
        let mut out = one_effect(Effect::Redraw);
        push_effect(&mut out, Effect::WritePty(bytes));
        proof {
            assert(effect_views(out@) =~= seq![EffectView::Redraw, EffectView::WritePty(b)]);
        }
        out
    }

    /// Route a key press to the open overlay `o`, which was taken out of its slot:
    /// query edits, navigation, accept/cancel.
    fn overlay_key(&mut self, o: OverlayState, key: &Key, echo: bool) -> (out: Vec<Effect>)
        requires
            old(self).wf(),
            old(self)@.overlay.is_none(),
            o.wf(),
        ensures
            final(self).wf(),
            (final(self)@, effect_views(out@)) == (SessionModel {
                overlay: Some(o@),
                ..old(self)@
            }).overlay_key(o@, *key, echo),
    {
        proof {
            reveal(SessionModel::overlay_key);
        }
        let ghost m0 = self@;
        let mut o = o;
        let ghost ov = o@;
        match key {
            Key::Named(NamedKey::Escape) => {
                return one_effect(Effect::Redraw);
            },
            Key::Named(NamedKey::Enter) => {
                let mut out = match o.selected_action() {
                    Some(action) => self.run_action(action, echo),
                    None => no_effect(),
                };
                push_effect(&mut out, Effect::Redraw);
                proof {
                    if ov.filtered.len() == 0 {
                        assert(effect_views(out@) =~= seq![EffectView::Redraw]);
                    }
                }
                return out;
            },
            Key::Named(NamedKey::ArrowUp) => {
                move_highlight(&mut o, -1);
            },
            Key::Named(NamedKey::ArrowDown) => {
                move_highlight(&mut o, 1);
            },
            Key::Named(NamedKey::Backspace) => {
                o.backspace();
            },
            Key::Named(NamedKey::Space) => {
                o.input_char(' ');
            },
            Key::Character(s) => {
                o.input_text(s.as_str());
            },
            _ => {},
        }
        self.overlay = Some(o);
        one_effect(Effect::Redraw)
    }

    /// Edit the band's input line, or — on Enter — send it to the running command's
    /// stdin and clear it.
    fn edit_band(&mut self, key: &Key) -> (out: Vec<Effect>)
        requires
            old(self).wf(),
        ensures
            final(self).wf(),
            (final(self)@, effect_views(out@)) == old(self)@.band_edited(*key),
    {
        proof {
            reveal(SessionModel::band_edited);
        }
        match key {
            Key::Named(NamedKey::Enter) => {
                let line = self.input.take();
                one_effect(Effect::WritePty(enter_bytes(line.as_str())))
            },
            Key::Named(NamedKey::Backspace) => {
                self.input.backspace();
                no_effect()
            },
            Key::Named(NamedKey::Space) => {
                self.input.input_char(' ');
                no_effect()
            },
            Key::Character(s) => {
                self.input.input_text(s.as_str());
                no_effect()
            },
            _ => no_effect(),
        }
    }

    /// Route a key press to the band's input line while a command runs.
    /// (Ctrl+Shift+Enter, handled earlier as [`Action::QueueInput`], queues instead.)
    fn band_key(&mut self, key: &Key, echo: bool) -> (out: Vec<Effect>)
        requires
            old(self).wf(),
        ensures
            final(self).wf(),
            (final(self)@, effect_views(out@)) == old(self)@.band_key(*key, echo),
    {
        proof {
            reveal(SessionModel::band_key);
        }
        let mut out = self.edit_band(key);
        // Keep the band at the live edge so the input line stays on screen.
        self.terminal.scroll_to_bottom();
        self.sync_band(echo);
        push_effect(&mut out, Effect::Redraw);
        out
    }

    /// Paste text from the clipboard into the child.
    pub fn paste(&self, text: &str) -> (out: Vec<Effect>)
        requires
            self.wf(),
        ensures
            effect_views(out@) == self@.pasted(text@),
    {
        proof {
            reveal(SessionModel::pasted);
        }
        one_effect(Effect::WritePty(paste_payload(text, self.terminal.bracketed_paste())))
    }

    /// The window gained or lost the focus: the cursor is solid and visible again.
    pub fn focus_changed(&mut self, focused: bool, now: u64) -> (out: Vec<Effect>)
        requires
            old(self).wf(),
        ensures
            final(self).wf(),
            final(self)@ == (SessionModel {
                focused,
                blink_on: true,
                last_blink: now as int,
                ..old(self)@
            }),
            effect_views(out@) == seq![EffectView::Redraw],
    {
        self.focused = focused;
        self.blink_on = true;
        self.last_blink = now;
        one_effect(Effect::Redraw)
    }

    /// Whether the cursor blinks now.
    fn blinks(&self) -> (b: bool)
        ensures
            b == self@.blinks(),
    {
        self.focused && self.terminal.cursor_blinking()
    }

    /// Time passed: advance the cursor's blink phase. Also gives when to be called
    /// again, where the cursor blinks.
    pub fn tick(&mut self, now: u64) -> (r: (Vec<Effect>, Option<u64>))
        requires
            old(self).wf(),
        ensures
            final(self).wf(),
            (final(self)@, effect_views(r.0@)) == old(self)@.ticked(now as int),
            r.1 == if final(self)@.blinks() {
                Some(blink_due(final(self)@.last_blink))
            } else {
                None
            },
    {
        proof {
            reveal(SessionModel::ticked);
        }
        if self.blinks() {
            let mut out = no_effect();
            if since(now, self.last_blink) >= BLINK_INTERVAL {
                self.blink_on = !self.blink_on;
                self.last_blink = now;
                out = one_effect(Effect::Redraw);
            }
            (out, Some(self.last_blink.saturating_add(BLINK_INTERVAL)))
        } else if !self.blink_on {
            self.blink_on = true;
            (one_effect(Effect::Redraw), None)
        } else {
            (no_effect(), None)
        }
    }

    /// The frame to draw: the screen, without its cursor in the hidden blink phase
    /// or while an overlay has the focus, and the open overlay with room for
    /// `capacity` list rows.
    pub fn frame(&self, capacity: usize) -> (f: (GridSnapshot, Option<Overlay>))
        requires
            self.wf(),
        ensures
            exists|s: GridSnapshot|
                is_screen_of(s, self@.term) && f.0 == (GridSnapshot {
                    cursor: if self@.cursor_hidden() {
                        None
                    } else {
                        s.cursor
                    },
                    ..s
                }),
            match (self@.overlay, f.1) {
                (Some(v), Some(o)) => is_overlay_of(o, v, self@.colors, capacity as int),
                (None, None) => true,
                _ => false,
            },
    {
        let snap = self.terminal.snapshot();
        let ghost s = snap;
        let mut shown = snap;
        if (self.blinks() && !self.blink_on) || self.overlay.is_some() {
            shown.cursor = None;
        }
        let overlay = match &self.overlay {
            Some(o) => Some(o.to_overlay(self.overlay_colors, capacity)),
            None => None,
        };
        proof {
            assert(is_screen_of(s, self@.term));
        }
        (shown, overlay)
    }
}

fn move_highlight(o: &mut OverlayState, delta: i32)
    requires
        old(o).wf(),
    ensures
        final(o).wf(),
        final(o)@ == SessionModel::highlight_moved(old(o)@, delta as int),
{
    proof {
        reveal(SessionModel::highlight_moved);
    }
    o.move_selection(delta);
}

fn same_hit(a: Option<TitlebarHit>, b: Option<TitlebarHit>) -> (r: bool)
    ensures
        r == (a == b),
{
    match (a, b) {
        (Some(x), Some(y)) => x == y,
        (None, None) => true,
        _ => false,
    }
}

fn copy_strings(v: &Vec<String>) -> (r: Vec<String>)
    ensures
        string_views(r@) == string_views(v@),
{
    let ghost want = string_views(v@);
    let mut r: Vec<String> = Vec::new();
    let mut i: usize = 0;
    proof {
        assert(string_views(r@) =~= want.take(0));
    }
    while i < v.len()
        invariant
            i <= v.len(),
            want == string_views(v@),
            string_views(r@) == want.take(i as int),
        decreases v.len() - i,
    {
        let ghost before = string_views(r@);
        r.push(v[i].clone());
        proof {
            assert(string_views(r@) =~= before.push(want[i as int]));
            assert(want.take(i + 1) =~= want.take(i as int).push(want[i as int]));
        }
        i = i + 1;
    }
    proof {
        assert(want.take(want.len() as int) =~= want);
    }
    r
}

} // verus!
