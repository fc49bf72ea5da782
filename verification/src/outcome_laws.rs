//! What keys, the mouse, the clipboard and the passing of time lead to in a session.

use vstd::prelude::*;
use vstd::utf8::encode_utf8;
use crate::block::BlockView;
use crate::commands::{ActionView, bound_action, command_table};
use crate::emulator::{MODE_ALT_SCREEN, MODE_BRACKETED_PASTE, MODE_MOUSE, MODE_MOUSE_CLICK, MODE_MOUSE_DRAG, MODE_MOUSE_MOTION, MODE_SGR_MOUSE, cursor_blinks, term_mode};
use crate::geometry::{ResizeEdge, TitlebarHit};
use crate::keys::{Key, KeyPress, NamedKey, press_bytes};
use crate::model::{EventView, TermModel};
use crate::mouse::{MouseAction, MouseButton, report_bytes};
use crate::osc133::SemanticKind;
use crate::overlay::{Kind, OverlayView, listed_for, query_typed, typed_all};
use crate::session_model::{EffectView, SessionModel, ended, entered, history_of, paste_bytes, rest_of, wants_frame};
use crate::text::{begins_with, is_control, trimmed};
use crate::viewport_laws::top_line;

verus! {

/// A page up shows the line before what was on top on the last row, and a page down the
/// one on the last row on top, wherever history goes that far; at either end it stops.
pub proof fn paging_moves_by_a_screen(m: SessionModel, echo: bool)
    requires
        m.term.wf(),
        m.term.oldest_shown() <= top_line(m.term) <= m.term.abs_base,
    ensures
        ({
            let t = m.term;
            let up = m.acted(ActionView::PageUp, echo).0.term;
            let down = m.acted(ActionView::PageDown, echo).0.term;
            &&& top_line(t) - t.oldest_shown() >= t.rows - 1 ==> top_line(up) + t.rows - 1 == top_line(t)
            &&& top_line(t) - t.oldest_shown() < t.rows - 1 ==> top_line(up) == t.oldest_shown()
            &&& t.abs_base - top_line(t) >= t.rows - 1 ==> top_line(down) == top_line(t) + t.rows - 1
            &&& t.abs_base - top_line(t) < t.rows - 1 ==> down.scroll_top.is_none()
            &&& m.acted(ActionView::PageUp, echo).1.len() == 0
            &&& m.acted(ActionView::PageDown, echo).1.len() == 0
        }),
{
    reveal(SessionModel::acted);
    reveal(SessionModel::scrolled_to);
}

/// Scrolling to the top shows the oldest line, and to the bottom the live screen.
pub proof fn scrolling_reaches_the_ends(m: SessionModel, echo: bool)
    requires
        m.term.wf(),
    ensures
        top_line(m.acted(ActionView::ScrollToTop, echo).0.term) == m.term.oldest_shown(),
        m.acted(ActionView::ScrollToBottom, echo).0.term.scroll_top.is_none(),
        m.acted(ActionView::ScrollToBottom, echo).0.term.blocks == m.term.blocks,
{
    reveal(SessionModel::acted);
    reveal(SessionModel::scrolled_to);
}

/// The jumps between blocks put a prompt on top: the nearest one above it, and the
/// nearest one below it. Without one the view stays.
pub proof fn jumps_go_to_the_nearest_prompt(m: SessionModel, echo: bool, i: int)
    requires
        m.term.wf(),
        0 <= i < m.term.blocks.len(),
    ensures
        ({
            let t = m.term;
            let prev = m.acted(ActionView::PrevBlock, echo).0.term;
            let next = m.acted(ActionView::NextBlock, echo).0.term;
            let b = t.blocks[i].prompt_line;
            &&& b < top_line(t) && (forall|j: int|
                i < j < t.blocks.len() ==> (#[trigger] t.blocks[j]).prompt_line >= top_line(t))
                && t.oldest_shown() <= b <= t.abs_base ==> top_line(prev) == b
            &&& b > top_line(t) && (forall|j: int|
                0 <= j < i ==> (#[trigger] t.blocks[j]).prompt_line <= top_line(t)) && t.oldest_shown() <= b
                <= t.abs_base ==> top_line(next) == b
            &&& (forall|j: int|
                0 <= j < t.blocks.len() ==> (#[trigger] t.blocks[j]).prompt_line >= top_line(t)) ==> prev == t
            &&& (forall|j: int|
                0 <= j < t.blocks.len() ==> (#[trigger] t.blocks[j]).prompt_line <= top_line(t)) ==> next == t
        }),
{
    reveal(SessionModel::acted);
    reveal(SessionModel::scrolled_to);
    reveal(SessionModel::jumped);
    let t = m.term;
    crate::viewport_laws::previous_block_is_the_nearest_above(t);
    crate::viewport_laws::next_block_is_the_nearest_below(t);
    let p = t.prev_block(t.blocks.len() as int);
    let n = t.next_block(0);
    if p.is_some() {
        assert(t.blocks[p->0].prompt_line < top_line(t));
    }
    if n.is_some() {
        assert(t.blocks[n->0].prompt_line > top_line(t));
    }
}

/// Copying puts the selected text, or the text of the block on top, on the clipboard, and
/// nothing where there is none; pasting asks for the clipboard, and quitting ends.
pub proof fn copying_fills_the_clipboard(m: SessionModel, echo: bool)
    ensures
        m.term.selected_text() matches Some(t) ==> m.acted(ActionView::CopySelection, echo) == (
            m,
            seq![EffectView::SetClipboard(t)],
        ),
        m.term.selected_text().is_none() ==> m.acted(ActionView::CopySelection, echo).1.len() == 0,
        m.term.top_block_text() matches Some(t) ==> m.acted(ActionView::CopyBlock, echo) == (
            m,
            seq![EffectView::SetClipboard(t)],
        ),
        m.term.top_block_text().is_none() ==> m.acted(ActionView::CopyBlock, echo).1.len() == 0,
        m.acted(ActionView::Paste, echo) == (m, seq![EffectView::ReadClipboard]),
        m.acted(ActionView::Quit, echo) == (m, seq![EffectView::Exit]),
{
    reveal(SessionModel::acted);
    reveal(SessionModel::selection_copied);
    reveal(SessionModel::block_copied);
}

/// A command chosen from history is written to the prompt as it is, not run, and the
/// live edge comes into view.
pub proof fn chosen_commands_are_not_run(m: SessionModel, command: Seq<char>, echo: bool)
    ensures
        m.acted(ActionView::InsertCommand(command), echo).1 == seq![
            EffectView::WritePty(encode_utf8(command)),
        ],
        m.acted(ActionView::InsertCommand(command), echo).0.term.scroll_top.is_none(),
{
    reveal(SessionModel::acted);
}

/// Queueing takes the typed line to the end of the queue, unless it is blank, and leaves
/// the input empty; nothing is written yet.
pub proof fn queueing_takes_the_line(m: SessionModel, echo: bool)
    ensures
        ({
            let (n, out) = m.acted(ActionView::QueueInput, echo);
            &&& out.len() == 0
            &&& n.input.len() == 0
            &&& trimmed(m.input).len() > 0 ==> n.queue == m.queue.push(m.input)
            &&& trimmed(m.input).len() == 0 ==> n.queue == m.queue
            &&& n.term.band.queued == n.queue
            &&& n.term.band.input.len() == 0
        }),
{
    reveal(SessionModel::acted);
    reveal(SessionModel::synced);
}

/// An overlay opens on all that it offers, with nothing typed and the first entry
/// highlighted: the palette on the commands, the history search on this session's.
pub proof fn overlays_open_fresh(m: SessionModel, echo: bool)
    ensures
        ({
            let p = m.acted(ActionView::OpenPalette, echo).0;
            let h = m.acted(ActionView::SearchHistory, echo).0;
            &&& p.overlay.is_some() && h.overlay.is_some()
            &&& p.overlay->0.kind == Kind::Palette
            &&& h.overlay->0.kind == Kind::History
            &&& p.overlay->0.query.len() == 0 && h.overlay->0.query.len() == 0
            &&& p.overlay->0.selected == 0 && h.overlay->0.selected == 0
            &&& p.overlay->0.filtered.len() == p.overlay->0.candidates.len()
            &&& h.overlay->0.filtered.len() == h.overlay->0.candidates.len()
            &&& h.overlay->0.candidates.len() == history_of(m.term.blocks, 0).len()
            &&& !p.selecting && !h.selecting
            &&& p.term == m.term && h.term == m.term
        }),
{
    reveal(SessionModel::acted);
    reveal(SessionModel::palette_opened);
    reveal(SessionModel::history_opened);
}

/// History begins with the newest command: that of the last block that has one.
pub proof fn history_is_newest_first(blocks: Seq<BlockView>, i: int, last: int)
    requires
        0 <= i <= last < blocks.len(),
        blocks[last].command.len() > 0,
        forall|j: int| last < j < blocks.len() ==> (#[trigger] blocks[j]).command.len() == 0,
    ensures
        history_of(blocks, i).len() > 0,
        history_of(blocks, i)[0] == blocks[last].command,
    decreases blocks.len() - i,
{
    if i < last {
        history_is_newest_first(blocks, i + 1, last);
    } else {
        no_commands(blocks, last + 1);
    }
}

proof fn no_commands(blocks: Seq<BlockView>, i: int)
    requires
        0 <= i <= blocks.len(),
        forall|j: int| i <= j < blocks.len() ==> (#[trigger] blocks[j]).command.len() == 0,
    ensures
        history_of(blocks, i).len() == 0,
    decreases blocks.len() - i,
{
    if i < blocks.len() {
        assert(blocks[i].command.len() == 0);
        no_commands(blocks, i + 1);
    }
}

/// The suggestion is the rest of the first command in history that goes on from what is
/// typed; there is none where no command does, or nothing is typed, or it is masked.
pub proof fn the_suggestion_completes_the_input(m: SessionModel)
    ensures
        m.input.len() == 0 ==> m.suggestion(true).is_none(),
        m.suggestion(false).is_none(),
        m.input.len() > 0 ==> {
            let h = history_of(m.term.blocks, 0);
            match m.suggestion(true) {
                Some(rest) => rest.len() > 0 && exists|k: int|
                    0 <= k < h.len() && #[trigger] h[k] == m.input + rest && forall|j: int|
                        0 <= j < k ==> !goes_on_from(#[trigger] h[j], m.input),
                None => forall|j: int| 0 <= j < h.len() ==> !goes_on_from(#[trigger] h[j], m.input),
            }
        },
{
    reveal(SessionModel::suggestion);
    rest_is_found(history_of(m.term.blocks, 0), m.input, 0);
}

/// Whether a command begins with `input` and is longer.
pub open spec fn goes_on_from(command: Seq<char>, input: Seq<char>) -> bool {
    command.len() > input.len() && command.take(input.len() as int) == input
}

proof fn rest_is_found(h: Seq<Seq<char>>, input: Seq<char>, i: int)
    requires
        0 <= i <= h.len(),
    ensures
        match rest_of(h, input, i) {
            Some(rest) => rest.len() > 0 && exists|k: int|
                i <= k < h.len() && #[trigger] h[k] == input + rest && forall|j: int|
                    i <= j < k ==> !goes_on_from(#[trigger] h[j], input),
            None => forall|j: int| i <= j < h.len() ==> !goes_on_from(#[trigger] h[j], input),
        },
    decreases h.len() - i,
{
    if i < h.len() {
        if begins_with(h[i], input) && h[i].len() > input.len() {
            let rest = h[i].skip(input.len() as int);
            assert(h[i] =~= input + rest);
        } else {
            rest_is_found(h, input, i + 1);
            assert(!goes_on_from(h[i], input));
            if rest_of(h, input, i).is_some() {
                let rest = rest_of(h, input, i)->0;
                let k = choose|k: int|
                    i + 1 <= k < h.len() && #[trigger] h[k] == input + rest && forall|j: int|
                        i + 1 <= j < k ==> !goes_on_from(#[trigger] h[j], input);
                assert(h[k] == input + rest);
            }
        }
    }
}

/// Pasted text goes out as it is; a program that asked for it gets it between the two
/// marks of bracketed paste.
pub proof fn pasted_text_is_sent(m: SessionModel, text: Seq<char>)
    ensures
        ({
            let on = term_mode(m.term.log) & MODE_BRACKETED_PASTE != 0;
            let b = paste_bytes(text, true);
            let n = encode_utf8(text).len() as int;
            &&& m.pasted(text) == seq![EffectView::WritePty(paste_bytes(text, on))]
            &&& paste_bytes(text, false) == encode_utf8(text)
            &&& b.len() == n + 12
            &&& b.take(6) == seq![0x1bu8, '[' as u8, '2' as u8, '0' as u8, '0' as u8, '~' as u8]
            &&& b.subrange(6, n + 6) == encode_utf8(text)
            &&& b.skip(n + 6) == seq![0x1bu8, '[' as u8, '2' as u8, '0' as u8, '1' as u8, '~' as u8]
        }),
{
    reveal(SessionModel::pasted);
    let b = paste_bytes(text, true);
    let n = encode_utf8(text).len() as int;
    assert(b.take(6) =~= seq![0x1bu8, '[' as u8, '2' as u8, '0' as u8, '0' as u8, '~' as u8]);
    assert(b.subrange(6, n + 6) =~= encode_utf8(text));
    assert(b.skip(n + 6) =~= seq![0x1bu8, '[' as u8, '2' as u8, '0' as u8, '1' as u8, '~' as u8]);
}

/// A blinking cursor changes its phase each half second and not before; one that does
/// not blink, or that has no focus, is solid.
pub proof fn the_cursor_blinks_in_time(m: SessionModel, now: int)
    ensures
        ({
            let blinking = m.focused && cursor_blinks(m.term.log);
            let (n, out) = m.ticked(now);
            &&& blinking && now >= m.last_blink + 500 ==> n.blink_on == !m.blink_on && n.last_blink == now
                && out == seq![EffectView::Redraw]
            &&& blinking && now < m.last_blink + 500 ==> n == m && out.len() == 0
            &&& !blinking ==> n.blink_on
            &&& !blinking ==> (out.len() > 0 <==> !m.blink_on)
            &&& n.term == m.term
        }),
{
    reveal(SessionModel::ticked);
}

/// The cursor is left out of a frame in the dark phase of a blink and under an overlay,
/// and is drawn otherwise.
pub proof fn the_cursor_hides_in_the_dark_phase(m: SessionModel)
    ensures
        m.overlay.is_some() ==> m.cursor_hidden(),
        m.blink_on && m.overlay.is_none() ==> !m.cursor_hidden(),
        !m.focused && m.overlay.is_none() ==> !m.cursor_hidden(),
        m.focused && cursor_blinks(m.term.log) && !m.blink_on ==> m.cursor_hidden(),
{
}

/// A second press on the titlebar within four tenths of a second toggles the size; any
/// other moves the window. A third press begins anew.
pub proof fn double_clicks_toggle_the_size(m: SessionModel, now: int)
    ensures
        ({
            let (n, out) = m.titlebar_pressed(now);
            let quick = m.titlebar.is_some() && now <= m.titlebar->0 + 400;
            &&& quick ==> out == seq![EffectView::ToggleMaximize] && n.titlebar.is_none()
            &&& !quick ==> out == seq![EffectView::DragWindow] && n.titlebar == Some(now)
        }),
{
    reveal(SessionModel::titlebar_pressed);
}

/// Each button of the titlebar does what it shows.
pub proof fn titlebar_buttons_act(m: SessionModel, now: int)
    ensures
        m.titlebar_hit(TitlebarHit::Minimize, now) == (m, seq![EffectView::Minimize]),
        m.titlebar_hit(TitlebarHit::Maximize, now) == (m, seq![EffectView::ToggleMaximize]),
        m.titlebar_hit(TitlebarHit::Close, now) == (m, seq![EffectView::Exit]),
        m.titlebar_hit(TitlebarHit::Drag, now) == m.titlebar_pressed(now),
{
}

/// The output glides where it jumped up by two rows or more, on the live main screen, at
/// least 150 milliseconds after the window's size changed; and then by as many rows.
pub proof fn output_glides_when_it_jumps(m: SessionModel, now: int)
    ensures
        ({
            let shift = m.reserve();
            let (n, out) = m.watched(now);
            let glide = now - m.geometry >= 150 && m.prev_shift - shift >= 2 && m.term.scroll_top.is_none()
                && term_mode(m.term.log) & MODE_ALT_SCREEN == 0;
            &&& n.prev_shift == shift
            &&& n.term == m.term
            &&& out.last() == EffectView::Redraw
            &&& glide ==> out == seq![EffectView::Glide((m.prev_shift - shift) as u16), EffectView::Redraw]
            &&& !glide ==> out == seq![EffectView::Redraw]
        }),
{
    reveal(SessionModel::watched);
}

/// The reserve is how far the output is moved down, or nothing where it is moved up.
pub proof fn the_reserve_is_the_shift(m: SessionModel)
    requires
        m.term.shift() <= 65535,
    ensures
        m.term.shift() >= 0 ==> m.reserve() == m.term.shift(),
        m.term.shift() < 0 ==> m.reserve() == 0,
{
    reveal(SessionModel::reserve);
}

/// A new size resizes the terminal, stops any glide, and holds the next one off.
pub proof fn resizing_stops_the_glide(m: SessionModel, cols: u16, rows: u16, now: int)
    ensures
        ({
            let (n, out) = m.resized(cols, rows, now);
            &&& n.term == m.term.resized(cols, rows)
            &&& n.geometry == now
            &&& n.prev_shift == n.reserve()
            &&& out == seq![EffectView::CancelGlide, EffectView::Redraw]
        }),
{
    reveal(SessionModel::resized);
    reveal(SessionModel::reserve);
}

/// Dragging with the left button selects: the press begins a selection at its cell, the
/// motion extends it, and the release ends the drag and copies what is selected.
pub proof fn dragging_selects(m: SessionModel, a: (u16, u16, bool), b: (u16, u16, bool), now: int)
    requires
        m.overlay.is_none(),
        term_mode(m.term.log) & MODE_MOUSE == 0,
    ensures
        ({
            let (p, o) = m.clicked(true, MouseButton::Left, a, None, None, now);
            let (q, r) = p.pointed(b.0, b.1, b.2);
            let (s, t) = q.clicked(false, MouseButton::Left, b, None, None, now);
            let from = m.term.point_at(a.0 as int, a.1 as int, a.2);
            let to = p.term.point_at(b.0 as int, b.1 as int, b.2);
            &&& p.selecting
            &&& p.term.sel.is_some() && p.term.sel->0.anchor == from && p.term.sel->0.head == from
            &&& q.term.sel.is_some() && q.term.sel->0.anchor == from && q.term.sel->0.head == to
            &&& o == seq![EffectView::Redraw] && r == seq![EffectView::Redraw]
            &&& !s.selecting
            &&& s.term == q.term
            &&& q.term.selected_text() matches Some(x) ==> t == seq![EffectView::SetClipboard(x)]
            &&& q.term.selected_text().is_none() ==> t.len() == 0
        }),
{
    reveal(SessionModel::clicked);
    reveal(SessionModel::pointed);
    reveal(SessionModel::selection_begun);
    reveal(SessionModel::selection_extended);
    reveal(SessionModel::selection_copied);
}

/// The middle button pastes; no other press but the left button's does anything then.
pub proof fn the_middle_button_pastes(m: SessionModel, cell: (u16, u16, bool), now: int)
    requires
        m.overlay.is_none(),
        term_mode(m.term.log) & MODE_MOUSE == 0,
    ensures
        m.clicked(true, MouseButton::Middle, cell, None, None, now) == (m, seq![EffectView::ReadClipboard]),
        m.clicked(true, MouseButton::Right, cell, None, None, now) == (m, Seq::<EffectView>::empty()),
        m.clicked(false, MouseButton::Middle, cell, None, None, now) == (m, Seq::<EffectView>::empty()),
{
    reveal(SessionModel::clicked);
}

/// An open overlay takes every press, which closes it; a press on the window's edge
/// resizes it, and one on the titlebar does what its part does, before anything below.
pub proof fn the_window_takes_presses_first(
    m: SessionModel,
    button: MouseButton,
    cell: (u16, u16, bool),
    edge: Option<ResizeEdge>,
    hit: Option<TitlebarHit>,
    now: int,
)
    ensures
        m.overlay.is_some() ==> m.clicked(true, button, cell, edge, hit, now) == (
            SessionModel { overlay: None, ..m },
            seq![EffectView::Redraw],
        ),
        m.overlay.is_some() ==> m.clicked(false, button, cell, edge, hit, now) == (
            m,
            Seq::<EffectView>::empty(),
        ),
        m.overlay.is_none() && edge.is_some() ==> m.clicked(true, MouseButton::Left, cell, edge, hit, now) == (
            m,
            seq![EffectView::DragResize(edge->0)],
        ),
        m.overlay.is_none() && edge.is_none() && hit.is_some() ==> m.clicked(
            true,
            MouseButton::Left,
            cell,
            edge,
            hit,
            now,
        ) == m.titlebar_hit(hit->0, now),
{
    reveal(SessionModel::clicked);
}

/// A program that reads the mouse is told of presses and releases, at their cell and with
/// the held modifiers, in the encoding that it asked for.
pub proof fn clicks_are_reported(m: SessionModel, code: u8, button: MouseButton, cell: (u16, u16, bool), now: int)
    requires
        m.overlay.is_none(),
        !m.mods.shift,
        term_mode(m.term.log) & MODE_MOUSE != 0,
        button == MouseButton::Left && code == 0 || button == MouseButton::Middle && code == 1 || button
            == MouseButton::Right && code == 2,
    ensures
        ({
            let sgr = term_mode(m.term.log) & MODE_SGR_MOUSE != 0;
            let (p, o) = m.clicked(true, button, cell, None, None, now);
            let (r, q) = m.clicked(false, button, cell, None, None, now);
            &&& o == seq![
                EffectView::WritePty(report_bytes(sgr, MouseAction::Press(code), cell.0, cell.1, m.mods)),
            ]
            &&& q == seq![
                EffectView::WritePty(report_bytes(sgr, MouseAction::Release(code), cell.0, cell.1, m.mods)),
            ]
            &&& p.held == Some(code)
            &&& r.held.is_none()
            &&& p.term == m.term && r.term == m.term
        }),
{
    reveal(SessionModel::clicked);
    reveal(SessionModel::report);
}

/// Without an overlay, and where no program reads the mouse, the wheel scrolls by its
/// lines, up into history for a positive turn; on the alternate screen it sends as many
/// arrow keys.
pub proof fn the_wheel_scrolls(m: SessionModel, lines: i32, notches: i32, col: u16, row: u16)
    requires
        m.term.wf(),
        m.overlay.is_none(),
        term_mode(m.term.log) & MODE_MOUSE == 0,
        lines != 0,
    ensures
        ({
            let alt = term_mode(m.term.log) & MODE_ALT_SCREEN != 0;
            let (n, out) = m.wheeled(lines, notches, col, row);
            let to = top_line(m.term) - lines;
            &&& !alt ==> out == seq![EffectView::Redraw]
            &&& !alt && m.term.oldest_shown() <= to <= m.term.abs_base ==> top_line(n.term) == to
            &&& !alt && to > m.term.abs_base ==> n.term.scroll_top.is_none()
            &&& !alt && to < m.term.oldest_shown() ==> top_line(n.term) == m.term.oldest_shown()
            &&& alt ==> n == m
            &&& alt && lines > 0 ==> out.len() == lines
            &&& alt && lines < 0 ==> out.len() == -lines
            &&& alt ==> forall|i: int|
                0 <= i < out.len() ==> #[trigger] out[i] == EffectView::WritePty(
                    seq![0x1bu8, '[' as u8, if lines > 0 { 'A' as u8 } else { 'B' as u8 }],
                )
        }),
{
    reveal(SessionModel::wheeled);
    reveal(SessionModel::scrolled_to);
    let (n, out) = m.wheeled(lines, notches, col, row);
    let key = seq![0x1bu8, '[' as u8, if lines > 0 { 'A' as u8 } else { 'B' as u8 }];
    assert(lines > 0 ==> key =~= seq![0x1bu8, 0x5b, 0x41]);
    assert(lines < 0 ==> key =~= seq![0x1bu8, 0x5b, 0x42]);
}

/// A program that reads the mouse hears of each notch of the wheel, and which way it
/// turned.
pub proof fn wheel_notches_are_reported(m: SessionModel, lines: i32, notches: i32, col: u16, row: u16, i: int)
    requires
        m.overlay.is_none(),
        !m.mods.shift,
        term_mode(m.term.log) & MODE_MOUSE != 0,
    ensures
        ({
            let sgr = term_mode(m.term.log) & MODE_SGR_MOUSE != 0;
            let (n, out) = m.wheeled(lines, notches, col, row);
            &&& n == m
            &&& notches >= 0 ==> out.len() == notches
            &&& notches < 0 ==> out.len() == -notches
            &&& 0 <= i < out.len() ==> out[i] == EffectView::WritePty(
                report_bytes(sgr, MouseAction::Wheel(notches > 0), col, row, m.mods),
            )
        }),
{
    reveal(SessionModel::wheeled);
    reveal(SessionModel::report);
}

/// Over an overlay the wheel moves the highlight against its turn: up the list for a
/// turn upward.
pub proof fn the_wheel_moves_the_highlight(m: SessionModel, o: OverlayView, lines: i32, notches: i32)
    requires
        m.overlay == Some(o),
        o.wf(),
        lines != 0,
        0 <= o.selected - lines < o.filtered.len(),
    ensures
        ({
            let (n, out) = m.wheeled(lines, notches, 0, 0);
            &&& n.overlay.is_some()
            &&& n.overlay->0.selected == o.selected - lines
            &&& n.overlay->0.filtered == o.filtered
            &&& n.term == m.term
        }),
{
    reveal(SessionModel::wheeled);
    reveal(SessionModel::highlight_moved);
    let x = o.selected - lines;
    assert(x % (o.filtered.len() as int) == x) by (nonlinear_arith)
        requires
            0 <= x < o.filtered.len(),
    ;
}

/// The arrows move the highlight by one row and around at either end.
pub proof fn the_highlight_goes_around(o: OverlayView)
    requires
        o.wf(),
        o.filtered.len() > 0,
    ensures
        ({
            let n = o.filtered.len() as int;
            let down = SessionModel::overlay_edited(o, Key::Named(NamedKey::ArrowDown));
            let up = SessionModel::overlay_edited(o, Key::Named(NamedKey::ArrowUp));
            &&& o.selected < n - 1 ==> down.selected == o.selected + 1
            &&& o.selected == n - 1 ==> down.selected == 0
            &&& o.selected > 0 ==> up.selected == o.selected - 1
            &&& o.selected == 0 ==> up.selected == n - 1
            &&& down.filtered == o.filtered && up.filtered == o.filtered
            &&& down.query == o.query && up.query == o.query
        }),
{
    reveal(SessionModel::highlight_moved);
    let n = o.filtered.len() as int;
    let a = o.selected + 1;
    let b = o.selected - 1;
    if a < n {
        assert(a % n == a) by (nonlinear_arith)
            requires
                0 <= a < n,
        ;
    } else {
        assert(a % n == 0) by (nonlinear_arith)
            requires
                a == n,
                n > 0,
        ;
    }
    if b >= 0 {
        assert(b % n == b) by (nonlinear_arith)
            requires
                0 <= b < n,
        ;
    } else {
        assert(b % n == n - 1) by (nonlinear_arith)
            requires
                b == -1,
                n > 0,
        ;
    }
}

/// Escape closes the overlay and does nothing else; Enter closes it and does what the
/// highlighted entry stands for.
pub proof fn enter_runs_the_highlighted_entry(m: SessionModel, o: OverlayView, echo: bool)
    requires
        o.wf(),
    ensures
        m.overlay_key(o, Key::Named(NamedKey::Escape), echo) == (
            SessionModel { overlay: None, ..m },
            seq![EffectView::Redraw],
        ),
        o.filtered.len() == 0 ==> m.overlay_key(o, Key::Named(NamedKey::Enter), echo) == (
            SessionModel { overlay: None, ..m },
            seq![EffectView::Redraw],
        ),
        o.filtered.len() > 0 ==> {
            let a = o.candidates[o.filtered[o.selected]].action;
            let closed = SessionModel { overlay: None, ..m };
            let (n, out) = m.overlay_key(o, Key::Named(NamedKey::Enter), echo);
            &&& n == closed.acted(a, echo).0
            &&& out.drop_last() == closed.acted(a, echo).1
            &&& out.last() == EffectView::Redraw
        },
{
    reveal(SessionModel::overlay_key);
    let (n, out) = m.overlay_key(o, Key::Named(NamedKey::Enter), echo);
    if o.filtered.len() > 0 {
        let a = o.candidates[o.filtered[o.selected]].action;
        let closed = SessionModel { overlay: None, ..m };
        assert(out.drop_last() =~= closed.acted(a, echo).1);
    }
}

/// While a command runs on the main screen, keys go to the band: characters are typed at
/// its end, Backspace takes the last one, and Enter sends the line with a carriage
/// return and empties it. Nothing else is written to the child.
pub proof fn keys_go_to_the_band(m: SessionModel, press: KeyPress, s: String, echo: bool)
    requires
        m.overlay.is_none(),
        m.term.running(),
        term_mode(m.term.log) & MODE_ALT_SCREEN == 0,
        !m.mods.ctrl && !m.mods.alt,
        bound_action(command_table(), press.logical_key, m.mods, 0).is_none(),
    ensures
        ({
            let (n, out) = m.pressed(press, echo);
            let key = press.logical_key;
            &&& key == Key::Character(s) && s@.len() == 1 && !is_control(s@[0]) ==> n.input == m.input.push(
                s@[0],
            ) && out == seq![EffectView::Redraw]
            &&& key == Key::Named(NamedKey::Space) ==> n.input == m.input.push(' ') && out == seq![
                EffectView::Redraw,
            ]
            &&& key == Key::Named(NamedKey::Backspace) && m.input.len() > 0 ==> n.input == m.input.take(
                m.input.len() - 1,
            ) && out == seq![EffectView::Redraw]
            &&& key == Key::Named(NamedKey::Enter) ==> n.input.len() == 0 && out == seq![
                EffectView::WritePty(encode_utf8(m.input) + seq![0x0du8]),
                EffectView::Redraw,
            ]
            &&& n.queue == m.queue
            &&& n.term.scroll_top.is_none()
            &&& n.term.band.input == n.input
            &&& n.term.band.masked == !echo
        }),
{
    reveal(SessionModel::pressed);
    reveal(SessionModel::band_key);
    reveal(SessionModel::band_edited);
    reveal(SessionModel::synced);
    let (n, out) = m.pressed(press, echo);
    if press.logical_key == Key::Character(s) && s@.len() == 1 && !is_control(s@[0]) {
        assert(s@.drop_last() =~= Seq::empty());
        assert(crate::overlay::typed_all(m.input, s@.drop_last()) == m.input);
        assert(out =~= seq![EffectView::Redraw]);
    }
    if press.logical_key == Key::Named(NamedKey::Space) {
        assert(out =~= seq![EffectView::Redraw]);
    }
    if press.logical_key == Key::Named(NamedKey::Backspace) && m.input.len() > 0 {
        assert(m.input.drop_last() =~= m.input.take(m.input.len() - 1));
        assert(out =~= seq![EffectView::Redraw]);
    }
    if press.logical_key == Key::Named(NamedKey::Enter) {
        assert(entered(m.input) =~= encode_utf8(m.input) + seq![0x0du8]);
        assert(out =~= seq![
            EffectView::WritePty(encode_utf8(m.input) + seq![0x0du8]),
            EffectView::Redraw,
        ]);
    }
}

/// At a prompt, or on the alternate screen, or with Ctrl or Alt held, a key that is bound
/// to no command sends its bytes to the child and brings the live edge into view; one
/// that stands for none does nothing.
pub proof fn keys_go_to_the_child(m: SessionModel, press: KeyPress, echo: bool)
    requires
        m.overlay.is_none(),
        bound_action(command_table(), press.logical_key, m.mods, 0).is_none(),
        !m.term.running() || term_mode(m.term.log) & MODE_ALT_SCREEN != 0 || m.mods.ctrl || m.mods.alt,
    ensures
        ({
            let (n, out) = m.pressed(press, echo);
            match press_bytes(press, m.mods) {
                Some(b) => {
                    &&& out == seq![EffectView::Redraw, EffectView::WritePty(b)]
                    &&& n.term.scroll_top.is_none()
                    &&& n.input == m.input
                },
                None => n == m && out.len() == 0,
            }
        }),
{
    reveal(SessionModel::pressed);
}

/// A bound key runs its command and sends nothing of itself.
pub proof fn bound_keys_run_their_command(m: SessionModel, press: KeyPress, a: ActionView, echo: bool)
    requires
        m.overlay.is_none(),
        bound_action(command_table(), press.logical_key, m.mods, 0) == Some(a),
    ensures
        m.pressed(press, echo).0 == m.acted(a, echo).0,
        m.pressed(press, echo).1.drop_last() == m.acted(a, echo).1,
        m.pressed(press, echo).1.last() == EffectView::Redraw,
{
    reveal(SessionModel::pressed);
    assert(m.pressed(press, echo).1.drop_last() =~= m.acted(a, echo).1);
}

/// What the terminal reports is done: replies go to the child, titles to the window, and
/// the child's end ends the program; a prompt lets the queue go on.
pub proof fn reports_are_acted_on(m: SessionModel, b: Seq<u8>, t: Seq<char>, line: int, echo: bool, now: int)
    ensures
        m.told(EventView::PtyWrite(b), echo, now) == (m, seq![EffectView::WritePty(b)]),
        m.told(EventView::Title(t), echo, now) == (m, seq![EffectView::SetTitle(t)]),
        m.told(EventView::ResetTitle, echo, now) == (m, seq![EffectView::SetTitle("shelvd"@)]),
        m.told(EventView::Exit, echo, now) == (m, seq![EffectView::Exit]),
        m.told(EventView::CursorBlink, echo, now).0.blink_on,
        m.told(EventView::CursorBlink, echo, now).0.last_blink == now,
        m.told(EventView::SemanticPrompt { kind: SemanticKind::PromptStart, line }, echo, now) == m.prompted(
            echo,
        ),
        m.told(EventView::SemanticPrompt { kind: SemanticKind::PromptEnd, line }, echo, now) == (
            m,
            Seq::<EffectView>::empty(),
        ),
        m.told(EventView::SemanticPrompt { kind: SemanticKind::OutputStart, line }, echo, now) == (
            m,
            Seq::<EffectView>::empty(),
        ),
        m.queue.len() == 0 && m.input.len() == 0 ==> m.prompted(echo) == (m, Seq::<EffectView>::empty()),
{
    reveal(SessionModel::told);
    reveal(SessionModel::prompted);
}

/// Nothing that was reported after the child's end is acted on.
pub proof fn nothing_follows_the_end(m: SessionModel, events: Seq<EventView>, k: int, n: int, echo: bool, now: int)
    requires
        0 <= k < n <= events.len(),
        events[k] is Exit,
    ensures
        m.told_all(events, n, echo, now) == m.told_all(events, k + 1, echo, now),
    decreases n,
{
    if n > k + 1 {
        nothing_follows_the_end(m, events, k, n - 1, echo, now);
        ended_after(events, k, n - 1);
    }
}

proof fn ended_after(events: Seq<EventView>, k: int, n: int)
    requires
        0 <= k < n,
        events[k] is Exit,
    ensures
        ended(events, n),
    decreases n,
{
    if n > k + 1 {
        ended_after(events, k, n - 1);
    }
}

/// The pointer's hovering is told once, when it enters or leaves a window button; the
/// bar itself is none.
pub proof fn hovering_is_told_once(m: SessionModel, hit: Option<TitlebarHit>)
    ensures
        ({
            let h = if hit == Some(TitlebarHit::Drag) {
                None::<TitlebarHit>
            } else {
                hit
            };
            let (n, out) = m.hovered_over(hit);
            &&& n.hovered == h
            &&& h == m.hovered ==> n == m && out.len() == 0
            &&& h != m.hovered ==> out == seq![EffectView::Hover(h), EffectView::Redraw]
            &&& n.hovered_over(hit) == (n, Seq::<EffectView>::empty())
        }),
{
    reveal(SessionModel::hovered_over);
}

/// A frame is drawn where output came, or where a report calls for one: a change of the
/// blinking, or a marker of the shell.
pub proof fn output_calls_for_a_frame(m: SessionModel, echo: bool, now: int)
    requires
        !ended(m.term.outbox, m.term.outbox.len() as int),
    ensures
        m.settled(true, echo, now).1.len() > 0,
        m.settled(true, echo, now).1.last() == EffectView::Redraw,
        wants_frame(m.term.outbox, m.term.outbox.len() as int) ==> m.settled(false, echo, now).1.last()
            == EffectView::Redraw,
        m.term.outbox.len() == 0 ==> m.settled(false, echo, now).1.len() == 0,
        SessionModel::needs_frame(EventView::CursorBlink),
        forall|kind: SemanticKind, line: int|
            #[trigger] SessionModel::needs_frame(EventView::SemanticPrompt { kind, line }),
        !SessionModel::needs_frame(EventView::Bell),
{
    reveal(SessionModel::settled);
    reveal(SessionModel::watched);
}

/// A program that asked for it hears of the pointer's motion into another cell, with the
/// held button, or with the code for none: of all motion, or while a button is held.
pub proof fn motion_is_reported(m: SessionModel, col: u16, row: u16, right: bool)
    requires
        m.overlay.is_none(),
        !m.mods.shift,
        term_mode(m.term.log) & MODE_MOUSE != 0,
        (col, row) != m.report_cell,
    ensures
        ({
            let sgr = term_mode(m.term.log) & MODE_SGR_MOUSE != 0;
            let all = term_mode(m.term.log) & MODE_MOUSE_MOTION != 0;
            let drag = term_mode(m.term.log) & MODE_MOUSE_DRAG != 0;
            let button = if m.held.is_some() {
                m.held->0
            } else {
                3
            };
            let (n, out) = m.pointed(col, row, right);
            &&& all || (drag && m.held.is_some()) ==> out == seq![
                EffectView::WritePty(report_bytes(sgr, MouseAction::Motion(button), col, row, m.mods)),
            ] && n.report_cell == (col, row)
            &&& !all && (!drag || m.held.is_none()) ==> n == m && out.len() == 0
        }),
{
    reveal(SessionModel::pointed);
    reveal(SessionModel::report);
}

/// The band shows what the session has: the typed line, the queue, and the suggestion;
/// the line is masked exactly where the child does not echo.
pub proof fn the_band_shows_the_session(m: SessionModel, echo: bool)
    ensures
        ({
            let n = m.synced(echo);
            &&& n.term.band.input == m.input
            &&& n.term.band.queued == m.queue
            &&& n.term.band.masked == !echo
            &&& n.term.band.suggestion == m.suggestion(echo)
            &&& n.input == m.input && n.queue == m.queue
            &&& n.term.blocks == m.term.blocks
            &&& n.term.scroll_top == m.term.scroll_top
        }),
{
    reveal(SessionModel::synced);
}

/// Any of the ways to ask for the mouse counts as reading it.
pub proof fn any_mouse_mode_reads_the_mouse(mode: u32)
    ensures
        mode & MODE_MOUSE != 0 <==> (mode & MODE_MOUSE_CLICK != 0 || mode & MODE_MOUSE_MOTION != 0 || mode
            & MODE_MOUSE_DRAG != 0),
{
    assert(mode & 0x2048 != 0 <==> (mode & 0x8 != 0 || mode & 0x40 != 0 || mode & 0x2000 != 0)) by (bit_vector);
}

/// Keys edit the query of an overlay, and the list follows it: characters and the space
/// are added at its end, and Backspace takes the last one.
pub proof fn keys_edit_the_query(o: OverlayView, s: String)
    ensures
        ({
            let spaced = SessionModel::overlay_edited(o, Key::Named(NamedKey::Space));
            let erased = SessionModel::overlay_edited(o, Key::Named(NamedKey::Backspace));
            let typed = SessionModel::overlay_edited(o, Key::Character(s));
            &&& spaced.query == o.query.push(' ')
            &&& spaced.filtered == listed_for(spaced.query, o.candidates)
            &&& o.query.len() > 0 ==> erased.query == o.query.take(o.query.len() - 1)
            &&& o.query.len() == 0 ==> erased.query.len() == 0
            &&& erased.filtered == listed_for(erased.query, o.candidates)
            &&& s@.len() == 1 && !is_control(s@[0]) ==> typed.query == o.query.push(s@[0])
            &&& s@.len() > 0 ==> typed.query == typed_all(o.query, s@)
            &&& s@.len() > 0 ==> typed.filtered == listed_for(typed.query, o.candidates)
            &&& typed.candidates == o.candidates && typed.kind == o.kind
        }),
{
    query_is_typed(o, s@);
    if o.query.len() > 0 {
        assert(o.query.drop_last() =~= o.query.take(o.query.len() - 1));
    }
    if s@.len() == 1 {
        assert(s@.drop_last() =~= Seq::empty());
        assert(typed_all(o.query, s@.drop_last()) == o.query);
    }
}

proof fn query_is_typed(o: OverlayView, s: Seq<char>)
    ensures
        query_typed(o, s).query == typed_all(o.query, s),
        s.len() > 0 ==> query_typed(o, s).filtered == listed_for(typed_all(o.query, s), o.candidates),
        query_typed(o, s).candidates == o.candidates,
        query_typed(o, s).kind == o.kind,
    decreases s.len(),
{
    if s.len() > 0 {
        query_is_typed(o, s.drop_last());
    }
}

/// What the terminal reported is taken once: none of it waits any more afterwards.
pub proof fn reports_are_taken_once(m: SessionModel, fed: bool, echo: bool, now: int)
    ensures
        m.settled(fed, echo, now).0.term.outbox.len() == 0,
{
    reveal(SessionModel::settled);
    reveal(SessionModel::watched);
    let start = m.with_term(TermModel { outbox: Seq::empty(), ..m.term });
    telling_adds_no_report(start, m.term.outbox, m.term.outbox.len() as int, echo, now);
}

proof fn telling_adds_no_report(m: SessionModel, events: Seq<EventView>, n: int, echo: bool, now: int)
    ensures
        m.told_all(events, n, echo, now).0.term.outbox == m.term.outbox,
    decreases n,
{
    reveal(SessionModel::told);
    reveal(SessionModel::prompted);
    reveal(SessionModel::synced);
    if n > 0 {
        telling_adds_no_report(m, events, n - 1, echo, now);
    }
}

/// A single report is acted on, and then a frame is drawn where output came with it.
pub proof fn a_report_is_acted_on(m: SessionModel, e: EventView, echo: bool, now: int)
    requires
        m.term.outbox == seq![e],
        !(e is Exit),
    ensures
        ({
            let start = m.with_term(TermModel { outbox: Seq::empty(), ..m.term });
            let (n, out) = start.told(e, echo, now);
            let (w, more) = n.watched(now);
            &&& m.settled(true, echo, now) == (w, out + more)
            &&& !SessionModel::needs_frame(e) ==> m.settled(false, echo, now) == (n, out)
        }),
{
    reveal(SessionModel::settled);
    let start = m.with_term(TermModel { outbox: Seq::empty(), ..m.term });
    let events = m.term.outbox;
    assert(!ended(events, 0));
    assert(!ended(events, 1));
    assert(start.told_all(events, 0, echo, now) == (start, Seq::<EffectView>::empty()));
    assert(!wants_frame(events, 0));
    assert(wants_frame(events, 1) == SessionModel::needs_frame(e));
    let (n, out) = start.told(e, echo, now);
    assert(Seq::<EffectView>::empty() + out =~= out);
    assert(start.told_all(events, 1, echo, now) == (n, out));
}

} // verus!
