//! What holds of a session whatever happens to it.

use vstd::prelude::*;
use vstd::utf8::encode_utf8;
use crate::block::BlockView;
use crate::commands::{bound_action, command_table};
use crate::geometry::{ResizeEdge, TitlebarHit};
use crate::keys::{Key, KeyPress, NamedKey};
use crate::model::EventView;
use crate::mouse::MouseButton;
use crate::session_model::{EffectView, SessionModel, entered, history_of};

verus! {

/// Whether anything is written to the child.
pub open spec fn writes(out: Seq<EffectView>) -> bool {
    exists|i: int| 0 <= i < out.len() && (#[trigger] out[i]) is WritePty
}

/// An open overlay keeps the keyboard from the child: no key but Enter, which runs
/// the highlighted command, writes anything.
pub proof fn overlay_keeps_the_keyboard(m: SessionModel, press: KeyPress, echo: bool)
    requires
        m.overlay.is_some(),
        press.logical_key != Key::Named(NamedKey::Enter),
    ensures
        !writes(m.pressed(press, echo).1),
{
    reveal(SessionModel::pressed);
    reveal(SessionModel::overlay_key);
}

/// Shift forces local selection: with it held, no click and no motion of the mouse
/// reaches the program.
pub proof fn shift_selects_locally(
    m: SessionModel,
    pressed: bool,
    button: MouseButton,
    cell: (u16, u16, bool),
    edge: Option<ResizeEdge>,
    hit: Option<TitlebarHit>,
    now: int,
)
    requires
        m.mods.shift,
    ensures
        !writes(m.clicked(pressed, button, cell, edge, hit, now).1),
        !writes(m.moved(cell.0, cell.1, cell.2, hit).1),
{
    reveal(SessionModel::clicked);
    reveal(SessionModel::titlebar_pressed);
    reveal(SessionModel::hovered_over);
    reveal(SessionModel::pointed);
    reveal(SessionModel::selection_copied);
}

/// Motion is reported once for each cell that the pointer crosses: while it stays in
/// a cell, the program hears no more of it.
pub proof fn motion_is_reported_once(m: SessionModel, col: u16, row: u16, right: bool, again: bool)
    requires
        m.overlay.is_none(),
        m.mouse_forwarded(),
    ensures
        m.pointed(col, row, right).0.pointed(col, row, again) == (
            m.pointed(col, row, right).0,
            Seq::<EffectView>::empty(),
        ),
{
    reveal(SessionModel::pointed);
}

/// A key that is sent to the child brings the live edge into view.
pub proof fn typing_shows_the_live_edge(m: SessionModel, press: KeyPress, echo: bool)
    requires
        m.overlay.is_none(),
        bound_action(command_table(), press.logical_key, m.mods, 0).is_none(),
        writes(m.pressed(press, echo).1),
    ensures
        !m.pressed(press, echo).0.term.scrolled(),
{
    reveal(SessionModel::pressed);
    reveal(SessionModel::band_key);
    reveal(SessionModel::synced);
}

/// A text that is not echoed is never completed from history, so that what shows
/// beside it tells nothing of it.
pub proof fn masked_text_gets_no_suggestion(m: SessionModel)
    ensures
        m.synced(false).term.band.masked,
        m.synced(false).term.band.suggestion.is_none(),
{
    reveal(SessionModel::synced);
    reveal(SessionModel::suggestion);
}

/// Each prompt runs the oldest queued command, and leaves the others queued.
pub proof fn prompts_run_the_queue_in_order(m: SessionModel, echo: bool)
    requires
        m.queue.len() > 0,
    ensures
        m.prompted(echo).1 == seq![EffectView::WritePty(entered(m.queue[0]))],
        m.prompted(echo).0.queue == m.queue.skip(1),
        m.prompted(echo).0.input == m.input,
{
    reveal(SessionModel::prompted);
    reveal(SessionModel::synced);
}

/// A half-typed line is handed to the prompt rather than dropped.
pub proof fn half_typed_line_is_kept(m: SessionModel, echo: bool)
    requires
        m.queue.len() == 0,
        m.input.len() > 0,
    ensures
        m.prompted(echo).1 == seq![EffectView::WritePty(encode_utf8(m.input))],
        m.prompted(echo).0.input.len() == 0,
{
    reveal(SessionModel::prompted);
    reveal(SessionModel::synced);
}

/// The commands that history offers are all different and none is empty; each is a
/// command of some block, and no block's command is missing.
pub proof fn history_has_no_repeats(blocks: Seq<BlockView>, i: int)
    requires
        0 <= i <= blocks.len(),
    ensures
        forall|k: int| 0 <= k < history_of(blocks, i).len() ==> (#[trigger] history_of(blocks, i)[k]).len() > 0,
        forall|j: int, k: int|
            0 <= j < k < history_of(blocks, i).len() ==> #[trigger] history_of(blocks, i)[j]
                != #[trigger] history_of(blocks, i)[k],
        forall|k: int|
            0 <= k < history_of(blocks, i).len() ==> is_command(blocks, i, #[trigger] history_of(blocks, i)[k]),
        forall|b: int|
            i <= b < blocks.len() && (#[trigger] blocks[b]).command.len() > 0 ==> history_of(
                blocks,
                i,
            ).contains(blocks[b].command),
    decreases blocks.len() - i,
{
    if i < blocks.len() {
        history_has_no_repeats(blocks, i + 1);
        let newer = history_of(blocks, i + 1);
        let all = history_of(blocks, i);
        assert forall|k: int| 0 <= k < all.len() implies (#[trigger] all[k]).len() > 0 by {
            if k < newer.len() {
                assert(all[k] == newer[k]);
            }
        }
        assert forall|j: int, k: int| 0 <= j < k < all.len() implies #[trigger] all[j]
            != #[trigger] all[k] by {
            assert(all[j] == newer[j]);
            if k < newer.len() {
                assert(all[k] == newer[k]);
            }
        }
        assert forall|k: int| 0 <= k < all.len() implies is_command(blocks, i, #[trigger] all[k]) by {
            if k < newer.len() {
                assert(all[k] == newer[k]);
                assert(is_command(blocks, i + 1, newer[k]));
                let b = choose|b: int|
                    i + 1 <= b < blocks.len() && (#[trigger] blocks[b]).command == newer[k];
                assert(blocks[b].command == all[k]);
            } else {
                assert(blocks[i].command == all[k]);
            }
        }
        assert forall|b: int|
            i <= b < blocks.len() && (#[trigger] blocks[b]).command.len() > 0 implies all.contains(
            blocks[b].command,
        ) by {
            let c = blocks[b].command;
            if newer.contains(c) {
                let k = choose|k: int| 0 <= k < newer.len() && newer[k] == c;
                assert(all[k] == c);
            } else {
                assert(b == i);
                assert(all.last() == c);
            }
        }
    }
}

/// Whether `c` is the command of a block from block `i` on.
pub open spec fn is_command(blocks: Seq<BlockView>, i: int, c: Seq<char>) -> bool {
    exists|b: int| i <= b < blocks.len() && (#[trigger] blocks[b]).command == c
}

/// A program sets the clipboard only where it may.
pub proof fn clipboard_needs_permission(m: SessionModel, text: Seq<char>, echo: bool, now: int)
    ensures
        m.told(EventView::ClipboardStore(text), echo, now) == if m.clipboard_write {
            (m, seq![EffectView::SetClipboard(text)])
        } else {
            (m, Seq::<EffectView>::empty())
        },
{
    reveal(SessionModel::told);
}

} // verus!
