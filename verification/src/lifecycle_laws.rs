//! What the shell's markers make of the blocks, from the prompt to the exit code, and
//! how the lines that they are anchored to are counted.

use vstd::prelude::*;
use crate::block::{BlockState, BlockView};
use crate::emulator::{EmuEventView, EmuOp, GridCell, emitted, fed_chunks, grid_cell, grid_cursor, grid_history, grid_text, in_grid, text_readable};
use crate::model::{EventView, LINE_BOUND, LINE_LIMIT, TermModel, forwarded, forwarded_all, frozen_from};
use crate::model_laws::stale_in_range;
use crate::osc133::{MarkerView, SemanticKind, scan_hits, scan_state};
use crate::palette::Palette;
use crate::resolve::shown;
use crate::snapshot::CursorShape;
use crate::terminal::fresh_terminal;
use crate::text::{trimmed, trimmed_end};
use crate::wide::Glyphs;

verus! {

/// A prompt opens a block behind those that are kept: with the next id, on the cursor's
/// line, with nothing run in it yet, in the directory that was reported last.
pub proof fn a_prompt_opens_a_block(m: TermModel, line: int)
    requires
        m.wf(),
        m.next_id < u32::MAX,
    ensures
        ({
            let n = m.after_semantic(SemanticKind::PromptStart, line, 0);
            let b = n.blocks.last();
            &&& n.blocks.drop_last() == m.pruned().blocks
            &&& b.id == m.next_id
            &&& n.next_id == m.next_id + 1
            &&& b.prompt_line == line
            &&& b.command_line == line
            &&& b.command_col == 0
            &&& !b.command_started
            &&& b.output_line.is_none()
            &&& b.end_line.is_none()
            &&& b.exit_code.is_none()
            &&& b.state == BlockState::Running
            &&& b.command.len() == 0
            &&& b.cwd == m.pending_cwd
            &&& n.pending_cwd.is_none()
            &&& !n.running()
            &&& n.scroll_top == m.scroll_top
            &&& n.abs_base == m.abs_base
        }),
{
    let p = m.pruned();
    let n = m.after_semantic(SemanticKind::PromptStart, line, 0);
    assert(n.blocks.drop_last() =~= p.blocks);
}

/// The end of the prompt is where the command begins: the last block remembers the
/// place, and nothing else changes.
pub proof fn the_prompts_end_begins_the_command(m: TermModel, line: int, col: int)
    requires
        m.blocks.len() > 0,
    ensures
        ({
            let n = m.after_semantic(SemanticKind::PromptEnd, line, col);
            let b = n.blocks.last();
            &&& n.blocks.len() == m.blocks.len()
            &&& n.blocks.drop_last() == m.blocks.drop_last()
            &&& b == (BlockView {
                command_line: line,
                command_col: col,
                command_started: true,
                ..m.blocks.last()
            })
            &&& n.frozen == m.frozen
            &&& n.running() == m.running()
        }),
{
    let n = m.after_semantic(SemanticKind::PromptEnd, line, col);
    assert(n.blocks.drop_last() =~= m.blocks.drop_last());
}

/// Where output begins, an open block starts to run: its command is the text typed
/// between the end of the prompt and the line before, and the prompt is kept as it was
/// shown. A block that runs already is left alone.
pub proof fn output_starts_the_command(m: TermModel, line: int, col: int)
    requires
        m.wf(),
        m.blocks.len() > 0,
        m.blocks.last().end_line.is_none(),
    ensures
        ({
            let old = m.blocks.last();
            let n = m.after_semantic(SemanticKind::OutputStart, line, col);
            let b = n.blocks.last();
            &&& old.output_line.is_some() ==> n == m
            &&& old.output_line.is_none() ==> {
                &&& n.running()
                &&& b.output_line == Some(line)
                &&& b.started
                &&& b.id == old.id
                &&& b.prompt_line == old.prompt_line
                &&& b.state == old.state
                &&& n.blocks.drop_last() == m.blocks.drop_last()
                &&& n.frozen == m.frozen
            }
        }),
{
    let n = m.after_semantic(SemanticKind::OutputStart, line, col);
    assert(n.blocks.drop_last() =~= m.blocks.drop_last());
}

/// The command of a block is the grid's text from where the prompt ended up to the line
/// before the output, without the white space around it, wherever the grid holds those
/// lines and they can be read.
pub proof fn the_command_is_what_was_typed(m: TermModel, line: int, col: int)
    requires
        m.wf(),
        m.blocks.len() > 0,
        m.blocks.last().output_line.is_none(),
        m.abs_base - m.depth() <= m.blocks.last().command_line < line,
        line <= m.abs_base + m.rows,
    ensures
        ({
            let old = m.blocks.last();
            let b = m.after_semantic(SemanticKind::OutputStart, line, col).blocks.last();
            let l0 = old.command_line - m.abs_base;
            let l1 = line - 1 - m.abs_base;
            &&& text_readable(m.log, l0, old.command_col, l1) ==> b.command == trimmed(
                grid_text(m.log, l0, old.command_col, l1, m.cols - 1),
            )
            &&& !text_readable(m.log, l0, old.command_col, l1) ==> b.command.len() == 0
            &&& forall|c: int|
                0 <= c < old.command_col && c < m.cols ==> #[trigger] b.prompt_prefix[c] == shown(
                    m.palette,
                    grid_cell(m.log, l0, c),
                )
            &&& old.command_col <= m.cols && old.command_col >= 0 ==> b.prompt_prefix.len() == old.command_col
            &&& old.command_col > m.cols ==> b.prompt_prefix.len() == m.cols
        }),
{
}

/// A command whose prompt and output stand on one line has no text.
pub proof fn no_command_on_the_output_line(m: TermModel, line: int, col: int)
    requires
        m.blocks.len() > 0,
        m.blocks.last().output_line.is_none(),
        line <= m.blocks.last().command_line,
    ensures
        m.after_semantic(SemanticKind::OutputStart, line, col).blocks.last().command.len() == 0,
{
    assert(trimmed(Seq::<char>::empty()) =~= Seq::<char>::empty());
}

/// The exit code closes the last block on the cursor's line, which then runs no more;
/// the last five lines of its output are kept, without white space at their end.
pub proof fn the_exit_code_closes_the_block(m: TermModel, exit: Option<i32>, line: int, col: int)
    requires
        m.wf(),
        m.blocks.len() > 0,
    ensures
        ({
            let old = m.blocks.last();
            let n = m.after_semantic(SemanticKind::CommandFinished(exit), line, col);
            let b = n.blocks.last();
            &&& b.end_line == Some(line)
            &&& b.exit_code == exit
            &&& !n.running()
            &&& (b.state == BlockState::Success) == (exit == Some(0i32))
            &&& (b.state == BlockState::Failed) == (exit.is_some() && exit != Some(0i32))
            &&& b.command == old.command
            &&& b.output_line == old.output_line
            &&& n.frozen.last().id == old.id
            &&& old.output_line matches Some(out) ==> {
                &&& line <= out ==> b.output_excerpt.len() == 0
                &&& out < line && m.abs_base - m.depth() <= out && line <= m.abs_base + m.rows ==> {
                    let first = if line - 5 > out {
                        line - 5
                    } else {
                        out
                    };
                    let l0 = first - m.abs_base;
                    let l1 = line - 1 - m.abs_base;
                    text_readable(m.log, l0, 0, l1) ==> b.output_excerpt == trimmed_end(
                        grid_text(m.log, l0, 0, l1, m.cols - 1),
                    )
                }
            }
            &&& old.output_line.is_none() ==> b.output_excerpt == old.output_excerpt
        }),
{
}

/// A block has one frozen buffer: finishing it again replaces the buffer, and finishing
/// one for the first time adds its buffer behind the others.
pub proof fn each_block_has_one_buffer(m: TermModel, exit: Option<i32>, line: int, i: int)
    requires
        m.wf(),
        m.blocks.len() > 0,
        0 <= i < m.frozen.len(),
    ensures
        ({
            let n = m.finished(exit, line);
            let again = m.frozen.last().id == m.blocks.last().id;
            &&& n.frozen.len() == m.frozen.len() + if again {
                0int
            } else {
                1
            }
            &&& !again || i < m.frozen.len() - 1 ==> n.frozen[i] == m.frozen[i]
        }),
{
}

/// Without a block, the markers behind a prompt change nothing.
pub proof fn markers_need_a_block(m: TermModel, kind: SemanticKind, line: int, col: int)
    requires
        m.blocks.len() == 0,
        kind != SemanticKind::PromptStart,
    ensures
        m.after_semantic(kind, line, col) == m,
{
}

/// From a prompt to the exit code a block goes through its whole life, and is then the
/// last finished one, with its lines where the markers were.
pub proof fn a_command_goes_full_circle(m: TermModel, a: int, b: int, col: int, c: int, d: int, exit: Option<i32>)
    requires
        m.wf(),
        m.next_id < u32::MAX,
    ensures
        ({
            let one = m.after_semantic(SemanticKind::PromptStart, a, 0);
            let two = one.after_semantic(SemanticKind::PromptEnd, b, col);
            let three = two.after_semantic(SemanticKind::OutputStart, c, 0);
            let four = three.after_semantic(SemanticKind::CommandFinished(exit), d, 0);
            let done = four.blocks.last();
            &&& !one.running() && !two.running() && three.running() && !four.running()
            &&& done.id == m.next_id
            &&& done.prompt_line == a
            &&& done.command_line == b
            &&& done.command_col == col
            &&& done.output_line == Some(c)
            &&& done.end_line == Some(d)
            &&& done.exit_code == exit
            &&& done.cwd == m.pending_cwd
            &&& four.frozen.last().id == done.id
            &&& four.frozen.last().command == done.command
        }),
{
}

/// A reported directory is the one that the next block opens in; the last block takes
/// it where it knows of none. The report is passed on.
pub proof fn directories_go_to_the_blocks(m: TermModel, path: Seq<char>)
    ensures
        ({
            let n = m.marked_by(MarkerView::Cwd(path));
            &&& n.pending_cwd == Some(path)
            &&& n.outbox == m.outbox.push(EventView::WorkingDirectory(path))
            &&& n.blocks.len() == m.blocks.len()
            &&& m.blocks.len() > 0 && m.blocks.last().cwd.is_none() ==> n.blocks.last().cwd == Some(path)
            &&& m.blocks.len() > 0 && m.blocks.last().cwd.is_some() ==> n.blocks == m.blocks
            &&& forall|i: int| 0 <= i < m.blocks.len() - 1 ==> #[trigger] n.blocks[i] == m.blocks[i]
            &&& n.frozen == m.frozen
        }),
{
}

/// Every prompt marker is passed on with the line that it came on, after what it does
/// to the blocks.
pub proof fn markers_are_passed_on(m: TermModel, kind: SemanticKind)
    requires
        m.wf(),
        0 <= grid_cursor(m.log).0 < m.rows,
        0 <= grid_cursor(m.log).1 < m.cols,
    ensures
        ({
            let line = m.abs_base + grid_cursor(m.log).0;
            let n = m.marked_by(MarkerView::Semantic(kind));
            let s = m.after_semantic(kind, line, grid_cursor(m.log).1);
            &&& n.outbox == m.outbox.push(EventView::SemanticPrompt { kind, line })
            &&& n.blocks == s.blocks
            &&& n.frozen == s.frozen
            &&& n.next_id == s.next_id
            &&& n.pending_cwd == s.pending_cwd
        }),
{
}

/// Lines that enter history move the line origin down by as many, so that every line
/// keeps its number.
pub proof fn scrolled_lines_are_counted(m: TermModel)
    requires
        m.wf(),
        !m.alt(),
        !m.prev_alt,
        grid_history(m.log) >= m.prev_history,
        m.abs_base + grid_history(m.log) - m.prev_history <= LINE_LIMIT,
    ensures
        m.synced().abs_base - m.abs_base == grid_history(m.log) - m.prev_history,
        m.synced().prev_history == grid_history(m.log),
        m.synced().blocks == m.blocks,
        m.synced().frozen == m.frozen,
{
}

/// While the alternate screen is up, and where the screens were swapped, the line origin
/// stays and so do the blocks.
pub proof fn the_other_screen_counts_no_lines(m: TermModel)
    requires
        m.alt() || m.prev_alt,
    ensures
        m.synced().abs_base == m.abs_base,
        m.synced().blocks == m.blocks,
        m.synced().frozen == m.frozen,
        m.synced().prev_alt == m.alt(),
        m.synced().prev_history == grid_history(m.log),
{
}

/// A history that shrank on the main screen was cleared: no line that a block was
/// anchored to is there any more, so all blocks go, and lines are counted anew.
pub proof fn a_cleared_history_drops_the_blocks(m: TermModel)
    requires
        !m.alt(),
        !m.prev_alt,
        grid_history(m.log) < m.prev_history,
    ensures
        m.synced().blocks.len() == 0,
        m.synced().frozen.len() == 0,
        m.synced().abs_base == 0,
        m.synced().prev_history == grid_history(m.log),
{
}

/// What is dropped when a block opens is at the front of the list: blocks that left
/// history whole and that no buffer backs, and as many as are over two thousand. The
/// buffers of what is dropped go too, and no others.
pub proof fn only_old_blocks_are_dropped(m: TermModel, j: int)
    requires
        m.wf(),
    ensures
        ({
            let n = m.pruned();
            let gone = m.blocks.len() - n.blocks.len();
            &&& gone >= 0
            &&& n.blocks == m.blocks.skip(gone)
            &&& n.blocks.len() <= 2000
            &&& n.blocks.len() < 2000 && 0 <= j < gone ==> {
                &&& m.blocks[j + 1].prompt_line <= m.abs_base - m.depth()
                &&& !(j < m.frozen.len() && m.frozen[j].id == m.blocks[j].id)
            }
            &&& n.blocks.len() > 1 ==> m.blocks[gone + 1].prompt_line > m.abs_base - m.depth() || (gone
                < m.frozen.len() && m.frozen[gone].id == m.blocks[gone].id) || gone == m.blocks.len() - 2000
        }),
{
    let s = m.stale(0);
    stale_in_range(m, 0);
    stale_blocks_are_old(m, 0, j);
    let rest = m.blocks.skip(s);
    if rest.len() > 2000 {
        assert(rest.skip(rest.len() - 2000) =~= m.blocks.skip(m.blocks.len() - 2000));
    }
    let n = m.pruned();
    let gone = m.blocks.len() - n.blocks.len();
    assert(n.blocks =~= m.blocks.skip(gone));
}

proof fn stale_blocks_are_old(m: TermModel, i: int, j: int)
    requires
        0 <= i,
        i < m.blocks.len() || i == 0,
    ensures
        i <= j < m.stale(i) ==> m.blocks[j + 1].prompt_line <= m.abs_base - m.depth() && !(j
            < m.frozen.len() && m.frozen[j].id == m.blocks[j].id),
        m.stale(i) + 1 < m.blocks.len() ==> m.blocks[m.stale(i) + 1].prompt_line > m.abs_base - m.depth()
            || (m.stale(i) < m.frozen.len() && m.frozen[m.stale(i)].id == m.blocks[m.stale(i)].id),
    decreases m.blocks.len() - i,
{
    if i + 1 < m.blocks.len() && m.blocks[i + 1].prompt_line <= m.oldest_kept() && !m.backed(i) {
        stale_blocks_are_old(m, i + 1, j);
    }
}

/// Of the buffers, those from the first kept block's id on stay, in order.
pub proof fn kept_buffers_are_those_of_kept_blocks(m: TermModel)
    requires
        m.wf(),
        m.pruned().blocks.len() > 0,
    ensures
        ({
            let n = m.pruned();
            let gone = m.frozen.len() - n.frozen.len();
            &&& gone >= 0
            &&& n.frozen == m.frozen.skip(gone)
            &&& forall|k: int| 0 <= k < gone ==> (#[trigger] m.frozen[k]).id < n.blocks[0].id
            &&& n.frozen.len() > 0 ==> n.frozen[0].id >= n.blocks[0].id
        }),
{
    buffers_from(m.frozen, m.pruned().blocks[0].id);
}

proof fn buffers_from(frozen: Seq<crate::block::FrozenView>, id: int)
    ensures
        ({
            let rest = frozen_from(frozen, id);
            let gone = frozen.len() - rest.len();
            &&& gone >= 0
            &&& rest == frozen.skip(gone)
            &&& forall|k: int| 0 <= k < gone ==> (#[trigger] frozen[k]).id < id
            &&& rest.len() > 0 ==> rest[0].id >= id
        }),
    decreases frozen.len(),
{
    let rest = frozen_from(frozen, id);
    let gone = frozen.len() - rest.len();
    if frozen.len() > 0 && frozen[0].id < id {
        let t = frozen.skip(1);
        buffers_from(t, id);
        assert(t.skip(gone - 1) =~= frozen.skip(gone));
        assert forall|k: int| 0 <= k < gone implies (#[trigger] frozen[k]).id < id by {
            if k > 0 {
                assert(t[k - 1] == frozen[k]);
            }
        }
    } else {
        assert(frozen.skip(0) =~= frozen);
    }
}

/// A resize gives the grid the asked size, of at least one row and column, and the blocks
/// stay exactly where every finished one has its buffer; else all of them go.
pub proof fn resizing_takes_the_size(m: TermModel, cols: u16, rows: u16)
    requires
        m.wf(),
    ensures
        ({
            let r = m.resized(cols, rows);
            let open = m.blocks.len() > 0 && m.blocks.last().end_line.is_none();
            let aligned = m.frozen.len() + (if open {
                1int
            } else {
                0
            }) == m.blocks.len() && forall|i: int|
                0 <= i < m.frozen.len() ==> (#[trigger] m.frozen[i]).id == m.blocks[i].id;
            &&& r.cols == (if cols == 0 {
                1
            } else {
                cols as int
            })
            &&& r.rows == (if rows == 0 {
                1
            } else {
                rows as int
            })
            &&& r.log == m.log.push(EmuOp::Resize { cols: r.cols, rows: r.rows })
            &&& aligned ==> r.blocks.len() == m.blocks.len() && r.frozen.len() == m.frozen.len()
            &&& !aligned ==> r.blocks.len() == 0 && r.frozen.len() == 0
            &&& r.pending_cwd.is_none()
            &&& r.abs_base == m.abs_base
            &&& r.band == m.band
            &&& r.prev_history == grid_history(r.log)
        }),
{
}

/// A re-wrap keeps what each block is: its id, its command, its state, its exit code and
/// its directory. Its output begins as far below the prompt as before, but within the
/// block.
pub proof fn rewrapping_keeps_what_blocks_are(m: TermModel, cols: int, i: int)
    requires
        m.wf(),
        m.blocks.len() > 0,
        m.aligned(),
        0 <= i < m.blocks.len(),
    ensures
        ({
            let old = m.blocks[i];
            let r = m.reanchored(cols);
            let b = r.blocks[i];
            &&& r.blocks.len() == m.blocks.len()
            &&& b.id == old.id
            &&& b.command == old.command
            &&& b.state == old.state
            &&& b.exit_code == old.exit_code
            &&& b.cwd == old.cwd
            &&& b.output_excerpt == old.output_excerpt
            &&& b.prompt_prefix == old.prompt_prefix
            &&& b.output_line.is_some() == old.output_line.is_some()
            &&& i < m.frozen.len() ==> b.end_line.is_some()
            &&& i >= m.frozen.len() ==> b.end_line == old.end_line
            &&& old.output_line matches Some(o) ==> {
                let was = o - old.prompt_line;
                let is = b.output_line->0 - b.prompt_line;
                let last = r.frozen[i].row_count() - 1;
                &&& i < m.frozen.len() && -LINE_LIMIT <= b.prompt_line && b.prompt_line + last <= LINE_BOUND
                    && 0 <= was <= last <= i64::MAX - 1 ==> is == was
                &&& i >= m.frozen.len() && 0 <= was && b.prompt_line + was <= LINE_BOUND ==> is == was
            }
        }),
{
}

/// After a re-wrap the open block begins on the cursor's line where a prompt rests on the
/// main screen, and else at the top of the screen; a finished last block ends above that.
pub proof fn the_open_block_is_pinned(m: TermModel, cols: int)
    requires
        m.wf(),
        m.blocks.len() > 0,
        m.aligned(),
        m.blocks.last().end_line.is_none(),
        0 <= grid_cursor(m.log).0 < m.rows,
    ensures
        ({
            let b = m.reanchored(cols).blocks.last();
            let resting = m.blocks.last().output_line.is_none() && !m.alt();
            &&& resting ==> b.prompt_line == m.abs_base + grid_cursor(m.log).0
            &&& !resting ==> b.prompt_line == m.abs_base
        }),
{
}

/// What the emulator reports is passed on as it is; what it wants written to the child
/// goes out as UTF-8, and what concerns no one is dropped.
pub proof fn reports_are_passed_on(t: Seq<char>, own: EventView)
    ensures
        forwarded(EmuEventView::PtyWrite(t)) == Some(EventView::PtyWrite(vstd::utf8::encode_utf8(t))),
        forwarded(EmuEventView::Title(t)) == Some(EventView::Title(t)),
        forwarded(EmuEventView::ClipboardStore(t)) == Some(EventView::ClipboardStore(t)),
        forwarded(EmuEventView::ResetTitle) == Some(EventView::ResetTitle),
        forwarded(EmuEventView::Bell) == Some(EventView::Bell),
        forwarded(EmuEventView::Wakeup) == Some(EventView::Wakeup),
        forwarded(EmuEventView::MouseCursorDirty) == Some(EventView::MouseCursorDirty),
        forwarded(EmuEventView::CursorBlinkingChange) == Some(EventView::CursorBlink),
        forwarded(EmuEventView::Exit) == Some(EventView::Exit),
        forwarded(EmuEventView::Other).is_none(),
        forwarded(EmuEventView::Own(own)) == Some(own),
{
}

/// Without an open block, the newest finished one ends right above the screen after a
/// re-wrap.
pub proof fn finished_blocks_end_above_the_screen(m: TermModel, cols: int)
    requires
        m.wf(),
        m.blocks.len() > 0,
        m.aligned(),
        m.blocks.last().end_line.is_some(),
    ensures
        m.reanchored(cols).blocks.last().end_line == Some(m.abs_base - 1),
{
}

/// Output with one marker in it is taken in up to the marker's end, then the marker is
/// applied where the cursor is, and then the rest is taken in.
pub proof fn markers_are_applied_where_they_stand(m: TermModel, bytes: Seq<u8>, at: int, mk: MarkerView)
    requires
        scan_hits(m.scan, bytes) == seq![(at, mk)],
        bytes.len() > 0,
    ensures
        ({
            let start = TermModel { seen_output: true, scan: scan_state(m.scan, bytes), ..m };
            m.processed(bytes) == start.fed(bytes.take(at)).marked_by(mk).fed(bytes.skip(at))
        }),
{
    let hits = scan_hits(m.scan, bytes);
    let start = m.begun(bytes);
    crate::osc133::hit_offsets_increase(m.scan, bytes);
    assert(1 <= hits[0].0 <= bytes.len());
    assert(start.after_hits(bytes, hits, 0) == start);
    assert(bytes.subrange(0, at) =~= bytes.take(at));
    assert(bytes.subrange(at, bytes.len() as int) =~= bytes.skip(at));
    assert(start.after_hits(bytes, hits, 1) == start.fed(bytes.take(at)).marked_by(mk));
}

/// Output without a marker is taken in as it is.
pub proof fn plain_output_is_taken_in(m: TermModel, bytes: Seq<u8>)
    requires
        scan_hits(m.scan, bytes).len() == 0,
        bytes.len() > 0,
    ensures
        m.processed(bytes) == (TermModel {
            seen_output: true,
            scan: scan_state(m.scan, bytes),
            ..m
        }).fed(bytes),
        m.processed(bytes).seen_output,
{
    assert(bytes.subrange(0, bytes.len() as int) =~= bytes);
    assert(m.begun(bytes).after_hits(bytes, scan_hits(m.scan, bytes), 0) == m.begun(bytes));
}

/// What is taken in reaches the emulator as it is, and what that reports waits behind
/// what waited before.
pub proof fn output_reaches_the_emulator(m: TermModel, bytes: Seq<u8>)
    requires
        bytes.len() > 0,
    ensures
        m.fed(bytes).log == m.log.push(EmuOp::Feed(bytes)),
        m.fed(bytes).outbox == m.outbox + forwarded_all(emitted(m.log, bytes)),
        m.fed(bytes).scroll_top == m.scroll_top,
        m.fed(bytes).sel == m.sel,
        m.fed(bytes).next_id == m.next_id,
{
}

/// A terminal that could not take in the start of a chunk is left as it was, but takes
/// no more.
pub proof fn refused_output_changes_nothing(m: TermModel, bytes: Seq<u8>)
    requires
        !m.halted,
        !m.segment_fits(bytes, 0),
    ensures
        !m.takes(bytes),
        m.stopped(bytes).halted,
        m.stopped(bytes).log == m.log,
        m.stopped(bytes).blocks == m.blocks,
        m.stopped(bytes).outbox == m.outbox,
        m.stopped(bytes).stopped(bytes) == m.stopped(bytes),
        !m.stopped(bytes).takes(Seq::empty()),
{
    assert(m.first_without_room(bytes, 0) == 0);
}

/// A new terminal has its size, of at least one row and column, and nothing else: no
/// block, no selection, nothing typed, and no cursor before output comes.
pub proof fn a_new_terminal_is_blank(cols: u16, rows: u16, scrollback: usize, palette: Palette, shape: CursorShape)
    ensures
        ({
            let t = fresh_terminal(cols, rows, scrollback, palette, shape);
            &&& t.cols == (if cols == 0 {
                1
            } else {
                cols as int
            })
            &&& t.rows == (if rows == 0 {
                1
            } else {
                rows as int
            })
            &&& t.blocks.len() == 0 && t.frozen.len() == 0
            &&& t.scroll_top.is_none() && t.sel.is_none()
            &&& t.band.input.len() == 0 && t.band.queued.len() == 0
            &&& t.outbox.len() == 0
            &&& t.abs_base == 0
            &&& t.next_id == 1
            &&& t.palette == palette && t.shape == shape
            &&& !t.halted && !t.running()
            &&& t.screen_cursor().is_none()
            &&& t.log == seq![EmuOp::Open { cols: t.cols, rows: t.rows, scrollback: scrollback as int }]
        }),
{
}

/// The grid can take any width of two columns or more; one column it takes where it has
/// it already, or where it holds no double-width glyph, and refuses where it shows one.
pub proof fn one_column_needs_narrow_glyphs(m: TermModel, cols: u16, line: int, col: int)
    requires
        m.wf(),
    ensures
        cols >= 2 ==> m.fits(cols),
        m.cols == 1 ==> m.fits(cols),
        !m.alt() && (forall|l: int, c: int|
            in_grid(m.log, l, c) ==> !(#[trigger] grid_cell(m.log, l, c)).any(GridCell::WIDE_CHAR)) ==> m.fits(
            cols,
        ),
        cols < 2 && m.cols >= 2 && !m.alt() && in_grid(m.log, line, col) && grid_cell(m.log, line, col).any(
            GridCell::WIDE_CHAR,
        ) && Glyphs::after(fed_chunks(m.log)).wide ==> !m.fits(cols),
{
}

/// Each report that is passed on is passed on once, and a dropped one leaves no trace.
pub proof fn each_report_is_passed_on_once(e: EmuEventView)
    ensures
        forwarded(e) matches Some(v) ==> forwarded_all(seq![e]) == seq![v],
        forwarded(e).is_none() ==> forwarded_all(seq![e]).len() == 0,
        forwarded_all(Seq::empty()).len() == 0,
{
    assert(seq![e].drop_last() =~= Seq::empty());
    assert(forwarded_all(seq![e].drop_last()) =~= Seq::empty());
    if forwarded(e).is_some() {
        assert(forwarded_all(seq![e]) =~= seq![forwarded(e)->0]);
    }
}

} // verus!
