//! What the viewport shows: which block a line belongs to, how its rows are marked,
//! and where the jumps between blocks lead.

use vstd::prelude::*;
use crate::block::{BlockState, BlockView};
use crate::emulator::{grid_cell, grid_history};
use crate::history_laws::lead_is;
use crate::model::{TermModel, is_screen_of, lead};
use crate::resolve::shown;
use crate::snapshot::{GridSnapshot, blank_cell};

verus! {

/// The line at the top of the viewport: where it was scrolled to, or the top of the
/// live screen.
pub open spec fn top_line(m: TermModel) -> int {
    if m.scroll_top.is_some() {
        m.scroll_top->0
    } else {
        m.abs_base
    }
}

/// Whether the blocks come in the order of their prompts, each from where the one
/// before begins.
pub open spec fn in_order(blocks: Seq<BlockView>) -> bool {
    forall|i: int, j: int|
        0 <= i <= j < blocks.len() ==> (#[trigger] blocks[i]).prompt_line <= (#[trigger] blocks[j]).prompt_line
}

/// Where a block's prompt is above the viewport, the previous block is one whose
/// prompt is above it, and every later block has its prompt at or below the top of
/// the viewport. There is none exactly where no prompt is above.
pub proof fn previous_block_is_the_nearest_above(m: TermModel)
    ensures
        ({
            let top = top_line(m);
            match m.prev_block(m.blocks.len() as int) {
                Some(i) => {
                    &&& 0 <= i < m.blocks.len()
                    &&& m.blocks[i].prompt_line < top
                    &&& forall|j: int| i < j < m.blocks.len() ==> (#[trigger] m.blocks[j]).prompt_line >= top
                },
                None => forall|j: int|
                    0 <= j < m.blocks.len() ==> (#[trigger] m.blocks[j]).prompt_line >= top,
            }
        }),
{
    previous_among(m, m.blocks.len() as int);
}

proof fn previous_among(m: TermModel, n: int)
    requires
        0 <= n <= m.blocks.len(),
    ensures
        match m.prev_block(n) {
            Some(i) => {
                &&& 0 <= i < n
                &&& m.blocks[i].prompt_line < top_line(m)
                &&& forall|j: int| i < j < n ==> (#[trigger] m.blocks[j]).prompt_line >= top_line(m)
            },
            None => forall|j: int| 0 <= j < n ==> (#[trigger] m.blocks[j]).prompt_line >= top_line(m),
        },
    decreases n,
{
    if n > 0 {
        previous_among(m, n - 1);
    }
}

/// Where a block's prompt is below the top of the viewport, the next block is one
/// whose prompt is, and every earlier block has its prompt at or above the top. There
/// is none exactly where no prompt is below.
pub proof fn next_block_is_the_nearest_below(m: TermModel)
    ensures
        ({
            let top = top_line(m);
            match m.next_block(0) {
                Some(i) => {
                    &&& 0 <= i < m.blocks.len()
                    &&& m.blocks[i].prompt_line > top
                    &&& forall|j: int| 0 <= j < i ==> (#[trigger] m.blocks[j]).prompt_line <= top
                },
                None => forall|j: int|
                    0 <= j < m.blocks.len() ==> (#[trigger] m.blocks[j]).prompt_line <= top,
            }
        }),
{
    next_among(m, 0);
}

proof fn next_among(m: TermModel, n: int)
    requires
        0 <= n <= m.blocks.len(),
    ensures
        match m.next_block(n) {
            Some(i) => {
                &&& n <= i < m.blocks.len()
                &&& m.blocks[i].prompt_line > top_line(m)
                &&& forall|j: int| n <= j < i ==> (#[trigger] m.blocks[j]).prompt_line <= top_line(m)
            },
            None => forall|j: int|
                n <= j < m.blocks.len() ==> (#[trigger] m.blocks[j]).prompt_line <= top_line(m),
        },
    decreases m.blocks.len() - n,
{
    if n < m.blocks.len() {
        next_among(m, n + 1);
    }
}

/// A jump to a block's prompt puts it at the top of the viewport, wherever the prompt
/// is above the live edge and no higher than the first one.
pub proof fn jumps_put_the_prompt_on_top(m: TermModel, i: int)
    requires
        m.wf(),
        0 <= i < m.blocks.len(),
        m.blocks[0].prompt_line <= m.blocks[i].prompt_line < m.abs_base,
    ensures
        m.scrolled_to(m.blocks[i].prompt_line).scroll_top == Some(m.blocks[i].prompt_line),
{
}

/// Jumping to the previous block and then to the next comes back: from a block's
/// prompt on top, the next block of the one before is that block.
pub proof fn next_undoes_previous(m: TermModel, i: int)
    requires
        m.wf(),
        in_order(m.blocks),
        0 < i < m.blocks.len(),
        m.blocks[i - 1].prompt_line < m.blocks[i].prompt_line < m.abs_base,
        m.scroll_top == Some(m.blocks[i].prompt_line),
    ensures
        ({
            let p = m.prev_block(m.blocks.len() as int);
            let up = m.scrolled_to(m.blocks[p->0].prompt_line);
            &&& p == Some(i - 1)
            &&& up.next_block(0) == Some(i)
        }),
{
    let p = m.prev_block(m.blocks.len() as int);
    previous_block_is_the_nearest_above(m);
    assert(m.blocks[i - 1].prompt_line < top_line(m));
    assert(p.is_some());
    assert(p->0 >= i - 1);
    if p->0 > i - 1 {
        assert(m.blocks[p->0].prompt_line >= m.blocks[i].prompt_line);
    }
    let up = m.scrolled_to(m.blocks[i - 1].prompt_line);
    assert(m.blocks[0].prompt_line <= m.blocks[i - 1].prompt_line);
    assert(up.scroll_top == Some(m.blocks[i - 1].prompt_line));
    next_block_is_the_nearest_below(up);
    let q = up.next_block(0);
    assert(up.blocks[i].prompt_line > top_line(up));
    assert(q.is_some());
    assert(q->0 <= i);
    if q->0 < i {
        assert(m.blocks[q->0].prompt_line <= m.blocks[i - 1].prompt_line);
    }
}

/// Whether line `abs` is one of block `i`: it comes at or after the prompt of this
/// block and of all before it, and before the next block's prompt; the last block
/// goes on to where it ended, or to the cursor while it is open.
pub open spec fn line_of(m: TermModel, abs: int, i: int) -> bool {
    &&& 0 <= i < m.blocks.len()
    &&& forall|j: int| 0 <= j <= i ==> (#[trigger] m.blocks[j]).prompt_line <= abs
    &&& i + 1 < m.blocks.len() ==> abs < m.blocks[i + 1].prompt_line
    &&& i + 1 == m.blocks.len() && m.blocks[i].end_line.is_some() ==> abs <= m.blocks[i].end_line->0
    &&& i + 1 == m.blocks.len() && m.blocks[i].end_line.is_none() ==> abs <= m.cursor_abs()
}

proof fn lead_counts(blocks: Seq<BlockView>, abs: int)
    ensures
        0 <= lead(blocks, abs) <= blocks.len(),
        forall|j: int| 0 <= j < lead(blocks, abs) ==> (#[trigger] blocks[j]).prompt_line <= abs,
        lead(blocks, abs) < blocks.len() ==> blocks[lead(blocks, abs)].prompt_line > abs,
    decreases blocks.len(),
{
    if blocks.len() > 0 && blocks[0].prompt_line <= abs {
        let rest = blocks.skip(1);
        lead_counts(rest, abs);
        let n = lead(blocks, abs);
        assert forall|j: int| 0 <= j < n implies (#[trigger] blocks[j]).prompt_line <= abs by {
            if j > 0 {
                assert(rest[j - 1] == blocks[j]);
            }
        }
        if n < blocks.len() {
            assert(rest[n - 1] == blocks[n]);
        }
    }
}

/// A line belongs to the block that it is a line of, and to none where it is a line
/// of none.
pub proof fn lines_belong_to_their_block(m: TermModel, abs: int, i: int)
    ensures
        line_of(m, abs, i) ==> m.block_at(abs) == Some(i),
        m.block_at(abs) == Some(i) ==> line_of(m, abs, i),
{
    lead_counts(m.blocks, abs);
    if line_of(m, abs, i) {
        lead_is(m.blocks, abs, i + 1);
    }
}

/// While scrolled back, a row that shows a line of a block carries that block's id, is
/// marked failed exactly where the block failed, and is marked as the block's top
/// exactly where the line is the block's prompt line.
pub proof fn history_rows_carry_their_block(m: TermModel, r: int, i: int)
    requires
        m.wf(),
        m.scroll_top.is_some(),
        line_of(m, m.scroll_top->0 + r, i),
    ensures
        m.screen_decor(r).block_id == m.blocks[i].id,
        m.screen_decor(r).failed == (m.blocks[i].state == BlockState::Failed),
        m.screen_decor(r).block_top == (m.scroll_top->0 + r == m.blocks[i].prompt_line),
{
    lines_belong_to_their_block(m, m.scroll_top->0 + r, i);
    assert(1 <= m.blocks[i].id < m.next_id);
}

/// While scrolled back, a row that shows a line of no block is not marked.
pub proof fn other_history_rows_are_plain(m: TermModel, r: int)
    requires
        m.scroll_top.is_some(),
        forall|i: int| !#[trigger] line_of(m, m.scroll_top->0 + r, i),
    ensures
        m.screen_decor(r).block_id == 0,
        !m.screen_decor(r).failed,
        !m.screen_decor(r).block_top,
{
    let at = m.block_at(m.scroll_top->0 + r);
    if at.is_some() {
        lines_belong_to_their_block(m, m.scroll_top->0 + r, at->0);
    }
}

/// At the live edge, a row of the output region that shows a grid line of a block
/// carries that block's id, whether it failed, and whether the line is its prompt.
pub proof fn live_rows_carry_their_block(m: TermModel, line: int, i: int)
    requires
        m.wf(),
        m.scroll_top.is_none(),
        0 <= line,
        line + m.shift() < m.rows - m.band_rows(),
        line_of(m, m.abs_base + line, i),
    ensures
        ({
            let r = line + m.shift();
            &&& m.screen_decor(r).block_id == m.blocks[i].id
            &&& m.screen_decor(r).failed == (m.blocks[i].state == BlockState::Failed)
            &&& m.screen_decor(r).block_top == (m.abs_base + line == m.blocks[i].prompt_line)
        }),
{
    lines_belong_to_their_block(m, m.abs_base + line, i);
    assert(1 <= m.blocks[i].id < m.next_id);
}

/// At the live edge nothing is marked in the band, nor above the grid's first line,
/// nor where the line is one of no block.
pub proof fn other_live_rows_are_plain(m: TermModel, r: int)
    requires
        m.scroll_top.is_none(),
        r >= m.rows - m.band_rows() || r < m.shift() || forall|i: int|
            !#[trigger] line_of(m, m.abs_base + r - m.shift(), i),
    ensures
        m.screen_decor(r).block_id == 0,
        !m.screen_decor(r).failed,
        !m.screen_decor(r).block_top,
{
    let abs = m.abs_base + r - m.shift();
    let at = m.block_at(abs);
    if at.is_some() {
        lines_belong_to_their_block(m, abs, at->0);
    }
}

/// The header that sticks to the top is that of the block whose lines are on top while
/// its prompt is above: its command, and whether it failed. A block without a command,
/// or with its prompt in view, has none.
pub proof fn the_header_is_the_top_blocks(m: TermModel, i: int)
    requires
        m.scroll_top.is_some() || m.shift() <= 0,
        line_of(m, if m.scroll_top.is_some() {
            m.scroll_top->0
        } else {
            m.abs_base - m.shift()
        }, i),
    ensures
        ({
            let top = if m.scroll_top.is_some() {
                m.scroll_top->0
            } else {
                m.abs_base - m.shift()
            };
            let b = m.blocks[i];
            &&& m.screen_sticky().is_some() == (b.prompt_line < top && b.command.len() > 0)
            &&& m.screen_sticky().is_some() ==> m.screen_sticky() == Some(
                (b.command, b.state == BlockState::Failed),
            )
        }),
{
    let top = if m.scroll_top.is_some() {
        m.scroll_top->0
    } else {
        m.abs_base - m.shift()
    };
    lines_belong_to_their_block(m, top, i);
}

/// There is no header where the line on top is one of no block, nor where the live
/// output begins below the top row.
pub proof fn no_header_without_a_block(m: TermModel)
    requires
        m.scroll_top.is_some() ==> forall|i: int| !#[trigger] line_of(m, m.scroll_top->0, i),
        m.scroll_top.is_none() ==> m.shift() > 0 || forall|i: int|
            !#[trigger] line_of(m, m.abs_base - m.shift(), i),
    ensures
        m.screen_sticky().is_none(),
{
    let top = if m.scroll_top.is_some() {
        m.scroll_top->0
    } else {
        m.abs_base - m.shift()
    };
    let at = m.block_at(top);
    if at.is_some() {
        lines_belong_to_their_block(m, top, at->0);
    }
}

/// A finished block is shown from its buffer: its last line is the buffer's last row,
/// each line above it the row above, and where the buffer has no row the line is blank.
pub proof fn finished_lines_come_from_the_buffer(m: TermModel, abs: int, i: int, up: int, c: int)
    requires
        m.wf(),
        line_of(m, abs, i),
        i < m.frozen.len(),
        m.frozen[i].id == m.blocks[i].id,
        m.blocks[i].end_line == Some(abs + up),
        m.frozen[i].cols == m.cols,
        0 <= c < m.cols,
    ensures
        m.composite_row(abs).len() == m.cols,
        0 <= up < m.frozen[i].row_count() ==> m.composite_row(abs)[c] == m.frozen[i].row(
            m.frozen[i].row_count() - 1 - up,
        )[c],
        up < 0 || up >= m.frozen[i].row_count() ==> m.composite_row(abs)[c] == blank_cell(
            m.palette.foreground,
            m.palette.background,
        ),
{
    lines_belong_to_their_block(m, abs, i);
    let f = m.frozen[i];
    let k = f.row_count() - 1 - up;
    if 0 <= up < f.row_count() {
        crate::snapshot::row_in_range(f.cols, f.row_count(), k);
        assert(f.row_count() * f.cols <= f.cells.len()) by (nonlinear_arith)
            requires
                f.row_count() == f.cells.len() as int / f.cols,
                f.cols > 0,
        ;
        assert(f.row(k).len() == f.cols);
    }
}

/// A line that no buffer backs is shown as the grid has it, wherever the grid still
/// holds it, and blank elsewhere.
pub proof fn other_lines_come_from_the_grid(m: TermModel, abs: int, c: int)
    requires
        m.wf(),
        forall|i: int|
            #[trigger] line_of(m, abs, i) ==> i >= m.frozen.len() || m.frozen[i].id != m.blocks[i].id,
        0 <= c < m.cols,
    ensures
        ({
            let line = abs - m.abs_base;
            let kept = if grid_history(m.log) < crate::emulator::MAX_SCROLLBACK {
                grid_history(m.log) as int
            } else {
                crate::emulator::MAX_SCROLLBACK as int
            };
            &&& m.composite_row(abs).len() == m.cols
            &&& -kept <= line < m.rows ==> m.composite_row(abs)[c] == shown(
                m.palette,
                grid_cell(m.log, line, c),
            )
            &&& line < -kept || line >= m.rows ==> m.composite_row(abs)[c] == blank_cell(
                m.palette.foreground,
                m.palette.background,
            )
        }),
{
    let at = m.block_at(abs);
    if at.is_some() {
        lines_belong_to_their_block(m, abs, at->0);
    }
}

/// Scrolling by one line moves what is shown by one row: row `r` shows what row
/// `r + 1` showed before, with the same marks.
pub proof fn scrolling_moves_the_rows(m: TermModel, r: int)
    requires
        m.wf(),
        m.scroll_top.is_some(),
        m.oldest_shown() < m.scroll_top->0 < m.abs_base,
    ensures
        ({
            let up = m.scrolled_to(m.scroll_top->0 - 1);
            &&& up.screen_row(r + 1) == m.screen_row(r)
            &&& up.screen_decor(r + 1) == m.screen_decor(r)
            &&& up.screen_cursor().is_none()
        }),
{
    let top = m.scroll_top->0;
    let up = m.scrolled_to(top - 1);
    assert(up.scroll_top == Some(top - 1));
    assert(top - 1 + (r + 1) == top + r);
    assert(up.block_at(top + r) == m.block_at(top + r));
    assert(up.composite_row(top + r) =~= m.composite_row(top + r));
    assert(up.screen_row(r + 1) =~= m.screen_row(r));
}

/// The first line of history that can be shown is the first block's prompt, or the
/// oldest line that the grid holds where there is no block; it is never below the top
/// of the live screen.
pub proof fn history_begins_at_the_first_block(m: TermModel)
    requires
        m.wf(),
    ensures
        m.oldest_shown() <= m.abs_base,
        m.blocks.len() > 0 && m.blocks[0].prompt_line <= m.abs_base ==> m.oldest_shown()
            == m.blocks[0].prompt_line,
        m.blocks.len() == 0 ==> m.oldest_shown() == m.abs_base - m.depth(),
        m.depth() <= grid_history(m.log),
        m.depth() == grid_history(m.log) || m.depth() == crate::emulator::MAX_SCROLLBACK,
{
}

/// A snapshot is the screen, cell for cell and mark for mark, in the colors of the
/// palette: failed blocks in its bright red, with a wash of its red, and rules in its
/// dim color.
pub proof fn snapshots_show_the_screen(s: GridSnapshot, m: TermModel, r: int, c: int)
    requires
        m.wf(),
        is_screen_of(s, m),
        0 <= r < m.rows,
        0 <= c < m.cols,
        m.screen_row(r).len() == m.cols,
    ensures
        s.cols == m.cols && s.rows == m.rows,
        s.cells@.len() == m.cols * m.rows,
        s.rows_decor@.len() == m.rows,
        s.cells@[r * m.cols + c] == m.screen_row(r)[c],
        s.rows_decor@[r] == m.screen_decor(r),
        s.cursor == m.screen_cursor(),
        s.sticky.is_some() == m.screen_sticky().is_some(),
        s.sticky matches Some(h) ==> m.screen_sticky() == Some((h.command@, h.failed)),
        s.input_band_rows == m.band_rows(),
        s.background == m.palette.background,
        s.selection_color == m.palette.selection,
        s.block_stripe == m.palette.colors@[9],
        s.block_separator == m.palette.colors@[8],
        s.block_tint.r == m.palette.colors@[1].r,
        s.block_tint.g == m.palette.colors@[1].g,
        s.block_tint.b == m.palette.colors@[1].b,
        s.block_tint.a == 30,
{
    crate::snapshot::row_in_range(m.cols, m.rows, r);
    assert(s.row_cells(r) == m.screen_row(r));
    assert(s.rows_decor@[r] == m.screen_decor(r));
    assert(s.row_cells(r)[c] == s.cells@[r * m.cols + c]);
}

/// A snapshot of history marks each row as its block's.
pub proof fn snapshots_mark_their_blocks(s: GridSnapshot, m: TermModel, r: int, i: int)
    requires
        m.wf(),
        is_screen_of(s, m),
        0 <= r < m.rows,
        m.scroll_top.is_some(),
        line_of(m, m.scroll_top->0 + r, i),
    ensures
        s.rows_decor@[r].block_id == m.blocks[i].id,
        s.rows_decor@[r].failed == (m.blocks[i].state == BlockState::Failed),
        s.rows_decor@[r].block_top == (m.scroll_top->0 + r == m.blocks[i].prompt_line),
        s.cursor.is_none(),
        s.input_band_rows == 0,
{
    history_rows_carry_their_block(m, r, i);
    assert(s.rows_decor@[r] == m.screen_decor(r));
}

} // verus!
