//! What holds of finished output: it is shown as it was printed, and a resize loses
//! none of it.

use vstd::prelude::*;
use crate::block::{BlockView, FrozenView};
use crate::model::{LINE_LIMIT, TermModel, finished_ids, larger, lead, stack_end, stack_height, stack_start};
use crate::model_laws::finishing_keeps_wf;
use crate::snapshot::row_in_range;

verus! {

/// Where the leading blocks that begin at or above a line are `n`, `lead` is `n`.
pub(crate) proof fn lead_is(blocks: Seq<BlockView>, abs: int, n: int)
    requires
        0 <= n <= blocks.len(),
        forall|j: int| 0 <= j < n ==> (#[trigger] blocks[j]).prompt_line <= abs,
        n < blocks.len() ==> blocks[n].prompt_line > abs,
    ensures
        lead(blocks, abs) == n,
    decreases n,
{
    if n > 0 {
        assert(blocks[0].prompt_line <= abs);
        let rest = blocks.skip(1);
        assert forall|j: int| 0 <= j < n - 1 implies (#[trigger] rest[j]).prompt_line <= abs by {
            assert(rest[j] == blocks[j + 1]);
        }
        lead_is(rest, abs, n - 1);
    }
}

/// There are no more finished blocks than blocks.
proof fn finished_are_blocks(blocks: Seq<BlockView>)
    ensures
        finished_ids(blocks).len() <= blocks.len(),
    decreases blocks.len(),
{
    if blocks.len() > 0 {
        finished_are_blocks(blocks.drop_last());
    }
}

/// The captured cells are whole rows, each as the grid shows it.
proof fn captured_rows(m: TermModel, first: int, n: int, k: int)
    requires
        m.cols > 0,
        0 <= k < n,
    ensures
        m.block_cells(first, n).len() == n * m.cols,
        m.block_cells(first, n).subrange(k * m.cols, (k + 1) * m.cols) == m.shown_row(
            m.grid_line(first + k),
            m.cols,
        ),
    decreases n,
{
    let cols = m.cols;
    let all = m.block_cells(first, n);
    let head = m.block_cells(first, n - 1);
    let row = m.shown_row(m.grid_line(first + n - 1), cols);
    assert(all == head + row);
    if n > 1 {
        captured_rows(m, first, n - 1, if k < n - 1 {
            k
        } else {
            0
        });
    }
    assert(head.len() == (n - 1) * cols);
    row_in_range(cols, n, k);
    row_in_range(cols, n, n - 1);
    if k < n - 1 {
        row_in_range(cols, n - 1, k);
        assert(all.subrange(k * cols, (k + 1) * cols) =~= head.subrange(k * cols, (k + 1) * cols));
    } else {
        assert(all.subrange(k * cols, (k + 1) * cols) =~= row);
    }
}

/// Finishing a command changes nothing that is shown of it: every line of the block
/// that the grid still holds is shown from the frozen buffer exactly as the grid had
/// it.
pub proof fn freezing_changes_no_row(m: TermModel, exit: Option<i32>, abs: int)
    requires
        m.wf(),
        m.blocks.len() > 0,
        forall|j: int| 0 <= j < m.blocks.len() ==> (#[trigger] m.blocks[j]).prompt_line <= abs,
        m.oldest_kept() <= abs <= m.cursor_abs(),
    ensures
        m.finished(exit, m.cursor_abs()).composite_row(abs) == m.shown_row(abs - m.abs_base, m.cols),
{
    let line = m.cursor_abs();
    let f = m.finished(exit, line);
    let last = m.blocks.len() - 1;
    finishing_keeps_wf(m, exit, line);
    finished_are_blocks(f.blocks);
    assert(f.frozen.len() == finished_ids(f.blocks).len());
    assert forall|j: int| 0 <= j < f.blocks.len() implies (#[trigger] f.blocks[j]).prompt_line <= abs by {
        assert(f.blocks[j].prompt_line == m.blocks[j].prompt_line);
    }
    lead_is(f.blocks, abs, f.blocks.len() as int);
    assert(f.block_at(abs) == Some(last));
    if f.backed(last) {
        let first = larger(m.blocks[last].prompt_line, m.oldest_kept());
        let n = line - first + 1;
        let k = abs - first;
        captured_rows(m, first, n, k);
        let b = f.frozen[last];
        assert(b == f.frozen.last());
        assert(b.cells == m.block_cells(first, n));
        assert((n * m.cols) / m.cols == n) by (nonlinear_arith)
            requires
                m.cols > 0,
        ;
        assert(f.composite_row(abs) =~= b.row(k));
    }
}

/// The stack above `base` from buffer `i` on: no line number is at its limit, so each
/// buffer takes as many lines as it has rows, the next one begins right behind it,
/// and all of them are above `base`.
proof fn stack_is_tight(frozen: Seq<FrozenView>, base: int, i: int)
    requires
        0 <= i < frozen.len(),
        base <= LINE_LIMIT + 65535,
        stack_start(frozen, base, i) > -LINE_LIMIT,
    ensures
        stack_start(frozen, base, i) == stack_end(frozen, base, i) - stack_height(frozen[i]) + 1,
        stack_end(frozen, base, i) < base,
        forall|j: int|
            i < j < frozen.len() ==> stack_end(frozen, base, i) < #[trigger] stack_start(frozen, base, j),
    decreases frozen.len() - i,
{
    assert(stack_height(frozen[i]) >= 1);
    if i + 1 < frozen.len() {
        assert(stack_end(frozen, base, i) == stack_start(frozen, base, i + 1) - 1);
        stack_not_above(frozen, base, i + 1);
        if stack_start(frozen, base, i + 1) <= -LINE_LIMIT {
            assert(stack_start(frozen, base, i) <= -LINE_LIMIT);
        }
        stack_is_tight(frozen, base, i + 1);
    }
}

/// No buffer of a stack begins below the line that the stack stands on.
proof fn stack_not_above(frozen: Seq<FrozenView>, base: int, i: int)
    requires
        0 <= i < frozen.len(),
        base <= LINE_LIMIT + 65535,
    ensures
        stack_start(frozen, base, i) <= larger(base - 1, -LINE_LIMIT as int),
    decreases frozen.len() - i,
{
    if i + 1 < frozen.len() {
        stack_not_above(frozen, base, i + 1);
    }
}

/// Every block above block `i` of a stack begins above it.
proof fn stack_descends(frozen: Seq<FrozenView>, base: int, j: int, i: int)
    requires
        0 <= j < i < frozen.len(),
        base <= LINE_LIMIT + 65535,
        stack_start(frozen, base, j) > -LINE_LIMIT,
    ensures
        stack_start(frozen, base, j) < stack_start(frozen, base, i),
        stack_start(frozen, base, i) > -LINE_LIMIT,
{
    stack_is_tight(frozen, base, j);
    assert(stack_height(frozen[j]) >= 1);
    assert(stack_end(frozen, base, j) < stack_start(frozen, base, i));
}

/// After a resize that keeps the blocks, the finished ones lie one below the
/// other without a gap, and the newest ends just above where the open block
/// begins, wherever the line numbers are not at their limit.
pub proof fn resized_blocks_are_contiguous(m: TermModel, cols: int, i: int)
    requires
        m.wf(),
        m.blocks.len() > 0,
        m.aligned(),
        0 <= i < m.frozen.len(),
    ensures
        ({
            let r = m.reanchored(cols);
            let end = r.blocks[i].end_line;
            &&& end.is_some()
            &&& i + 1 < m.frozen.len() ==> end->0 + 1 == r.blocks[i + 1].prompt_line
            &&& i + 1 == m.frozen.len() ==> end->0 + 1 == m.reflow_base()
            &&& i + 1 == m.frozen.len() && m.has_open() ==> r.blocks[i + 1].prompt_line
                == m.reflow_base()
            &&& -LINE_LIMIT < r.blocks[i].prompt_line ==> end->0 - r.blocks[i].prompt_line + 1 == stack_height(r.frozen[i])
        }),
{
}

/// A resize loses no finished output: each row of each re-wrapped buffer is the row
/// that is shown for one line, as many lines below the block's prompt as it is rows
/// below the buffer's top, wherever the line numbers are not at their limit.
pub proof fn resized_history_is_shown(m: TermModel, i: int, k: int)
    requires
        m.wf(),
        m.blocks.len() > 0,
        m.aligned(),
        0 <= i < m.frozen.len(),
        m.reanchored(m.cols).blocks[0].prompt_line > -LINE_LIMIT,
        0 <= k < m.reanchored(m.cols).frozen[i].row_count() <= i64::MAX,
    ensures
        ({
            let r = m.reanchored(m.cols);
            let abs = r.blocks[i].prompt_line + k;
            &&& r.block_at(abs) == Some(i)
            &&& r.composite_row(abs) == r.frozen[i].row(k)
        }),
{
    let r = m.reanchored(m.cols);
    let frozen = m.reflowed_frozen(m.cols);
    let base = m.reflow_base();
    let abs = r.blocks[i].prompt_line + k;
    assert(r.frozen == frozen);
    assert(r.blocks[i].prompt_line == stack_start(frozen, base, i));
    assert(r.blocks[i].end_line == Some(stack_end(frozen, base, i)));
    assert(r.blocks[0].prompt_line == stack_start(frozen, base, 0));
    if i > 0 {
        stack_descends(frozen, base, 0, i);
    }
    stack_is_tight(frozen, base, i);
    assert(stack_height(frozen[i]) == frozen[i].row_count());
    assert forall|j: int| 0 <= j < i + 1 implies (#[trigger] r.blocks[j]).prompt_line <= abs by {
        assert(r.blocks[j].prompt_line == stack_start(frozen, base, j));
        if j < i {
            if j > 0 {
                stack_descends(frozen, base, 0, j);
            }
            stack_descends(frozen, base, j, i);
        }
    }
    if i + 1 < r.blocks.len() {
        if i + 1 < frozen.len() {
            assert(r.blocks[i + 1].prompt_line == stack_start(frozen, base, i + 1));
        } else {
            assert(r.blocks[i + 1].prompt_line == base);
        }
    }
    lead_is(r.blocks, abs, i + 1);
    assert(r.frozen[i].id == m.frozen[i].id);
    assert(r.blocks[i].id == m.blocks[i].id);
    assert(r.backed(i));
    let f = r.frozen[i];
    let n = f.row_count();
    row_in_range(m.cols, n, k);
    assert(n * m.cols <= f.cells.len()) by (nonlinear_arith)
        requires
            n == f.cells.len() as int / m.cols,
            m.cols > 0,
    ;
    assert(f.row(k).len() == m.cols);
    assert(r.composite_row(abs) =~= f.row(k));
}

} // verus!
