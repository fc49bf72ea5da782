//! What a frozen buffer holds of the output it was made of, and what re-wrapping does
//! to it.

use vstd::prelude::*;
use crate::block::{BlockState, BlockView, FrozenView};
use crate::emulator::{GridCell, grid_cell};
use crate::frozen::{is_wide, padded, reflowed, reflowed_rows, row_len, rows_cells, wrap_line};
use crate::model::{TermModel, larger, without_trailing_blanks};
use crate::resolve::shown;
use crate::snapshot::{CellSnapshot, blank_cell, row_in_range};

verus! {

/// Whether the grid flags absolute line `abs` as going on in the next one.
pub open spec fn goes_on(m: TermModel, abs: int) -> bool {
    grid_cell(m.log, abs - m.abs_base, m.cols - 1).flags & GridCell::WRAPLINE != 0
}

/// The cells of the lines from `s` to `e`, as the grid shows them, one after the other.
pub open spec fn run_of(m: TermModel, s: int, e: int) -> Seq<CellSnapshot>
    decreases e - s + 1,
{
    if e < s {
        Seq::empty()
    } else {
        run_of(m, s, e - 1) + Seq::new(
            m.cols as nat,
            |c: int| shown(m.palette, grid_cell(m.log, e - m.abs_base, c)),
        )
    }
}

/// How many of the lines from `first` on up to `to` the grid ends there.
pub open spec fn hard_ends(m: TermModel, first: int, to: int) -> int
    decreases to - first,
{
    if to <= first {
        0
    } else {
        hard_ends(m, first, to - 1) + if goes_on(m, to - 1) {
            0int
        } else {
            1
        }
    }
}

/// Whether the grid holds all lines from `first` on up to `to`.
pub open spec fn held(m: TermModel, first: int, to: int) -> bool {
    m.oldest_kept() <= first && to <= m.abs_base + m.rows
}

proof fn complete_lines(m: TermModel, first: int, n: int)
    requires
        m.wf(),
        n >= 0,
        held(m, first, first + n),
    ensures
        m.block_lines(first, n).0.len() == hard_ends(m, first, first + n),
    decreases n,
{
    if n > 0 {
        complete_lines(m, first, n - 1);
    }
}

proof fn current_line(m: TermModel, first: int, n: int, s: int)
    requires
        m.wf(),
        first <= s <= first + n,
        held(m, first, first + n),
        s == first || !goes_on(m, s - 1),
        forall|l: int| s <= l < first + n ==> #[trigger] goes_on(m, l),
    ensures
        m.block_lines(first, n).1 == run_of(m, s, first + n - 1),
        hard_ends(m, first, first + n) == hard_ends(m, first, s),
    decreases n,
{
    let t = first + n;
    if s == t {
        if n > 0 {
            assert(!goes_on(m, first + n - 1));
        }
    } else {
        assert(goes_on(m, t - 1));
        current_line(m, first, n - 1, s);
        let line = m.grid_line(first + n - 1);
        assert(line == t - 1 - m.abs_base);
        assert(m.shown_row(line, m.cols) =~= Seq::new(
            m.cols as nat,
            |c: int| shown(m.palette, grid_cell(m.log, t - 1 - m.abs_base, c)),
        ));
    }
}

proof fn lines_stay(m: TermModel, first: int, n: int, to: int, k: int)
    requires
        0 <= n <= to,
        0 <= k < m.block_lines(first, n).0.len(),
    ensures
        k < m.block_lines(first, to).0.len(),
        m.block_lines(first, to).0[k] == m.block_lines(first, n).0[k],
    decreases to,
{
    if n < to {
        lines_stay(m, first, n, to - 1, k);
    }
}

/// A frozen block's logical lines are the soft-wrapped runs of its captured rows: rows
/// that the grid flags as going on lie in one logical line with the next, and no other
/// two do. Run `s` to `e` is the line that as many lines end before.
pub proof fn logical_lines_are_wrapped_runs(m: TermModel, b: BlockView, end: int, s: int, e: int)
    requires
        m.wf(),
        b.prompt_line <= s <= e <= end,
        m.oldest_kept() <= s,
        end < m.abs_base + m.rows,
        s == b.prompt_line || s == m.oldest_kept() || !goes_on(m, s - 1),
        forall|l: int| s <= l < e ==> #[trigger] goes_on(m, l),
        e == end || !goes_on(m, e),
    ensures
        ({
            let first = if b.prompt_line > m.oldest_kept() {
                b.prompt_line
            } else {
                m.oldest_kept()
            };
            let lines = m.frozen_of(b, end).lines;
            let k = hard_ends(m, first, s);
            &&& 0 <= k < lines.len()
            &&& lines[k] == without_trailing_blanks(run_of(m, s, e))
        }),
{
    let first = larger(b.prompt_line, m.oldest_kept());
    let n = end - first + 1;
    let (done, cur) = m.block_lines(first, n);
    let k = hard_ends(m, first, s);
    complete_lines(m, first, n);
    hard_ends_grow(m, first, s);
    if goes_on(m, e) {
        assert(e == end);
        assert forall|l: int| s <= l < first + n implies #[trigger] goes_on(m, l) by {
            if l == e {
                assert(goes_on(m, e));
            }
        }
        current_line(m, first, n, s);
        run_len(m, s, e);
    } else {
        current_line(m, first, e - first, s);
        complete_lines(m, first, e - first);
        complete_lines(m, first, e - first + 1);
        let line = m.grid_line(first + (e - first + 1) - 1);
        assert(line == e - m.abs_base);
        assert(m.shown_row(line, m.cols) =~= Seq::new(
            m.cols as nat,
            |c: int| shown(m.palette, grid_cell(m.log, e - m.abs_base, c)),
        ));
        assert(m.block_lines(first, e - first + 1).0[k] == without_trailing_blanks(run_of(m, s, e)));
        lines_stay(m, first, e - first + 1, n, k);
    }
}

proof fn hard_ends_grow(m: TermModel, first: int, to: int)
    requires
        first <= to,
    ensures
        0 <= hard_ends(m, first, to) <= to - first,
    decreases to - first,
{
    if first < to {
        hard_ends_grow(m, first, to - 1);
    }
}

proof fn run_len(m: TermModel, s: int, e: int)
    requires
        m.cols >= 1,
        s <= e,
    ensures
        run_of(m, s, e).len() >= 1,
{
}

/// There are as many logical lines as captured rows that the grid does not flag as
/// going on, and one more where the last one is.
pub proof fn every_logical_line_is_a_run(m: TermModel, b: BlockView, end: int)
    requires
        m.wf(),
        b.prompt_line <= end,
        m.oldest_kept() <= end,
        end < m.abs_base + m.rows,
    ensures
        ({
            let first = if b.prompt_line > m.oldest_kept() {
                b.prompt_line
            } else {
                m.oldest_kept()
            };
            m.frozen_of(b, end).lines.len() == hard_ends(m, first, end + 1) + if goes_on(m, end) {
                1int
            } else {
                0
            }
        }),
{
    let first = larger(b.prompt_line, m.oldest_kept());
    let n = end - first + 1;
    complete_lines(m, first, n);
    let line = m.grid_line(first + n - 1);
    assert(line == end - m.abs_base);
    assert(m.block_lines(first, n) == {
        let (done, cur) = m.block_lines(first, n - 1);
        let run = cur + m.shown_row(line, m.cols);
        if m.wraps(line) {
            (done, run)
        } else {
            (done.push(without_trailing_blanks(run)), Seq::<CellSnapshot>::empty())
        }
    });
}

/// A line loses the blanks at its end and nothing else.
pub proof fn only_trailing_blanks_are_lost(line: Seq<CellSnapshot>)
    ensures
        ({
            let kept = without_trailing_blanks(line);
            &&& kept.len() <= line.len()
            &&& kept == line.take(kept.len() as int)
            &&& forall|i: int| kept.len() <= i < line.len() ==> (#[trigger] line[i]).c == ' ' || line[i].c == '\0'
            &&& kept.len() > 0 ==> kept.last().c != ' ' && kept.last().c != '\0'
        }),
    decreases line.len(),
{
    let kept = without_trailing_blanks(line);
    if line.len() > 0 && line.last().blank_glyph() {
        only_trailing_blanks_are_lost(line.drop_last());
        assert(line.drop_last().take(kept.len() as int) =~= line.take(kept.len() as int));
        assert forall|i: int| kept.len() <= i < line.len() implies (#[trigger] line[i]).c == ' ' || line[i].c
            == '\0' by {
            if i < line.len() - 1 {
                assert(line.drop_last()[i] == line[i]);
            }
        }
    } else {
        assert(line.take(line.len() as int) =~= line);
    }
}

/// What a frozen block says of its command is what the block says.
pub proof fn frozen_block_keeps_its_command(m: TermModel, exit: Option<i32>, line: int)
    requires
        m.blocks.len() > 0,
    ensures
        ({
            let f = m.finished(exit, line);
            let b = f.blocks.last();
            let z = f.frozen.last();
            &&& f.blocks.len() == m.blocks.len()
            &&& b.id == m.blocks.last().id
            &&& b.command == m.blocks.last().command
            &&& b.prompt_line == m.blocks.last().prompt_line
            &&& b.end_line == Some(line)
            &&& b.exit_code == exit
            &&& z.id == b.id
            &&& z.command == b.command
            &&& z.cwd == b.cwd
            &&& z.cols == m.cols
            &&& z.blank == blank_cell(m.palette.foreground, m.palette.background)
            &&& z.failed == (exit matches Some(code) && code != 0)
            &&& (b.state == BlockState::Failed) == z.failed
            &&& (b.state == BlockState::Success) == (exit == Some(0i32))
            &&& forall|i: int| 0 <= i < m.blocks.len() - 1 ==> #[trigger] f.blocks[i] == m.blocks[i]
        }),
{
}

/// Every wrapped row but the last is full: it has as many cells as the width, or one
/// less where the next row begins with a double-width glyph. So a line that fits the
/// width takes one row.
pub proof fn wrapped_rows_are_full(line: Seq<CellSnapshot>, cols: int, k: int)
    requires
        cols > 0,
        0 <= k < wrap_line(line, cols).len() - 1,
    ensures
        ({
            let rows = wrap_line(line, cols);
            ||| rows[k].len() == cols
            ||| rows[k].len() == cols - 1 && rows[k + 1].len() > 0 && is_wide(rows[k + 1][0])
        }),
    decreases line.len(),
{
    let n = row_len(line, cols);
    let rows = wrap_line(line, cols);
    if n != line.len() {
        let tail = wrap_line(line.skip(n), cols);
        if k == 0 {
            let t = line.skip(n);
            assert(t.len() > 0);
            assert(rows[1] == tail[0]);
            if n == cols - 1 {
                assert(t[0] == line[cols - 1]);
                assert(tail[0].len() > 0);
            }
        } else {
            wrapped_rows_are_full(line.skip(n), cols, k - 1);
            assert(rows[k] == tail[k - 1]);
            assert(rows[k + 1] == tail[k]);
        }
    }
}

/// A line that fits a width takes exactly one row of it.
pub proof fn a_line_that_fits_takes_one_row(line: Seq<CellSnapshot>, cols: int)
    requires
        cols > 0,
        line.len() < cols || (line.len() == cols && !(cols >= 2 && is_wide(line[cols - 1]))),
    ensures
        wrap_line(line, cols) == seq![line],
{
}

/// A re-wrapped buffer shows its logical lines in order, each on its own wrapped rows:
/// the `j`th row of line `k` stands behind all rows of the lines before, with blanks up
/// to the width.
pub proof fn rewrapped_rows_hold_the_lines(f: FrozenView, cols: int, k: int, j: int)
    requires
        cols > 0,
        0 <= k < f.lines.len(),
        0 <= j < wrap_line(f.lines[k], cols).len(),
    ensures
        ({
            let r = reflowed_rows(f.lines.take(k), cols) + j;
            let row = wrap_line(f.lines[k], cols)[j];
            &&& 0 <= r < f.rewrapped(cols).row_count()
            &&& f.rewrapped(cols).row(r).len() == cols
            &&& forall|c: int|
                0 <= c < cols ==> #[trigger] f.rewrapped(cols).row(r)[c] == if c < row.len() {
                    row[c]
                } else {
                    f.blank
                }
        }),
{
    let r = reflowed_rows(f.lines.take(k), cols) + j;
    crate::frozen::reflow_makes_whole_rows(f.lines, cols, f.blank);
    row_of_reflow(f.lines, cols, f.blank, k, j);
    wrapped_rows_fit(f.lines[k], cols, j);
    row_in_range(cols, reflowed_rows(f.lines, cols), r);
    assert(f.rewrapped(cols).row(r) == padded(wrap_line(f.lines[k], cols)[j], cols, f.blank));
    let total = reflowed_rows(f.lines, cols);
    assert((total * cols) / cols == total) by (nonlinear_arith)
        requires
            cols > 0,
    ;
}

/// The rows of a re-wrapped buffer are those of its lines: none is added.
pub proof fn rewrapping_adds_no_row(f: FrozenView, cols: int)
    requires
        cols > 0,
        forall|k: int| 0 <= k < f.lines.len() ==> (#[trigger] f.lines[k]).len() < cols,
    ensures
        f.rewrapped(cols).row_count() == f.lines.len(),
        f.rewrapped(cols).lines == f.lines,
        f.rewrapped(cols).id == f.id,
        f.rewrapped(cols).command == f.command,
        f.rewrapped(cols).failed == f.failed,
{
    crate::frozen::reflow_makes_whole_rows(f.lines, cols, f.blank);
    short_lines(f.lines, cols);
    let total = reflowed_rows(f.lines, cols);
    assert((total * cols) / cols == total) by (nonlinear_arith)
        requires
            cols > 0,
    ;
}

proof fn short_lines(lines: Seq<Seq<CellSnapshot>>, cols: int)
    requires
        cols > 0,
        forall|k: int| 0 <= k < lines.len() ==> (#[trigger] lines[k]).len() < cols,
    ensures
        reflowed_rows(lines, cols) == lines.len(),
    decreases lines.len(),
{
    if lines.len() > 0 {
        assert forall|k: int| 0 <= k < lines.drop_last().len() implies (#[trigger] lines.drop_last()[k]).len()
            < cols by {
            assert(lines.drop_last()[k] == lines[k]);
        }
        short_lines(lines.drop_last(), cols);
        assert(lines[lines.len() - 1].len() < cols);
    }
}

proof fn row_of_rows(rows: Seq<Seq<CellSnapshot>>, cols: int, blank: CellSnapshot, j: int)
    requires
        cols > 0,
        0 <= j < rows.len(),
        forall|i: int| 0 <= i < rows.len() ==> (#[trigger] rows[i]).len() <= cols,
    ensures
        rows_cells(rows, cols, blank).len() == rows.len() * cols,
        rows_cells(rows, cols, blank).subrange(j * cols, (j + 1) * cols) == padded(rows[j], cols, blank),
    decreases rows.len(),
{
    let head = rows.drop_last();
    let all = rows_cells(rows, cols, blank);
    let n = rows.len() as int;
    assert forall|i: int| 0 <= i < head.len() implies (#[trigger] head[i]).len() <= cols by {
        assert(head[i] == rows[i]);
    }
    assert(rows[n - 1].len() <= cols);
    let front = rows_cells(head, cols, blank);
    if n > 1 {
        row_of_rows(head, cols, blank, if j < n - 1 {
            j
        } else {
            0
        });
    } else {
        assert((n - 1) * cols == 0) by (nonlinear_arith)
            requires
                n == 1,
        ;
    }
    assert(front.len() == (n - 1) * cols);
    row_in_range(cols, n, n - 1);
    row_in_range(cols, n, j);
    if j < n - 1 {
        row_in_range(cols, n - 1, j);
        assert(all.subrange(j * cols, (j + 1) * cols) =~= front.subrange(j * cols, (j + 1) * cols));
    } else {
        assert(all.subrange(j * cols, (j + 1) * cols) =~= padded(rows[j], cols, blank));
    }
}

proof fn wrapped_rows_fit(line: Seq<CellSnapshot>, cols: int, k: int)
    requires
        cols > 0,
        0 <= k < wrap_line(line, cols).len(),
    ensures
        wrap_line(line, cols)[k].len() <= cols,
    decreases line.len(),
{
    let n = row_len(line, cols);
    if n != line.len() && k > 0 {
        wrapped_rows_fit(line.skip(n), cols, k - 1);
    }
}

proof fn row_of_reflow(lines: Seq<Seq<CellSnapshot>>, cols: int, blank: CellSnapshot, k: int, j: int)
    requires
        cols > 0,
        0 <= k < lines.len(),
        0 <= j < wrap_line(lines[k], cols).len(),
    ensures
        ({
            let r = reflowed_rows(lines.take(k), cols) + j;
            &&& 0 <= r < reflowed_rows(lines, cols)
            &&& reflowed(lines, cols, blank).len() == reflowed_rows(lines, cols) * cols
            &&& reflowed(lines, cols, blank).subrange(r * cols, (r + 1) * cols) == padded(
                wrap_line(lines[k], cols)[j],
                cols,
                blank,
            )
        }),
    decreases lines.len(),
{
    let n = lines.len() as int;
    let head = lines.drop_last();
    let last = wrap_line(lines.last(), cols);
    let r = reflowed_rows(lines.take(k), cols) + j;
    let a = reflowed_rows(head, cols);
    crate::frozen::reflow_makes_whole_rows(lines, cols, blank);
    crate::frozen::reflow_makes_whole_rows(head, cols, blank);
    crate::frozen::reflow_makes_whole_rows(lines.take(k), cols, blank);
    let all = reflowed(lines, cols, blank);
    let front = reflowed(head, cols, blank);
    assert forall|i: int| 0 <= i < last.len() implies (#[trigger] last[i]).len() <= cols by {
        wrapped_rows_fit(lines.last(), cols, i);
    }
    if k < n - 1 {
        assert(head[k] == lines[k]);
        assert(head.take(k) =~= lines.take(k));
        row_of_reflow(head, cols, blank, k, j);
        row_in_range(cols, a, r);
        assert(all.subrange(r * cols, (r + 1) * cols) =~= front.subrange(r * cols, (r + 1) * cols));
    } else {
        assert(lines.take(k) =~= head);
        row_of_rows(last, cols, blank, j);
        row_in_range(cols, last.len() as int, j);
        assert(r * cols == a * cols + j * cols) by (nonlinear_arith)
            requires
                r == a + j,
        ;
        assert((r + 1) * cols == a * cols + (j + 1) * cols) by (nonlinear_arith)
            requires
                r == a + j,
        ;
        let tail = rows_cells(last, cols, blank);
        assert(all.subrange(r * cols, (r + 1) * cols) =~= tail.subrange(j * cols, (j + 1) * cols));
    }
}

} // verus!
