//! An immutable, owned buffer for one *completed* command block.

use vstd::prelude::*;
use crate::block::FrozenView;
use crate::snapshot::{CellFlags, CellSnapshot, row_in_range};

verus! {

/// A frozen, fully color-resolved buffer for one completed command block.
///
/// It holds two views of the block's output, both as resolved [`CellSnapshot`]s:
///
/// - **visual rows** — the block as rendered at the width `cols`, stored
///   row-major in [`cells`](Self::cells). Render-ready as-is.
/// - **logical lines** — each line's full run of cells *before* it was
///   soft-wrapped to `cols`, in [`logical_lines`](Self::logical_lines). This is
///   the source of truth for reflowing the block to a new width; a hard newline
///   ends a logical line, a soft wrap does not.
///
/// Plus the decoration a block carries: its [`id`](Self::id),
/// [`command`](Self::command) text, whether it [`failed`](Self::failed), and the
/// [`cwd`](Self::cwd) it ran in.
#[derive(Clone, Debug)]
pub struct FrozenBlock {
    /// Stable block id (never 0; 0 means "no block").
    pub id: u32,
    /// The command text, as captured between OSC-133 `;B` and `;C`.
    pub command: String,
    /// The command finished with a non-zero exit code.
    pub failed: bool,
    /// Working directory the command ran in (OSC 7), best-effort.
    pub cwd: Option<String>,
    /// Width, in columns, of the visual rows — the row stride of
    /// [`cells`](Self::cells).
    pub cols: u16,
    /// Visual rows as rendered: row-major resolved cells, with
    /// `cells.len() == cols * rows`. Render-ready at `cols`.
    pub cells: Vec<CellSnapshot>,
    /// Logical (unwrapped) lines: each the full run of cells on a line before it
    /// was soft-wrapped at `cols`. Source for reflow to a new width.
    pub logical_lines: Vec<Vec<CellSnapshot>>,
    /// The cell that fills a reflowed row past the end of its content.
    pub blank: CellSnapshot,
}

/// The logical lines as sequences of cells.
pub open spec fn lines_of(lines: Seq<Vec<CellSnapshot>>) -> Seq<Seq<CellSnapshot>> {
    lines.map_values(|l: Vec<CellSnapshot>| l@)
}

/// Whether `cell` is the leading half of a double-width glyph.
pub open spec fn is_wide(cell: CellSnapshot) -> bool {
    cell.flags.has(CellFlags::WIDE)
}

/// How many cells of `line` go on its first row: as many as fit, but a
/// double-width glyph that would begin in the last column goes to the next row
/// whole (where a row has room for one at all).
pub open spec fn row_len(line: Seq<CellSnapshot>, cols: int) -> int {
    if line.len() < cols {
        line.len() as int
    } else if cols >= 2 && is_wide(line[cols - 1]) {
        cols - 1
    } else {
        cols
    }
}

/// The rows that `line` wraps to at width `cols`, without padding. An empty line
/// is one empty row.
pub open spec fn wrap_line(line: Seq<CellSnapshot>, cols: int) -> Seq<Seq<CellSnapshot>>
    decreases line.len(),
{
    let n = row_len(line, cols);
    if cols <= 0 {
        Seq::empty()
    } else if n == line.len() {
        seq![line]
    } else {
        seq![line.take(n)] + wrap_line(line.skip(n), cols)
    }
}

/// `row` filled up to width `cols`.
pub open spec fn padded(row: Seq<CellSnapshot>, cols: int, blank: CellSnapshot) -> Seq<CellSnapshot> {
    row + Seq::new((cols - row.len()) as nat, |i: int| blank)
}

/// The padded `rows`, one after the other.
pub open spec fn rows_cells(rows: Seq<Seq<CellSnapshot>>, cols: int, blank: CellSnapshot) -> Seq<CellSnapshot>
    decreases rows.len(),
{
    if rows.len() == 0 {
        Seq::empty()
    } else {
        rows_cells(rows.drop_last(), cols, blank) + padded(rows.last(), cols, blank)
    }
}

/// All of `lines` wrapped to width `cols`, one after the other.
pub open spec fn reflowed(lines: Seq<Seq<CellSnapshot>>, cols: int, blank: CellSnapshot) -> Seq<CellSnapshot>
    decreases lines.len(),
{
    if lines.len() == 0 {
        Seq::empty()
    } else {
        reflowed(lines.drop_last(), cols, blank) + rows_cells(wrap_line(lines.last(), cols), cols, blank)
    }
}

/// How many rows `lines` take at width `cols`.
pub open spec fn reflowed_rows(lines: Seq<Seq<CellSnapshot>>, cols: int) -> int
    decreases lines.len(),
{
    if lines.len() == 0 {
        0
    } else {
        reflowed_rows(lines.drop_last(), cols) + wrap_line(lines.last(), cols).len()
    }
}

impl FrozenBlock {
    /// The visual rows are whole rows of `cols` cells.
    pub open spec fn wf(&self) -> bool {
        if self.cols == 0 {
            self.cells@.len() == 0
        } else {
            self.cells@.len() as int % self.cols as int == 0
        }
    }

    /// Number of visual rows.
    pub open spec fn row_count(&self) -> int {
        if self.cols == 0 {
            0
        } else {
            self.cells@.len() as int / self.cols as int
        }
    }

    /// Everything but the visual rows and their width agrees with `other`.
    pub open spec fn same_content(&self, other: FrozenBlock) -> bool {
        &&& self.id == other.id
        &&& self.command == other.command
        &&& self.failed == other.failed
        &&& self.cwd == other.cwd
        &&& self.logical_lines == other.logical_lines
        &&& self.blank == other.blank
    }

    /// Number of visual rows — `cells.len() / cols`, or 0 when `cols` is 0.
    pub fn rows(&self) -> (n: usize)
        ensures
            n == self.row_count(),
    {
        if self.cols == 0 {
            0
        } else {
            self.cells.len() / self.cols as usize
        }
    }

    /// The visual cells of row `r` (length `cols`), or `None` if `r` is out of
    /// range or the block has no width.
    pub fn row(&self, r: usize) -> (row: Option<&[CellSnapshot]>)
        ensures
            match row {
                Some(row) => r < self.row_count() && row@ == self.cells@.subrange(
                    r * self.cols,
                    (r + 1) * self.cols,
                ),
                None => r >= self.row_count(),
            },
    {
        if r < self.rows() {
            let cols: usize = self.cols as usize;
            let len: usize = self.cells.len();
            proof {
                let n = self.row_count();
                row_in_range(cols as int, n, r as int);
                assert(n * cols <= len) by (nonlinear_arith)
                    requires
                        n == len as int / cols as int,
                        cols > 0,
                ;
            }
            let start: usize = r * cols;
            let s = self.cells.as_slice();
            Some(&s[start..start + cols])
        } else {
            None
        }
    }

    /// Re-wrap the logical lines to `new_cols`: a row is as long as the width
    /// allows, a double-width glyph is never split between two rows, every row is
    /// filled up with `blank`, and an empty line is one blank row. The logical
    /// lines stay as they are.
    pub fn reflow(&mut self, new_cols: u16)
        ensures
            final(self).same_content(*old(self)),
            final(self)@ == old(self)@.rewrapped(new_cols as int),
            final(self).wf(),
            new_cols > 0 ==> final(self).row_count() == reflowed_rows(
                lines_of(old(self).logical_lines@),
                new_cols as int,
            ),
    {
        let ghost lines = lines_of(self.logical_lines@);
        let mut cells: Vec<CellSnapshot> = Vec::new();
        let cols: usize = new_cols as usize;
        let blank = self.blank;
        let mut i: usize = 0;
        while i < self.logical_lines.len()
            invariant
                i <= self.logical_lines.len(),
                lines == lines_of(self.logical_lines@),
                blank == self.blank,
                cols == new_cols,
                cells@ == reflowed(lines.take(i as int), cols as int, blank),
            decreases self.logical_lines.len() - i,
        {
            proof {
                assert(lines.take(i + 1).drop_last() =~= lines.take(i as int));
                assert(lines.take(i + 1).last() == self.logical_lines@[i as int]@);
            }
            wrap_into(&self.logical_lines[i], cols, blank, &mut cells);
            i = i + 1;
        }
        proof {
            assert(lines.take(lines.len() as int) =~= lines);
            if new_cols > 0 {
                reflow_makes_whole_rows(lines, new_cols as int, blank);
                let n = reflowed_rows(lines, new_cols as int);
                let c = new_cols as int;
                assert(cells@.len() as int == n * c);
                assert((n * c) / c == n && (n * c) % c == 0) by (nonlinear_arith)
                    requires
                        c > 0,
                ;
            } else {
                reflow_to_no_width(lines, blank);
            }
        }
        self.cells = cells;
        self.cols = new_cols;
    }
}

/// Append the rows of one logical line.
fn wrap_into(line: &Vec<CellSnapshot>, cols: usize, blank: CellSnapshot, out: &mut Vec<CellSnapshot>)
    ensures
        final(out)@ == old(out)@ + rows_cells(wrap_line(line@, cols as int), cols as int, blank),
{
    let ghost w = wrap_line(line@, cols as int);
    let ghost before = out@;
    if cols == 0 {
        proof {
            assert(before + rows_cells(w, 0, blank) =~= before);
        }
        return;
    }
    let mut at: usize = 0;
    let mut more: bool = true;
    let ghost mut done: Seq<Seq<CellSnapshot>> = Seq::empty();
    proof {
        assert(line@.skip(0) =~= line@);
        assert(done + wrap_line(line@.skip(0), cols as int) =~= w);
        assert(before + rows_cells(done, cols as int, blank) =~= before);
    }
    while more
        invariant
            cols > 0,
            at <= line.len(),
            w == wrap_line(line@, cols as int),
            out@ == before + rows_cells(done, cols as int, blank),
            more ==> done + wrap_line(line@.skip(at as int), cols as int) == w,
            !more ==> done == w,
        decreases line.len() - at + (if more { 1int } else { 0 }),
    {
        let left: usize = line.len() - at;
        let ghost rest = line@.skip(at as int);
        let n: usize = if left < cols {
            left
        } else if cols >= 2 && line[at + (cols - 1)].flags.contains(CellFlags::WIDE) {
            cols - 1
        } else {
            cols
        };
        proof {
            assert(left >= cols ==> rest[cols - 1] == line@[at + (cols - 1)]);
            assert(n as int == row_len(rest, cols as int));
        }
        let ghost row = rest.take(n as int);
        let ghost mid = out@;
        let mut k: usize = 0;
        while k < cols
            invariant
                k <= cols,
                n <= cols,
                at + n <= line.len(),
                row == line@.skip(at as int).take(n as int),
                out@ == mid + padded(row, cols as int, blank).take(k as int),
            decreases cols - k,
        {
            let ghost p = padded(row, cols as int, blank);
            if k < n {
                out.push(line[at + k]);
            } else {
                out.push(blank);
            }
            proof {
                assert(p.take(k + 1) =~= p.take(k as int).push(p[k as int]));
                assert(mid + p.take(k + 1) =~= (mid + p.take(k as int)).push(p[k as int]));
            }
            k = k + 1;
        }
        proof {
            let p = padded(row, cols as int, blank);
            assert(p.take(cols as int) =~= p);
            let next = done.push(row);
            assert(next.drop_last() =~= done);
            assert(rows_cells(next, cols as int, blank) == rows_cells(done, cols as int, blank) + p);
            assert(mid + p =~= before + rows_cells(next, cols as int, blank));
            if n == left {
                assert(rest.take(n as int) =~= rest);
                assert(done + seq![row] =~= next);
            } else {
                let tail = wrap_line(rest.skip(n as int), cols as int);
                assert(rest.skip(n as int) =~= line@.skip(at + n));
                assert(done + (seq![row] + tail) =~= next + tail);
            }
            done = next;
        }
        more = n != left;
        at = at + n;
    }
}

/// A wrapped row is no longer than the width.
proof fn wrap_row_fits(line: Seq<CellSnapshot>, cols: int, k: int)
    requires
        cols > 0,
        0 <= k < wrap_line(line, cols).len(),
    ensures
        wrap_line(line, cols)[k].len() <= cols,
    decreases line.len(),
{
    let n = row_len(line, cols);
    if n != line.len() && k > 0 {
        wrap_row_fits(line.skip(n), cols, k - 1);
    }
}

proof fn rows_cells_len(rows: Seq<Seq<CellSnapshot>>, cols: int, blank: CellSnapshot)
    requires
        cols > 0,
        forall|k: int| 0 <= k < rows.len() ==> (#[trigger] rows[k]).len() <= cols,
    ensures
        rows_cells(rows, cols, blank).len() as int == rows.len() * cols,
    decreases rows.len(),
{
    if rows.len() > 0 {
        rows_cells_len(rows.drop_last(), cols, blank);
        row_in_range(cols, rows.len() as int, rows.len() - 1);
    }
}

/// A reflow yields whole rows: the number of cells is the number of rows times
/// the width.
pub proof fn reflow_makes_whole_rows(lines: Seq<Seq<CellSnapshot>>, cols: int, blank: CellSnapshot)
    requires
        cols > 0,
    ensures
        reflowed(lines, cols, blank).len() as int == reflowed_rows(lines, cols) * cols,
        reflowed_rows(lines, cols) >= lines.len(),
    decreases lines.len(),
{
    if lines.len() > 0 {
        let line = lines.last();
        let rows = wrap_line(line, cols);
        reflow_makes_whole_rows(lines.drop_last(), cols, blank);
        assert forall|k: int| 0 <= k < rows.len() implies (#[trigger] rows[k]).len() <= cols by {
            wrap_row_fits(line, cols, k);
        }
        rows_cells_len(rows, cols, blank);
        let a = reflowed_rows(lines.drop_last(), cols);
        let b = rows.len() as int;
        assert((a + b) * cols == a * cols + b * cols) by (nonlinear_arith);
    }
}

proof fn reflow_to_no_width(lines: Seq<Seq<CellSnapshot>>, blank: CellSnapshot)
    ensures
        reflowed(lines, 0, blank).len() == 0,
    decreases lines.len(),
{
    if lines.len() > 0 {
        reflow_to_no_width(lines.drop_last(), blank);
    }
}

/// Wrapping loses nothing: the rows of a line, put back together, are the line.
pub proof fn wrapping_keeps_the_line(line: Seq<CellSnapshot>, cols: int)
    requires
        cols > 0,
    ensures
        wrap_line(line, cols).flatten() == line,
        wrap_line(line, cols).len() >= 1,
    decreases line.len(),
{
    let n = row_len(line, cols);
    let w = wrap_line(line, cols);
    if n == line.len() {
        assert(w.drop_first() =~= Seq::<Seq<CellSnapshot>>::empty());
        assert(Seq::<Seq<CellSnapshot>>::empty().flatten() =~= Seq::<CellSnapshot>::empty());
        assert(w.flatten() =~= w.first() + w.drop_first().flatten());
    } else {
        let tail = wrap_line(line.skip(n), cols);
        wrapping_keeps_the_line(line.skip(n), cols);
        assert(w.drop_first() =~= tail);
        assert(w.first() == line.take(n));
        assert(line.take(n) + line.skip(n) =~= line);
    }
}

/// A double-width glyph never straddles a wrap: at any width that has room for
/// one, no wrapped row ends in its last column with the leading half of one.
pub proof fn wide_glyphs_stay_whole(line: Seq<CellSnapshot>, cols: int, k: int)
    requires
        cols >= 2,
        0 <= k < wrap_line(line, cols).len(),
        wrap_line(line, cols)[k].len() == cols,
    ensures
        !is_wide(wrap_line(line, cols)[k][cols - 1]),
    decreases line.len(),
{
    let n = row_len(line, cols);
    if n != line.len() && k > 0 {
        wide_glyphs_stay_whole(line.skip(n), cols, k - 1);
    }
}

/// Reflowing again forgets the widths in between: only the last one counts, so
/// going to another width and back gives the same rows.
pub proof fn reflow_depends_on_the_last_width_alone(f: FrozenView, middle: int, cols: int)
    ensures
        f.rewrapped(middle).rewrapped(cols) == f.rewrapped(cols),
{
}

} // verus!
