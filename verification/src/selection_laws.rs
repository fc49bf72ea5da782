//! What is selected, what is flagged as selected, and what is copied: the same cells.

use vstd::prelude::*;
use crate::model::{TermModel, cells_text};
use crate::selection::{CompositeSelection, SelPoint, Side};
use crate::snapshot::{CellFlags, CellSnapshot};
use crate::text::{is_white, join_on, trimmed, trimmed_end, trimming_keeps_the_middle};

verus! {

/// Where a selection endpoint lies on its line, with four steps to a cell: the middle
/// of the half that the pointer was on.
pub open spec fn quarter(p: SelPoint) -> int {
    4 * p.col + if p.side == Side::Left {
        1int
    } else {
        3
    }
}

/// Whether endpoint `p` comes before the middle of the cell at `(abs, col)`.
pub open spec fn before_middle(p: SelPoint, abs: int, col: int) -> bool {
    p.abs < abs || (p.abs == abs && quarter(p) < 4 * col + 2)
}

/// Whether the middle of the cell at `(abs, col)` comes before endpoint `p`.
pub open spec fn after_middle(p: SelPoint, abs: int, col: int) -> bool {
    abs < p.abs || (p.abs == abs && 4 * col + 2 < quarter(p))
}

/// A cell is selected exactly where its middle lies between the two endpoints in
/// reading order, whichever of them the drag began at.
pub proof fn selected_cells_lie_between(s: CompositeSelection, cols: int, abs: int, col: int)
    requires
        s.anchor.col < cols,
        s.head.col < cols,
        0 <= col < cols,
    ensures
        s.covers(cols, abs, col) <==> (before_middle(s.anchor, abs, col) && after_middle(
            s.head,
            abs,
            col,
        )) || (before_middle(s.head, abs, col) && after_middle(s.anchor, abs, col) && (s.anchor.abs
            != s.head.abs || s.anchor.col != s.head.col)),
{
}

/// The text of the selected cells among the first `n` of line `abs`: the characters of
/// those that hold one.
pub open spec fn covered_text(m: TermModel, abs: int, n: int) -> Seq<char>
    decreases n,
{
    if n <= 0 {
        Seq::empty()
    } else {
        let cell = m.composite_row(abs)[n - 1];
        if m.selected(abs, n - 1) && !cell.flags.has(CellFlags::WIDE_SPACER) {
            covered_text(m, abs, n - 1).push(cell.c)
        } else {
            covered_text(m, abs, n - 1)
        }
    }
}

proof fn covered_is_a_stretch(m: TermModel, abs: int, lo: int, hi: int, n: int)
    requires
        m.composite_row(abs).len() == m.cols,
        0 <= lo <= hi < m.cols,
        0 <= n <= m.cols,
        forall|c: int| 0 <= c < m.cols ==> (#[trigger] m.selected(abs, c) <==> lo <= c <= hi),
    ensures
        n <= lo ==> covered_text(m, abs, n) == Seq::<char>::empty(),
        lo < n <= hi + 1 ==> covered_text(m, abs, n) == cells_text(
            m.composite_row(abs).subrange(lo, n),
        ),
        hi < n ==> covered_text(m, abs, n) == cells_text(m.composite_row(abs).subrange(lo, hi + 1)),
    decreases n,
{
    if n > 0 {
        covered_is_a_stretch(m, abs, lo, hi, n - 1);
        let row = m.composite_row(abs);
        assert(m.selected(abs, n - 1) <==> lo <= n - 1 <= hi);
        if lo < n <= hi + 1 {
            let part = row.subrange(lo, n);
            assert(part.drop_last() =~= row.subrange(lo, n - 1));
            assert(part.last() == row[n - 1]);
            if n - 1 == lo {
                assert(part.drop_last() =~= Seq::empty());
                assert(cells_text(part.drop_last()) =~= Seq::empty());
            }
            assert(cells_text(part.drop_last()) == covered_text(m, abs, n - 1));
            assert(covered_text(m, abs, n) == cells_text(part));
        } else {
            assert(covered_text(m, abs, n) == covered_text(m, abs, n - 1));
        }
    }
}

proof fn composite_rows_are_full(m: TermModel, abs: int)
    requires
        m.cols >= 1,
    ensures
        m.composite_row(abs).len() == m.cols,
{
}

/// The selected text is made of exactly the selected cells: line after line, from the
/// first selected cell's to the last one's, the text of those cells of the line which
/// the selection covers, without the white space at its end. There is none where all of
/// it is white space.
pub proof fn copied_text_is_what_is_selected(m: TermModel, s: CompositeSelection)
    requires
        m.wf(),
        m.sel == Some(s),
        s.anchor.col < m.cols,
        s.head.col < m.cols,
        s.span(m.cols).is_some(),
    ensures
        ({
            let (first, last) = s.span(m.cols)->0;
            let lines = Seq::new(
                (last.0 - first.0 + 1) as nat,
                |i: int| trimmed_end(covered_text(m, first.0 + i, m.cols)),
            );
            let all = join_on(lines, seq!['\n']);
            &&& m.selected_text().is_some() ==> m.selected_text() == Some(all)
            &&& m.selected_text().is_none() <==> forall|i: int|
                0 <= i < all.len() ==> is_white(#[trigger] all[i])
        }),
{
    let (first, last) = s.span(m.cols)->0;
    let n = last.0 - first.0 + 1;
    let lines = Seq::new(n as nat, |i: int| trimmed_end(covered_text(m, first.0 + i, m.cols)));
    let given = m.range_lines(first, last, n);
    assert forall|i: int| 0 <= i < n implies #[trigger] given[i] == lines[i] by {
        line_of_the_text(m, s, i);
    }
    assert(given =~= lines);
    let all = join_on(lines, seq!['\n']);
    assert(m.range_text(first, last) == all);
    let k = trimming_keeps_the_middle(all);
    if trimmed(all).len() > 0 {
        assert(all[k] == trimmed(all)[0]);
    }
}

proof fn line_of_the_text(m: TermModel, s: CompositeSelection, i: int)
    requires
        m.wf(),
        m.sel == Some(s),
        s.anchor.col < m.cols,
        s.head.col < m.cols,
        s.span(m.cols).is_some(),
        0 <= i,
        ({
            let (first, last) = s.span(m.cols)->0;
            i <= last.0 - first.0
        }),
    ensures
        ({
            let (first, last) = s.span(m.cols)->0;
            m.range_lines(first, last, last.0 - first.0 + 1)[i] == trimmed_end(
                covered_text(m, first.0 + i, m.cols),
            )
        }),
{
    let (first, last) = s.span(m.cols)->0;
    let abs = first.0 + i;
    let lo = if i == 0 {
        first.1
    } else {
        0
    };
    let hi = if abs == last.0 {
        last.1
    } else {
        m.cols - 1
    };
    composite_rows_are_full(m, abs);
    assert(0 <= lo <= hi < m.cols);
    assert forall|c: int| 0 <= c < m.cols implies (#[trigger] m.selected(abs, c) <==> lo <= c <= hi) by {
    }
    covered_is_a_stretch(m, abs, lo, hi, m.cols);
}

/// Every line between the first and the last selected one holds a selected cell, and
/// no line outside does: there are as many lines of text as lines that are selected.
pub proof fn every_copied_line_is_selected(s: CompositeSelection, cols: int, abs: int)
    requires
        s.anchor.col < cols,
        s.head.col < cols,
        s.span(cols).is_some(),
    ensures
        ({
            let (first, last) = s.span(cols)->0;
            first.0 <= abs <= last.0 <==> exists|c: int| 0 <= c < cols && #[trigger] s.covers(cols, abs, c)
        }),
{
    let (first, last) = s.span(cols)->0;
    if first.0 <= abs <= last.0 {
        let c = if abs == first.0 {
            first.1
        } else {
            0
        };
        assert(s.covers(cols, abs, c));
    }
}

/// Whatever is drawn of a line is flagged as selected exactly where the selection
/// covers it, and is otherwise drawn as without a selection.
pub proof fn selected_cells_are_flagged(m: TermModel, row: Seq<CellSnapshot>, abs: int, c: int)
    requires
        0 <= c < row.len(),
        !row[c].flags.has(CellFlags::SELECTED),
    ensures
        m.with_selection(row, abs).len() == row.len(),
        m.with_selection(row, abs)[c].flags.has(CellFlags::SELECTED) == m.selected(abs, c),
        m.with_selection(row, abs)[c].c == row[c].c,
        m.with_selection(row, abs)[c].fg == row[c].fg,
        m.with_selection(row, abs)[c].bg == row[c].bg,
        !m.selected(abs, c) ==> m.with_selection(row, abs)[c] == row[c],
        m.with_selection(row, abs)[c].flags.has(CellFlags::WIDE_SPACER) == row[c].flags.has(
            CellFlags::WIDE_SPACER,
        ),
{
    let a = row[c].flags.bits;
    assert((a | 64u16) & 64u16 == 64u16) by (bit_vector);
    assert((a | 64u16) & 32u16 == a & 32u16) by (bit_vector);
}

/// While scrolled back, the flagged cells of a row are the selected ones of the line
/// that it shows.
pub proof fn history_shows_the_selection(m: TermModel, r: int, c: int)
    requires
        m.wf(),
        m.scroll_top.is_some(),
        0 <= c < m.cols,
        !m.composite_row(m.scroll_top->0 + r)[c].flags.has(CellFlags::SELECTED),
    ensures
        m.screen_row(r).len() == m.cols,
        m.screen_row(r)[c].flags.has(CellFlags::SELECTED) == m.selected(m.scroll_top->0 + r, c),
        m.screen_row(r)[c].c == m.composite_row(m.scroll_top->0 + r)[c].c,
{
    let abs = m.scroll_top->0 + r;
    composite_rows_are_full(m, abs);
    selected_cells_are_flagged(m, m.composite_row(abs), abs, c);
}

/// A pointer at row `r` selects on the line that row `r` shows, in the column that it
/// is over or the last one.
pub proof fn the_pointer_is_on_the_shown_line(m: TermModel, col: int, r: int, right: bool)
    requires
        m.wf(),
        0 <= col <= 65535,
        0 <= r <= 65535,
        -65535 <= m.shift() <= 131070,
    ensures
        ({
            let p = m.point_at(col, r, right);
            &&& m.scroll_top matches Some(top) ==> m.screen_row(r) == m.with_selection(
                m.composite_row(p.abs as int),
                p.abs as int,
            )
            &&& m.scroll_top.is_none() && r < m.rows - m.band_rows() && 0 <= p.abs - m.abs_base < m.rows
                && !m.moved_to_band(p.abs - m.abs_base) ==> m.screen_row(r) == m.with_selection(
                m.shown_row(p.abs - m.abs_base, m.cols),
                p.abs as int,
            )
            &&& m.scroll_top.is_none() ==> p.abs - m.abs_base + m.shift() == r
            &&& p.col < m.cols
            &&& col < m.cols ==> p.col == col
            &&& col >= m.cols ==> p.col == m.cols - 1
            &&& (p.side == Side::Right) == right
        }),
{
    assert(-0x8000_0000_0000_0000 <= m.abs_base + r - m.shift() <= 0x7fff_ffff_ffff_ffff);
}

/// The text of the block on top is that of all its lines from its prompt to its end,
/// over the whole width, without the white space at its end.
pub proof fn copied_block_is_the_top_one(m: TermModel, i: int)
    requires
        m.wf(),
        crate::viewport_laws::line_of(m, crate::viewport_laws::top_line(m), i),
    ensures
        ({
            let end = if i + 1 < m.blocks.len() {
                m.blocks[i + 1].prompt_line - 1
            } else if m.blocks[i].end_line.is_some() {
                m.blocks[i].end_line->0
            } else {
                m.abs_base + m.cursor_row()
            };
            let first = m.blocks[i].prompt_line;
            let lines = Seq::new(
                (end - first + 1) as nat,
                |k: int| trimmed_end(cells_text(m.composite_row(first + k))),
            );
            let all = trimmed_end(join_on(lines, seq!['\n']));
            m.top_block_text() == if all.len() == 0 {
                None
            } else {
                Some(all)
            }
        }),
{
    let top = crate::viewport_laws::top_line(m);
    crate::viewport_laws::lines_belong_to_their_block(m, top, i);
    let first = m.blocks[i].prompt_line;
    let end = m.block_end(i) - 1;
    let n = end - first + 1;
    let lines = Seq::new(n as nat, |k: int| trimmed_end(cells_text(m.composite_row(first + k))));
    let given = m.range_lines((first, 0), (end, m.cols - 1), n);
    assert forall|k: int| 0 <= k < n implies #[trigger] given[k] == lines[k] by {
        composite_rows_are_full(m, first + k);
        assert(m.composite_row(first + k).subrange(0, m.cols) =~= m.composite_row(first + k));
    }
    assert(given =~= lines);
}

/// The text of a run of cells has one character for each that is no spacer, in order.
pub proof fn spacers_are_not_copied(a: Seq<CellSnapshot>, cell: CellSnapshot, b: Seq<CellSnapshot>)
    ensures
        cells_text(a + b) == cells_text(a) + cells_text(b),
        cell.flags.has(CellFlags::WIDE_SPACER) ==> cells_text(seq![cell]).len() == 0,
        !cell.flags.has(CellFlags::WIDE_SPACER) ==> cells_text(seq![cell]) == seq![cell.c],
    decreases b.len(),
{
    let one = seq![cell];
    assert(one.drop_last() =~= Seq::empty());
    assert(cells_text(one.drop_last()) =~= Seq::empty());
    if b.len() == 0 {
        assert(a + b =~= a);
        assert(cells_text(a) + cells_text(b) =~= cells_text(a));
    } else {
        spacers_are_not_copied(a, cell, b.drop_last());
        assert((a + b).drop_last() =~= a + b.drop_last());
        assert((a + b).last() == b.last());
        assert(cells_text(a + b) =~= cells_text(a) + cells_text(b));
    }
}

} // verus!
