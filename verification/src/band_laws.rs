//! Where things are on the live screen: the output above, the band with the queue and
//! the input line below, and the cursor in it.

use vstd::prelude::*;
use crate::decimal::decimal;
use crate::emulator::{MODE_SHOW_CURSOR, grid_cell, grid_cursor, term_mode};
use crate::layout::{glyph_width, run_width, text_width, wrapped, written, written_glyphs_are_shown, writing_stays_in_range};
use crate::model::{BandView, TermModel, overlaid, row_of};
use crate::resolve::{occupied, shown};
use crate::snapshot::{CellFlags, CellSnapshot, CursorShape, blank_cell};

verus! {

/// The lowest row with content is the cursor's or lower, shows something where it is
/// lower, and below it no row shows anything.
pub proof fn content_ends_at_the_lowest_row(m: TermModel, line: int)
    requires
        m.wf(),
        0 <= grid_cursor(m.log).0 < m.rows,
    ensures
        ({
            let b = m.content_bottom();
            let cursor = grid_cursor(m.log).0;
            &&& cursor <= b < m.rows
            &&& b > cursor ==> exists|c: int|
                0 <= c < m.cols && occupied(m.palette, #[trigger] grid_cell(m.log, b, c))
            &&& b < line < m.rows ==> forall|c: int|
                0 <= c < m.cols ==> !occupied(m.palette, #[trigger] grid_cell(m.log, line, c))
        }),
{
    lowest_is(m, m.rows - 1, line);
}

proof fn lowest_is(m: TermModel, from: int, line: int)
    requires
        m.wf(),
        m.cursor_row() <= from,
    ensures
        m.cursor_row() <= m.lowest(from) <= from,
        m.lowest(from) > m.cursor_row() ==> m.row_occupied(m.lowest(from)),
        m.lowest(from) < line <= from ==> !m.row_occupied(line),
    decreases from + 1,
{
    if from > m.cursor_row() && !m.row_occupied(from) {
        lowest_is(m, from - 1, line);
    }
}

/// A soft-wrapped run goes on over the rows that the grid flags as wrapping, down to
/// the first that is not, and up to behind the last that is not.
pub proof fn runs_follow_the_wrapping(m: TermModel, line: int, k: int)
    requires
        m.wf(),
        0 <= line < m.rows,
    ensures
        line <= m.run_bottom(line) < m.rows,
        line <= k < m.run_bottom(line) ==> crate::freeze_laws::goes_on(m, m.abs_base + k),
        m.run_bottom(line) < m.rows - 1 ==> !crate::freeze_laws::goes_on(m, m.abs_base + m.run_bottom(line)),
        0 <= m.run_top(line) <= line,
        m.run_top(line) <= k < line ==> crate::freeze_laws::goes_on(m, m.abs_base + k),
        m.run_top(line) > 0 ==> !crate::freeze_laws::goes_on(m, m.abs_base + m.run_top(line) - 1),
{
    run_down(m, line, k);
    run_up(m, line, k);
}

proof fn run_down(m: TermModel, line: int, k: int)
    requires
        0 <= line < m.rows,
    ensures
        line <= m.run_bottom(line) < m.rows,
        line <= k < m.run_bottom(line) ==> crate::freeze_laws::goes_on(m, m.abs_base + k),
        m.run_bottom(line) < m.rows - 1 ==> !crate::freeze_laws::goes_on(m, m.abs_base + m.run_bottom(line)),
    decreases m.rows - line,
{
    if line < m.rows - 1 && m.wraps(line) {
        run_down(m, line + 1, k);
    }
}

proof fn run_up(m: TermModel, line: int, k: int)
    requires
        0 <= line,
    ensures
        0 <= m.run_top(line) <= line,
        m.run_top(line) <= k < line ==> crate::freeze_laws::goes_on(m, m.abs_base + k),
        m.run_top(line) > 0 ==> !crate::freeze_laws::goes_on(m, m.abs_base + m.run_top(line) - 1),
    decreases line,
{
    if line > 0 && m.wraps(line - 1) {
        run_up(m, line - 1, k);
    }
}

/// The resting prompt's input begins where the open block's command does, or without one
/// where the soft-wrapped rows above the cursor begin, and ends where those below it
/// end, wherever that leaves a row for content.
pub proof fn the_resting_input_is_the_command(m: TermModel)
    requires
        m.wf(),
        m.rows >= 2,
        m.input_bottom() - m.input_top() < m.rows - 2,
        0 <= grid_cursor(m.log).0 < m.rows,
    ensures
        ({
            let row = grid_cursor(m.log).0;
            let open = m.blocks.len() > 0 && m.blocks.last().end_line.is_none();
            let begins = m.blocks.last().command_line - m.abs_base;
            &&& m.input_bottom() == m.run_bottom(row)
            &&& open && -m.depth() <= begins <= row ==> m.input_top() == begins
            &&& open && row < begins ==> m.input_top() == row
            &&& !open ==> m.input_top() == m.run_top(row)
            &&& m.resting_height() == m.input_bottom() - m.input_top() + 1
        }),
{
    runs_follow_the_wrapping(m, m.cursor_row(), 0);
}

/// On the live main screen the band holds the input line, as high as it is but with a
/// row left for content, and above it the queued commands, six at most and as many as
/// there is room for.
pub proof fn the_band_holds_input_and_queue(m: TermModel)
    requires
        m.wf(),
        m.scroll_top.is_none(),
        !m.alt(),
        m.rows > 1,
    ensures
        ({
            let height = if m.running() {
                m.band_height()
            } else {
                m.resting_height()
            };
            let input = m.band_input_rows();
            let queue = m.band_rows() - input;
            &&& 1 <= height <= m.rows - 1 ==> input == height
            &&& height > m.rows - 1 ==> input == m.rows - 1
            &&& queue >= 0
            &&& queue <= 6 && queue <= m.band.queued.len()
            &&& m.band.queued.len() <= 6 && m.band.queued.len() + input <= m.rows - 1 ==> queue
                == m.band.queued.len()
            &&& queue < 6 && queue < m.band.queued.len() ==> queue + input == m.rows - 1
        }),
{
}

/// While a command runs, the input line takes one row for each row of the typed text, and
/// one more where the caret spills; with nothing typed it takes one.
pub proof fn the_type_ahead_field_fits_its_text(m: TermModel)
    requires
        m.cols >= 1,
    ensures
        m.band.input.len() == 0 ==> m.band_height() == 1,
        m.band.input.len() > 0 ==> m.band_height() == m.band_chunks().len() + if m.band_spills() {
            1int
        } else {
            0
        },
        m.band_chunks() == wrapped(m.prefix_width(), m.band_text(), m.cols),
        0 <= m.prefix_width() <= m.cols,
        m.prefix().len() <= m.cols ==> m.prefix_width() == m.prefix().len(),
        m.blocks.len() > 0 ==> m.prefix() == m.blocks.last().prompt_prefix,
{
}

/// What is typed is shown as it is, or where it is masked as a bullet for each character.
pub proof fn typed_text_is_shown_or_masked(m: TermModel, i: int)
    requires
        0 <= i < m.band.input.len(),
    ensures
        m.band_text().len() == m.band.input.len(),
        !m.band.masked ==> m.band_text()[i] == m.band.input[i],
        m.band.masked ==> m.band_text()[i] == '\u{2022}',
{
}

/// The output sits on the band: its last row that is not part of the resting input comes
/// right above the band, or one row above the bottom without one, unless the band then
/// pushes more than itself off the top.
pub proof fn output_sits_on_the_band(m: TermModel)
    requires
        m.wf(),
        m.scroll_top.is_none(),
        !m.alt(),
        m.rows > 1,
    ensures
        ({
            let last = m.content_bottom() - if m.running() {
                0
            } else {
                m.resting_height()
            };
            let band = m.band_rows();
            &&& band >= 1
            &&& m.shift() >= -band
            &&& m.shift() > -band ==> last + m.shift() == m.rows - 1 - band
            &&& m.shift() == -band ==> last + m.shift() >= m.rows - 1 - band
        }),
{
}

/// Row `r` above the band shows the grid's row that many rows up which the output is
/// moved down, with the selected cells flagged; where there is none, or it is shown in
/// the band, the row is blank.
pub proof fn output_rows_show_the_grid(m: TermModel, r: int, c: int)
    requires
        m.wf(),
        m.scroll_top.is_none(),
        0 <= r < m.rows - m.band_rows(),
        0 <= c < m.cols,
    ensures
        ({
            let line = r - m.shift();
            let relocated = m.band_rows() > 0 && !m.running() && m.input_top() <= line <= m.input_bottom();
            let row = m.screen_row(r);
            &&& row.len() == m.cols
            &&& 0 <= line < m.rows && !relocated && !m.selected(m.abs_base + line, c) ==> row[c] == shown(
                m.palette,
                grid_cell(m.log, line, c),
            )
            &&& 0 <= line < m.rows && !relocated && m.selected(m.abs_base + line, c) ==> row[c].c == shown(
                m.palette,
                grid_cell(m.log, line, c),
            ).c
            &&& line < 0 || line >= m.rows || relocated ==> row[c] == blank_cell(
                m.palette.foreground,
                m.palette.background,
            )
        }),
{
}

/// Each queued command has its row, with a bullet in front; where there are more than
/// rows, the last row says how many are not shown.
pub proof fn queued_commands_are_listed(m: TermModel, i: int, count: int)
    requires
        0 <= i < count <= m.band.queued.len(),
    ensures
        count == m.band.queued.len() || i + 1 < count ==> m.queue_text(i, count) == seq!['\u{2022}', ' ']
            + m.band.queued[i],
        count < m.band.queued.len() && i + 1 == count ==> m.queue_text(i, count) == "+ "@ + decimal(
            (m.band.queued.len() - i) as nat,
        ) + " more queued"@,
{
}

/// The queue's rows come above the input line's, dim and italic, in order.
pub proof fn the_queue_is_above_the_input(m: TermModel, i: int, k: int)
    requires
        m.wf(),
        m.scroll_top.is_none(),
        m.band_rows() > 0,
        0 <= i < m.band_rows() - m.band_input_rows(),
        0 <= k,
        ({
            let t = m.queue_text(i, m.band_rows() - m.band_input_rows());
            &&& k < t.len()
            &&& glyph_width(t[k]) == 1
            &&& run_width(t.take(k + 1)) <= m.cols
        }),
    ensures
        ({
            let t = m.queue_text(i, m.band_rows() - m.band_input_rows());
            let cell = m.screen_row(m.rows - m.band_rows() + i)[run_width(t.take(k)) as int];
            &&& cell.c == t[k]
            &&& cell.flags.bits == CellFlags::ITALIC
            &&& cell.fg == m.palette.colors@[8]
            &&& cell.bg == m.palette.background
        }),
{
    let count = m.band_rows() - m.band_input_rows();
    let t = m.queue_text(i, count);
    let style = CellSnapshot { flags: CellFlags { bits: CellFlags::ITALIC }, ..m.dim_blank() };
    crate::screen_laws::band_leaves_a_content_row(m);
    written_glyphs_are_shown(row_of(m.dim_blank(), m.cols), 0, m.cols, t, style, k);
}

/// While a command runs and nothing is typed, the input line shows its prompt and behind
/// it, dimmed, the command, or that something is running.
pub proof fn the_running_command_is_shown(m: TermModel, k: int, c: int)
    requires
        m.wf(),
        m.scroll_top.is_none(),
        m.band_rows() > 0,
        m.running(),
        m.band.input.len() == 0,
        0 <= k < m.placeholder().len(),
        glyph_width(m.placeholder()[k]) == 1,
        m.prefix_width() + run_width(m.placeholder().take(k + 1)) <= m.cols,
        0 <= c < m.prefix_width(),
    ensures
        ({
            let row = m.screen_row(m.rows - 1);
            let cell = row[m.prefix_width() + run_width(m.placeholder().take(k))];
            &&& row[c] == m.blocks.last().prompt_prefix[c]
            &&& cell.c == m.placeholder()[k]
            &&& cell.fg == m.palette.colors@[8]
            &&& m.blocks.last().command.len() > 0 ==> m.placeholder() == m.blocks.last().command
            &&& m.blocks.last().command.len() == 0 ==> m.placeholder() == "running\u{2026}"@
        }),
{
    let row = overlaid(row_of(m.dim_blank(), m.cols), m.prefix());
    let p = m.prefix_width();
    crate::screen_laws::band_leaves_a_content_row(m);
    assert(m.band_input_rows() == 1);
    written_glyphs_are_shown(row, p, m.cols, m.placeholder(), m.dim_blank(), k);
    writing_stays_in_range(row, p, m.cols, m.placeholder(), m.dim_blank(), c);
}

/// What is typed while a command runs is shown row by row: on the first row behind the
/// prompt, on the others from the edge, in the normal color.
pub proof fn typed_rows_are_shown(m: TermModel, v: int, k: int)
    requires
        m.wf(),
        0 <= v < m.band_chunks().len(),
        m.band.suggestion.is_none(),
        0 <= k < m.band_chunks()[v].len(),
        glyph_width(m.band_chunks()[v][k]) > 0,
        (if v == 0 {
            m.prefix_width()
        } else {
            0
        }) + run_width(m.band_chunks()[v].take(k + 1)) <= m.cols,
    ensures
        ({
            let t = m.band_chunks()[v];
            let from = if v == 0 {
                m.prefix_width()
            } else {
                0
            };
            let cell = m.type_row(v)[from + run_width(t.take(k))];
            &&& cell.c == t[k]
            &&& cell.fg == m.palette.foreground
            &&& cell.bg == m.palette.background
        }),
{
    let t = m.band_chunks()[v];
    let empty = row_of(m.dim_blank(), m.cols);
    if v == 0 {
        written_glyphs_are_shown(overlaid(empty, m.prefix()), m.prefix_width(), m.cols, t, m.blank(), k);
    } else {
        written_glyphs_are_shown(empty, 0, m.cols, t, m.blank(), k);
    }
}

/// A suggestion is shown behind the caret, on its row alone, in the dim color.
pub proof fn suggestions_follow_the_caret(m: TermModel, v: int, k: int)
    requires
        m.wf(),
        m.band.suggestion.is_some(),
        0 <= k < m.band.suggestion->0.len(),
        glyph_width(m.band.suggestion->0[k]) > 0,
        0 <= m.caret_col(),
        m.caret_col() + run_width(m.band.suggestion->0.take(k + 1)) <= m.cols,
        0 <= v <= m.band_chunks().len(),
    ensures
        ({
            let s = m.band.suggestion->0;
            let plain = TermModel { band: BandView { suggestion: None, ..m.band }, ..m };
            let cell = m.type_row(v)[m.caret_col() + run_width(s.take(k))];
            &&& v == m.caret_row() ==> cell.c == s[k] && cell.fg == m.palette.colors@[8]
            &&& v != m.caret_row() ==> m.type_row(v) == plain.type_row(v)
        }),
{
    let s = m.band.suggestion->0;
    let plain = TermModel { band: BandView { suggestion: None, ..m.band }, ..m };
    assert(plain.band_text() =~= m.band_text());
    assert(plain.band_chunks() == m.band_chunks());
    let typed = plain.type_row(v);
    typed_row_len(plain, v);
    if v == m.caret_row() {
        written_glyphs_are_shown(typed, m.caret_col(), m.cols, s, m.dim_blank(), k);
    }
}

proof fn typed_row_len(m: TermModel, v: int)
    requires
        m.cols >= 1,
        m.band.suggestion.is_none(),
        0 <= v,
    ensures
        m.type_row(v).len() == m.cols,
{
    let empty = row_of(m.dim_blank(), m.cols);
    let chunks = m.band_chunks();
    if v == 0 {
        let row = overlaid(empty, m.prefix());
        if m.prefix_width() > 0 {
            writing_stays_in_range(row, m.prefix_width(), m.cols, chunks[0], m.blank(), 0);
        } else {
            same_length(row, 0, m.cols, chunks[0], m.blank());
        }
    } else if v < chunks.len() {
        same_length(empty, 0, m.cols, chunks[v], m.blank());
    }
}

proof fn same_length(cells: Seq<CellSnapshot>, at: int, end: int, text: Seq<char>, blank: CellSnapshot)
    requires
        0 <= at <= end <= cells.len(),
    ensures
        written(cells, at, end, text, blank).len() == cells.len(),
    decreases text.len(),
{
    if text.len() > 0 {
        let w = glyph_width(text[0]);
        if w == 0 {
            same_length(cells, at, end, text.skip(1), blank);
        } else if at + w <= end {
            let one = cells.update(at, crate::layout::glyph_cell(text[0], w, blank));
            let two = if w == 2 {
                one.update(at + 1, crate::layout::spacer_cell(blank))
            } else {
                one
            };
            same_length(two, at + w, end, text.skip(1), blank);
        }
    }
}

/// The band shows the last rows of a typed text that is too long for it, down to the
/// caret's.
pub proof fn the_carets_row_is_in_view(m: TermModel, i: int)
    requires
        m.wf(),
        m.scroll_top.is_none(),
        m.band_rows() > 0,
        m.running(),
        m.band.input.len() > 0,
        0 <= i < m.band_input_rows(),
    ensures
        ({
            let shown_rows = m.band_input_rows();
            let hidden = m.band_height() - shown_rows;
            &&& 0 <= hidden
            &&& m.screen_row(m.rows - shown_rows + i) == m.type_row(hidden + i)
            &&& m.caret_row() == m.band_height() - 1
            &&& m.screen_cursor().is_some()
            &&& m.screen_cursor()->0.row == m.rows - 1
            &&& m.screen_cursor()->0.shape == CursorShape::Beam
        }),
{
    crate::screen_laws::band_leaves_a_content_row(m);
}

/// The caret stands behind the typed text: behind its last row, or on the row that it
/// spills to at the edge.
pub proof fn the_caret_is_behind_the_text(m: TermModel)
    ensures
        ({
            let rows = m.band_chunks();
            &&& m.band_spills() ==> m.caret_col() == 0 && m.caret_row() == rows.len()
            &&& !m.band_spills() ==> m.caret_row() == rows.len() - 1
            &&& !m.band_spills() && rows.len() == 1 ==> m.caret_col() == m.prefix_width() + text_width(
                rows[0],
            )
            &&& !m.band_spills() && rows.len() > 1 ==> m.caret_col() == text_width(rows.last())
        }),
{
}

/// Whether the program lets the cursor be seen: there was output, it was not hidden, and
/// its shape is one that shows.
pub open spec fn cursor_wanted(m: TermModel) -> bool {
    m.seen_output && m.shape != CursorShape::Hidden && term_mode(m.log) & MODE_SHOW_CURSOR != 0
}

/// At a resting prompt the cursor is drawn, in its own shape, on the row of the band that
/// shows its grid row, wherever the whole input is in view.
pub proof fn the_cursor_is_on_its_row(m: TermModel)
    requires
        m.wf(),
        m.scroll_top.is_none(),
        m.band_rows() > 0,
        !m.running(),
        m.resting_height() <= m.rows - 1,
        m.input_top() <= grid_cursor(m.log).0 <= m.input_bottom(),
        0 <= grid_cursor(m.log).0 < m.rows,
        0 <= grid_cursor(m.log).1 < m.cols,
    ensures
        m.screen_cursor().is_some() == cursor_wanted(m),
        m.screen_cursor() matches Some(c) ==> {
            &&& c.col == grid_cursor(m.log).1
            &&& c.shape == m.shape
            &&& c.color == m.palette.cursor
            &&& c.text_color == m.palette.cursor_text
            &&& m.rows - m.band_rows() <= c.row < m.rows
            &&& m.screen_row(c.row as int) == m.shown_row(grid_cursor(m.log).0, m.cols)
        },
{
    crate::screen_laws::band_leaves_a_content_row(m);
}

/// Without a band the cursor is drawn on the row that shows its grid row, if that is on
/// the screen.
pub proof fn the_cursor_is_on_its_row_without_a_band(m: TermModel)
    requires
        m.wf(),
        m.scroll_top.is_none(),
        m.band_rows() == 0,
        0 <= grid_cursor(m.log).0 < m.rows,
        0 <= grid_cursor(m.log).1 < m.cols,
    ensures
        ({
            let row = grid_cursor(m.log).0 + m.shift();
            &&& m.screen_cursor().is_some() == (cursor_wanted(m) && 0 <= row < m.rows)
            &&& m.screen_cursor() matches Some(c) ==> c.col == grid_cursor(m.log).1 && c.row == row && c.shape
                == m.shape
        }),
{
}

/// While a command runs with nothing typed, a beam stands behind the prompt; while
/// history is shown there is no cursor.
pub proof fn the_beam_is_behind_the_prompt(m: TermModel)
    requires
        m.wf(),
    ensures
        m.scroll_top.is_some() ==> m.screen_cursor().is_none(),
        m.scroll_top.is_none() && m.band_rows() > 0 && m.running() && m.band.input.len() == 0 ==> {
            let c = m.screen_cursor()->0;
            &&& m.screen_cursor().is_some()
            &&& c.shape == CursorShape::Beam
            &&& c.row == m.rows - 1
            &&& m.prefix_width() < m.cols ==> c.col == m.prefix_width()
            &&& m.prefix_width() == m.cols ==> c.col == m.cols - 1
        },
{
    crate::screen_laws::band_leaves_a_content_row(m);
}

} // verus!
