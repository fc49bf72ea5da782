//! What holds of the terminal and its screen whatever was done to them.

use vstd::prelude::*;
use crate::emulator::{EmuOp, fed_bytes, fed_chunks};
use crate::model::{BandView, MAX_QUEUE_ROWS, TermModel, larger, row_of};
use crate::model_laws::hits_keep_wf;
use crate::osc133::{MarkerView, hit_offsets_increase, scan_hits};
use crate::wide::{Glyphs, is_wide};

verus! {

/// Feeding adds exactly the bytes that were fed.
pub proof fn feeding_adds_the_bytes(m: TermModel, bytes: Seq<u8>)
    ensures
        fed_bytes(m.fed(bytes).log) == fed_bytes(m.log) + bytes,
{
    if bytes.len() == 0 {
        assert(fed_bytes(m.log) + bytes =~= fed_bytes(m.log));
    } else {
        let log = m.log.push(EmuOp::Feed(bytes));
        assert(log.drop_last() =~= m.log);
        assert(m.fed(bytes).log == log);
    }
}

/// A marker feeds nothing.
pub proof fn markers_feed_nothing(m: TermModel, mk: MarkerView)
    ensures
        m.marked_by(mk).log == m.log,
{
}

/// Up to a marker, exactly the bytes before its end are fed.
proof fn hits_feed_their_bytes(m: TermModel, st: crate::osc133::ScanState, bytes: Seq<u8>, n: int)
    requires
        0 <= n <= scan_hits(st, bytes).len(),
    ensures
        ({
            let hits = scan_hits(st, bytes);
            let to = if n == 0 {
                0
            } else {
                hits[n - 1].0
            };
            fed_bytes(m.after_hits(bytes, hits, n).log) == fed_bytes(m.log) + bytes.take(to)
        }),
    decreases n,
{
    let hits = scan_hits(st, bytes);
    hit_offsets_increase(st, bytes);
    if n == 0 {
        assert(fed_bytes(m.log) + bytes.take(0) =~= fed_bytes(m.log));
    } else {
        hits_feed_their_bytes(m, st, bytes, n - 1);
        let p = m.after_hits(bytes, hits, n - 1);
        let from = if n == 1 {
            0
        } else {
            hits[n - 2].0
        };
        let to = hits[n - 1].0;
        assert(1 <= hits[n - 1].0 <= bytes.len());
        if n > 1 {
            assert(1 <= hits[n - 2].0 < hits[n - 1].0);
        }
        let seg = bytes.subrange(from, to);
        feeding_adds_the_bytes(p, seg);
        markers_feed_nothing(p.fed(seg), hits[n - 1].1);
        assert(fed_bytes(m.log) + bytes.take(from) + seg =~= fed_bytes(m.log) + bytes.take(to));
    }
}

/// Processing output hands every byte to the emulator once, in order, whatever
/// markers it holds.
pub proof fn every_byte_is_fed_once(m: TermModel, bytes: Seq<u8>)
    ensures
        fed_bytes(m.processed(bytes).log) == fed_bytes(m.log) + bytes,
{
    let hits = scan_hits(m.scan, bytes);
    let n = hits.len() as int;
    let start = m.begun(bytes);
    hits_feed_their_bytes(start, m.scan, bytes, n);
    hit_offsets_increase(m.scan, bytes);
    let from = if n == 0 {
        0
    } else {
        hits.last().0
    };
    if n > 0 {
        assert(1 <= hits[n - 1].0 <= bytes.len());
    }
    let p = start.after_hits(bytes, hits, n);
    let seg = bytes.subrange(from, bytes.len() as int);
    feeding_adds_the_bytes(p, seg);
    assert(fed_bytes(m.log) + bytes.take(from) + seg =~= fed_bytes(m.log) + bytes);
}

/// More than one column has room for any output.
pub proof fn two_columns_take_everything(m: TermModel, bytes: Seq<u8>)
    requires
        m.wf(),
        m.cols >= 2,
        !m.halted,
    ensures
        m.takes(bytes),
{
    reveal(TermModel::segment_fits);
    let n = scan_hits(m.scan, bytes).len();
    assert forall|k: int| 0 <= k <= n implies #[trigger] m.segment_fits(bytes, k) by {
        hits_keep_wf(m.begun(bytes), m.scan, bytes, k);
    }
}

/// Output is refused for what it displays alone: where no segment of it displays a
/// double-width glyph, any grid takes it.
pub proof fn narrow_output_is_taken(m: TermModel, bytes: Seq<u8>)
    requires
        !m.halted,
        forall|k: int, i: int|
            0 <= k <= scan_hits(m.scan, bytes).len() && 0 <= i < m.sights(bytes, k).len() ==> !is_wide(
                #[trigger] m.sights(bytes, k)[i],
            ),
    ensures
        m.takes(bytes),
{
    reveal(TermModel::segment_fits);
    let n = scan_hits(m.scan, bytes).len();
    assert forall|k: int| 0 <= k <= n implies #[trigger] m.segment_fits(bytes, k) by {
        let s = m.sights(bytes, k);
        let g = Glyphs::after(fed_chunks(m.before_segment(bytes, k).log));
        assert forall|i: int| 0 <= i < s.len() && is_wide(#[trigger] s[i]) implies !g.through(
            s.take(i),
        ).wrap by {
            assert(!is_wide(m.sights(bytes, k)[i]));
        }
    }
}

/// Without markers no block appears: output of a shell that sends none leaves a
/// terminal without blocks as it is in that.
pub proof fn no_block_without_a_marker(m: TermModel, bytes: Seq<u8>)
    requires
        m.blocks.len() == 0,
        m.frozen.len() == 0,
        scan_hits(m.scan, bytes).len() == 0,
    ensures
        m.processed(bytes).blocks.len() == 0,
        m.processed(bytes).frozen.len() == 0,
{
}

/// Output that scrolls leaves every block where it is: absolute lines stay put, and
/// the line origin only moves down. Only a history that shrank, on the main screen,
/// drops them.
pub proof fn scrolling_keeps_the_blocks(m: TermModel, bytes: Seq<u8>)
    requires
        m.wf(),
    ensures
        ({
            let f = m.fed(bytes);
            ||| f.blocks == m.blocks && f.frozen == m.frozen && f.abs_base >= m.abs_base
            ||| f.blocks.len() == 0 && f.frozen.len() == 0 && f.abs_base == 0 && f.prev_history
                < m.prev_history
        }),
{
}

/// A resize that keeps the blocks keeps what was frozen: the same buffers, with the
/// same commands and the same unwrapped lines, re-wrapped to the new width.
pub proof fn resizing_keeps_frozen_text(m: TermModel, cols: u16, rows: u16, i: int)
    requires
        m.resized(cols, rows).blocks.len() > 0,
        0 <= i < m.frozen.len(),
    ensures
        ({
            let r = m.resized(cols, rows);
            &&& r.blocks.len() == m.blocks.len()
            &&& r.frozen.len() == m.frozen.len()
            &&& r.frozen[i] == m.frozen[i].rewrapped(cols as int)
        }),
{
}

/// While a command runs, the band's height rests on what is typed and queued, the
/// captured prompt and the screen's size alone: output never moves the band.
pub proof fn output_never_moves_the_band(a: TermModel, b: TermModel)
    requires
        a.running(),
        b.running(),
        a.band == b.band,
        a.prefix() == b.prefix(),
        a.cols == b.cols,
        a.rows == b.rows,
        !a.scrolled() && !b.scrolled(),
        !a.alt() && !b.alt(),
    ensures
        a.band_rows() == b.band_rows(),
        a.band_input_top() == b.band_input_top(),
        a.rows > 1 ==> a.screen_cursor().is_some() && b.screen_cursor().is_some()
            && a.screen_cursor()->0.row == b.screen_cursor()->0.row && a.screen_cursor()->0.col
            == b.screen_cursor()->0.col,
{
    assert(a.band_text() == b.band_text());
    assert(a.prefix_width() == b.prefix_width());
    assert(a.band_chunks() == b.band_chunks());
    assert(a.band_spills() == b.band_spills());
    assert(a.band_height() == b.band_height());
    assert(a.input_height() == b.input_height());
    assert(a.caret_col() == b.caret_col());
    assert(a.caret_row() == b.caret_row());
}

/// Output that a running command prints leaves the band and its caret where they
/// are, as long as the command runs on the main screen.
pub proof fn feeding_never_moves_the_band(m: TermModel, bytes: Seq<u8>)
    requires
        m.wf(),
        m.running(),
        m.fed(bytes).running(),
        !m.scrolled(),
        !m.alt() && !m.fed(bytes).alt(),
    ensures
        m.fed(bytes).band_rows() == m.band_rows(),
        m.fed(bytes).band_input_top() == m.band_input_top(),
        m.rows > 1 ==> m.fed(bytes).screen_cursor().is_some() && m.screen_cursor().is_some()
            && m.fed(bytes).screen_cursor()->0.row == m.screen_cursor()->0.row && m.fed(
            bytes,
        ).screen_cursor()->0.col == m.screen_cursor()->0.col,
{
    scrolling_keeps_the_blocks(m, bytes);
    output_never_moves_the_band(m, m.fed(bytes));
}

/// The band always leaves at least one row for content, and holds its input line
/// and the queue exactly.
pub proof fn band_leaves_a_content_row(m: TermModel)
    requires
        m.wf(),
    ensures
        0 <= m.band_rows(),
        m.band_rows() <= m.rows - 1,
        m.band_rows() > 0 ==> 1 <= m.band_input_rows() <= m.band_rows(),
        m.band_rows() > 0 ==> m.band_rows() - m.band_input_rows() <= m.band.queued.len(),
        m.band_rows() > 0 ==> m.band_rows() - m.band_input_rows() <= MAX_QUEUE_ROWS,
        m.band_rows() > 0 && m.input_height() <= m.rows - 1 ==> m.band_input_rows()
            == larger(m.input_height(), 1),
{
}

/// While history is shown, or the alternate screen, there is no band, and nothing
/// is shifted.
pub proof fn plain_layout_elsewhere(m: TermModel)
    requires
        m.wf(),
        m.scrolled() || m.alt(),
    ensures
        m.band_rows() == 0,
        m.shift() == 0,
{
}

/// Scrolling always lands between the oldest line that can be shown and the live
/// edge, and at the edge the terminal counts as not scrolled.
pub proof fn scrolling_clamps(m: TermModel, abs: int)
    requires
        m.wf(),
    ensures
        m.oldest_shown() <= m.scrolled_to(abs).viewport_top() <= m.abs_base,
        m.scrolled_to(abs).scrolled() == (m.scrolled_to(abs).viewport_top() < m.abs_base),
        abs <= m.oldest_shown() ==> m.scrolled_to(abs).viewport_top() == m.oldest_shown(),
        abs >= m.abs_base ==> !m.scrolled_to(abs).scrolled(),
        m.oldest_shown() <= abs <= m.abs_base ==> m.scrolled_to(abs).viewport_top() == abs,
{
}

/// Scrolling up and down again by the same amount returns to where it began,
/// wherever neither end cut the way short.
pub proof fn scrolling_back_returns(m: TermModel, delta: int)
    requires
        m.wf(),
        m.oldest_shown() <= m.viewport_top() <= m.abs_base,
        m.oldest_shown() <= m.viewport_top() - delta <= m.abs_base,
    ensures
        ({
            let up = m.scrolled_to(m.viewport_top() - delta);
            up.scrolled_to(up.viewport_top() + delta).viewport_top() == m.viewport_top()
        }),
{
}

/// The resting prompt's rows are drawn in the band and nowhere else: no output row
/// shows one of them, and the band shows each of them.
pub proof fn relocated_rows_are_drawn_once(m: TermModel, line: int)
    requires
        m.wf(),
        !m.running(),
        m.band_rows() > 0,
        m.input_top() <= line <= m.input_bottom(),
    ensures
        forall|r: int|
            0 <= r < m.rows - m.band_rows() && r - m.shift() == line ==> #[trigger] m.live_row(r)
                == row_of(m.blank(), m.cols),
        m.live_row(m.band_input_top() + (line - m.input_top())) == m.shown_row(line, m.cols),
{
    run_bottom_is_below(m, m.cursor_row());
    assert(m.resting_height() <= m.rows - 1);
    assert(m.band_input_rows() == m.resting_height());
    let r = m.band_input_top() + (line - m.input_top());
    assert(r >= m.rows - m.band_rows());
}

proof fn run_bottom_is_below(m: TermModel, line: int)
    requires
        m.wf(),
        0 <= line < m.rows,
    ensures
        line <= m.run_bottom(line) < m.rows,
    decreases m.rows - line,
{
    if line < m.rows - 1 && m.wraps(line) {
        run_bottom_is_below(m, line + 1);
    }
}

/// What is typed while the terminal does not echo never reaches the screen: of a
/// masked text, only its length shows.
pub proof fn masked_input_is_hidden(m: TermModel, other: Seq<char>, r: int)
    requires
        m.band.masked,
        other.len() == m.band.input.len(),
    ensures
        ({
            let n = TermModel { band: BandView { input: other, ..m.band }, ..m };
            &&& n.band_rows() == m.band_rows()
            &&& n.screen_row(r) == m.screen_row(r)
            &&& n.screen_cursor() == m.screen_cursor()
            &&& n.screen_decor(r) == m.screen_decor(r)
            &&& n.screen_sticky() == m.screen_sticky()
        }),
{
    let n = TermModel { band: BandView { input: other, ..m.band }, ..m };
    same_layout(m, n);
    assert(n.band_text() =~= m.band_text());
    assert(n.prefix() == m.prefix());
    assert(n.prefix_width() == m.prefix_width());
    assert(n.band_chunks() == m.band_chunks());
    assert(n.band_spills() == m.band_spills());
    assert(n.band_height() == m.band_height());
    assert(n.input_height() == m.input_height());
    assert(n.band_rows() == m.band_rows());
    assert(n.shift() == m.shift());
    assert(n.band_input_rows() == m.band_input_rows());
    assert(n.band_input_top() == m.band_input_top());
    assert(n.caret_row() == m.caret_row());
    assert(n.caret_col() == m.caret_col());
    assert(n.first_visible(n.band_input_rows()) == m.first_visible(m.band_input_rows()));
    let i = r - m.band_input_top();
    let v = m.first_visible(m.band_input_rows()) + i;
    assert(n.type_row(v) == m.type_row(v));
    same_rows(m, n, r);
}

/// Models that differ in the band alone.
pub open spec fn differ_in_band(a: TermModel, b: TermModel) -> bool {
    b == (TermModel { band: b.band, ..a })
}

/// What does not look at the band is the same.
proof fn same_layout(a: TermModel, b: TermModel)
    requires
        differ_in_band(a, b),
    ensures
        a.input_bottom() == b.input_bottom(),
        a.input_top() == b.input_top(),
        a.content_bottom() == b.content_bottom(),
        forall|abs: int| #[trigger] a.block_at(abs) == b.block_at(abs),
        forall|abs: int| #[trigger] a.composite_row(abs) == b.composite_row(abs),
{
    same_runs(a, b, a.cursor_row());
    same_lowest(a, b, a.rows - 1);
    assert forall|abs: int| #[trigger] a.block_at(abs) == b.block_at(abs) by {
    }
    assert forall|abs: int| #[trigger] a.composite_row(abs) == b.composite_row(abs) by {
        assert(a.block_at(abs) == b.block_at(abs));
        assert(a.shown_row(abs - a.abs_base, a.cols) =~= b.shown_row(abs - a.abs_base, a.cols));
    }
}

proof fn same_runs(a: TermModel, b: TermModel, line: int)
    requires
        differ_in_band(a, b),
    ensures
        a.run_bottom(line) == b.run_bottom(line),
        a.run_top(line) == b.run_top(line),
{
    same_run_bottom(a, b, line);
    same_run_top(a, b, line);
}

proof fn same_run_bottom(a: TermModel, b: TermModel, line: int)
    requires
        differ_in_band(a, b),
    ensures
        a.run_bottom(line) == b.run_bottom(line),
    decreases a.rows - line,
{
    if line < a.rows - 1 && a.wraps(line) {
        same_run_bottom(a, b, line + 1);
    }
}

proof fn same_run_top(a: TermModel, b: TermModel, line: int)
    requires
        differ_in_band(a, b),
    ensures
        a.run_top(line) == b.run_top(line),
    decreases line,
{
    if line > 0 && a.wraps(line - 1) {
        same_run_top(a, b, line - 1);
    }
}

proof fn same_lowest(a: TermModel, b: TermModel, line: int)
    requires
        differ_in_band(a, b),
    ensures
        a.lowest(line) == b.lowest(line),
    decreases line + 1,
{
    if line > a.cursor_row() && line >= 0 {
        assert(a.row_occupied(line) == b.row_occupied(line));
        if !a.row_occupied(line) {
            same_lowest(a, b, line - 1);
        }
    }
}

proof fn same_rows(a: TermModel, b: TermModel, r: int)
    requires
        differ_in_band(a, b),
        b.band.queued == a.band.queued,
        b.band.suggestion == a.band.suggestion,
        (a.band.input.len() == 0) == (b.band.input.len() == 0),
        b.band_rows() == a.band_rows(),
        b.shift() == a.shift(),
        b.band_input_rows() == a.band_input_rows(),
        b.type_row(a.first_visible(a.band_input_rows()) + (r - a.band_input_top())) == a.type_row(
            a.first_visible(a.band_input_rows()) + (r - a.band_input_top()),
        ),
        b.first_visible(b.band_input_rows()) == a.first_visible(a.band_input_rows()),
    ensures
        b.screen_row(r) == a.screen_row(r),
{
    same_layout(a, b);
    match a.scroll_top {
        Some(top) => {
            let row = a.composite_row(top + r);
            assert(b.composite_row(top + r) == row);
            assert(a.with_selection(row, top + r) =~= b.with_selection(row, top + r));
        },
        None => {
            let line = r - a.shift();
            assert(a.shown_row(line, a.cols) =~= b.shown_row(line, a.cols));
            let row = a.shown_row(line, a.cols);
            assert(a.with_selection(row, a.abs_base + line) =~= b.with_selection(
                row,
                a.abs_base + line,
            ));
            assert(a.moved_to_band(line) == b.moved_to_band(line));
            assert(a.output_row(r) == b.output_row(r));
            let i = r - (a.rows - a.band_rows());
            let count = a.band_rows() - a.band_input_rows();
            assert(a.queue_text(i, count) == b.queue_text(i, count));
            assert(a.queue_row(i, count) == b.queue_row(i, count));
            let k = r - a.band_input_top();
            assert(a.shown_row(a.input_top() + k, a.cols) =~= b.shown_row(a.input_top() + k, a.cols));
            assert(a.input_row(k) == b.input_row(k));
        },
    }
}

} // verus!
