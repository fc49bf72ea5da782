//! Laying out text in rows of cells: display widths, writing into a row, and
//! soft-wrapping.

use vstd::prelude::*;
use unicode_width::{UnicodeWidthChar, UnicodeWidthStr};
use crate::snapshot::{CellFlags, CellSnapshot};
use crate::text::{char_rows, string_of, sub_chars};

verus! {

/// How many columns `unicode-width` gives a character; `None` for control
/// characters.
pub uninterp spec fn char_width(c: char) -> Option<nat>;

/// How many columns `unicode-width` gives a string, which may differ from the sum
/// of its characters.
pub uninterp spec fn text_width(s: Seq<char>) -> nat;

/// `UnicodeWidthChar::width`. Which character has which width is left to
/// [`char_width`].
#[verifier::external_body]
pub(crate) fn width_of_char(c: char) -> (w: Option<usize>)
    ensures
        match w {
            Some(n) => char_width(c) == Some(n as nat),
            None => char_width(c).is_none(),
        },
{
    UnicodeWidthChar::width(c)
}

/// `UnicodeWidthStr::width`. Which string has which width is left to
/// [`text_width`].
#[verifier::external_body]
pub(crate) fn width_of_text(s: &str) -> (w: usize)
    ensures
        w == text_width(s@),
{
    UnicodeWidthStr::width(s)
}

/// The columns that a character takes in a row: none for control characters.
pub open spec fn glyph_width(c: char) -> nat {
    match char_width(c) {
        Some(w) => w,
        None => 0,
    }
}

/// The columns that a character takes in a row.
pub fn glyph_cols(c: char) -> (w: usize)
    ensures
        w == glyph_width(c),
{
    match width_of_char(c) {
        Some(w) => w,
        None => 0,
    }
}

/// The columns that a run of characters takes, placed one after the other.
pub open spec fn run_width(s: Seq<char>) -> nat
    decreases s.len(),
{
    if s.len() == 0 {
        0
    } else {
        run_width(s.drop_last()) + glyph_width(s.last())
    }
}

/// The cell of a glyph that is `w` columns wide, in the style of `blank`.
pub open spec fn glyph_cell(c: char, w: nat, blank: CellSnapshot) -> CellSnapshot {
    CellSnapshot {
        c,
        flags: if w == 2 {
            CellFlags { bits: CellFlags::WIDE }
        } else {
            blank.flags
        },
        ..blank
    }
}

/// The cell behind a double-width glyph, in the style of `blank`.
pub open spec fn spacer_cell(blank: CellSnapshot) -> CellSnapshot {
    CellSnapshot { c: ' ', flags: CellFlags { bits: CellFlags::WIDE_SPACER }, ..blank }
}

/// `cells` after `text` was written from `at` on, up to but not past `end`. A
/// double-width glyph takes a leading cell and a spacer; writing stops at the
/// first glyph that does not fit.
pub open spec fn written(
    cells: Seq<CellSnapshot>,
    at: int,
    end: int,
    text: Seq<char>,
    blank: CellSnapshot,
) -> Seq<CellSnapshot>
    decreases text.len(),
{
    if text.len() == 0 {
        cells
    } else {
        let w = glyph_width(text[0]);
        if w == 0 {
            written(cells, at, end, text.skip(1), blank)
        } else if at + w > end {
            cells
        } else {
            let one = cells.update(at, glyph_cell(text[0], w, blank));
            let two = if w == 2 {
                one.update(at + 1, spacer_cell(blank))
            } else {
                one
            };
            written(two, at + w, end, text.skip(1), blank)
        }
    }
}

/// Write `text` into the cells from `from` up to `end`, honoring double-width
/// glyphs: a wide char takes a [`CellFlags::WIDE`] cell plus a trailing
/// [`CellFlags::WIDE_SPACER`], so it never overdraws its neighbor. `blank`
/// supplies the colors; writing stops when the row is full.
pub fn write_row(
    cells: &mut Vec<CellSnapshot>,
    from: usize,
    end: usize,
    text: &[char],
    blank: CellSnapshot,
)
    requires
        from <= end <= old(cells)@.len(),
    ensures
        final(cells)@ == written(old(cells)@, from as int, end as int, text@, blank),
        final(cells)@.len() == old(cells)@.len(),
{
    let ghost all = written(cells@, from as int, end as int, text@, blank);
    let mut col: usize = from;
    let mut i: usize = 0;
    proof {
        assert(text@.skip(0) =~= text@);
    }
    while i < text.len()
        invariant
            i <= text.len(),
            from <= col <= end <= cells@.len(),
            cells@.len() == old(cells)@.len(),
            all == written(old(cells)@, from as int, end as int, text@, blank),
            written(cells@, col as int, end as int, text@.skip(i as int), blank) == all,
        decreases text.len() - i,
    {
        let ch = text[i];
        let w: usize = glyph_cols(ch);
        proof {
            assert(text@.skip(i as int)[0] == ch);
            assert(text@.skip(i as int).skip(1) =~= text@.skip(i + 1));
        }
        if w != 0 {
            if w > end - col {
                return ;
            }
            let mut cell = blank;
            cell.c = ch;
            if w == 2 {
                cell.flags = CellFlags::of(CellFlags::WIDE);
            }
            cells[col] = cell;
            if w == 2 {
                let mut spacer = blank;
                spacer.c = ' ';
                spacer.flags = CellFlags::of(CellFlags::WIDE_SPACER);
                cells[col + 1] = spacer;
            }
            col = col + w;
        }
        i = i + 1;
    }
}

/// Writing leaves every cell outside the range alone.
pub proof fn writing_stays_in_range(
    cells: Seq<CellSnapshot>,
    at: int,
    end: int,
    text: Seq<char>,
    blank: CellSnapshot,
    i: int,
)
    requires
        0 <= at <= end <= cells.len(),
        0 <= i < cells.len(),
        i < at || i >= end,
    ensures
        written(cells, at, end, text, blank).len() == cells.len(),
        written(cells, at, end, text, blank)[i] == cells[i],
    decreases text.len(),
{
    if text.len() > 0 {
        let w = glyph_width(text[0]);
        if w == 0 {
            writing_stays_in_range(cells, at, end, text.skip(1), blank, i);
        } else if at + w <= end {
            let one = cells.update(at, glyph_cell(text[0], w, blank));
            let two = if w == 2 {
                one.update(at + 1, spacer_cell(blank))
            } else {
                one
            };
            writing_stays_in_range(two, at + w, end, text.skip(1), blank, i);
        }
    }
}

/// How many leading characters of `text` fit in `max` columns.
pub open spec fn fit_len(text: Seq<char>, max: int) -> int
    decreases text.len(),
{
    if text.len() == 0 || glyph_width(text[0]) > max {
        0
    } else {
        1 + fit_len(text.skip(1), max - glyph_width(text[0]))
    }
}

/// The length of the longest leading part of `text` whose display width fits in
/// `max` columns (wide glyphs kept whole, never split).
pub fn head_fit(text: &[char], from: usize, max: usize) -> (n: usize)
    requires
        from <= text.len(),
    ensures
        n == fit_len(text@.skip(from as int), max as int),
        from + n <= text.len(),
{
    let ghost t = text@.skip(from as int);
    let mut room: usize = max;
    let mut i: usize = from;
    proof {
        assert(t.skip(0) =~= t);
    }
    while i < text.len()
        invariant
            from <= i <= text.len(),
            t == text@.skip(from as int),
            fit_len(t, max as int) == (i - from) + fit_len(t.skip(i - from), room as int),
        decreases text.len() - i,
    {
        let w: usize = glyph_cols(text[i]);
        proof {
            assert(t.skip(i - from)[0] == text@[i as int]);
            assert(t.skip(i - from).skip(1) =~= t.skip(i + 1 - from));
        }
        if w > room {
            return i - from;
        }
        room = room - w;
        i = i + 1;
    }
    i - from
}

/// What fits is as long as it can be: it takes no more than `max` columns, and
/// with one more character it would.
pub proof fn fit_is_longest(text: Seq<char>, max: int)
    requires
        max >= 0,
    ensures
        0 <= fit_len(text, max) <= text.len(),
        run_width(text.take(fit_len(text, max))) <= max,
        fit_len(text, max) < text.len() ==> run_width(text.take(fit_len(text, max) + 1)) > max,
    decreases text.len(),
{
    let n = fit_len(text, max);
    if text.len() == 0 {
        assert(text.take(0) =~= Seq::empty());
    } else if glyph_width(text[0]) > max {
        assert(text.take(0) =~= Seq::empty());
        assert(text.take(1).drop_last() =~= Seq::empty());
    } else {
        let w = glyph_width(text[0]);
        let t = text.skip(1);
        fit_is_longest(t, max - w);
        run_width_from_front(text, n);
        assert(t.take(n - 1) =~= text.take(n).skip(1));
        if n < text.len() {
            run_width_from_front(text, n + 1);
            assert(t.take(n) =~= text.take(n + 1).skip(1));
        }
    }
}

proof fn run_width_from_front(text: Seq<char>, n: int)
    requires
        1 <= n <= text.len(),
    ensures
        run_width(text.take(n)) == glyph_width(text[0]) + run_width(text.take(n).skip(1)),
    decreases n,
{
    let s = text.take(n);
    if n == 1 {
        assert(s.drop_last() =~= Seq::empty());
        assert(s.skip(1) =~= Seq::empty());
    } else {
        run_width_from_front(text, n - 1);
        assert(s.drop_last() =~= text.take(n - 1));
        assert(s.skip(1).drop_last() =~= text.take(n - 1).skip(1));
    }
}

/// The rows that `text` wraps to at width `cols`, none of them empty; a glyph
/// wider than a whole row ends the wrapping.
pub open spec fn wrap_rest(text: Seq<char>, cols: int) -> Seq<Seq<char>>
    decreases text.len(),
{
    let n = fit_len(text, cols);
    if 0 < n <= text.len() {
        seq![text.take(n)] + wrap_rest(text.skip(n), cols)
    } else {
        Seq::empty()
    }
}

/// The rows of `text` behind a prefix of `prefix_w` columns: the first has what
/// room the prefix leaves (and may be empty), the others the full width.
pub open spec fn wrapped(prefix_w: int, text: Seq<char>, cols: int) -> Seq<Seq<char>> {
    let first = if prefix_w >= cols {
        0
    } else {
        cols - prefix_w
    };
    let n = fit_len(text, first);
    seq![text.take(n)] + wrap_rest(text.skip(n), cols)
}

/// Whether the caret behind the last row spills onto a row of its own: the last
/// row is filled exactly.
pub open spec fn caret_spills(prefix_w: int, text: Seq<char>, cols: int) -> bool {
    let rows = wrapped(prefix_w, text, cols);
    let room = if rows.len() > 1 {
        cols
    } else if prefix_w >= cols {
        0
    } else {
        cols - prefix_w
    };
    rows.last().len() > 0 && text_width(rows.last()) == room
}

/// Soft-wrap `text` across the band's input rows: the first row begins at column
/// `prefix_w` (just past the prompt prefix), the rest span the full `cols`. Returns
/// the rows and whether the caret spills onto a fresh trailing row (the last row
/// filled exactly, so the insertion point wraps). Used for both the reserved
/// height and the rendering, so the two never disagree.
pub fn wrap_chunks(prefix_w: usize, text: &[char], cols: usize) -> (r: (Vec<Vec<char>>, bool))
    ensures
        char_rows(r.0@) == wrapped(prefix_w as int, text@, cols as int),
        r.0@.len() >= 1,
        r.1 == caret_spills(prefix_w as int, text@, cols as int),
        r.0@.len() <= text@.len() + 1,
{
    let first_avail: usize = if prefix_w >= cols {
        0
    } else {
        cols - prefix_w
    };
    proof {
        assert(text@.skip(0) =~= text@);
    }
    let n: usize = head_fit(text, 0, first_avail);
    let mut chunks: Vec<Vec<char>> = Vec::new();
    chunks.push(sub_chars(text, 0, n));
    let ghost all = wrapped(prefix_w as int, text@, cols as int);
    let mut at: usize = n;
    let mut more: bool = true;
    proof {
        assert(text@.subrange(0, n as int) =~= text@.take(n as int));
        assert(char_rows(chunks@) + wrap_rest(text@.skip(n as int), cols as int) =~= all);
    }
    while more && at < text.len()
        invariant
            n <= at <= text.len(),
            all == wrapped(prefix_w as int, text@, cols as int),
            more ==> char_rows(chunks@) + wrap_rest(text@.skip(at as int), cols as int) == all,
            !more ==> char_rows(chunks@) == all,
            1 <= chunks@.len() <= at + 1,
        decreases text.len() - at + (if more { 1int } else { 0 }),
    {
        let h: usize = head_fit(text, at, cols);
        let ghost rest = text@.skip(at as int);
        if h == 0 {
            more = false;
            proof {
                assert(char_rows(chunks@) + Seq::<Seq<char>>::empty() =~= char_rows(chunks@));
            }
        } else {
            let ghost before = char_rows(chunks@);
            chunks.push(sub_chars(text, at, at + h));
            proof {
                assert(text@.subrange(at as int, at + h) =~= rest.take(h as int));
                assert(rest.skip(h as int) =~= text@.skip(at + h));
                assert(char_rows(chunks@) =~= before.push(rest.take(h as int)));
                let tail = wrap_rest(rest.skip(h as int), cols as int);
                assert(before + (seq![rest.take(h as int)] + tail) =~= char_rows(chunks@) + tail);
            }
            at = at + h;
        }
    }
    proof {
        if more {
            assert(text@.skip(at as int).len() == 0);
            assert(char_rows(chunks@) + Seq::<Seq<char>>::empty() =~= char_rows(chunks@));
        }
        assert(all.last() == chunks@[chunks@.len() - 1]@);
    }
    let last = &chunks[chunks.len() - 1];
    let room: usize = if chunks.len() > 1 {
        cols
    } else {
        first_avail
    };
    let spills: bool = if last.len() == 0 {
        false
    } else {
        let s = string_of(last);
        width_of_text(s.as_str()) == room
    };
    (chunks, spills)
}

/// Wrapping drops no text but what follows a glyph wider than a whole row, and
/// keeps every row within the width.
pub proof fn wrapping_keeps_the_text(prefix_w: int, text: Seq<char>, cols: int)
    requires
        0 <= prefix_w,
        0 <= cols,
    ensures
        ({
            let rows = wrapped(prefix_w, text, cols);
            let shown = rows.flatten();
            &&& shown.len() <= text.len()
            &&& shown == text.take(shown.len() as int)
            &&& shown.len() < text.len() ==> glyph_width(text[shown.len() as int]) > cols
            &&& forall|k: int| 0 <= k < rows.len() ==> run_width(#[trigger] rows[k]) <= cols
        }),
{
    let first = if prefix_w >= cols {
        0
    } else {
        cols - prefix_w
    };
    let n = fit_len(text, first);
    fit_is_longest(text, first);
    let tail = wrap_rest(text.skip(n), cols);
    let rows = wrapped(prefix_w, text, cols);
    rest_keeps_the_text(text.skip(n), cols);
    assert(rows.drop_first() =~= tail);
    assert(rows.first() == text.take(n));
    let k = tail.flatten().len() as int;
    assert(rows.flatten() =~= text.take(n) + text.skip(n).take(k));
    assert(rows.flatten() =~= text.take(n + k));
    if n + k < text.len() {
        assert(text.skip(n)[k] == text[n + k]);
    }
    assert forall|i: int| 0 <= i < rows.len() implies run_width(#[trigger] rows[i]) <= cols by {
        if i > 0 {
            assert(rows[i] == tail[i - 1]);
        }
    }
}

proof fn rest_keeps_the_text(text: Seq<char>, cols: int)
    requires
        0 <= cols,
    ensures
        ({
            let rows = wrap_rest(text, cols);
            let shown = rows.flatten();
            &&& shown.len() <= text.len()
            &&& shown == text.take(shown.len() as int)
            &&& shown.len() < text.len() ==> glyph_width(text[shown.len() as int]) > cols
            &&& forall|k: int| 0 <= k < rows.len() ==> run_width(#[trigger] rows[k]) <= cols
        }),
    decreases text.len(),
{
    let n = fit_len(text, cols);
    let rows = wrap_rest(text, cols);
    fit_is_longest(text, cols);
    if n == 0 {
        assert(rows.flatten() =~= Seq::<char>::empty());
        assert(text.take(0) =~= Seq::empty());
        if text.len() > 0 {
            assert(text.take(1).drop_last() =~= Seq::empty());
        }
    } else {
        let tail = wrap_rest(text.skip(n), cols);
        rest_keeps_the_text(text.skip(n), cols);
        assert(rows.drop_first() =~= tail);
        assert(rows.first() == text.take(n));
        let k = tail.flatten().len() as int;
        assert(rows.flatten() =~= text.take(n) + text.skip(n).take(k));
        assert(rows.flatten() =~= text.take(n + k));
        if n + k < text.len() {
            assert(text.skip(n)[k] == text[n + k]);
        }
        assert forall|i: int| 0 <= i < rows.len() implies run_width(#[trigger] rows[i]) <= cols by {
            if i > 0 {
                assert(rows[i] == tail[i - 1]);
            }
        }
    }
}

/// Written text shows in order: each glyph that fits stands behind the columns of those
/// before it, in the given style. A double-width one takes two cells, of which the
/// second shows nothing.
pub proof fn written_glyphs_are_shown(
    cells: Seq<CellSnapshot>,
    at: int,
    end: int,
    text: Seq<char>,
    blank: CellSnapshot,
    k: int,
)
    requires
        0 <= at <= end <= cells.len(),
        0 <= k < text.len(),
        glyph_width(text[k]) > 0,
        at + run_width(text.take(k + 1)) <= end,
    ensures
        ({
            let row = written(cells, at, end, text, blank);
            let i = at + run_width(text.take(k));
            let wide = glyph_width(text[k]) == 2;
            &&& row[i].c == text[k]
            &&& row[i].fg == blank.fg && row[i].bg == blank.bg
            &&& row[i].flags == if wide {
                CellFlags { bits: CellFlags::WIDE }
            } else {
                blank.flags
            }
            &&& wide ==> row[i + 1] == (CellSnapshot {
                c: ' ',
                flags: CellFlags { bits: CellFlags::WIDE_SPACER },
                ..blank
            })
        }),
    decreases text.len(),
{
    let w = glyph_width(text[0]);
    let rest = text.skip(1);
    run_width_from_front(text, k + 1);
    assert(text.take(k + 1).skip(1) =~= rest.take(k));
    let one = cells.update(at, glyph_cell(text[0], w, blank));
    let two = if w == 2 {
        one.update(at + 1, spacer_cell(blank))
    } else {
        one
    };
    if k == 0 {
        assert(text.take(0) =~= Seq::empty());
        writing_stays_in_range(two, at + w, end, rest, blank, at);
        if w == 2 {
            writing_stays_in_range(two, at + w, end, rest, blank, at + 1);
        }
    } else {
        run_width_from_front(text, k);
        assert(text.take(k).skip(1) =~= rest.take(k - 1));
        assert(rest[k - 1] == text[k]);
        if w == 0 {
            written_glyphs_are_shown(cells, at, end, rest, blank, k - 1);
        } else {
            written_glyphs_are_shown(two, at + w, end, rest, blank, k - 1);
        }
    }
}

/// Writing stops at the first glyph that does not fit: nothing behind it is changed.
pub proof fn writing_stops_when_full(
    cells: Seq<CellSnapshot>,
    at: int,
    end: int,
    text: Seq<char>,
    blank: CellSnapshot,
    k: int,
)
    requires
        0 <= at <= end <= cells.len(),
        0 <= k < text.len(),
        glyph_width(text[k]) > 0,
        at + run_width(text.take(k)) <= end,
        at + run_width(text.take(k + 1)) > end,
    ensures
        written(cells, at, end, text, blank) == written(cells, at, end, text.take(k), blank),
    decreases text.len(),
{
    let w = glyph_width(text[0]);
    let rest = text.skip(1);
    run_width_from_front(text, k + 1);
    assert(text.take(k + 1).skip(1) =~= rest.take(k));
    if k == 0 {
        assert(rest.take(0) =~= Seq::empty());
        assert(text.take(0) =~= Seq::empty());
    } else {
        run_width_from_front(text, k);
        assert(text.take(k).skip(1) =~= rest.take(k - 1));
        assert(rest[k - 1] == text[k]);
        assert(text.take(k)[0] == text[0]);
        assert(run_width(rest.take(k)) >= run_width(rest.take(k - 1))) by {
            assert(rest.take(k).drop_last() =~= rest.take(k - 1));
        }
        let one = cells.update(at, glyph_cell(text[0], w, blank));
        let two = if w == 2 {
            one.update(at + 1, spacer_cell(blank))
        } else {
            one
        };
        if w == 0 {
            writing_stops_when_full(cells, at, end, rest, blank, k - 1);
        } else {
            writing_stops_when_full(two, at + w, end, rest, blank, k - 1);
        }
    }
}

/// Wrapped rows are as long as they can be: with the next row's first character, a row
/// would be wider than its room. That is the full width, for the first row less the
/// prefix.
pub proof fn wrapped_rows_are_filled(prefix_w: int, text: Seq<char>, cols: int, k: int)
    requires
        0 <= prefix_w <= cols,
        0 <= k < wrapped(prefix_w, text, cols).len() - 1,
    ensures
        ({
            let rows = wrapped(prefix_w, text, cols);
            let room = if k == 0 {
                cols - prefix_w
            } else {
                cols
            };
            &&& run_width(rows[k]) <= room
            &&& rows[k + 1].len() > 0
            &&& run_width(rows[k].push(rows[k + 1][0])) > room
        }),
{
    let n = fit_len(text, cols - prefix_w);
    let rows = wrapped(prefix_w, text, cols);
    let tail = wrap_rest(text.skip(n), cols);
    fit_is_longest(text, cols - prefix_w);
    if k == 0 {
        let t = text.skip(n);
        fit_is_longest(t, cols);
        assert(rows[1] == tail[0]);
        assert(tail[0] == t.take(fit_len(t, cols)));
        assert(rows[0].push(rows[1][0]) =~= text.take(n + 1));
    } else {
        rest_rows_are_filled(text.skip(n), cols, k - 1);
        assert(rows[k] == tail[k - 1]);
        assert(rows[k + 1] == tail[k]);
    }
}

proof fn rest_rows_are_filled(text: Seq<char>, cols: int, k: int)
    requires
        0 <= cols,
        0 <= k < wrap_rest(text, cols).len() - 1,
    ensures
        ({
            let rows = wrap_rest(text, cols);
            &&& run_width(rows[k]) <= cols
            &&& rows[k + 1].len() > 0
            &&& run_width(rows[k].push(rows[k + 1][0])) > cols
        }),
    decreases text.len(),
{
    let n = fit_len(text, cols);
    let rows = wrap_rest(text, cols);
    let t = text.skip(n);
    let tail = wrap_rest(t, cols);
    fit_is_longest(text, cols);
    fit_is_longest(t, cols);
    if k == 0 {
        assert(rows[1] == tail[0]);
        assert(tail[0] == t.take(fit_len(t, cols)));
        assert(rows[0].push(rows[1][0]) =~= text.take(n + 1));
    } else {
        rest_rows_are_filled(t, cols, k - 1);
        assert(rows[k] == tail[k - 1]);
        assert(rows[k + 1] == tail[k]);
    }
}

/// The caret has a row of its own exactly where the last row, with the prefix if it is
/// the only one, fills the width.
pub proof fn the_caret_spills_when_full(prefix_w: int, text: Seq<char>, cols: int)
    requires
        0 <= prefix_w < cols,
    ensures
        ({
            let rows = wrapped(prefix_w, text, cols);
            let taken = text_width(rows.last()) + if rows.len() == 1 {
                prefix_w
            } else {
                0
            };
            caret_spills(prefix_w, text, cols) <==> rows.last().len() > 0 && taken == cols
        }),
{
}

} // verus!
