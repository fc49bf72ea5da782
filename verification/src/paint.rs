//! What a frame draws, in cells: the solid quads and the styled text of the grid,
//! the sticky header and the overlay. A renderer only turns cells into pixels.

use vstd::prelude::*;
use vstd::utf8::encode_utf8;
use crate::color::Rgba;
use crate::overlay::Overlay;
use crate::snapshot::{CellFlags, CellSnapshot, CursorShape, GridSnapshot, RowDecor, blank_cell};
use crate::text::chars_of;

verus! {

/// A solid shape to draw.
#[derive(Clone, Copy, Debug, PartialEq, Eq, Structural)]
pub enum Quad {
    /// One whole cell.
    Cell { col: u16, row: u16, color: Rgba },
    /// The full width of the window along a row.
    Wash { line: usize, color: Rgba },
    /// The exit-code stripe in the left gutter along a row.
    Stripe { line: usize, color: Rgba },
    /// The hairline between blocks, above a row.
    Rule { line: usize, color: Rgba },
    /// The band behind the sticky header, over the top row.
    StickyBand { color: Rgba },
    /// The hairline below the sticky header.
    StickyRule { color: Rgba },
    /// The exit-code stripe beside the sticky header.
    StickyStripe { color: Rgba },
    /// The cursor.
    Cursor { col: u16, row: u16, shape: CursorShape, color: Rgba },
    /// The overlay's panel, this many rows tall.
    Panel { rows: u16, color: Rgba },
    /// The overlay's highlighted row.
    Highlight { line: usize, color: Rgba },
    /// A thin bar where the next character of the query will land.
    Caret { at: usize, color: Rgba },
    /// The hairline along the bottom of the panel.
    PanelRule { rows: u16, color: Rgba },
}

/// The layers that paint single cells.
#[derive(Clone, Copy, Debug, PartialEq, Eq, Structural)]
pub enum CellLayer {
    /// Backgrounds other than the default.
    Background,
    /// The selection.
    Selection,
}

/// The color in which a layer paints a cell, if it does.
pub open spec fn layer_color(s: GridSnapshot, layer: CellLayer, cell: CellSnapshot) -> Option<Rgba> {
    match layer {
        CellLayer::Background => if cell.bg != s.background {
            Some(cell.bg)
        } else {
            None
        },
        CellLayer::Selection => if cell.flags.has(CellFlags::SELECTED) {
            Some(s.selection_color)
        } else {
            None
        },
    }
}

/// The cell of a snapshot, where it has one.
pub open spec fn snap_cell(s: GridSnapshot, col: int, row: int) -> Option<CellSnapshot> {
    if col < s.cols && row < s.rows && row * s.cols + col < s.cells@.len() {
        Some(s.cells@[row * s.cols + col])
    } else {
        None
    }
}

/// The quads of a layer in the first `n` cells of a row.
pub open spec fn row_quads(s: GridSnapshot, layer: CellLayer, row: int, n: int) -> Seq<Quad>
    decreases n,
{
    if n <= 0 {
        Seq::empty()
    } else {
        let before = row_quads(s, layer, row, n - 1);
        match snap_cell(s, n - 1, row) {
            Some(cell) => match layer_color(s, layer, cell) {
                Some(color) => before.push(
                    Quad::Cell { col: (n - 1) as u16, row: row as u16, color },
                ),
                None => before,
            },
            None => before,
        }
    }
}

/// The quads of a layer in the first `n` rows, row by row.
pub open spec fn layer_quads(s: GridSnapshot, layer: CellLayer, n: int) -> Seq<Quad>
    decreases n,
{
    if n <= 0 {
        Seq::empty()
    } else {
        layer_quads(s, layer, n - 1) + row_quads(s, layer, n - 1, s.cols as int)
    }
}

/// Whether a row belongs to a block that failed.
pub open spec fn failed_row(d: RowDecor) -> bool {
    d.failed && d.block_id != 0
}

/// The wash over the failed ones of the first `n` rows.
pub open spec fn wash_quads(s: GridSnapshot, n: int) -> Seq<Quad>
    decreases n,
{
    if n <= 0 {
        Seq::empty()
    } else if failed_row(s.rows_decor@[n - 1]) {
        wash_quads(s, n - 1).push(Quad::Wash { line: (n - 1) as usize, color: s.block_tint })
    } else {
        wash_quads(s, n - 1)
    }
}

/// Whether a rule is drawn above a row: at the top of every block but on row 0,
/// where there is nothing above to divide it from.
pub open spec fn has_rule(decor: Seq<RowDecor>, row: int) -> bool {
    row > 0 && decor[row].block_top
}

/// The stripe beside a row, where its block failed.
pub open spec fn stripe_quad(s: GridSnapshot, row: int) -> Seq<Quad> {
    if failed_row(s.rows_decor@[row]) {
        seq![Quad::Stripe { line: row as usize, color: s.block_stripe }]
    } else {
        Seq::empty()
    }
}

/// The rule above a row, where it has one.
pub open spec fn rule_quad(s: GridSnapshot, row: int) -> Seq<Quad> {
    if has_rule(s.rows_decor@, row) {
        seq![Quad::Rule { line: row as usize, color: s.block_separator }]
    } else {
        Seq::empty()
    }
}

/// The stripes and rules of the first `n` rows.
pub open spec fn gutter_quads(s: GridSnapshot, n: int) -> Seq<Quad>
    decreases n,
{
    if n <= 0 {
        Seq::empty()
    } else {
        gutter_quads(s, n - 1) + stripe_quad(s, n - 1) + rule_quad(s, n - 1)
    }
}

/// The band of the sticky header, where there is one and no overlay covers it.
pub open spec fn sticky_quads(s: GridSnapshot, overlay_open: bool) -> Seq<Quad> {
    match s.sticky {
        Some(h) => if overlay_open {
            Seq::empty()
        } else {
            let band = seq![
                Quad::StickyBand { color: s.background },
                Quad::StickyRule { color: s.block_separator },
            ];
            if h.failed {
                band.push(Quad::StickyStripe { color: s.block_stripe })
            } else {
                band
            }
        },
        None => Seq::empty(),
    }
}

/// The cursor, unless it is hidden.
pub open spec fn cursor_quads(s: GridSnapshot) -> Seq<Quad> {
    match s.cursor {
        Some(c) => if c.shape == CursorShape::Hidden {
            Seq::empty()
        } else {
            seq![Quad::Cursor { col: c.col, row: c.row, shape: c.shape, color: c.color }]
        },
        None => Seq::empty(),
    }
}

/// The quads of a frame, in the order they are painted: cell backgrounds, the wash
/// over failed blocks, the selection, stripes and rules, the sticky header, and
/// the cursor.
pub open spec fn frame_quads(s: GridSnapshot, overlay_open: bool) -> Seq<Quad> {
    layer_quads(s, CellLayer::Background, s.rows as int) + wash_quads(
        s,
        s.rows_decor@.len() as int,
    ) + layer_quads(s, CellLayer::Selection, s.rows as int) + gutter_quads(
        s,
        s.rows_decor@.len() as int,
    ) + sticky_quads(s, overlay_open) + cursor_quads(s)
}

/// Whether to draw a block-separator rule above `row`.
///
/// Drawn at the top of every command block (a `block_top` row), so each block —
/// including the live prompt's, which sits below the bottom-anchor padding — has
/// a consistent top delimiter from the moment its prompt appears, rather than the
/// rule popping in only once a second block exists. Skipped on row 0, where there
/// is nothing above to divide it from.
pub fn separator_above(rows_decor: &[RowDecor], row: usize) -> (b: bool)
    requires
        row < rows_decor@.len(),
    ensures
        b == has_rule(rows_decor@, row as int),
{
    row > 0 && rows_decor[row].block_top
}

fn layer_color_of(s: &GridSnapshot, layer: CellLayer, cell: &CellSnapshot) -> (c: Option<Rgba>)
    ensures
        c == layer_color(*s, layer, *cell),
{
    match layer {
        CellLayer::Background => if cell.bg != s.background {
            Some(cell.bg)
        } else {
            None
        },
        CellLayer::Selection => if cell.flags.contains(CellFlags::SELECTED) {
            Some(s.selection_color)
        } else {
            None
        },
    }
}

fn push_layer(s: &GridSnapshot, layer: CellLayer, out: &mut Vec<Quad>)
    ensures
        final(out)@ == old(out)@ + layer_quads(*s, layer, s.rows as int),
{
    let ghost start = out@;
    let mut row: u16 = 0;
    proof {
        assert(start + layer_quads(*s, layer, 0) =~= start);
    }
    while row < s.rows
        invariant
            row <= s.rows,
            out@ == start + layer_quads(*s, layer, row as int),
        decreases s.rows - row,
    {
        let ghost above = out@;
        let mut col: u16 = 0;
        proof {
            assert(above + row_quads(*s, layer, row as int, 0) =~= above);
        }
        while col < s.cols
            invariant
                row < s.rows,
                col <= s.cols,
                out@ == above + row_quads(*s, layer, row as int, col as int),
            decreases s.cols - col,
        {
            if let Some(cell) = s.cell(col, row) {
                if let Some(color) = layer_color_of(s, layer, cell) {
                    out.push(Quad::Cell { col, row, color });
                }
            }
            proof {
                assert(out@ =~= above + row_quads(*s, layer, row as int, col + 1));
            }
            col = col + 1;
        }
        proof {
            assert(out@ =~= start + layer_quads(*s, layer, row + 1));
        }
        row = row + 1;
    }
}

/// Build the solid quads of a frame.
pub fn build_rects(s: &GridSnapshot, overlay_open: bool) -> (out: Vec<Quad>)
    ensures
        out@ == frame_quads(*s, overlay_open),
{
    let mut out: Vec<Quad> = Vec::new();
    push_layer(s, CellLayer::Background, &mut out);
    let n: usize = s.rows_decor.len();
    // Failed-block background wash (translucent, over the cell backgrounds). A
    // blank top-padding row carries no block and is never failed.
    let ghost a = out@;
    let mut r: usize = 0;
    proof {
        assert(a + wash_quads(*s, 0) =~= a);
    }
    while r < n
        invariant
            r <= n,
            n == s.rows_decor@.len(),
            out@ == a + wash_quads(*s, r as int),
        decreases n - r,
    {
        if s.rows_decor[r].failed && s.rows_decor[r].block_id != 0 {
            out.push(Quad::Wash { line: r, color: s.block_tint });
        }
        proof {
            assert(out@ =~= a + wash_quads(*s, r + 1));
        }
        r = r + 1;
    }
    // Selection, painted over the wash.
    push_layer(s, CellLayer::Selection, &mut out);
    // Exit-code stripe in the left gutter + a hairline rule between blocks.
    let ghost b = out@;
    let mut r: usize = 0;
    proof {
        assert(b + gutter_quads(*s, 0) =~= b);
    }
    while r < n
        invariant
            r <= n,
            n == s.rows_decor@.len(),
            out@ == b + gutter_quads(*s, r as int),
        decreases n - r,
    {
        if s.rows_decor[r].failed && s.rows_decor[r].block_id != 0 {
            out.push(Quad::Stripe { line: r, color: s.block_stripe });
        }
        if separator_above(&s.rows_decor, r) {
            out.push(Quad::Rule { line: r, color: s.block_separator });
        }
        proof {
            assert(out@ =~= b + gutter_quads(*s, r + 1));
        }
        r = r + 1;
    }
    // Sticky command header: an opaque band over row 0 with a bottom rule. An open
    // overlay covers the same rows, so skip it then.
    let ghost c = out@;
    if let Some(sticky) = &s.sticky {
        if !overlay_open {
            out.push(Quad::StickyBand { color: s.background });
            out.push(Quad::StickyRule { color: s.block_separator });
            if sticky.failed {
                out.push(Quad::StickyStripe { color: s.block_stripe });
            }
        }
    }
    proof {
        assert(out@ =~= c + sticky_quads(*s, overlay_open));
    }
    let ghost d = out@;
    if let Some(cur) = s.cursor {
        if cur.shape != CursorShape::Hidden {
            out.push(Quad::Cursor { col: cur.col, row: cur.row, shape: cur.shape, color: cur.color });
        }
    }
    proof {
        assert(out@ =~= d + cursor_quads(*s));
    }
    out
}

/// How a run of text is drawn.
#[derive(Clone, Copy, Debug, PartialEq, Eq, Structural)]
pub struct TextStyle {
    pub fg: Rgba,
    pub bold: bool,
    pub italic: bool,
}

/// A run of text in one style.
#[derive(Clone, Debug, PartialEq, Eq)]
pub struct TextRun {
    pub text: String,
    pub style: TextStyle,
}

/// A glyph of the frame: its character and style, and whether a run begins with
/// it in any case.
pub ghost struct Glyph {
    pub c: char,
    pub style: TextStyle,
    pub fresh: bool,
}

/// A run in mathematical terms.
pub ghost struct RunView {
    pub text: Seq<char>,
    pub style: TextStyle,
}

/// Runs as views.
pub open spec fn run_views(runs: Seq<TextRun>) -> Seq<RunView> {
    runs.map_values(|r: TextRun| RunView { text: r.text@, style: r.style })
}

/// The plain style.
pub open spec fn plain_style(fg: Rgba) -> TextStyle {
    TextStyle { fg, bold: false, italic: false }
}

/// The glyph of one cell. The rows above `blank_rows` are blanked, so that they do
/// not show under what is drawn over them; the glyph under a block cursor is in
/// the cursor's text color.
pub open spec fn cell_glyph(s: GridSnapshot, default_fg: Rgba, blank_rows: u16, col: int, row: int) -> Glyph {
    let cell = match snap_cell(s, col, row) {
        Some(c) => c,
        None => blank_cell(default_fg, s.background),
    };
    let under = match s.cursor {
        Some(c) => c.shape == CursorShape::Block && c.col == col && c.row == row,
        None => false,
    };
    Glyph {
        c: if row < blank_rows || cell.c == '\0' {
            ' '
        } else {
            cell.c
        },
        style: TextStyle {
            fg: if under {
                s.cursor->0.text_color
            } else {
                cell.fg
            },
            bold: cell.flags.has(CellFlags::BOLD),
            italic: cell.flags.has(CellFlags::ITALIC),
        },
        fresh: false,
    }
}

/// The end of a row: a line feed in a run of its own.
pub open spec fn line_end(default_fg: Rgba) -> Glyph {
    Glyph { c: '\n', style: plain_style(default_fg), fresh: true }
}

/// The first `n` glyphs of a row.
pub open spec fn row_glyphs(s: GridSnapshot, default_fg: Rgba, blank_rows: u16, row: int, n: int) -> Seq<Glyph> {
    Seq::new(n as nat, |c: int| cell_glyph(s, default_fg, blank_rows, c, row))
}

/// The glyphs of the first `n` rows, each with its line feed.
pub open spec fn frame_glyphs(s: GridSnapshot, default_fg: Rgba, blank_rows: u16, n: int) -> Seq<Glyph>
    decreases n,
{
    if n <= 0 {
        Seq::empty()
    } else {
        frame_glyphs(s, default_fg, blank_rows, n - 1) + row_glyphs(
            s,
            default_fg,
            blank_rows,
            n - 1,
            s.cols as int,
        ).push(line_end(default_fg))
    }
}

/// Runs with one more glyph: it joins the last run where that has its style and it
/// need not begin a new one.
pub open spec fn joined(runs: Seq<RunView>, g: Glyph) -> Seq<RunView> {
    if !g.fresh && runs.len() > 0 && runs.last().style == g.style {
        runs.drop_last().push(RunView { text: runs.last().text.push(g.c), style: g.style })
    } else {
        runs.push(RunView { text: seq![g.c], style: g.style })
    }
}

/// The runs of a sequence of glyphs.
pub open spec fn runs_of(glyphs: Seq<Glyph>) -> Seq<RunView>
    decreases glyphs.len(),
{
    if glyphs.len() == 0 {
        Seq::empty()
    } else {
        joined(runs_of(glyphs.drop_last()), glyphs.last())
    }
}

fn push_glyph(runs: &mut Vec<TextRun>, c: char, style: TextStyle, fresh: bool)
    ensures
        run_views(final(runs)@) == joined(run_views(old(runs)@), Glyph { c, style, fresh }),
{
    let ghost before = run_views(runs@);
    let n: usize = runs.len();
    proof {
        if n > 0 {
            assert(before.last() == run_views(runs@)[n - 1]);
        }
    }
    if !fresh && n > 0 && runs[n - 1].style == style {
        if let Some(mut run) = runs.pop() {
            let ghost head = run_views(runs@);
            run.text.push(c);
            runs.push(run);
            proof {
                assert(head =~= before.drop_last());
                assert(run_views(runs@) =~= head.push(RunView { text: run.text@, style: run.style }));
            }
        }
    } else {
        let mut text = String::new();
        text.push(c);
        proof {
            assert(text@ =~= seq![c]);
        }
        let run = TextRun { text, style };
        runs.push(run);
        proof {
            assert(run_views(runs@) =~= before.push(RunView { text: run.text@, style: run.style }));
        }
    }
}

/// Build the grid's text as styled runs: every row's glyphs, then a line feed.
pub fn build_text(s: &GridSnapshot, default_fg: Rgba, blank_rows: u16) -> (runs: Vec<TextRun>)
    ensures
        run_views(runs@) == runs_of(frame_glyphs(*s, default_fg, blank_rows, s.rows as int)),
{
    let mut runs: Vec<TextRun> = Vec::new();
    let fallback = CellSnapshot::blank(default_fg, s.background);
    let mut row: u16 = 0;
    proof {
        assert(run_views(runs@) =~= Seq::empty());
    }
    while row < s.rows
        invariant
            row <= s.rows,
            fallback == blank_cell(default_fg, s.background),
            run_views(runs@) == runs_of(frame_glyphs(*s, default_fg, blank_rows, row as int)),
        decreases s.rows - row,
    {
        let ghost above = frame_glyphs(*s, default_fg, blank_rows, row as int);
        let mut col: u16 = 0;
        proof {
            assert(above + row_glyphs(*s, default_fg, blank_rows, row as int, 0) =~= above);
        }
        while col < s.cols
            invariant
                row < s.rows,
                col <= s.cols,
                fallback == blank_cell(default_fg, s.background),
                run_views(runs@) == runs_of(
                    above + row_glyphs(*s, default_fg, blank_rows, row as int, col as int),
                ),
            decreases s.cols - col,
        {
            let cell = match s.cell(col, row) {
                Some(c) => *c,
                None => fallback,
            };
            let mut fg = cell.fg;
            if let Some(cur) = s.cursor {
                if cur.shape == CursorShape::Block && cur.col == col && cur.row == row {
                    fg = cur.text_color;
                }
            }
            let style = TextStyle {
                fg,
                bold: cell.flags.contains(CellFlags::BOLD),
                italic: cell.flags.contains(CellFlags::ITALIC),
            };
            let ch = if row < blank_rows || cell.c == '\0' {
                ' '
            } else {
                cell.c
            };
            proof {
                let now = above + row_glyphs(*s, default_fg, blank_rows, row as int, col as int);
                let next = above + row_glyphs(*s, default_fg, blank_rows, row as int, col + 1);
                let g = Glyph { c: ch, style, fresh: false };
                assert(g == cell_glyph(*s, default_fg, blank_rows, col as int, row as int));
                assert(next.drop_last() =~= now);
                assert(next.last() == g);
            }
            push_glyph(&mut runs, ch, style, false);
            col = col + 1;
        }
        proof {
            let now = above + row_glyphs(*s, default_fg, blank_rows, row as int, s.cols as int);
            let next = frame_glyphs(*s, default_fg, blank_rows, row + 1);
            assert(next.drop_last() =~= now);
            assert(next.last() == line_end(default_fg));
        }
        push_glyph(
            &mut runs,
            '\n',
            TextStyle { fg: default_fg, bold: false, italic: false },
            true,
        );
        row = row + 1;
    }
    runs
}

/// The characters of a sequence of glyphs.
pub open spec fn glyph_text(glyphs: Seq<Glyph>) -> Seq<char> {
    glyphs.map_values(|g: Glyph| g.c)
}

/// The texts of runs, one after the other.
pub open spec fn run_text(runs: Seq<RunView>) -> Seq<char>
    decreases runs.len(),
{
    if runs.len() == 0 {
        Seq::empty()
    } else {
        run_text(runs.drop_last()) + runs.last().text
    }
}

/// The runs hold exactly the glyphs, in order: nothing is lost or repeated.
pub proof fn runs_hold_the_text(glyphs: Seq<Glyph>)
    ensures
        run_text(runs_of(glyphs)) == glyph_text(glyphs),
    decreases glyphs.len(),
{
    if glyphs.len() == 0 {
        assert(run_text(runs_of(glyphs)) =~= glyph_text(glyphs));
    } else {
        runs_hold_the_text(glyphs.drop_last());
        let before = runs_of(glyphs.drop_last());
        let all = runs_of(glyphs);
        let g = glyphs.last();
        if !g.fresh && before.len() > 0 && before.last().style == g.style {
            assert(all.drop_last() =~= before.drop_last());
        } else {
            assert(all.drop_last() =~= before);
        }
        assert(run_text(all) =~= run_text(before).push(g.c));
        assert(glyph_text(glyphs) =~= glyph_text(glyphs.drop_last()).push(g.c));
    }
}

/// Geometry of the overlay panel for one frame.
#[derive(Clone, Copy, Debug, PartialEq, Eq, Structural)]
pub struct OverlayLayout {
    /// Grid rows the panel occupies: the query row, the visible items, and a row
    /// that says so where nothing matches.
    pub panel_rows: u16,
    /// Number of items shown.
    pub visible: usize,
}

/// Most list rows that the overlay shows.
pub const MAX_OVERLAY_ROWS: u16 = 12;

/// How many list rows fit: one query row plus a capped list, with a little
/// headroom at the bottom.
pub open spec fn capacity_for(grid_rows: u16) -> int {
    if grid_rows <= 2 {
        0
    } else if grid_rows - 2 < MAX_OVERLAY_ROWS {
        grid_rows - 2
    } else {
        MAX_OVERLAY_ROWS as int
    }
}

/// How many list rows the overlay can show on a grid of this height.
pub fn overlay_capacity(grid_rows: u16) -> (n: usize)
    ensures
        n == capacity_for(grid_rows),
{
    if grid_rows <= 2 {
        0
    } else if grid_rows - 2 < MAX_OVERLAY_ROWS {
        (grid_rows - 2) as usize
    } else {
        MAX_OVERLAY_ROWS as usize
    }
}

/// The overlay panel's layout.
pub open spec fn layout_for(ov: Overlay, grid_rows: u16) -> OverlayLayout {
    let visible = if ov.items@.len() < capacity_for(grid_rows) {
        ov.items@.len() as int
    } else {
        capacity_for(grid_rows)
    };
    OverlayLayout {
        panel_rows: (1 + visible + (if ov.no_matches {
            1int
        } else {
            0
        })) as u16,
        visible: visible as usize,
    }
}

/// Compute the overlay panel's row count and how many items are shown.
pub fn overlay_layout(ov: &Overlay, grid_rows: u16) -> (l: OverlayLayout)
    ensures
        l == layout_for(*ov, grid_rows),
        l.visible <= ov.items@.len(),
        l.visible <= MAX_OVERLAY_ROWS,
{
    let capacity: usize = overlay_capacity(grid_rows);
    let visible: usize = if ov.items.len() < capacity {
        ov.items.len()
    } else {
        capacity
    };
    let extra: u16 = if ov.no_matches {
        1
    } else {
        0
    };
    OverlayLayout { panel_rows: 1 + visible as u16 + extra, visible }
}

/// The quads of the overlay: panel, highlighted row, query caret, bottom rule.
pub open spec fn overlay_quads(ov: Overlay, l: OverlayLayout) -> Seq<Quad> {
    let panel = seq![Quad::Panel { rows: l.panel_rows, color: ov.colors.panel_bg }];
    let highlight = match ov.selected_visible {
        Some(s) => if s < l.visible {
            seq![Quad::Highlight { line: (1 + s) as usize, color: ov.colors.sel_bg }]
        } else {
            Seq::empty()
        },
        None => Seq::empty(),
    };
    panel + highlight + seq![
        Quad::Caret { at: ov.query_caret_col, color: ov.colors.accent },
        Quad::PanelRule { rows: l.panel_rows, color: ov.colors.accent },
    ]
}

/// Append the overlay's solid quads: panel, selection highlight, query cursor,
/// bottom rule.
pub fn append_overlay_rects(out: &mut Vec<Quad>, ov: &Overlay, l: OverlayLayout)
    ensures
        final(out)@ == old(out)@ + overlay_quads(*ov, l),
{
    out.push(Quad::Panel { rows: l.panel_rows, color: ov.colors.panel_bg });
    if let Some(s) = ov.selected_visible {
        if s < l.visible {
            out.push(Quad::Highlight { line: 1 + s, color: ov.colors.sel_bg });
        }
    }
    out.push(Quad::Caret { at: ov.query_caret_col, color: ov.colors.accent });
    out.push(Quad::PanelRule { rows: l.panel_rows, color: ov.colors.accent });
    proof {
        assert(out@ =~= old(out)@ + overlay_quads(*ov, l));
    }
}

/// A piece of styled text.
pub ghost struct Piece {
    pub text: Seq<char>,
    pub color: Rgba,
    pub bold: bool,
}

/// The pieces' texts, one after the other.
pub open spec fn pieces_text(pieces: Seq<Piece>) -> Seq<char>
    decreases pieces.len(),
{
    if pieces.len() == 0 {
        Seq::empty()
    } else {
        pieces_text(pieces.drop_last()) + pieces.last().text
    }
}

/// The byte ranges and styles of the pieces that are not empty.
pub open spec fn pieces_spans(pieces: Seq<Piece>) -> Seq<(int, int, Rgba, bool)>
    decreases pieces.len(),
{
    if pieces.len() == 0 {
        Seq::empty()
    } else {
        let before = pieces_spans(pieces.drop_last());
        let p = pieces.last();
        if p.text.len() == 0 {
            before
        } else {
            before.push(
                (
                    encode_utf8(pieces_text(pieces.drop_last())).len() as int,
                    encode_utf8(pieces_text(pieces)).len() as int,
                    p.color,
                    p.bold,
                ),
            )
        }
    }
}

/// Spans as integers.
pub open spec fn span_views(spans: Seq<(usize, usize, Rgba, bool)>) -> Seq<(int, int, Rgba, bool)> {
    spans.map_values(|s: (usize, usize, Rgba, bool)| (s.0 as int, s.1 as int, s.2, s.3))
}

/// Append a styled run to `text`/`spans`, skipping empty segments.
pub fn push_span(
    text: &mut String,
    spans: &mut Vec<(usize, usize, Rgba, bool)>,
    s: &str,
    color: Rgba,
    bold: bool,
)
    ensures
        final(text)@ == old(text)@ + s@,
        span_views(final(spans)@) == if s@.len() == 0 {
            span_views(old(spans)@)
        } else {
            span_views(old(spans)@).push(
                (
                    encode_utf8(old(text)@).len() as int,
                    encode_utf8(old(text)@ + s@).len() as int,
                    color,
                    bold,
                ),
            )
        },
{
    if chars_of(s).len() == 0 {
        proof {
            assert(old(text)@ + s@ =~= old(text)@);
        }
        return ;
    }
    let ghost before = span_views(spans@);
    let start: usize = text.as_str().as_bytes().len();
    text.append(s);
    let end: usize = text.as_str().as_bytes().len();
    spans.push((start, end, color, bold));
    proof {
        assert(span_views(spans@) =~= before.push((start as int, end as int, color, bold)));
    }
}

/// The text and spans after one more piece.
proof fn one_more_piece(pieces: Seq<Piece>, p: Piece)
    ensures
        pieces_text(pieces.push(p)) == pieces_text(pieces) + p.text,
        pieces_spans(pieces.push(p)) == if p.text.len() == 0 {
            pieces_spans(pieces)
        } else {
            pieces_spans(pieces).push(
                (
                    encode_utf8(pieces_text(pieces)).len() as int,
                    encode_utf8(pieces_text(pieces) + p.text).len() as int,
                    p.color,
                    p.bold,
                ),
            )
        },
{
    assert(pieces.push(p).drop_last() =~= pieces);
}

/// The pieces of the query line.
pub open spec fn query_pieces(ov: Overlay) -> Seq<Piece> {
    seq![
        Piece { text: ov.prompt@, color: ov.colors.accent, bold: true },
        Piece { text: " "@, color: ov.colors.fg, bold: false },
        if ov.query@.len() == 0 {
            Piece { text: "type to search\u{2026}"@, color: ov.colors.dim, bold: false }
        } else {
            Piece { text: ov.query@, color: ov.colors.fg, bold: false }
        },
    ]
}

/// The pieces of one list row: its label, bold where it is highlighted, and its
/// detail, dimmed.
pub open spec fn item_pieces(ov: Overlay, i: int) -> Seq<Piece> {
    let item = ov.items@[i];
    let row = seq![
        Piece { text: "\n"@, color: ov.colors.fg, bold: false },
        Piece { text: "  "@, color: ov.colors.fg, bold: false },
        Piece { text: item.label@, color: ov.colors.fg, bold: ov.selected_visible == Some(i as usize) },
    ];
    match item.detail {
        Some(d) => row.push(Piece { text: "  "@, color: ov.colors.dim, bold: false }).push(
            Piece { text: d@, color: ov.colors.dim, bold: false },
        ),
        None => row,
    }
}

/// The pieces of the first `n` list rows.
pub open spec fn list_pieces(ov: Overlay, n: int) -> Seq<Piece>
    decreases n,
{
    if n <= 0 {
        Seq::empty()
    } else {
        list_pieces(ov, n - 1) + item_pieces(ov, n - 1)
    }
}

/// The row that says that nothing matches.
pub open spec fn no_match_pieces(ov: Overlay) -> Seq<Piece> {
    if ov.no_matches {
        seq![
            Piece { text: "\n"@, color: ov.colors.fg, bold: false },
            Piece { text: "  no matches"@, color: ov.colors.dim, bold: false },
        ]
    } else {
        Seq::empty()
    }
}

/// The pieces of the overlay: the query line, the list rows, and the row that says
/// that nothing matches.
pub open spec fn overlay_pieces(ov: Overlay, visible: int) -> Seq<Piece> {
    query_pieces(ov) + list_pieces(ov, visible) + no_match_pieces(ov)
}

/// Text that is built up piece by piece.
struct Spans {
    text: String,
    spans: Vec<(usize, usize, Rgba, bool)>,
}

impl Spans {
    spec fn holds(&self, pieces: Seq<Piece>) -> bool {
        &&& self.text@ == pieces_text(pieces)
        &&& span_views(self.spans@) == pieces_spans(pieces)
    }

    fn add_piece(&mut self, s: &str, color: Rgba, bold: bool, Ghost(pieces): Ghost<Seq<Piece>>)
        requires
            old(self).holds(pieces),
        ensures
            final(self).holds(pieces.push(Piece { text: s@, color, bold })),
    {
        proof {
            one_more_piece(pieces, Piece { text: s@, color, bold });
        }
        push_span(&mut self.text, &mut self.spans, s, color, bold);
    }
}

/// Lay out the overlay's text (query line + the visible items) as one string and
/// the byte ranges of its styled spans.
pub fn overlay_text(ov: &Overlay, l: OverlayLayout) -> (r: (
    String,
    Vec<(usize, usize, Rgba, bool)>,
))
    requires
        l.visible <= ov.items@.len(),
    ensures
        r.0@ == pieces_text(overlay_pieces(*ov, l.visible as int)),
        span_views(r.1@) == pieces_spans(overlay_pieces(*ov, l.visible as int)),
{
    let c = ov.colors;
    let mut b = Spans { text: String::new(), spans: Vec::new() };
    let ghost mut done: Seq<Piece> = Seq::empty();
    proof {
        assert(span_views(b.spans@) =~= Seq::empty());
    }
    b.add_piece(ov.prompt.as_str(), c.accent, true, Ghost(done));
    proof {
        done = done.push(Piece { text: ov.prompt@, color: c.accent, bold: true });
    }
    b.add_piece(" ", c.fg, false, Ghost(done));
    proof {
        done = done.push(Piece { text: " "@, color: c.fg, bold: false });
    }
    if chars_of(ov.query.as_str()).len() == 0 {
        b.add_piece("type to search\u{2026}", c.dim, false, Ghost(done));
        proof {
            done = done.push(Piece { text: "type to search\u{2026}"@, color: c.dim, bold: false });
        }
    } else {
        b.add_piece(ov.query.as_str(), c.fg, false, Ghost(done));
        proof {
            done = done.push(Piece { text: ov.query@, color: c.fg, bold: false });
        }
    }
    proof {
        assert(done =~= query_pieces(*ov) + list_pieces(*ov, 0));
    }
    let mut i: usize = 0;
    while i < l.visible
        invariant
            i <= l.visible <= ov.items@.len(),
            c == ov.colors,
            done == query_pieces(*ov) + list_pieces(*ov, i as int),
            b.holds(done),
        decreases l.visible - i,
    {
        let ghost before = done;
        let item = &ov.items[i];
        let selected: bool = match ov.selected_visible {
            Some(s) => s == i,
            None => false,
        };
        b.add_piece("\n", c.fg, false, Ghost(done));
        proof {
            done = done.push(Piece { text: "\n"@, color: c.fg, bold: false });
        }
        b.add_piece("  ", c.fg, false, Ghost(done));
        proof {
            done = done.push(Piece { text: "  "@, color: c.fg, bold: false });
        }
        b.add_piece(item.label.as_str(), c.fg, selected, Ghost(done));
        proof {
            done = done.push(Piece { text: item.label@, color: c.fg, bold: selected });
        }
        if let Some(detail) = &item.detail {
            b.add_piece("  ", c.dim, false, Ghost(done));
            proof {
                done = done.push(Piece { text: "  "@, color: c.dim, bold: false });
            }
            b.add_piece(detail.as_str(), c.dim, false, Ghost(done));
            proof {
                done = done.push(Piece { text: detail@, color: c.dim, bold: false });
            }
        }
        proof {
            assert(done =~= before + item_pieces(*ov, i as int));
            assert(done =~= query_pieces(*ov) + list_pieces(*ov, i + 1));
        }
        i = i + 1;
    }
    let ghost rows = done;
    if ov.no_matches {
        b.add_piece("\n", c.fg, false, Ghost(done));
        proof {
            done = done.push(Piece { text: "\n"@, color: c.fg, bold: false });
        }
        b.add_piece("  no matches", c.dim, false, Ghost(done));
        proof {
            done = done.push(Piece { text: "  no matches"@, color: c.dim, bold: false });
        }
    }
    proof {
        assert(done =~= overlay_pieces(*ov, l.visible as int));
    }
    (b.text, b.spans)
}

/// How many rows of grid glyphs are blanked: those under the overlay panel, or the
/// one under the sticky header.
pub fn blank_rows(s: &GridSnapshot, layout: Option<OverlayLayout>) -> (n: u16)
    ensures
        n == match layout {
            Some(l) => l.panel_rows,
            None => if s.sticky.is_some() {
                1u16
            } else {
                0u16
            },
        },
{
    match layout {
        Some(l) => l.panel_rows,
        None => if s.sticky.is_some() {
            1
        } else {
            0
        },
    }
}

/// The color of the sticky header's text, where it is drawn: not while an overlay
/// is open, and in the stripe's color where its block failed.
pub fn sticky_color(s: &GridSnapshot, overlay_open: bool, default_fg: Rgba) -> (c: Option<Rgba>)
    ensures
        c == match s.sticky {
            Some(h) => if overlay_open {
                None
            } else if h.failed {
                Some(s.block_stripe)
            } else {
                Some(default_fg)
            },
            None => None,
        },
{
    match &s.sticky {
        Some(h) => if overlay_open {
            None
        } else if h.failed {
            Some(s.block_stripe)
        } else {
            Some(default_fg)
        },
        None => None,
    }
}

/// A layer paints exactly the cells that are its own, each in its color: the backgrounds
/// those whose background is not the default, the selection those flagged as selected.
pub proof fn layers_paint_their_cells(s: GridSnapshot, layer: CellLayer, col: u16, row: u16, color: Rgba)
    requires
        s.wf(),
        col < s.cols,
        row < s.rows,
    ensures
        ({
            let cell = s.cells@[row * s.cols + col];
            let painted = layer_quads(s, layer, s.rows as int).contains(Quad::Cell { col, row, color });
            &&& layer == CellLayer::Background ==> (painted <==> cell.bg != s.background && color == cell.bg)
            &&& layer == CellLayer::Selection ==> (painted <==> cell.flags.has(CellFlags::SELECTED) && color
                == s.selection_color)
        }),
{
    layer_has(s, layer, s.rows as int, col, row, color);
    crate::snapshot::cell_positions(s, col as int, row as int, col as int, row as int);
}

proof fn row_has(s: GridSnapshot, layer: CellLayer, r: int, n: int, col: u16, row: u16, color: Rgba)
    requires
        0 <= n <= s.cols,
        0 <= r < s.rows,
    ensures
        row_quads(s, layer, r, n).contains(Quad::Cell { col, row, color }) <==> row == r && col < n && (
        snap_cell(s, col as int, r) matches Some(cell) && layer_color(s, layer, cell) == Some(color)),
    decreases n,
{
    let q = Quad::Cell { col, row, color };
    if n > 0 {
        row_has(s, layer, r, n - 1, col, row, color);
        let before = row_quads(s, layer, r, n - 1);
        let all = row_quads(s, layer, r, n);
        if all.contains(q) && !before.contains(q) {
            let k = choose|k: int| 0 <= k < all.len() && all[k] == q;
            assert(k == before.len());
        }
        if before.contains(q) {
            let k = choose|k: int| 0 <= k < before.len() && before[k] == q;
            assert(all[k] == q);
        }
        if row == r && col == n - 1 && (snap_cell(s, col as int, r) matches Some(cell) && layer_color(
            s,
            layer,
            cell,
        ) == Some(color)) {
            assert(all[all.len() - 1] == q);
        }
    }
}

proof fn layer_has(s: GridSnapshot, layer: CellLayer, n: int, col: u16, row: u16, color: Rgba)
    requires
        0 <= n <= s.rows,
        col < s.cols,
    ensures
        layer_quads(s, layer, n).contains(Quad::Cell { col, row, color }) <==> row < n && (snap_cell(
            s,
            col as int,
            row as int,
        ) matches Some(cell) && layer_color(s, layer, cell) == Some(color)),
    decreases n,
{
    let q = Quad::Cell { col, row, color };
    if n > 0 {
        layer_has(s, layer, n - 1, col, row, color);
        row_has(s, layer, n - 1, s.cols as int, col, row, color);
        contained_in_either(layer_quads(s, layer, n - 1), row_quads(s, layer, n - 1, s.cols as int), q);
    }
}

proof fn contained_in_either(a: Seq<Quad>, b: Seq<Quad>, q: Quad)
    ensures
        (a + b).contains(q) <==> a.contains(q) || b.contains(q),
{
    if (a + b).contains(q) {
        let k = choose|k: int| 0 <= k < (a + b).len() && (a + b)[k] == q;
        if k < a.len() {
            assert(a[k] == q);
        } else {
            assert(b[k - a.len()] == q);
        }
    }
    if a.contains(q) {
        let k = choose|k: int| 0 <= k < a.len() && a[k] == q;
        assert((a + b)[k] == q);
    }
    if b.contains(q) {
        let k = choose|k: int| 0 <= k < b.len() && b[k] == q;
        assert((a + b)[k + a.len()] == q);
    }
}

/// A row of a failed block has the wash and the stripe, and no other row has; a rule is
/// drawn above the top of each block but on the first row.
pub proof fn failed_rows_are_marked(s: GridSnapshot, r: int)
    requires
        s.wf(),
        0 <= r < s.rows_decor@.len(),
    ensures
        ({
            let n = s.rows_decor@.len() as int;
            let d = s.rows_decor@[r];
            let failed = d.failed && d.block_id != 0;
            &&& wash_quads(s, n).contains(Quad::Wash { line: r as usize, color: s.block_tint }) <==> failed
            &&& gutter_quads(s, n).contains(Quad::Stripe { line: r as usize, color: s.block_stripe })
                <==> failed
            &&& gutter_quads(s, n).contains(Quad::Rule { line: r as usize, color: s.block_separator })
                <==> d.block_top && r > 0
        }),
{
    let n = s.rows_decor@.len() as int;
    wash_has(s, n, r);
    gutter_has(s, n, r);
}

proof fn wash_has(s: GridSnapshot, n: int, r: int)
    requires
        0 <= r < s.rows_decor@.len(),
        n <= s.rows_decor@.len() <= 65535,
    ensures
        wash_quads(s, n).contains(Quad::Wash { line: r as usize, color: s.block_tint }) <==> r < n && failed_row(
            s.rows_decor@[r],
        ),
    decreases n,
{
    let q = Quad::Wash { line: r as usize, color: s.block_tint };
    if n > 0 {
        wash_has(s, n - 1, r);
        let before = wash_quads(s, n - 1);
        let last = Quad::Wash { line: (n - 1) as usize, color: s.block_tint };
        if failed_row(s.rows_decor@[n - 1]) {
            contained_in_either(before, seq![last], q);
            assert(before.push(last) =~= before + seq![last]);
            assert(seq![last].contains(q) <==> last == q) by {
                assert(seq![last][0] == last);
            }
        }
    }
}

proof fn gutter_has(s: GridSnapshot, n: int, r: int)
    requires
        0 <= r < s.rows_decor@.len(),
        n <= s.rows_decor@.len() <= 65535,
    ensures
        gutter_quads(s, n).contains(Quad::Stripe { line: r as usize, color: s.block_stripe }) <==> r < n
            && failed_row(s.rows_decor@[r]),
        gutter_quads(s, n).contains(Quad::Rule { line: r as usize, color: s.block_separator }) <==> r < n
            && has_rule(s.rows_decor@, r),
    decreases n,
{
    let q = Quad::Stripe { line: r as usize, color: s.block_stripe };
    let u = Quad::Rule { line: r as usize, color: s.block_separator };
    if n > 0 {
        gutter_has(s, n - 1, r);
        let before = gutter_quads(s, n - 1);
        let a = stripe_quad(s, n - 1);
        let b = rule_quad(s, n - 1);
        contained_in_either(before, a, q);
        contained_in_either(before + a, b, q);
        contained_in_either(before, a, u);
        contained_in_either(before + a, b, u);
        if a.len() > 0 {
            assert(a[0] == Quad::Stripe { line: (n - 1) as usize, color: s.block_stripe });
        }
        if b.len() > 0 {
            assert(b[0] == Quad::Rule { line: (n - 1) as usize, color: s.block_separator });
        }
    }
}

/// What is painted later lies on top: the backgrounds come first, the cursor comes last,
/// and the selection comes above the wash and below the stripes.
pub proof fn layers_are_in_order(s: GridSnapshot, overlay_open: bool)
    ensures
        ({
            let all = frame_quads(s, overlay_open);
            let back = layer_quads(s, CellLayer::Background, s.rows as int);
            let wash = wash_quads(s, s.rows_decor@.len() as int);
            let sel = layer_quads(s, CellLayer::Selection, s.rows as int);
            let gutter = gutter_quads(s, s.rows_decor@.len() as int);
            let a = back.len() as int;
            let b = a + wash.len();
            let c = b + sel.len();
            let d = c + gutter.len();
            &&& all.take(a) == back
            &&& all.subrange(a, b) == wash
            &&& all.subrange(b, c) == sel
            &&& all.subrange(c, d) == gutter
            &&& s.cursor matches Some(k) ==> k.shape != CursorShape::Hidden ==> all.last() == (Quad::Cursor {
                col: k.col,
                row: k.row,
                shape: k.shape,
                color: k.color,
            })
            &&& s.cursor.is_none() || s.cursor->0.shape == CursorShape::Hidden ==> cursor_quads(s).len() == 0
        }),
{
    let all = frame_quads(s, overlay_open);
    let back = layer_quads(s, CellLayer::Background, s.rows as int);
    let wash = wash_quads(s, s.rows_decor@.len() as int);
    let sel = layer_quads(s, CellLayer::Selection, s.rows as int);
    let gutter = gutter_quads(s, s.rows_decor@.len() as int);
    let a = back.len() as int;
    let b = a + wash.len();
    let c = b + sel.len();
    let d = c + gutter.len();
    assert(all.take(a) =~= back);
    assert(all.subrange(a, b) =~= wash);
    assert(all.subrange(b, c) =~= sel);
    assert(all.subrange(c, d) =~= gutter);
}

/// The sticky header has a band in the background color with a rule below, and a stripe
/// exactly where its block failed; nothing of it is drawn under an overlay.
pub proof fn the_sticky_header_is_drawn(s: GridSnapshot)
    ensures
        sticky_quads(s, true).len() == 0,
        s.sticky.is_none() ==> sticky_quads(s, false).len() == 0,
        s.sticky matches Some(h) ==> {
            let q = sticky_quads(s, false);
            &&& q.len() == if h.failed {
                3int
            } else {
                2
            }
            &&& q[0] == (Quad::StickyBand { color: s.background })
            &&& q[1] == (Quad::StickyRule { color: s.block_separator })
            &&& h.failed ==> q[2] == (Quad::StickyStripe { color: s.block_stripe })
        },
{
}

proof fn row_ends(n: int, cols: int)
    requires
        n >= 1,
    ensures
        n * (cols + 1) == (n - 1) * (cols + 1) + cols + 1,
{
    assert(n * (cols + 1) == (n - 1) * (cols + 1) + cols + 1) by (nonlinear_arith);
}

proof fn glyphs_len(s: GridSnapshot, fg: Rgba, blank_rows: u16, n: int)
    requires
        n >= 0,
    ensures
        frame_glyphs(s, fg, blank_rows, n).len() == n * (s.cols + 1),
    decreases n,
{
    if n > 0 {
        glyphs_len(s, fg, blank_rows, n - 1);
        row_ends(n, s.cols as int);
    } else {
        assert(n * (s.cols + 1) == 0) by (nonlinear_arith)
            requires
                n == 0,
        ;
    }
}

/// The text of a frame is its cells row by row, with a line feed behind each row: the
/// glyph of column `col` in row `row` stands where its row begins and that many on.
pub proof fn text_follows_the_grid(s: GridSnapshot, fg: Rgba, blank_rows: u16, n: int, col: int, row: int)
    requires
        0 <= row < n,
        0 <= col <= s.cols,
    ensures
        ({
            let all = frame_glyphs(s, fg, blank_rows, n);
            let at = row * (s.cols + 1) + col;
            &&& 0 <= at < all.len()
            &&& col < s.cols ==> all[at] == cell_glyph(s, fg, blank_rows, col, row)
            &&& col == s.cols ==> all[at].c == '\n'
        }),
    decreases n,
{
    let before = frame_glyphs(s, fg, blank_rows, n - 1);
    glyphs_len(s, fg, blank_rows, n - 1);
    glyphs_len(s, fg, blank_rows, n);
    row_ends(n, s.cols as int);
    if row < n - 1 {
        text_follows_the_grid(s, fg, blank_rows, n - 1, col, row);
    } else {
        assert(0 <= row * (s.cols + 1)) by (nonlinear_arith)
            requires
                row >= 0,
                s.cols >= 0,
        ;
    }
}

/// A glyph is the cell's character, in its color, bold and italic as the cell is. Under a
/// block cursor it takes the cursor's text color; where something is drawn over the row
/// it is blank.
pub proof fn glyphs_look_like_their_cells(s: GridSnapshot, fg: Rgba, blank_rows: u16, col: int, row: int)
    requires
        s.wf(),
        0 <= col < s.cols,
        0 <= row < s.rows,
    ensures
        ({
            let cell = s.cells@[row * s.cols + col];
            let g = cell_glyph(s, fg, blank_rows, col, row);
            let under = s.cursor.is_some() && s.cursor->0.shape == CursorShape::Block && s.cursor->0.col == col
                && s.cursor->0.row == row;
            &&& row >= blank_rows && cell.c != '\0' ==> g.c == cell.c
            &&& row < blank_rows || cell.c == '\0' ==> g.c == ' '
            &&& !under ==> g.style.fg == cell.fg
            &&& under ==> g.style.fg == s.cursor->0.text_color
            &&& g.style.bold == cell.flags.has(CellFlags::BOLD)
            &&& g.style.italic == cell.flags.has(CellFlags::ITALIC)
        }),
{
    crate::snapshot::cell_positions(s, col, row, col, row);
}

/// The style of each character of the runs, one after the other.
pub open spec fn run_styles(runs: Seq<RunView>) -> Seq<TextStyle>
    decreases runs.len(),
{
    if runs.len() == 0 {
        Seq::empty()
    } else {
        run_styles(runs.drop_last()) + Seq::new(runs.last().text.len(), |i: int| runs.last().style)
    }
}

/// Each character of the runs has the style of its glyph.
pub proof fn runs_keep_the_styles(glyphs: Seq<Glyph>)
    ensures
        run_styles(runs_of(glyphs)) == glyphs.map_values(|g: Glyph| g.style),
    decreases glyphs.len(),
{
    let want = glyphs.map_values(|g: Glyph| g.style);
    if glyphs.len() == 0 {
        assert(run_styles(runs_of(glyphs)) =~= want);
    } else {
        let head = glyphs.drop_last();
        let g = glyphs.last();
        let before = runs_of(head);
        let all = runs_of(glyphs);
        runs_keep_the_styles(head);
        let w = head.map_values(|g: Glyph| g.style);
        assert(want =~= w.push(g.style));
        if !g.fresh && before.len() > 0 && before.last().style == g.style {
            assert(all.drop_last() =~= before.drop_last());
            assert(run_styles(all) =~= run_styles(before).push(g.style));
        } else {
            assert(all.drop_last() =~= before);
            assert(run_styles(all) =~= run_styles(before).push(g.style));
        }
    }
}

/// The list is at most twelve rows high and leaves two rows of the grid: one for the
/// query and one below.
pub proof fn the_list_leaves_two_rows(grid_rows: u16)
    ensures
        0 <= capacity_for(grid_rows) <= 12,
        grid_rows >= 2 ==> capacity_for(grid_rows) + 2 <= grid_rows,
        2 <= grid_rows <= 14 ==> capacity_for(grid_rows) + 2 == grid_rows,
        grid_rows >= 14 ==> capacity_for(grid_rows) == 12,
{
}

/// The panel is as high as what it holds: the query, the rows that are shown, and a row
/// where nothing matches.
pub proof fn the_panel_holds_its_rows(ov: Overlay, grid_rows: u16)
    ensures
        ({
            let l = layout_for(ov, grid_rows);
            &&& l.visible <= ov.items@.len()
            &&& l.visible <= capacity_for(grid_rows)
            &&& l.visible == ov.items@.len() || l.visible == capacity_for(grid_rows)
            &&& l.panel_rows == 1 + l.visible + if ov.no_matches {
                1int
            } else {
                0
            }
        }),
{
}

/// The panel is painted first, then the highlight behind the selected row, which is one
/// below the query's for the first, then the caret and the rule.
pub proof fn the_panel_is_painted(ov: Overlay, l: OverlayLayout)
    ensures
        ({
            let q = overlay_quads(ov, l);
            let n = q.len() as int;
            let lit = ov.selected_visible.is_some() && ov.selected_visible->0 < l.visible;
            &&& q[0] == (Quad::Panel { rows: l.panel_rows, color: ov.colors.panel_bg })
            &&& n == if lit {
                4int
            } else {
                3
            }
            &&& lit && ov.selected_visible->0 < usize::MAX ==> (q[1] matches Quad::Highlight { line, color }
                && line - 1 == ov.selected_visible->0 && color == ov.colors.sel_bg)
            &&& q[n - 2] == (Quad::Caret { at: ov.query_caret_col, color: ov.colors.accent })
            &&& q[n - 1] == (Quad::PanelRule { rows: l.panel_rows, color: ov.colors.accent })
        }),
{
}

proof fn pieces_join(a: Seq<Piece>, b: Seq<Piece>)
    ensures
        pieces_text(a + b) == pieces_text(a) + pieces_text(b),
    decreases b.len(),
{
    if b.len() == 0 {
        assert(a + b =~= a);
        assert(pieces_text(a) + pieces_text(b) =~= pieces_text(a));
    } else {
        pieces_join(a, b.drop_last());
        assert((a + b).drop_last() =~= a + b.drop_last());
        assert((a + b).last() == b.last());
        assert(pieces_text(a + b) =~= pieces_text(a) + pieces_text(b));
    }
}

/// The query line is the sigil, a space, and what is typed, or what to do where nothing
/// is.
pub proof fn the_query_line_reads(ov: Overlay)
    ensures
        pieces_text(query_pieces(ov)) == ov.prompt@ + " "@ + if ov.query@.len() == 0 {
            "type to search\u{2026}"@
        } else {
            ov.query@
        },
{
    let q = query_pieces(ov);
    assert(q.drop_last() =~= seq![q[0], q[1]]);
    assert(q.drop_last().drop_last() =~= seq![q[0]]);
    assert(q.drop_last().drop_last().drop_last() =~= Seq::empty());
    reveal_with_fuel(pieces_text, 4);
    assert(Seq::<char>::empty() + ov.prompt@ =~= ov.prompt@);
}

/// A list row is on a line of its own: indented, its label, and its detail where it has
/// one.
pub proof fn list_rows_read(ov: Overlay, n: int)
    requires
        0 < n <= ov.items@.len(),
    ensures
        ({
            let item = ov.items@[n - 1];
            let row = "\n"@ + "  "@ + item.label@ + match item.detail {
                Some(d) => "  "@ + d@,
                None => Seq::empty(),
            };
            pieces_text(list_pieces(ov, n)) == pieces_text(list_pieces(ov, n - 1)) + row
        }),
{
    let p = item_pieces(ov, n - 1);
    let item = ov.items@[n - 1];
    pieces_join(list_pieces(ov, n - 1), p);
    let three = seq![p[0], p[1], p[2]];
    assert(three.drop_last() =~= seq![p[0], p[1]]);
    assert(three.drop_last().drop_last() =~= seq![p[0]]);
    assert(three.drop_last().drop_last().drop_last() =~= Seq::empty());
    reveal_with_fuel(pieces_text, 4);
    assert(Seq::<char>::empty() + "\n"@ =~= "\n"@);
    assert(pieces_text(three) == "\n"@ + "  "@ + item.label@);
    let row = "\n"@ + "  "@ + item.label@ + match item.detail {
        Some(d) => "  "@ + d@,
        None => Seq::empty(),
    };
    match item.detail {
        Some(d) => {
            assert(p.drop_last() =~= three.push(p[3]));
            assert(p.drop_last().drop_last() =~= three);
            assert(pieces_text(p) =~= row);
        },
        None => {
            assert(p =~= three);
            assert(pieces_text(p) =~= row);
        },
    }
}

/// The styled spans lie one behind the other from the start of the text to its end:
/// every byte of it is in exactly one.
pub proof fn spans_cover_the_text(pieces: Seq<Piece>, k: int)
    ensures
        ({
            let spans = pieces_spans(pieces);
            let total = encode_utf8(pieces_text(pieces)).len() as int;
            &&& spans.len() == 0 ==> total == 0
            &&& spans.len() > 0 ==> spans[0].0 == 0 && spans.last().1 == total
            &&& 0 <= k < spans.len() ==> spans[k].0 < spans[k].1
            &&& 0 <= k < spans.len() - 1 ==> spans[k].1 == spans[k + 1].0
        }),
    decreases pieces.len(),
{
    if pieces.len() > 0 {
        let head = pieces.drop_last();
        let p = pieces.last();
        spans_cover_the_text(head, k);
        spans_cover_the_text(head, 0);
        encoded_parts(pieces_text(head), p.text);
        if p.text.len() == 0 {
            assert(pieces_text(head) + p.text =~= pieces_text(head));
        } else {
            encoding_is_long_enough(p.text);
        }
    } else {
        assert(pieces_text(pieces) =~= Seq::empty());
    }
}

proof fn encoded_parts(a: Seq<char>, b: Seq<char>)
    ensures
        encode_utf8(a + b) == encode_utf8(a) + encode_utf8(b),
    decreases a.len(),
{
    if a.len() == 0 {
        assert(a + b =~= b);
        assert(encode_utf8(a) + encode_utf8(b) =~= encode_utf8(b));
    } else {
        encoded_parts(a.drop_first(), b);
        assert((a + b).drop_first() =~= a.drop_first() + b);
        assert((a + b)[0] == a[0]);
        assert(encode_utf8(a + b) =~= encode_utf8(a) + encode_utf8(b));
    }
}

proof fn encoding_is_long_enough(s: Seq<char>)
    requires
        s.len() > 0,
    ensures
        encode_utf8(s).len() >= 1,
{
    vstd::utf8::char_is_scalar(s[0]);
    assert(vstd::utf8::encode_scalar(s[0] as u32).len() >= 1);
}

/// The sigil is bold in the accent color and what is typed is plain; what to do where
/// nothing is typed is dim. A row's label is bold exactly where it is highlighted, and its
/// detail is dim; so is the row that says that nothing matches.
pub proof fn the_overlays_text_is_styled(ov: Overlay, i: int)
    requires
        0 <= i < ov.items@.len() <= usize::MAX,
    ensures
        ({
            let q = query_pieces(ov);
            let p = item_pieces(ov, i);
            let n = no_match_pieces(ov);
            &&& q[0].bold && q[0].color == ov.colors.accent
            &&& !q[2].bold
            &&& q[2].color == if ov.query@.len() == 0 {
                ov.colors.dim
            } else {
                ov.colors.fg
            }
            &&& p[2].text == ov.items@[i].label@
            &&& p[2].color == ov.colors.fg
            &&& p[2].bold <==> (ov.selected_visible.is_some() && ov.selected_visible->0 == i)
            &&& ov.items@[i].detail.is_some() ==> p.last().color == ov.colors.dim && !p.last().bold
            &&& ov.no_matches ==> pieces_text(n) == "\n"@ + "  no matches"@ && n.last().color == ov.colors.dim
            &&& !ov.no_matches ==> n.len() == 0
        }),
{
    let n = no_match_pieces(ov);
    if ov.no_matches {
        assert(n.drop_last() =~= seq![n[0]]);
        assert(n.drop_last().drop_last() =~= Seq::empty());
        reveal_with_fuel(pieces_text, 3);
        assert(Seq::<char>::empty() + "\n"@ =~= "\n"@);
    }
}

/// The overlay's text is the query line, the rows, and what is said where nothing
/// matches, in this order.
pub proof fn the_overlays_text_is_in_order(ov: Overlay, visible: int)
    ensures
        pieces_text(overlay_pieces(ov, visible)) == pieces_text(query_pieces(ov)) + pieces_text(
            list_pieces(ov, visible),
        ) + pieces_text(no_match_pieces(ov)),
{
    pieces_join(query_pieces(ov), list_pieces(ov, visible));
    pieces_join(query_pieces(ov) + list_pieces(ov, visible), no_match_pieces(ov));
}

} // verus!
