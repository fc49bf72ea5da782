//! Resolving the emulator's cells against the palette.

use vstd::prelude::*;
use crate::color::Rgba;
use crate::emulator::{GridCell, GridColor, NAMED_BACKGROUND, NAMED_CURSOR};
use crate::palette::Palette;
use crate::snapshot::{CellFlags, CellSnapshot};

verus! {

/// The color of a named slot. The foreground slots, and the dim ones, are the
/// default foreground; bold brightens the eight base foreground colors.
pub open spec fn named_color(p: Palette, slot: u16, bold: bool, is_fg: bool) -> Rgba {
    if slot == NAMED_BACKGROUND {
        p.background
    } else if slot == NAMED_CURSOR {
        p.cursor
    } else if slot >= 16 {
        p.foreground
    } else if is_fg && slot < 8 && bold {
        p.colors@[slot + 8]
    } else {
        p.colors@[slot as int]
    }
}

/// The color that a cell's color stands for.
pub open spec fn color_in(p: Palette, color: GridColor, bold: bool, is_fg: bool) -> Rgba {
    match color {
        GridColor::Direct(r, g, b) => Rgba { r, g, b, a: 255 },
        GridColor::Indexed(i) => p.colors@[i as int],
        GridColor::Named(slot) => named_color(p, slot, bold, is_fg),
    }
}

/// A cell's background, after inversion.
pub open spec fn cell_bg(p: Palette, cell: GridCell) -> Rgba {
    let bold = cell.any(GridCell::BOLD);
    if cell.any(GridCell::INVERSE) {
        color_in(p, cell.fg, bold, true)
    } else {
        color_in(p, cell.bg, bold, false)
    }
}

/// A cell's foreground, after inversion; a hidden cell is painted in its
/// background.
pub open spec fn cell_fg(p: Palette, cell: GridCell) -> Rgba {
    let bold = cell.any(GridCell::BOLD);
    if cell.any(GridCell::HIDDEN) {
        cell_bg(p, cell)
    } else if cell.any(GridCell::INVERSE) {
        color_in(p, cell.bg, bold, false)
    } else {
        color_in(p, cell.fg, bold, true)
    }
}

/// Whether the cell is the placeholder half of a double-width glyph.
pub open spec fn is_spacer(cell: GridCell) -> bool {
    cell.any(GridCell::WIDE_CHAR_SPACER) || cell.any(GridCell::LEADING_WIDE_CHAR_SPACER)
}

/// `f`, with `mask` set where `on` holds.
pub open spec fn flag_if(f: CellFlags, on: bool, mask: u16) -> CellFlags {
    if on {
        f.plus(mask)
    } else {
        f
    }
}

/// The attributes that a cell is rendered with.
pub open spec fn cell_attrs(cell: GridCell) -> CellFlags {
    let f = CellFlags { bits: 0 };
    let f = flag_if(f, cell.any(GridCell::BOLD), CellFlags::BOLD);
    let f = flag_if(f, cell.any(GridCell::ITALIC), CellFlags::ITALIC);
    let f = flag_if(f, cell.any(GridCell::ALL_UNDERLINES), CellFlags::UNDERLINE);
    let f = flag_if(f, cell.any(GridCell::STRIKEOUT), CellFlags::STRIKEOUT);
    flag_if(f, cell.any(GridCell::WIDE_CHAR), CellFlags::WIDE)
}

/// A cell as it is rendered. The placeholders of a double-width glyph paint
/// background only.
pub open spec fn shown(p: Palette, cell: GridCell) -> CellSnapshot {
    if is_spacer(cell) {
        CellSnapshot {
            c: ' ',
            fg: cell_bg(p, cell),
            bg: cell_bg(p, cell),
            flags: CellFlags { bits: CellFlags::WIDE_SPACER },
        }
    } else {
        CellSnapshot {
            c: if cell.c == '\0' {
                ' '
            } else {
                cell.c
            },
            fg: cell_fg(p, cell),
            bg: cell_bg(p, cell),
            flags: cell_attrs(cell),
        }
    }
}

/// Whether a cell shows anything: a glyph, or a background other than the
/// default.
pub open spec fn occupied(p: Palette, cell: GridCell) -> bool {
    ||| cell.c != ' ' && cell.c != '\0'
    ||| cell_bg(p, cell) != p.background
}

impl Palette {
    /// The color of a named slot.
    pub fn resolve_named(&self, slot: u16, bold: bool, is_fg: bool) -> (c: Rgba)
        ensures
            c == named_color(*self, slot, bold, is_fg),
    {
        if slot == NAMED_BACKGROUND {
            self.background
        } else if slot == NAMED_CURSOR {
            self.cursor
        } else if slot >= 16 {
            self.foreground
        } else if is_fg && slot < 8 && bold {
            self.indexed(slot as u8 + 8)
        } else {
            self.indexed(slot as u8)
        }
    }

    /// The color that a cell's color stands for.
    pub fn resolve(&self, color: GridColor, bold: bool, is_fg: bool) -> (c: Rgba)
        ensures
            c == color_in(*self, color, bold, is_fg),
    {
        match color {
            GridColor::Direct(r, g, b) => Rgba::rgb(r, g, b),
            GridColor::Indexed(i) => self.indexed(i),
            GridColor::Named(slot) => self.resolve_named(slot, bold, is_fg),
        }
    }

    /// A cell's foreground and background, with inversion and hiding applied.
    pub fn cell_colors(&self, cell: &GridCell) -> (c: (Rgba, Rgba))
        ensures
            c.0 == cell_fg(*self, *cell),
            c.1 == cell_bg(*self, *cell),
    {
        let bold = cell.intersects(GridCell::BOLD);
        let mut fg = self.resolve(cell.fg, bold, true);
        let mut bg = self.resolve(cell.bg, bold, false);
        if cell.intersects(GridCell::INVERSE) {
            std::mem::swap(&mut fg, &mut bg);
        }
        if cell.intersects(GridCell::HIDDEN) {
            fg = bg;
        }
        (fg, bg)
    }

    /// Resolve one cell of the grid into a render-ready [`CellSnapshot`] (colors
    /// via the full path so inverse/hidden/bold-brighten are respected, plus the
    /// attribute flags). Selection is layered on by the caller — it is a viewport
    /// concern, not a property of the cell.
    pub fn cell_to_snapshot(&self, cell: &GridCell) -> (s: CellSnapshot)
        ensures
            s == shown(*self, *cell),
    {
        let (fg, bg) = self.cell_colors(cell);
        if cell.intersects(GridCell::WIDE_CHAR_SPACER) || cell.intersects(
            GridCell::LEADING_WIDE_CHAR_SPACER,
        ) {
            return CellSnapshot { c: ' ', fg: bg, bg, flags: CellFlags::of(CellFlags::WIDE_SPACER) };
        }
        let mut flags = CellFlags::empty();
        if cell.intersects(GridCell::BOLD) {
            flags.insert(CellFlags::BOLD);
        }
        if cell.intersects(GridCell::ITALIC) {
            flags.insert(CellFlags::ITALIC);
        }
        if cell.intersects(GridCell::ALL_UNDERLINES) {
            flags.insert(CellFlags::UNDERLINE);
        }
        if cell.intersects(GridCell::STRIKEOUT) {
            flags.insert(CellFlags::STRIKEOUT);
        }
        if cell.intersects(GridCell::WIDE_CHAR) {
            flags.insert(CellFlags::WIDE);
        }
        let c = if cell.c == '\0' {
            ' '
        } else {
            cell.c
        };
        CellSnapshot { c, fg, bg, flags }
    }

    /// Whether a cell shows anything: a printed glyph, or a background that
    /// differs from the default — a highlighted blank line (all spaces, colored
    /// background) is still content.
    pub fn is_occupied(&self, cell: &GridCell) -> (b: bool)
        ensures
            b == occupied(*self, *cell),
    {
        (cell.c != ' ' && cell.c != '\0') || self.cell_colors(cell).1 != self.background
    }
}

/// A cell that shows a glyph is rendered with exactly the attributes that it has, and
/// none is ever rendered as selected.
pub proof fn attributes_carry_over(p: Palette, cell: GridCell)
    ensures
        ({
            let f = shown(p, cell).flags;
            &&& !f.has(CellFlags::SELECTED)
            &&& f.has(CellFlags::WIDE_SPACER) == is_spacer(cell)
            &&& !is_spacer(cell) ==> f.has(CellFlags::BOLD) == cell.any(GridCell::BOLD)
            &&& !is_spacer(cell) ==> f.has(CellFlags::ITALIC) == cell.any(GridCell::ITALIC)
            &&& !is_spacer(cell) ==> f.has(CellFlags::UNDERLINE) == cell.any(GridCell::ALL_UNDERLINES)
            &&& !is_spacer(cell) ==> f.has(CellFlags::STRIKEOUT) == cell.any(GridCell::STRIKEOUT)
            &&& !is_spacer(cell) ==> f.has(CellFlags::WIDE) == cell.any(GridCell::WIDE_CHAR)
        }),
{
    let bold = cell.any(GridCell::BOLD);
    let italic = cell.any(GridCell::ITALIC);
    let under = cell.any(GridCell::ALL_UNDERLINES);
    let strike = cell.any(GridCell::STRIKEOUT);
    let wide = cell.any(GridCell::WIDE_CHAR);
    let a: u16 = if bold { 0u16 | 1u16 } else { 0u16 };
    let b: u16 = if italic { a | 2u16 } else { a };
    let c: u16 = if under { b | 4u16 } else { b };
    let d: u16 = if strike { c | 8u16 } else { c };
    let e: u16 = if wide { d | 16u16 } else { d };
    assert(cell_attrs(cell).bits == e);
    assert((e & 1u16 == 1u16) == bold && (e & 2u16 == 2u16) == italic && (e & 4u16 == 4u16) == under
        && (e & 8u16 == 8u16) == strike && (e & 16u16 == 16u16) == wide && e & 32u16 != 32u16
        && e & 64u16 != 64u16) by (bit_vector)
        requires
            a == (if bold { 0u16 | 1u16 } else { 0u16 }),
            b == (if italic { a | 2u16 } else { a }),
            c == (if under { b | 4u16 } else { b }),
            d == (if strike { c | 8u16 } else { c }),
            e == (if wide { d | 16u16 } else { d }),
    ;
    assert(32u16 & 32u16 == 32u16 && 32u16 & 64u16 != 64u16) by (bit_vector);
}

/// A cell's glyph is shown as it is; an empty cell, and the placeholder half of a
/// double-width glyph, show a space.
pub proof fn glyphs_carry_over(p: Palette, cell: GridCell)
    ensures
        !is_spacer(cell) && cell.c != '\0' ==> shown(p, cell).c == cell.c,
        is_spacer(cell) || cell.c == '\0' ==> shown(p, cell).c == ' ',
        is_spacer(cell) ==> shown(p, cell).fg == shown(p, cell).bg,
{
}

/// Inverse video swaps the two colors of a cell.
pub proof fn inverse_swaps_the_colors(p: Palette, plain: GridCell, inverse: GridCell)
    requires
        plain.fg == inverse.fg,
        plain.bg == inverse.bg,
        plain.any(GridCell::BOLD) == inverse.any(GridCell::BOLD),
        !plain.any(GridCell::INVERSE) && inverse.any(GridCell::INVERSE),
        !plain.any(GridCell::HIDDEN) && !inverse.any(GridCell::HIDDEN),
    ensures
        cell_fg(p, inverse) == cell_bg(p, plain),
        cell_bg(p, inverse) == cell_fg(p, plain),
{
}

/// A hidden cell keeps its background and is painted in it.
pub proof fn hidden_text_is_not_seen(p: Palette, plain: GridCell, hidden: GridCell)
    requires
        plain.fg == hidden.fg,
        plain.bg == hidden.bg,
        plain.any(GridCell::BOLD) == hidden.any(GridCell::BOLD),
        plain.any(GridCell::INVERSE) == hidden.any(GridCell::INVERSE),
        !plain.any(GridCell::HIDDEN) && hidden.any(GridCell::HIDDEN),
    ensures
        cell_bg(p, hidden) == cell_bg(p, plain),
        cell_fg(p, hidden) == cell_bg(p, hidden),
{
}

/// Bold text in one of the eight base colors takes the bright color eight further on;
/// bold changes no background, and no color given otherwise.
pub proof fn bold_brightens_base_colors(p: Palette, color: GridColor, slot: u16)
    requires
        slot < 8,
    ensures
        color_in(p, GridColor::Named(slot), true, true) == color_in(
            p,
            GridColor::Indexed((slot + 8) as u8),
            false,
            true,
        ),
        color_in(p, GridColor::Named(slot), false, true) == p.colors@[slot as int],
        color_in(p, color, true, false) == color_in(p, color, false, false),
        color is Indexed ==> color_in(p, color, true, true) == color_in(p, color, false, true),
        color is Direct ==> color_in(p, color, true, true) == color_in(p, color, false, true),
        color matches GridColor::Named(n) ==> n >= 8 ==> color_in(p, color, true, true) == color_in(
            p,
            color,
            false,
            true,
        ),
{
}

/// Each way to name a color means what it says: a direct color is itself, opaque; an
/// index is that entry of the table, and the first sixteen names are too; of the other
/// names one is the background, one the cursor, and the rest the foreground.
pub proof fn colors_mean_what_they_name(p: Palette, r: u8, g: u8, b: u8, i: u8, slot: u16, bold: bool, fg: bool)
    ensures
        color_in(p, GridColor::Direct(r, g, b), bold, fg) == (Rgba { r, g, b, a: 255 }),
        color_in(p, GridColor::Indexed(i), bold, fg) == p.colors@[i as int],
        8 <= slot < 16 ==> color_in(p, GridColor::Named(slot), bold, fg) == p.colors@[slot as int],
        color_in(p, GridColor::Named(NAMED_BACKGROUND), bold, fg) == p.background,
        color_in(p, GridColor::Named(NAMED_CURSOR), bold, fg) == p.cursor,
        slot >= 16 && slot != NAMED_BACKGROUND && slot != NAMED_CURSOR ==> color_in(
            p,
            GridColor::Named(slot),
            bold,
            fg,
        ) == p.foreground,
{
}

/// A cell is content where it shows a glyph, and where its background stands out; a
/// blank on the default background is not.
pub proof fn blanks_are_not_content(p: Palette, cell: GridCell)
    ensures
        cell.c != ' ' && cell.c != '\0' ==> occupied(p, cell),
        shown(p, cell).bg != p.background ==> occupied(p, cell),
        (cell.c == ' ' || cell.c == '\0') && shown(p, cell).bg == p.background ==> !occupied(p, cell),
{
}

} // verus!
