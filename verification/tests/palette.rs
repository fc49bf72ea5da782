//! The color table.

use shelvd::color::Rgba;
use shelvd::emulator::{GridCell, GridColor, NAMED_BACKGROUND, NAMED_CURSOR, NAMED_FOREGROUND};
use shelvd::palette::Palette;
use shelvd::snapshot::CellFlags;

#[test]
fn cube_and_ramp_follow_xterm() {
    let p = Palette::shelvd_dark();
    assert_eq!(p.indexed(0), Rgba::hex(0x14110f));
    assert_eq!(p.indexed(15), Rgba::hex(0xf0e6d6));
    assert_eq!(p.indexed(16), Rgba::rgb(0, 0, 0));
    assert_eq!(p.indexed(196), Rgba::rgb(255, 0, 0));
    assert_eq!(p.indexed(231), Rgba::rgb(255, 255, 255));
    assert_eq!(p.indexed(110), Rgba::rgb(135, 175, 215));
    assert_eq!(p.indexed(232), Rgba::rgb(8, 8, 8));
    assert_eq!(p.indexed(255), Rgba::rgb(238, 238, 238));
}

#[test]
fn slots_of_a_base_table() {
    let mut base = [Rgba::rgb(0, 0, 0); 16];
    for i in 0..16u8 {
        base[i as usize] = Rgba::rgb(i, i, i);
    }
    let (a, b, c, d, e) =
        (Rgba::hex(1), Rgba::hex(2), Rgba::hex(3), Rgba::hex(4), Rgba::hex(5));
    let p = Palette::from_base16(base, a, b, c, d, e);
    assert_eq!((p.foreground, p.background, p.cursor, p.cursor_text, p.selection), (a, b, c, d, e));
    assert_eq!(p.indexed(7), Rgba::rgb(7, 7, 7));
    assert_eq!(p.indexed(21), Rgba::rgb(0, 0, 255));
}

#[test]
fn named_colors_resolve() {
    let p = Palette::shelvd_dark();
    assert_eq!(p.resolve(GridColor::Named(NAMED_FOREGROUND), false, true), p.foreground);
    assert_eq!(p.resolve(GridColor::Named(NAMED_BACKGROUND), false, false), p.background);
    assert_eq!(p.resolve(GridColor::Named(NAMED_CURSOR), false, true), p.cursor);
    assert_eq!(p.resolve(GridColor::Direct(1, 2, 3), true, true), Rgba::rgb(1, 2, 3));
    assert_eq!(p.resolve(GridColor::Indexed(200), true, true), p.indexed(200));
    // Bold brightens the eight plain colors of a foreground.
    assert_eq!(p.resolve(GridColor::Named(1), true, true), p.indexed(9));
    assert_eq!(p.resolve(GridColor::Named(1), true, false), p.indexed(1));
}

#[test]
fn inverse_swaps_and_hidden_hides() {
    let p = Palette::shelvd_dark();
    let cell = |flags: u16| GridCell {
        c: 'x',
        fg: GridColor::Named(2),
        bg: GridColor::Named(4),
        flags,
    };
    assert_eq!(p.cell_colors(&cell(0)), (p.indexed(2), p.indexed(4)));
    assert_eq!(p.cell_colors(&cell(GridCell::INVERSE)), (p.indexed(4), p.indexed(2)));
    let s = p.cell_to_snapshot(&cell(GridCell::ITALIC | GridCell::STRIKEOUT));
    assert!(s.flags.contains(CellFlags::ITALIC | CellFlags::STRIKEOUT));
    assert!(!s.flags.contains(CellFlags::BOLD));
    assert!(p.is_occupied(&cell(0)));
}
