//! Laying text out in cells.

use shelvd::color::Rgba;
use shelvd::layout::{glyph_cols, head_fit, wrap_chunks, write_row};
use shelvd::selection::{CompositeSelection, SelPoint, Side};
use shelvd::snapshot::{CellFlags, CellSnapshot, GridSnapshot};
use shelvd::decimal::{parse_i32, parse_unsigned, to_decimal};

fn chars(s: &str) -> Vec<char> {
    s.chars().collect()
}

fn blank() -> CellSnapshot {
    CellSnapshot::blank(Rgba::rgb(9, 9, 9), Rgba::rgb(0, 0, 0))
}

#[test]
fn glyphs_have_widths() {
    assert_eq!(glyph_cols('a'), 1);
    assert_eq!(glyph_cols('漢'), 2);
    assert_eq!(glyph_cols('\u{301}'), 0, "a combining mark");
    assert_eq!(glyph_cols('\u{7}'), 0, "a control character");
}

#[test]
fn writing_stays_in_its_range() {
    let mut cells = vec![blank(); 6];
    write_row(&mut cells, 1, 5, &chars("a漢bcd"), blank());
    let text: String = cells.iter().map(|c| c.c).collect();
    assert_eq!(text, " a漢 b ");
    assert!(cells[2].flags.contains(CellFlags::WIDE));
    assert!(cells[3].flags.contains(CellFlags::WIDE_SPACER));
    // A wide glyph that does not fit ends the writing.
    let mut cells = vec![blank(); 3];
    write_row(&mut cells, 0, 3, &chars("ab漢c"), blank());
    assert_eq!(cells.iter().map(|c| c.c).collect::<String>(), "ab ");
}

#[test]
fn fit_takes_as_much_as_it_can() {
    let t = chars("a漢b");
    assert_eq!(head_fit(&t, 0, 0), 0);
    assert_eq!(head_fit(&t, 0, 2), 1, "half a glyph does not fit");
    assert_eq!(head_fit(&t, 0, 3), 2);
    assert_eq!(head_fit(&t, 0, 4), 3);
}

#[test]
fn wrapping_starts_behind_the_prefix() {
    let (rows, spills) = wrap_chunks(2, &chars("abcdefg"), 5);
    assert_eq!(rows, [chars("abc"), chars("defg")]);
    assert!(!spills);
    let (rows, spills) = wrap_chunks(2, &chars("abcdefgh"), 5);
    assert_eq!(rows.concat(), chars("abcdefgh"));
    assert!(spills, "a full last row leaves the caret on a new one");
    let (rows, spills) = wrap_chunks(0, &[], 5);
    assert_eq!((rows.len(), spills), (1, false));
}

fn at(abs: i64, col: usize, side: Side) -> SelPoint {
    SelPoint { abs, col, side }
}

#[test]
fn selection_folds_cell_halves_in() {
    let sel = |a, b| CompositeSelection { anchor: a, head: b };
    let p = at(3, 4, Side::Right);
    assert_eq!(sel(p, p).bounds(10), None, "a click");
    let (a, b) = (at(1, 2, Side::Left), at(2, 5, Side::Right));
    assert_eq!(sel(a, b).bounds(10), Some(((1, 2), (2, 5))));
    assert_eq!(sel(b, a).bounds(10), sel(a, b).bounds(10));
    let (a, b) = (at(1, 9, Side::Right), at(3, 0, Side::Left));
    assert_eq!(sel(a, b).bounds(10), Some(((2, 0), (2, 9))), "both ends fold over a line");
}

#[test]
fn selection_reaches_the_ends_of_the_numbers() {
    let sel = |a, b| CompositeSelection { anchor: a, head: b };
    let (a, b) = (at(i64::MIN, 3, Side::Left), at(i64::MAX, 4, Side::Right));
    assert_eq!(sel(a, b).bounds(10), Some(((i64::MIN, 3), (i64::MAX, 4))));
    assert_eq!(sel(b, a).bounds(10), sel(a, b).bounds(10));
    assert_eq!(sel(a, a).bounds(10), None);
    assert_eq!(sel(b, b).bounds(10), None);
}

#[test]
fn positions_have_cells_of_their_own() {
    let (fg, bg) = (Rgba::rgb(1, 1, 1), Rgba::rgb(2, 2, 2));
    let mut g = GridSnapshot::filled(3, 2, fg, bg);
    assert_eq!(g.cells.len(), 6);
    assert_eq!(g.rows_decor.len(), 2);
    let i = g.index(2, 1);
    assert_eq!(i, 5);
    g.cells[i].c = 'z';
    assert_eq!(g.cell(2, 1).unwrap().c, 'z');
    assert!(g.cell(2, 0).unwrap().is_blank());
    assert!(g.cell(3, 0).is_none() && g.cell(0, 2).is_none());
}

#[test]
fn flags_are_a_set() {
    let mut f = CellFlags::of(CellFlags::BOLD);
    f.insert(CellFlags::SELECTED);
    assert!(f.contains(CellFlags::BOLD | CellFlags::SELECTED));
    assert!(!f.contains(CellFlags::ITALIC));
    assert!(!f.contains(CellFlags::BOLD | CellFlags::ITALIC));
    assert_eq!(CellFlags::default(), CellFlags::empty());
}

#[test]
fn numbers_read_back() {
    for n in [0u64, 7, 10, 255, 65536, u64::MAX] {
        assert_eq!(to_decimal(n), chars(&n.to_string()));
        assert_eq!(parse_unsigned(&to_decimal(n), u64::MAX), Some(n));
    }
    assert_eq!(parse_unsigned(&chars("256"), 255), None);
    assert_eq!(parse_unsigned(&chars("+"), 255), None);
    assert_eq!(parse_i32(&chars("-")), None);
    assert_eq!(parse_i32(&chars("-+1")), None);
}
