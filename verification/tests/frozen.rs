//! Frozen buffers and their reflow.

use shelvd::color::Rgba;
use shelvd::frozen::FrozenBlock;
use shelvd::snapshot::{CellFlags, CellSnapshot};

fn cell(c: char) -> CellSnapshot {
    let w = Rgba::new(255, 255, 255, 255);
    let k = Rgba::new(0, 0, 0, 255);
    CellSnapshot { c, ..CellSnapshot::blank(w, k) }
}

fn line(s: &str) -> Vec<CellSnapshot> {
    s.chars().map(cell).collect()
}

#[test]
fn construction_exposes_metadata_rows_and_logical_lines() {
    // A 4-wide block whose one logical line "hello" soft-wrapped to two
    // visual rows ("hell" / "o   ").
    let cols = 4u16;
    let mut cells = line("hell");
    cells.extend(line("o   "));
    let block = FrozenBlock {
        id: 7,
        command: "echo hello".to_owned(),
        failed: true,
        cwd: Some("/tmp".to_owned()),
        cols,
        cells,
        logical_lines: vec![line("hello")],
        blank: cell(' '),
    };

    // Metadata is carried verbatim.
    assert_eq!(block.id, 7);
    assert_eq!(block.command, "echo hello");
    assert!(block.failed);
    assert_eq!(block.cwd.as_deref(), Some("/tmp"));

    // Visual rows are derived from the flat cell buffer and the width.
    assert_eq!(block.rows(), 2);
    let row0: String = block.row(0).unwrap().iter().map(|c| c.c).collect();
    let row1: String = block.row(1).unwrap().iter().map(|c| c.c).collect();
    assert_eq!(row0, "hell");
    assert_eq!(row1, "o   ");
    assert!(block.row(2).is_none(), "out-of-range rows return None");

    // The logical line keeps the unwrapped text for later reflow.
    let logical: String = block.logical_lines[0].iter().map(|c| c.c).collect();
    assert_eq!(logical, "hello");
}

#[test]
fn zero_width_block_has_no_rows() {
    let block = FrozenBlock {
        id: 1,
        command: String::new(),
        failed: false,
        cwd: None,
        cols: 0,
        cells: Vec::new(),
        logical_lines: Vec::new(),
        blank: cell(' '),
    };
    assert_eq!(block.rows(), 0);
    assert!(block.row(0).is_none());
}

fn block_of(lines: Vec<Vec<CellSnapshot>>) -> FrozenBlock {
    FrozenBlock {
        id: 1,
        command: "c".to_owned(),
        failed: false,
        cwd: None,
        cols: 0,
        cells: Vec::new(),
        logical_lines: lines,
        blank: cell(' '),
    }
}

fn rows_of(b: &FrozenBlock) -> Vec<String> {
    (0..b.rows()).map(|r| b.row(r).unwrap().iter().map(|c| c.c).collect()).collect()
}

#[test]
fn reflow_wraps_pads_and_keeps_empty_lines() {
    let mut b = block_of(vec![line("hello"), line(""), line("abcd")]);
    b.reflow(4);
    assert_eq!(rows_of(&b), ["hell", "o   ", "    ", "abcd"]);
    assert_eq!(b.cells.len(), 4 * b.rows());
    b.reflow(10);
    assert_eq!(rows_of(&b), ["hello     ", "          ", "abcd      "]);
    assert!(b.row(3).is_none());
}

#[test]
fn reflow_there_and_back_is_the_same() {
    let mut b = block_of(vec![line("the quick brown fox"), line("jumps")]);
    b.reflow(7);
    let at_seven = b.cells.clone();
    for w in [1, 3, 80, 19, 0] {
        b.reflow(w);
    }
    assert_eq!(b.rows(), 0, "no width has no rows");
    b.reflow(7);
    assert_eq!(b.cells, at_seven);
    let joined: String = b.cells.iter().map(|c| c.c).collect();
    assert_eq!(joined, "the quick brown fox  jumps  ");
}

#[test]
fn reflow_never_splits_a_wide_glyph() {
    let mut wide = cell('漢');
    wide.flags.insert(CellFlags::WIDE);
    let mut spacer = cell(' ');
    spacer.flags.insert(CellFlags::WIDE_SPACER);
    let mut b = block_of(vec![vec![cell('a'), wide, spacer, cell('b')]]);
    b.reflow(2);
    assert_eq!(rows_of(&b), ["a ", "漢 ", "b "]);
    b.reflow(3);
    assert_eq!(rows_of(&b), ["a漢 ", "b  "]);
}
