//! What a frame draws.

use shelvd::color::Rgba;
use shelvd::overlay::{Overlay, OverlayColors, OverlayItem};
use shelvd::paint::{append_overlay_rects, blank_rows, build_rects, build_text, overlay_capacity, overlay_layout, overlay_text, separator_above, sticky_color, Quad};
use shelvd::snapshot::{CellFlags, CursorShape, CursorSnapshot, GridSnapshot, RowDecor, StickyHeader};

fn block_top(block_id: u32) -> RowDecor {
    RowDecor { block_id, failed: false, block_top: true }
}

fn body(block_id: u32) -> RowDecor {
    RowDecor { block_id, failed: false, block_top: false }
}

#[test]
fn separator_tops_every_block_below_row_zero() {
    // Layout: two blank top-padding rows, then block 1, then block 2.
    let rows = [
        RowDecor::default(), // 0: blank padding
        RowDecor::default(), // 1: blank padding
        block_top(1),        // 2: first visible block — sits below padding
        body(1),             // 3
        block_top(2),        // 4: next block — sits below a real block
        body(2),             // 5
    ];

    // Row 0 can never have a separator above it.
    assert!(!separator_above(&rows, 0));
    // The first/current block is delimited even though only blank padding
    // sits above it, so a fresh prompt carries its top rule from the start.
    assert!(separator_above(&rows, 2));
    // A non-`block_top` body row: no rule.
    assert!(!separator_above(&rows, 3));
    // A later block's top is delimited from the block above it.
    assert!(separator_above(&rows, 4));
    assert!(!separator_above(&rows, 5));
}

const FG: Rgba = Rgba { r: 200, g: 200, b: 200, a: 255 };
const BG: Rgba = Rgba { r: 0, g: 0, b: 0, a: 255 };
const RED: Rgba = Rgba { r: 255, g: 0, b: 0, a: 255 };
const TINT: Rgba = Rgba { r: 255, g: 0, b: 0, a: 30 };
const BLUE: Rgba = Rgba { r: 0, g: 0, b: 255, a: 255 };
const RULE: Rgba = Rgba { r: 60, g: 60, b: 60, a: 255 };

fn frame() -> GridSnapshot {
    let mut s = GridSnapshot::filled(3, 2, FG, BG);
    s.selection_color = BLUE;
    s.block_stripe = RED;
    s.block_tint = TINT;
    s.block_separator = RULE;
    s
}

#[test]
fn quads_are_painted_back_to_front() {
    let mut s = frame();
    s.cells[0].bg = BLUE;
    s.cells[4].flags.insert(CellFlags::SELECTED);
    s.rows_decor[1] = RowDecor { block_id: 3, failed: true, block_top: true };
    s.sticky = Some(StickyHeader { command: "make".to_owned(), failed: true });
    s.cursor = Some(CursorSnapshot { col: 2, row: 1, shape: CursorShape::Beam, color: FG, text_color: BG });
    assert_eq!(build_rects(&s, false), [
        Quad::Cell { col: 0, row: 0, color: BLUE },
        Quad::Wash { line: 1, color: TINT },
        Quad::Cell { col: 1, row: 1, color: BLUE },
        Quad::Stripe { line: 1, color: RED },
        Quad::Rule { line: 1, color: RULE },
        Quad::StickyBand { color: BG },
        Quad::StickyRule { color: RULE },
        Quad::StickyStripe { color: RED },
        Quad::Cursor { col: 2, row: 1, shape: CursorShape::Beam, color: FG },
    ]);
    // An open overlay covers the header.
    assert!(!build_rects(&s, true).contains(&Quad::StickyBand { color: BG }));
}

#[test]
fn plain_frame_paints_nothing() {
    let mut s = frame();
    // A row that belongs to no block is never failed; a hidden cursor is not drawn.
    s.rows_decor[0].failed = true;
    s.cursor = Some(CursorSnapshot { col: 0, row: 0, shape: CursorShape::Hidden, color: FG, text_color: BG });
    assert_eq!(build_rects(&s, false), []);
}

#[test]
fn text_runs_hold_every_glyph() {
    let mut s = frame();
    for (i, c) in "abcd\0f".chars().enumerate() {
        s.cells[i].c = c;
    }
    s.cells[1].flags.insert(CellFlags::BOLD);
    s.cursor = Some(CursorSnapshot { col: 0, row: 1, shape: CursorShape::Block, color: FG, text_color: RED });
    let runs = build_text(&s, FG, 0);
    let all: String = runs.iter().map(|r| r.text.as_str()).collect();
    assert_eq!(all, "abc\nd f\n");
    let pieces: Vec<(&str, bool, Rgba)> =
        runs.iter().map(|r| (r.text.as_str(), r.style.bold, r.style.fg)).collect();
    assert_eq!(pieces, [
        ("a", false, FG),
        ("b", true, FG),
        ("c", false, FG),
        ("\n", false, FG),
        ("d", false, RED),
        (" f", false, FG),
        ("\n", false, FG),
    ]);
    // A row under the header is blanked, its style kept.
    let runs = build_text(&s, FG, 1);
    assert_eq!(runs.iter().map(|r| r.text.as_str()).collect::<String>(), "   \nd f\n");
}

fn overlay(items: usize, no_matches: bool) -> Overlay {
    Overlay {
        prompt: ">".to_owned(),
        query: "é".to_owned(),
        items: (0..items)
            .map(|i| OverlayItem {
                label: format!("row{i}"),
                detail: if i == 0 { Some("hint".to_owned()) } else { None },
            })
            .collect(),
        selected_visible: if items > 1 { Some(1) } else { None },
        no_matches,
        query_caret_col: 3,
        colors: OverlayColors { panel_bg: BG, fg: FG, dim: RULE, sel_bg: BLUE, accent: RED },
    }
}

#[test]
fn overlay_shows_what_fits() {
    assert_eq!(overlay_capacity(0), 0);
    assert_eq!(overlay_capacity(2), 0);
    assert_eq!(overlay_capacity(5), 3);
    assert_eq!(overlay_capacity(14), 12);
    assert_eq!(overlay_capacity(u16::MAX), 12);
    let l = overlay_layout(&overlay(5, false), 5);
    assert_eq!((l.panel_rows, l.visible), (4, 3));
    let l = overlay_layout(&overlay(0, true), 5);
    assert_eq!((l.panel_rows, l.visible), (2, 0));
}

#[test]
fn overlay_quads_and_text() {
    let ov = overlay(2, false);
    let l = overlay_layout(&ov, 24);
    let mut quads = Vec::new();
    append_overlay_rects(&mut quads, &ov, l);
    assert_eq!(quads, [
        Quad::Panel { rows: 3, color: BG },
        Quad::Highlight { line: 2, color: BLUE },
        Quad::Caret { at: 3, color: RED },
        Quad::PanelRule { rows: 3, color: RED },
    ]);
    let (text, spans) = overlay_text(&ov, l);
    assert_eq!(text, "> é\n  row0  hint\n  row1");
    let pieces: Vec<(&str, Rgba, bool)> =
        spans.iter().map(|(a, b, c, bold)| (&text[*a..*b], *c, *bold)).collect();
    assert_eq!(pieces[0], (">", RED, true));
    assert_eq!(pieces[2], ("é", FG, false));
    assert_eq!(pieces[7], ("hint", RULE, false));
    assert_eq!(*pieces.last().unwrap(), ("row1", FG, true));
    // An empty query shows a placeholder, and an empty list says so.
    let mut none = overlay(0, true);
    none.query.clear();
    let (text, _) = overlay_text(&none, overlay_layout(&none, 24));
    assert_eq!(text, "> type to search\u{2026}\n  no matches");
}

#[test]
fn header_and_panel_blank_what_they_cover() {
    let mut s = frame();
    assert_eq!(blank_rows(&s, None), 0);
    assert_eq!(sticky_color(&s, false, FG), None);
    s.sticky = Some(StickyHeader { command: "ls".to_owned(), failed: false });
    assert_eq!(blank_rows(&s, None), 1);
    assert_eq!(sticky_color(&s, false, FG), Some(FG));
    assert_eq!(sticky_color(&s, true, FG), None);
    let ov = overlay(2, false);
    assert_eq!(blank_rows(&s, Some(overlay_layout(&ov, 24))), 3);
    s.sticky = Some(StickyHeader { command: "ls".to_owned(), failed: true });
    assert_eq!(sticky_color(&s, false, FG), Some(RED));
}
