//! The terminal, driven by bytes as a shell would send them.

use shelvd::block::BlockState;
use shelvd::completion::{encode_response, CompletionItem, CompletionResponse};
use shelvd::osc133::SemanticKind;
use shelvd::palette::Palette;
use shelvd::snapshot::{CellFlags, CursorShape, GridSnapshot};
use shelvd::terminal::{BandState, TermEvent, Terminal};


fn terminal(cols: u16, rows: u16) -> Terminal {
    Terminal::new(cols, rows, 1000, Palette::default(), CursorShape::Block)
}

#[test]
fn scrolls_into_history_and_back() {
    let mut t = terminal(10, 3);
    for i in 0..20 {
        t.process(format!("line{i}\r\n").as_bytes());
    }
    assert!(!t.is_scrolled(), "starts at the live edge");
    t.scroll_lines(5);
    assert!(t.is_scrolled(), "wheel-up moves into history");
    t.scroll_to_bottom();
    assert!(!t.is_scrolled(), "scroll-to-bottom returns to the live edge");
}

#[test]
fn scrolling_spans_frozen_blocks_and_live_grid() {
    let mut t = terminal(20, 4);
    // Two finished blocks (frozen) with distinctive output, then a running one
    // that keeps a live/active region at the bottom.
    t.process(b"\x1b]133;A\x07$ \x1b]133;B\x07first\r\n\x1b]133;C\x07AAA\r\n\x1b]133;D;0\x07");
    t.process(b"\x1b]133;A\x07$ \x1b]133;B\x07second\r\n\x1b]133;C\x07BBB\r\n\x1b]133;D;0\x07");
    t.process(b"\x1b]133;A\x07$ \x1b]133;B\x07third\r\n\x1b]133;C\x07CCC\r\n");
    assert_eq!(t.frozen_blocks().len(), 2, "two finished blocks frozen");

    // At the live edge the oldest output has scrolled above the 4-row viewport.
    let edge: String = t.snapshot().cells.iter().map(|c| c.c).collect();
    assert!(!edge.contains("AAA"), "first block is above the live edge: {edge:?}");

    // Scrolled to the top, the composite sources the first block from its
    // frozen buffer — spanning frozen blocks and (further down) the live grid.
    t.scroll_to_top();
    assert!(t.is_scrolled(), "parked in history");
    let hist: String = t.snapshot().cells.iter().map(|c| c.c).collect();
    assert!(hist.contains("AAA"), "scrolled view shows the first frozen block: {hist:?}");

    // Back at the live edge the running command's output is visible again.
    t.scroll_to_bottom();
    assert!(!t.is_scrolled());
    let back: String = t.snapshot().cells.iter().map(|c| c.c).collect();
    assert!(back.contains("CCC"), "live edge shows the running output: {back:?}");
}

#[test]
fn composite_scroll_clamps_at_both_ends() {
    let mut t = terminal(10, 3);
    for i in 0..20 {
        t.process(format!("l{i}\r\n").as_bytes());
    }
    assert!(!t.is_scrolled());
    t.scroll_lines(-5); // already at the edge — cannot scroll further down
    assert!(!t.is_scrolled(), "scrolling down at the live edge is a no-op");
    t.scroll_to_top();
    assert!(t.is_scrolled(), "scrolled to the oldest line");
    let oldest_top = t.viewport_top_line();
    t.scroll_lines(100); // cannot move past the oldest line
    assert_eq!(t.viewport_top_line(), oldest_top, "clamped at the oldest line");
    t.scroll_to_bottom();
    assert!(!t.is_scrolled(), "returned to the live edge");
}

#[test]
fn selection_yields_text() {
    let mut t = terminal(20, 3);
    // The live input line is relocated into the band, so select committed
    // output: "hello world" is bottom-anchored on row 1 (just above the band),
    // the prompt rests in the band on row 2.
    t.process(b"hello world\r\n$ ");
    t.selection_start(0, 1, false);
    t.selection_update(4, 1, true); // through the right half of column 4
    assert_eq!(t.selection_text().as_deref(), Some("hello"));
}

#[test]
fn snapshot_flags_selected_cells() {
    let mut t = terminal(20, 3);
    t.process(b"hello\r\n$ ");
    t.selection_start(0, 1, false);
    t.selection_update(4, 1, true);
    let snap = t.snapshot();
    assert!(snap.cell(0, 1).unwrap().flags.contains(CellFlags::SELECTED));
    assert!(snap.cell(4, 1).unwrap().flags.contains(CellFlags::SELECTED));
    assert!(!snap.cell(6, 1).unwrap().flags.contains(CellFlags::SELECTED));
    assert_eq!(snap.selection_color, Palette::default().selection);
}

#[test]
fn selection_spans_the_frozen_live_boundary() {
    let mut t = terminal(20, 8);
    // A finished (frozen) block above a still-running (live) one.
    t.process(b"\x1b]133;A\x07$ \x1b]133;B\x07first\r\n\x1b]133;C\x07AAA\r\n\x1b]133;D;0\x07");
    t.process(b"\x1b]133;A\x07$ \x1b]133;B\x07second\r\n\x1b]133;C\x07CCC\r\n");
    assert_eq!(t.frozen_blocks().len(), 1, "first frozen, second still running");

    // Locate the rendered rows by content (robust to bottom-anchor geometry).
    let snap = t.snapshot();
    let find = |needle: &str| (0..snap.rows).find(|&r| row_text(&snap, r).contains(needle));
    let a_row = find("AAA").expect("frozen output visible");
    let c_row = find("CCC").expect("live output visible");
    assert!(a_row < c_row, "frozen block sits above the live one");

    // Drag from the frozen output down into the live output.
    t.selection_start(0, a_row, false);
    t.selection_update(2, c_row, true);
    let text = t.selection_text().expect("a cross-boundary selection has text");
    assert!(text.contains("AAA"), "includes frozen-block output (read from the buffer): {text:?}");
    assert!(text.contains("CCC"), "includes live-grid output: {text:?}");
    assert!(
        text.find("AAA") < text.find("CCC"),
        "frozen text precedes live text in reading order: {text:?}"
    );
}

#[test]
fn composite_snapshot_flags_selection_when_scrolled() {
    let mut t = terminal(20, 4);
    t.process(b"\x1b]133;A\x07$ \x1b]133;B\x07first\r\n\x1b]133;C\x07AAA\r\n\x1b]133;D;0\x07");
    t.process(b"\x1b]133;A\x07$ \x1b]133;B\x07second\r\n\x1b]133;C\x07BBB\r\n\x1b]133;D;0\x07");
    t.process(b"\x1b]133;A\x07$ \x1b]133;B\x07third\r\n\x1b]133;C\x07CCC\r\n");
    t.scroll_to_top();
    assert!(t.is_scrolled(), "parked in history");

    // Select the oldest frozen block's output row, found by content.
    let snap0 = t.snapshot();
    let a_row =
        (0..snap0.rows).find(|&r| row_text(&snap0, r).contains("AAA")).expect("AAA at top");
    t.selection_start(0, a_row, false);
    t.selection_update(2, a_row, true);

    // The composite (scrolled) snapshot now flags the selected frozen cells.
    let snap = t.snapshot();
    assert!(
        snap.cell(0, a_row).unwrap().flags.contains(CellFlags::SELECTED),
        "frozen cell flagged selected in the composite snapshot"
    );
    assert!(!snap.cell(5, a_row).unwrap().flags.contains(CellFlags::SELECTED), "past the selection");
    assert!(t.selection_text().is_some_and(|s| s.contains("AAA")), "frozen selection yields text");
}

#[test]
fn clearing_selection_drops_text() {
    let mut t = terminal(20, 3);
    t.process(b"hello\r\n$ ");
    t.selection_start(0, 1, false);
    t.selection_update(4, 1, true);
    assert!(t.selection_text().is_some());
    t.selection_clear();
    assert!(t.selection_text().is_none());
}

#[test]
fn live_prompt_anchors_to_the_bottom() {
    let mut t = terminal(20, 6);
    t.process(b"$ ");
    let snap = t.snapshot();
    let cur = snap.cursor.expect("cursor visible");
    // The live prompt is relocated into the pinned band on the bottom row; the
    // output region above it is empty.
    assert_eq!(snap.input_band_rows, 1, "the prompt is the band's input line");
    assert_eq!(cur.row, 5, "the relocated prompt rests on the bottom row");
    assert_eq!(snap.cell(0, 5).unwrap().c, '$');
    assert!(snap.cell(0, 0).unwrap().is_blank(), "the output region above is empty");
}

#[test]
fn clear_keeps_the_prompt_at_the_bottom() {
    let mut t = terminal(20, 6);
    t.process(b"one\r\ntwo\r\n$ ");
    // What `clear` emits: home the cursor and erase the screen + scrollback.
    t.process(b"\x1b[H\x1b[2J\x1b[3J$ ");
    let snap = t.snapshot();
    assert_eq!(
        snap.cursor.expect("cursor visible").row,
        5,
        "clear leaves the prompt relocated into the band on the bottom row"
    );
    assert_eq!(snap.cell(0, 5).unwrap().c, '$');
}

#[test]
fn output_hugs_the_band_with_no_gap() {
    // The output region is bottom-anchored just above the pinned input band:
    // recent output hugs the band rather than floating at the top with a gap.
    let mut t = terminal(20, 6);
    t.process(b"\x1b]133;A\x07$ \x1b]133;B\x07echo hi\r\n\x1b]133;C\x07hi\r\n\x1b]133;D;0\x07\x1b]133;A\x07$ ");
    let snap = t.snapshot();
    // The resting prompt is pinned on the bottom row (the band)...
    assert_eq!(snap.cursor.expect("cursor visible").row, 5);
    assert_eq!(snap.cell(0, 5).unwrap().c, '$');
    // ...and the newest output ("hi") hugs the row just above it — no gap.
    assert_eq!(snap.cell(0, 4).unwrap().c, 'h', "output hugs the band, not the top");
}

#[test]
fn input_band_holds_still_as_output_grows() {
    // The defining #7 property: the input line holds still while output fills
    // and scrolls beneath it like a conventional terminal.
    let mut t = terminal(20, 6);
    t.process(b"\x1b]133;A\x07$ \x1b]133;B\x07cmd\r\n\x1b]133;C\x07");
    let band_top = |t: &Terminal| {
        let s = t.snapshot();
        s.rows - s.input_band_rows
    };
    let pinned = band_top(&t);
    for line in [b"o1\r\n".as_slice(), b"o2\r\n", b"o3\r\n", b"o4\r\n"] {
        t.process(line);
        assert_eq!(band_top(&t), pinned, "the input band stays pinned while output grows");
    }
}

#[test]
fn full_screen_output_is_not_shifted() {
    // Output fills top-to-bottom like a normal terminal: the first line sits on
    // the top row. The cursor line ('c') is the resting input, relocated into
    // the band on the bottom row.
    let mut t = terminal(20, 3);
    t.process(b"a\r\nb\r\nc");
    let snap = t.snapshot();
    assert_eq!(snap.cell(0, 0).unwrap().c, 'a');
    assert_eq!(snap.cell(0, 1).unwrap().c, 'b');
    assert_eq!(snap.cell(0, 2).unwrap().c, 'c', "the input line 'c' is in the band");
    assert_eq!(snap.cursor.expect("cursor visible").row, 2);
}

#[test]
fn alt_screen_fills_from_the_top() {
    let mut t = terminal(20, 4);
    t.process(b"\x1b[?1049h"); // enter the alternate screen (full-screen apps)
    t.process(b"x");
    let snap = t.snapshot();
    assert_eq!(snap.cell(0, 0).unwrap().c, 'x', "alt screen is not bottom-anchored");
}

#[test]
fn fresh_terminal_hides_the_cursor_until_first_output() {
    let mut t = terminal(20, 6);
    // Before any PTY byte arrives the bottom-anchored screen is blank; a lone
    // cursor must not flash there.
    assert!(t.snapshot().cursor.is_none(), "no cursor before first output");
    t.process(b"x");
    assert!(t.snapshot().cursor.is_some(), "cursor appears once output arrives");
}

#[test]
fn colored_blank_row_participates_in_the_anchor() {
    // A blank row with a non-default background is visible content: content_bottom
    // counts it so a full screen keeps it just above the band rather than
    // clipping it off the bottom.
    let mut t = terminal(20, 4);
    // A running command whose newest output line is five blue (index 4) spaces,
    // on a grid that is full once the band is reserved.
    t.process(b"\x1b]133;A\x07$ \x1b]133;B\x07run\r\n\x1b]133;C\x07a\r\nb\r\n\x1b[44m     \x1b[0m");
    let snap = t.snapshot();
    assert!(t.command_running());
    let blue = Palette::default().indexed(4);
    let last_out = snap.rows - 2; // the row just above the band
    assert_eq!(snap.cell(0, last_out).unwrap().bg, blue, "the colored blank row is kept above the band");
}

#[test]
fn cursor_blink_follows_decscusr() {
    let mut t = terminal(10, 3);
    assert!(!t.cursor_blinking(), "default cursor is steady");
    t.process(b"\x1b[1 q"); // DECSCUSR: blinking block
    assert!(t.cursor_blinking(), "DECSCUSR 1 enables blinking");
    t.process(b"\x1b[2 q"); // DECSCUSR: steady block
    assert!(!t.cursor_blinking(), "DECSCUSR 2 is steady");
}

/// Collect the absolute line of the first semantic-prompt event, if any.
fn first_prompt_line(t: &mut Terminal) -> Option<i64> {
    t.events().into_iter().find_map(|e| match e {
        TermEvent::SemanticPrompt { line, .. } => Some(line),
        _ => None,
    })
}

#[test]
fn semantic_prompt_anchors_to_cursor_line() {
    let mut t = terminal(20, 5);
    t.process(b"a\r\nb\r\nc\r\n\x1b]133;A\x07");
    // Three newlines on a 5-row grid leave the cursor on line 3, unscrolled.
    assert_eq!(first_prompt_line(&mut t), Some(3));
}

#[test]
fn semantic_prompt_line_tracks_scrollback() {
    let mut t = terminal(20, 3);
    for i in 0..6 {
        t.process(format!("L{i}\r\n").as_bytes());
    }
    t.process(b"\x1b]133;A\x07");
    // Six lines on a 3-row grid scroll four into history (abs_base 4); the
    // cursor sits on the bottom visible row (2) -> absolute line 6.
    assert_eq!(first_prompt_line(&mut t), Some(6));
}

#[test]
fn working_directory_event_surfaces() {
    let mut t = terminal(20, 3);
    t.process(b"\x1b]7;file://host/tmp/x\x07");
    let cwd = t.events().into_iter().find_map(|e| match e {
        TermEvent::WorkingDirectory(p) => Some(p),
        _ => None,
    });
    assert_eq!(cwd.as_deref(), Some("/tmp/x"));
}

#[test]
fn marker_split_across_process_calls() {
    let mut t = terminal(20, 3);
    t.process(b"x\x1b]133;");
    t.process(b"B\x07y");
    let kinds: Vec<_> = t
        .events()
        .into_iter()
        .filter_map(|e| match e {
            TermEvent::SemanticPrompt { kind, .. } => Some(kind),
            _ => None,
        })
        .collect();
    assert_eq!(kinds, vec![SemanticKind::PromptEnd]);
}

#[test]
fn builds_block_from_markers() {
    let mut t = terminal(40, 10);
    t.process(
        b"\x1b]133;A\x07$ \x1b]133;B\x07ls\r\n\x1b]133;C\x07file1\r\nfile2\r\n\x1b]133;D;0\x07",
    );
    let blocks = t.blocks();
    assert_eq!(blocks.len(), 1);
    let b = &blocks[0];
    assert_eq!(b.command, "ls");
    assert_eq!(b.exit_code, Some(0));
    assert_eq!(b.state, BlockState::Success);
    assert!(b.output_excerpt.contains("file2"));
}

#[test]
fn failed_block_decorates_rows() {
    let mut t = terminal(40, 6);
    t.process(b"\x1b]133;A\x07$ \x1b]133;B\x07boom\r\n\x1b]133;C\x07err\r\n\x1b]133;D;1\x07");
    let b = &t.blocks()[0];
    assert_eq!(b.state, BlockState::Failed);
    assert_eq!(b.exit_code, Some(1));

    let snap = t.snapshot();
    // Output is bottom-anchored, so the block's prompt row is the first
    // non-padding row; the blank rows above it carry no decoration, and the
    // finished command's cursor line is relocated into the band (no decoration).
    let top = snap
        .rows_decor
        .iter()
        .position(|d| d.block_top)
        .expect("a block-top row");
    let id = snap.rows_decor[top].block_id;
    assert_ne!(id, 0);
    assert!(snap.rows_decor[top].failed);
    assert!(snap.rows_decor[top].block_top, "prompt row is the block top");
    assert!(snap.rows_decor[top + 1].failed);
    assert!(!snap.rows_decor[top + 1].block_top);
    assert_eq!(snap.rows_decor[0].block_id, 0, "rows above the block are padding");
    let band = snap.rows as usize - 1;
    assert_eq!(snap.rows_decor[band].block_id, 0, "the band row carries no block decoration");
}

#[test]
fn second_prompt_closes_the_first_block() {
    let mut t = terminal(40, 12);
    t.process(b"\x1b]133;A\x07$ \x1b]133;B\x07a\r\n\x1b]133;C\x07\x1b]133;D;0\x07");
    t.process(b"\x1b]133;A\x07$ \x1b]133;B\x07b\r\n\x1b]133;C\x07");
    let blocks = t.blocks();
    assert_eq!(blocks.len(), 2);
    assert_eq!(blocks[0].command, "a");
    assert_eq!(blocks[1].command, "b");
    assert!(blocks[0].id != blocks[1].id);
}

#[test]
fn current_block_text_reads_the_top_block() {
    let mut t = terminal(40, 10);
    t.process(b"\x1b]133;A\x07$ \x1b]133;B\x07echo hi\r\n\x1b]133;C\x07hi\r\n\x1b]133;D;0\x07");
    let text = t.current_block_text().expect("a block is at the top");
    assert!(text.contains("echo hi"), "includes the command: {text:?}");
    assert!(text.contains("hi"), "includes the output: {text:?}");
}

#[test]
fn block_navigation_scrolls_between_prompts() {
    let mut t = terminal(40, 4); // small grid so blocks scroll into history
    t.process(b"\x1b]133;A\x07$ \x1b]133;B\x07one\r\n\x1b]133;C\x07a\r\nb\r\nc\r\n\x1b]133;D;0\x07");
    t.process(b"\x1b]133;A\x07$ \x1b]133;B\x07two\r\n\x1b]133;C\x07d\r\ne\r\nf\r\n\x1b]133;D;0\x07");
    assert!(!t.is_scrolled(), "starts at the live edge");
    // Walk backward to the earliest block (each jump lands on a prompt above
    // the current top), then confirm forward navigation returns toward it.
    let mut jumps = 0;
    while t.scroll_to_prev_block() {
        jumps += 1;
    }
    assert!(jumps >= 1, "navigated to at least one earlier block");
    assert!(t.is_scrolled(), "now parked in history");
    assert!(t.scroll_to_next_block(), "can move forward to a later block");
}

#[test]
fn sticky_header_appears_when_prompt_scrolls_off() {
    let mut t = terminal(20, 3);
    let mut input = Vec::new();
    input.extend_from_slice(b"\x1b]133;A\x07$ \x1b]133;B\x07make\r\n\x1b]133;C\x07");
    for i in 0..10 {
        input.extend_from_slice(format!("out{i}\r\n").as_bytes());
    }
    t.process(&input);
    let snap = t.snapshot();
    let sticky = snap.sticky.expect("prompt scrolled off the top -> sticky header");
    assert_eq!(sticky.command, "make");
}

/// Read a display row's glyphs into a string, for asserting on band text.
fn row_text(snap: &GridSnapshot, row: u16) -> String {
    (0..snap.cols).filter_map(|c| snap.cell(c, row).map(|x| x.c)).collect()
}

#[test]
fn running_command_reserves_a_bottom_band() {
    let mut t = terminal(20, 6);
    // A block in the running state: prompt, command, output started but not
    // finished (no 133;D).
    t.process(b"\x1b]133;A\x07$ \x1b]133;B\x07ping x\r\n\x1b]133;C\x07reply\r\n");
    let snap = t.snapshot();
    assert_eq!(snap.input_band_rows, 1, "a running command reserves the band");
    let last = snap.rows - 1;
    assert_eq!(snap.cell(0, last).unwrap().c, '$', "band mirrors the prompt line");
    assert!(row_text(&snap, last).contains("ping x"), "band shows the executed command");
}

#[test]
fn running_band_persists_when_output_fills_the_screen() {
    let mut t = terminal(20, 4);
    let mut input = Vec::new();
    input.extend_from_slice(b"\x1b]133;A\x07$ \x1b]133;B\x07loop\r\n\x1b]133;C\x07");
    for i in 0..12 {
        input.extend_from_slice(format!("out{i}\r\n").as_bytes());
    }
    t.process(&input);
    let snap = t.snapshot();
    // Output overflows the 4-row grid, yet the bottom strip is still the band,
    // not the newest output line: the persistent band did not collapse (the
    // single-grid cost is the oldest visible row scrolling off the top).
    assert_eq!(snap.input_band_rows, 1);
    let last = snap.rows - 1;
    assert_eq!(snap.cell(0, last).unwrap().c, '$');
    assert!(row_text(&snap, last).contains("loop"), "band still names the command");
    assert!(!row_text(&snap, last).contains("out"), "output never overwrites the band");
}

#[test]
fn input_band_suppressed_on_a_one_row_grid() {
    // Degenerate 1-row grid: `display_shift` bails, so `input_band_rows` must
    // agree (return 0) or `fill_input_band` would overwrite the only row.
    let mut t = terminal(20, 1);
    t.process(b"\x1b]133;A\x07$ \x1b]133;B\x07go\r\n\x1b]133;C\x07out\r\n");
    let snap = t.snapshot();
    assert_eq!(snap.input_band_rows, 0, "no band when there is no row above it");
}

#[test]
fn band_handles_wide_glyphs_in_the_command() {
    let mut t = terminal(20, 6);
    // A CJK char in the command is double-width: the band must flag it WIDE
    // with a trailing spacer rather than overdrawing its neighbor.
    t.process("\x1b]133;A\x07$ \x1b]133;B\x07編\r\n\x1b]133;C\x07x\r\n".as_bytes());
    let snap = t.snapshot();
    let last = snap.rows - 1;
    // Prompt line is "$ 編": '$'(0) ' '(1) '編'(2, wide) spacer(3).
    assert_eq!(snap.cell(2, last).unwrap().c, '編');
    assert!(snap.cell(2, last).unwrap().flags.contains(CellFlags::WIDE));
    assert!(snap.cell(3, last).unwrap().flags.contains(CellFlags::WIDE_SPACER));
}

#[test]
fn resting_prompt_relocates_into_the_band() {
    let mut t = terminal(20, 6);
    // Command finished and a fresh prompt drawn: the prompt is relocated into
    // the pinned band on the bottom row, with its output above it.
    t.process(b"\x1b]133;A\x07$ \x1b]133;B\x07x\r\n\x1b]133;C\x07\x1b]133;D;0\x07\x1b]133;A\x07$ ");
    let snap = t.snapshot();
    assert_eq!(snap.input_band_rows, 1, "the resting prompt is the band's input line");
    let cur = snap.cursor.expect("cursor visible");
    assert_eq!(cur.row, 5, "the prompt rests on the bottom row");
    assert_eq!(snap.cell(0, 5).unwrap().c, '$');
    // The finished command's prompt line ("$ x") stays in the output region,
    // bottom-anchored just above the band on row 4.
    assert_eq!(snap.cell(0, 4).unwrap().c, '$');
    assert_eq!(snap.cell(2, 4).unwrap().c, 'x');
}

#[test]
fn wrapped_resting_input_relocates_whole_into_the_band() {
    let mut t = terminal(10, 6);
    // A typed command longer than the width soft-wraps across two rows at a
    // resting prompt (OSC-133 prompt + command, no OutputStart — still editing).
    t.process(b"\x1b]133;A\x07$ \x1b]133;B\x07abcdefghijklmno");
    assert!(!t.command_running(), "still editing at the prompt");

    let snap = t.snapshot();
    assert_eq!(snap.input_band_rows, 2, "band is as tall as the wrapped input");
    let rows = snap.rows;
    let band0 = row_text(&snap, rows - 2);
    let band1 = row_text(&snap, rows - 1);
    assert!(band0.contains("abcdefgh"), "first input row in the band: {band0:?}");
    assert!(band1.contains("ijklmno"), "continuation row in the band: {band1:?}");
    // The wrapped input is *relocated*, not duplicated into the scrolling output.
    for r in 0..rows - 2 {
        let line = row_text(&snap, r);
        assert!(!line.contains("abcdefgh"), "row {r} must not duplicate the input: {line:?}");
    }
    // The caret rides the continuation row where the typing ended.
    let cur = snap.cursor.expect("cursor visible at the prompt");
    assert_eq!(cur.row, rows - 1, "cursor on the last input row");
}

#[test]
fn command_running_tracks_output_to_finish() {
    let mut t = terminal(20, 6);
    assert!(!t.command_running(), "idle before any command");
    t.process(b"\x1b]133;A\x07$ \x1b]133;B\x07go\r\n\x1b]133;C\x07");
    assert!(t.command_running(), "output started, not yet finished");
    t.process(b"out\r\n\x1b]133;D;0\x07");
    assert!(!t.command_running(), "command finished");
}

#[test]
fn command_finished_freezes_the_block() {
    let mut t = terminal(20, 6);
    assert!(t.frozen_blocks().is_empty(), "nothing frozen before a command finishes");
    t.process(b"\x1b]133;A\x07$ \x1b]133;B\x07echo\r\n\x1b]133;C\x07hi there\r\n\x1b]133;D;0\x07");
    let frozen = t.frozen_blocks();
    assert_eq!(frozen.len(), 1, "the finished block is frozen exactly once");
    let fb = &frozen[0];
    assert_eq!(fb.command, "echo", "command text carried over");
    assert!(!fb.failed, "exit 0 is success");
    assert_eq!(fb.cols, 20, "captured at the grid width");
    assert!(fb.rows() >= 2, "prompt and output rows captured");
    let text: String = fb.cells.iter().map(|c| c.c).collect();
    assert!(text.contains("hi there"), "frozen cells include the output: {text:?}");
    let has_output_line = fb
        .logical_lines
        .iter()
        .any(|l| l.iter().map(|c| c.c).collect::<String>().contains("hi there"));
    assert!(has_output_line, "a logical line holds the unwrapped output");
}

#[test]
fn frozen_blocks_list_in_order_with_metadata() {
    let mut t = terminal(20, 8);
    t.process(b"\x1b]133;A\x07$ \x1b]133;B\x07one\r\n\x1b]133;C\x07a\r\n\x1b]133;D;0\x07");
    t.process(b"\x1b]133;A\x07$ \x1b]133;B\x07two\r\n\x1b]133;C\x07b\r\n\x1b]133;D;1\x07");
    let f = t.frozen_blocks();
    assert_eq!(f.len(), 2, "one frozen buffer per finished block");
    assert_eq!(f[0].command, "one");
    assert!(!f[0].failed, "exit 0 is success");
    assert_eq!(f[1].command, "two");
    assert!(f[1].failed, "exit 1 is failed");
    assert!(f[0].id < f[1].id, "oldest first, by ascending block id");
}

#[test]
fn resize_reflows_frozen_blocks() {
    let mut t = terminal(20, 6);
    // One finished block whose 12-char output fits on a single 20-wide row.
    t.process(b"\x1b]133;A\x07$ \x1b]133;B\x07echo\r\n\x1b]133;C\x07hello world!\r\n\x1b]133;D;0\x07");
    assert_eq!(t.frozen_blocks().len(), 1);
    assert_eq!(t.frozen_blocks()[0].cols, 20);

    // Narrow to 8 columns: the block survives, re-wrapped to the new width.
    t.resize(8, 6);
    let f = t.frozen_blocks();
    assert_eq!(f.len(), 1, "frozen block survives the resize");
    assert_eq!(f[0].cols, 8, "re-wrapped to the new width");
    // The unwrapped text is the untouched source of truth across the reflow.
    let logical: String = f[0]
        .logical_lines
        .iter()
        .map(|l| l.iter().map(|c| c.c).collect::<String>())
        .collect::<Vec<_>>()
        .join("\n");
    assert!(logical.contains("hello world!"), "output text preserved: {logical:?}");
    // The 12-char line now spans more than one 8-wide visual row.
    assert!(f[0].rows() >= 2, "the long line re-wrapped onto multiple rows");
}

#[test]
fn frozen_history_survives_resize_at_a_resting_prompt() {
    let mut t = terminal(20, 4);
    // Two finished blocks with distinctive output, then a freshly drawn prompt
    // we sit at (resting — no running command).
    t.process(b"\x1b]133;A\x07$ \x1b]133;B\x07first\r\n\x1b]133;C\x07AAA\r\n\x1b]133;D;0\x07");
    t.process(b"\x1b]133;A\x07$ \x1b]133;B\x07second\r\n\x1b]133;C\x07BBB\r\n\x1b]133;D;0\x07");
    t.process(b"\x1b]133;A\x07$ \x1b]133;B\x07");
    assert!(!t.command_running(), "resting at a prompt");
    assert_eq!(t.frozen_blocks().len(), 2);

    // Resize narrower: the block history survives and re-wraps to the new width.
    t.resize(10, 4);
    assert_eq!(t.frozen_blocks().len(), 2, "history survives the resize");
    assert!(t.frozen_blocks().iter().all(|f| f.cols == 10), "each block re-wrapped");

    // Scrolled to the top, the oldest block's output still renders — sourced
    // from its reflowed frozen buffer, not the (renumbered) live grid.
    t.scroll_to_top();
    assert!(t.is_scrolled(), "parked in history after the resize");
    let hist: String = t.snapshot().cells.iter().map(|c| c.c).collect();
    assert!(hist.contains("AAA"), "oldest block survives resize + reflow: {hist:?}");
}

#[test]
fn resize_with_no_blocks_clears_cleanly() {
    // No shell integration: the live grid alone backs scrollback, and resize
    // must not leave a stale frozen list behind.
    let mut t = terminal(20, 4);
    t.process(b"plain output\r\nno markers here\r\n");
    assert!(t.blocks().is_empty());
    t.resize(10, 6);
    assert!(t.blocks().is_empty());
    assert!(t.frozen_blocks().is_empty());
}

#[test]
fn clearing_history_drops_frozen_blocks_in_lockstep() {
    let mut t = terminal(20, 4);
    // Build up some history so a reset actually shrinks it.
    t.process(b"\x1b]133;A\x07$ \x1b]133;B\x07a\r\n\x1b]133;C\x07l1\r\nl2\r\nl3\r\nl4\r\nl5\r\n\x1b]133;D;0\x07");
    assert_eq!(t.frozen_blocks().len(), 1);
    assert!(!t.blocks().is_empty());
    // A full reset (RIS) clears the screen and scrollback: history shrinks, so
    // the whole block model is wiped — the frozen list must go with it.
    t.process(b"\x1bc");
    assert!(t.blocks().is_empty(), "blocks cleared when history shrinks");
    assert!(t.frozen_blocks().is_empty(), "frozen cleared in lockstep");
}

/// Band state with the given input text and queued commands (echo on, no
/// ghost-text suggestion).
fn band(input: &str, queued: &[&str]) -> BandState {
    BandState {
        input: input.to_owned(),
        queued: queued.iter().map(|s| (*s).to_owned()).collect(),
        masked: false,
        suggestion: None,
    }
}

#[test]
fn band_input_keeps_the_prompt_prefix_before_the_typed_text() {
    let mut t = terminal(40, 6);
    // A running command so the prompt prefix ("$ ") is captured.
    t.process(b"\x1b]133;A\x07$ \x1b]133;B\x07sleep 9\r\n\x1b]133;C\x07work\r\n");
    t.set_band(band("echo hi", &[]));
    let snap = t.snapshot();
    assert_eq!(snap.input_band_rows, 1, "just the input line when nothing is queued");
    let last = snap.rows - 1;
    let line = row_text(&snap, last);
    // Reads as an anchored prompt: prefix kept, typed text after it.
    assert!(line.starts_with("$ "), "the prompt prefix leads the band: {line:?}");
    assert!(line.contains("echo hi"), "the typed text follows it: {line:?}");
    let cur = snap.cursor.expect("a caret in the band");
    assert_eq!(cur.row, last, "the caret sits on the input row");
    // Caret after the prompt ("$ " = 2 cols) plus the typed text ("echo hi" = 7).
    assert_eq!(cur.col, 9, "the caret rests past the prompt and the typed text");
    assert_eq!(cur.shape, CursorShape::Beam, "a beam reads as a text-insertion point");
}

#[test]
fn masked_band_hides_typed_input_behind_bullets() {
    let mut t = terminal(40, 6);
    // A running command (e.g. `sudo`) that turned echo off to read a secret.
    t.process(b"\x1b]133;A\x07$ \x1b]133;B\x07sudo true\r\n\x1b]133;C\x07");
    t.set_band(BandState {
        input: "hunter2".to_owned(),
        queued: Vec::new(),
        masked: true,
        suggestion: None,
    });
    let snap = t.snapshot();
    let last = snap.rows - 1;
    let line = row_text(&snap, last);
    assert!(line.starts_with("$ "), "the prompt prefix is still shown: {line:?}");
    assert!(!line.contains("hunter2"), "the secret never reaches the screen: {line:?}");
    // One bullet per typed character, and nothing but bullets after the prefix.
    let bullets = line.chars().filter(|&c| c == '\u{2022}').count();
    assert_eq!(bullets, "hunter2".chars().count(), "one bullet per typed char");
    // The beam caret still trails the masked text (prompt "$ " = 2 cols + 7).
    let cur = snap.cursor.expect("a caret in the band");
    assert_eq!(cur.row, last);
    assert_eq!(cur.col, 9, "the caret rests past the prompt and the masked text");
}

#[test]
fn ghost_text_renders_the_suggestion_dimmed_after_the_input() {
    let mut t = terminal(40, 6);
    t.process(b"\x1b]133;A\x07$ \x1b]133;B\x07sleep 9\r\n\x1b]133;C\x07work\r\n");
    // Typed "ec" with the rest of "echo hi" offered as ghost text.
    t.set_band(BandState {
        input: "ec".to_owned(),
        queued: Vec::new(),
        masked: false,
        suggestion: Some("ho hi".to_owned()),
    });
    let snap = t.snapshot();
    let last = snap.rows - 1;
    // Typed prefix and dimmed suffix read as one command on the input row.
    assert!(row_text(&snap, last).contains("echo hi"), "prefix + ghost read as one line");
    let pal = Palette::default();
    // "$ " (2 cols) + "ec" (2 cols): typed text in normal fg, ghost starts at col 4.
    assert_eq!(snap.cell(2, last).unwrap().c, 'e');
    assert_eq!(snap.cell(2, last).unwrap().fg, pal.foreground, "typed text in normal fg");
    assert_eq!(snap.cell(4, last).unwrap().c, 'h', "the ghost suffix follows the typed text");
    assert_eq!(snap.cell(4, last).unwrap().fg, pal.indexed(8), "the ghost suffix is dimmed");
}

#[test]
fn no_suggestion_leaves_the_band_clear_after_the_caret() {
    let mut t = terminal(40, 6);
    t.process(b"\x1b]133;A\x07$ \x1b]133;B\x07sleep 9\r\n\x1b]133;C\x07work\r\n");
    t.set_band(band("ec", &[])); // the helper supplies suggestion: None
    let snap = t.snapshot();
    let last = snap.rows - 1;
    // Caret at "$ " (2) + "ec" (2) = col 4; with nothing to suggest it stays blank.
    assert!(snap.cell(4, last).unwrap().is_blank(), "no ghost text painted past the caret");
}

#[test]
fn empty_band_shows_the_running_command_grayed_with_the_caret_at_the_start() {
    let mut t = terminal(40, 6);
    t.process(b"\x1b]133;A\x07$ \x1b]133;B\x07sleep 9\r\n\x1b]133;C\x07work\r\n");
    // Nothing typed yet: the band shows the running command as a placeholder.
    let snap = t.snapshot();
    let last = snap.rows - 1;
    let pal = Palette::default();
    assert_eq!(snap.cell(0, last).unwrap().c, '$');
    assert_eq!(snap.cell(0, last).unwrap().fg, pal.foreground, "prompt keeps its normal style");
    assert_eq!(snap.cell(2, last).unwrap().c, 's', "the running command is the placeholder");
    assert_eq!(snap.cell(2, last).unwrap().fg, pal.indexed(8), "the placeholder is grayed");
    // The band is the live input: a caret sits at the start of the field.
    let cur = snap.cursor.expect("a caret in the band");
    assert_eq!(cur.row, last);
    assert_eq!(cur.col, 2, "the caret rests at the start of the input area, after the prompt");
    assert_eq!(cur.shape, CursorShape::Beam);
}

#[test]
fn typing_replaces_the_grayed_placeholder() {
    let mut t = terminal(40, 6);
    t.process(b"\x1b]133;A\x07$ \x1b]133;B\x07sleep 9\r\n\x1b]133;C\x07work\r\n");
    t.set_band(band("next", &[]));
    let line = row_text(&t.snapshot(), 5);
    assert!(line.starts_with("$ "), "the prompt prefix is still there: {line:?}");
    assert!(line.contains("next"), "the typed text replaces the placeholder: {line:?}");
    assert!(!line.contains("sleep"), "the running-command placeholder is gone: {line:?}");
}

#[test]
fn queued_commands_stack_above_the_input_line_and_grow_the_band() {
    let mut t = terminal(40, 8);
    t.process(b"\x1b]133;A\x07$ \x1b]133;B\x07sleep 9\r\n\x1b]133;C\x07work\r\n");
    t.set_band(band("", &["one", "two", "three"]));
    let snap = t.snapshot();
    // One input line + one row per queued command: the band grew, pushing the
    // console up.
    assert_eq!(snap.input_band_rows, 4, "input line plus three queued rows");
    let rows = snap.rows;
    // Queued rows sit above the input line, oldest (next to run) at the top.
    assert!(row_text(&snap, rows - 4).contains("one"), "next-to-run queued at the top");
    assert!(row_text(&snap, rows - 3).contains("two"));
    assert!(row_text(&snap, rows - 2).contains("three"), "newest just above the input line");
    assert!(row_text(&snap, rows - 1).starts_with("$ "), "the input line is at the bottom");
}

#[test]
fn a_long_queue_collapses_into_a_more_row() {
    let mut t = terminal(40, 14);
    t.process(b"\x1b]133;A\x07$ \x1b]133;B\x07sleep 9\r\n\x1b]133;C\x07work\r\n");
    let many: Vec<&str> = "abcdefghij".split("").filter(|s| !s.is_empty()).collect(); // 10 items
    t.set_band(band("", &many));
    let snap = t.snapshot();
    // Capped at MAX_QUEUE_ROWS queued rows (6) plus the input line.
    assert_eq!(snap.input_band_rows, 7, "queue rows are capped");
    let collapsed = (0..snap.rows).any(|r| row_text(&snap, r).contains("more queued"));
    assert!(collapsed, "the overflow collapses into a \"+N more queued\" row");
}

#[test]
fn band_yields_to_scrollback() {
    let mut t = terminal(20, 3);
    t.process(b"\x1b]133;A\x07$ \x1b]133;B\x07go\r\n\x1b]133;C\x07");
    for i in 0..10 {
        t.process(format!("l{i}\r\n").as_bytes());
    }
    t.set_band(band("x", &[]));
    t.scroll_lines(3);
    // Scrolled history lays out top-to-bottom like a normal terminal; the band
    // (and its forced reserve) yields, matching the composite snapshot path.
    assert_eq!(t.snapshot().input_band_rows, 0, "no band in scrolled history");
}

#[test]
fn wrapped_running_type_ahead_spans_band_rows() {
    // Type-ahead wider than the grid soft-wraps onto extra band rows instead of
    // truncating — the whole line stays visible, the caret on the last row. The
    // running analog of `wrapped_resting_input_relocates_whole_into_the_band`.
    let mut t = terminal(8, 6);
    t.process(b"\x1b]133;A\x07$ \x1b]133;B\x07go\r\n\x1b]133;C\x07");
    t.set_band(band("abcdefghijkl", &[]));
    let snap = t.snapshot();
    assert_eq!(snap.input_band_rows, 2, "the band grew to fit the wrapped input");
    let rows = snap.rows;
    // "$ " (2 cols) + the first 6 chars on the first row; the rest continue below.
    let r0 = row_text(&snap, rows - 2);
    let r1 = row_text(&snap, rows - 1);
    assert!(r0.starts_with("$ "), "the prompt prefix leads the first row: {r0:?}");
    assert!(r0.contains("abcdef"), "first wrapped row: {r0:?}");
    assert!(r1.contains("ghijkl"), "continuation row: {r1:?}");
    let cur = snap.cursor.expect("a caret in the band");
    assert_eq!(cur.row, rows - 1, "the caret sits on the continuation row");
    assert!(cur.col < snap.cols, "the caret stays within the band");
}

#[test]
fn wrapped_type_ahead_clamps_to_the_band_keeping_the_caret_visible() {
    // On a short grid the band can't grow without starving the output, so the
    // wrapped field is clamped and the bottom (caret) row is shown.
    let mut t = terminal(8, 2); // one content row above the band
    t.process(b"\x1b]133;A\x07$ \x1b]133;B\x07go\r\n\x1b]133;C\x07");
    t.set_band(band("abcdefghijkl", &[]));
    let snap = t.snapshot();
    assert_eq!(snap.input_band_rows, 1, "clamped to one band row, leaving a content row");
    let last = snap.rows - 1;
    let line = row_text(&snap, last);
    assert!(line.contains("ghijkl"), "the tail (caret end) stays visible: {line:?}");
    let cur = snap.cursor.expect("a caret in the band");
    assert_eq!(cur.row, last);
    assert!(cur.col < snap.cols, "the caret stays within the band");
}

/// A block of a command and its output, finished with `exit`.
fn finished(cmd: &str, output: &str, exit: &str) -> Vec<u8> {
    format!("\x1b]133;A\x07$ \x1b]133;B\x07{cmd}\r\n\x1b]133;C\x07{output}\r\n\x1b]133;D{exit}\x07")
        .into_bytes()
}

fn shown(t: &Terminal) -> String {
    t.snapshot().cells.iter().map(|c| c.c).collect()
}

#[test]
fn chunks_do_not_matter() {
    let mut bytes = finished("one", "AAA\r\nBBB", ";0");
    bytes.extend(finished("two", "\x1b[31mCC\x1b[0m漢", ";2"));
    bytes.extend(b"\x1b]133;A\x07$ \x1b]133;B\x07thr");
    let mut whole = terminal(12, 6);
    whole.process(&bytes);
    for step in [1, 2, 3, 7] {
        let mut t = terminal(12, 6);
        for part in bytes.chunks(step) {
            t.process(part);
        }
        assert_eq!(t.snapshot().cells, whole.snapshot().cells, "in steps of {step}");
        assert_eq!(t.frozen_blocks().len(), 2);
        assert_eq!(t.frozen_blocks()[1].cells, whole.frozen_blocks()[1].cells);
    }
}

#[test]
fn ids_increase_and_buffers_match_finished_blocks() {
    let mut t = terminal(12, 6);
    for (i, exit) in [";0", "", ";7"].iter().enumerate() {
        t.process(&finished(&format!("c{i}"), "out", exit));
    }
    t.process(b"\x1b]133;A\x07$ ");
    let ids: Vec<u32> = t.blocks().iter().map(|b| b.id).collect();
    assert_eq!(ids, [1, 2, 3, 4]);
    let frozen: Vec<u32> = t.frozen_blocks().iter().map(|f| f.id).collect();
    assert_eq!(frozen, [1, 2, 3]);
    let states: Vec<BlockState> = t.blocks().iter().map(|b| b.state).collect();
    assert_eq!(states, [BlockState::Success, BlockState::Running, BlockState::Failed, BlockState::Running]);
    assert_eq!(t.blocks()[1].exit_code, None);
    assert!(t.blocks()[1].end_line.is_some(), "finished without an exit code");
}

#[test]
fn the_oldest_blocks_are_pruned_past_the_cap() {
    let mut t = Terminal::new(8, 3, 100_000, Palette::default(), CursorShape::Block);
    for _ in 0..2010 {
        t.process(&finished("x", "y", ";0"));
    }
    // The list is cut to its cap before the next block opens.
    assert_eq!(t.blocks().len(), 2001);
    assert_eq!(t.blocks()[0].id, 10);
    assert_eq!(t.blocks().last().unwrap().id, 2010);
    assert_eq!(t.frozen_blocks().len(), 2001);
}

#[test]
fn a_finished_block_holds_command_directory_and_excerpt() {
    let mut t = terminal(20, 6);
    t.process(b"\x1b]7;file://h/work%20dir\x07");
    t.process(&finished("make all", "l1\r\nl2\r\nl3\r\nl4\r\nl5\r\nl6", ";3"));
    let b = &t.blocks()[0];
    assert_eq!(b.command, "make all");
    assert_eq!(b.cwd.as_deref(), Some("/work dir"));
    assert_eq!(b.exit_code, Some(3));
    assert!(b.command_started);
    assert!(b.output_excerpt.contains("l6") && !b.output_excerpt.contains("l1"), "{:?}", b.output_excerpt);
    let prompt: String = b.prompt_prefix.iter().map(|c| c.c).collect();
    assert_eq!(prompt, "$ ");
    let f = &t.frozen_blocks()[0];
    assert!(f.failed);
    let text: Vec<String> =
        f.logical_lines.iter().map(|l| l.iter().map(|c| c.c).collect()).collect();
    // The line that the command finished on belongs to it.
    assert_eq!(text, ["$ make all", "l1", "l2", "l3", "l4", "l5", "l6", ""]);
}

#[test]
fn resized_blocks_lie_one_below_the_other() {
    let mut t = terminal(20, 6);
    t.process(&finished("first", "a long line of output", ";0"));
    t.process(&finished("second", "short", ";0"));
    t.process(b"\x1b]133;A\x07$ \x1b]133;B\x07");
    for cols in [7, 40, 20] {
        t.resize(cols, 6);
        let b = t.blocks();
        assert_eq!(b[0].end_line.unwrap() + 1, b[1].prompt_line, "at {cols}");
        assert_eq!(b[1].end_line.unwrap() + 1, b[2].prompt_line, "at {cols}");
        for f in t.frozen_blocks() {
            assert_eq!(f.cols, cols);
            assert_eq!(f.cells.len(), f.rows() * cols as usize);
        }
    }
    t.scroll_to_top();
    assert!(shown(&t).contains("a long line of outpu"));
}

#[test]
fn scrolling_up_and_down_again_returns() {
    let mut t = terminal(10, 3);
    for i in 0..30 {
        t.process(format!("l{i}\r\n").as_bytes());
    }
    let edge = t.viewport_top_line();
    t.scroll_lines(7);
    assert_eq!(t.viewport_top_line(), edge - 7);
    t.scroll_lines(-7);
    assert_eq!(t.viewport_top_line(), edge);
    assert!(!t.is_scrolled());
    t.scroll_page_up();
    assert_eq!(t.viewport_top_line(), edge - 2);
    t.scroll_page_down();
    assert_eq!(t.viewport_top_line(), edge);
    t.scroll_to_top();
    let top = t.viewport_top_line();
    t.scroll_lines(i32::MAX);
    assert_eq!(t.viewport_top_line(), top);
    t.scroll_lines(-i32::MAX);
    assert_eq!(t.viewport_top_line(), edge);
}

#[test]
fn a_completion_response_surfaces_as_an_event() {
    let res = CompletionResponse {
        replace_start: 0,
        replace_end: 2,
        items: vec![CompletionItem { value: "ls".to_owned(), description: None }],
    };
    let mut t = terminal(20, 4);
    t.process(&encode_response(&res));
    let got: Vec<CompletionResponse> = t
        .events()
        .into_iter()
        .filter_map(|e| match e {
            TermEvent::Completion(r) => Some(r),
            _ => None,
        })
        .collect();
    assert_eq!(got, [res]);
    assert!(t.events().is_empty(), "events are handed out once");
}

#[test]
fn a_selection_over_wide_glyphs_reads_them_once() {
    let mut t = terminal(10, 3);
    t.process("a漢b\r\n$ ".as_bytes());
    let row = {
        let s = t.snapshot();
        (0..3).find(|r| s.cell(0, *r).unwrap().c == 'a').unwrap()
    };
    t.selection_start(0, row, false);
    t.selection_update(3, row, true);
    assert_eq!(t.selection_text().as_deref(), Some("a漢b"));
    let s = t.snapshot();
    assert!(s.cell(1, row).unwrap().flags.contains(CellFlags::WIDE));
    assert!(s.cell(2, row).unwrap().flags.contains(CellFlags::SELECTED));
}

#[test]
fn mode_queries_follow_the_program() {
    let mut t = terminal(10, 3);
    assert!(!t.mouse_mode() && !t.alt_screen() && !t.bracketed_paste());
    t.process(b"\x1b[?1000h\x1b[?1006h\x1b[?2004h");
    assert!(t.mouse_mode() && t.sgr_mouse() && t.bracketed_paste());
    assert!(!t.mouse_report_drag() && !t.mouse_report_all_motion());
    t.process(b"\x1b[?1003h\x1b[?1049h");
    assert!(t.mouse_report_all_motion() && t.alt_screen());
    t.process(b"\x1b[?1003l\x1b[?1002h\x1b[?1049l");
    assert!(t.mouse_report_drag() && !t.alt_screen());
}

#[test]
fn a_single_column_takes_ascii() {
    let mut t = terminal(1, 4);
    t.process(b"abc\r\n");
    assert_eq!(t.grid_size(), (1, 4));
    assert_eq!(t.snapshot().cells.len(), 4);
    t.resize(5, 4);
    assert_eq!(t.grid_size(), (5, 4));
}

fn text_of(t: &Terminal) -> String {
    t.snapshot().cells.iter().map(|c| c.c).collect()
}

#[test]
fn a_single_column_takes_narrow_glyphs() {
    let mut t = terminal(1, 4);
    t.process("é".as_bytes());
    // A glyph whose bytes come in two chunks.
    t.process(b"\r\n\xc3");
    t.process(b"\xbc");
    let shown = text_of(&t);
    assert!(shown.contains('é') && shown.contains('ü'), "{shown:?}");
    // Blocks work on one column as on any other.
    t.process("\x1b]133;A\x07\x1b]133;B\x07é\r\n\x1b]133;C\x07ö\r\n\x1b]133;D;0\x07".as_bytes());
    t.process("\x1b]133;A\x07\x1b]133;B\x07à\r\n\x1b]133;C\x07".as_bytes());
    let ids: Vec<u32> = t.blocks().iter().map(|b| b.id).collect();
    assert_eq!(ids, [1, 2]);
    assert_eq!(t.frozen_blocks().len(), 1);
    assert_eq!(t.frozen_blocks()[0].id, 1);
}

#[test]
fn a_single_column_has_no_room_for_wide_glyphs() {
    let mut t = terminal(1, 4);
    assert!(t.try_process(b"ab"));
    assert!(!t.try_process("漢".as_bytes()));
    let shown = text_of(&t);
    assert!(shown.contains('a') && shown.contains('b') && !shown.contains('漢'), "{shown:?}");
    assert!(!t.try_process(b"z"), "it has stopped");
    assert_eq!(text_of(&t), shown);

    // Byte by byte, the last one completes the glyph.
    let mut t = terminal(1, 4);
    assert!(t.try_process(b"\xe6"));
    assert!(t.try_process(b"\xbc"));
    assert!(!t.try_process(b"\xa2"));

    // Where there is room, it is shown.
    let mut t = terminal(1, 4);
    assert!(t.try_resize(2, 4));
    assert!(t.try_process("漢".as_bytes()));
    assert!(text_of(&t).contains('漢'));
}

#[test]
fn what_is_not_displayed_needs_no_room() {
    // A title is not on the grid.
    let mut t = terminal(1, 4);
    assert!(t.try_process("\x1b]0;漢字\x07ok".as_bytes()));
    assert!(t.events().contains(&TermEvent::Title("漢字".to_owned())));
    assert!(text_of(&t).contains('k'));
    // Neither is a glyph that comes while lines do not wrap.
    assert!(t.try_process("\x1b[?7l漢x".as_bytes()));
    assert!(text_of(&t).contains('x') && !text_of(&t).contains('漢'));
    // A reset brings wrapping back, and so does its own sequence.
    assert!(t.try_process(b"\x1b[?7h\x1b[?7l"));
    assert!(t.try_process("漢".as_bytes()));
    assert!(t.try_process(b"\x1bc"));
    assert!(!t.try_process("漢".as_bytes()));
    // A repeated glyph is displayed anew.
    let mut t = terminal(4, 2);
    t.process("漢\x1bc".as_bytes());
    assert!(t.try_resize(1, 2));
    assert!(!t.try_process(b"\x1b[b"));
}

#[test]
fn a_refused_chunk_is_taken_up_to_the_segment_without_room() {
    let mut t = terminal(1, 4);
    assert!(!t.try_process("\x1b]133;A\x07$\x1b]133;B\x07漢\x1b]133;C\x07".as_bytes()));
    assert_eq!(t.blocks().len(), 1);
    assert!(t.blocks()[0].output_line.is_none());
    assert!(text_of(&t).contains('$'));
}

#[test]
fn a_grid_with_wide_glyphs_keeps_two_columns() {
    let mut t = terminal(10, 3);
    t.process("a漢b".as_bytes());
    assert!(!t.try_resize(1, 3));
    assert_eq!(t.grid_size(), (10, 3));
    assert!(t.try_resize(2, 3));
    assert_eq!(t.grid_size(), (2, 3));

    // Once it is overwritten, nothing is in the way.
    let mut t = terminal(10, 3);
    t.process("a漢b\rwxyz".as_bytes());
    assert!(t.try_resize(1, 3));
    assert_eq!(t.grid_size(), (1, 3));
    assert!(t.try_resize(1, 5), "one column stays one column");

    // In history it counts as well.
    let mut t = terminal(10, 2);
    t.process("漢\r\n\r\n\r\n\r\n".as_bytes());
    assert!(!t.try_resize(1, 2));
    t.process(b"\x1b[3J");
    assert!(t.try_resize(1, 2));

    // What the other screen was shown is gone with it.
    let mut t = terminal(10, 2);
    t.process("\x1b[?1049h漢".as_bytes());
    assert!(t.try_resize(1, 2));
    assert!(t.try_process(b"ab\x1b[?1049lcd"));
    assert!(text_of(&t).contains('c'));

    // While the other screen is up, the main one cannot be looked at.
    let mut t = terminal(10, 2);
    t.process("漢\x1b[?1049h".as_bytes());
    assert!(!t.try_resize(1, 2));
    t.process(b"\x1bc");
    assert!(t.try_resize(1, 2));

    let mut t = terminal(10, 3);
    t.process("aéb\x1b]0;漢\x07".as_bytes());
    assert!(t.try_resize(1, 3));
    assert_eq!(t.grid_size(), (1, 3));
}

#[test]
fn colors_of_cells_resolve_through_the_palette() {
    let p = Palette::default();
    let mut t = terminal(10, 3);
    t.process(b"\x1b[1;31mR\x1b[0m\x1b[7mI\x1b[0m\x1b[38;2;1;2;3mT\x1b[0m\x1b[48;5;196mB\x1b[0m\x1b[4;9;3mU");
    let s = t.snapshot();
    let cell = |c: char| *s.cells.iter().find(|x| x.c == c).unwrap();
    assert_eq!(cell('R').fg, p.indexed(9), "bold brightens");
    assert!(cell('R').flags.contains(CellFlags::BOLD));
    assert_eq!((cell('I').fg, cell('I').bg), (p.background, p.foreground));
    assert_eq!(cell('T').fg, shelvd::color::Rgba::rgb(1, 2, 3));
    assert_eq!(cell('B').bg, p.indexed(196));
    let u = CellFlags::UNDERLINE | CellFlags::STRIKEOUT | CellFlags::ITALIC;
    assert!(cell('U').flags.contains(u));
}

#[test]
fn plain_output_makes_no_block() {
    let mut t = terminal(10, 3);
    t.process(b"$ ls\r\na\r\nb\r\n\x1b]0;title\x07$ ");
    assert!(t.blocks().is_empty());
    assert!(t.frozen_blocks().is_empty());
}

#[test]
fn freezing_changes_no_row_of_a_block() {
    let mut t = terminal(12, 4);
    t.process(b"\x1b]133;A\x07$ \x1b]133;B\x07run\r\n\x1b]133;C\x07\x1b[31mred\x1b[0m and a longer line\r\n");
    for i in 0..6 {
        t.process(format!("line {i}\r\n").as_bytes());
    }
    t.scroll_to_top();
    assert!(t.is_scrolled());
    let live = t.snapshot().cells;
    t.process(b"\x1b]133;D;0\x07");
    assert_eq!(t.frozen_blocks().len(), 1);
    assert_eq!(t.snapshot().cells, live);
}
