//! The command palette and the history search.

use shelvd::color::Rgba;
use shelvd::commands::{commands, Action, Chord, ChordKey};
use shelvd::keys::{Key, Modifiers, NamedKey};
use shelvd::overlay::{is_matchable, mix, overlay_colors, rank, BandInput, OverlayColors, OverlayState};
use shelvd::palette::Palette;

/// A throwaway palette — `to_overlay` only copies it into the `Overlay`, so
/// the exact values don't matter for the windowing assertions.
fn test_colors() -> OverlayColors {
    let c = Rgba::new(0, 0, 0, 255);
    OverlayColors { panel_bg: c, fg: c, dim: c, sel_bg: c, accent: c }
}

#[test]
fn to_overlay_windows_to_capacity_around_the_selection() {
    // More commands than the window holds, selection driven near the end.
    let cmds: Vec<String> = (0..50).map(|i| format!("cmd-{i:02}")).collect();
    let mut h = OverlayState::history(cmds);
    let capacity = 12;
    // Select the second-to-last row (index 48 of 50).
    h.move_selection(-2);
    assert_eq!(h.selected(), 48);

    let ov = h.to_overlay(test_colors(), capacity);

    // (a) Exactly `capacity` rows are materialized, not the whole list.
    assert_eq!(ov.items.len(), capacity);
    // (b) The window scrolled to include the selected command's label.
    let sv = ov.selected_visible.expect("selection is inside the window");
    assert_eq!(ov.items[sv].label, "cmd-48");
    // (c) `selected_visible` indexes the selected item within `items`.
    assert!(sv < ov.items.len());
}

#[test]
fn to_overlay_keeps_every_row_when_under_capacity() {
    let h = OverlayState::history(vec!["one".into(), "two".into(), "three".into()]);
    let ov = h.to_overlay(test_colors(), 12);
    assert_eq!(ov.items.len(), 3);
    assert_eq!(ov.selected_visible, Some(0));
}

#[test]
fn to_overlay_flags_no_matches() {
    let mut p = OverlayState::palette();
    // A matching query: results exist, so the flag is clear.
    for c in "quit".chars() {
        p.input_char(c);
    }
    assert!(!p.to_overlay(test_colors(), 12).no_matches);
    // Nonsense query: nothing matches, so the flag is set (and the renderer
    // draws a "no matches" row off it, not off an empty `items`).
    for c in "zzz".chars() {
        p.input_char(c);
    }
    assert!(p.listed() == 0);
    assert!(p.to_overlay(test_colors(), 12).no_matches);

    // An empty query never flags "no matches", even when nothing is listed:
    // a history with no recorded commands shows only the placeholder, not a
    // contradictory placeholder + "no matches" pair.
    let empty_history = OverlayState::history(vec![]);
    assert!(empty_history.listed() == 0);
    assert!(!empty_history.to_overlay(test_colors(), 12).no_matches);
}

#[test]
fn to_overlay_caret_column_uses_display_width() {
    // Palette prompt ">" is one column; the separating space is another.
    let base = OverlayState::palette().to_overlay(test_colors(), 12).query_caret_col;
    assert_eq!(base, 2, "\"> \" places the caret in column 2");

    // A wide (double-width) CJK glyph advances the caret by two columns, not
    // one — a char count would have drifted it left by one.
    let mut h = OverlayState::history(vec!["世界".into()]);
    h.input_char('世'); // U+4E16, display width 2
    let ov = h.to_overlay(test_colors(), 12);
    // prompt "history" = 7 cols, + 1 space, + 2 for the wide glyph.
    assert_eq!(ov.query_caret_col, 7 + 1 + 2);
}

#[test]
fn palette_starts_showing_everything() {
    let p = OverlayState::palette();
    assert_eq!(p.listed(), p.entries());
    assert!(p.entries() >= 5);
}

#[test]
fn fuzzy_query_narrows_to_the_match() {
    let mut p = OverlayState::palette();
    for c in "quit".chars() {
        p.input_char(c);
    }
    assert!(matches!(p.selected_action(), Some(Action::Quit)));
}

#[test]
fn selection_wraps_both_ways() {
    let mut p = OverlayState::palette();
    let n = p.listed();
    assert!(n > 1);
    p.move_selection(-1);
    assert_eq!(p.selected(), n - 1);
    p.move_selection(1);
    assert_eq!(p.selected(), 0);
}

#[test]
fn backspace_restores_earlier_matches() {
    let mut p = OverlayState::palette();
    for c in "zzz".chars() {
        p.input_char(c);
    }
    assert!(p.listed() == 0, "nonsense query matches nothing");
    for _ in 0..3 {
        p.backspace();
    }
    assert_eq!(p.listed(), p.entries());
}

#[test]
fn history_picks_insert_the_command() {
    let mut h = OverlayState::history(vec!["cargo build".into(), "ls -la".into()]);
    for c in "ls".chars() {
        h.input_char(c);
    }
    match h.selected_action() {
        Some(Action::InsertCommand(cmd)) => assert_eq!(cmd, "ls -la"),
        other => panic!("expected InsertCommand, got {other:?}"),
    }
}

#[test]
fn actions_are_findable_by_their_keybinding() {
    // "Copy current block" is the only action whose hint ends in X.
    let mut p = OverlayState::palette();
    for c in "ctrl+shift+x".chars() {
        p.input_char(c);
    }
    assert!(matches!(p.selected_action(), Some(Action::CopyBlock)));
}

#[test]
fn selection_is_preserved_across_narrowing() {
    let mut p = OverlayState::palette();
    for c in "scroll".chars() {
        p.input_char(c);
    }
    assert_eq!(p.listed(), 2, "both scroll actions match");
    p.move_selection(1); // highlight "Scroll to bottom"
    assert!(matches!(p.selected_action(), Some(Action::ScrollToBottom)));
    // Both still match; the highlight must follow the item, not reset to top.
    p.input_char('o');
    assert!(matches!(p.selected_action(), Some(Action::ScrollToBottom)));
}

#[test]
fn chord_matches_required_mods_case_insensitively() {
    let p = Chord::new(true, true, false, ChordKey::Char('p'));
    let ctrl_shift = Modifiers { ctrl: true, shift: true, alt: false };
    assert!(p.matches(&Key::Character("p".into()), ctrl_shift));
    assert!(p.matches(&Key::Character("P".into()), ctrl_shift));
    // A required modifier missing: no match.
    assert!(!p.matches(&Key::Character("p".into()), Modifiers { ctrl: true, shift: false, alt: false }));
    // Extra modifiers are ignored — only the required ones are checked.
    assert!(p.matches(&Key::Character("p".into()), Modifiers { ctrl: true, shift: true, alt: true }));
    // Wrong key: no match.
    assert!(!p.matches(&Key::Character("q".into()), ctrl_shift));
}

#[test]
fn chord_hint_reads_like_the_keybinding() {
    assert_eq!(Chord::new(true, true, false, ChordKey::Char('x')).hint(), "Ctrl+Shift+X");
    assert_eq!(
        Chord::new(true, true, false, ChordKey::Named(NamedKey::ArrowUp)).hint(),
        "Ctrl+Shift+Up"
    );
    assert_eq!(
        Chord::new(false, true, false, ChordKey::Named(NamedKey::PageDown)).hint(),
        "Shift+PageDown"
    );
    // The compose-next chord: the hint must name Enter, not stop at the mods.
    assert_eq!(
        Chord::new(true, true, false, ChordKey::Named(NamedKey::Enter)).hint(),
        "Ctrl+Shift+Enter"
    );
}

#[test]
fn band_input_edits_like_a_line() {
    let mut c = BandInput::default();
    for ch in "hi".chars() {
        c.input_char(ch);
    }
    assert_eq!(c.text(), "hi");
    c.backspace();
    assert_eq!(c.text(), "h");
    // Taking the text yields it and clears the line for the next entry.
    assert_eq!(c.take(), "h");
    assert!(c.is_empty(), "take leaves the line empty");
}

#[test]
fn queue_input_is_keybound_and_listed() {
    let table = commands();
    let queue = table
        .iter()
        .find(|b| matches!(b.action, Action::QueueInput))
        .expect("queue-input is in the command table");
    assert_eq!(queue.chord.unwrap().hint(), "Ctrl+Shift+Enter");
    assert!(queue.label.is_some(), "it surfaces in the palette");
}

#[test]
fn open_palette_is_keybound_but_not_a_palette_row() {
    // The table is the single source of truth: open-palette is reachable by
    // its chord yet never lists itself as a palette row.
    let table = commands();
    let open = table
        .iter()
        .find(|b| matches!(b.action, Action::OpenPalette))
        .expect("open-palette is in the command table");
    assert!(open.chord.is_some());
    assert!(open.label.is_none());
}

#[test]
fn a_keybound_palette_row_surfaces_its_chord_as_the_hint() {
    // A labelled row with a chord teaches the keybinding rather than carrying
    // a hand-written hint that could drift from the keymap.
    let table = commands();
    let copy_block = table
        .iter()
        .find(|b| matches!(b.action, Action::CopyBlock))
        .unwrap();
    assert_eq!(copy_block.label, Some("Copy current block"));
    assert_eq!(copy_block.chord.unwrap().hint(), "Ctrl+Shift+X");
}

#[test]
fn ranking_is_best_first_and_stable() {
    assert_eq!(rank(&[Some(3), None, Some(9), Some(3), Some(0)]), [2, 0, 3, 4]);
    assert_eq!(rank(&[None, None]), [] as [usize; 0]);
}

#[test]
fn colors_come_from_the_palette() {
    let p = Palette::shelvd_dark();
    let c = overlay_colors(&p);
    assert_eq!(c.fg, p.foreground);
    assert_eq!(c.accent, p.cursor);
    assert_eq!(c.panel_bg, Rgba::rgb(36, 32, 29));
    assert_eq!(mix(Rgba::rgb(255, 255, 255), Rgba::rgb(0, 0, 0), 120), Rgba::rgb(120, 120, 120));
}

#[test]
fn moving_the_highlight_back_returns() {
    let mut p = OverlayState::palette();
    let n = p.to_overlay(test_colors(), 100).items.len() as i32;
    for delta in [1, -1, 5, n, 1000, i32::MAX, i32::MIN + 1] {
        let before = p.selected();
        p.move_selection(delta);
        p.move_selection(-delta);
        assert_eq!(p.selected(), before);
    }
}

#[test]
fn control_characters_are_not_typed() {
    let mut b = BandInput::default();
    b.input_text("a\u{7}b\u{1b}");
    assert_eq!(b.text(), "ab");
    let mut h = OverlayState::history(vec!["abc".to_owned()]);
    h.input_text("a\nb");
    assert_eq!(h.to_overlay(test_colors(), 5).query, "ab");
}

#[test]
fn a_score_that_cannot_be_counted_lists_nothing() {
    let mut h = OverlayState::history(vec!["a".repeat(4000)]);
    h.input_text(&"a".repeat(2521));
    let ov = h.to_overlay(test_colors(), 5);
    assert!(ov.items.is_empty());
    assert!(ov.no_matches);
    assert!(h.selected_action().is_none());
    h.backspace();
    assert_eq!(h.to_overlay(test_colors(), 5).items.len(), 1);
}

#[test]
fn a_long_query_of_short_words_still_matches() {
    let mut h = OverlayState::history(vec!["ab cd".to_owned(), "xyz".to_owned()]);
    h.input_text(&"ab ".repeat(900));
    assert_eq!(h.listed(), 1);
    assert!(matches!(h.selected_action(), Some(Action::InsertCommand(c)) if c == "ab cd"));
}

#[test]
fn long_words_are_matched_against_short_entries() {
    let mut h = OverlayState::history(vec!["ls -la".to_owned(), "make".to_owned()]);
    h.input_text(&"z".repeat(2600));
    assert_eq!(h.listed(), 0);
    // A word that must not occur lists what does not hold it.
    let mut h = OverlayState::history(vec!["ls -la".to_owned(), "make".to_owned()]);
    h.input_text(&format!("!{}", "z".repeat(2600)));
    assert_eq!(h.listed(), 2);
}

#[test]
fn scores_are_counted_as_far_as_they_go() {
    let chars = |s: String| s.chars().collect::<Vec<char>>();
    let long = 4000;
    assert!(is_matchable(&chars(String::new()), long));
    assert!(is_matchable(&chars("a".repeat(2520)), long));
    assert!(!is_matchable(&chars("a".repeat(2521)), long));
    assert!(is_matchable(&chars(format!("{} {}", "a".repeat(2520), "b".repeat(2520))), long));
    assert!(!is_matchable(&chars(format!("b {} b", "a".repeat(2521))), long));
    // A backslash before a space keeps the word together.
    assert!(!is_matchable(&chars(format!("{}\\ {}", "a".repeat(1500), "b".repeat(1500))), long));
    // No more can match than the entry has.
    assert!(is_matchable(&chars("a".repeat(2521)), 2520));
    assert!(!is_matchable(&chars("a".repeat(2521)), 2521));
    // Many words are no trouble.
    assert!(is_matchable(&chars("a ".repeat(100_000)), long));
    // An entry longer than the matcher can index is not scored.
    assert!(!is_matchable(&chars("a".to_owned()), u32::MAX as usize + 1));
}

#[test]
fn scores_are_those_of_the_default_matcher() {
    // A word's beginning scores better than its middle.
    let mut h = OverlayState::history(vec!["xquit".to_owned(), "x quit".to_owned(), "quit".to_owned()]);
    h.input_text("quit");
    let labels: Vec<String> = h.to_overlay(test_colors(), 5).items.into_iter().map(|i| i.label).collect();
    assert_eq!(labels, ["x quit", "quit", "xquit"]);
}
