//! A session, driven by the events of a window.

use shelvd::geometry::{ResizeEdge, TitlebarHit};
use shelvd::keys::{Key, KeyPress, Modifiers, NamedKey};
use shelvd::mouse::MouseButton;
use shelvd::overlay::overlay_colors;
use shelvd::palette::Palette;
use shelvd::session::{history_commands, paste_payload, Effect, Session};
use shelvd::snapshot::CursorShape;
use shelvd::terminal::Terminal;

fn session(cols: u16, rows: u16) -> Session {
    let p = Palette::default();
    Session::new(Terminal::new(cols, rows, 1000, p, CursorShape::Block), overlay_colors(&p), true, 0)
}

fn named(key: NamedKey) -> KeyPress {
    KeyPress { logical_key: Key::Named(key), text: None }
}

fn typed(s: &str) -> KeyPress {
    KeyPress { logical_key: Key::Character(s.to_owned()), text: Some(s.to_owned()) }
}

fn hold(ctrl: bool, shift: bool, alt: bool) -> Modifiers {
    Modifiers { ctrl, shift, alt }
}

fn pty(bytes: &[u8]) -> Effect {
    Effect::WritePty(bytes.to_vec())
}

/// A session with a command running in it.
fn running(cols: u16, rows: u16) -> Session {
    let mut s = session(cols, rows);
    s.feed(b"\x1b]133;A\x07$ \x1b]133;B\x07cat\r\n\x1b]133;C\x07");
    s.settle(true, true, 0);
    s
}

const PALETTE: (bool, bool, bool) = (true, true, false);

fn chord(s: &mut Session, m: (bool, bool, bool), press: &KeyPress) -> Vec<Effect> {
    s.modifiers_changed(hold(m.0, m.1, m.2));
    let out = s.key_pressed(press, true);
    s.modifiers_changed(Modifiers::none());
    out
}

#[test]
fn keys_go_to_the_child() {
    let mut s = session(20, 5);
    assert_eq!(s.key_pressed(&typed("l"), true), [Effect::Redraw, pty(b"l")]);
    assert_eq!(s.key_pressed(&named(NamedKey::Other), true), []);
}

#[test]
fn an_open_overlay_takes_the_keyboard() {
    let mut s = session(20, 5);
    assert_eq!(chord(&mut s, PALETTE, &typed("p")), [Effect::Redraw]);
    let (snap, ov) = s.frame(10);
    assert!(ov.is_some());
    assert!(snap.cursor.is_none());
    assert_eq!(s.key_pressed(&typed("q"), true), [Effect::Redraw]);
    assert_eq!(s.frame(10).1.unwrap().query, "q");
    assert_eq!(s.key_pressed(&named(NamedKey::Backspace), true), [Effect::Redraw]);
    assert_eq!(s.key_pressed(&named(NamedKey::Escape), true), [Effect::Redraw]);
    assert!(s.frame(10).1.is_none());
    // Enter runs the highlighted command.
    chord(&mut s, PALETTE, &typed("p"));
    s.key_pressed(&typed("quit"), true);
    assert_eq!(s.key_pressed(&named(NamedKey::Enter), true), [Effect::Exit, Effect::Redraw]);
    assert!(s.frame(10).1.is_none());
}

#[test]
fn a_click_dismisses_the_overlay() {
    let mut s = session(20, 5);
    chord(&mut s, PALETTE, &typed("p"));
    assert_eq!(s.mouse_input(false, MouseButton::Left, (0, 0, false), None, None, 0), []);
    assert_eq!(s.mouse_input(true, MouseButton::Right, (0, 0, false), None, None, 0), [Effect::Redraw]);
    assert!(s.frame(10).1.is_none());
}

#[test]
fn typing_while_a_command_runs_goes_to_the_band() {
    let mut s = running(20, 6);
    assert_eq!(s.key_pressed(&typed("y"), true), [Effect::Redraw]);
    assert_eq!(s.key_pressed(&named(NamedKey::Space), true), [Effect::Redraw]);
    assert_eq!(s.key_pressed(&typed("z"), true), [Effect::Redraw]);
    let shown: String = s.frame(5).0.cells.iter().map(|c| c.c).collect();
    assert!(shown.contains("y z"), "{shown:?}");
    assert_eq!(s.key_pressed(&named(NamedKey::Enter), true), [pty(b"y z\r"), Effect::Redraw]);
    // Control keys still reach the command.
    assert_eq!(chord(&mut s, (true, false, false), &typed("c")), [Effect::Redraw, pty(&[3])]);
}

#[test]
fn masked_input_never_shows() {
    let mut s = running(20, 6);
    s.key_pressed(&typed("hunter"), false);
    let shown: String = s.frame(5).0.cells.iter().map(|c| c.c).collect();
    assert!(!shown.contains("hunter"));
    assert!(shown.contains("\u{2022}\u{2022}\u{2022}\u{2022}\u{2022}\u{2022}"), "{shown:?}");
    assert_eq!(s.key_pressed(&named(NamedKey::Enter), false), [pty(b"hunter\r"), Effect::Redraw]);
}

#[test]
fn prompts_run_the_queue_one_by_one() {
    let mut s = running(20, 8);
    for cmd in ["one", "  ", "two"] {
        s.key_pressed(&typed(cmd), true);
        chord(&mut s, PALETTE, &named(NamedKey::Enter));
    }
    s.key_pressed(&typed("half"), true);
    let prompt = b"\x1b]133;D;0\x07\x1b]133;A\x07$ ";
    s.feed(prompt);
    assert!(s.settle(true, true, 10).contains(&pty(b"one\r")));
    s.feed(prompt);
    assert!(s.settle(true, true, 20).contains(&pty(b"two\r")), "blank lines are not queued");
    s.feed(prompt);
    assert!(s.settle(true, true, 30).contains(&pty(b"half")), "a half-typed line is handed over");
    s.feed(prompt);
    let out = s.settle(true, true, 40);
    assert!(!out.iter().any(|e| matches!(e, Effect::WritePty(_))), "{out:?}");
}

#[test]
fn history_is_newest_first_without_repeats() {
    let mut s = session(30, 6);
    for cmd in ["ls", "make", "ls"] {
        s.feed(format!("\x1b]133;A\x07$ \x1b]133;B\x07{cmd}\r\n\x1b]133;C\x07ok\r\n\x1b]133;D;0\x07").as_bytes());
    }
    assert_eq!(history_commands(s.terminal()), ["ls", "make"]);
    chord(&mut s, PALETTE, &typed("r"));
    s.key_pressed(&named(NamedKey::ArrowDown), true);
    assert_eq!(s.key_pressed(&named(NamedKey::Enter), true), [pty(b"make"), Effect::Redraw]);
}

#[test]
fn typed_text_suggests_the_newest_command() {
    let mut s = session(30, 8);
    s.feed(b"\x1b]133;A\x07$ \x1b]133;B\x07make all\r\n\x1b]133;C\x07ok\r\n\x1b]133;D;0\x07");
    s.feed(b"\x1b]133;A\x07$ \x1b]133;B\x07cat\r\n\x1b]133;C\x07");
    s.settle(true, true, 0);
    s.key_pressed(&typed("ma"), true);
    let shown: String = s.frame(5).0.cells.iter().map(|c| c.c).collect();
    assert_eq!(shown.matches("make all").count(), 2, "the old command, and the suggestion");
}

#[test]
fn the_program_sets_title_and_clipboard() {
    let mut s = session(20, 5);
    s.feed(b"\x1b]0;hello\x07\x1b]52;c;aGk=\x07");
    let out = s.settle(true, true, 0);
    assert!(out.contains(&Effect::SetTitle("hello".to_owned())), "{out:?}");
    assert!(out.contains(&Effect::SetClipboard("hi".to_owned())), "{out:?}");
    // A session that may not write the clipboard does not.
    let p = Palette::default();
    let t = Terminal::new(20, 5, 100, p, CursorShape::Block);
    let mut s = Session::new(t, overlay_colors(&p), false, 0);
    s.feed(b"\x1b]52;c;aGk=\x07");
    assert_eq!(s.settle(true, true, 0), [Effect::Redraw]);
}

#[test]
fn replies_go_back_to_the_child() {
    let mut s = session(20, 5);
    s.feed(b"ab\x1b[6n");
    assert_eq!(s.settle(true, true, 0), [pty(b"\x1b[1;3R"), Effect::Redraw]);
    assert_eq!(s.settle(false, true, 0), []);
}

#[test]
fn the_mouse_goes_to_a_program_that_reads_it() {
    let mut s = session(20, 5);
    s.feed(b"\x1b[?1002h\x1b[?1006h");
    s.settle(true, true, 0);
    let at = (4, 2, false);
    assert_eq!(s.mouse_input(true, MouseButton::Left, at, None, None, 0), [pty(b"\x1b[<0;5;3M")]);
    assert_eq!(s.pointer_moved((5, 2, false), None), [pty(b"\x1b[<32;6;3M")]);
    assert_eq!(s.pointer_moved((5, 2, true), None), [], "one report for each cell");
    assert_eq!(s.mouse_input(false, MouseButton::Left, at, None, None, 0), [pty(b"\x1b[<0;5;3m")]);
    assert_eq!(s.pointer_moved((6, 2, false), None), [], "no button is held");
    assert_eq!(s.wheel(6, 2, 1, 1), [pty(b"\x1b[<64;2;2M"), pty(b"\x1b[<64;2;2M")]);
    assert_eq!(s.mouse_input(true, MouseButton::Other, at, None, None, 0), []);
    // Shift forces local selection.
    s.modifiers_changed(hold(false, true, false));
    assert_eq!(s.mouse_input(true, MouseButton::Left, at, None, None, 0), [Effect::Redraw]);
    assert_eq!(s.pointer_moved((7, 2, false), None), [Effect::Redraw]);
}

#[test]
fn dragging_selects_and_copies() {
    let mut s = session(20, 5);
    s.feed(b"hello world");
    s.settle(true, true, 0);
    let row = {
        let snap = s.frame(5).0;
        (0..5).find(|r| snap.cell(0, *r).unwrap().c == 'h').unwrap()
    };
    assert_eq!(s.mouse_input(true, MouseButton::Left, (0, row, false), None, None, 0), [Effect::Redraw]);
    assert_eq!(s.pointer_moved((4, row, true), None), [Effect::Redraw]);
    assert_eq!(
        s.mouse_input(false, MouseButton::Left, (4, row, true), None, None, 0),
        [Effect::SetClipboard("hello".to_owned())]
    );
    assert_eq!(s.pointer_moved((5, row, true), None), []);
    assert_eq!(s.mouse_input(true, MouseButton::Middle, (0, 0, false), None, None, 0), [Effect::ReadClipboard]);
}

#[test]
fn window_edges_come_first() {
    let mut s = session(20, 5);
    let left = |s: &mut Session, edge, hit, now| {
        s.mouse_input(true, MouseButton::Left, (0, 0, false), edge, hit, now)
    };
    assert_eq!(
        left(&mut s, Some(ResizeEdge::North), Some(TitlebarHit::Close), 0),
        [Effect::DragResize(ResizeEdge::North)]
    );
    assert_eq!(left(&mut s, None, Some(TitlebarHit::Minimize), 0), [Effect::Minimize]);
    assert_eq!(left(&mut s, None, Some(TitlebarHit::Maximize), 0), [Effect::ToggleMaximize]);
    assert_eq!(left(&mut s, None, Some(TitlebarHit::Close), 0), [Effect::Exit]);
    // A quick second press on the bar maximizes; a slow one moves the window.
    let bar = Some(TitlebarHit::Drag);
    assert_eq!(left(&mut s, None, bar, 1000), [Effect::DragWindow]);
    assert_eq!(left(&mut s, None, bar, 1400), [Effect::ToggleMaximize]);
    assert_eq!(left(&mut s, None, bar, 1500), [Effect::DragWindow]);
    assert_eq!(left(&mut s, None, bar, 1901), [Effect::DragWindow]);
}

#[test]
fn hovering_follows_the_buttons() {
    let mut s = session(20, 5);
    assert_eq!(
        s.pointer_moved((0, 0, false), Some(TitlebarHit::Close)),
        [Effect::Hover(Some(TitlebarHit::Close)), Effect::Redraw]
    );
    assert_eq!(s.pointer_moved((0, 0, false), Some(TitlebarHit::Close)), []);
    assert_eq!(
        s.pointer_moved((0, 0, false), Some(TitlebarHit::Drag)),
        [Effect::Hover(None), Effect::Redraw]
    );
}

#[test]
fn the_wheel_scrolls_moves_or_sends_arrows() {
    let mut s = session(10, 3);
    for i in 0..20 {
        s.feed(format!("l{i}\r\n").as_bytes());
    }
    s.settle(true, true, 0);
    assert_eq!(s.wheel(0, 0, 0, 0), []);
    assert_eq!(s.wheel(3, 1, 0, 0), [Effect::Redraw]);
    assert!(s.terminal().is_scrolled());
    // Typing returns to the live edge.
    s.key_pressed(&typed("x"), true);
    assert!(!s.terminal().is_scrolled());
    chord(&mut s, PALETTE, &typed("p"));
    assert_eq!(s.wheel(-2, -1, 0, 0), [Effect::Redraw]);
    assert_eq!(s.frame(10).1.unwrap().selected_visible, Some(2));
    s.key_pressed(&named(NamedKey::Escape), true);
    s.feed(b"\x1b[?1049h");
    s.settle(true, true, 0);
    assert_eq!(s.wheel(2, 1, 0, 0), [pty(b"\x1b[A"), pty(b"\x1b[A")]);
    assert_eq!(s.wheel(-1, 0, 0, 0), [pty(b"\x1b[B")]);
}

#[test]
fn paste_is_bracketed_on_request() {
    let mut s = session(20, 5);
    assert_eq!(s.paste("a\nb"), [pty(b"a\nb")]);
    s.feed(b"\x1b[?2004h");
    s.settle(true, true, 0);
    assert_eq!(s.paste("hi"), [pty(b"\x1b[200~hi\x1b[201~")]);
    assert_eq!(paste_payload("é", true), "\u{1b}[200~é\u{1b}[201~".as_bytes());
    assert_eq!(chord(&mut s, PALETTE, &typed("v")), [Effect::ReadClipboard, Effect::Redraw]);
}

#[test]
fn a_blinking_cursor_blinks() {
    let mut s = session(20, 5);
    s.feed(b"x\x1b[1 q");
    s.settle(true, true, 0);
    assert!(s.terminal().cursor_blinking());
    assert_eq!(s.tick(499), (vec![], Some(500)));
    assert!(s.frame(5).0.cursor.is_some());
    assert_eq!(s.tick(500), (vec![Effect::Redraw], Some(1000)));
    assert!(s.frame(5).0.cursor.is_none());
    // Losing focus makes it solid again.
    assert_eq!(s.focus_changed(false, 600), [Effect::Redraw]);
    assert!(s.frame(5).0.cursor.is_some());
    assert_eq!(s.tick(5000), (vec![], None));
}

#[test]
fn a_burst_of_output_glides_unless_just_resized() {
    let mut s = session(20, 10);
    s.feed(b"\x1b]133;A\x07$ \x1b]133;B\x07");
    s.settle(true, true, 1000);
    s.feed(b"cmd\r\n\x1b]133;C\x07a\r\nb\r\nc\r\nd\r\n");
    let out = s.settle(true, true, 2000);
    assert!(matches!(out[0], Effect::Glide(n) if n >= 2), "{out:?}");
    assert_eq!(*out.last().unwrap(), Effect::Redraw);
    // Right after a resize the shrink is the prompt's redraw.
    let mut s = session(20, 10);
    s.feed(b"\x1b]133;A\x07$ \x1b]133;B\x07");
    s.settle(true, true, 1000);
    assert_eq!(s.resized(20, 12, 1990), [Effect::CancelGlide, Effect::Redraw]);
    s.feed(b"cmd\r\n\x1b]133;C\x07a\r\nb\r\nc\r\nd\r\n");
    assert_eq!(s.settle(true, true, 2000), [Effect::Redraw]);
}

#[test]
fn one_column_has_no_room_for_wide_glyphs() {
    let mut s = session(1, 4);
    assert!(s.try_feed("é".as_bytes()));
    assert_eq!(s.try_resized(4, 4, 0), Some(vec![Effect::CancelGlide, Effect::Redraw]));
    assert!(s.try_feed("漢".as_bytes()));
    assert_eq!(s.try_resized(1, 4, 0), None);
    assert_eq!(s.terminal().grid_size(), (4, 4));
    let mut s = session(1, 4);
    assert!(s.try_feed("\x1b]0;漢\x07".as_bytes()));
    assert_eq!(s.settle(true, true, 0), [Effect::SetTitle("漢".to_owned()), Effect::Redraw]);
    assert!(!s.try_feed("漢".as_bytes()));
    assert!(!s.try_feed(b"a"));
}
