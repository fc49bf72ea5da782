//! Key presses and the commands bound to them.

use shelvd::commands::{commands, key_to_action, Action};
use shelvd::keys::{control_byte, key_to_bytes, Key, KeyPress, Modifiers, NamedKey};

fn mods(ctrl: bool, shift: bool, alt: bool) -> Modifiers {
    Modifiers { ctrl, shift, alt }
}

fn named(key: NamedKey) -> KeyPress {
    KeyPress { logical_key: Key::Named(key), text: None }
}

fn typed(s: &str) -> KeyPress {
    KeyPress { logical_key: Key::Character(s.to_owned()), text: Some(s.to_owned()) }
}

#[test]
fn named_keys_send_their_sequences() {
    let none = Modifiers::none();
    let cases: [(NamedKey, &[u8]); 15] = [
        (NamedKey::Enter, b"\r"),
        (NamedKey::Backspace, b"\x7f"),
        (NamedKey::Tab, b"\t"),
        (NamedKey::Escape, b"\x1b"),
        (NamedKey::Space, b" "),
        (NamedKey::ArrowUp, b"\x1b[A"),
        (NamedKey::ArrowDown, b"\x1b[B"),
        (NamedKey::ArrowRight, b"\x1b[C"),
        (NamedKey::ArrowLeft, b"\x1b[D"),
        (NamedKey::Home, b"\x1b[H"),
        (NamedKey::End, b"\x1b[F"),
        (NamedKey::PageUp, b"\x1b[5~"),
        (NamedKey::PageDown, b"\x1b[6~"),
        (NamedKey::Delete, b"\x1b[3~"),
        (NamedKey::Insert, b"\x1b[2~"),
    ];
    for (key, want) in cases {
        assert_eq!(key_to_bytes(&named(key), none).as_deref(), Some(want), "{key:?}");
    }
    assert_eq!(key_to_bytes(&named(NamedKey::Other), none), None);
    assert_eq!(
        key_to_bytes(&named(NamedKey::Tab), mods(false, true, false)).as_deref(),
        Some(b"\x1b[Z".as_slice())
    );
}

#[test]
fn alt_prefixes_an_escape() {
    let alt = mods(false, false, true);
    assert_eq!(key_to_bytes(&typed("x"), alt).as_deref(), Some(b"\x1bx".as_slice()));
    assert_eq!(key_to_bytes(&named(NamedKey::ArrowUp), alt).as_deref(), Some(b"\x1b\x1b[A".as_slice()));
    assert_eq!(key_to_bytes(&typed(""), alt), Some(Vec::new()), "nothing to prefix");
}

#[test]
fn control_maps_to_control_bytes() {
    let ctrl = mods(true, false, false);
    assert_eq!(key_to_bytes(&typed("c"), ctrl), Some(vec![3]));
    assert_eq!(key_to_bytes(&typed("C"), ctrl), Some(vec![3]));
    assert_eq!(key_to_bytes(&typed("1"), ctrl), None);
    assert_eq!(key_to_bytes(&typed(""), ctrl), None);
    let table = [('@', 0), (' ', 0), ('[', 0x1b), ('\\', 0x1c), (']', 0x1d), ('^', 0x1e), ('_', 0x1f), ('?', 0x1f)];
    for (c, b) in table {
        assert_eq!(control_byte(c), Some(b), "{c:?}");
    }
    for c in 'a'..='z' {
        assert_eq!(control_byte(c), control_byte(c.to_ascii_uppercase()));
        assert!(control_byte(c).unwrap() < 0x20);
    }
    assert_eq!(control_byte('é'), None);
}

#[test]
fn text_of_the_press_wins() {
    let press = KeyPress { logical_key: Key::Character("e".to_owned()), text: Some("é".to_owned()) };
    assert_eq!(key_to_bytes(&press, Modifiers::none()), Some(vec![0xc3, 0xa9]));
    let press = KeyPress { logical_key: Key::Character("e".to_owned()), text: None };
    assert_eq!(key_to_bytes(&press, Modifiers::none()), Some(vec![b'e']));
    let press = KeyPress { logical_key: Key::Unidentified, text: Some("x".to_owned()) };
    assert_eq!(key_to_bytes(&press, mods(true, false, true)), Some(vec![b'x']));
    let press = KeyPress { logical_key: Key::Unidentified, text: None };
    assert_eq!(key_to_bytes(&press, Modifiers::none()), None);
}

#[test]
fn chords_run_their_commands() {
    let cs = mods(true, true, false);
    let sh = mods(false, true, false);
    assert_eq!(key_to_action(&typed("P"), cs), Some(Action::OpenPalette));
    assert_eq!(key_to_action(&typed("r"), cs), Some(Action::SearchHistory));
    assert_eq!(key_to_action(&typed("x"), cs), Some(Action::CopyBlock));
    assert_eq!(key_to_action(&typed("c"), cs), Some(Action::CopySelection));
    assert_eq!(key_to_action(&typed("v"), cs), Some(Action::Paste));
    assert_eq!(key_to_action(&named(NamedKey::ArrowUp), cs), Some(Action::PrevBlock));
    assert_eq!(key_to_action(&named(NamedKey::ArrowDown), cs), Some(Action::NextBlock));
    assert_eq!(key_to_action(&named(NamedKey::Enter), cs), Some(Action::QueueInput));
    assert_eq!(key_to_action(&named(NamedKey::PageUp), sh), Some(Action::PageUp));
    assert_eq!(key_to_action(&named(NamedKey::PageDown), sh), Some(Action::PageDown));
    // Every chord of the table runs its own row's command.
    for row in commands() {
        if let Some(chord) = row.chord {
            let key = match chord.key {
                shelvd::commands::ChordKey::Char(c) => typed(&c.to_string()),
                shelvd::commands::ChordKey::Named(n) => named(n),
            };
            let m = mods(chord.ctrl, chord.shift, chord.alt);
            assert_eq!(key_to_action(&key, m), Some(row.action));
        }
    }
}

#[test]
fn keys_without_shift_stay_with_the_program() {
    for alt in [false, true] {
        for ctrl in [false, true] {
            let m = mods(ctrl, false, alt);
            for c in ["p", "r", "x", "c", "v", "q"] {
                assert_eq!(key_to_action(&typed(c), m), None);
            }
            assert_eq!(key_to_action(&named(NamedKey::PageUp), m), None);
        }
    }
}
