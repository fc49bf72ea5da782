//! Mouse reports.

use shelvd::keys::Modifiers;
use shelvd::mouse::{mouse_button_code, mouse_report, MouseAction, MouseButton};

fn none() -> Modifiers {
    Modifiers::none()
}

#[test]
fn sgr_press_and_release_keep_the_button() {
    assert_eq!(mouse_report(true, MouseAction::Press(0), 0, 0, none()), b"\x1b[<0;1;1M".to_vec());
    // Release uses a lowercase final byte but reports the same button.
    assert_eq!(mouse_report(true, MouseAction::Release(0), 0, 0, none()), b"\x1b[<0;1;1m".to_vec());
}

#[test]
fn sgr_wheel_and_motion_set_their_bits() {
    // Wheel-up is button 64; coordinates are 1-based.
    assert_eq!(mouse_report(true, MouseAction::Wheel(true), 5, 2, none()), b"\x1b[<64;6;3M".to_vec());
    // Motion adds the 32 motion bit to the held button (0 -> 32).
    assert_eq!(mouse_report(true, MouseAction::Motion(0), 3, 1, none()), b"\x1b[<32;4;2M".to_vec());
}

#[test]
fn legacy_offsets_every_field_by_32() {
    // Press left at the origin: button 0 -> 32 (space), col/row 1 -> 33 ('!').
    assert_eq!(mouse_report(false, MouseAction::Press(0), 0, 0, none()), vec![0x1b, b'[', b'M', 32, 33, 33]);
    // Legacy release cannot name the button, so it reports 3 (32 + 3 = 35).
    assert_eq!(mouse_report(false, MouseAction::Release(0), 0, 0, none()), vec![0x1b, b'[', b'M', 35, 33, 33]);
}

#[test]
fn ctrl_modifier_sets_the_control_bit() {
    // Ctrl adds 16, so a left press becomes button 16 in SGR.
    assert_eq!(
        mouse_report(true, MouseAction::Press(0), 0, 0, Modifiers { ctrl: true, shift: false, alt: false }),
        b"\x1b[<16;1;1M".to_vec()
    );
}

#[test]
fn buttons_have_codes() {
    assert_eq!(mouse_button_code(MouseButton::Left), Some(0));
    assert_eq!(mouse_button_code(MouseButton::Middle), Some(1));
    assert_eq!(mouse_button_code(MouseButton::Right), Some(2));
    assert_eq!(mouse_button_code(MouseButton::Other), None);
}

#[test]
fn legacy_fields_clamp_where_a_byte_ends() {
    let m = Modifiers { ctrl: true, shift: true, alt: true };
    assert_eq!(
        mouse_report(false, MouseAction::Motion(3), 222, 223, m),
        vec![0x1b, b'[', b'M', 32 + 3 + 28 + 32, 255, 255]
    );
    assert_eq!(
        mouse_report(true, MouseAction::Wheel(false), u16::MAX, 9, m),
        b"\x1b[<93;65536;10M".to_vec()
    );
}
