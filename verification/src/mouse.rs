//! Reporting the mouse to a program that reads it.

use vstd::prelude::*;
use vstd::utf8::encode_utf8;
use crate::decimal::{all_digits, decimal, decimal_reads_back, is_digit, to_decimal, unsigned_of};
use crate::keys::Modifiers;
use crate::text::{bytes_of, join_on, split_on, split_undoes_join, string_of};

verus! {

/// A pointer action to report to a program that is reading the mouse.
#[derive(Clone, Copy, Debug, PartialEq, Eq, Structural)]
pub enum MouseAction {
    /// Button pressed; carries the base button code (0 left, 1 middle, 2 right).
    Press(u8),
    /// Button released; carries the base button code.
    Release(u8),
    /// Pointer moved; carries the held button code, or 3 when no button is down.
    Motion(u8),
    /// Wheel turned; `true` is a scroll-up notch.
    Wheel(bool),
}

/// A mouse button.
#[derive(Clone, Copy, Debug, PartialEq, Eq, Structural)]
pub enum MouseButton {
    Left,
    Middle,
    Right,
    /// A button that the protocol cannot name.
    Other,
}

/// Map a mouse button to its base report code, or `None` for buttons the
/// X11 mouse protocol cannot encode.
pub fn mouse_button_code(button: MouseButton) -> (c: Option<u8>)
    ensures
        c == match button {
            MouseButton::Left => Some(0u8),
            MouseButton::Middle => Some(1u8),
            MouseButton::Right => Some(2u8),
            MouseButton::Other => None,
        },
{
    match button {
        MouseButton::Left => Some(0),
        MouseButton::Middle => Some(1),
        MouseButton::Right => Some(2),
        MouseButton::Other => None,
    }
}

/// The bits of the held modifiers.
pub open spec fn mod_bits(mods: Modifiers) -> int {
    (if mods.shift {
        4int
    } else {
        0
    }) + (if mods.alt {
        8int
    } else {
        0
    }) + (if mods.ctrl {
        16int
    } else {
        0
    })
}

/// The button code of an action, with its motion and modifier bits.
pub open spec fn button_code(action: MouseAction, mods: Modifiers) -> int {
    mod_bits(mods) + match action {
        MouseAction::Press(b) => b as int,
        MouseAction::Release(b) => b as int,
        MouseAction::Motion(b) => b + 32,
        MouseAction::Wheel(up) => if up {
            64
        } else {
            65
        },
    }
}

/// The button code that the legacy encoding reports: it cannot say which button
/// was released.
pub open spec fn legacy_code(action: MouseAction, mods: Modifiers) -> int {
    match action {
        MouseAction::Release(_) => mod_bits(mods) + 3,
        _ => button_code(action, mods),
    }
}

/// A field of the legacy encoding: offset by 32, and clamped where a byte cannot
/// hold it.
pub open spec fn legacy_field(v: int) -> u8 {
    if v + 32 > 255 {
        255
    } else {
        (v + 32) as u8
    }
}

/// The text of an SGR report.
pub open spec fn sgr_text(action: MouseAction, col: u16, row: u16, mods: Modifiers) -> Seq<char> {
    seq!['\u{1b}', '[', '<'] + decimal(button_code(action, mods) as nat) + seq![';'] + decimal(
        (col + 1) as nat,
    ) + seq![';'] + decimal((row + 1) as nat) + seq![
        if action is Release {
            'm'
        } else {
            'M'
        },
    ]
}

/// The bytes of a report.
pub open spec fn report_bytes(
    sgr: bool,
    action: MouseAction,
    col: u16,
    row: u16,
    mods: Modifiers,
) -> Seq<u8> {
    if sgr {
        encode_utf8(sgr_text(action, col, row, mods))
    } else {
        seq![
            0x1bu8,
            0x5b,
            0x4d,
            legacy_field(legacy_code(action, mods)),
            legacy_field(col + 1),
            legacy_field(row + 1),
        ]
    }
}

fn legacy_byte(v: u32) -> (b: u8)
    requires
        v <= 0x10000,
    ensures
        b == legacy_field(v as int),
{
    if v + 32 > 255 {
        255
    } else {
        (v + 32) as u8
    }
}

/// Encode a mouse action as the escape sequence a program expects: SGR
/// (DEC 1006) when `sgr` is set, otherwise the legacy X10 byte encoding.
/// `col`/`row` are 0-based grid cells; the wire protocol is 1-based.
pub fn mouse_report(sgr: bool, action: MouseAction, col: u16, row: u16, mods: Modifiers) -> (v: Vec<
    u8,
>)
    ensures
        v@ == report_bytes(sgr, action, col, row, mods),
{
    let bits: u32 = (if mods.shift {
        4
    } else {
        0
    }) + (if mods.alt {
        8
    } else {
        0
    }) + (if mods.ctrl {
        16
    } else {
        0
    });
    let released: bool = match action {
        MouseAction::Release(_) => true,
        _ => false,
    };
    let base: u32 = match action {
        MouseAction::Press(b) => b as u32,
        MouseAction::Release(b) => b as u32,
        MouseAction::Motion(b) => b as u32 + 32,
        MouseAction::Wheel(up) => if up {
            64
        } else {
            65
        },
    };
    if sgr {
        let mut t: Vec<char> = vec!['\u{1b}', '[', '<'];
        let mut cb = to_decimal((base + bits) as u64);
        let mut x = to_decimal(col as u64 + 1);
        let mut y = to_decimal(row as u64 + 1);
        t.append(&mut cb);
        t.push(';');
        t.append(&mut x);
        t.push(';');
        t.append(&mut y);
        t.push(
            if released {
                'm'
            } else {
                'M'
            },
        );
        proof {
            assert(t@ =~= sgr_text(action, col, row, mods));
        }
        let s = string_of(&t);
        bytes_of(s.as_str())
    } else {
        let code: u32 = if released {
            3 + bits
        } else {
            base + bits
        };
        let v: Vec<u8> = vec![
            0x1b,
            0x5b,
            0x4d,
            legacy_byte(code),
            legacy_byte(col as u32 + 1),
            legacy_byte(row as u32 + 1),
        ];
        proof {
            assert(v@ =~= report_bytes(sgr, action, col, row, mods));
        }
        v
    }
}

/// Each modifier adds its own bit to any report: Shift 4, Alt 8, Ctrl 16.
pub proof fn modifiers_add_their_bits(action: MouseAction, m: Modifiers)
    ensures
        button_code(action, Modifiers { shift: true, ..m }) == button_code(
            action,
            Modifiers { shift: false, ..m },
        ) + 4,
        button_code(action, Modifiers { alt: true, ..m }) == button_code(
            action,
            Modifiers { alt: false, ..m },
        ) + 8,
        button_code(action, Modifiers { ctrl: true, ..m }) == button_code(
            action,
            Modifiers { ctrl: false, ..m },
        ) + 16,
        legacy_code(action, m) - legacy_code(
            action,
            Modifiers { ctrl: false, shift: false, alt: false },
        ) == button_code(action, m) - button_code(
            action,
            Modifiers { ctrl: false, shift: false, alt: false },
        ),
{
}

/// A button is reported by its own number, whether pressed or released; motion adds 32
/// to the button that is held, and the wheel counts from 64, up before down.
pub proof fn actions_have_their_codes(b: u8, m: Modifiers)
    requires
        !m.ctrl && !m.shift && !m.alt,
    ensures
        button_code(MouseAction::Press(b), m) == b,
        button_code(MouseAction::Release(b), m) == b,
        button_code(MouseAction::Motion(b), m) == b + 32,
        button_code(MouseAction::Wheel(true), m) == 64,
        button_code(MouseAction::Wheel(false), m) == 65,
        legacy_code(MouseAction::Release(b), m) == 3,
        legacy_code(MouseAction::Press(b), m) == b,
        legacy_code(MouseAction::Motion(b), m) == b + 32,
        legacy_code(MouseAction::Wheel(true), m) == 64,
        legacy_code(MouseAction::Wheel(false), m) == 65,
{
}

/// An SGR report holds three numbers between `ESC [ <` and its final letter: the code,
/// the column and the row, both counted from one. The letter is small for a release
/// alone.
pub proof fn sgr_reports_read_back(action: MouseAction, col: u16, row: u16, mods: Modifiers)
    ensures
        ({
            let t = sgr_text(action, col, row, mods);
            let fields = split_on(t.subrange(3, t.len() - 1), ';');
            &&& t.len() > 4
            &&& t.take(3) == seq!['\u{1b}', '[', '<']
            &&& t.last() == 'm' <==> action is Release
            &&& t.last() == 'M' <==> !(action is Release)
            &&& fields.len() == 3
            &&& unsigned_of(fields[0], 0xffff) == Some(button_code(action, mods) as nat)
            &&& unsigned_of(fields[1], 0x10000) == Some((col + 1) as nat)
            &&& unsigned_of(fields[2], 0x10000) == Some((row + 1) as nat)
        }),
{
    let t = sgr_text(action, col, row, mods);
    let a = decimal(button_code(action, mods) as nat);
    let b = decimal((col + 1) as nat);
    let c = decimal((row + 1) as nat);
    let parts = seq![a, b, c];
    decimal_reads_back(button_code(action, mods) as nat, 0xffff);
    decimal_reads_back((col + 1) as nat, 0x10000);
    decimal_reads_back((row + 1) as nat, 0x10000);
    assert(parts.drop_last() =~= seq![a, b]);
    assert(parts.drop_last().drop_last() =~= seq![a]);
    reveal_with_fuel(join_on, 4);
    assert(join_on(parts, seq![';']) =~= a + seq![';'] + b + seq![';'] + c);
    assert(t.subrange(3, t.len() - 1) =~= join_on(parts, seq![';']));
    assert(t.take(3) =~= seq!['\u{1b}', '[', '<']);
    no_separator(a);
    no_separator(b);
    no_separator(c);
    split_undoes_join(parts, ';');
}

proof fn no_separator(s: Seq<char>)
    requires
        all_digits(s),
    ensures
        !s.contains(';'),
{
    if s.contains(';') {
        let i = choose|i: int| 0 <= i < s.len() && s[i] == ';';
        assert(is_digit(s[i]));
    }
}

/// A legacy report holds its three numbers as bytes, 32 above what they say; what a
/// byte cannot hold is reported as the largest.
pub proof fn legacy_reports_read_back(action: MouseAction, col: u16, row: u16, mods: Modifiers)
    ensures
        ({
            let v = report_bytes(false, action, col, row, mods);
            &&& v.len() == 6
            &&& v.take(3) == seq![0x1bu8, '[' as u8, 'M' as u8]
            &&& legacy_code(action, mods) <= 223 ==> v[3] - 32 == legacy_code(action, mods)
            &&& legacy_code(action, mods) > 223 ==> v[3] == 255
            &&& col <= 222 ==> v[4] - 33 == col
            &&& col > 222 ==> v[4] == 255
            &&& row <= 222 ==> v[5] - 33 == row
            &&& row > 222 ==> v[5] == 255
        }),
{
    assert(report_bytes(false, action, col, row, mods).take(3) =~= seq![0x1bu8, '[' as u8, 'M' as u8]);
}

} // verus!
