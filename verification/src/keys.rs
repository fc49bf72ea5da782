//! Key presses, and the bytes that a terminal sends for them.

use vstd::prelude::*;
use vstd::utf8::encode_utf8;
use crate::text::{bytes_of, chars_of};

verus! {

/// A key with a name rather than a character.
#[derive(Clone, Copy, Debug, PartialEq, Eq, Structural)]
pub enum NamedKey {
    Enter,
    Backspace,
    Tab,
    Escape,
    Space,
    ArrowUp,
    ArrowDown,
    ArrowRight,
    ArrowLeft,
    Home,
    End,
    PageUp,
    PageDown,
    Delete,
    Insert,
    /// Any other named key.
    Other,
}

/// What a key press stands for, layout and modifiers applied.
#[derive(Clone, Debug, PartialEq, Eq)]
pub enum Key {
    Named(NamedKey),
    Character(String),
    /// A dead key, or one that could not be identified.
    Unidentified,
}

/// The modifier keys that are held.
#[derive(Clone, Copy, Debug, PartialEq, Eq, Structural)]
pub struct Modifiers {
    pub ctrl: bool,
    pub shift: bool,
    pub alt: bool,
}

impl Modifiers {
    /// No modifier.
    pub fn none() -> (m: Self)
        ensures
            m == (Modifiers { ctrl: false, shift: false, alt: false }),
    {
        Modifiers { ctrl: false, shift: false, alt: false }
    }
}

/// A key press: the key, and the text it produces, if any.
#[derive(Clone, Debug, PartialEq, Eq)]
pub struct KeyPress {
    pub logical_key: Key,
    pub text: Option<String>,
}

/// The bytes of a named key: what a VT220 sends for it.
pub open spec fn named_bytes(key: NamedKey, shift: bool) -> Option<Seq<u8>> {
    match key {
        NamedKey::Enter => Some(seq![0x0du8]),
        NamedKey::Backspace => Some(seq![0x7fu8]),
        NamedKey::Tab => if shift {
            Some(seq![0x1bu8, 0x5b, 0x5a])
        } else {
            Some(seq![0x09u8])
        },
        NamedKey::Escape => Some(seq![0x1bu8]),
        NamedKey::Space => Some(seq![0x20u8]),
        NamedKey::ArrowUp => Some(seq![0x1bu8, 0x5b, 0x41]),
        NamedKey::ArrowDown => Some(seq![0x1bu8, 0x5b, 0x42]),
        NamedKey::ArrowRight => Some(seq![0x1bu8, 0x5b, 0x43]),
        NamedKey::ArrowLeft => Some(seq![0x1bu8, 0x5b, 0x44]),
        NamedKey::Home => Some(seq![0x1bu8, 0x5b, 0x48]),
        NamedKey::End => Some(seq![0x1bu8, 0x5b, 0x46]),
        NamedKey::PageUp => Some(seq![0x1bu8, 0x5b, 0x35, 0x7e]),
        NamedKey::PageDown => Some(seq![0x1bu8, 0x5b, 0x36, 0x7e]),
        NamedKey::Delete => Some(seq![0x1bu8, 0x5b, 0x33, 0x7e]),
        NamedKey::Insert => Some(seq![0x1bu8, 0x5b, 0x32, 0x7e]),
        NamedKey::Other => None,
    }
}

/// `bytes` with a leading ESC where Alt is held and there is anything to send.
pub open spec fn alt_prefixed(bytes: Seq<u8>, alt: bool) -> Seq<u8> {
    if alt && bytes.len() > 0 {
        seq![0x1bu8] + bytes
    } else {
        bytes
    }
}

/// `c` in lower case, where it is an ASCII letter.
pub open spec fn ascii_lower(c: char) -> char {
    if 'A' <= c <= 'Z' {
        ((c as u8 + 0x20) as u8) as char
    } else {
        c
    }
}

/// The byte that a character stands for under Ctrl.
pub open spec fn control_of(c: char) -> Option<u8> {
    let c = ascii_lower(c);
    if 'a' <= c <= 'z' {
        Some((c as u8 - 0x61 + 1) as u8)
    } else if c == '@' || c == ' ' {
        Some(0)
    } else if c == '[' {
        Some(0x1b)
    } else if c == '\\' {
        Some(0x1c)
    } else if c == ']' {
        Some(0x1d)
    } else if c == '^' {
        Some(0x1e)
    } else if c == '_' || c == '?' {
        Some(0x1f)
    } else {
        None
    }
}

/// `c` in lower case, where it is an ASCII letter.
pub fn to_ascii_lower(c: char) -> (l: char)
    ensures
        l == ascii_lower(c),
{
    if 'A' <= c && c <= 'Z' {
        (c as u8 + 0x20) as char
    } else {
        c
    }
}

/// Map a character under Ctrl to its control byte (e.g. `c` → 0x03).
pub fn control_byte(c: char) -> (b: Option<u8>)
    ensures
        b == control_of(c),
{
    let c = to_ascii_lower(c);
    if 'a' <= c && c <= 'z' {
        Some(c as u8 - 0x61 + 1)
    } else if c == '@' || c == ' ' {
        Some(0)
    } else if c == '[' {
        Some(0x1b)
    } else if c == '\\' {
        Some(0x1c)
    } else if c == ']' {
        Some(0x1d)
    } else if c == '^' {
        Some(0x1e)
    } else if c == '_' || c == '?' {
        Some(0x1f)
    } else {
        None
    }
}

/// The bytes that a key press sends.
pub open spec fn press_bytes(press: KeyPress, mods: Modifiers) -> Option<Seq<u8>> {
    match press.logical_key {
        Key::Named(named) => match named_bytes(named, mods.shift) {
            Some(b) => Some(alt_prefixed(b, mods.alt)),
            None => None,
        },
        Key::Character(s) => if mods.ctrl {
            if s@.len() == 0 {
                None
            } else {
                match control_of(s@[0]) {
                    Some(b) => Some(seq![b]),
                    None => None,
                }
            }
        } else {
            let text = match press.text {
                Some(t) => t@,
                None => s@,
            };
            Some(alt_prefixed(encode_utf8(text), mods.alt))
        },
        Key::Unidentified => match press.text {
            Some(t) => Some(encode_utf8(t@)),
            None => None,
        },
    }
}

fn named_key_bytes(key: NamedKey, shift: bool) -> (b: Option<Vec<u8>>)
    ensures
        match named_bytes(key, shift) {
            Some(want) => b.is_some() && b->0@ == want,
            None => b.is_none(),
        },
{
    let v: Vec<u8> = match key {
        NamedKey::Enter => vec![0x0d],
        NamedKey::Backspace => vec![0x7f],
        NamedKey::Tab => if shift {
            vec![0x1b, 0x5b, 0x5a]
        } else {
            vec![0x09]
        },
        NamedKey::Escape => vec![0x1b],
        NamedKey::Space => vec![0x20],
        NamedKey::ArrowUp => vec![0x1b, 0x5b, 0x41],
        NamedKey::ArrowDown => vec![0x1b, 0x5b, 0x42],
        NamedKey::ArrowRight => vec![0x1b, 0x5b, 0x43],
        NamedKey::ArrowLeft => vec![0x1b, 0x5b, 0x44],
        NamedKey::Home => vec![0x1b, 0x5b, 0x48],
        NamedKey::End => vec![0x1b, 0x5b, 0x46],
        NamedKey::PageUp => vec![0x1b, 0x5b, 0x35, 0x7e],
        NamedKey::PageDown => vec![0x1b, 0x5b, 0x36, 0x7e],
        NamedKey::Delete => vec![0x1b, 0x5b, 0x33, 0x7e],
        NamedKey::Insert => vec![0x1b, 0x5b, 0x32, 0x7e],
        NamedKey::Other => {
            return None;
        },
    };
    proof {
        assert(v@ =~= named_bytes(key, shift)->0);
    }
    Some(v)
}

fn with_alt(bytes: Vec<u8>, alt: bool) -> (b: Vec<u8>)
    ensures
        b@ == alt_prefixed(bytes@, alt),
{
    if alt && bytes.len() > 0 {
        let ghost orig = bytes@;
        let mut rest = bytes;
        let mut v: Vec<u8> = vec![0x1b];
        v.append(&mut rest);
        proof {
            assert(v@ =~= seq![0x1bu8] + orig);
        }
        v
    } else {
        bytes
    }
}

/// Translate a key press into the byte sequence a terminal expects.
pub fn key_to_bytes(press: &KeyPress, mods: Modifiers) -> (b: Option<Vec<u8>>)
    ensures
        match press_bytes(*press, mods) {
            Some(want) => b.is_some() && b->0@ == want,
            None => b.is_none(),
        },
{
    match &press.logical_key {
        Key::Named(named) => match named_key_bytes(*named, mods.shift) {
            Some(b) => Some(with_alt(b, mods.alt)),
            None => None,
        },
        Key::Character(s) => {
            if mods.ctrl {
                let chars = chars_of(s.as_str());
                if chars.len() == 0 {
                    return None;
                }
                return match control_byte(chars[0]) {
                    Some(b) => {
                        let v: Vec<u8> = vec![b];
                        proof {
                            assert(v@ =~= seq![b]);
                        }
                        Some(v)
                    },
                    None => None,
                };
            }
            let text = match &press.text {
                Some(t) => bytes_of(t.as_str()),
                None => bytes_of(s.as_str()),
            };
            Some(with_alt(text, mods.alt))
        },
        Key::Unidentified => match &press.text {
            Some(t) => Some(bytes_of(t.as_str())),
            None => None,
        },
    }
}

/// A control byte is below 0x20, and the case of the letter does not matter.
pub proof fn control_bytes_are_control(c: char)
    ensures
        control_of(c) matches Some(b) ==> b < 0x20,
        control_of(ascii_lower(c)) == control_of(c),
{
}

/// Under Ctrl the `n`th letter of the alphabet sends the byte `n`, in either case.
pub proof fn control_letters_count(n: u8)
    requires
        1 <= n <= 26,
    ensures
        control_of(((0x60 + n) as u8) as char) == Some(n),
        control_of(((0x40 + n) as u8) as char) == Some(n),
{
}

/// Different letters send different bytes under Ctrl.
pub proof fn control_letters_differ(a: char, b: char)
    requires
        'a' <= a <= 'z' || 'A' <= a <= 'Z',
        'a' <= b <= 'z' || 'A' <= b <= 'Z',
        control_of(a) == control_of(b),
    ensures
        a == b || a as int == b as int + 0x20 || b as int == a as int + 0x20,
{
}

/// From `@` to `_` the control byte lies 0x40 below the character. Of all others
/// the small letters, the space and the question mark alone have one.
pub proof fn control_bytes_lie_below(c: char)
    ensures
        '@' <= c <= '_' ==> control_of(c) == Some((c as u8 - 0x40) as u8),
        control_of(c).is_some() <==> ('@' <= c <= '_' || 'a' <= c <= 'z' || c == ' ' || c == '?'),
        control_of(' ') == control_of('@'),
        control_of('?') == control_of('_'),
{
}

/// A character pressed with Ctrl sends the one control byte of that character,
/// whatever else is held and whatever text the press carries.
pub proof fn ctrl_sends_one_byte(press: KeyPress, s: String, mods: Modifiers)
    requires
        press.logical_key == Key::Character(s),
        mods.ctrl,
        s@.len() > 0,
        '@' <= s@[0] <= '_',
    ensures
        press_bytes(press, mods) == Some(seq![(s@[0] as u8 - 0x40) as u8]),
{
}

/// A press under Ctrl whose character has no control byte sends nothing.
pub proof fn ctrl_sends_nothing_else(press: KeyPress, s: String, mods: Modifiers)
    requires
        press.logical_key == Key::Character(s),
        mods.ctrl,
        s@.len() == 0 || control_of(s@[0]).is_none(),
    ensures
        press_bytes(press, mods).is_none(),
{
}

/// Without Ctrl a character sends the text of the press in UTF-8, or the character
/// itself where the press carries no text. Alt puts an ESC in front.
pub proof fn typed_text_is_sent(press: KeyPress, s: String, text: Seq<char>, mods: Modifiers)
    requires
        press.logical_key == Key::Character(s),
        !mods.ctrl,
        press.text matches Some(t) ==> text == t@,
        press.text.is_none() ==> text == s@,
        encode_utf8(text).len() > 0,
    ensures
        !mods.alt ==> press_bytes(press, mods) == Some(encode_utf8(text)),
        mods.alt ==> press_bytes(press, mods)->0.len() == encode_utf8(text).len() + 1,
        mods.alt ==> press_bytes(press, mods)->0[0] == 0x1b,
        mods.alt ==> press_bytes(press, mods)->0.skip(1) == encode_utf8(text),
{
    if mods.alt {
        assert((seq![0x1bu8] + encode_utf8(text)).skip(1) =~= encode_utf8(text));
    }
}

/// A key that could not be identified sends its text, if it carries any.
pub proof fn unidentified_keys_send_their_text(press: KeyPress, mods: Modifiers)
    requires
        press.logical_key == Key::Unidentified,
    ensures
        press_bytes(press, mods).is_some() == press.text.is_some(),
        press.text matches Some(t) ==> press_bytes(press, mods) == Some(encode_utf8(t@)),
{
}

/// Alt adds an ESC in front of what a named key sends; Ctrl changes nothing.
pub proof fn alt_prefixes_named_keys(press: KeyPress, key: NamedKey, mods: Modifiers)
    requires
        press.logical_key == Key::Named(key),
        key != NamedKey::Other,
    ensures
        ({
            let plain = Modifiers { ctrl: false, alt: false, ..mods };
            let bytes = press_bytes(press, plain)->0;
            &&& press_bytes(press, plain) == named_bytes(key, mods.shift)
            &&& press_bytes(press, Modifiers { ctrl: true, ..mods }) == press_bytes(
                press,
                Modifiers { ctrl: false, ..mods },
            )
            &&& press_bytes(press, Modifiers { alt: true, ..plain }) == Some(seq![0x1bu8] + bytes)
        }),
{
}

/// Different named keys send different bytes, and Shift matters for Tab alone.
pub proof fn named_keys_differ(a: NamedKey, b: NamedKey, sa: bool, sb: bool)
    requires
        a != NamedKey::Other,
        named_bytes(a, sa) == named_bytes(b, sb),
    ensures
        a == b,
        a == NamedKey::Tab ==> sa == sb,
{
    let x = named_bytes(a, sa)->0;
    let y = named_bytes(b, sb)->0;
    assert(named_bytes(a, sa).is_some());
    assert(named_bytes(b, sb).is_some());
    assert(x == y);
    assert(x.len() == y.len());
    if x.len() >= 1 {
        assert(x[0] == y[0]);
    }
    if x.len() >= 3 {
        assert(x[2] == y[2]);
    }
}

/// The keys that stand for a character send what that character sends, under Ctrl
/// where it is a control character; the arrows send the cursor movements in the
/// order up, down, right, left; the others send a numbered function key.
pub proof fn named_keys_are_standard(key: NamedKey, shift: bool)
    ensures
        named_bytes(NamedKey::Enter, shift) == Some(seq![control_of('m')->0]),
        named_bytes(NamedKey::Tab, false) == Some(seq![control_of('i')->0]),
        named_bytes(NamedKey::Escape, shift) == Some(seq![control_of('[')->0]),
        named_bytes(NamedKey::Space, shift) == Some(seq![' ' as u8]),
        named_bytes(NamedKey::Backspace, shift) == Some(seq![0x7fu8]),
        named_bytes(NamedKey::Tab, true) == Some(seq![0x1bu8, '[' as u8, 'Z' as u8]),
        named_bytes(NamedKey::ArrowUp, shift) == Some(seq![0x1bu8, '[' as u8, 'A' as u8]),
        named_bytes(NamedKey::ArrowDown, shift) == Some(seq![0x1bu8, '[' as u8, 'B' as u8]),
        named_bytes(NamedKey::ArrowRight, shift) == Some(seq![0x1bu8, '[' as u8, 'C' as u8]),
        named_bytes(NamedKey::ArrowLeft, shift) == Some(seq![0x1bu8, '[' as u8, 'D' as u8]),
        named_bytes(NamedKey::Home, shift) == Some(seq![0x1bu8, '[' as u8, 'H' as u8]),
        named_bytes(NamedKey::End, shift) == Some(seq![0x1bu8, '[' as u8, 'F' as u8]),
        named_bytes(NamedKey::Insert, shift) == Some(seq![0x1bu8, '[' as u8, '2' as u8, '~' as u8]),
        named_bytes(NamedKey::Delete, shift) == Some(seq![0x1bu8, '[' as u8, '3' as u8, '~' as u8]),
        named_bytes(NamedKey::PageUp, shift) == Some(seq![0x1bu8, '[' as u8, '5' as u8, '~' as u8]),
        named_bytes(NamedKey::PageDown, shift) == Some(seq![0x1bu8, '[' as u8, '6' as u8, '~' as u8]),
        named_bytes(key, shift).is_none() <==> key == NamedKey::Other,
{
}

} // verus!
