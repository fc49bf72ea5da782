//! 8-bit-per-channel sRGB color.

use vstd::prelude::*;
use crate::hex::{hex_digit, hex_val, lower_digit, to_lower_digit};
use crate::text::{chars_of, debug_quote, debug_quoted};

verus! {

/// An sRGB color with alpha. Channels are the canonical sRGB bytes, the values
/// one would write in a config file.
#[derive(Clone, Copy, Debug, PartialEq, Eq, Hash, Structural)]
pub struct Rgba {
    pub r: u8,
    pub g: u8,
    pub b: u8,
    pub a: u8,
}

/// Error returned when a color string is not valid hex. Holds the string.
#[derive(Clone, Debug, PartialEq, Eq)]
pub struct ParseColorError(pub String);

impl ParseColorError {
    /// What to tell the user.
    pub fn message(&self) -> (m: String)
        ensures
            m@ == "invalid color "@ + debug_quoted(self.0@)
                + ": expected #rgb, #rrggbb, or #rrggbbaa hex"@,
    {
        let mut m = "invalid color ".to_owned();
        let q = debug_quote(self.0.as_str());
        m.append(q.as_str());
        m.append(": expected #rgb, #rrggbb, or #rrggbbaa hex");
        m
    }
}

/// The value of the hexadecimal digit `c`.
pub open spec fn hex_char(c: char) -> Option<u8> {
    if (c as u32) < 0x80 {
        hex_digit(c as u8)
    } else {
        None
    }
}

fn hex_char_val(c: char) -> (v: Option<u8>)
    ensures
        v == hex_char(c),
{
    if (c as u32) < 0x80 {
        hex_val(c as u8)
    } else {
        None
    }
}

/// `s` without one leading `#`, if it has one.
pub open spec fn without_hash(s: Seq<char>) -> Seq<char> {
    if s.len() > 0 && s[0] == '#' {
        s.skip(1)
    } else {
        s
    }
}

/// Whether every character is a hexadecimal digit.
pub open spec fn all_hex(h: Seq<char>) -> bool {
    forall|i: int| 0 <= i < h.len() ==> (#[trigger] hex_char(h[i])).is_some()
}

/// The byte that the two digits at `i` and `i + 1` spell.
pub open spec fn byte_at(h: Seq<char>, i: int) -> u8 {
    (hex_char(h[i])->0 * 16 + hex_char(h[i + 1])->0) as u8
}

/// The byte that a single digit stands for: the digit written twice.
pub open spec fn nibble_at(h: Seq<char>, i: int) -> u8 {
    (hex_char(h[i])->0 * 17) as u8
}

/// What the color string `s` means: `#rgb`, `#rrggbb` or `#rrggbbaa`, with the
/// leading `#` optional; `None` for any other text.
pub open spec fn color_of(s: Seq<char>) -> Option<Rgba> {
    let h = without_hash(s);
    if !all_hex(h) {
        None
    } else if h.len() == 3 {
        Some(Rgba { r: nibble_at(h, 0), g: nibble_at(h, 1), b: nibble_at(h, 2), a: 255 })
    } else if h.len() == 6 {
        Some(Rgba { r: byte_at(h, 0), g: byte_at(h, 2), b: byte_at(h, 4), a: 255 })
    } else if h.len() == 8 {
        Some(Rgba { r: byte_at(h, 0), g: byte_at(h, 2), b: byte_at(h, 4), a: byte_at(h, 6) })
    } else {
        None
    }
}

/// The two lower-case digits of one channel.
pub open spec fn channel_text(v: u8) -> Seq<char> {
    seq![lower_digit(v / 16) as char, lower_digit(v % 16) as char]
}

/// `#rrggbb`, or `#rrggbbaa` when alpha is not fully opaque.
pub open spec fn color_text(c: Rgba) -> Seq<char> {
    let rgb = seq!['#'] + channel_text(c.r) + channel_text(c.g) + channel_text(c.b);
    if c.a == 255 {
        rgb
    } else {
        rgb + channel_text(c.a)
    }
}

/// One channel of a blend: the mean of `s` and `u` weighted by alpha `a` out of
/// 255, rounded to the nearest integer.
pub open spec fn mixed(s: u8, u: u8, a: u8) -> u8 {
    ((2 * (s * a + u * (255 - a)) + 255) / 510) as u8
}

/// Round the alpha-weighted mean of two channels.
pub fn mix_channel(s: u8, u: u8, a: u8) -> (v: u8)
    ensures
        v == mixed(s, u, a),
        2 * (s * a + u * (255 - a)) - 255 <= 510 * v <= 2 * (s * a + u * (255 - a)) + 255,
{
    proof {
        assert(0 <= s * a <= 255 * a) by (nonlinear_arith)
            requires
                0 <= s <= 255,
                0 <= a,
        ;
        assert(0 <= u * (255 - a) <= 255 * (255 - a)) by (nonlinear_arith)
            requires
                0 <= u <= 255,
                0 <= a <= 255,
        ;
    }
    let num: u32 = 2 * (s as u32 * a as u32 + u as u32 * (255 - a as u32)) + 255;
    (num / 510) as u8
}

impl Rgba {
    /// An opaque color.
    pub fn rgb(r: u8, g: u8, b: u8) -> (c: Self)
        ensures
            c == (Rgba { r, g, b, a: 255 }),
    {
        Self { r, g, b, a: 255 }
    }

    /// A color with alpha.
    pub fn new(r: u8, g: u8, b: u8, a: u8) -> (c: Self)
        ensures
            c == (Rgba { r, g, b, a }),
    {
        Self { r, g, b, a }
    }

    /// What `hex` builds from `rgb`.
    pub open spec fn of_hex(rgb: u32) -> Rgba {
        Rgba {
            r: (rgb / 0x10000 % 0x100) as u8,
            g: (rgb / 0x100 % 0x100) as u8,
            b: (rgb % 0x100) as u8,
            a: 255,
        }
    }

    /// Build from a `0xRRGGBB` hex literal (alpha = 255).
    pub fn hex(rgb: u32) -> (c: Self)
        ensures
            c == Rgba::of_hex(rgb),
    {
        Self::rgb((rgb / 0x10000 % 0x100) as u8, (rgb / 0x100 % 0x100) as u8, (rgb % 0x100) as u8)
    }

    /// Parse a CSS-style hex string: `#rgb`, `#rrggbb`, or `#rrggbbaa` (the
    /// leading `#` is optional). This is the form used in config/theme files.
    pub fn from_hex_str(s: &str) -> (r: Result<Self, ParseColorError>)
        ensures
            match color_of(s@) {
                Some(c) => r == Ok::<Rgba, ParseColorError>(c),
                None => r.is_err() && r->Err_0.0@ == s@,
            },
    {
        let chars = chars_of(s);
        let start: usize = if chars.len() > 0 && chars[0] == '#' { 1 } else { 0 };
        let ghost h = without_hash(s@);
        let mut d: Vec<u8> = Vec::new();
        let mut i: usize = start;
        while i < chars.len()
            invariant
                start <= i <= chars.len(),
                chars@ == s@,
                h == without_hash(s@),
                start as int == s@.len() - h.len(),
                forall|k: int| 0 <= k < h.len() ==> h[k] == s@[start + k],
                d.len() == i - start,
                forall|k: int|
                    0 <= k < d.len() ==> #[trigger] hex_char(h[k]) == Some(d[k]) && d[k] < 16,
            decreases chars.len() - i,
        {
            proof {
                assert(h[i - start] == s@[i as int]);
            }
            match hex_char_val(chars[i]) {
                Some(v) => {
                    d.push(v);
                },
                None => {
                    proof {
                        assert(hex_char(h[i - start]).is_none());
                    }
                    return Err(ParseColorError(s.to_owned()));
                },
            }
            i = i + 1;
        }
        proof {
            assert(d.len() == h.len());
            assert(all_hex(h));
            assert(forall|k: int| 0 <= k < d.len() ==> hex_char(#[trigger] h[k]) == Some(d[k]));
        }
        if d.len() == 3 {
            Ok(Self::rgb(d[0] * 17, d[1] * 17, d[2] * 17))
        } else if d.len() == 6 {
            Ok(Self::rgb(d[0] * 16 + d[1], d[2] * 16 + d[3], d[4] * 16 + d[5]))
        } else if d.len() == 8 {
            Ok(
                Self::new(
                    d[0] * 16 + d[1],
                    d[2] * 16 + d[3],
                    d[4] * 16 + d[5],
                    d[6] * 16 + d[7],
                ),
            )
        } else {
            Err(ParseColorError(s.to_owned()))
        }
    }

    /// Blend `self` over `under` using `self`'s alpha (straight alpha).
    pub fn over(self, under: Rgba) -> (c: Rgba)
        ensures
            c == (Rgba {
                r: mixed(self.r, under.r, self.a),
                g: mixed(self.g, under.g, self.a),
                b: mixed(self.b, under.b, self.a),
                a: 255,
            }),
    {
        Rgba::new(
            mix_channel(self.r, under.r, self.a),
            mix_channel(self.g, under.g, self.a),
            mix_channel(self.b, under.b, self.a),
            255,
        )
    }

    /// `#rrggbb`, or `#rrggbbaa` when alpha is not fully opaque. Round-trips
    /// through [`Rgba::from_hex_str`].
    pub fn to_string(&self) -> (s: String)
        ensures
            s@ == color_text(*self),
    {
        let mut s = String::new();
        s.push('#');
        push_channel(&mut s, self.r);
        push_channel(&mut s, self.g);
        push_channel(&mut s, self.b);
        if self.a != 255 {
            push_channel(&mut s, self.a);
        }
        proof {
            assert(Seq::<char>::empty().push('#') =~= seq!['#']);
        }
        s
    }
}

fn push_channel(s: &mut String, v: u8)
    ensures
        final(s)@ == old(s)@ + channel_text(v),
{
    s.push(to_lower_digit(v / 16) as char);
    s.push(to_lower_digit(v % 16) as char);
    proof {
        assert(s@ =~= old(s)@ + channel_text(v));
    }
}

impl std::str::FromStr for Rgba {
    type Err = ParseColorError;

    fn from_str(s: &str) -> (r: Result<Self, ParseColorError>)
        ensures
            match color_of(s@) {
                Some(c) => r == Ok::<Rgba, ParseColorError>(c),
                None => r.is_err() && r->Err_0.0@ == s@,
            },
    {
        Self::from_hex_str(s)
    }
}

/// What a color is written as reads back as that color.
pub proof fn color_text_round_trips(c: Rgba)
    ensures
        color_of(color_text(c)) == Some(c),
{
    let t = color_text(c);
    let h = without_hash(t);
    assert(t[0] == '#');
    assert(h[0] == lower_digit(c.r / 16) as char);
    assert(h[1] == lower_digit(c.r % 16) as char);
    assert(h[2] == lower_digit(c.g / 16) as char);
    assert(h[3] == lower_digit(c.g % 16) as char);
    assert(h[4] == lower_digit(c.b / 16) as char);
    assert(h[5] == lower_digit(c.b % 16) as char);
    digit_reads_back(c.r);
    digit_reads_back(c.g);
    digit_reads_back(c.b);
    digit_reads_back(c.a);
    if c.a == 255 {
        assert(h.len() == 6);
    } else {
        assert(h[6] == lower_digit(c.a / 16) as char);
        assert(h[7] == lower_digit(c.a % 16) as char);
        assert(h.len() == 8);
    }
}

proof fn digit_reads_back(v: u8)
    ensures
        hex_char(lower_digit(v / 16) as char) == Some((v / 16) as u8),
        hex_char(lower_digit(v % 16) as char) == Some((v % 16) as u8),
        v / 16 * 16 + v % 16 == v,
{
}

/// Blending with full alpha gives the upper color, and with none the lower one.
pub proof fn blend_extremes(s: u8, u: u8)
    ensures
        mixed(s, u, 255) == s,
        mixed(s, u, 0) == u,
{
}

/// The leading `#` is optional.
pub proof fn hash_is_optional(h: Seq<char>)
    requires
        h.len() > 0 ==> h[0] != '#',
    ensures
        color_of(seq!['#'] + h) == color_of(h),
{
    assert((seq!['#'] + h).skip(1) =~= h);
}

/// The short form stands for each digit written twice, and leaves the color opaque.
pub proof fn short_form_doubles_the_digits(r: char, g: char, b: char)
    requires
        hex_char(r).is_some(),
        hex_char(g).is_some(),
        hex_char(b).is_some(),
    ensures
        color_of(seq![r, g, b]) == color_of(seq![r, r, g, g, b, b]),
        color_of(seq![r, g, b]).is_some(),
        color_of(seq![r, r, g, g, b, b]) == color_of(seq![r, r, g, g, b, b, 'f', 'f']),
{
    let short = seq![r, g, b];
    let long = seq![r, r, g, g, b, b];
    let full = seq![r, r, g, g, b, b, 'f', 'f'];
    assert(hex_char('#').is_none());
    assert(without_hash(short) == short);
    assert(without_hash(long) == long);
    assert(without_hash(full) == full);
    assert(all_hex(short));
    assert(all_hex(long));
    assert(all_hex(full)) by {
        assert(hex_char('f') == Some(15u8));
    }
    digits_are_small(r);
    digits_are_small(g);
    digits_are_small(b);
}

proof fn digits_are_small(c: char)
    ensures
        hex_char(c) matches Some(v) ==> v < 16,
{
}

/// The digits of a color come two to a channel, the higher one first, in the order red,
/// green, blue, alpha.
pub proof fn channels_are_in_order(h: Seq<char>)
    requires
        h.len() == 8,
        all_hex(h),
    ensures
        ({
            let c = color_of(h);
            &&& c.is_some()
            &&& c->0.r == 16 * hex_char(h[0])->0 + hex_char(h[1])->0
            &&& c->0.g == 16 * hex_char(h[2])->0 + hex_char(h[3])->0
            &&& c->0.b == 16 * hex_char(h[4])->0 + hex_char(h[5])->0
            &&& c->0.a == 16 * hex_char(h[6])->0 + hex_char(h[7])->0
        }),
{
    assert(hex_char(h[0]).is_some());
    assert(hex_char('#').is_none());
    assert(without_hash(h) == h);
    digits_are_small(h[0]);
    digits_are_small(h[1]);
    digits_are_small(h[2]);
    digits_are_small(h[3]);
    digits_are_small(h[4]);
    digits_are_small(h[5]);
    digits_are_small(h[6]);
    digits_are_small(h[7]);
}

/// Only three, six or eight digits are a color, and only digits.
pub proof fn other_texts_are_no_color(s: Seq<char>)
    ensures
        color_of(s).is_some() <==> all_hex(without_hash(s)) && (without_hash(s).len() == 3 || without_hash(
            s,
        ).len() == 6 || without_hash(s).len() == 8),
        s.len() > 0 && s[0] == '#' ==> without_hash(s) == s.skip(1),
        s.len() > 0 && s[0] != '#' ==> without_hash(s) == s,
{
}

/// A number `0xRRGGBB` is the opaque color of its three bytes.
pub proof fn hex_numbers_hold_three_bytes(r: u8, g: u8, b: u8)
    ensures
        Rgba::of_hex((0x10000 * r + 0x100 * g + b) as u32) == (Rgba { r, g, b, a: 255 }),
{
    let n = (0x10000 * r + 0x100 * g + b) as u32;
    assert(n / 0x10000 == r);
    assert(n / 0x100 == 0x100 * r + g);
    assert(n % 0x100 == b);
}

/// A blend lies between the two colors, and more alpha never takes it further from the
/// upper one.
pub proof fn blends_lie_between(s: u8, u: u8, a: u8)
    ensures
        s <= u ==> s <= mixed(s, u, a) <= u,
        u <= s ==> u <= mixed(s, u, a) <= s,
        a < 255 && u <= s ==> mixed(s, u, a) <= mixed(s, u, (a + 1) as u8),
        a < 255 && s <= u ==> mixed(s, u, (a + 1) as u8) <= mixed(s, u, a),
{
    let t = s * a + u * (255 - a);
    assert(s <= u ==> 255 * s <= t <= 255 * u) by (nonlinear_arith)
        requires
            t == s * a + u * (255 - a),
            0 <= a <= 255,
    ;
    assert(u <= s ==> 255 * u <= t <= 255 * s) by (nonlinear_arith)
        requires
            t == s * a + u * (255 - a),
            0 <= a <= 255,
    ;
    if a < 255 {
        let v = s * (a + 1) + u * (255 - (a + 1));
        assert(v == t + s - u) by (nonlinear_arith)
            requires
                t == s * a + u * (255 - a),
                v == s * (a + 1) + u * (255 - (a + 1)),
        ;
        assert(0 <= v <= 255 * 255) by (nonlinear_arith)
            requires
                v == s * (a + 1) + u * (255 - (a + 1)),
                0 <= a < 255,
                0 <= s <= 255,
                0 <= u <= 255,
        ;
    }
}

/// A blend is the nearest whole number to the weighted mean.
pub proof fn blends_are_rounded_to_nearest(s: u8, u: u8, a: u8)
    ensures
        ({
            let exact = 2 * (s * a + u * (255 - a));
            exact - 255 <= 510 * mixed(s, u, a) <= exact + 255
        }),
{
    assert(0 <= s * a <= 255 * a) by (nonlinear_arith)
        requires
            0 <= s <= 255,
            0 <= a,
    ;
    assert(0 <= u * (255 - a) <= 255 * (255 - a)) by (nonlinear_arith)
        requires
            0 <= u <= 255,
            0 <= a <= 255,
    ;
}

} // verus!
