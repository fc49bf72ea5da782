//! The 256-color terminal palette plus the special foreground/background/cursor
//! slots. Indices follow the xterm convention:
//!
//! | Indices  | Meaning           |
//! | -------- | ----------------- |
//! | 0..16    | named ANSI colors |
//! | 16..232  | 6×6×6 color cube  |
//! | 232..256 | grayscale ramp    |

use vstd::prelude::*;
use crate::color::Rgba;

verus! {

/// A resolved color table used to turn indexed/named terminal colors into RGB.
#[derive(Clone, Copy, Debug)]
pub struct Palette {
    /// The 256 indexable colors.
    pub colors: [Rgba; 256],
    /// Default foreground.
    pub foreground: Rgba,
    /// Default background.
    pub background: Rgba,
    /// Cursor color.
    pub cursor: Rgba,
    /// Color of text under a block cursor.
    pub cursor_text: Rgba,
    /// Selection background.
    pub selection: Rgba,
}

/// The brightness of step `k` of the color cube.
pub open spec fn cube_level(k: int) -> u8 {
    if k == 0 {
        0
    } else {
        (55 + 40 * k) as u8
    }
}

/// Color `i` of the table built on the sixteen colors `base`.
pub open spec fn xterm_color(base: Seq<Rgba>, i: int) -> Rgba {
    if i < 16 {
        base[i]
    } else if i < 232 {
        let n = i - 16;
        Rgba { r: cube_level(n / 36), g: cube_level(n / 6 % 6), b: cube_level(n % 6), a: 255 }
    } else {
        let v = (8 + 10 * (i - 232)) as u8;
        Rgba { r: v, g: v, b: v, a: 255 }
    }
}

/// The sixteen named colors of the default theme, as `0xRRGGBB`.
pub open spec fn dark_base() -> Seq<u32> {
    seq![
        0x14110fu32, 0xc25f5f, 0x7f9a6a, 0xc9a45b,
        0x6f8aa6, 0x9a7aa6, 0x6fa6a0, 0xcfc4b4,
        0x4a4137, 0xe07a6f, 0x9ec27e, 0xe6c178,
        0x8fb0d0, 0xc0a0cc, 0x8fd0c8, 0xf0e6d6,
    ]
}

fn cube_value(k: u8) -> (v: u8)
    requires
        k < 6,
    ensures
        v == cube_level(k as int),
{
    if k == 0 {
        0
    } else {
        55 + 40 * k
    }
}

fn xterm_value(base: &[Rgba; 16], i: u8) -> (c: Rgba)
    ensures
        c == xterm_color(base@, i as int),
{
    if i < 16 {
        base[i as usize]
    } else if i < 232 {
        let n: u8 = i - 16;
        Rgba::rgb(cube_value(n / 36), cube_value(n / 6 % 6), cube_value(n % 6))
    } else {
        let v: u8 = 8 + 10 * (i - 232);
        Rgba::rgb(v, v, v)
    }
}

impl Palette {
    /// Look up one of the 256 indexed colors.
    pub fn indexed(&self, idx: u8) -> (c: Rgba)
        ensures
            c == self.colors@[idx as int],
    {
        self.colors[idx as usize]
    }

    /// The table built on sixteen named colors: they fill the first sixteen
    /// slots, the color cube and the grayscale ramp the rest.
    pub fn from_base16(
        base: [Rgba; 16],
        foreground: Rgba,
        background: Rgba,
        cursor: Rgba,
        cursor_text: Rgba,
        selection: Rgba,
    ) -> (p: Self)
        ensures
            p.foreground == foreground,
            p.background == background,
            p.cursor == cursor,
            p.cursor_text == cursor_text,
            p.selection == selection,
            forall|i: int| 0 <= i < 256 ==> #[trigger] p.colors@[i] == xterm_color(base@, i),
    {
        let mut colors: [Rgba; 256] = [Rgba { r: 0, g: 0, b: 0, a: 255 }; 256];
        let mut i: usize = 0;
        while i < 256
            invariant
                i <= 256,
                forall|k: int| 0 <= k < i ==> #[trigger] colors@[k] == xterm_color(base@, k),
            decreases 256 - i,
        {
            colors[i] = xterm_value(&base, i as u8);
            i = i + 1;
        }
        Palette { colors, foreground, background, cursor, cursor_text, selection }
    }

    /// The shelvd default: a warm, low-glow dark theme — old phosphor on
    /// shelved hardware that someone powered back up. The named colors are a
    /// muted, slightly amber-tinted set with a warm foreground.
    pub fn shelvd_dark() -> (p: Self)
        ensures
            p.is_shelvd_dark(),
    {
        let base: [Rgba; 16] = [
            Rgba::hex(0x14110f),
            Rgba::hex(0xc25f5f),
            Rgba::hex(0x7f9a6a),
            Rgba::hex(0xc9a45b),
            Rgba::hex(0x6f8aa6),
            Rgba::hex(0x9a7aa6),
            Rgba::hex(0x6fa6a0),
            Rgba::hex(0xcfc4b4),
            Rgba::hex(0x4a4137),
            Rgba::hex(0xe07a6f),
            Rgba::hex(0x9ec27e),
            Rgba::hex(0xe6c178),
            Rgba::hex(0x8fb0d0),
            Rgba::hex(0xc0a0cc),
            Rgba::hex(0x8fd0c8),
            Rgba::hex(0xf0e6d6),
        ];
        proof {
            let want = dark_base().map_values(|h: u32| Rgba::of_hex(h));
            assert(base@ =~= want);
        }
        Palette::from_base16(
            base,
            Rgba::hex(0xcfc4b4),
            Rgba::hex(0x14110f),
            Rgba::hex(0xe6a86c),
            Rgba::hex(0x14110f),
            Rgba::hex(0x3a3228),
        )
    }

    /// Whether this is the default theme's table, color for color.
    pub open spec fn is_shelvd_dark(&self) -> bool {
        &&& self.foreground == Rgba::of_hex(0xcfc4b4)
        &&& self.background == Rgba::of_hex(0x14110f)
        &&& self.cursor == Rgba::of_hex(0xe6a86c)
        &&& self.cursor_text == Rgba::of_hex(0x14110f)
        &&& self.selection == Rgba::of_hex(0x3a3228)
        &&& forall|i: int|
            0 <= i < 256 ==> #[trigger] self.colors@[i] == xterm_color(
                dark_base().map_values(|h: u32| Rgba::of_hex(h)),
                i,
            )
    }
}

impl Default for Palette {
    fn default() -> (p: Self)
        ensures
            p.is_shelvd_dark(),
    {
        Self::shelvd_dark()
    }
}

/// The steps of the color cube go from none to full brightness: the first step is 95,
/// and each further one 40 more.
pub proof fn cube_steps_are_even(k: int)
    requires
        1 <= k < 5,
    ensures
        cube_level(0) == 0,
        cube_level(1) == 95,
        cube_level(k + 1) == cube_level(k) + 40,
        cube_level(5) == 255,
{
}

/// The cube counts its colors by red, then green, then blue, six steps each; all of
/// them are opaque.
pub proof fn cube_counts_red_green_blue(base: Seq<Rgba>, r: int, g: int, b: int)
    requires
        0 <= r < 6,
        0 <= g < 6,
        0 <= b < 6,
    ensures
        xterm_color(base, 16 + 36 * r + 6 * g + b) == (Rgba {
            r: cube_level(r),
            g: cube_level(g),
            b: cube_level(b),
            a: 255,
        }),
{
    let n = 36 * r + 6 * g + b;
    assert(n / 36 == r);
    assert(n / 6 % 6 == g);
    assert(n % 6 == b);
}

/// The grayscale ramp has no tint and rises by ten from eight.
pub proof fn ramp_is_gray(base: Seq<Rgba>, i: int)
    requires
        232 <= i < 256,
    ensures
        ({
            let c = xterm_color(base, i);
            &&& c.r == c.g && c.g == c.b && c.a == 255
            &&& i == 232 ==> c.r == 8
            &&& i < 255 ==> xterm_color(base, i + 1).r == c.r + 10
            &&& i == 255 ==> c.r == 238
        }),
{
}

/// The first sixteen colors are the named ones; nothing else depends on them.
pub proof fn named_colors_come_first(base: Seq<Rgba>, other: Seq<Rgba>, i: int)
    requires
        0 <= i < 256,
    ensures
        i < 16 ==> xterm_color(base, i) == base[i],
        i >= 16 ==> xterm_color(base, i) == xterm_color(other, i),
{
}

/// In the default theme text is in the light gray of the table on its black, and text
/// under the cursor is in that black; each bright color is brighter than its plain one in
/// every channel, and every color is opaque.
pub proof fn the_default_theme_is_dark(p: Palette, i: int)
    requires
        p.is_shelvd_dark(),
        0 <= i < 8,
    ensures
        p.foreground == p.colors@[7],
        p.background == p.colors@[0],
        p.cursor_text == p.background,
        p.colors@[i].r < p.colors@[i + 8].r,
        p.colors@[i].g < p.colors@[i + 8].g,
        p.colors@[i].b < p.colors@[i + 8].b,
        p.colors@[i].a == 255 && p.colors@[i + 8].a == 255,
{
    let base = dark_base().map_values(|h: u32| Rgba::of_hex(h));
    assert(p.colors@[i] == xterm_color(base, i));
    assert(p.colors@[i + 8] == xterm_color(base, i + 8));
    assert(p.colors@[7] == xterm_color(base, 7));
    assert(p.colors@[0] == xterm_color(base, 0));
    assert(dark_base()[7] == 0xcfc4b4u32);
    assert(dark_base()[0] == 0x14110fu32);
}

} // verus!
