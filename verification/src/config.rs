//! Top-level runtime configuration, and the on-disk form it is merged from.
//!
//! The runtime [`Config`] is the in-memory defaults optionally overlaid with a
//! user file. The on-disk form is a thin layer in which every field is optional
//! and *merges onto* the defaults, so a partial file overrides only the keys it
//! names.

use vstd::prelude::*;
use crate::color::Rgba;
use crate::completion::opt_text;
use crate::decimal::{decimal, to_decimal};
use crate::error::Error;
use crate::palette::{Palette, xterm_color};
use crate::snapshot::CursorShape;
use crate::text::{below, path_below, string_of};
use crate::theme::{Padding, Real32, Theme, ThemeView, is_default_theme};

verus! {

/// Runtime configuration for a shelvd session.
#[derive(Clone, Debug)]
pub struct Config {
    pub theme: Theme,
    /// Shell to launch. `None` falls back to `$SHELL` / a platform default.
    pub shell: Option<String>,
    /// Number of scrollback lines to retain.
    pub scrollback: usize,
    /// Whether a program may set the system clipboard via OSC 52. On by default;
    /// set `false` to deny program-driven clipboard writes. The read direction is
    /// never honored.
    pub osc52_clipboard_write: bool,
}

/// How many scrollback lines are kept by default.
pub const DEFAULT_SCROLLBACK: usize = 10000;

impl Default for Config {
    fn default() -> (c: Self)
        ensures
            is_default_theme(c.theme@),
            c.shell.is_none(),
            c.scrollback == DEFAULT_SCROLLBACK,
            c.osc52_clipboard_write,
    {
        Config {
            theme: Theme::default(),
            shell: None,
            scrollback: DEFAULT_SCROLLBACK,
            osc52_clipboard_write: true,
        }
    }
}

/// The on-disk form of the configuration.
#[derive(Clone, Debug)]
pub struct ConfigFile {
    pub shell: Option<String>,
    pub scrollback: Option<usize>,
    pub osc52_clipboard_write: Option<bool>,
    pub theme: ThemeFile,
}

/// The on-disk form of the theme.
#[derive(Clone, Debug)]
pub struct ThemeFile {
    pub font_family: Option<String>,
    pub font_size: Option<Real32>,
    pub line_height: Option<Real32>,
    pub cursor_shape: Option<CursorShape>,
    pub padding: Option<PaddingFile>,
    pub palette: PaletteFile,
}

/// The on-disk form of the padding.
#[derive(Clone, Copy, Debug)]
pub struct PaddingFile {
    pub x: Option<Real32>,
    pub y: Option<Real32>,
}

/// The on-disk form of the palette.
#[derive(Clone, Debug)]
pub struct PaletteFile {
    pub foreground: Option<Rgba>,
    pub background: Option<Rgba>,
    pub cursor: Option<Rgba>,
    pub cursor_text: Option<Rgba>,
    pub selection: Option<Rgba>,
    /// The 16 base ANSI colors (indices 0..16). Must be exactly 16 when present;
    /// the 6×6×6 cube and grayscale ramp are regenerated from them.
    pub ansi: Option<Vec<Rgba>>,
}

impl Default for PaletteFile {
    fn default() -> (p: Self)
        ensures
            p.foreground.is_none(),
            p.background.is_none(),
            p.cursor.is_none(),
            p.cursor_text.is_none(),
            p.selection.is_none(),
            p.ansi.is_none(),
    {
        PaletteFile {
            foreground: None,
            background: None,
            cursor: None,
            cursor_text: None,
            selection: None,
            ansi: None,
        }
    }
}

impl Default for ThemeFile {
    fn default() -> (t: Self)
        ensures
            t.font_family.is_none(),
            t.font_size.is_none(),
            t.line_height.is_none(),
            t.cursor_shape.is_none(),
            t.padding.is_none(),
            t.palette.foreground.is_none(),
            t.palette.background.is_none(),
            t.palette.cursor.is_none(),
            t.palette.cursor_text.is_none(),
            t.palette.selection.is_none(),
            t.palette.ansi.is_none(),
    {
        ThemeFile {
            font_family: None,
            font_size: None,
            line_height: None,
            cursor_shape: None,
            padding: None,
            palette: PaletteFile::default(),
        }
    }
}

impl Default for ConfigFile {
    fn default() -> (c: Self)
        ensures
            c.shell.is_none(),
            c.scrollback.is_none(),
            c.osc52_clipboard_write.is_none(),
            c.theme.font_family.is_none(),
            c.theme.font_size.is_none(),
            c.theme.line_height.is_none(),
            c.theme.cursor_shape.is_none(),
            c.theme.padding.is_none(),
            c.theme.palette.foreground.is_none(),
            c.theme.palette.background.is_none(),
            c.theme.palette.cursor.is_none(),
            c.theme.palette.cursor_text.is_none(),
            c.theme.palette.selection.is_none(),
            c.theme.palette.ansi.is_none(),
    {
        ConfigFile {
            shell: None,
            scrollback: None,
            osc52_clipboard_write: None,
            theme: ThemeFile::default(),
        }
    }
}

/// `new`, or `base` where there is none.
pub open spec fn or_base<T>(new: Option<T>, base: T) -> T {
    match new {
        Some(v) => v,
        None => base,
    }
}

/// Whether the palette part can be merged: its base colors, where it lists any,
/// are sixteen.
pub open spec fn ansi_ok(f: PaletteFile) -> bool {
    f.ansi matches Some(v) ==> v@.len() == 16
}

/// Whether `p` is the palette `base` with the part `f` merged onto it. Where the
/// base colors are wrong in number, they are left out.
pub open spec fn palette_merged(f: PaletteFile, base: Palette, p: Palette) -> bool {
    &&& p.foreground == or_base(f.foreground, base.foreground)
    &&& p.background == or_base(f.background, base.background)
    &&& p.cursor == or_base(f.cursor, base.cursor)
    &&& p.cursor_text == or_base(f.cursor_text, base.cursor_text)
    &&& p.selection == or_base(f.selection, base.selection)
    &&& match f.ansi {
        Some(v) if v@.len() == 16 => forall|i: int|
            0 <= i < 256 ==> #[trigger] p.colors@[i] == xterm_color(v@, i),
        _ => p.colors == base.colors,
    }
}

/// The message for base colors that are not sixteen.
pub open spec fn ansi_message(n: nat) -> Seq<char> {
    "theme.palette.ansi must list exactly 16 colors, found "@ + decimal(n)
}

impl PaletteFile {
    /// Merge this part onto `palette`. The special slots are applied first, so
    /// that they win over a regenerated table.
    pub fn resolve_into(self, palette: &mut Palette) -> (r: Result<(), Error>)
        ensures
            palette_merged(self, *old(palette), *final(palette)),
            r.is_ok() == ansi_ok(self),
            r matches Err(e) ==> e == Error::Config(e->Config_0) && e->Config_0@ == ansi_message(
                self.ansi->0@.len(),
            ),
    {
        if let Some(c) = self.foreground {
            palette.foreground = c;
        }
        if let Some(c) = self.background {
            palette.background = c;
        }
        if let Some(c) = self.cursor {
            palette.cursor = c;
        }
        if let Some(c) = self.cursor_text {
            palette.cursor_text = c;
        }
        if let Some(c) = self.selection {
            palette.selection = c;
        }
        if let Some(ansi) = &self.ansi {
            if ansi.len() != 16 {
                let mut m = "theme.palette.ansi must list exactly 16 colors, found ".to_owned();
                let digits = to_decimal(ansi.len() as u64);
                let digits = string_of(&digits);
                m.append(digits.as_str());
                return Err(Error::Config(m));
            }
            let base: [Rgba; 16] = [
                ansi[0],
                ansi[1],
                ansi[2],
                ansi[3],
                ansi[4],
                ansi[5],
                ansi[6],
                ansi[7],
                ansi[8],
                ansi[9],
                ansi[10],
                ansi[11],
                ansi[12],
                ansi[13],
                ansi[14],
                ansi[15],
            ];
            proof {
                assert(base@ =~= ansi@);
            }
            *palette = Palette::from_base16(
                base,
                palette.foreground,
                palette.background,
                palette.cursor,
                palette.cursor_text,
                palette.selection,
            );
        }
        Ok(())
    }
}

/// The padding `base` with the part `f` merged onto it.
pub open spec fn padding_merged(f: Option<PaddingFile>, base: Padding) -> Padding {
    match f {
        Some(p) => Padding { x: or_base(p.x, base.x), y: or_base(p.y, base.y) },
        None => base,
    }
}

/// Whether `t` is the theme `base` with the part `f` merged onto it.
pub open spec fn theme_merged(f: ThemeFile, base: ThemeView, t: ThemeView) -> bool {
    &&& t.font_family == match f.font_family {
        Some(s) => Some(s@),
        None => base.font_family,
    }
    &&& t.font_size == or_base(f.font_size, base.font_size)
    &&& t.line_height == or_base(f.line_height, base.line_height)
    &&& t.cursor_shape == or_base(f.cursor_shape, base.cursor_shape)
    &&& t.padding == padding_merged(f.padding, base.padding)
    &&& palette_merged(f.palette, base.palette, t.palette)
}

impl ThemeFile {
    /// Merge this part onto `theme`.
    pub fn resolve_into(self, theme: &mut Theme) -> (r: Result<(), Error>)
        ensures
            theme_merged(self, old(theme)@, final(theme)@),
            r.is_ok() == ansi_ok(self.palette),
            r matches Err(e) ==> e == Error::Config(e->Config_0) && e->Config_0@ == ansi_message(
                self.palette.ansi->0@.len(),
            ),
    {
        if self.font_family.is_some() {
            theme.font_family = self.font_family;
        }
        if let Some(font_size) = self.font_size {
            theme.font_size = font_size;
        }
        if let Some(line_height) = self.line_height {
            theme.line_height = line_height;
        }
        if let Some(cursor_shape) = self.cursor_shape {
            theme.cursor_shape = cursor_shape;
        }
        if let Some(padding) = self.padding {
            if let Some(x) = padding.x {
                theme.padding.x = x;
            }
            if let Some(y) = padding.y {
                theme.padding.y = y;
            }
        }
        self.palette.resolve_into(&mut theme.palette)
    }
}

impl ConfigFile {
    /// The configuration that this file stands for: the defaults, with what it
    /// names merged onto them.
    pub fn resolve(self) -> (r: Result<Config, Error>)
        ensures
            match r {
                Ok(c) => ansi_ok(self.theme.palette) && c.scrollback == or_base(
                    self.scrollback,
                    DEFAULT_SCROLLBACK,
                ) && c.osc52_clipboard_write == or_base(self.osc52_clipboard_write, true)
                    && opt_text(c.shell) == opt_text(self.shell) && exists|base: ThemeView|
                    #![auto]
                    is_default_theme(base) && theme_merged(self.theme, base, c.theme@),
                Err(e) => !ansi_ok(self.theme.palette) && e == Error::Config(e->Config_0)
                    && e->Config_0@ == ansi_message(self.theme.palette.ansi->0@.len()),
            },
    {
        let mut config = Config::default();
        if self.shell.is_some() {
            config.shell = self.shell;
        }
        if let Some(scrollback) = self.scrollback {
            config.scrollback = scrollback;
        }
        if let Some(osc52) = self.osc52_clipboard_write {
            config.osc52_clipboard_write = osc52;
        }
        let ghost base = config.theme@;
        match self.theme.resolve_into(&mut config.theme) {
            Ok(_) => {
                proof {
                    assert(is_default_theme(base) && theme_merged(self.theme, base, config.theme@));
                }
                Ok(config)
            },
            Err(e) => Err(e),
        }
    }
}

impl Config {
    /// Default config-file path: `<config_dir>/shelvd/config.toml`
    /// (e.g. `~/.config/shelvd/config.toml` on Linux).
    pub fn config_path(config_dir: Option<String>) -> (p: Option<String>)
        ensures
            opt_text(p) == match config_dir {
                Some(d) => Some(below(below(d@, "shelvd"@), "config.toml"@)),
                None => None,
            },
    {
        match config_dir {
            Some(d) => {
                let dir = path_below(d.as_str(), "shelvd");
                Some(path_below(dir.as_str(), "config.toml"))
            },
            None => None,
        }
    }

    /// The file to load: the one that the environment names, else the default
    /// path.
    pub fn chosen_path(env_path: Option<String>, config_dir: Option<String>) -> (p: Option<String>)
        ensures
            opt_text(p) == match env_path {
                Some(e) => Some(e@),
                None => match config_dir {
                    Some(d) => Some(below(below(d@, "shelvd"@), "config.toml"@)),
                    None => None,
                },
            },
    {
        match env_path {
            Some(e) => Some(e),
            None => Self::config_path(config_dir),
        }
    }

    /// The configuration to run with, given what loading a file gave: a missing
    /// file yields the built-in defaults; a malformed one also falls back to the
    /// defaults, with a warning, so a typo never stops the terminal from starting.
    pub fn loaded_or_default(loaded: Option<Result<Config, Error>>) -> (r: (Config, Option<String>))
        ensures
            match loaded {
                Some(Ok(c)) => r.0 == c && r.1.is_none(),
                Some(Err(e)) => r.0.is_builtin() && r.1.is_some() && match e {
                    Error::Config(s) => r.1->0@ == "configuration error: "@ + s@
                        + "; using built-in defaults"@,
                },
                None => r.0.is_builtin() && r.1.is_none(),
            },
    {
        match loaded {
            Some(Ok(c)) => (c, None),
            Some(Err(e)) => {
                let mut m = e.message();
                m.append("; using built-in defaults");
                (Config::default(), Some(m))
            },
            None => (Config::default(), None),
        }
    }

    /// Whether these are the built-in defaults.
    pub open spec fn is_builtin(&self) -> bool {
        &&& is_default_theme(self.theme@)
        &&& self.shell.is_none()
        &&& self.scrollback == DEFAULT_SCROLLBACK
        &&& self.osc52_clipboard_write
    }
}

/// The error for a file that could not be read or parsed; `doing` is `reading` or
/// `parsing`.
pub fn file_error(doing: &str, path: &str, cause: &str) -> (e: Error)
    ensures
        match e {
            Error::Config(m) => m@ == doing@ + " "@ + path@ + ": "@ + cause@,
        },
{
    let mut m = doing.to_owned();
    m.append(" ");
    m.append(path);
    m.append(": ");
    m.append(cause);
    Error::Config(m)
}

/// A theme part that names nothing leaves the theme as it was.
pub proof fn empty_part_changes_nothing(f: ThemeFile, base: ThemeView, t: ThemeView)
    requires
        f.font_family.is_none(),
        f.font_size.is_none(),
        f.line_height.is_none(),
        f.cursor_shape.is_none(),
        f.padding.is_none(),
        f.palette.foreground.is_none(),
        f.palette.background.is_none(),
        f.palette.cursor.is_none(),
        f.palette.cursor_text.is_none(),
        f.palette.selection.is_none(),
        f.palette.ansi.is_none(),
        theme_merged(f, base, t),
    ensures
        t == base,
{
    assert(t.palette == base.palette);
}

/// What a theme part names is what the theme has then.
pub proof fn named_keys_win(f: ThemeFile, base: ThemeView, t: ThemeView, i: int)
    requires
        theme_merged(f, base, t),
        0 <= i < 256,
    ensures
        f.font_family matches Some(s) ==> t.font_family == Some(s@),
        f.font_size matches Some(v) ==> t.font_size == v,
        f.line_height matches Some(v) ==> t.line_height == v,
        f.cursor_shape matches Some(v) ==> t.cursor_shape == v,
        f.padding matches Some(q) ==> (q.x matches Some(v) ==> t.padding.x == v),
        f.padding matches Some(q) ==> (q.y matches Some(v) ==> t.padding.y == v),
        f.palette.foreground matches Some(c) ==> t.palette.foreground == c,
        f.palette.background matches Some(c) ==> t.palette.background == c,
        f.palette.cursor matches Some(c) ==> t.palette.cursor == c,
        f.palette.cursor_text matches Some(c) ==> t.palette.cursor_text == c,
        f.palette.selection matches Some(c) ==> t.palette.selection == c,
        f.palette.ansi matches Some(v) ==> v@.len() == 16 && i < 16 ==> t.palette.colors@[i] == v@[i],
{
}

/// What a theme part does not name stays as it was, whatever else it names.
pub proof fn unnamed_keys_stay(f: ThemeFile, base: ThemeView, t: ThemeView)
    requires
        theme_merged(f, base, t),
    ensures
        f.font_family.is_none() ==> t.font_family == base.font_family,
        f.font_size.is_none() ==> t.font_size == base.font_size,
        f.line_height.is_none() ==> t.line_height == base.line_height,
        f.cursor_shape.is_none() ==> t.cursor_shape == base.cursor_shape,
        f.padding.is_none() ==> t.padding == base.padding,
        f.padding matches Some(q) ==> q.x.is_none() ==> t.padding.x == base.padding.x,
        f.padding matches Some(q) ==> q.y.is_none() ==> t.padding.y == base.padding.y,
        f.palette.foreground.is_none() ==> t.palette.foreground == base.palette.foreground,
        f.palette.background.is_none() ==> t.palette.background == base.palette.background,
        f.palette.cursor.is_none() ==> t.palette.cursor == base.palette.cursor,
        f.palette.cursor_text.is_none() ==> t.palette.cursor_text == base.palette.cursor_text,
        f.palette.selection.is_none() ==> t.palette.selection == base.palette.selection,
        f.palette.ansi.is_none() ==> t.palette.colors == base.palette.colors,
{
}

/// A list of base colors is refused exactly where it is not sixteen long, and then
/// leaves the table as it was.
pub proof fn wrong_lists_change_no_color(f: PaletteFile, base: Palette, p: Palette)
    requires
        palette_merged(f, base, p),
    ensures
        ansi_ok(f) <==> f.ansi.is_none() || f.ansi->0@.len() == 16,
        !ansi_ok(f) ==> p.colors == base.colors,
{
}

/// Merging a part a second time changes nothing more.
pub proof fn merging_again_changes_nothing(f: ThemeFile, base: ThemeView, t: ThemeView)
    requires
        theme_merged(f, base, t),
    ensures
        theme_merged(f, t, t),
{
}

} // verus!
