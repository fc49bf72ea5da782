//! Merging a configuration file onto the defaults.

use shelvd::color::Rgba;
use shelvd::config::{file_error, Config, ConfigFile};
use shelvd::error::Error;
use shelvd::palette::Palette;
use shelvd::snapshot::CursorShape;
use shelvd::theme::Theme;
use toml::Table;

/// A color of a table.
fn color(t: &Table, key: &str) -> Option<Rgba> {
    t.get(key).map(|v| Rgba::from_hex_str(v.as_str().unwrap()).unwrap())
}

/// Read a TOML text into the on-disk form, and resolve it.
fn resolve(toml_src: &str) -> Result<Config, Error> {
    let table: Table = toml::from_str(toml_src).map_err(|e| Error::Config(e.to_string()))?;
    let mut file = ConfigFile::default();
    file.scrollback = table.get("scrollback").map(|v| v.as_integer().unwrap() as usize);
    file.osc52_clipboard_write = table.get("osc52_clipboard_write").map(|v| v.as_bool().unwrap());
    if let Some(theme) = table.get("theme").and_then(|v| v.as_table()) {
        file.theme.cursor_shape = theme.get("cursor_shape").map(|v| match v.as_str().unwrap() {
            "block" => CursorShape::Block,
            "beam" => CursorShape::Beam,
            "underline" => CursorShape::Underline,
            _ => CursorShape::Hidden,
        });
        if let Some(palette) = theme.get("palette").and_then(|v| v.as_table()) {
            file.theme.palette.foreground = color(palette, "foreground");
            file.theme.palette.background = color(palette, "background");
            file.theme.palette.ansi = palette.get("ansi").map(|v| {
                let list = v.as_array().unwrap();
                list.iter().map(|c| Rgba::from_hex_str(c.as_str().unwrap()).unwrap()).collect()
            });
        }
    }
    file.resolve()
}

#[test]
fn empty_is_default() {
    let config = resolve("").unwrap();
    assert_eq!(config.scrollback, Config::default().scrollback);
    assert!(config.shell.is_none());
}

#[test]
fn partial_overrides_only_named() {
    let config = resolve(
        r##"
        scrollback = 500
        [theme.palette]
        background = "#102030"
        "##,
    )
    .unwrap();
    assert_eq!(config.scrollback, 500);
    assert_eq!(config.theme.palette.background, Rgba::rgb(0x10, 0x20, 0x30));
    // Anything not named keeps the default.
    assert_eq!(config.theme.palette.foreground, Palette::default().foreground);
    assert_eq!(config.theme.font_size, Theme::default().font_size);
}

#[test]
fn cursor_shape_parses() {
    let config = resolve("[theme]\ncursor_shape = \"beam\"\n").unwrap();
    assert_eq!(config.theme.cursor_shape, CursorShape::Beam);
}

#[test]
fn ansi_must_be_sixteen() {
    assert!(resolve("[theme.palette]\nansi = [\"#000000\", \"#ffffff\"]\n").is_err());
}

#[test]
fn ansi_sixteen_sets_base_and_regenerates_cube() {
    let mut src = String::from("[theme.palette]\nansi = [");
    for i in 0..16u8 {
        src.push_str(&format!("\"#0000{i:02x}\","));
    }
    src.push_str("]\n");
    let palette = resolve(&src).unwrap().theme.palette;
    assert_eq!(palette.indexed(1), Rgba::rgb(0, 0, 1));
    // Index 16 is the xterm cube origin, regenerated regardless of base16.
    assert_eq!(palette.indexed(16), Rgba::rgb(0, 0, 0));
}

#[test]
fn osc52_clipboard_write_defaults_on() {
    assert!(resolve("").unwrap().osc52_clipboard_write);
}

#[test]
fn osc52_clipboard_write_can_be_disabled() {
    let config = resolve("osc52_clipboard_write = false\n").unwrap();
    assert!(!config.osc52_clipboard_write);
    // Anything not named keeps its default.
    assert_eq!(config.scrollback, Config::default().scrollback);
}

#[test]
fn wrong_color_count_is_named_in_the_error() {
    let e = resolve("[theme.palette]\nansi = [\"#000000\", \"#ffffff\"]\n").unwrap_err();
    assert_eq!(e.message(), "configuration error: theme.palette.ansi must list exactly 16 colors, found 2");
}

#[test]
fn special_slots_win_over_a_rebuilt_table() {
    let list = vec!["\"#010203\""; 16].join(",");
    let src = format!("[theme.palette]\nforeground = \"#abcdef\"\nansi = [{list}]\n");
    let p = resolve(&src).unwrap().theme.palette;
    assert_eq!(p.foreground, Rgba::hex(0xabcdef));
    assert_eq!(p.background, Palette::default().background);
    assert_eq!(p.indexed(5), Rgba::hex(0x010203));
}

#[test]
fn config_paths() {
    let s = |t: &str| Some(t.to_owned());
    assert_eq!(Config::config_path(s("/home/u/.config")), s("/home/u/.config/shelvd/config.toml"));
    assert_eq!(Config::config_path(s("/x/")), s("/x/shelvd/config.toml"));
    assert_eq!(Config::config_path(s("/")), s("/shelvd/config.toml"));
    assert_eq!(Config::config_path(s("")), s("shelvd/config.toml"));
    assert_eq!(Config::config_path(None), None);
    assert_eq!(Config::chosen_path(None, s("/x/")), s("/x/shelvd/config.toml"));
    assert_eq!(Config::chosen_path(s("/x.toml"), s("/c")), s("/x.toml"));
    assert_eq!(Config::chosen_path(None, s("/c")), s("/c/shelvd/config.toml"));
}

#[test]
fn a_bad_file_warns_and_falls_back() {
    let (c, warning) = Config::loaded_or_default(None);
    assert_eq!((c.scrollback, warning), (10000, None));
    let e = file_error("parsing", "/c.toml", "bad");
    assert_eq!(e, Error::Config("parsing /c.toml: bad".to_owned()));
    let (c, warning) = Config::loaded_or_default(Some(Err(e)));
    assert_eq!(c.scrollback, 10000);
    assert_eq!(warning.as_deref(), Some("configuration error: parsing /c.toml: bad; using built-in defaults"));
    let mut mine = Config::default();
    mine.scrollback = 7;
    let (c, warning) = Config::loaded_or_default(Some(Ok(mine)));
    assert_eq!((c.scrollback, warning), (7, None));
}

#[test]
fn default_theme_numbers() {
    let t = Theme::default();
    assert_eq!(f32::from_bits(t.font_size.bits), 15.0);
    assert_eq!(f32::from_bits(t.line_height.bits), 1.25);
    assert_eq!(f32::from_bits(t.padding.x.bits), 8.0);
}
