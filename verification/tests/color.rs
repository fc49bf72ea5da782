//! Colors and their text form.

use shelvd::color::Rgba;

#[test]
fn parses_hex_forms() {
    assert_eq!("#ff8800".parse::<Rgba>().unwrap(), Rgba::rgb(255, 136, 0));
    assert_eq!("ff8800".parse::<Rgba>().unwrap(), Rgba::rgb(255, 136, 0));
    assert_eq!("#f80".parse::<Rgba>().unwrap(), Rgba::rgb(255, 136, 0));
    assert_eq!("#11223344".parse::<Rgba>().unwrap(), Rgba::new(0x11, 0x22, 0x33, 0x44));
    assert!("#xyz".parse::<Rgba>().is_err());
    assert!("#12345".parse::<Rgba>().is_err());
    assert!("".parse::<Rgba>().is_err());
}

#[test]
fn display_round_trips() {
    let c = Rgba::rgb(0x12, 0x34, 0x56);
    assert_eq!(c.to_string(), "#123456");
    assert_eq!(c.to_string().parse::<Rgba>().unwrap(), c);
    assert_eq!(Rgba::new(1, 2, 3, 4).to_string(), "#01020304");
}

#[test]
fn error_quotes_the_text() {
    let e = Rgba::from_hex_str("#x\n\"").unwrap_err();
    assert_eq!(e.0, "#x\n\"");
    assert_eq!(
        e.message(),
        "invalid color \"#x\\n\\\"\": expected #rgb, #rrggbb, or #rrggbbaa hex"
    );
    assert!(Rgba::from_hex_str("#+1+2+3").is_err(), "a sign is no hex digit");
    assert!(Rgba::from_hex_str("##fff").is_err());
    assert!(Rgba::from_hex_str("#é00").is_err());
}

#[test]
fn hex_literal_fills_the_channels() {
    assert_eq!(Rgba::hex(0x14110f), Rgba::new(0x14, 0x11, 0x0f, 255));
    assert_eq!(Rgba::hex(0xff14110f), Rgba::hex(0x14110f));
}

#[test]
fn every_color_text_reads_back() {
    for v in 0..=255u8 {
        let c = Rgba::new(v, 255 - v, v / 2, v);
        assert_eq!(Rgba::from_hex_str(&c.to_string()), Ok(c));
    }
}

#[test]
fn blend_rounds_like_real_numbers() {
    assert_eq!(
        Rgba::new(200, 100, 0, 128).over(Rgba::rgb(0, 50, 255)),
        Rgba::rgb(100, 75, 127)
    );
    for a in 0..=255u8 {
        for (s, u) in [(0u8, 255u8), (255, 0), (207, 20), (13, 200), (77, 78)] {
            let sa = a as f32 / 255.0;
            let want = ((s as f32 * sa) + (u as f32 * (1.0 - sa))).round() as u8;
            assert_eq!(Rgba::new(s, s, s, a).over(Rgba::rgb(u, u, u)).r, want);
        }
    }
}

#[test]
fn blend_at_the_extremes() {
    let (s, u) = (Rgba::rgb(1, 2, 3), Rgba::rgb(9, 8, 7));
    assert_eq!(s.over(u), s);
    assert_eq!(Rgba::new(1, 2, 3, 0).over(u), u);
}
