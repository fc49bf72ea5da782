//! What the sights of the parser say of the room that a grid needs.

use shelvd::emulator::Sight;
use shelvd::wide::Glyphs;

#[test]
fn at_first_lines_wrap_and_nothing_is_wide() {
    assert_eq!(Glyphs::new(), Glyphs { wrap: true, alt: false, wide: false });
}

#[test]
fn wide_glyphs_need_room_while_lines_wrap() {
    let mut g = Glyphs::new();
    assert!(g.look(&[Sight::Glyph('a'), Sight::Glyph('é'), Sight::Glyph('\u{301}'), Sight::Other]));
    assert_eq!(g, Glyphs { wrap: true, alt: false, wide: false });
    assert!(!g.look(&[Sight::Glyph('a'), Sight::Glyph('漢')]));
    assert_eq!(g, Glyphs { wrap: true, alt: false, wide: true });
    assert!(g.look(&[Sight::WrapOff, Sight::Glyph('🦀'), Sight::Glyph('b')]));
    assert_eq!(g, Glyphs { wrap: false, alt: false, wide: true });
    assert!(!g.look(&[Sight::Glyph('漢'), Sight::WrapOn, Sight::Glyph('漢')]));
    assert!(g.wrap);
}

#[test]
fn the_alternate_screen_keeps_its_glyphs_to_itself() {
    let mut g = Glyphs::new();
    assert!(!g.look(&[Sight::AltOn, Sight::Glyph('漢')]));
    assert_eq!(g, Glyphs { wrap: true, alt: true, wide: false });
    assert!(!g.look(&[Sight::AltOff, Sight::Glyph('漢')]));
    assert_eq!(g, Glyphs { wrap: true, alt: false, wide: true });
}

#[test]
fn a_reset_clears_what_was_wide() {
    let mut g = Glyphs { wrap: false, alt: true, wide: true };
    assert!(g.look(&[Sight::Reset]));
    assert_eq!(g, Glyphs::new());
    assert!(!g.look(&[Sight::Reset, Sight::Glyph('漢')]));
    assert!(g.wide);
}
