//! Double-width glyphs in the emulator's input.
//!
//! A grid one column wide has no room for a glyph that takes two. What the parser makes
//! of a chunk is looked at before the grid gets it: which characters it displays, and
//! whether lines wrap at that point, for without wrapping a glyph that has no room is
//! dropped.

use vstd::prelude::*;
use crate::emulator::{Sight, foreseen};
use crate::layout::{glyph_cols, glyph_width};

verus! {

/// Whether a character is displayed that takes more than one column.
pub open spec fn is_wide(s: Sight) -> bool {
    match s {
        Sight::Glyph(c) => glyph_width(c) > 1,
        _ => false,
    }
}

/// What is known of the input so far.
#[derive(Clone, Copy, Debug, PartialEq, Eq, Structural)]
pub struct Glyphs {
    /// Whether lines wrap.
    pub wrap: bool,
    /// Whether the alternate screen is up.
    pub alt: bool,
    /// Whether a double-width glyph may be kept on the main screen or in its history.
    pub wide: bool,
}

/// Whether one column has room for all that `sights` display: no double-width glyph
/// comes while lines wrap.
pub open spec fn harmless(g: Glyphs, sights: Seq<Sight>) -> bool {
    forall|k: int| 0 <= k < sights.len() && is_wide(#[trigger] sights[k]) ==> !g.through(sights.take(k)).wrap
}

/// Whether one column has room for what the chunk `bytes` displays after `chunks`.
pub open spec fn has_room(chunks: Seq<Seq<u8>>, bytes: Seq<u8>) -> bool {
    harmless(Glyphs::after(chunks), foreseen(chunks, bytes))
}

impl Glyphs {
    /// What is known at first, and after a reset, which clears everything.
    pub open spec fn first() -> Glyphs {
        Glyphs { wrap: true, alt: false, wide: false }
    }

    /// What is known after one more sight.
    pub open spec fn next(self, s: Sight) -> Glyphs {
        match s {
            Sight::Glyph(c) => Glyphs { wide: self.wide || (!self.alt && glyph_width(c) > 1), ..self },
            Sight::WrapOn => Glyphs { wrap: true, ..self },
            Sight::WrapOff => Glyphs { wrap: false, ..self },
            Sight::AltOn => Glyphs { alt: true, ..self },
            Sight::AltOff => Glyphs { alt: false, ..self },
            Sight::Reset => Glyphs::first(),
            Sight::Other => self,
        }
    }

    /// What is known after all of `sights`.
    pub open spec fn through(self, sights: Seq<Sight>) -> Glyphs
        decreases sights.len(),
    {
        if sights.len() == 0 {
            self
        } else {
            self.through(sights.drop_last()).next(sights.last())
        }
    }

    /// What is known after the chunks were read.
    #[verifier::opaque]
    pub open spec fn after(chunks: Seq<Seq<u8>>) -> Glyphs
        decreases chunks.len(),
    {
        if chunks.len() == 0 {
            Glyphs::first()
        } else {
            Glyphs::after(chunks.drop_last()).through(foreseen(chunks.drop_last(), chunks.last()))
        }
    }

    /// What is known at first.
    pub fn new() -> (g: Self)
        ensures
            g == Self::first(),
    {
        Glyphs { wrap: true, alt: false, wide: false }
    }

    /// Go on with `sights`, and say whether one column had room for them all.
    pub fn look(&mut self, sights: &[Sight]) -> (room: bool)
        ensures
            room == harmless(*old(self), sights@),
            *final(self) == old(self).through(sights@),
    {
        let ghost before = *self;
        let mut room: bool = true;
        let mut i: usize = 0;
        proof {
            assert(sights@.take(0) =~= Seq::empty());
        }
        while i < sights.len()
            invariant
                i <= sights@.len(),
                *self == before.through(sights@.take(i as int)),
                room == (forall|k: int|
                    0 <= k < i && is_wide(#[trigger] sights@[k]) ==> !before.through(sights@.take(k)).wrap),
            decreases sights@.len() - i,
        {
            let s: Sight = sights[i];
            proof {
                assert(sights@.take(i + 1).drop_last() =~= sights@.take(i as int));
                assert(sights@.take(i + 1).last() == s);
                assert(is_wide(sights@[i as int]) == is_wide(s));
            }
            match s {
                Sight::Glyph(c) => {
                    if glyph_cols(c) > 1 {
                        if self.wrap {
                            room = false;
                        }
                        if !self.alt {
                            self.wide = true;
                        }
                    }
                },
                Sight::WrapOn => {
                    self.wrap = true;
                },
                Sight::WrapOff => {
                    self.wrap = false;
                },
                Sight::AltOn => {
                    self.alt = true;
                },
                Sight::AltOff => {
                    self.alt = false;
                },
                Sight::Reset => {
                    *self = Glyphs::new();
                },
                Sight::Other => {},
            }
            i = i + 1;
        }
        proof {
            assert(sights@.take(sights@.len() as int) =~= sights@);
        }
        room
    }
}

/// Lines wrap as last told, and a reset makes them wrap again; nothing that is displayed
/// changes it, nor which screen is up.
pub proof fn wrapping_is_as_last_told(g: Glyphs, sights: Seq<Sight>, c: char)
    ensures
        g.through(sights.push(Sight::WrapOn)).wrap,
        !g.through(sights.push(Sight::WrapOff)).wrap,
        g.through(sights.push(Sight::Reset)) == (Glyphs { wrap: true, alt: false, wide: false }),
        g.through(sights.push(Sight::Glyph(c))).wrap == g.through(sights).wrap,
        g.through(sights.push(Sight::AltOn)) == (Glyphs { alt: true, ..g.through(sights) }),
        g.through(sights.push(Sight::AltOff)) == (Glyphs { alt: false, ..g.through(sights) }),
        g.through(sights.push(Sight::Other)) == g.through(sights),
{
    assert(sights.push(Sight::WrapOn).drop_last() =~= sights);
    assert(sights.push(Sight::WrapOff).drop_last() =~= sights);
    assert(sights.push(Sight::Reset).drop_last() =~= sights);
    assert(sights.push(Sight::Glyph(c)).drop_last() =~= sights);
    assert(sights.push(Sight::AltOn).drop_last() =~= sights);
    assert(sights.push(Sight::AltOff).drop_last() =~= sights);
    assert(sights.push(Sight::Other).drop_last() =~= sights);
}

/// A double-width glyph on the main screen is remembered until a reset; one on the
/// alternate screen is not.
pub proof fn wide_glyphs_are_remembered(g: Glyphs, c: char, s: Sight)
    requires
        glyph_width(c) > 1,
    ensures
        !g.alt ==> g.next(Sight::Glyph(c)).wide,
        g.alt ==> g.next(Sight::Glyph(c)) == g,
        g.wide && !(s is Reset) ==> g.next(s).wide,
{
}

/// One column has no room for a double-width glyph that comes while lines wrap, and for
/// nothing else it lacks room.
pub proof fn only_wide_glyphs_lack_room(g: Glyphs, sights: Seq<Sight>, c: char)
    ensures
        harmless(g, sights.push(Sight::Glyph(c))) <==> harmless(g, sights) && (glyph_width(c) <= 1
            || !g.through(sights).wrap),
        harmless(g, sights.push(Sight::Other)) == harmless(g, sights),
        harmless(g, Seq::empty()),
{
    more_sights(g, sights, Sight::Glyph(c));
    more_sights(g, sights, Sight::Other);
}

proof fn more_sights(g: Glyphs, sights: Seq<Sight>, s: Sight)
    ensures
        harmless(g, sights.push(s)) <==> harmless(g, sights) && (is_wide(s) ==> !g.through(sights).wrap),
{
    let all = sights.push(s);
    let n = sights.len() as int;
    assert(all.take(n) =~= sights);
    if harmless(g, all) {
        assert forall|k: int| 0 <= k < sights.len() && is_wide(#[trigger] sights[k]) implies !g.through(
            sights.take(k),
        ).wrap by {
            assert(is_wide(all[k]));
            assert(all.take(k) =~= sights.take(k));
        }
        if is_wide(s) {
            assert(is_wide(all[n]));
        }
    }
    if harmless(g, sights) && (is_wide(s) ==> !g.through(sights).wrap) {
        assert forall|k: int| 0 <= k < all.len() && is_wide(#[trigger] all[k]) implies !g.through(
            all.take(k),
        ).wrap by {
            if k < n {
                assert(is_wide(sights[k]));
                assert(all.take(k) =~= sights.take(k));
            }
        }
    }
}

} // verus!
