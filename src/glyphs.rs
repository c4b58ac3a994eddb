use vstd::prelude::*;

verus! {

/// The code page 437 glyph that rltk's `to_cp437` gives for a character.
pub uninterp spec fn cp437_of(c: char) -> u16;

/// Relies on rltk's `to_cp437`: a fixed table from characters to code page 437
/// glyphs, whose result depends on the character alone.
#[verifier::external_body]
pub(crate) fn cp437(c: char) -> (r: u16)
    ensures
        r == cp437_of(c),
{
    rltk::to_cp437(c)
}

} // verus!
