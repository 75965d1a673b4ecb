//! The three-colour palette and the byte that stands for each colour in a hash.

use vstd::prelude::*;

verus! {

/// A colour of the palette.
#[derive(Debug, Eq, Hash, PartialEq, Clone, Copy, Structural)]
pub enum Color {
    Red,
    Green,
    Blue,
}

impl Color {
    /// The byte that stands for this colour wherever it is hashed.
    pub open spec fn spec_tag(self) -> u8 {
        match self {
            Color::Red => 0,
            Color::Green => 1,
            Color::Blue => 2,
        }
    }

    /// The colour that a tag below three stands for.
    pub open spec fn of_tag(tag: int) -> Color {
        if tag == 0 {
            Color::Red
        } else if tag == 1 {
            Color::Green
        } else {
            Color::Blue
        }
    }

    #[verifier::when_used_as_spec(spec_tag)]
    pub fn tag(self) -> (t: u8)
        ensures
            t == self.spec_tag(),
            t < 3,
    {
        match self {
            Color::Red => 0,
            Color::Green => 1,
            Color::Blue => 2,
        }
    }
}

/// Distinct colours have distinct tags, and every tag names its colour.
pub proof fn lemma_tag_injective(a: Color, b: Color)
    ensures
        a.spec_tag() == b.spec_tag() <==> a == b,
        Color::of_tag(a.spec_tag() as int) == a,
{
}

} // verus!
