//! Relabellings of the palette: what a round applies to the colouring before
//! it commits to it.

use crate::color::Color;
use crate::entropy::shuffle_colors;
use vstd::prelude::*;

verus! {

/// Whether `images`, read as the images of red, green and blue in that order,
/// sends distinct colours to distinct colours.
pub open spec fn is_bijection(images: Seq<Color>) -> bool {
    &&& images.len() == 3
    &&& images[0] != images[1]
    &&& images[0] != images[2]
    &&& images[1] != images[2]
}

/// The colour that `images` sends `color` to.
pub open spec fn image(images: Seq<Color>, color: Color) -> Color {
    images[color.spec_tag() as int]
}

/// The label that `images` sends `label` to: a vertex without a colour stays
/// without one.
pub open spec fn image_of_label(images: Seq<Color>, label: Option<Color>) -> Option<Color> {
    match label {
        Some(color) => Some(image(images, color)),
        None => None,
    }
}

/// The colour that `images` sends to `color`, where `images` is a bijection.
pub open spec fn preimage(images: Seq<Color>, color: Color) -> Color {
    if images[0] == color {
        Color::Red
    } else if images[1] == color {
        Color::Green
    } else {
        Color::Blue
    }
}

/// The relabelling that undoes `images`, where `images` is a bijection.
pub open spec fn inverse_of(images: Seq<Color>) -> Seq<Color> {
    seq![
        preimage(images, Color::Red),
        preimage(images, Color::Green),
        preimage(images, Color::Blue),
    ]
}

/// The relabelling that leaves every colour as it is.
pub open spec fn identity() -> Seq<Color> {
    seq![Color::Red, Color::Green, Color::Blue]
}

/// A relabelling of the palette composed with its inverse, in either order,
/// leaves every colour as it was, and the inverse is a bijection too.
pub proof fn lemma_inverse_undoes(images: Seq<Color>, color: Color)
    requires
        is_bijection(images),
    ensures
        is_bijection(inverse_of(images)),
        image(inverse_of(images), image(images, color)) == color,
        image(images, image(inverse_of(images), color)) == color,
{
}

/// A bijection of the palette sends two colours to one colour only where the
/// two are the same.
pub proof fn lemma_bijection_injective(images: Seq<Color>, a: Color, b: Color)
    requires
        is_bijection(images),
    ensures
        image(images, a) == image(images, b) <==> a == b,
{
}

/// Every rearrangement of the three colours is a bijection of the palette.
pub proof fn lemma_rearranged_palette(images: Seq<Color>)
    requires
        images.to_multiset() == identity().to_multiset(),
    ensures
        is_bijection(images),
{
    let palette = identity();
    images.to_multiset_ensures();
    palette.to_multiset_ensures();
    assert(images.to_multiset().count(Color::Red) > 0);
    assert(images.to_multiset().count(Color::Green) > 0);
    assert(images.to_multiset().count(Color::Blue) > 0);
}

/// A relabelling of the palette, held as the images of red, green and blue.
pub struct ColorToColorMap {
    colors: [Color; 3],
}

impl View for ColorToColorMap {
    type V = Seq<Color>;

    closed spec fn view(&self) -> Seq<Color> {
        self.colors@
    }
}

impl ColorToColorMap {
    /// A relabelling drawn at random: some bijection of the palette.
    pub fn new_random() -> (random_map: ColorToColorMap)
        ensures
            is_bijection(random_map@),
    {
        let mut colors = [Color::Red, Color::Green, Color::Blue];
        shuffle_colors(&mut colors);
        proof {
            lemma_rearranged_palette(colors@);
        }
        ColorToColorMap { colors }
    }

    /// The relabelling that sends red, green and blue to the three colours
    /// given, or nothing where two of them are the same.
    pub fn from_images(red: Color, green: Color, blue: Color) -> (made: Option<ColorToColorMap>)
        ensures
            made is Some <==> is_bijection(seq![red, green, blue]),
            made matches Some(map) ==> map@ == seq![red, green, blue],
    {
        if red == green || red == blue || green == blue {
            None
        } else {
            let map = ColorToColorMap { colors: [red, green, blue] };
            Some(map)
        }
    }

    /// The label that this relabelling sends `optional_color` to.
    pub fn from(&self, optional_color: &Option<Color>) -> (mapped: Option<Color>)
        ensures
            self@.len() == 3,
            mapped == image_of_label(self@, *optional_color),
    {
        match optional_color {
            Some(color) => Some(self.colors[color.tag() as usize]),
            None => None,
        }
    }

    /// The relabelling that undoes this one.
    pub fn inverse(&self) -> (undo: ColorToColorMap)
        requires
            is_bijection(self@),
        ensures
            undo@ == inverse_of(self@),
            is_bijection(undo@),
    {
        let red = self.source_of(Color::Red);
        let green = self.source_of(Color::Green);
        let blue = self.source_of(Color::Blue);
        let undo = ColorToColorMap { colors: [red, green, blue] };
        proof {
            lemma_inverse_undoes(self@, Color::Red);
        }
        undo
    }

    fn source_of(&self, color: Color) -> (source: Color)
        ensures
            source == preimage(self@, color),
    {
        if self.colors[0] == color {
            Color::Red
        } else if self.colors[1] == color {
            Color::Green
        } else {
            Color::Blue
        }
    }
}

} // verus!
