//! Font descriptors.

use glyphon::Family;
use vstd::prelude::*;

verus! {

/// The font families of the shaping engine, `glyphon::Family`: a family by
/// its name, or one of the five generic families.
#[verifier::external_type_specification]
pub struct ExFamily<'a>(Family<'a>);

/// The font family that a paragraph is shaped with.
#[derive(Clone, Copy, Debug)]
pub enum Font {
    /// A family by its name.
    Name(&'static str),
    /// Glyphs without finishing strokes.
    SansSerif,
    /// Glyphs with finishing strokes.
    Serif,
    /// Glyphs that resemble handwriting.
    Cursive,
    /// Decorative glyphs.
    Fantasy,
    /// Glyphs of one fixed width.
    Monospace,
}

/// What a [`Font`] denotes: the variant, and for a named family its name.
pub enum FontView {
    Name(Seq<char>),
    SansSerif,
    Serif,
    Cursive,
    Fantasy,
    Monospace,
}

impl View for Font {
    type V = FontView;

    open spec fn view(&self) -> FontView {
        match *self {
            Font::Name(name) => FontView::Name(name@),
            Font::SansSerif => FontView::SansSerif,
            Font::Serif => FontView::Serif,
            Font::Cursive => FontView::Cursive,
            Font::Fantasy => FontView::Fantasy,
            Font::Monospace => FontView::Monospace,
        }
    }
}

/// What a family of the shaping engine denotes, in the terms of [`Font`].
pub open spec fn family_view(family: Family<'static>) -> FontView {
    match family {
        Family::Name(name) => FontView::Name(name@),
        Family::Serif => FontView::Serif,
        Family::SansSerif => FontView::SansSerif,
        Family::Cursive => FontView::Cursive,
        Family::Fantasy => FontView::Fantasy,
        Family::Monospace => FontView::Monospace,
    }
}

/// The family of the shaping engine that denotes what `font` denotes.
pub fn to_family(font: Font) -> (family: Family<'static>)
    ensures
        family_view(family) == font@,
{
    match font {
        Font::Name(name) => Family::Name(name),
        Font::SansSerif => Family::SansSerif,
        Font::Serif => Family::Serif,
        Font::Cursive => Family::Cursive,
        Font::Fantasy => Family::Fantasy,
        Font::Monospace => Family::Monospace,
    }
}

} // verus!
