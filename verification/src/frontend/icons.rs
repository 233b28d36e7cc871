//! Icon glyphs of the Phosphor icon fonts: which code point of which font
//! each icon of the pages is drawn with.
use vstd::prelude::*;

verus! {

/// The two Phosphor fonts the icons come from.
#[derive(Debug, Clone, Copy, PartialEq, Eq)]
pub enum IconFont {
    /// "Phosphor-Fill"
    Fill,
    /// "Phosphor"
    Regular,
}

impl IconFont {
    /// The font family name.
    pub fn family(&self) -> (name: &'static str)
        ensures
            *self == IconFont::Fill ==> name@ == "Phosphor-Fill"@,
            *self == IconFont::Regular ==> name@ == "Phosphor"@,
    {
        match self {
            IconFont::Fill => "Phosphor-Fill",
            IconFont::Regular => "Phosphor",
        }
    }
}

/// A glyph: a code point of one of the icon fonts.
#[derive(Debug, Clone, Copy, PartialEq, Eq)]
pub struct IconGlyph {
    pub codepoint: char,
    pub font: IconFont,
}

/// Namespace of the icons the pages draw.
pub struct Icons;

impl Icons {
    pub fn gear_six_fill() -> (g: IconGlyph)
        ensures
            g == (IconGlyph { codepoint: '\u{E272}', font: IconFont::Fill }),
    {
        IconGlyph { codepoint: '\u{E272}', font: IconFont::Fill }
    }

    pub fn microphone_fill() -> (g: IconGlyph)
        ensures
            g == (IconGlyph { codepoint: '\u{E326}', font: IconFont::Fill }),
    {
        IconGlyph { codepoint: '\u{E326}', font: IconFont::Fill }
    }

    pub fn microphone_slash_fill() -> (g: IconGlyph)
        ensures
            g == (IconGlyph { codepoint: '\u{E328}', font: IconFont::Fill }),
    {
        IconGlyph { codepoint: '\u{E328}', font: IconFont::Fill }
    }

    pub fn chat_teardrop_dots_fill() -> (g: IconGlyph)
        ensures
            g == (IconGlyph { codepoint: '\u{E176}', font: IconFont::Fill }),
    {
        IconGlyph { codepoint: '\u{E176}', font: IconFont::Fill }
    }

    pub fn arrow_right_solid() -> (g: IconGlyph)
        ensures
            g == (IconGlyph { codepoint: '\u{E06C}', font: IconFont::Regular }),
    {
        IconGlyph { codepoint: '\u{E06C}', font: IconFont::Regular }
    }

    pub fn arrow_left_solid() -> (g: IconGlyph)
        ensures
            g == (IconGlyph { codepoint: '\u{E058}', font: IconFont::Regular }),
    {
        IconGlyph { codepoint: '\u{E058}', font: IconFont::Regular }
    }
}

} // verus!
