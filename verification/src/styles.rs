//! The named colours of the web client's theme.
use vstd::prelude::*;

verus! {

/// A colour role in the theme.
#[derive(Clone, Copy, Debug, PartialEq, Eq, Structural, Hash)]
pub enum Color {
    Background,
    MainText,
    Primary,
    MutedPrimary,
    DarkPrimary,
    MutedSecondary,
    Secondary,
    DarkSecondary,
    Highlight,
}

/// A colour of the theme: a hexadecimal RGB value, or a shade (numbered
/// from light to dark) of one of the style library's palettes.
#[derive(Clone, Copy, Debug, PartialEq, Eq, Structural)]
pub enum Swatch {
    Hex(u32),
    White,
    Blue(u8),
    Red(u8),
    Green(u8),
}

/// The colour each role takes in the light theme.
pub open spec fn light_swatch(color: Color) -> Swatch {
    match color {
        Color::Background => Swatch::Hex(0xE5E7EB),
        Color::MainText => Swatch::White,
        Color::Primary => Swatch::Blue(3),
        Color::MutedPrimary => Swatch::Blue(2),
        Color::DarkPrimary => Swatch::Blue(4),
        Color::Secondary => Swatch::Red(3),
        Color::MutedSecondary => Swatch::Red(2),
        Color::DarkSecondary => Swatch::Red(4),
        Color::Highlight => Swatch::Green(4),
    }
}

/// The light theme: a light grey background, white text, blue primary and
/// red secondary shades, and a green highlight.
pub fn light_theme(color: Color) -> (r: Swatch)
    ensures
        r == light_swatch(color),
{
    match color {
        Color::Background => Swatch::Hex(0xE5E7EB),
        Color::MainText => Swatch::White,
        Color::Primary => Swatch::Blue(3),
        Color::MutedPrimary => Swatch::Blue(2),
        Color::DarkPrimary => Swatch::Blue(4),
        Color::Secondary => Swatch::Red(3),
        Color::MutedSecondary => Swatch::Red(2),
        Color::DarkSecondary => Swatch::Red(4),
        Color::Highlight => Swatch::Green(4),
    }
}

} // verus!
