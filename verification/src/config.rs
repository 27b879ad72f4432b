//! The color palette of the launcher's configuration. Loading a
//! configuration file from disk happens outside this crate; parsed values
//! arrive through [`crate::ui::color::Color::parse_hex`].

use vstd::prelude::*;
use crate::ui::color::Color;

verus! {

/// The configurable colors of the launcher surface.
#[derive(Clone, Copy, Debug, PartialEq, Eq, Structural)]
pub struct ColorConfig {
    pub background: Color,
    pub background_second: Color,
    pub foreground: Color,
    pub foreground_second: Color,
    pub primary: Color,
    pub secondary: Color,
}

impl Default for ColorConfig {
    /// The stock palette: grays for surfaces and text, blue and green
    /// accents, all fully opaque.
    fn default() -> (r: Self)
        ensures
            r.background == (Color { r: 50u8, g: 50u8, b: 50u8, a: 255u8 }),
            r.background_second == (Color { r: 80u8, g: 80u8, b: 80u8, a: 255u8 }),
            r.foreground == (Color { r: 200u8, g: 200u8, b: 200u8, a: 255u8 }),
            r.foreground_second == (Color { r: 150u8, g: 150u8, b: 150u8, a: 255u8 }),
            r.primary == (Color { r: 50u8, g: 50u8, b: 200u8, a: 255u8 }),
            r.secondary == (Color { r: 50u8, g: 200u8, b: 50u8, a: 255u8 }),
    {
        ColorConfig {
            background: Color::from_rgba(50, 50, 50, 255),
            background_second: Color::from_rgba(80, 80, 80, 255),
            foreground: Color::from_rgba(200, 200, 200, 255),
            foreground_second: Color::from_rgba(150, 150, 150, 255),
            primary: Color::from_rgba(50, 50, 200, 255),
            secondary: Color::from_rgba(50, 200, 50, 255),
        }
    }
}

} // verus!
