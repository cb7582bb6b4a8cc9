//! The 16-entry color palette and the packed attribute byte.

use vstd::prelude::*;

verus! {

/// One of the 16 fixed palette entries of the text-mode display.
///
/// The palette assigns each color a 4-bit code, given by [`Color::code`]:
/// codes 0 through 7 are the normal-intensity colors, 8 through 15 the
/// bright ones.
#[derive(Debug, Clone, Copy, PartialEq, Eq, Structural)]
pub enum Color {
    Black,
    Blue,
    Green,
    Cyan,
    Red,
    Magenta,
    Brown,
    LightGray,
    DarkGray,
    LightBlue,
    LightGreen,
    LightCyan,
    LightRed,
    Pink,
    Yellow,
    White,
}

impl Color {
    /// The 4-bit palette code of this color.
    pub open spec fn spec_code(self) -> u8 {
        match self {
            Color::Black => 0,
            Color::Blue => 1,
            Color::Green => 2,
            Color::Cyan => 3,
            Color::Red => 4,
            Color::Magenta => 5,
            Color::Brown => 6,
            Color::LightGray => 7,
            Color::DarkGray => 8,
            Color::LightBlue => 9,
            Color::LightGreen => 10,
            Color::LightCyan => 11,
            Color::LightRed => 12,
            Color::Pink => 13,
            Color::Yellow => 14,
            Color::White => 15,
        }
    }

    /// The 4-bit palette code of this color.
    #[verifier::when_used_as_spec(spec_code)]
    pub fn code(self) -> (c: u8)
        ensures
            c == self.spec_code(),
            c <= 15,
    {
        match self {
            Color::Black => 0,
            Color::Blue => 1,
            Color::Green => 2,
            Color::Cyan => 3,
            Color::Red => 4,
            Color::Magenta => 5,
            Color::Brown => 6,
            Color::LightGray => 7,
            Color::DarkGray => 8,
            Color::LightBlue => 9,
            Color::LightGreen => 10,
            Color::LightCyan => 11,
            Color::LightRed => 12,
            Color::Pink => 13,
            Color::Yellow => 14,
            Color::White => 15,
        }
    }
}

/// A foreground/background color pair packed into one attribute byte:
/// the background code in the upper four bits, the foreground code in
/// the lower four.
#[derive(Debug, Clone, Copy, PartialEq, Eq, Structural)]
pub struct ColorCode(pub u8);

impl ColorCode {
    /// Packs a foreground and a background color into one attribute byte.
    pub fn new(foreground: Color, background: Color) -> (c: ColorCode)
        ensures
            c.0 == (background.spec_code() << 4) | foreground.spec_code(),
    {
        ColorCode((background.code() << 4) | foreground.code())
    }
}

} // verus!
