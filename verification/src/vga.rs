//! Colours and character cells of the text-mode display.
//!
//! The display sink itself (the memory-mapped character grid) is a
//! collaborator outside this crate; only the encoding of a colour pair
//! into the hardware attribute byte is defined and verified here.

use vstd::prelude::*;

verus! {

/// The sixteen hardware text-mode colours.
#[derive(Debug, Clone, Copy, PartialEq, Eq, Structural)]
pub enum Color {
    Black,
    Blue,
    Green,
    Cyan,
    Red,
    Magenta,
    Brown,
    LightGray,
    DarkGray,
    LightBlue,
    LightGreen,
    LightCyan,
    LightRed,
    Pink,
    Yellow,
    White,
}

impl Color {
    /// The hardware number of the colour (0 through 15).
    pub open spec fn spec_value(self) -> u8 {
        match self {
            Color::Black => 0,
            Color::Blue => 1,
            Color::Green => 2,
            Color::Cyan => 3,
            Color::Red => 4,
            Color::Magenta => 5,
            Color::Brown => 6,
            Color::LightGray => 7,
            Color::DarkGray => 8,
            Color::LightBlue => 9,
            Color::LightGreen => 10,
            Color::LightCyan => 11,
            Color::LightRed => 12,
            Color::Pink => 13,
            Color::Yellow => 14,
            Color::White => 15,
        }
    }

    /// The hardware number of the colour as a value.
    pub fn value(self) -> (v: u8)
        ensures
            v == self.spec_value(),
    {
        match self {
            Color::Black => 0,
            Color::Blue => 1,
            Color::Green => 2,
            Color::Cyan => 3,
            Color::Red => 4,
            Color::Magenta => 5,
            Color::Brown => 6,
            Color::LightGray => 7,
            Color::DarkGray => 8,
            Color::LightBlue => 9,
            Color::LightGreen => 10,
            Color::LightCyan => 11,
            Color::LightRed => 12,
            Color::Pink => 13,
            Color::Yellow => 14,
            Color::White => 15,
        }
    }
}

/// The attribute byte of a character cell: background colour in the high
/// nibble, foreground colour in the low nibble.
#[derive(Debug, Clone, Copy, PartialEq, Eq, Structural)]
pub struct ColorCode(pub u8);

impl ColorCode {
    /// Packs a foreground and a background colour into the attribute byte.
    pub fn new(foreground: Color, background: Color) -> (c: ColorCode)
        ensures
            c.0 == background.spec_value() * 16 + foreground.spec_value(),
    {
        let fg = foreground.value();
        let bg = background.value();
        let packed = (bg << 4u8) | fg;
        proof {
            let f = foreground.spec_value();
            let b = background.spec_value();
            assert(f < 16 && b < 16 ==> ((b << 4u8) | f) == b * 16 + f) by (bit_vector);
        }
        ColorCode(packed)
    }
}

/// One cell of the text grid: a byte of text and its attribute byte.
#[derive(Debug, Clone, Copy, PartialEq, Eq, Structural)]
pub struct ScreenChar {
    pub ascii_character: u8,
    pub color_code: ColorCode,
}

} // verus!
