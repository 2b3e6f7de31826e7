//! The sixteen display colors and the packed foreground/background byte.

use vstd::prelude::*;

verus! {

/// One of the sixteen colors the display hardware can render.  Each color
/// has a fixed 4-bit numeric code, given by [`Color::spec_code`].
#[derive(Debug, Clone, Copy, PartialEq, Eq, Structural)]
pub enum Color {
    Black,
    Blue,
    Green,
    Cyan,
    Red,
    Magenta,
    Brown,
    LightGray,
    DarkGray,
    LightBlue,
    LightGreen,
    LightCyan,
    LightRed,
    Pink,
    Yellow,
    White,
}

impl Color {
    /// The 4-bit numeric code of this color.
    pub open spec fn spec_code(self) -> u8 {
        match self {
            Color::Black => 0,
            Color::Blue => 1,
            Color::Green => 2,
            Color::Cyan => 3,
            Color::Red => 4,
            Color::Magenta => 5,
            Color::Brown => 6,
            Color::LightGray => 7,
            Color::DarkGray => 8,
            Color::LightBlue => 9,
            Color::LightGreen => 10,
            Color::LightCyan => 11,
            Color::LightRed => 12,
            Color::Pink => 13,
            Color::Yellow => 14,
            Color::White => 15,
        }
    }

    /// The numeric code of this color.
    pub fn code(self) -> (code: u8)
        ensures
            code == self.spec_code(),
    {
        match self {
            Color::Black => 0,
            Color::Blue => 1,
            Color::Green => 2,
            Color::Cyan => 3,
            Color::Red => 4,
            Color::Magenta => 5,
            Color::Brown => 6,
            Color::LightGray => 7,
            Color::DarkGray => 8,
            Color::LightBlue => 9,
            Color::LightGreen => 10,
            Color::LightCyan => 11,
            Color::LightRed => 12,
            Color::Pink => 13,
            Color::Yellow => 14,
            Color::White => 15,
        }
    }
}

/// Every color code fits in four bits.
pub proof fn lemma_code_bound(color: Color)
    ensures
        color.spec_code() <= 15,
{
}

/// The combined color byte of a cell: the background code in the high four
/// bits, the foreground code in the low four.
pub open spec fn spec_pack(foreground: Color, background: Color) -> u8 {
    (background.spec_code() << 4) | foreground.spec_code()
}

/// Law: decoding the packed byte at the documented bit positions recovers
/// the background and foreground codes, for every pair of colors.
pub proof fn lemma_pack_round_trip(foreground: Color, background: Color)
    ensures
        spec_pack(foreground, background) >> 4 == background.spec_code(),
        spec_pack(foreground, background) & 0x0f == foreground.spec_code(),
{
    lemma_code_bound(foreground);
    lemma_code_bound(background);
    let f = foreground.spec_code();
    let b = background.spec_code();
    assert(((b << 4) | f) >> 4 == b && ((b << 4) | f) & 0x0f == f) by (bit_vector)
        requires
            f <= 15 && b <= 15,
    ;
}

/// A packed foreground/background color byte.
#[derive(Debug, Clone, Copy, PartialEq, Eq, Structural)]
pub struct ColorCode(u8);

impl ColorCode {
    /// The packed byte.
    pub closed spec fn spec_byte(self) -> u8 {
        self.0
    }

    /// Pack a foreground and a background color into one byte.
    pub fn new(foreground: Color, background: Color) -> (code: ColorCode)
        ensures
            code.spec_byte() == spec_pack(foreground, background),
            code.spec_byte() >> 4 == background.spec_code(),
            code.spec_byte() & 0x0f == foreground.spec_code(),
    {
        proof {
            lemma_pack_round_trip(foreground, background);
        }
        ColorCode((background.code() << 4) | foreground.code())
    }

    /// The packed byte.
    pub fn byte(self) -> (byte: u8)
        ensures
            byte == self.spec_byte(),
    {
        self.0
    }
}

} // verus!
