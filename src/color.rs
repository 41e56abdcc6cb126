//! Color attributes and the two-byte character cell format.
//!
//! A cell is a `u16`: bits 0-7 hold the code point, bits 8-11 the foreground
//! color and bits 12-15 the background color (whose top bit is the blink flag).
use vstd::prelude::*;

verus! {

/// The sixteen colors of the text-mode palette.
#[derive(Debug, Clone, Copy, PartialEq, Eq, Structural)]
pub enum Color {
    Black,
    Blue,
    Green,
    Cyan,
    Red,
    Magenta,
    Brown,
    LightGray,
    DarkGray,
    LightBlue,
    LightGreen,
    LightCyan,
    LightRed,
    Pink,
    Yellow,
    White,
}

impl Color {
    /// The palette index of the color, in `0..16`.
    pub open spec fn index(self) -> u8 {
        match self {
            Color::Black => 0,
            Color::Blue => 1,
            Color::Green => 2,
            Color::Cyan => 3,
            Color::Red => 4,
            Color::Magenta => 5,
            Color::Brown => 6,
            Color::LightGray => 7,
            Color::DarkGray => 8,
            Color::LightBlue => 9,
            Color::LightGreen => 10,
            Color::LightCyan => 11,
            Color::LightRed => 12,
            Color::Pink => 13,
            Color::Yellow => 14,
            Color::White => 15,
        }
    }

    /// The color whose palette index is `i` (only the low four bits count).
    pub open spec fn from_index(i: u8) -> Color {
        let n = i % 16;
        if n == 0 { Color::Black }
        else if n == 1 { Color::Blue }
        else if n == 2 { Color::Green }
        else if n == 3 { Color::Cyan }
        else if n == 4 { Color::Red }
        else if n == 5 { Color::Magenta }
        else if n == 6 { Color::Brown }
        else if n == 7 { Color::LightGray }
        else if n == 8 { Color::DarkGray }
        else if n == 9 { Color::LightBlue }
        else if n == 10 { Color::LightGreen }
        else if n == 11 { Color::LightCyan }
        else if n == 12 { Color::LightRed }
        else if n == 13 { Color::Pink }
        else if n == 14 { Color::Yellow }
        else { Color::White }
    }

    pub fn to_index(self) -> (r: u8)
        ensures
            r == self.index(),
            r < 16,
    {
        match self {
            Color::Black => 0,
            Color::Blue => 1,
            Color::Green => 2,
            Color::Cyan => 3,
            Color::Red => 4,
            Color::Magenta => 5,
            Color::Brown => 6,
            Color::LightGray => 7,
            Color::DarkGray => 8,
            Color::LightBlue => 9,
            Color::LightGreen => 10,
            Color::LightCyan => 11,
            Color::LightRed => 12,
            Color::Pink => 13,
            Color::Yellow => 14,
            Color::White => 15,
        }
    }

    pub fn of_index(i: u8) -> (r: Color)
        ensures
            r == Color::from_index(i),
            i < 16 ==> r.index() == i,
    {
        let n: u8 = i % 16;
        if n == 0 { Color::Black }
        else if n == 1 { Color::Blue }
        else if n == 2 { Color::Green }
        else if n == 3 { Color::Cyan }
        else if n == 4 { Color::Red }
        else if n == 5 { Color::Magenta }
        else if n == 6 { Color::Brown }
        else if n == 7 { Color::LightGray }
        else if n == 8 { Color::DarkGray }
        else if n == 9 { Color::LightBlue }
        else if n == 10 { Color::LightGreen }
        else if n == 11 { Color::LightCyan }
        else if n == 12 { Color::LightRed }
        else if n == 13 { Color::Pink }
        else if n == 14 { Color::Yellow }
        else { Color::White }
    }
}

/// The attribute byte of a cell: `background << 4 | foreground`.
#[derive(Debug, Clone, Copy, PartialEq, Eq, Structural)]
pub struct ColorCode(pub u8);

/// The attribute byte for a foreground and a background color.
pub open spec fn color_byte(foreground: Color, background: Color) -> u8 {
    (background.index() * 16 + foreground.index()) as u8
}

impl ColorCode {
    pub fn new(foreground: Color, background: Color) -> (r: ColorCode)
        ensures
            r.0 == color_byte(foreground, background),
    {
        let fg = foreground.to_index();
        let bg = background.to_index();
        let r: u8 = (bg << 4u8) | fg;
        assert(r == bg * 16 + fg) by (bit_vector)
            requires
                r == (bg << 4u8) | fg,
                fg < 16,
                bg < 16,
        ;
        ColorCode(r)
    }

    /// The foreground color held in the low four bits.
    pub fn foreground(self) -> (r: Color)
        ensures
            r == Color::from_index(self.0 % 16),
    {
        let v = self.0;
        let low: u8 = v & 0xfu8;
        assert(low == v % 16) by (bit_vector)
            requires
                low == v & 0xfu8,
        ;
        Color::of_index(low)
    }

    /// The background color held in the high four bits.
    pub fn background(self) -> (r: Color)
        ensures
            r == Color::from_index(self.0 / 16),
    {
        let v = self.0;
        let high: u8 = v >> 4u8;
        assert(high == v / 16) by (bit_vector)
            requires
                high == v >> 4u8,
        ;
        Color::of_index(high)
    }
}

/// Decoding the attribute byte of a pair of colors gives that pair back.
pub proof fn lemma_color_code_round_trip(foreground: Color, background: Color)
    ensures
        Color::from_index(color_byte(foreground, background) % 16) == foreground,
        Color::from_index(color_byte(foreground, background) / 16) == background,
{
}

/// One character cell: a code point and its color attribute.
#[derive(Debug, Clone, Copy, PartialEq, Eq, Structural)]
pub struct ScreenChar {
    pub ascii_character: u8,
    pub color_code: ColorCode,
}

/// The two-byte hardware value of a cell: attribute byte high, code point low.
pub open spec fn cell_value(ascii_character: u8, color: u8) -> u16 {
    (color * 256 + ascii_character) as u16
}

/// The code point held in a cell value.
pub open spec fn code_point_of(cell: u16) -> u8 {
    (cell % 256) as u8
}

/// The attribute byte held in a cell value.
pub open spec fn attribute_of(cell: u16) -> u8 {
    (cell / 256) as u8
}

impl ScreenChar {
    /// The hardware value of this cell.
    pub fn encode(self) -> (r: u16)
        ensures
            r == cell_value(self.ascii_character, self.color_code.0),
    {
        let a = self.ascii_character as u16;
        let c = self.color_code.0 as u16;
        let r: u16 = (c << 8u16) | a;
        assert(r == c * 256 + a) by (bit_vector)
            requires
                r == (c << 8u16) | a,
                a < 256,
                c < 256,
        ;
        r
    }

    /// The cell that a hardware value stands for.
    pub fn decode(cell: u16) -> (r: ScreenChar)
        ensures
            r.ascii_character == code_point_of(cell),
            r.color_code.0 == attribute_of(cell),
    {
        let a: u16 = cell & 0xffu16;
        let c: u16 = cell >> 8u16;
        assert(a == cell % 256 && c == cell / 256) by (bit_vector)
            requires
                a == cell & 0xffu16,
                c == cell >> 8u16,
        ;
        ScreenChar { ascii_character: a as u8, color_code: ColorCode(c as u8) }
    }
}

/// Decoding the value of a cell gives the cell back.
pub proof fn lemma_cell_round_trip(ascii_character: u8, color: u8)
    ensures
        code_point_of(cell_value(ascii_character, color)) == ascii_character,
        attribute_of(cell_value(ascii_character, color)) == color,
{
}

} // verus!
