use vstd::prelude::*;

verus! {

/// The sixteen colors of the text-mode palette, in palette order.
#[derive(Debug, Clone, Copy, PartialEq, Eq, Structural)]
pub enum Color {
    Black,
    Blue,
    Green,
    Cyan,
    Red,
    Magenta,
    Brown,
    LightGray,
    DarkGray,
    LightBlue,
    LightGreen,
    LightCyan,
    LightRed,
    Pink,
    Yellow,
    White,
}

/// The 4-bit palette index of a color.
pub open spec fn color_index(c: Color) -> u8 {
    match c {
        Color::Black => 0x0,
        Color::Blue => 0x1,
        Color::Green => 0x2,
        Color::Cyan => 0x3,
        Color::Red => 0x4,
        Color::Magenta => 0x5,
        Color::Brown => 0x6,
        Color::LightGray => 0x7,
        Color::DarkGray => 0x8,
        Color::LightBlue => 0x9,
        Color::LightGreen => 0xa,
        Color::LightCyan => 0xb,
        Color::LightRed => 0xc,
        Color::Pink => 0xd,
        Color::Yellow => 0xe,
        Color::White => 0xf,
    }
}

impl Color {
    /// The palette index of this color, in `[0, 15]`.
    pub fn index(self) -> (r: u8)
        ensures
            r == color_index(self),
            r < 16,
    {
        match self {
            Color::Black => 0x0,
            Color::Blue => 0x1,
            Color::Green => 0x2,
            Color::Cyan => 0x3,
            Color::Red => 0x4,
            Color::Magenta => 0x5,
            Color::Brown => 0x6,
            Color::LightGray => 0x7,
            Color::DarkGray => 0x8,
            Color::LightBlue => 0x9,
            Color::LightGreen => 0xa,
            Color::LightCyan => 0xb,
            Color::LightRed => 0xc,
            Color::Pink => 0xd,
            Color::Yellow => 0xe,
            Color::White => 0xf,
        }
    }
}

/// An attribute byte: background index in the high nibble, foreground index
/// in the low nibble. Every byte is a valid attribute, since both nibbles
/// always name one of the sixteen colors.
#[derive(Debug, Clone, Copy, PartialEq, Eq, Structural)]
pub struct ColorCode(pub u8);

/// The attribute byte for a foreground/background pair.
pub open spec fn encode_colors(foreground: Color, background: Color) -> u8 {
    (color_index(background) * 16 + color_index(foreground)) as u8
}

impl ColorCode {
    pub fn new(foreground: Color, background: Color) -> (r: ColorCode)
        ensures
            r.0 == encode_colors(foreground, background),
            r.0 / 16 == color_index(background),
            r.0 % 16 == color_index(foreground),
    {
        let fg = foreground.index();
        let bg = background.index();
        let byte: u8 = bg << 4 | fg;
        assert(bg << 4 | fg == bg * 16 + fg) by (bit_vector)
            requires
                bg < 16,
                fg < 16,
        ;
        ColorCode(byte)
    }
}

/// One cell of the text surface: a character byte and its attribute.
#[derive(Debug, Clone, Copy, PartialEq, Eq, Structural)]
pub struct ScreenChar {
    pub ascii_character: u8,
    pub color_code: ColorCode,
}

/// The 16-bit word that holds a cell in memory: on the little-endian target
/// the character byte comes first and the attribute byte second.
pub open spec fn cell_word(c: ScreenChar) -> u16 {
    (c.ascii_character as int + c.color_code.0 as int * 256) as u16
}

/// The cell held by a 16-bit memory word.
pub open spec fn word_cell(w: u16) -> ScreenChar {
    ScreenChar { ascii_character: (w % 256) as u8, color_code: ColorCode((w / 256) as u8) }
}

/// Decoding a packed cell gives back the cell.
pub proof fn lemma_word_round_trip(c: ScreenChar)
    ensures
        word_cell(cell_word(c)) == c,
{
}

impl ScreenChar {
    /// Packs this cell into its memory word.
    pub fn to_word(self) -> (r: u16)
        ensures
            r == cell_word(self),
        no_unwind
    {
        self.ascii_character as u16 + self.color_code.0 as u16 * 256
    }

    /// Unpacks a memory word into a cell.
    pub fn from_word(w: u16) -> (r: ScreenChar)
        ensures
            r == word_cell(w),
    {
        ScreenChar { ascii_character: (w % 256) as u8, color_code: ColorCode((w / 256) as u8) }
    }
}

} // verus!
