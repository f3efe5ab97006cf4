use vstd::prelude::*;

verus! {

/// Bytes in one glyph: five rows of eight pixels, of which the left four are
/// used.
pub const GLYPH_SIZE: usize = 5;

/// Bytes in the whole font: sixteen glyphs, for the digits `0` to `F`.
pub const FONT_SIZE: usize = 80;

/// The built-in font. The glyph for digit `d` is the five bytes from
/// `d * GLYPH_SIZE`.
pub const FONT: [u8; 80] = [
    0xF0, 0x90, 0x90, 0x90, 0xF0,
    0x20, 0x60, 0x20, 0x20, 0x70,
    0xF0, 0x10, 0xF0, 0x80, 0xF0,
    0xF0, 0x10, 0xF0, 0x10, 0xF0,
    0x90, 0x90, 0xF0, 0x10, 0x10,
    0xF0, 0x80, 0xF0, 0x10, 0xF0,
    0xF0, 0x80, 0xF0, 0x90, 0xF0,
    0xF0, 0x10, 0x20, 0x40, 0x40,
    0xF0, 0x90, 0xF0, 0x90, 0xF0,
    0xF0, 0x90, 0xF0, 0x10, 0xF0,
    0xF0, 0x90, 0xF0, 0x90, 0x90,
    0xE0, 0x90, 0xE0, 0x90, 0xE0,
    0xF0, 0x80, 0x80, 0x90, 0xF0,
    0xE0, 0x90, 0x90, 0x90, 0xE0,
    0xF0, 0x80, 0xF0, 0x80, 0xF0,
    0xF0, 0x80, 0xF0, 0x80, 0x80,
];

/// The address of the glyph for `digit`.
pub open spec fn glyph_address(digit: int) -> int {
    digit * GLYPH_SIZE
}

} // verus!
