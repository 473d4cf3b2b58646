use vstd::prelude::*;

verus! {

/// The two states a pixel of the emulated PCD8544 can be in.
#[derive(Clone, Copy, Debug, PartialEq, Eq, Structural)]
pub enum Color {
    Off,
    On,
}

impl Color {
    /// The 0xRRGGBB colour the emulator paints for this pixel state.
    pub open spec fn rgb_value(self) -> u32 {
        match self {
            Color::Off => 0x3d3d0d,
            Color::On => 0xa0af37,
        }
    }

    /// The 0xRRGGBB colour of this pixel state, as a frame buffer holds it.
    pub fn rgb(self) -> (r: u32)
        ensures
            r == self.rgb_value(),
    {
        match self {
            Color::Off => 0x3d3d0d,
            Color::On => 0xa0af37,
        }
    }
}

/// Width of a glyph, in pixels (one byte per column).
pub const CHAR_WIDTH: usize = 5;

/// Height of a glyph, in pixels (one bit per row).
pub const CHAR_HEIGHT: usize = 8;

/// A 5x8 character: one byte per column, bit `y` of a column is the pixel
/// of row `y`, the least significant bit being the top row.
#[derive(Clone, Copy, Debug, Default)]
pub struct Glyph(pub [u8; 5]);

/// Whether bit `row` of `byte` is set.
pub open spec fn bit_set(byte: u8, row: u8) -> bool {
    (byte >> row) & 1u8 != 0u8
}

impl Glyph {
    /// The colour of the pixel at column `x`, row `y` of the glyph.
    pub open spec fn color_at(self, x: int, y: int) -> Color {
        if bit_set(self.0@[x], y as u8) {
            Color::On
        } else {
            Color::Off
        }
    }

    /// The colour of the pixel at column `x`, row `y` of the glyph.
    pub fn index(&self, x: usize, y: usize) -> (c: Color)
        requires
            x < CHAR_WIDTH,
            y < CHAR_HEIGHT,
        ensures
            c == self.color_at(x as int, y as int),
    {
        let byte = self.0[x];
        let row = y as u8;
        if (byte >> row) & 1u8 != 0u8 {
            Color::On
        } else {
            Color::Off
        }
    }
}

} // verus!
