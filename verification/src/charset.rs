use crate::glyph::Glyph;
use vstd::prelude::*;

verus! {

/// The glyphs the display starts with, indexed by character code: codes
/// below 0x20 are blank slots for custom characters, codes 0x20 to 0x7e
/// are printable ASCII and 0x7f is a degree sign.
pub const DEFAULT_CHARSET: [[u8; 5]; 128] = [
    [0x00, 0x00, 0x00, 0x00, 0x00], // custom 00
    [0x00, 0x00, 0x00, 0x00, 0x00], // custom 01
    [0x00, 0x00, 0x00, 0x00, 0x00], // custom 02
    [0x00, 0x00, 0x00, 0x00, 0x00], // custom 03
    [0x00, 0x00, 0x00, 0x00, 0x00], // custom 04
    [0x00, 0x00, 0x00, 0x00, 0x00], // custom 05
    [0x00, 0x00, 0x00, 0x00, 0x00], // custom 06
    [0x00, 0x00, 0x00, 0x00, 0x00], // custom 07
    [0x00, 0x00, 0x00, 0x00, 0x00], // custom 08
    [0x00, 0x00, 0x00, 0x00, 0x00], // custom 09
    [0x00, 0x00, 0x00, 0x00, 0x00], // custom 0a
    [0x00, 0x00, 0x00, 0x00, 0x00], // custom 0b
    [0x00, 0x00, 0x00, 0x00, 0x00], // custom 0c
    [0x00, 0x00, 0x00, 0x00, 0x00], // custom 0d
    [0x00, 0x00, 0x00, 0x00, 0x00], // custom 0e
    [0x00, 0x00, 0x00, 0x00, 0x00], // custom 0f
    [0x00, 0x00, 0x00, 0x00, 0x00], // custom 10
    [0x00, 0x00, 0x00, 0x00, 0x00], // custom 11
    [0x00, 0x00, 0x00, 0x00, 0x00], // custom 12
    [0x00, 0x00, 0x00, 0x00, 0x00], // custom 13
    [0x00, 0x00, 0x00, 0x00, 0x00], // custom 14
    [0x00, 0x00, 0x00, 0x00, 0x00], // custom 15
    [0x00, 0x00, 0x00, 0x00, 0x00], // custom 16
    [0x00, 0x00, 0x00, 0x00, 0x00], // custom 17
    [0x00, 0x00, 0x00, 0x00, 0x00], // custom 18
    [0x00, 0x00, 0x00, 0x00, 0x00], // custom 19
    [0x00, 0x00, 0x00, 0x00, 0x00], // custom 1a
    [0x00, 0x00, 0x00, 0x00, 0x00], // custom 1b
    [0x00, 0x00, 0x00, 0x00, 0x00], // custom 1c
    [0x00, 0x00, 0x00, 0x00, 0x00], // custom 1d
    [0x00, 0x00, 0x00, 0x00, 0x00], // custom 1e
    [0x00, 0x00, 0x00, 0x00, 0x00], // custom 1f
    [0x00, 0x00, 0x00, 0x00, 0x00], // ' '
    [0x00, 0x00, 0x5f, 0x00, 0x00], // '!'
    [0x00, 0x07, 0x00, 0x07, 0x00], // '"'
    [0x14, 0x7f, 0x14, 0x7f, 0x14], // '#'
    [0x24, 0x2a, 0x7f, 0x2a, 0x12], // '$'
    [0x23, 0x13, 0x08, 0x64, 0x62], // '%'
    [0x36, 0x49, 0x55, 0x22, 0x50], // '&'
    [0x00, 0x05, 0x03, 0x00, 0x00], // "'"
    [0x00, 0x1c, 0x22, 0x41, 0x00], // '('
    [0x00, 0x41, 0x22, 0x1c, 0x00], // ')'
    [0x14, 0x08, 0x3e, 0x08, 0x14], // '*'
    [0x08, 0x08, 0x3e, 0x08, 0x08], // '+'
    [0x00, 0x50, 0x30, 0x00, 0x00], // ','
    [0x08, 0x08, 0x08, 0x08, 0x08], // '-'
    [0x00, 0x60, 0x60, 0x00, 0x00], // '.'
    [0x20, 0x10, 0x08, 0x04, 0x02], // '/'
    [0x3e, 0x51, 0x49, 0x45, 0x3e], // '0'
    [0x00, 0x42, 0x7f, 0x40, 0x00], // '1'
    [0x42, 0x61, 0x51, 0x49, 0x46], // '2'
    [0x21, 0x41, 0x45, 0x4b, 0x31], // '3'
    [0x18, 0x14, 0x12, 0x7f, 0x10], // '4'
    [0x27, 0x45, 0x45, 0x45, 0x39], // '5'
    [0x3c, 0x4a, 0x49, 0x49, 0x30], // '6'
    [0x01, 0x71, 0x09, 0x05, 0x03], // '7'
    [0x36, 0x49, 0x49, 0x49, 0x36], // '8'
    [0x06, 0x49, 0x49, 0x29, 0x1e], // '9'
    [0x00, 0x36, 0x36, 0x00, 0x00], // ':'
    [0x00, 0x56, 0x36, 0x00, 0x00], // ';'
    [0x08, 0x14, 0x22, 0x41, 0x00], // '<'
    [0x14, 0x14, 0x14, 0x14, 0x14], // '='
    [0x00, 0x41, 0x22, 0x14, 0x08], // '>'
    [0x02, 0x01, 0x51, 0x09, 0x06], // '?'
    [0x32, 0x49, 0x79, 0x41, 0x3e], // '@'
    [0x7e, 0x11, 0x11, 0x11, 0x7e], // 'A'
    [0x7f, 0x49, 0x49, 0x49, 0x36], // 'B'
    [0x3e, 0x41, 0x41, 0x41, 0x22], // 'C'
    [0x7f, 0x41, 0x41, 0x22, 0x1c], // 'D'
    [0x7f, 0x49, 0x49, 0x49, 0x41], // 'E'
    [0x7f, 0x09, 0x09, 0x09, 0x01], // 'F'
    [0x3e, 0x41, 0x49, 0x49, 0x7a], // 'G'
    [0x7f, 0x08, 0x08, 0x08, 0x7f], // 'H'
    [0x00, 0x41, 0x7f, 0x41, 0x00], // 'I'
    [0x20, 0x40, 0x41, 0x3f, 0x01], // 'J'
    [0x7f, 0x08, 0x14, 0x22, 0x41], // 'K'
    [0x7f, 0x40, 0x40, 0x40, 0x40], // 'L'
    [0x7f, 0x02, 0x0c, 0x02, 0x7f], // 'M'
    [0x7f, 0x04, 0x08, 0x10, 0x7f], // 'N'
    [0x3e, 0x41, 0x41, 0x41, 0x3e], // 'O'
    [0x7f, 0x09, 0x09, 0x09, 0x06], // 'P'
    [0x3e, 0x41, 0x51, 0x21, 0x5e], // 'Q'
    [0x7f, 0x09, 0x19, 0x29, 0x46], // 'R'
    [0x46, 0x49, 0x49, 0x49, 0x31], // 'S'
    [0x01, 0x01, 0x7f, 0x01, 0x01], // 'T'
    [0x3f, 0x40, 0x40, 0x40, 0x3f], // 'U'
    [0x1f, 0x20, 0x40, 0x20, 0x1f], // 'V'
    [0x3f, 0x40, 0x38, 0x40, 0x3f], // 'W'
    [0x63, 0x14, 0x08, 0x14, 0x63], // 'X'
    [0x07, 0x08, 0x70, 0x08, 0x07], // 'Y'
    [0x61, 0x51, 0x49, 0x45, 0x43], // 'Z'
    [0x00, 0x7f, 0x41, 0x41, 0x00], // '['
    [0x02, 0x04, 0x08, 0x10, 0x20], // '\\'
    [0x00, 0x41, 0x41, 0x7f, 0x00], // ']'
    [0x04, 0x02, 0x01, 0x02, 0x04], // '^'
    [0x40, 0x40, 0x40, 0x40, 0x40], // '_'
    [0x00, 0x01, 0x02, 0x04, 0x00], // '`'
    [0x20, 0x54, 0x54, 0x54, 0x78], // 'a'
    [0x7f, 0x48, 0x44, 0x44, 0x38], // 'b'
    [0x38, 0x44, 0x44, 0x44, 0x20], // 'c'
    [0x38, 0x44, 0x44, 0x48, 0x7f], // 'd'
    [0x38, 0x54, 0x54, 0x54, 0x18], // 'e'
    [0x08, 0x7e, 0x09, 0x01, 0x02], // 'f'
    [0x0c, 0x52, 0x52, 0x52, 0x3e], // 'g'
    [0x7f, 0x08, 0x04, 0x04, 0x78], // 'h'
    [0x00, 0x44, 0x7d, 0x40, 0x00], // 'i'
    [0x20, 0x40, 0x44, 0x3d, 0x00], // 'j'
    [0x7f, 0x10, 0x28, 0x44, 0x00], // 'k'
    [0x00, 0x41, 0x7f, 0x40, 0x00], // 'l'
    [0x7c, 0x04, 0x18, 0x04, 0x78], // 'm'
    [0x7c, 0x08, 0x04, 0x04, 0x78], // 'n'
    [0x38, 0x44, 0x44, 0x44, 0x38], // 'o'
    [0x7c, 0x14, 0x14, 0x14, 0x08], // 'p'
    [0x08, 0x14, 0x14, 0x18, 0x7c], // 'q'
    [0x7c, 0x08, 0x04, 0x04, 0x08], // 'r'
    [0x48, 0x54, 0x54, 0x54, 0x20], // 's'
    [0x04, 0x3f, 0x44, 0x40, 0x20], // 't'
    [0x3c, 0x40, 0x40, 0x20, 0x7c], // 'u'
    [0x1c, 0x20, 0x40, 0x20, 0x1c], // 'v'
    [0x3c, 0x40, 0x30, 0x40, 0x3c], // 'w'
    [0x44, 0x28, 0x10, 0x28, 0x44], // 'x'
    [0x0c, 0x50, 0x50, 0x50, 0x3c], // 'y'
    [0x44, 0x64, 0x54, 0x4c, 0x44], // 'z'
    [0x00, 0x08, 0x36, 0x41, 0x00], // '{'
    [0x00, 0x00, 0x7f, 0x00, 0x00], // '|'
    [0x00, 0x41, 0x36, 0x08, 0x00], // '}'
    [0x10, 0x08, 0x08, 0x10, 0x08], // '~'
    [0x00, 0x06, 0x09, 0x09, 0x06], // degree sign
];

/// The default glyph table, one glyph per character code.
pub fn default_glyphs() -> (glyphs: Vec<Glyph>)
    ensures
        glyphs@.len() == 128,
        forall|i: int| 0 <= i < 128 ==> #[trigger] glyphs@[i].0 == DEFAULT_CHARSET@[i],
{
    let mut glyphs: Vec<Glyph> = Vec::new();
    for i in 0..128usize
        invariant
            glyphs@.len() == i,
            forall|j: int| 0 <= j < i ==> #[trigger] glyphs@[j].0 == DEFAULT_CHARSET@[j],
    {
        glyphs.push(Glyph(DEFAULT_CHARSET[i]));
    }
    glyphs
}

} // verus!
