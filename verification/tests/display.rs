use sras_cli::charset::{default_glyphs, DEFAULT_CHARSET};
use sras_cli::glyph::{Color, Glyph};
use sras_cli::pcd8544::PCD8544;

const OFF: u32 = 0x3d3d0d;
const ON: u32 = 0xa0af37;

fn pixel(display: &PCD8544, x: usize, y: usize) -> u32 {
    let (w, _) = display.window_size().unwrap();
    display.framebuffer().unwrap()[y * w + x]
}

#[test]
fn glyph_index_reads_column_bits() {
    let g = Glyph([0b0000_0001, 0b1000_0000, 0, 0xff, 0b0000_0100]);
    assert_eq!(g.index(0, 0), Color::On);
    assert_eq!(g.index(0, 1), Color::Off);
    assert_eq!(g.index(1, 7), Color::On);
    assert_eq!(g.index(1, 6), Color::Off);
    assert_eq!(g.index(2, 3), Color::Off);
    for y in 0..8 {
        assert_eq!(g.index(3, y), Color::On);
    }
    assert_eq!(g.index(4, 2), Color::On);
    assert_eq!(g.index(4, 1), Color::Off);
}

#[test]
fn colors_have_their_rgb_values() {
    assert_eq!(Color::Off.rgb(), OFF);
    assert_eq!(Color::On.rgb(), ON);
}

#[test]
fn default_charset_has_ascii_letters() {
    let glyphs = default_glyphs();
    assert_eq!(glyphs.len(), 128);
    assert_eq!(glyphs[b'A' as usize].0, [0x7e, 0x11, 0x11, 0x11, 0x7e]);
    assert_eq!(glyphs[b' ' as usize].0, [0, 0, 0, 0, 0]);
    assert_eq!(glyphs[0].0, [0, 0, 0, 0, 0]);
    assert_eq!(DEFAULT_CHARSET[b'0' as usize], [0x3e, 0x51, 0x49, 0x45, 0x3e]);
}

#[test]
fn new_display_is_blank_with_framed_size() {
    let display = PCD8544::new(12, 6);
    assert!(display.is_open());
    assert_eq!(display.window_size(), Some((73, 55)));
    let fb = display.framebuffer().unwrap();
    assert_eq!(fb.len(), 73 * 55);
    assert!(fb.iter().all(|&p| p == OFF));
}

#[test]
fn write_paints_glyph_in_first_cell() {
    let mut display = PCD8544::new(12, 6);
    display.write(b'A');
    let a = DEFAULT_CHARSET[b'A' as usize];
    for gy in 0..8 {
        for gx in 0..5 {
            let expected = if (a[gx] >> gy) & 1 != 0 { ON } else { OFF };
            assert_eq!(pixel(&display, 1 + gx, 1 + gy), expected);
        }
    }
    // the frame and the gap after the cell stay off
    for y in 0..55 {
        assert_eq!(pixel(&display, 0, y), OFF);
        assert_eq!(pixel(&display, 6, y), OFF);
    }
}

#[test]
fn write_advances_cursor_and_wraps_on_same_row() {
    let mut display = PCD8544::new(2, 2);
    display.create_char(1, Glyph([0xff; 5]));
    display.set_cursor(0, 1);
    display.write(1);
    // second cell of row 1 is now under the cursor: (1 + 6, 1 + 9)
    display.write(1);
    assert_eq!(pixel(&display, 1, 10), ON);
    assert_eq!(pixel(&display, 7, 10), ON);
    // wrapped back to column 0 of row 1: writing a blank clears the first cell
    display.write(b' ');
    assert_eq!(pixel(&display, 1, 10), OFF);
    assert_eq!(pixel(&display, 7, 10), ON);
    // row 0 untouched
    assert_eq!(pixel(&display, 1, 1), OFF);
}

#[test]
fn set_cursor_takes_coordinates_modulo_grid() {
    let mut display = PCD8544::new(3, 2);
    display.create_char(2, Glyph([0x01, 0, 0, 0, 0]));
    display.set_cursor(4, 3); // (1, 1)
    display.write(2);
    assert_eq!(pixel(&display, 1 + 6, 1 + 9), ON);
}

#[test]
fn created_glyph_is_written() {
    let mut display = PCD8544::new(12, 6);
    display.create_char(b'A', Glyph([0x80, 0, 0, 0, 0x01]));
    display.write(b'A');
    assert_eq!(pixel(&display, 1, 8), ON);
    assert_eq!(pixel(&display, 5, 1), ON);
    assert_eq!(pixel(&display, 1, 1), OFF);
}

#[test]
fn clear_turns_every_pixel_off() {
    let mut display = PCD8544::new(4, 3);
    display.write(b'#');
    display.write(b'@');
    assert!(display.framebuffer().unwrap().iter().any(|&p| p == ON));
    display.clear();
    assert!(display.framebuffer().unwrap().iter().all(|&p| p == OFF));
    // the cursor is kept: the next character goes in the third cell
    display.create_char(3, Glyph([0xff; 5]));
    display.write(3);
    assert_eq!(pixel(&display, 1 + 12, 1), ON);
}

#[test]
fn closed_display_ignores_operations() {
    let mut display = PCD8544::new(12, 6);
    display.update(true);
    assert!(display.is_open());
    display.update(false);
    assert!(!display.is_open());
    display.write(b'A');
    display.clear();
    display.set_cursor(1, 1);
    display.create_char(200, Glyph([0; 5]));
    assert_eq!(display.framebuffer(), None);
    assert_eq!(display.window_size(), None);
    display.update(true);
    assert!(!display.is_open());
}

#[test]
fn a_row_of_text_brings_the_cursor_back() {
    let mut display = PCD8544::new(3, 2);
    display.create_char(5, Glyph([0xff; 5]));
    display.set_cursor(1, 1);
    for _ in 0..3 {
        display.write(b' ');
    }
    display.write(5);
    // the cursor was back in cell (1, 1)
    assert_eq!(pixel(&display, 1 + 6, 1 + 9), ON);
    assert_eq!(pixel(&display, 1, 1 + 9), OFF);
    assert_eq!(pixel(&display, 1 + 12, 1 + 9), OFF);
}

#[test]
fn frame_and_gaps_stay_off() {
    let mut display = PCD8544::new(4, 3);
    display.create_char(9, Glyph([0xff; 5]));
    for i in 0..13 {
        display.set_cursor(i, i / 4);
        display.write(9);
    }
    let (w, h) = display.window_size().unwrap();
    let fb = display.framebuffer().unwrap();
    for py in 0..h {
        for px in 0..w {
            if px % 6 == 0 || py % 9 == 0 {
                assert_eq!(fb[py * w + px], OFF);
            } else {
                assert_eq!(fb[py * w + px], ON);
            }
        }
    }
}
