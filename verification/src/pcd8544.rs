use crate::charset::{default_glyphs, DEFAULT_CHARSET};
use crate::glyph::{Color, Glyph, CHAR_HEIGHT, CHAR_WIDTH};
use vstd::arithmetic::div_mod::{lemma_fundamental_div_mod, lemma_fundamental_div_mod_converse};
use vstd::prelude::*;

verus! {

/// Number of glyph slots of the display: one per 7-bit character code.
pub const GLYPH_SLOTS: usize = 128;

/// What the emulated display shows and remembers.
///
/// The screen is a grid of `columns` x `rows` character cells. Each cell is
/// `CHAR_WIDTH` x `CHAR_HEIGHT` pixels and cells are separated (and framed)
/// by a one pixel gap, so the pixel surface is `pixel_width()` wide and
/// `pixel_height()` high, stored row after row in `pixels`.
pub struct DisplayState {
    pub pixels: Seq<Color>,
    pub columns: nat,
    pub rows: nat,
    pub cursor: (nat, nat),
    pub glyphs: Seq<Glyph>,
}

/// Width in pixels of a display of `columns` character cells.
pub open spec fn pixel_width_of(columns: nat) -> nat {
    columns * (CHAR_WIDTH as nat + 1) + 1
}

/// Height in pixels of a display of `rows` character cells.
pub open spec fn pixel_height_of(rows: nat) -> nat {
    rows * (CHAR_HEIGHT as nat + 1) + 1
}

/// The glyph table a display starts with.
pub open spec fn default_glyph_table() -> Seq<Glyph> {
    Seq::new(GLYPH_SLOTS as nat, |i: int| Glyph(DEFAULT_CHARSET@[i]))
}

/// Whether the pixel at column `px`, row `py` lies in the character cell
/// whose top-left pixel is at (`sx`, `sy`).
pub open spec fn in_cell(px: int, py: int, sx: int, sy: int) -> bool {
    &&& sx <= px < sx + CHAR_WIDTH
    &&& sy <= py < sy + CHAR_HEIGHT
}

/// `pixels` (a surface `w` pixels wide) with the cell whose top-left pixel
/// is (`sx`, `sy`) painted with glyph `g`, every other pixel left as it was.
pub open spec fn draw_cell(pixels: Seq<Color>, w: int, sx: int, sy: int, g: Glyph) -> Seq<Color> {
    Seq::new(
        pixels.len(),
        |i: int|
            if in_cell(i % w, i / w, sx, sy) {
                g.color_at(i % w - sx, i / w - sy)
            } else {
                pixels[i]
            },
    )
}

impl DisplayState {
    pub open spec fn pixel_width(self) -> nat {
        pixel_width_of(self.columns)
    }

    pub open spec fn pixel_height(self) -> nat {
        pixel_height_of(self.rows)
    }

    /// The colour of the pixel at column `px`, row `py`.
    pub open spec fn pixel(self, px: int, py: int) -> Color {
        self.pixels[py * self.pixel_width() + px]
    }

    /// The invariant every reachable display state satisfies.
    pub open spec fn wf(self) -> bool {
        &&& self.pixels.len() == self.pixel_width() * self.pixel_height()
        &&& self.glyphs.len() == GLYPH_SLOTS
        &&& (self.cursor.0 == 0 || self.cursor.0 < self.columns)
        &&& (self.cursor.1 == 0 || self.cursor.1 < self.rows)
    }

    /// A freshly opened display: every pixel off, cursor in the top-left
    /// cell, default glyphs.
    pub open spec fn initial(columns: nat, rows: nat) -> DisplayState {
        DisplayState {
            pixels: Seq::new(
                pixel_width_of(columns) * pixel_height_of(rows),
                |i: int| Color::Off,
            ),
            columns,
            rows,
            cursor: (0, 0),
            glyphs: default_glyph_table(),
        }
    }

    /// The state after glyph slot `c` is replaced by `g`.
    pub open spec fn with_glyph(self, c: u8, g: Glyph) -> DisplayState {
        DisplayState { glyphs: self.glyphs.update(c as int, g), ..self }
    }

    /// The state after the cursor is moved to cell (`x`, `y`), each
    /// coordinate taken modulo the size of the grid.
    pub open spec fn with_cursor(self, x: int, y: int) -> DisplayState {
        DisplayState { cursor: ((x % self.columns as int) as nat, (y % self.rows as int) as nat), ..self }
    }

    /// The state after every pixel is switched off.
    pub open spec fn cleared(self) -> DisplayState {
        DisplayState { pixels: Seq::new(self.pixels.len(), |i: int| Color::Off), ..self }
    }

    /// Top-left pixel of the cell under the cursor.
    pub open spec fn cursor_origin(self) -> (int, int) {
        (
            1 + self.cursor.0 * (CHAR_WIDTH as int + 1),
            1 + self.cursor.1 * (CHAR_HEIGHT as int + 1),
        )
    }

    /// The state after character `c` is written: its glyph is painted in the
    /// cell under the cursor, and the cursor moves one cell to the right,
    /// back to the first column of the same row after the last one.
    pub open spec fn after_write(self, c: u8) -> DisplayState {
        let painted = DisplayState {
            pixels: draw_cell(
                self.pixels,
                self.pixel_width() as int,
                self.cursor_origin().0,
                self.cursor_origin().1,
                self.glyphs[c as int],
            ),
            ..self
        };
        painted.with_cursor(self.cursor.0 + 1int, self.cursor.1 as int)
    }

    /// The state after each byte of `text` is written in turn.
    pub open spec fn after_text(self, text: Seq<u8>) -> DisplayState
        decreases text.len(),
    {
        if text.len() == 0 {
            self
        } else {
            self.after_text(text.drop_last()).after_write(text.last())
        }
    }
}

/// The emulated display: a pixel buffer, the grid geometry, the cursor and
/// the glyph table.
struct PCD8544Window {
    buffer: Vec<Color>,
    window_size: (usize, usize),
    size: (usize, usize),
    cursor: (usize, usize),
    glyphs: Vec<Glyph>,
}

impl View for PCD8544Window {
    type V = DisplayState;

    closed spec fn view(&self) -> DisplayState {
        DisplayState {
            pixels: self.buffer@,
            columns: self.size.0 as nat,
            rows: self.size.1 as nat,
            cursor: (self.cursor.0 as nat, self.cursor.1 as nat),
            glyphs: self.glyphs@,
        }
    }
}

/// (a * w + b) stays below h * w when a < h and b < w.
proof fn lemma_index_in_grid(a: int, b: int, w: int, h: int)
    requires
        0 <= a < h,
        0 <= b < w,
    ensures
        0 <= a * w + b < h * w,
        h * w == w * h,
{
    assert(h * w == w * h) by (nonlinear_arith);
    assert(0 <= a * w + b < h * w) by (nonlinear_arith)
        requires
            0 <= a < h,
            0 <= b < w,
    ;
}

/// `draw_cell` restricted to the first `done` pixels of the cell, taken row
/// by row.
spec fn partly_drawn(pixels: Seq<Color>, w: int, sx: int, sy: int, g: Glyph, done: int) -> Seq<
    Color,
> {
    Seq::new(
        pixels.len(),
        |i: int|
            if in_cell(i % w, i / w, sx, sy) && (i / w - sy) * (CHAR_WIDTH as int) + (i % w - sx)
                < done {
                g.color_at(i % w - sx, i / w - sy)
            } else {
                pixels[i]
            },
    )
}

proof fn lemma_paint_step(
    pixels: Seq<Color>,
    buf: Seq<Color>,
    w: int,
    sx: int,
    sy: int,
    g: Glyph,
    gx: int,
    gy: int,
)
    requires
        w > 0,
        0 <= sx,
        0 <= sy,
        0 <= gx < CHAR_WIDTH,
        0 <= gy < CHAR_HEIGHT,
        sx + gx < w,
        0 <= (sy + gy) * w + sx + gx < pixels.len(),
        buf == partly_drawn(pixels, w, sx, sy, g, gy * (CHAR_WIDTH as int) + gx),
    ensures
        buf.update((sy + gy) * w + sx + gx, g.color_at(gx, gy)) == partly_drawn(
            pixels,
            w,
            sx,
            sy,
            g,
            gy * (CHAR_WIDTH as int) + gx + 1,
        ),
{
    let k = (sy + gy) * w + sx + gx;
    let done = gy * (CHAR_WIDTH as int) + gx;
    lemma_fundamental_div_mod_converse(k, w, sy + gy, sx + gx);
    let lhs = buf.update(k, g.color_at(gx, gy));
    let rhs = partly_drawn(pixels, w, sx, sy, g, done + 1);
    assert forall|i: int| 0 <= i < lhs.len() implies lhs[i] == rhs[i] by {
        if i != k {
            lemma_fundamental_div_mod(i, w);
            if in_cell(i % w, i / w, sx, sy) && (i / w - sy) * (CHAR_WIDTH as int) + (i % w - sx)
                == done {
                assert(i % w - sx == gx && i / w - sy == gy);
                assert(i == w * (i / w) + i % w);
                assert(w * (i / w) == (i / w) * w) by (nonlinear_arith);
                assert(false);
            }
        }
    }
    assert(lhs =~= rhs);
}

proof fn lemma_paint_done(pixels: Seq<Color>, w: int, sx: int, sy: int, g: Glyph)
    requires
        w > 0,
    ensures
        partly_drawn(pixels, w, sx, sy, g, (CHAR_WIDTH * CHAR_HEIGHT) as int) == draw_cell(
            pixels,
            w,
            sx,
            sy,
            g,
        ),
{
    assert(partly_drawn(pixels, w, sx, sy, g, (CHAR_WIDTH * CHAR_HEIGHT) as int) =~= draw_cell(
        pixels,
        w,
        sx,
        sy,
        g,
    ));
}

proof fn lemma_paint_start(pixels: Seq<Color>, w: int, sx: int, sy: int, g: Glyph)
    requires
        w > 0,
    ensures
        partly_drawn(pixels, w, sx, sy, g, 0) == pixels,
{
    assert forall|i: int| 0 <= i < pixels.len() implies partly_drawn(pixels, w, sx, sy, g, 0)[i]
        == pixels[i] by {
        if in_cell(i % w, i / w, sx, sy) {
            assert((i / w - sy) * (CHAR_WIDTH as int) >= 0) by (nonlinear_arith)
                requires
                    i / w - sy >= 0,
            ;
        }
    }
    assert(partly_drawn(pixels, w, sx, sy, g, 0) =~= pixels);
}

impl PCD8544Window {
    /// The invariant tying the buffer to the geometry.
    pub closed spec fn inv(&self) -> bool {
        &&& self.window_size.0 as nat == pixel_width_of(self.size.0 as nat)
        &&& self.window_size.1 as nat == pixel_height_of(self.size.1 as nat)
        &&& self@.wf()
    }

    /// Width and height of the pixel surface.
    pub fn window_size(&self) -> (r: (usize, usize))
        requires
            self.inv(),
        ensures
            r.0 == self@.pixel_width(),
            r.1 == self@.pixel_height(),
    {
        self.window_size
    }

    /// A display of `width` x `height` character cells, every pixel off,
    /// with the default glyphs.
    pub fn new(width: usize, height: usize) -> (r: Self)
        requires
            pixel_width_of(width as nat) * pixel_height_of(height as nat) <= usize::MAX,
        ensures
            r.inv(),
            r@ == DisplayState::initial(width as nat, height as nat),
    {
        proof {
            assert(pixel_width_of(width as nat) <= pixel_width_of(width as nat) * pixel_height_of(
                height as nat,
            )) by (nonlinear_arith)
                requires
                    pixel_height_of(height as nat) >= 1,
            ;
            assert(pixel_height_of(height as nat) <= pixel_width_of(width as nat)
                * pixel_height_of(height as nat)) by (nonlinear_arith)
                requires
                    pixel_width_of(width as nat) >= 1,
            ;
        }
        let pixel_width = width * (1 + CHAR_WIDTH) + 1;
        let pixel_height = height * (1 + CHAR_HEIGHT) + 1;
        let n = pixel_width * pixel_height;
        let mut buffer: Vec<Color> = Vec::new();
        for i in 0..n
            invariant
                buffer@.len() == i,
                forall|j: int| 0 <= j < i ==> buffer@[j] == Color::Off,
        {
            buffer.push(Color::Off);
        }
        let glyphs = default_glyphs();
        let r = PCD8544Window {
            buffer,
            window_size: (pixel_width, pixel_height),
            size: (width, height),
            cursor: (0, 0),
            glyphs,
        };
        assert(r@.pixels =~= DisplayState::initial(width as nat, height as nat).pixels);
        assert forall|i: int| 0 <= i < GLYPH_SLOTS implies r@.glyphs[i] == default_glyph_table()[i] by {
            assert(r@.glyphs[i].0 == DEFAULT_CHARSET@[i]);
        }
        assert(r@.glyphs =~= default_glyph_table());
        r
    }

    /// Replaces the glyph of character code `c`.
    pub fn create_char(&mut self, c: u8, glyph: Glyph)
        requires
            old(self).inv(),
            c < GLYPH_SLOTS,
        ensures
            final(self).inv(),
            final(self)@ == old(self)@.with_glyph(c, glyph),
    {
        self.glyphs.set(c as usize, glyph);
    }

    /// Paints pixel (`x`, `y`), found in the buffer at `y * width + x`; an
    /// index past the end of the buffer changes nothing.
    fn set_pixel(&mut self, x: usize, y: usize, color: Color)
        requires
            old(self).inv(),
            y * old(self).window_size.0 + x <= usize::MAX,
        ensures
            final(self).inv(),
            final(self).window_size == old(self).window_size,
            final(self).size == old(self).size,
            final(self).cursor == old(self).cursor,
            final(self).glyphs == old(self).glyphs,
            final(self).buffer@ == if y * old(self).window_size.0 + x < old(self).buffer@.len() {
                old(self).buffer@.update(y * old(self).window_size.0 + x, color)
            } else {
                old(self).buffer@
            },
    {
        let index = y * self.window_size.0 + x;
        if index < self.buffer.len() {
            self.buffer.set(index, color);
        }
    }

    /// Moves the cursor to cell (`x`, `y`), each coordinate taken modulo
    /// the size of the grid.
    pub fn set_cursor(&mut self, x: usize, y: usize)
        requires
            old(self).inv(),
            old(self)@.columns > 0,
            old(self)@.rows > 0,
        ensures
            final(self).inv(),
            final(self)@ == old(self)@.with_cursor(x as int, y as int),
    {
        self.cursor = (x % self.size.0, y % self.size.1);
    }

    /// Writes character `c` at the cursor and advances the cursor.
    pub fn write(&mut self, c: u8)
        requires
            old(self).inv(),
            c < GLYPH_SLOTS,
            old(self)@.columns > 0,
            old(self)@.rows > 0,
        ensures
            final(self).inv(),
            final(self)@ == old(self)@.after_write(c),
    {
        let x = self.cursor.0;
        let y = self.cursor.1;
        assert(x < self.size.0 && y < self.size.1);
        assert(CHAR_WIDTH == 5 && CHAR_HEIGHT == 8);
        assert(self.window_size.0 == self.size.0 * 6 + 1);
        assert(self.window_size.1 == self.size.1 * 9 + 1);
        let sx = 1 + x * (CHAR_WIDTH + 1);
        let sy = 1 + y * (CHAR_HEIGHT + 1);
        let glyph = self.glyphs[c as usize];
        let ghost w = self.window_size.0 as int;
        let ghost h = self.window_size.1 as int;
        let ghost pixels = self.buffer@;
        proof {
            lemma_paint_start(pixels, w, sx as int, sy as int, glyph);
        }
        for gy in 0..CHAR_HEIGHT
            invariant
                self.inv(),
                self.window_size == old(self).window_size,
                self.size == old(self).size,
                self.cursor == old(self).cursor,
                self.glyphs == old(self).glyphs,
                w == self.window_size.0,
                h == self.window_size.1,
                sx == 1 + x * 6,
                sy == 1 + y * 9,
                x < self.size.0,
                y < self.size.1,
                w == self.size.0 * 6 + 1,
                h == self.size.1 * 9 + 1,
                pixels.len() == w * h,
                self.buffer@ == partly_drawn(
                    pixels,
                    w,
                    sx as int,
                    sy as int,
                    glyph,
                    gy * (CHAR_WIDTH as int),
                ),
        {
            for gx in 0..CHAR_WIDTH
                invariant
                    self.inv(),
                    self.window_size == old(self).window_size,
                    self.size == old(self).size,
                    self.cursor == old(self).cursor,
                    self.glyphs == old(self).glyphs,
                    w == self.window_size.0,
                    h == self.window_size.1,
                    sx == 1 + x * 6,
                    sy == 1 + y * 9,
                    x < self.size.0,
                    y < self.size.1,
                    w == self.size.0 * 6 + 1,
                    h == self.size.1 * 9 + 1,
                    gy < CHAR_HEIGHT,
                    pixels.len() == w * h,
                    self.buffer@ == partly_drawn(
                        pixels,
                        w,
                        sx as int,
                        sy as int,
                        glyph,
                        gy * (CHAR_WIDTH as int) + gx,
                    ),
            {
                proof {
                    lemma_index_in_grid((sy + gy) as int, (sx + gx) as int, w, h);
                    lemma_paint_step(pixels, self.buffer@, w, sx as int, sy as int, glyph, gx as int, gy as int);
                }
                assert(self.buffer@.len() == self.buffer.len());
                assert((sy + gy) * w + sx + gx < self.buffer@.len());
                let color = glyph.index(gx, gy);
                self.set_pixel(sx + gx, sy + gy, color);
            }
        }
        proof {
            lemma_paint_done(pixels, w, sx as int, sy as int, glyph);
        }
        self.set_cursor(x + 1, y);
    }

    /// Switches every pixel off.
    pub fn clear(&mut self)
        requires
            old(self).inv(),
        ensures
            final(self).inv(),
            final(self)@ == old(self)@.cleared(),
    {
        let n = self.buffer.len();
        for i in 0..n
            invariant
                self.inv(),
                self.window_size == old(self).window_size,
                self.size == old(self).size,
                self.cursor == old(self).cursor,
                self.glyphs == old(self).glyphs,
                n == self.buffer@.len(),
                forall|j: int| 0 <= j < i ==> self.buffer@[j] == Color::Off,
        {
            self.buffer.set(i, Color::Off);
        }
        assert(self@.pixels =~= old(self)@.cleared().pixels);
    }

    /// The pixel surface as 0xRRGGBB values, row after row.
    fn framebuffer(&self) -> (fb: Vec<u32>)
        ensures
            fb@.len() == self@.pixels.len(),
            forall|i: int| 0 <= i < fb@.len() ==> #[trigger] fb@[i] == self@.pixels[i].rgb_value(),
    {
        let mut fb: Vec<u32> = Vec::new();
        let n = self.buffer.len();
        for i in 0..n
            invariant
                n == self@.pixels.len(),
                fb@.len() == i,
                forall|j: int| 0 <= j < i ==> #[trigger] fb@[j] == self@.pixels[j].rgb_value(),
        {
            fb.push(self.buffer[i].rgb());
        }
        fb
    }
}

/// The display as the rest of the program sees it: an emulated screen
/// that may have been closed by the user, after which every operation is
/// ignored.
pub struct PCD8544 {
    inner: Option<PCD8544Window>,
}

impl View for PCD8544 {
    type V = Option<DisplayState>;

    /// The state of the screen, or `None` once it has been closed.
    closed spec fn view(&self) -> Option<DisplayState> {
        match self.inner {
            Some(window) => Some(window@),
            None => None,
        }
    }
}

/// The state of an open display after `f`, a closed display staying closed.
pub open spec fn if_open(display: Option<DisplayState>, after: DisplayState) -> Option<DisplayState> {
    match display {
        Some(_) => Some(after),
        None => None,
    }
}

impl PCD8544 {
    /// The internal invariant of the open screen.
    pub closed spec fn inv(&self) -> bool {
        match self.inner {
            Some(window) => window.inv(),
            None => true,
        }
    }

    /// The internal invariant of an open screen gives the invariant of its
    /// abstract state.
    pub proof fn lemma_inv_gives_wf(&self)
        requires
            self.inv(),
            self@ is Some,
        ensures
            self@->0.wf(),
    {
    }

    /// Opens a display of `width` x `height` character cells.
    pub fn new(width: usize, height: usize) -> (r: Self)
        requires
            pixel_width_of(width as nat) * pixel_height_of(height as nat) <= usize::MAX,
        ensures
            r.inv(),
            r@ == Some(DisplayState::initial(width as nat, height as nat)),
    {
        PCD8544 { inner: Some(PCD8544Window::new(width, height)) }
    }

    /// Replaces the glyph of character code `c`.
    pub fn create_char(&mut self, c: u8, glyph: Glyph)
        requires
            old(self).inv(),
            old(self)@ is Some ==> c < GLYPH_SLOTS,
        ensures
            final(self).inv(),
            final(self)@ == if_open(old(self)@, old(self)@->0.with_glyph(c, glyph)),
    {
        if let Some(window) = &mut self.inner {
            window.create_char(c, glyph);
        }
    }

    /// Takes note of whether the user still has the window open: once it
    /// is closed, the display stays closed.
    pub fn update(&mut self, window_open: bool)
        requires
            old(self).inv(),
        ensures
            final(self).inv(),
            final(self)@ == if window_open {
                old(self)@
            } else {
                None
            },
    {
        if self.inner.is_some() && !window_open {
            self.inner = None;
        }
    }

    /// Moves the cursor to cell (`x`, `y`), each coordinate taken modulo
    /// the size of the grid.
    pub fn set_cursor(&mut self, x: usize, y: usize)
        requires
            old(self).inv(),
            old(self)@ is Some ==> old(self)@->0.columns > 0 && old(self)@->0.rows > 0,
        ensures
            final(self).inv(),
            final(self)@ == if_open(old(self)@, old(self)@->0.with_cursor(x as int, y as int)),
    {
        if let Some(window) = &mut self.inner {
            window.set_cursor(x, y);
        }
    }

    /// Writes character `char` at the cursor and advances the cursor.
    pub fn write(&mut self, char: u8)
        requires
            old(self).inv(),
            old(self)@ is Some ==> char < GLYPH_SLOTS && old(self)@->0.columns > 0
                && old(self)@->0.rows > 0,
        ensures
            final(self).inv(),
            final(self)@ == if_open(old(self)@, old(self)@->0.after_write(char)),
    {
        if let Some(window) = &mut self.inner {
            window.write(char);
        }
    }

    /// Switches every pixel off.
    pub fn clear(&mut self)
        requires
            old(self).inv(),
        ensures
            final(self).inv(),
            final(self)@ == if_open(old(self)@, old(self)@->0.cleared()),
    {
        if let Some(window) = &mut self.inner {
            window.clear();
        }
    }

    /// Whether the screen is still open.
    pub fn is_open(&self) -> (b: bool)
        ensures
            b == self@ is Some,
    {
        self.inner.is_some()
    }

    /// Width and height in pixels of the open screen.
    pub fn window_size(&self) -> (r: Option<(usize, usize)>)
        requires
            self.inv(),
        ensures
            r == match self@ {
                Some(s) => Some((s.pixel_width() as usize, s.pixel_height() as usize)),
                None => None::<(usize, usize)>,
            },
    {
        match &self.inner {
            Some(window) => Some(window.window_size()),
            None => None,
        }
    }

    /// The pixels of the open screen as 0xRRGGBB values, row after row.
    pub fn framebuffer(&self) -> (r: Option<Vec<u32>>)
        ensures
            r is Some <==> self@ is Some,
            r is Some ==> r->0@ == self@->0.pixels.map_values(|c: Color| c.rgb_value()),
    {
        match &self.inner {
            Some(window) => {
                let fb = window.framebuffer();
                assert(fb@ =~= window@.pixels.map_values(|c: Color| c.rgb_value()));
                Some(fb)
            },
            None => None,
        }
    }
}

/// Writing a character paints pixel (`gx`, `gy`) of the cell under the
/// cursor with pixel (`gx`, `gy`) of the character's glyph.
pub proof fn lemma_write_paints_glyph(s: DisplayState, c: u8, gx: int, gy: int)
    requires
        s.wf(),
        s.columns > 0,
        s.rows > 0,
        c < GLYPH_SLOTS,
        0 <= gx < CHAR_WIDTH,
        0 <= gy < CHAR_HEIGHT,
    ensures
        s.after_write(c).pixel(s.cursor_origin().0 + gx, s.cursor_origin().1 + gy)
            == s.glyphs[c as int].color_at(gx, gy),
{
    let w = s.pixel_width() as int;
    let (sx, sy) = s.cursor_origin();
    assert(w == s.columns * 6 + 1 && s.pixel_height() == s.rows * 9 + 1);
    assert(sx == 1 + s.cursor.0 * 6 && sy == 1 + s.cursor.1 * 9);
    lemma_index_in_grid(sy + gy, sx + gx, w, s.pixel_height() as int);
    lemma_fundamental_div_mod_converse((sy + gy) * w + sx + gx, w, sy + gy, sx + gx);
}

/// Writing a character leaves every pixel outside the cell under the
/// cursor as it was.
pub proof fn lemma_write_keeps_other_pixels(s: DisplayState, c: u8, px: int, py: int)
    requires
        s.wf(),
        s.columns > 0,
        s.rows > 0,
        c < GLYPH_SLOTS,
        0 <= px < s.pixel_width(),
        0 <= py < s.pixel_height(),
        !in_cell(px, py, s.cursor_origin().0, s.cursor_origin().1),
    ensures
        s.after_write(c).pixel(px, py) == s.pixel(px, py),
{
    let w = s.pixel_width() as int;
    lemma_index_in_grid(py, px, w, s.pixel_height() as int);
    lemma_fundamental_div_mod_converse(py * w + px, w, py, px);
}

/// Writing a character moves the cursor one cell to the right, wrapping
/// back to the first cell of the same row.
pub proof fn lemma_write_moves_cursor(s: DisplayState, c: u8)
    requires
        s.columns > 0,
        s.rows > 0,
        s.cursor.1 < s.rows,
    ensures
        s.after_write(c).cursor == ((s.cursor.0 + 1) % s.columns, s.cursor.1),
{
    vstd::arithmetic::div_mod::lemma_small_mod(s.cursor.1, s.rows);
}

/// Every operation of the display keeps its invariant.
pub proof fn lemma_operations_keep_wf(s: DisplayState, c: u8, g: Glyph, x: int, y: int)
    requires
        s.wf(),
        s.columns > 0,
        s.rows > 0,
        c < GLYPH_SLOTS,
    ensures
        s.with_glyph(c, g).wf(),
        s.with_cursor(x, y).wf(),
        s.cleared().wf(),
        s.after_write(c).wf(),
{
}

/// A glyph stored under code `c` is the one painted when `c` is written.
pub proof fn lemma_created_glyph_is_written(s: DisplayState, c: u8, g: Glyph, gx: int, gy: int)
    requires
        s.wf(),
        s.columns > 0,
        s.rows > 0,
        c < GLYPH_SLOTS,
        0 <= gx < CHAR_WIDTH,
        0 <= gy < CHAR_HEIGHT,
    ensures
        s.with_glyph(c, g).after_write(c).pixel(s.cursor_origin().0 + gx, s.cursor_origin().1 + gy)
            == g.color_at(gx, gy),
{
    lemma_write_paints_glyph(s.with_glyph(c, g), c, gx, gy);
}

/// After a clear every pixel is off; the cursor and the glyphs are kept.
pub proof fn lemma_clear_turns_all_off(s: DisplayState, px: int, py: int)
    requires
        s.wf(),
        0 <= px < s.pixel_width(),
        0 <= py < s.pixel_height(),
    ensures
        s.cleared().pixel(px, py) == Color::Off,
        s.cleared().cursor == s.cursor,
        s.cleared().glyphs == s.glyphs,
{
    lemma_index_in_grid(py, px, s.pixel_width() as int, s.pixel_height() as int);
}

/// After writing `text`, the cursor has moved `text.len()` cells to the
/// right (modulo the width of the grid) and stayed on its row; in
/// particular a text as long as a row brings it back where it started.
pub proof fn lemma_text_moves_cursor(s: DisplayState, text: Seq<u8>)
    requires
        s.wf(),
        s.columns > 0,
        s.rows > 0,
        forall|i: int| 0 <= i < text.len() ==> text[i] < GLYPH_SLOTS,
    ensures
        s.after_text(text).cursor == ((s.cursor.0 + text.len()) % s.columns, s.cursor.1),
        s.after_text(text).wf(),
        s.after_text(text).columns == s.columns,
        s.after_text(text).rows == s.rows,
        text.len() == s.columns ==> s.after_text(text).cursor == s.cursor,
    decreases text.len(),
{
    let n = s.columns as int;
    if text.len() == 0 {
        vstd::arithmetic::div_mod::lemma_small_mod(s.cursor.0, s.columns);
    } else {
        lemma_text_moves_cursor(s, text.drop_last());
        let prev = s.after_text(text.drop_last());
        lemma_write_moves_cursor(prev, text.last());
        vstd::arithmetic::div_mod::lemma_add_mod_noop_right(1, s.cursor.0 + text.len() - 1, n);
    }
    if text.len() == s.columns {
        vstd::arithmetic::div_mod::lemma_mod_add_multiples_vanish(s.cursor.0 as int, n);
        vstd::arithmetic::div_mod::lemma_small_mod(s.cursor.0, s.columns);
    }
}

/// Once closed, the display stays closed whatever is done to it.
pub proof fn lemma_closed_display_stays_closed(after: DisplayState)
    ensures
        if_open(None, after) == None::<DisplayState>,
{
}

/// Whether pixel (`px`, `py`) lies on the frame of the screen or on a gap
/// between two character cells.
pub open spec fn is_gap(px: int, py: int) -> bool {
    px % (CHAR_WIDTH as int + 1) == 0 || py % (CHAR_HEIGHT as int + 1) == 0
}

/// Whether every pixel of the frame and of the gaps between cells is off.
pub open spec fn gaps_off(s: DisplayState) -> bool {
    forall|px: int, py: int|
        0 <= px < s.pixel_width() && 0 <= py < s.pixel_height() && is_gap(px, py) ==> #[trigger] s.pixel(
            px,
            py,
        ) == Color::Off
}

/// A fresh display has its frame and gaps off.
pub proof fn lemma_initial_gaps_off(columns: nat, rows: nat)
    ensures
        gaps_off(DisplayState::initial(columns, rows)),
{
    let s = DisplayState::initial(columns, rows);
    assert forall|px: int, py: int|
        0 <= px < s.pixel_width() && 0 <= py < s.pixel_height() && is_gap(px, py) implies #[trigger] s.pixel(
            px,
            py,
        ) == Color::Off by {
        lemma_index_in_grid(py, px, s.pixel_width() as int, s.pixel_height() as int);
    }
}

/// Glyphs are painted inside their cells only: writing, moving the cursor,
/// replacing a glyph and clearing all keep the frame and the gaps between
/// cells off.
pub proof fn lemma_operations_keep_gaps_off(s: DisplayState, c: u8, g: Glyph, x: int, y: int)
    requires
        s.wf(),
        s.columns > 0,
        s.rows > 0,
        c < GLYPH_SLOTS,
        gaps_off(s),
    ensures
        gaps_off(s.after_write(c)),
        gaps_off(s.with_cursor(x, y)),
        gaps_off(s.with_glyph(c, g)),
        gaps_off(s.cleared()),
{
    let t = s.after_write(c);
    let (sx, sy) = s.cursor_origin();
    assert(sx == 1 + s.cursor.0 * 6 && sy == 1 + s.cursor.1 * 9);
    assert forall|px: int, py: int|
        0 <= px < t.pixel_width() && 0 <= py < t.pixel_height() && is_gap(px, py) implies #[trigger] t.pixel(
            px,
            py,
        ) == Color::Off by {
        if in_cell(px, py, sx, sy) {
            lemma_fundamental_div_mod_converse(px, 6, s.cursor.0 as int, px - sx + 1);
            lemma_fundamental_div_mod_converse(py, 9, s.cursor.1 as int, py - sy + 1);
            assert(false);
        }
        lemma_write_keeps_other_pixels(s, c, px, py);
        assert(s.pixel(px, py) == Color::Off);
    }
    let u = s.cleared();
    assert forall|px: int, py: int|
        0 <= px < u.pixel_width() && 0 <= py < u.pixel_height() && is_gap(px, py) implies #[trigger] u.pixel(
            px,
            py,
        ) == Color::Off by {
        lemma_clear_turns_all_off(s, px, py);
    }
    let v = s.with_cursor(x, y);
    assert forall|px: int, py: int|
        0 <= px < v.pixel_width() && 0 <= py < v.pixel_height() && is_gap(px, py) implies #[trigger] v.pixel(
            px,
            py,
        ) == Color::Off by {
        assert(v.pixel(px, py) == s.pixel(px, py));
    }
    let w = s.with_glyph(c, g);
    assert forall|px: int, py: int|
        0 <= px < w.pixel_width() && 0 <= py < w.pixel_height() && is_gap(px, py) implies #[trigger] w.pixel(
            px,
            py,
        ) == Color::Off by {
        assert(w.pixel(px, py) == s.pixel(px, py));
    }
}

} // verus!
