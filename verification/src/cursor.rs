//! The console: a cursor over a pixel surface, with an optional second
//! surface that collects the drawing until it is presented.

use crate::font::{bytes_per_row, read_msb_bit, row_bytes, Font};
use crate::raster::{lemma_index_in_surface, lemma_rows_kept};
use crate::view::{shifted, CursorView, DEFAULT_BG, DEFAULT_FG, FALLBACK_GLYPH_HEIGHT};
use vstd::prelude::*;

verus! {

/// A text cursor that owns its pixel surfaces.
///
/// Pixels are `0x00RRGGBB`, row-major, without padding between rows.
pub struct Cursor {
    x: usize,
    y: usize,
    color_bg: u32,
    color_fg: u32,
    pixels: Vec<u32>,
    front: Option<Vec<u32>>,
    width: usize,
    height: usize,
    font: Option<Font<'static>>,
    dirty: bool,
}

impl View for Cursor {
    type V = CursorView;

    closed spec fn view(&self) -> CursorView {
        CursorView {
            x: self.x as int,
            y: self.y as int,
            color_bg: self.color_bg,
            color_fg: self.color_fg,
            width: self.width as int,
            height: self.height as int,
            pixels: self.pixels@,
            front: match self.front {
                Some(f) => Some(f@),
                None => None,
            },
            font: self.font,
            dirty: self.dirty,
        }
    }
}

/// The pixels of an optional surface.
pub open spec fn surface_view(s: Option<Vec<u32>>) -> Option<Seq<u32>> {
    match s {
        Some(v) => Some(v@),
        None => None,
    }
}

/// Copies `src` over `dst`, pixel by pixel.
fn copy_surface(dst: &mut Vec<u32>, src: &Vec<u32>)
    requires
        old(dst)@.len() == src@.len(),
    ensures
        final(dst)@ == src@,
{
    let n: usize = src.len();
    let mut i: usize = 0;
    while i < n
        invariant
            i <= n,
            n == src@.len(),
            dst@.len() == n,
            forall|j: int| 0 <= j < i ==> dst@[j] == src@[j],
        decreases n - i,
    {
        dst[i] = src[i];
        i = i + 1;
    }
    assert(dst@ =~= src@);
}

impl Cursor {
    /// Validity of the console's state.
    pub open spec fn wf(&self) -> bool {
        self@.wf()
    }

    /// A console over `front`, the visible surface of `width` by `height`
    /// pixels. With `back`, drawing goes to `back` and reaches `front` on
    /// `blit`; without, drawing goes to `front` directly. The cursor starts
    /// at the origin, no font is bound, and the console is dirty.
    pub fn new(front: Vec<u32>, back: Option<Vec<u32>>, width: u64, height: u64) -> (r: Cursor)
        requires
            width <= usize::MAX,
            height <= usize::MAX,
            front@.len() == width * height,
            back matches Some(b) ==> b@.len() == width * height,
        ensures
            r.wf(),
            r@ == CursorView::initial(front@, surface_view(back), width as int, height as int),
    {
        let (pixels, front) = match back {
            Some(b) => (b, Some(front)),
            None => (front, None),
        };
        Cursor {
            x: 0,
            y: 0,
            color_bg: DEFAULT_BG,
            color_fg: DEFAULT_FG,
            pixels,
            front,
            width: width as usize,
            height: height as usize,
            font: None,
            dirty: true,
        }
    }

    /// Pixel column of the cursor.
    pub fn x(&self) -> (r: usize)
        ensures
            r == self@.x,
    {
        self.x
    }

    /// Pixel row of the cursor.
    pub fn y(&self) -> (r: usize)
        ensures
            r == self@.y,
    {
        self.y
    }

    /// Width of the surface in pixels.
    pub fn width(&self) -> (r: usize)
        ensures
            r == self@.width,
    {
        self.width
    }

    /// Height of the surface in pixels.
    pub fn height(&self) -> (r: usize)
        ensures
            r == self@.height,
    {
        self.height
    }

    /// Colour that `clear` last filled the surface with.
    pub fn color_bg(&self) -> (r: u32)
        ensures
            r == self@.color_bg,
    {
        self.color_bg
    }

    /// Colour that glyphs are drawn in.
    pub fn color_fg(&self) -> (r: u32)
        ensures
            r == self@.color_fg,
    {
        self.color_fg
    }

    /// Whether anything was drawn since the last `blit`.
    pub fn is_dirty(&self) -> (r: bool)
        ensures
            r == self@.dirty,
    {
        self.dirty
    }

    /// The bound font.
    pub fn font(&self) -> (r: Option<Font<'static>>)
        ensures
            r == self@.font,
    {
        self.font
    }

    /// The surface that drawing writes to.
    pub fn pixels(&self) -> (r: &[u32])
        ensures
            r@ == self@.pixels,
    {
        self.pixels.as_slice()
    }

    /// The surface that the display shows.
    pub fn front(&self) -> (r: &[u32])
        ensures
            r@ == self@.visible(),
    {
        match &self.front {
            Some(f) => f.as_slice(),
            None => self.pixels.as_slice(),
        }
    }

    /// Binds the font that characters are drawn with from now on.
    pub fn bind_font(&mut self, font: Font<'static>)
        requires
            old(self).wf(),
        ensures
            final(self).wf(),
            final(self)@ == old(self)@.bind_font(font),
    {
        self.font = Some(font);
    }

    /// Sets the colour that glyphs are drawn in from now on.
    pub fn set_color_fg(&mut self, color: u32)
        requires
            old(self).wf(),
        ensures
            final(self).wf(),
            final(self)@ == old(self)@.set_color_fg(color),
    {
        self.color_fg = color;
    }

    /// Moves the cursor.
    pub fn set_position(&mut self, x: usize, y: usize)
        requires
            old(self).wf(),
        ensures
            final(self).wf(),
            final(self)@ == old(self)@.set_position(x as int, y as int),
    {
        self.x = x;
        self.y = y;
    }

    /// Presents the drawing: if the console is dirty, copies the drawing
    /// surface over the visible one and marks the console clean. Returns
    /// whether pixels were copied.
    pub fn blit(&mut self) -> (copied: bool)
        requires
            old(self).wf(),
        ensures
            final(self).wf(),
            final(self)@ == old(self)@.blit(),
            copied == (old(self)@.dirty && old(self)@.front is Some),
    {
        if !self.dirty {
            return false;
        }
        self.dirty = false;
        match &mut self.front {
            Some(front) => {
                copy_surface(front, &self.pixels);
                true
            },
            None => false,
        }
    }

    /// Fills the drawing surface with `color` and makes it the background
    /// colour.
    pub fn clear(&mut self, color: u32)
        requires
            old(self).wf(),
        ensures
            final(self).wf(),
            final(self)@ == old(self)@.clear(color),
    {
        self.color_bg = color;
        let n: usize = self.pixels.len();
        let mut i: usize = 0;
        while i < n
            invariant
                i <= n,
                n == self.pixels@.len(),
                self@ == (CursorView { pixels: self@.pixels, color_bg: color, ..old(self)@ }),
                forall|j: int| 0 <= j < i ==> self.pixels@[j] == color,
            decreases n - i,
        {
            self.pixels[i] = color;
            i = i + 1;
        }
        self.dirty = true;
        assert(self@.pixels =~= old(self)@.clear(color).pixels);
    }

    /// Writes one pixel; a position off the surface is ignored.
    pub fn write_pixel(&mut self, x: usize, y: usize, color: u32)
        requires
            old(self).wf(),
        ensures
            final(self).wf(),
            final(self)@ == old(self)@.write_pixel(x as int, y as int, color),
    {
        if x < self.width && y < self.height {
            proof {
                lemma_index_in_surface(x as int, y as int, self.width as int, self.height as int);
                assert(self.pixels.len() == self.width * self.height);
            }
            let at: usize = y * self.width + x;
            self.pixels[at] = color;
            self.dirty = true;
        }
    }

    /// Draws a glyph of `gw` by `gh` pixels with its top-left corner at
    /// `(x0, y0)`: each pixel under a foreground bit takes the foreground
    /// colour, every other pixel stays as it is, and what reaches beyond
    /// the surface is clipped.
    pub fn draw_glyph(&mut self, glyph: &[u8], gw: u32, gh: u32, x0: usize, y0: usize)
        requires
            old(self).wf(),
        ensures
            final(self).wf(),
            final(self)@ == old(self)@.stamp(
                glyph@,
                gw as int,
                gh as int,
                x0 as int,
                y0 as int,
            ),
    {
        let ghost start = self@;
        if x0 >= self.width || y0 >= self.height {
            proof {
                start.lemma_stamp_off_surface(glyph@, gw as int, gh as int, x0 as int, y0 as int);
            }
            return ;
        }
        let fg: u32 = self.color_fg;
        let cols: usize = if gw as usize <= self.width - x0 {
            gw as usize
        } else {
            self.width - x0
        };
        let rows: usize = if gh as usize <= self.height - y0 {
            gh as usize
        } else {
            self.height - y0
        };
        let bpr: u64 = row_bytes(gw) as u64;
        let glyph_len: u64 = glyph.len() as u64;
        proof {
            start.lemma_stamp_start(glyph@, gw as int, gh as int, x0 as int, y0 as int);
        }
        let mut py: usize = 0;
        while py < rows
            invariant
                py <= rows,
                self.wf(),
                start.wf(),
                self@ == start.stamp_partial(
                    glyph@,
                    gw as int,
                    gh as int,
                    x0 as int,
                    y0 as int,
                    py as int,
                    0,
                ),
                x0 < start.width,
                y0 < start.height,
                cols == if gw <= start.width - x0 {
                    gw as int
                } else {
                    start.width - x0
                },
                rows == if gh <= start.height - y0 {
                    gh as int
                } else {
                    start.height - y0
                },
                fg == start.color_fg,
                bpr == bytes_per_row(gw as int),
                glyph_len == glyph@.len(),
            decreases rows - py,
        {
            let mut px: usize = 0;
            while px < cols
                invariant
                    px <= cols,
                    py < rows,
                    self.wf(),
                    start.wf(),
                    self@ == start.stamp_partial(
                        glyph@,
                        gw as int,
                        gh as int,
                        x0 as int,
                        y0 as int,
                        py as int,
                        px as int,
                    ),
                    x0 < start.width,
                    y0 < start.height,
                    cols == if gw <= start.width - x0 {
                        gw as int
                    } else {
                        start.width - x0
                    },
                    rows == if gh <= start.height - y0 {
                        gh as int
                    } else {
                        start.height - y0
                    },
                    fg == start.color_fg,
                    bpr == bytes_per_row(gw as int),
                    glyph_len == glyph@.len(),
                decreases cols - px,
            {
                assert(py * bpr <= 0x1_0000_0000 * 0x2000_0000) by (nonlinear_arith)
                    requires
                        py < 0x1_0000_0000,
                        bpr <= 0x2000_0000,
                ;
                let at: u64 = (py as u64) * bpr + (px / 8) as u64;
                let hit: bool = at < glyph_len && read_msb_bit(glyph[at as usize], px);
                proof {
                    start.lemma_stamp_step(
                        glyph@,
                        gw as int,
                        gh as int,
                        x0 as int,
                        y0 as int,
                        py as int,
                        px as int,
                    );
                }
                if hit {
                    self.write_pixel(x0 + px, y0 + py, fg);
                }
                px = px + 1;
            }
            proof {
                start.lemma_stamp_row_end(
                    glyph@,
                    gw as int,
                    gh as int,
                    x0 as int,
                    y0 as int,
                    py as int,
                    cols as int,
                );
            }
            py = py + 1;
        }
        proof {
            start.lemma_stamp_done(
                glyph@,
                gw as int,
                gh as int,
                x0 as int,
                y0 as int,
                rows as int,
            );
        }
    }

    /// Moves the drawing surface up by `rows` pixel rows and fills what
    /// comes free at the bottom with the background colour.
    fn shift_rows(&mut self, rows: usize)
        requires
            old(self).wf(),
        ensures
            final(self)@ == (CursorView {
                pixels: shifted(old(self)@.pixels, rows * old(self)@.width, old(self)@.color_bg),
                dirty: true,
                ..old(self)@
            }),
    {
        let n: usize = self.pixels.len();
        let bg: u32 = self.color_bg;
        proof {
            lemma_rows_kept(rows as int, self.width as int, self.height as int);
        }
        let keep: usize = if rows < self.height {
            (self.height - rows) * self.width
        } else {
            0
        };
        let shift: usize = n - keep;
        let mut i: usize = 0;
        while i < keep
            invariant
                i <= keep,
                keep + shift == n,
                n == self.pixels@.len(),
                n == old(self)@.pixels.len(),
                self@ == (CursorView { pixels: self@.pixels, ..old(self)@ }),
                forall|j: int| 0 <= j < i ==> self.pixels@[j] == old(self)@.pixels[j + shift],
                forall|j: int| i <= j < n ==> self.pixels@[j] == old(self)@.pixels[j],
            decreases keep - i,
        {
            let moved: u32 = self.pixels[i + shift];
            self.pixels[i] = moved;
            i = i + 1;
        }
        while i < n
            invariant
                keep <= i <= n,
                keep + shift == n,
                n == self.pixels@.len(),
                n == old(self)@.pixels.len(),
                bg == old(self)@.color_bg,
                self@ == (CursorView { pixels: self@.pixels, ..old(self)@ }),
                forall|j: int| 0 <= j < keep ==> self.pixels@[j] == old(self)@.pixels[j + shift],
                forall|j: int| keep <= j < i ==> self.pixels@[j] == bg,
            decreases n - i,
        {
            self.pixels[i] = bg;
            i = i + 1;
        }
        self.dirty = true;
        assert(self@.pixels =~= shifted(old(self)@.pixels, rows * old(self)@.width, old(self)@.color_bg));
    }

    /// Scrolls by one glyph height of the bound font, or by the fallback
    /// height without a font: the surface moves up, the rows that come free
    /// take the background colour, and the cursor moves up with the text,
    /// stopping at the top row.
    pub fn scroll_up(&mut self)
        requires
            old(self).wf(),
        ensures
            final(self).wf(),
            final(self)@ == old(self)@.scroll_up(),
    {
        let h: usize = match self.font {
            Some(font) => font.header.height as usize,
            None => FALLBACK_GLYPH_HEIGHT as usize,
        };
        self.shift_rows(h);
        self.y = if self.y >= h {
            self.y - h
        } else {
            0
        };
    }

    /// Writes one character at the cursor. A newline moves the cursor to
    /// the start of the next line. Any other character wraps to the next
    /// line first if its glyph would cross the right edge, is drawn in the
    /// foreground colour over what is there, and moves the cursor one glyph
    /// width to the right; a character without a glyph takes its cell and
    /// leaves it as it is. Then the surface scrolls if a glyph at the
    /// cursor's row would reach below it. Without a font nothing happens.
    pub fn draw_char(&mut self, c: char)
        requires
            old(self).wf(),
        ensures
            final(self).wf(),
            final(self)@ == old(self)@.draw_char(c),
    {
        let font: Font<'static> = match self.font {
            Some(font) => font,
            None => { return ; },
        };
        let w: usize = font.header.width as usize;
        let h: usize = font.header.height as usize;
        let newline: bool = c == '\n';
        let wrap: bool = !newline && (w > self.width || self.x > self.width - w);
        let next_line: bool = newline || wrap;
        let ghost start = if wrap {
            old(self)@.next_line()
        } else {
            old(self)@
        };
        if newline {
            self.x = 0;
        } else {
            match font.get_glyph(c) {
                Ok(glyph) => {
                    if !wrap {
                        self.draw_glyph(glyph, font.header.width, font.header.height, self.x, self.y);
                    } else if h < self.height && self.y < self.height - h {
                        self.draw_glyph(
                            glyph,
                            font.header.width,
                            font.header.height,
                            0,
                            self.y + h,
                        );
                    } else {
                        proof {
                            start.lemma_stamp_off_surface(
                                glyph@,
                                w as int,
                                h as int,
                                0,
                                self.y + h,
                            );
                        }
                    }
                },
                Err(_) => {},
            }
            self.x = if wrap {
                w
            } else {
                self.x + w
            };
        }
        if next_line {
            if h <= self.height && self.y <= self.height - h && h <= self.height - h - self.y {
                self.y = self.y + h;
            } else {
                self.shift_rows(h);
            }
        } else {
            if !(h <= self.height && self.y <= self.height - h) {
                self.scroll_up();
            }
        }
    }

    /// Writes the characters of `s` one after the other.
    pub fn write_str(&mut self, s: &str)
        requires
            old(self).wf(),
        ensures
            final(self).wf(),
            final(self)@ == old(self)@.write(s@),
    {
        for c in it: s.chars()
            invariant
                self.wf(),
                it.seq() == s@,
                self@ == old(self)@.write(s@.take(it.index() as int)),
        {
            self.draw_char(c);
            assert(s@.take(it.index() + 1).drop_last() =~= s@.take(it.index() as int));
        }
        assert(s@.take(s@.len() as int) =~= s@);
    }
}

} // verus!
