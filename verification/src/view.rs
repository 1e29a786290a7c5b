//! The mathematical model of the console: its state as plain values, and
//! every operation as a function from state to state.

use crate::font::{glyph_pixel, Font};
use vstd::prelude::*;

verus! {

/// Background colour of a new console.
pub const DEFAULT_BG: u32 = 0x1a1b26;

/// Foreground colour of a new console.
pub const DEFAULT_FG: u32 = 0xc0caf5;

/// Rows that a scroll moves while no font is bound.
pub const FALLBACK_GLYPH_HEIGHT: u32 = 16;

/// The pixel at index `i` of a surface of `len` pixels, `width` to a row,
/// lies under a foreground bit of a glyph of `gw` by `gh` pixels whose
/// top-left corner is at `(x0, y0)`.
pub open spec fn painted(
    len: int,
    width: int,
    glyph: Seq<u8>,
    gw: int,
    gh: int,
    x0: int,
    y0: int,
    i: int,
) -> bool {
    &&& 0 <= i < len
    &&& i / width - y0 < gh
    &&& glyph_pixel(glyph, gw, i % width - x0, i / width - y0)
}

/// The glyph at `(x0, y0)` has a foreground bit over some pixel of the
/// surface.
pub open spec fn touched(
    len: int,
    width: int,
    glyph: Seq<u8>,
    gw: int,
    gh: int,
    x0: int,
    y0: int,
) -> bool {
    exists|i: int| #[trigger] painted(len, width, glyph, gw, gh, x0, y0, i)
}

/// The surface with the glyph drawn at `(x0, y0)`: the pixels under its
/// foreground bits are `color`, all others are as they were.
pub open spec fn stamped(
    pixels: Seq<u32>,
    width: int,
    color: u32,
    glyph: Seq<u8>,
    gw: int,
    gh: int,
    x0: int,
    y0: int,
) -> Seq<u32> {
    Seq::new(
        pixels.len(),
        |i: int|
            if painted(pixels.len() as int, width, glyph, gw, gh, x0, y0, i) {
                color
            } else {
                pixels[i]
            },
    )
}

/// The surface moved towards its start by `by` pixels, with `fill` where
/// nothing moves in.
pub open spec fn shifted(pixels: Seq<u32>, by: int, fill: u32) -> Seq<u32> {
    Seq::new(
        pixels.len(),
        |i: int|
            if i + by < pixels.len() {
                pixels[i + by]
            } else {
                fill
            },
    )
}

/// The state of a console.
///
/// `pixels` is the surface that drawing writes to, row-major, `width`
/// pixels per row. `front` is the visible surface where the console has two
/// surfaces; with one surface `pixels` itself is visible.
pub struct CursorView {
    pub x: int,
    pub y: int,
    pub color_bg: u32,
    pub color_fg: u32,
    pub width: int,
    pub height: int,
    pub pixels: Seq<u32>,
    pub front: Option<Seq<u32>>,
    pub font: Option<Font<'static>>,
    pub dirty: bool,
}

impl CursorView {
    /// Validity: the cursor is not negative, both surfaces hold
    /// `width * height` pixels, and a clean console shows what was drawn.
    pub open spec fn wf(self) -> bool {
        &&& 0 <= self.x
        &&& 0 <= self.y
        &&& 0 <= self.width
        &&& 0 <= self.height
        &&& self.pixels.len() == self.width * self.height
        &&& self.front matches Some(f) ==> f.len() == self.pixels.len()
        &&& !self.dirty ==> self.visible() == self.pixels
    }

    /// The state of a new console over the given surfaces.
    pub open spec fn initial(
        front: Seq<u32>,
        back: Option<Seq<u32>>,
        width: int,
        height: int,
    ) -> CursorView {
        CursorView {
            x: 0,
            y: 0,
            color_bg: DEFAULT_BG,
            color_fg: DEFAULT_FG,
            width,
            height,
            pixels: match back {
                Some(b) => b,
                None => front,
            },
            front: match back {
                Some(_) => Some(front),
                None => None,
            },
            font: None,
            dirty: true,
        }
    }

    /// What the display shows.
    pub open spec fn visible(self) -> Seq<u32> {
        match self.front {
            Some(f) => f,
            None => self.pixels,
        }
    }

    /// Whether `(x, y)` lies on the surface.
    pub open spec fn in_bounds(self, x: int, y: int) -> bool {
        0 <= x < self.width && 0 <= y < self.height
    }

    /// The pixel in column `x` of row `y` of the drawing surface.
    pub open spec fn pixel(self, x: int, y: int) -> u32 {
        self.pixels[y * self.width + x]
    }

    /// Width of a glyph of the bound font; 0 without a font.
    pub open spec fn glyph_width(self) -> int {
        match self.font {
            Some(f) => f.header.width as int,
            None => 0,
        }
    }

    /// Height of a glyph of the bound font; the fallback without a font.
    pub open spec fn glyph_height(self) -> int {
        match self.font {
            Some(f) => f.header.height as int,
            None => FALLBACK_GLYPH_HEIGHT as int,
        }
    }

    /// A whole glyph below the cursor's row still fits on the surface.
    pub open spec fn cursor_on_surface(self) -> bool {
        self.y + self.glyph_height() <= self.height
    }

    /// `font` is bound; nothing else changes.
    pub open spec fn bind_font(self, font: Font<'static>) -> CursorView {
        CursorView { font: Some(font), ..self }
    }

    /// `color` is the foreground colour; nothing else changes.
    pub open spec fn set_color_fg(self, color: u32) -> CursorView {
        CursorView { color_fg: color, ..self }
    }

    /// The cursor is at `(x, y)`; nothing else changes.
    pub open spec fn set_position(self, x: int, y: int) -> CursorView {
        CursorView { x, y, ..self }
    }

    /// Every pixel takes `color`, which becomes the background colour.
    pub open spec fn clear(self, color: u32) -> CursorView {
        CursorView {
            color_bg: color,
            pixels: Seq::new(self.pixels.len(), |i: int| color),
            dirty: true,
            ..self
        }
    }

    /// One pixel takes `color`; off the surface nothing happens.
    pub open spec fn write_pixel(self, x: int, y: int, color: u32) -> CursorView {
        if self.in_bounds(x, y) {
            CursorView {
                pixels: self.pixels.update(y * self.width + x, color),
                dirty: true,
                ..self
            }
        } else {
            self
        }
    }

    /// The visible surface takes the drawn pixels, if any were drawn since
    /// the last time.
    pub open spec fn blit(self) -> CursorView {
        if self.dirty {
            CursorView {
                front: match self.front {
                    Some(_) => Some(self.pixels),
                    None => None,
                },
                dirty: false,
                ..self
            }
        } else {
            self
        }
    }

    /// The surface moves up by one glyph height, the rows that come free at
    /// the bottom take the background colour, and the cursor follows as far
    /// as the top row.
    pub open spec fn scroll_up(self) -> CursorView {
        let h = self.glyph_height();
        CursorView {
            pixels: shifted(self.pixels, h * self.width, self.color_bg),
            y: if self.y >= h { self.y - h } else { 0 },
            dirty: true,
            ..self
        }
    }

    /// The glyph is drawn at `(x0, y0)`: pixels under its foreground bits
    /// take the foreground colour, all others stay. Dirty if any was drawn.
    pub open spec fn stamp(self, glyph: Seq<u8>, gw: int, gh: int, x0: int, y0: int) -> CursorView {
        CursorView {
            pixels: stamped(self.pixels, self.width, self.color_fg, glyph, gw, gh, x0, y0),
            dirty: self.dirty || touched(
                self.pixels.len() as int,
                self.width,
                glyph,
                gw,
                gh,
                x0,
                y0,
            ),
            ..self
        }
    }

    /// The cursor at the start of the next line.
    pub open spec fn next_line(self) -> CursorView {
        CursorView { x: 0, y: self.y + self.glyph_height(), ..self }
    }

    /// A glyph at the cursor's column would cross the right edge.
    pub open spec fn must_wrap(self) -> bool {
        self.x + self.glyph_width() > self.width
    }

    /// The state before the scroll test of `draw_char`: after a newline the
    /// cursor at the start of the next line; after any other character the
    /// cursor wrapped if the glyph would cross the right edge, the glyph
    /// drawn at the cursor (nothing drawn for a character without a glyph),
    /// and the cursor one glyph width further right.
    pub open spec fn place_char(self, c: char) -> CursorView {
        match self.font {
            None => self,
            Some(font) => {
                if c == '\n' {
                    self.next_line()
                } else {
                    let start = if self.must_wrap() {
                        self.next_line()
                    } else {
                        self
                    };
                    let drawn = if font.has_glyph(c) {
                        start.stamp(
                            font.glyph(c),
                            font.header.width as int,
                            font.header.height as int,
                            start.x,
                            start.y,
                        )
                    } else {
                        start
                    };
                    CursorView { x: drawn.x + font.header.width, ..drawn }
                }
            },
        }
    }

    /// One character written: placed, then scrolled if a glyph at the
    /// cursor's row would reach below the surface. Without a font nothing
    /// happens.
    pub open spec fn draw_char(self, c: char) -> CursorView {
        match self.font {
            None => self,
            Some(_) => {
                let placed = self.place_char(c);
                if placed.cursor_on_surface() {
                    placed
                } else {
                    placed.scroll_up()
                }
            },
        }
    }

    /// The characters of `s` written one after the other.
    pub open spec fn write(self, s: Seq<char>) -> CursorView
        decreases s.len(),
    {
        if s.len() == 0 {
            self
        } else {
            self.write(s.drop_last()).draw_char(s.last())
        }
    }
}

} // verus!
