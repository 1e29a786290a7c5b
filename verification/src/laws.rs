//! What holds of fonts and of the console in every state, proved from the
//! model.

use crate::font::{
    bytes_per_row, glyph_pixel, has_magic, le_u32, loadable, msb_bit, table_fits, Font, Psf2Header,
    PSF2_HEADER_LEN,
};
use crate::raster::{lemma_index_in_surface, lemma_index_row_col};
use crate::view::CursorView;
use vstd::prelude::*;

verus! {

/// A blob that is not cut short inside its glyph table loads exactly when
/// it holds a whole header, opens with the signature, and holds every glyph
/// that the header announces.
pub proof fn lemma_loads_iff_complete(b: Seq<u8>)
    requires
        loadable(b) ==> table_fits(b),
    ensures
        loadable(b) <==> b.len() >= PSF2_HEADER_LEN && has_magic(b) && table_fits(b),
{
    assert(0 <= le_u32(b, 16) * le_u32(b, 20)) by (nonlinear_arith)
        requires
            0 <= le_u32(b, 16),
            0 <= le_u32(b, 20),
    ;
}

/// In a font loaded from a blob that holds its whole glyph table, every
/// code below the glyph count has a glyph: the `char_size` bytes of the blob
/// that start `code * char_size` bytes behind the header.
pub proof fn lemma_complete_font_has_every_glyph(font: Font, b: Seq<u8>, c: char)
    requires
        loadable(b),
        table_fits(b),
        font.loaded_from(b),
        (c as int) < font.header.length,
    ensures
        font.has_glyph(c),
        font.glyph(c).len() == font.header.char_size,
        font.glyph(c) == b.subrange(
            font.header.header_size + c as int * font.header.char_size,
            font.header.header_size + c as int * font.header.char_size + font.header.char_size,
        ),
{
    let code = c as int;
    let count = font.header.length as int;
    let size = font.header.char_size as int;
    assert((code + 1) * size <= count * size) by (nonlinear_arith)
        requires
            code + 1 <= count,
            0 <= size,
    ;
    assert((code + 1) * size == code * size + size) by (nonlinear_arith);
    assert(0 <= code * size) by (nonlinear_arith)
        requires
            0 <= code,
            0 <= size,
    ;
    assert(font.glyph(c) =~= b.subrange(
        font.header.header_size + code * size,
        font.header.header_size + code * size + size,
    ));
}

/// Where the bitmap size of a font agrees with its glyph size, every pixel
/// of a glyph has its bit inside the bitmap: what a glyph shows is what its
/// `char_size` bytes say, row by row, most significant bit first.
pub proof fn lemma_cell_lies_in_bitmap(header: Psf2Header, glyph: Seq<u8>, px: int, py: int)
    requires
        header.sizes_agree(),
        glyph.len() == header.char_size,
        0 <= px < header.width,
        0 <= py < header.height,
    ensures
        0 <= py * bytes_per_row(header.width as int) + px / 8 < glyph.len(),
        glyph_pixel(glyph, header.width as int, px, py) == msb_bit(
            glyph[py * bytes_per_row(header.width as int) + px / 8],
            px,
        ),
{
    let row = bytes_per_row(header.width as int);
    let rows = header.height as int;
    assert(0 <= px / 8 < row);
    assert(0 <= py * row && (py + 1) * row <= rows * row && (py + 1) * row == py * row + row)
        by (nonlinear_arith)
        requires
            0 <= py < rows,
            0 <= row,
    ;
}

impl CursorView {
    /// After `clear` every pixel of the drawing surface reads back as the
    /// colour it was cleared with.
    pub proof fn lemma_clear_reads_back(self, color: u32, x: int, y: int)
        requires
            self.wf(),
            self.in_bounds(x, y),
        ensures
            self.clear(color).pixel(x, y) == color,
            self.clear(color).color_bg == color,
    {
        lemma_index_in_surface(x, y, self.width, self.height);
    }

    /// A pixel written on the surface reads back; every other pixel keeps
    /// its colour.
    pub proof fn lemma_write_pixel_reads_back(self, x: int, y: int, color: u32, u: int, v: int)
        requires
            self.wf(),
            self.in_bounds(x, y),
            self.in_bounds(u, v),
        ensures
            self.write_pixel(x, y, color).pixel(u, v) == if u == x && v == y {
                color
            } else {
                self.pixel(u, v)
            },
    {
        lemma_index_in_surface(x, y, self.width, self.height);
        lemma_index_in_surface(u, v, self.width, self.height);
        lemma_index_row_col(x, y, self.width);
        lemma_index_row_col(u, v, self.width);
    }

    /// A glyph drawn at `(x0, y0)` reads back from the surface: inside its
    /// box a pixel has the foreground colour where the glyph has a
    /// foreground bit and its former colour where it has none; outside the
    /// box every pixel has its former colour.
    pub proof fn lemma_glyph_reads_back(
        self,
        glyph: Seq<u8>,
        gw: int,
        gh: int,
        x0: int,
        y0: int,
        x: int,
        y: int,
    )
        requires
            self.wf(),
            self.in_bounds(x, y),
        ensures
            self.stamp(glyph, gw, gh, x0, y0).pixel(x, y) == if y - y0 < gh && glyph_pixel(
                glyph,
                gw,
                x - x0,
                y - y0,
            ) {
                self.color_fg
            } else {
                self.pixel(x, y)
            },
            !(x0 <= x < x0 + gw && y0 <= y < y0 + gh) ==> self.stamp(glyph, gw, gh, x0, y0).pixel(
                x,
                y,
            ) == self.pixel(x, y),
    {
        lemma_index_in_surface(x, y, self.width, self.height);
        lemma_index_row_col(x, y, self.width);
    }

    /// A character with a glyph, written where neither a wrap nor a scroll
    /// is due, reads back from its cell: the foreground colour where the
    /// glyph has a foreground bit, the former colour where it has none.
    pub proof fn lemma_char_reads_back(self, c: char, px: int, py: int)
        requires
            self.wf(),
            self.font is Some,
            c != '\n',
            self.font->0.has_glyph(c),
            !self.must_wrap(),
            self.cursor_on_surface(),
            0 <= px < self.glyph_width(),
            0 <= py < self.glyph_height(),
        ensures
            self.draw_char(c).pixel(self.x + px, self.y + py) == if glyph_pixel(
                self.font->0.glyph(c),
                self.glyph_width(),
                px,
                py,
            ) {
                self.color_fg
            } else {
                self.pixel(self.x + px, self.y + py)
            },
            self.draw_char(c).x == self.x + self.glyph_width(),
            self.draw_char(c).y == self.y,
    {
        let font = self.font->0;
        self.lemma_glyph_reads_back(
            font.glyph(c),
            font.header.width as int,
            font.header.height as int,
            self.x,
            self.y,
            self.x + px,
            self.y + py,
        );
    }

    /// A scroll moves every row up by one glyph height: a pixel reads what
    /// stood one glyph height below it, and the background colour in the
    /// band that came free at the bottom. The surface keeps its size.
    pub proof fn lemma_scroll_moves_rows(self, x: int, y: int)
        requires
            self.wf(),
            self.in_bounds(x, y),
        ensures
            self.scroll_up().pixels.len() == self.pixels.len(),
            self.scroll_up().pixel(x, y) == if y + self.glyph_height() < self.height {
                self.pixel(x, y + self.glyph_height())
            } else {
                self.color_bg
            },
    {
        let h = self.glyph_height();
        let w = self.width;
        lemma_index_in_surface(x, y, w, self.height);
        assert((y + h) * w == y * w + h * w) by (nonlinear_arith);
        if y + h < self.height {
            lemma_index_in_surface(x, y + h, w, self.height);
        } else {
            assert((y + h) * w >= self.height * w) by (nonlinear_arith)
                requires
                    y + h >= self.height,
                    0 <= w,
            ;
            assert(self.height * w == w * self.height) by (nonlinear_arith);
        }
    }

    /// Presenting cleans the console and shows what was drawn, and
    /// presenting again changes nothing.
    pub proof fn lemma_present_once(self)
        requires
            self.wf(),
        ensures
            !self.blit().dirty,
            self.blit().visible() == self.blit().pixels,
            self.blit().blit() == self.blit(),
    {
    }

    /// No drawing reaches the display before it is presented: of all the
    /// operations only `blit` changes the second surface of a console that
    /// has one.
    pub proof fn lemma_only_blit_shows(self, c: char, s: Seq<char>, x: int, y: int, color: u32)
        ensures
            self.clear(color).front == self.front,
            self.write_pixel(x, y, color).front == self.front,
            self.scroll_up().front == self.front,
            self.draw_char(c).front == self.front,
            self.write(s).front == self.front,
        decreases s.len(),
    {
        if s.len() > 0 {
            self.lemma_only_blit_shows(c, s.drop_last(), x, y, color);
            self.write(s.drop_last()).lemma_only_blit_shows(s.last(), Seq::empty(), x, y, color);
        }
    }

    /// Whatever changes a pixel of the drawing surface leaves the console
    /// dirty: `clear` always, `write_pixel` on the surface, `draw_char` when
    /// it draws or scrolls.
    pub proof fn lemma_drawing_sets_dirty(self, c: char, x: int, y: int, color: u32)
        requires
            self.wf(),
        ensures
            self.clear(color).dirty,
            self.scroll_up().dirty,
            self.in_bounds(x, y) ==> self.write_pixel(x, y, color).dirty,
            self.draw_char(c).pixels != self.pixels ==> self.draw_char(c).dirty,
    {
        let after = self.draw_char(c);
        if !after.dirty {
            let placed = self.place_char(c);
            assert(after == placed);
            assert(placed.pixels =~= self.pixels);
        }
    }

    /// Every operation of the console takes a valid state to a valid one.
    pub proof fn lemma_operations_keep_validity(
        self,
        c: char,
        x: int,
        y: int,
        color: u32,
        font: Font<'static>,
    )
        requires
            self.wf(),
        ensures
            self.bind_font(font).wf(),
            self.set_color_fg(color).wf(),
            0 <= x && 0 <= y ==> self.set_position(x, y).wf(),
            self.clear(color).wf(),
            self.write_pixel(x, y, color).wf(),
            self.blit().wf(),
            self.scroll_up().wf(),
            self.draw_char(c).wf(),
    {
        assert(self.bind_font(font).wf());
        assert(self.blit().wf());
        assert(self.clear(color).wf());
        assert(self.scroll_up().wf());
        if self.in_bounds(x, y) {
            lemma_index_in_surface(x, y, self.width, self.height);
        }
        assert(self.write_pixel(x, y, color).wf());
        self.lemma_place_char_keeps_validity(c);
    }

    /// Placing a character keeps the state valid.
    proof fn lemma_place_char_keeps_validity(self, c: char)
        requires
            self.wf(),
        ensures
            self.place_char(c).wf(),
            self.draw_char(c).wf(),
    {
        let placed = self.place_char(c);
        if !placed.dirty {
            assert(placed.pixels =~= self.pixels);
        }
    }

    /// Writing a string keeps the state valid.
    pub proof fn lemma_write_keeps_validity(self, s: Seq<char>)
        requires
            self.wf(),
        ensures
            self.write(s).wf(),
        decreases s.len(),
    {
        if s.len() > 0 {
            self.lemma_write_keeps_validity(s.drop_last());
            self.write(s.drop_last()).lemma_place_char_keeps_validity(s.last());
        }
    }

    /// Scrolling keeps the cursor's row on the surface: if a whole glyph
    /// fits below the cursor before a character is written, one fits after.
    /// After a newline the cursor is in column 0; after any other character
    /// it is no further right than the surface is wide, or one glyph width
    /// behind column 0 after a wrap.
    pub proof fn lemma_cursor_stays_on_surface(self, c: char)
        requires
            self.wf(),
            self.font is Some,
            self.cursor_on_surface(),
        ensures
            self.draw_char(c).cursor_on_surface(),
            c == '\n' ==> self.draw_char(c).x == 0,
            c != '\n' ==> self.draw_char(c).x <= self.width || self.draw_char(c).x
                == self.glyph_width(),
    {
    }

    /// Characters written from column 0 fill a row without a wrap as long as
    /// whole glyphs fit: after `n` characters, none of them a newline, with
    /// `n * glyph_width <= width`, the cursor is `n` glyph widths to the
    /// right, and still in its row if a whole glyph fitted below it.
    pub proof fn lemma_row_fills_without_wrap(self, s: Seq<char>)
        requires
            self.wf(),
            self.font is Some,
            self.x == 0,
            s.len() * self.glyph_width() <= self.width,
            forall|i: int| 0 <= i < s.len() ==> s[i] != '\n',
        ensures
            self.write(s).x == s.len() * self.glyph_width(),
            self.write(s).font == self.font,
            self.write(s).width == self.width,
            self.write(s).height == self.height,
            self.cursor_on_surface() ==> self.write(s).y == self.y,
        decreases s.len(),
    {
        let w = self.glyph_width();
        if s.len() > 0 {
            let init = s.drop_last();
            assert(init.len() * w + w == s.len() * w) by (nonlinear_arith)
                requires
                    init.len() + 1 == s.len(),
            ;
            self.lemma_row_fills_without_wrap(init);
            self.lemma_write_keeps_validity(init);
            let t = self.write(init);
            assert(!t.must_wrap());
            if self.cursor_on_surface() {
                assert(t.place_char(s.last()).cursor_on_surface());
            }
        } else {
            assert(s.len() * w == 0) by (nonlinear_arith)
                requires
                    s.len() == 0,
            ;
        }
    }

    /// Once `width / glyph_width` characters fill the row, the next one
    /// wraps: it is placed in column 0 one glyph height further down, which
    /// leaves the cursor one glyph width behind column 0; and where that row
    /// reaches below the surface, the scroll brings the cursor back to the
    /// row it came from.
    pub proof fn lemma_full_row_wraps(self, s: Seq<char>, c: char)
        requires
            self.wf(),
            self.font is Some,
            self.glyph_width() > 0,
            self.x == 0,
            self.cursor_on_surface(),
            s.len() == self.width / self.glyph_width(),
            forall|i: int| 0 <= i < s.len() ==> s[i] != '\n',
            c != '\n',
        ensures
            self.write(s).x == s.len() * self.glyph_width(),
            self.write(s).y == self.y,
            self.write(s).must_wrap(),
            self.write(s).place_char(c).x == self.glyph_width(),
            self.write(s).place_char(c).y == self.y + self.glyph_height(),
            self.write(s.push(c)).x == self.glyph_width(),
            self.write(s.push(c)).y == if self.y + 2 * self.glyph_height() <= self.height {
                self.y + self.glyph_height()
            } else {
                self.y
            },
    {
        let w = self.glyph_width();
        let n = self.width / w;
        vstd::arithmetic::div_mod::lemma_fundamental_div_mod(self.width, w);
        vstd::arithmetic::div_mod::lemma_mod_pos_bound(self.width, w);
        assert(w * n == n * w) by (nonlinear_arith);
        assert(0 <= n) by (nonlinear_arith)
            requires
                0 <= self.width,
                0 < w,
                self.width == n * w + self.width % w,
                self.width % w < w,
        ;
        self.lemma_row_fills_without_wrap(s);
        assert(s.push(c).drop_last() =~= s);
        assert(s.push(c).last() == c);
    }
}

} // verus!
