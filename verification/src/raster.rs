//! Index arithmetic of a row-major surface, and the steps by which a glyph
//! drawn pixel by pixel becomes the stamped surface of the model.

use crate::font::glyph_pixel;
use crate::view::{painted, CursorView};
use vstd::arithmetic::div_mod::{lemma_fundamental_div_mod, lemma_fundamental_div_mod_converse};
use vstd::prelude::*;

verus! {

/// A position on a `width` by `height` surface has its index inside the
/// surface.
pub proof fn lemma_index_in_surface(x: int, y: int, width: int, height: int)
    requires
        0 <= x < width,
        0 <= y < height,
    ensures
        0 <= y * width,
        y * width + x < width * height,
{
    assert(0 <= y * width) by (nonlinear_arith)
        requires
            0 <= y,
            0 <= width,
    ;
    assert((y + 1) * width <= height * width) by (nonlinear_arith)
        requires
            y + 1 <= height,
            0 <= width,
    ;
    assert((y + 1) * width == y * width + width) by (nonlinear_arith);
    assert(height * width == width * height) by (nonlinear_arith);
}

/// The index of a position gives back its row and its column.
pub proof fn lemma_index_row_col(x: int, y: int, width: int)
    requires
        0 <= x < width,
    ensures
        (y * width + x) / width == y,
        (y * width + x) % width == x,
{
    lemma_fundamental_div_mod_converse(y * width + x, width, y, x);
}

/// An index inside a `width` by `height` surface has its row and its column
/// on the surface, and is the index of that position.
pub proof fn lemma_row_col_of_index(i: int, width: int, height: int)
    requires
        0 <= width,
        0 <= height,
        0 <= i < width * height,
    ensures
        0 <= i % width < width,
        0 <= i / width < height,
        i == (i / width) * width + i % width,
{
    assert(width != 0) by (nonlinear_arith)
        requires
            0 <= i < width * height,
    ;
    lemma_fundamental_div_mod(i, width);
    let q = i / width;
    let r = i % width;
    assert(width * q == q * width) by (nonlinear_arith);
    assert(0 <= q < height) by (nonlinear_arith)
        requires
            i == q * width + r,
            0 <= r < width,
            0 <= i < width * height,
            0 <= height,
    ;
}

/// Of a `width` by `height` surface moved up by `rows` rows, the pixels of
/// `height - rows` rows stay, or none where `rows` reaches `height`.
pub proof fn lemma_rows_kept(rows: int, width: int, height: int)
    requires
        0 <= rows,
        0 <= width,
        0 <= height,
    ensures
        rows < height ==> 0 <= (height - rows) * width == width * height - rows * width,
        rows >= height ==> rows * width >= width * height,
{
    assert(rows < height ==> 0 <= (height - rows) * width) by (nonlinear_arith)
        requires
            0 <= width,
    ;
    assert((height - rows) * width == width * height - rows * width) by (nonlinear_arith);
    assert(rows >= height ==> rows * width >= width * height) by (nonlinear_arith)
        requires
            0 <= width,
    ;
}

impl CursorView {
    /// The pixel at index `i` is painted by the glyph and lies in a glyph
    /// row above `py`, or in row `py` left of column `px`.
    pub(crate) open spec fn painted_before(
        self,
        glyph: Seq<u8>,
        gw: int,
        gh: int,
        x0: int,
        y0: int,
        py: int,
        px: int,
        i: int,
    ) -> bool {
        &&& painted(self.pixels.len() as int, self.width, glyph, gw, gh, x0, y0, i)
        &&& (i / self.width - y0 < py || (i / self.width - y0 == py && i % self.width - x0 < px))
    }

    /// The state while a glyph is being drawn row by row, left to right:
    /// the glyph rows above `py` are drawn, and of row `py` the columns
    /// left of `px`.
    pub(crate) open spec fn stamp_partial(
        self,
        glyph: Seq<u8>,
        gw: int,
        gh: int,
        x0: int,
        y0: int,
        py: int,
        px: int,
    ) -> CursorView {
        CursorView {
            pixels: Seq::new(
                self.pixels.len(),
                |i: int|
                    if self.painted_before(glyph, gw, gh, x0, y0, py, px, i) {
                        self.color_fg
                    } else {
                        self.pixels[i]
                    },
            ),
            dirty: self.dirty || exists|i: int| #[trigger]
                self.painted_before(glyph, gw, gh, x0, y0, py, px, i),
            ..self
        }
    }

    /// Before the first pixel of a glyph nothing has changed.
    pub(crate) proof fn lemma_stamp_start(self, glyph: Seq<u8>, gw: int, gh: int, x0: int, y0: int)
        ensures
            self.stamp_partial(glyph, gw, gh, x0, y0, 0, 0) == self,
    {
        let p = self.stamp_partial(glyph, gw, gh, x0, y0, 0, 0);
        assert(p.pixels =~= self.pixels);
    }

    /// A glyph whose corner lies right of or below the surface leaves no
    /// trace.
    pub(crate) proof fn lemma_stamp_off_surface(self, glyph: Seq<u8>, gw: int, gh: int, x0: int, y0: int)
        requires
            self.wf(),
            x0 >= self.width || y0 >= self.height,
        ensures
            self.stamp(glyph, gw, gh, x0, y0) == self,
    {
        let s = self.stamp(glyph, gw, gh, x0, y0);
        assert forall|i: int| !painted(self.pixels.len() as int, self.width, glyph, gw, gh, x0, y0, i) by {
            if 0 <= i < self.pixels.len() {
                lemma_row_col_of_index(i, self.width, self.height);
            }
        }
        assert(s.pixels =~= self.pixels);
    }

    /// Drawing the pixel in column `px` of glyph row `py`: where the glyph
    /// has a foreground bit there, the pixel takes the foreground colour and
    /// the console is dirty; elsewhere nothing changes.
    pub(crate) proof fn lemma_stamp_step(
        self,
        glyph: Seq<u8>,
        gw: int,
        gh: int,
        x0: int,
        y0: int,
        py: int,
        px: int,
    )
        requires
            self.wf(),
            0 <= x0,
            0 <= y0,
            0 <= px < gw,
            0 <= py < gh,
            x0 + px < self.width,
            y0 + py < self.height,
        ensures
            self.stamp_partial(glyph, gw, gh, x0, y0, py, px + 1) == if glyph_pixel(
                glyph,
                gw,
                px,
                py,
            ) {
                self.stamp_partial(glyph, gw, gh, x0, y0, py, px).write_pixel(
                    x0 + px,
                    y0 + py,
                    self.color_fg,
                )
            } else {
                self.stamp_partial(glyph, gw, gh, x0, y0, py, px)
            },
    {
        let cur = self.stamp_partial(glyph, gw, gh, x0, y0, py, px);
        let next = self.stamp_partial(glyph, gw, gh, x0, y0, py, px + 1);
        let at = (y0 + py) * self.width + (x0 + px);
        lemma_index_in_surface(x0 + px, y0 + py, self.width, self.height);
        lemma_index_row_col(x0 + px, y0 + py, self.width);
        let hit = glyph_pixel(glyph, gw, px, py);
        assert(painted(self.pixels.len() as int, self.width, glyph, gw, gh, x0, y0, at) == hit);
        assert(self.painted_before(glyph, gw, gh, x0, y0, py, px + 1, at) == hit);
        assert(!self.painted_before(glyph, gw, gh, x0, y0, py, px, at));
        assert forall|i: int| i != at implies self.painted_before(
            glyph,
            gw,
            gh,
            x0,
            y0,
            py,
            px + 1,
            i,
        ) == self.painted_before(glyph, gw, gh, x0, y0, py, px, i) by {
            if 0 <= i < self.pixels.len() {
                lemma_row_col_of_index(i, self.width, self.height);
            }
        }
        let target = if hit {
            cur.write_pixel(x0 + px, y0 + py, self.color_fg)
        } else {
            cur
        };
        assert(next.pixels =~= target.pixels);
        if !hit {
            let px1 = px + 1;
            if exists|i: int| self.painted_before(glyph, gw, gh, x0, y0, py, px1, i) {
                let k = choose|i: int| self.painted_before(glyph, gw, gh, x0, y0, py, px1, i);
                assert(self.painted_before(glyph, gw, gh, x0, y0, py, px, k));
            }
            if exists|i: int| self.painted_before(glyph, gw, gh, x0, y0, py, px, i) {
                let k = choose|i: int| self.painted_before(glyph, gw, gh, x0, y0, py, px, i);
                assert(self.painted_before(glyph, gw, gh, x0, y0, py, px1, k));
            }
        }
    }

    /// At the end of a glyph row, clipped to the surface, the next row
    /// begins.
    pub(crate) proof fn lemma_stamp_row_end(
        self,
        glyph: Seq<u8>,
        gw: int,
        gh: int,
        x0: int,
        y0: int,
        py: int,
        cols: int,
    )
        requires
            self.wf(),
            0 <= x0 < self.width,
            cols == if gw <= self.width - x0 {
                gw
            } else {
                self.width - x0
            },
        ensures
            self.stamp_partial(glyph, gw, gh, x0, y0, py, cols) == self.stamp_partial(
                glyph,
                gw,
                gh,
                x0,
                y0,
                py + 1,
                0,
            ),
    {
        let a = self.stamp_partial(glyph, gw, gh, x0, y0, py, cols);
        let b = self.stamp_partial(glyph, gw, gh, x0, y0, py + 1, 0);
        assert forall|i: int|
            self.painted_before(glyph, gw, gh, x0, y0, py, cols, i) == self.painted_before(
                glyph,
                gw,
                gh,
                x0,
                y0,
                py + 1,
                0,
                i,
            ) by {
            if 0 <= i < self.pixels.len() {
                lemma_row_col_of_index(i, self.width, self.height);
            }
        }
        assert(a.pixels =~= b.pixels);
        let py1 = py + 1;
        if exists|i: int| self.painted_before(glyph, gw, gh, x0, y0, py, cols, i) {
            let k = choose|i: int| self.painted_before(glyph, gw, gh, x0, y0, py, cols, i);
            assert(self.painted_before(glyph, gw, gh, x0, y0, py1, 0, k));
        }
        if exists|i: int| self.painted_before(glyph, gw, gh, x0, y0, py1, 0, i) {
            let k = choose|i: int| self.painted_before(glyph, gw, gh, x0, y0, py1, 0, i);
            assert(self.painted_before(glyph, gw, gh, x0, y0, py, cols, k));
        }
    }

    /// After the last glyph row, clipped to the surface, the glyph is
    /// stamped.
    pub(crate) proof fn lemma_stamp_done(
        self,
        glyph: Seq<u8>,
        gw: int,
        gh: int,
        x0: int,
        y0: int,
        rows: int,
    )
        requires
            self.wf(),
            0 <= y0 < self.height,
            rows == if gh <= self.height - y0 {
                gh
            } else {
                self.height - y0
            },
        ensures
            self.stamp_partial(glyph, gw, gh, x0, y0, rows, 0) == self.stamp(glyph, gw, gh, x0, y0),
    {
        let a = self.stamp_partial(glyph, gw, gh, x0, y0, rows, 0);
        let b = self.stamp(glyph, gw, gh, x0, y0);
        assert forall|i: int|
            self.painted_before(glyph, gw, gh, x0, y0, rows, 0, i) == painted(self.pixels.len() as int, self.width, glyph, gw, gh, x0, y0, i) by {
            if 0 <= i < self.pixels.len() {
                lemma_row_col_of_index(i, self.width, self.height);
            }
        }
        assert(a.pixels =~= b.pixels);
        if exists|i: int| self.painted_before(glyph, gw, gh, x0, y0, rows, 0, i) {
            let k = choose|i: int| self.painted_before(glyph, gw, gh, x0, y0, rows, 0, i);
            assert(painted(self.pixels.len() as int, self.width, glyph, gw, gh, x0, y0, k));
        }
        if exists|i: int| painted(self.pixels.len() as int, self.width, glyph, gw, gh, x0, y0, i) {
            let k = choose|i: int| painted(self.pixels.len() as int, self.width, glyph, gw, gh, x0, y0, i);
            assert(self.painted_before(glyph, gw, gh, x0, y0, rows, 0, k));
        }
    }
}

} // verus!
