//! PSF2 bitmap fonts: the fixed header, the glyph table and glyph lookup.

use vstd::prelude::*;
use vstd::slice::slice_subrange;

verus! {

/// Signature that opens every PSF2 font blob.
pub const PSF2_MAGIC: [u8; 4] = [0x72, 0xb5, 0x4a, 0x86];

/// Size in bytes of the fixed PSF2 header.
pub const PSF2_HEADER_LEN: usize = 32;

/// Why a font blob or a glyph lookup was refused.
#[derive(Clone, Copy, Debug, PartialEq, Eq, Structural)]
pub enum FontError {
    /// The blob is shorter than a header, does not open with the signature,
    /// or places its glyph table beyond its own end.
    InvalidFormat,
    /// The character has no glyph inside the glyph table.
    GlyphOutOfRange,
}

/// The fixed-size header of a PSF2 font.
#[derive(Clone, Copy, Debug)]
pub struct Psf2Header {
    pub magic: [u8; 4],
    pub version: u32,
    pub header_size: u32,
    pub flags: u32,
    /// Number of glyphs in the table.
    pub length: u32,
    /// Bytes per glyph bitmap.
    pub char_size: u32,
    /// Glyph height in pixels.
    pub height: u32,
    /// Glyph width in pixels.
    pub width: u32,
}

/// A font: its header and the bytes that follow the header in the blob.
#[derive(Clone, Copy, Debug)]
pub struct Font<'a> {
    pub header: Psf2Header,
    pub glyphs: &'a [u8],
}

/// Little-endian value of the four bytes of `b` that start at `at`.
pub open spec fn le_u32(b: Seq<u8>, at: int) -> int {
    b[at] + 0x100 * b[at + 1] + 0x1_0000 * b[at + 2] + 0x100_0000 * b[at + 3]
}

/// The blob opens with the PSF2 signature.
pub open spec fn has_magic(b: Seq<u8>) -> bool {
    b.len() >= 4 && b.subrange(0, 4) == PSF2_MAGIC@
}

/// `h` holds the eight header fields as they are laid out at the start of `b`.
pub open spec fn header_matches(h: Psf2Header, b: Seq<u8>) -> bool {
    &&& h.magic@ == b.subrange(0, 4)
    &&& h.version == le_u32(b, 4)
    &&& h.header_size == le_u32(b, 8)
    &&& h.flags == le_u32(b, 12)
    &&& h.length == le_u32(b, 16)
    &&& h.char_size == le_u32(b, 20)
    &&& h.height == le_u32(b, 24)
    &&& h.width == le_u32(b, 28)
}

/// The blobs that load as a font: a whole header, the signature, and a glyph
/// table that starts no later than the blob ends.
pub open spec fn loadable(b: Seq<u8>) -> bool {
    &&& b.len() >= PSF2_HEADER_LEN
    &&& has_magic(b)
    &&& le_u32(b, 8) <= b.len()
}

/// The blob holds every glyph that its header announces.
pub open spec fn table_fits(b: Seq<u8>) -> bool {
    le_u32(b, 8) + le_u32(b, 16) * le_u32(b, 20) <= b.len()
}

/// Bytes in one row of a glyph that is `width` pixels wide.
pub open spec fn bytes_per_row(width: int) -> int {
    (width + 7) / 8
}

/// The bit of `byte` that stands for pixel column `px` of a glyph row: bit
/// `px % 8`, counted from the most significant bit.
pub open spec fn msb_bit(byte: u8, px: int) -> bool {
    (byte >> (7 - px % 8) as u8) & 1u8 == 1u8
}

/// The pixel in column `px` of row `py` of a glyph bitmap is a foreground
/// pixel. Rows are `bytes_per_row(width)` bytes long, leftmost pixel in the
/// most significant bit; a position outside the bitmap is background.
pub open spec fn glyph_pixel(glyph: Seq<u8>, width: int, px: int, py: int) -> bool {
    let at = py * bytes_per_row(width) + px / 8;
    &&& 0 <= px < width
    &&& 0 <= py
    &&& at < glyph.len()
    &&& msb_bit(glyph[at], px)
}

/// Reads the little-endian `u32` stored at `at`.
fn read_le_u32(bytes: &[u8], at: usize) -> (v: u32)
    requires
        at + 4 <= bytes@.len(),
    ensures
        v == le_u32(bytes@, at as int),
{
    let b0: u32 = bytes[at] as u32;
    let b1: u32 = bytes[at + 1] as u32;
    let b2: u32 = bytes[at + 2] as u32;
    let b3: u32 = bytes[at + 3] as u32;
    b0 + 0x100 * b1 + 0x1_0000 * b2 + 0x100_0000 * b3
}

/// Bytes in one row of a glyph that is `width` pixels wide.
pub fn row_bytes(width: u32) -> (n: u32)
    ensures
        n == bytes_per_row(width as int),
{
    let extra: u32 = if width % 8 == 0 { 0 } else { 1 };
    width / 8 + extra
}

/// Reads the bit of `byte` that stands for pixel column `px` of a glyph
/// row.
pub fn read_msb_bit(byte: u8, px: usize) -> (set: bool)
    ensures
        set == msb_bit(byte, px as int),
{
    let k: u8 = (px % 8) as u8;
    (byte >> (7u8 - k)) & 1u8 == 1u8
}

impl Psf2Header {
    /// Reads the header at the start of `bytes`, whatever its signature.
    /// `None` when `bytes` is shorter than a header.
    pub fn read(bytes: &[u8]) -> (r: Option<Psf2Header>)
        ensures
            r is Some <==> bytes@.len() >= PSF2_HEADER_LEN,
            r matches Some(h) ==> header_matches(h, bytes@),
    {
        if bytes.len() < PSF2_HEADER_LEN {
            return None;
        }
        let magic: [u8; 4] = [bytes[0], bytes[1], bytes[2], bytes[3]];
        assert(magic@ =~= bytes@.subrange(0, 4));
        Some(
            Psf2Header {
                magic,
                version: read_le_u32(bytes, 4),
                header_size: read_le_u32(bytes, 8),
                flags: read_le_u32(bytes, 12),
                length: read_le_u32(bytes, 16),
                char_size: read_le_u32(bytes, 20),
                height: read_le_u32(bytes, 24),
                width: read_le_u32(bytes, 28),
            },
        )
    }

    /// The header carries the PSF2 signature.
    pub open spec fn magic_ok(&self) -> bool {
        self.magic@ == PSF2_MAGIC@
    }

    /// Tests the signature.
    pub fn has_valid_magic(&self) -> (ok: bool)
        ensures
            ok == self.magic_ok(),
    {
        let ok: bool = self.magic[0] == PSF2_MAGIC[0] && self.magic[1] == PSF2_MAGIC[1]
            && self.magic[2] == PSF2_MAGIC[2] && self.magic[3] == PSF2_MAGIC[3];
        assert(ok == (self.magic@ =~= PSF2_MAGIC@));
        ok
    }

    /// The bitmap size agrees with the glyph size: `char_size` is `height`
    /// rows of `bytes_per_row(width)` bytes.
    pub open spec fn sizes_agree(&self) -> bool {
        self.char_size == self.height * bytes_per_row(self.width as int)
    }

    /// Tests whether the bitmap size agrees with the glyph size.
    pub fn has_consistent_sizes(&self) -> (ok: bool)
        ensures
            ok == self.sizes_agree(),
    {
        let rows: u64 = self.height as u64;
        let row: u64 = row_bytes(self.width) as u64;
        assert(rows * row <= 0x1_0000_0000 * 0x2000_0000) by (nonlinear_arith)
            requires
                rows < 0x1_0000_0000,
                row <= 0x2000_0000,
        ;
        self.char_size as u64 == rows * row
    }
}

impl<'a> Font<'a> {
    /// This font is what loading `b` gives: the header read from the start
    /// of `b`, and as glyph table everything from `header_size` to the end.
    pub open spec fn loaded_from(&self, b: Seq<u8>) -> bool {
        &&& header_matches(self.header, b)
        &&& self.glyphs@ == b.subrange(self.header.header_size as int, b.len() as int)
    }

    /// The character has a glyph: its code is below the glyph count and its
    /// bitmap lies inside the glyph table.
    pub open spec fn has_glyph(&self, c: char) -> bool {
        &&& (c as int) < self.header.length
        &&& (c as int + 1) * self.header.char_size <= self.glyphs@.len()
    }

    /// The bitmap of the character: `char_size` bytes of the glyph table.
    pub open spec fn glyph(&self, c: char) -> Seq<u8> {
        self.glyphs@.subrange(
            c as int * self.header.char_size,
            c as int * self.header.char_size + self.header.char_size,
        )
    }

    /// Loads a font from a PSF2 blob, which it borrows. Only the header is
    /// examined; glyph bounds are checked at lookup.
    pub fn new(data: &'a [u8]) -> (r: Result<Font<'a>, FontError>)
        ensures
            r is Ok <==> loadable(data@),
            r matches Ok(font) ==> font.loaded_from(data@),
            r matches Err(e) ==> e == FontError::InvalidFormat,
    {
        let header = match Psf2Header::read(data) {
            Some(h) => h,
            None => { return Err(FontError::InvalidFormat); },
        };
        if !header.has_valid_magic() {
            return Err(FontError::InvalidFormat);
        }
        let glyphs_start: usize = header.header_size as usize;
        if glyphs_start > data.len() {
            return Err(FontError::InvalidFormat);
        }
        Ok(Font { header, glyphs: slice_subrange(data, glyphs_start, data.len()) })
    }

    /// Looks up the bitmap of a character: `char_size` bytes, row-major.
    pub fn get_glyph(&self, c: char) -> (r: Result<&'a [u8], FontError>)
        ensures
            r is Ok <==> self.has_glyph(c),
            r matches Ok(g) ==> g@ == self.glyph(c) && g@.len() == self.header.char_size,
            r matches Err(e) ==> e == FontError::GlyphOutOfRange,
    {
        let index: u64 = c as u64;
        let size: u64 = self.header.char_size as u64;
        if index >= self.header.length as u64 {
            return Err(FontError::GlyphOutOfRange);
        }
        assert(index * size <= 0x11_0000 * 0x1_0000_0000) by (nonlinear_arith)
            requires
                index < 0x11_0000,
                size < 0x1_0000_0000,
        ;
        let start: u64 = index * size;
        let end: u64 = start + size;
        assert(end == (c as int + 1) * self.header.char_size) by (nonlinear_arith)
            requires
                end == index * size + size,
                index == c as int,
                size == self.header.char_size,
        ;
        if end > self.glyphs.len() as u64 {
            return Err(FontError::GlyphOutOfRange);
        }
        Ok(slice_subrange(self.glyphs, start as usize, end as usize))
    }
}

} // verus!
