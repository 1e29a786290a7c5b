use spleen_font::{FONT_12X24, FONT_16X32, FONT_5X8, FONT_8X16};
use vibe_framebuffer::font::{
    read_msb_bit, row_bytes, Font, FontError, Psf2Header, PSF2_HEADER_LEN, PSF2_MAGIC,
};

/// A PSF2 blob with the given header fields, followed by `table`.
fn font_blob(
    header_size: u32,
    length: u32,
    char_size: u32,
    height: u32,
    width: u32,
    table: &[u8],
) -> Vec<u8> {
    let mut blob = Vec::new();
    blob.extend_from_slice(&PSF2_MAGIC);
    for field in [0u32, header_size, 0, length, char_size, height, width] {
        blob.extend_from_slice(&field.to_le_bytes());
    }
    blob.extend_from_slice(table);
    blob
}

#[test]
fn magic_is_the_psf2_signature() {
    assert_eq!(PSF2_MAGIC, [0x72, 0xb5, 0x4a, 0x86]);
    assert_eq!(PSF2_HEADER_LEN, 32);
}

#[test]
fn msb_bit_counts_from_the_left() {
    assert!(read_msb_bit(0x80, 0));
    assert!(!read_msb_bit(0x80, 1));
    assert!(read_msb_bit(0x01, 7));
    assert!(!read_msb_bit(0x01, 0));
    assert!(read_msb_bit(0b0010_0000, 2));
    for px in 0..8 {
        assert!(read_msb_bit(0xff, px));
        assert!(!read_msb_bit(0x00, px));
        assert_eq!(read_msb_bit(0b1011_0010, px), [true, false, true, true, false, false, true, false][px]);
    }
}

#[test]
fn msb_bit_goes_by_the_column_within_its_byte() {
    assert!(read_msb_bit(0x80, 8));
    assert!(read_msb_bit(0x80, 16));
    assert!(!read_msb_bit(0x80, 9));
    assert!(read_msb_bit(0x01, 15));
    assert!(read_msb_bit(0x10, 8 * 1000 + 3));
    assert_eq!(read_msb_bit(0x01, usize::MAX), usize::MAX % 8 == 7);
}

#[test]
fn row_bytes_rounds_up_to_whole_bytes() {
    assert_eq!(row_bytes(0), 0);
    assert_eq!(row_bytes(1), 1);
    assert_eq!(row_bytes(8), 1);
    assert_eq!(row_bytes(9), 2);
    assert_eq!(row_bytes(16), 2);
    assert_eq!(row_bytes(17), 3);
    assert_eq!(row_bytes(u32::MAX), 0x2000_0000);
}

#[test]
fn header_read_needs_thirty_two_bytes() {
    let blob = font_blob(32, 0, 0, 0, 0, &[]);
    assert!(Psf2Header::read(&blob).is_some());
    assert!(Psf2Header::read(&blob[..31]).is_none());
    assert!(Psf2Header::read(&[]).is_none());
}

#[test]
fn header_read_decodes_every_field() {
    let mut blob = vec![1u8, 2, 3, 4];
    for field in [0x11u32, 0x2222, 0x33_3333, 0x4444_4444, 5, 0x0600, 0x07_0000] {
        blob.extend_from_slice(&field.to_le_bytes());
    }
    let header = Psf2Header::read(&blob).unwrap();
    assert_eq!(header.magic, [1, 2, 3, 4]);
    assert_eq!(header.version, 0x11);
    assert_eq!(header.header_size, 0x2222);
    assert_eq!(header.flags, 0x33_3333);
    assert_eq!(header.length, 0x4444_4444);
    assert_eq!(header.char_size, 5);
    assert_eq!(header.height, 0x0600);
    assert_eq!(header.width, 0x07_0000);
    assert!(!header.has_valid_magic());
}

#[test]
fn valid_magic_is_recognised() {
    let blob = font_blob(32, 0, 0, 0, 0, &[]);
    assert!(Psf2Header::read(&blob).unwrap().has_valid_magic());
    for at in 0..4 {
        let mut bad = blob.clone();
        bad[at] ^= 0x01;
        assert!(!Psf2Header::read(&bad).unwrap().has_valid_magic());
    }
}

#[test]
fn sizes_agree_when_char_size_is_rows_of_whole_bytes() {
    let header = |char_size, height, width| {
        Psf2Header::read(&font_blob(32, 1, char_size, height, width, &[])).unwrap()
    };
    assert!(header(16, 16, 8).has_consistent_sizes());
    assert!(header(48, 24, 12).has_consistent_sizes());
    assert!(header(64, 32, 16).has_consistent_sizes());
    assert!(header(0, 0, 8).has_consistent_sizes());
    assert!(header(0, 8, 0).has_consistent_sizes());
    assert!(!header(24, 24, 12).has_consistent_sizes());
    assert!(!header(17, 16, 8).has_consistent_sizes());
    assert!(!header(0, u32::MAX, u32::MAX).has_consistent_sizes());
    assert!(header(0xe000_0000, 7, u32::MAX).has_consistent_sizes());
    for blob in [FONT_5X8, FONT_12X24, FONT_16X32] {
        assert!(Font::new(blob).unwrap().header.has_consistent_sizes());
    }
}

#[test]
fn load_rejects_blob_shorter_than_header() {
    assert!(matches!(Font::new(&PSF2_MAGIC), Err(FontError::InvalidFormat)));
    assert!(matches!(Font::new(&[]), Err(FontError::InvalidFormat)));
    let blob = font_blob(0, 0, 0, 0, 0, &[]);
    assert!(matches!(Font::new(&blob[..31]), Err(FontError::InvalidFormat)));
}

#[test]
fn load_rejects_wrong_magic() {
    let mut blob = font_blob(32, 1, 1, 1, 8, &[0xff]);
    assert!(Font::new(&blob).is_ok());
    blob[3] = 0x87;
    assert!(matches!(Font::new(&blob), Err(FontError::InvalidFormat)));
}

#[test]
fn load_rejects_header_size_beyond_the_blob() {
    let blob = font_blob(34, 1, 1, 1, 8, &[0xff]);
    assert_eq!(blob.len(), 33);
    assert!(matches!(Font::new(&blob), Err(FontError::InvalidFormat)));
    let blob = font_blob(33, 1, 1, 1, 8, &[0xff]);
    let font = Font::new(&blob).unwrap();
    assert!(font.glyphs.is_empty());
}

#[test]
fn load_takes_the_table_from_header_size_to_the_end() {
    let blob = font_blob(36, 2, 2, 2, 8, &[9, 9, 9, 9, 1, 2, 3, 4, 5]);
    let font = Font::new(&blob).unwrap();
    assert_eq!(font.header.header_size, 36);
    assert_eq!(font.header.length, 2);
    assert_eq!(font.header.char_size, 2);
    assert_eq!(font.header.height, 2);
    assert_eq!(font.header.width, 8);
    assert_eq!(font.glyphs, &[1, 2, 3, 4, 5]);
}

#[test]
fn load_accepts_a_table_that_overlaps_the_header() {
    let blob = font_blob(0, 1, 4, 1, 8, &[]);
    let font = Font::new(&blob).unwrap();
    assert_eq!(font.glyphs.len(), 32);
    assert_eq!(font.get_glyph('\0').unwrap(), &PSF2_MAGIC);
}

#[test]
fn load_succeeds_exactly_when_magic_and_table_are_there() {
    let whole = font_blob(32, 3, 2, 2, 8, &[1, 2, 3, 4, 5, 6]);
    assert!(Font::new(&whole).is_ok());
    let mut bad_magic = whole.clone();
    bad_magic[0] = 0;
    assert!(Font::new(&bad_magic).is_err());
    let header_cut = font_blob(40, 3, 2, 2, 8, &[1, 2, 3, 4, 5, 6]);
    assert!(Font::new(&header_cut).is_err());
}

#[test]
fn load_does_not_examine_the_glyph_table() {
    let cut_short = font_blob(32, 3, 2, 2, 8, &[1, 2, 3]);
    let font = Font::new(&cut_short).unwrap();
    assert_eq!(font.get_glyph('\0').unwrap(), &[1, 2]);
    assert!(matches!(font.get_glyph('\u{1}'), Err(FontError::GlyphOutOfRange)));
    assert!(matches!(font.get_glyph('\u{2}'), Err(FontError::GlyphOutOfRange)));
}

#[test]
fn get_glyph_returns_char_size_bytes_of_the_table() {
    let table: Vec<u8> = (0..12).collect();
    let blob = font_blob(32, 4, 3, 3, 8, &table);
    let font = Font::new(&blob).unwrap();
    assert_eq!(font.get_glyph('\0').unwrap(), &[0, 1, 2]);
    assert_eq!(font.get_glyph('\u{1}').unwrap(), &[3, 4, 5]);
    assert_eq!(font.get_glyph('\u{3}').unwrap(), &[9, 10, 11]);
    for code in 0..4u32 {
        let glyph = font.get_glyph(char::from_u32(code).unwrap()).unwrap();
        assert_eq!(glyph.len(), 3);
    }
}

#[test]
fn get_glyph_rejects_codes_from_the_glyph_count_on() {
    let table: Vec<u8> = (0..12).collect();
    let blob = font_blob(32, 3, 3, 3, 8, &table);
    let font = Font::new(&blob).unwrap();
    assert!(font.get_glyph('\u{2}').is_ok());
    assert!(matches!(font.get_glyph('\u{3}'), Err(FontError::GlyphOutOfRange)));
    assert!(matches!(font.get_glyph('A'), Err(FontError::GlyphOutOfRange)));
    assert!(matches!(font.get_glyph(char::MAX), Err(FontError::GlyphOutOfRange)));
}

#[test]
fn get_glyph_survives_the_largest_header_values() {
    let blob = font_blob(32, u32::MAX, u32::MAX, u32::MAX, u32::MAX, &[1, 2, 3]);
    let font = Font::new(&blob).unwrap();
    assert!(matches!(font.get_glyph('\0'), Err(FontError::GlyphOutOfRange)));
    assert!(matches!(font.get_glyph(char::MAX), Err(FontError::GlyphOutOfRange)));
}

#[test]
fn get_glyph_of_an_empty_bitmap_is_empty() {
    let blob = font_blob(32, 2, 0, 0, 0, &[]);
    let font = Font::new(&blob).unwrap();
    assert_eq!(font.get_glyph('\u{1}').unwrap(), &[] as &[u8]);
    assert!(matches!(font.get_glyph('\u{2}'), Err(FontError::GlyphOutOfRange)));
}

#[test]
fn glyph_outlives_the_font_value() {
    let blob = font_blob(32, 1, 2, 2, 8, &[0xaa, 0x55]);
    let glyph = {
        let font = Font::new(&blob).unwrap();
        font.get_glyph('\0').unwrap()
    };
    assert_eq!(glyph, &[0xaa, 0x55]);
}

#[test]
fn spleen_8x16_is_no_psf2_font() {
    assert_eq!(&FONT_8X16[..2], &[0x36, 0x04]);
    assert!(matches!(Font::new(FONT_8X16), Err(FontError::InvalidFormat)));
}

#[test]
fn spleen_16x32_loads() {
    let font = Font::new(FONT_16X32).unwrap();
    assert_eq!(font.header.magic, PSF2_MAGIC);
    assert_eq!(font.header.version, 0);
    assert_eq!(font.header.header_size, 32);
    assert_eq!(font.header.flags, 1);
    assert_eq!(font.header.length, 512);
    assert_eq!(font.header.char_size, 64);
    assert_eq!(font.header.height, 32);
    assert_eq!(font.header.width, 16);
    assert_eq!(font.header.char_size, row_bytes(font.header.width) * font.header.height);
    assert_eq!(font.glyphs, &FONT_16X32[32..]);
}

#[test]
fn spleen_12x24_and_5x8_load() {
    let font = Font::new(FONT_12X24).unwrap();
    assert_eq!((font.header.width, font.header.height), (12, 24));
    assert_eq!(font.header.char_size, 48);
    assert_eq!(row_bytes(font.header.width), 2);
    let font = Font::new(FONT_5X8).unwrap();
    assert_eq!((font.header.width, font.header.height), (5, 8));
    assert_eq!(font.header.char_size, 8);
    assert_eq!(row_bytes(font.header.width), 1);
}

#[test]
fn spleen_glyphs_are_slices_of_the_blob() {
    let font = Font::new(FONT_16X32).unwrap();
    for code in 0..font.header.length {
        let glyph = font.get_glyph(char::from_u32(code).unwrap()).unwrap();
        let start = 32 + code as usize * 64;
        assert_eq!(glyph, &FONT_16X32[start..start + 64]);
    }
    let beyond = char::from_u32(font.header.length).unwrap();
    assert!(matches!(font.get_glyph(beyond), Err(FontError::GlyphOutOfRange)));
}

#[test]
fn spleen_space_is_blank_and_letters_are_not() {
    let font = Font::new(FONT_16X32).unwrap();
    assert!(font.get_glyph(' ').unwrap().iter().all(|&b| b == 0));
    assert!(font.get_glyph('A').unwrap().iter().any(|&b| b != 0));
}

#[test]
fn spleen_blob_cut_inside_its_table_loads_and_fails_at_lookup() {
    let cut = &FONT_16X32[..32 + 64 * 65 + 63];
    let font = Font::new(cut).unwrap();
    assert!(font.get_glyph('@').is_ok());
    assert!(matches!(font.get_glyph('A'), Err(FontError::GlyphOutOfRange)));
}

#[test]
fn font_error_variants_differ() {
    assert_ne!(FontError::InvalidFormat, FontError::GlyphOutOfRange);
    assert_eq!(FontError::InvalidFormat, FontError::InvalidFormat);
}
