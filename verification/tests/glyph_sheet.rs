use anchor::graphics::glyph_sheet2::{GlyphBounds, GlyphSheet};

#[test]
fn glyphs_fill_a_row_then_the_next() {
    let mut sheet = GlyphSheet::with_size(8, 4);
    assert_eq!((sheet.width(), sheet.height()), (8, 4));
    assert!(sheet.bytes().iter().all(|&b| b == 0));

    sheet.insert('a', &[1, 2, 3, 4], 2, 2);
    sheet.insert('b', &[5, 6, 7], 3, 1);
    // 'c' does not fit on the first row: it goes below the tallest glyph, at
    // the same column.
    sheet.insert('c', &[8, 9, 10], 3, 1);

    let bytes = sheet.bytes();
    assert_eq!(&bytes[0..8], &[1, 2, 5, 6, 7, 0, 0, 0]);
    assert_eq!(&bytes[8..16], &[3, 4, 0, 0, 0, 0, 0, 0]);
    assert_eq!(&bytes[16..24], &[0, 0, 0, 0, 0, 8, 9, 10]);
    assert_eq!(&bytes[24..32], &[0; 8]);
}

#[test]
fn glyph_bounds_new_keeps_fields() {
    let b = GlyphBounds::new(1, 2, 3, 4);
    assert_eq!((b.x, b.y, b.w, b.h), (1, 2, 3, 4));
}

#[test]
fn default_sheet_is_empty_and_square() {
    let sheet = GlyphSheet::default();
    assert_eq!((sheet.width(), sheet.height()), (256, 256));
    assert_eq!(sheet.bytes().len(), 65536);
    assert!(sheet.bytes().iter().all(|&b| b == 0));
}
