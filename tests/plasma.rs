use cube_plasma::plasma::{check_plasma_buffer, palette_glyph, plasma_glyphs, plasma_index, PlasmaError};
use cube_plasma::screen::{banner_layout, BannerLayout, ScreenGeometry};

#[test]
fn palette_divides_before_wrapping() {
    assert_eq!(palette_glyph(0, 0), '.');
    assert_eq!(palette_glyph(15, 0), '.');
    assert_eq!(palette_glyph(16, 0), ',');
    assert_eq!(palette_glyph(40, 8), '\'');
    assert_eq!(palette_glyph(255, 0), '@');
    assert_eq!(palette_glyph(256, 0), '.');
    assert_eq!(palette_glyph(128, 1000), '>');
    assert_eq!(palette_glyph(-5, 5), '.');
}

#[test]
fn negative_intensity_floors_toward_the_dense_end() {
    assert_eq!(palette_glyph(-1, 0), '@');
    assert_eq!(palette_glyph(-16, 0), '@');
    assert_eq!(palette_glyph(-17, 0), '#');
    assert_eq!(palette_glyph(i32::MIN, i32::MIN), '.');
}

#[test]
fn square_buffer_passes_size_check_on_wide_grid() {
    let g = ScreenGeometry { rows: 3, cols: 5 };
    assert_eq!(check_plasma_buffer(g, 9), Ok(()));
    assert_eq!(check_plasma_buffer(g, 15), Ok(()));
}

#[test]
fn short_buffer_fails_size_check() {
    let g = ScreenGeometry { rows: 3, cols: 5 };
    assert_eq!(check_plasma_buffer(g, 8), Err(PlasmaError::BufferTooSmall { len: 8, required: 9 }));
    let tall = ScreenGeometry { rows: 6, cols: 2 };
    assert_eq!(check_plasma_buffer(tall, 12), Err(PlasmaError::BufferTooSmall { len: 12, required: 36 }));
}

#[test]
fn empty_grid_needs_no_buffer() {
    let g = ScreenGeometry { rows: 0, cols: 80 };
    assert_eq!(check_plasma_buffer(g, 0), Ok(()));
    assert!(plasma_glyphs(g, &Vec::new(), 0).is_empty());
}

#[test]
fn rows_are_laid_out_with_the_height_as_stride() {
    let g = ScreenGeometry { rows: 3, cols: 5 };
    assert_eq!(plasma_index(g, 0, 0), 0);
    assert_eq!(plasma_index(g, 1, 2), 5);
    assert_eq!(plasma_index(g, 2, 4), 10);
    let big = ScreenGeometry { rows: u32::MAX, cols: u32::MAX };
    assert_eq!(plasma_index(big, u32::MAX, u32::MAX), u32::MAX as u64 * u32::MAX as u64 + u32::MAX as u64);
}

#[test]
fn plasma_glyphs_reads_slots_and_writes_row_major() {
    let g = ScreenGeometry { rows: 2, cols: 3 };
    // slot = row * 2 + col
    let levels = vec![0, 16, 32, 48, 64, 80];
    let glyphs = plasma_glyphs(g, &levels, 0);
    assert_eq!(glyphs, vec!['.', ',', ';', ';', '\'', '"']);
    let shifted = plasma_glyphs(g, &levels, 16);
    assert_eq!(shifted, vec![',', ';', '\'', '\'', '"', '<']);
}

#[test]
fn banner_is_centred_on_the_grid() {
    let g = ScreenGeometry { rows: 40, cols: 80 };
    assert_eq!(
        banner_layout(g, 17),
        BannerLayout {
            top: 19,
            bottom: 22,
            left: 23,
            right: 57,
            text_row: 20,
            text_col: 32,
            cursor_row: 39,
            cursor_col: 79,
        }
    );
    let small = banner_layout(ScreenGeometry { rows: 1, cols: 10 }, 17);
    assert_eq!((small.top, small.left, small.text_col, small.cursor_row), (-1, -12, -3, 0));
}
