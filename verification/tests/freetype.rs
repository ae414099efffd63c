use minecrust::freetype::{Bitmap, FtGlyphMetrics, Glyph, GlyphMetrics};

#[test]
fn metrics_are_converted_to_whole_pixels() {
    let m = GlyphMetrics::from_ft(FtGlyphMetrics {
        width: 640,
        height: 700,
        hori_bearing_x: -65,
        hori_bearing_y: 63,
        hori_advance: 64,
        vert_bearing_x: -64,
        vert_bearing_y: -127,
        vert_advance: 129,
    });
    assert_eq!(m.width, 10);
    assert_eq!(m.height, 10);
    assert_eq!(m.hori_bearing_x, -1);
    assert_eq!(m.hori_bearing_y, 0);
    assert_eq!(m.hori_advance, 1);
    assert_eq!(m.vert_bearing_x, -1);
    assert_eq!(m.vert_bearing_y, -1);
    assert_eq!(m.vert_advance, 2);
}

#[test]
fn bitmap_buffer_length_uses_the_absolute_pitch() {
    assert_eq!(Bitmap::buffer_len(3, 4), 12);
    assert_eq!(Bitmap::buffer_len(3, -4), 12);
    assert_eq!(Bitmap::buffer_len(0, 9), 0);
    assert_eq!(Bitmap::buffer_len(2, i32::MAX), 2 * i32::MAX as usize);
}

#[test]
fn bitmap_copies_its_pixels() {
    let data = [1u8, 2, 3, 4, 5, 6];
    let b = Bitmap::from_raw(2, 3, -3, &data);
    assert_eq!(b.rows, 2);
    assert_eq!(b.width, 3);
    assert_eq!(b.pitch, -3);
    assert_eq!(b.buffer, data.to_vec());
    let g = Glyph { bitmap: b.clone(), metrics: GlyphMetrics::from_ft(FtGlyphMetrics {
        width: 192,
        height: 128,
        hori_bearing_x: 0,
        hori_bearing_y: 128,
        hori_advance: 256,
        vert_bearing_x: 0,
        vert_bearing_y: 0,
        vert_advance: 0,
    }) };
    assert_eq!(g.metrics.width, 3);
    assert_eq!(g.bitmap.buffer.len(), 6);
}
