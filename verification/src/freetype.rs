//! Glyph data as handed out by the FreeType font rasteriser, converted to
//! plain values: error codes, metrics in pixels and rendered bitmaps.
use vstd::prelude::*;

verus! {

/// Integer division rounded towards zero, as Rust's `/` does.
pub open spec fn trunc_div(a: int, d: int) -> int {
    if a >= 0 {
        a / d
    } else {
        -((-a) / d)
    }
}

/// Glyph metrics as FreeType reports them, in 26.6 fixed point (1/64 pixel).
#[derive(Debug, Copy, Clone, PartialEq, Eq, Structural)]
pub struct FtGlyphMetrics {
    pub width: i64,
    pub height: i64,
    pub hori_bearing_x: i64,
    pub hori_bearing_y: i64,
    pub hori_advance: i64,
    pub vert_bearing_x: i64,
    pub vert_bearing_y: i64,
    pub vert_advance: i64,
}

/// Glyph metrics in whole pixels.
#[derive(Debug, Copy, Clone, PartialEq, Eq, Structural)]
pub struct GlyphMetrics {
    pub width: i64,
    pub height: i64,
    pub hori_bearing_x: i64,
    pub hori_bearing_y: i64,
    pub hori_advance: i64,
    pub vert_bearing_x: i64,
    pub vert_bearing_y: i64,
    pub vert_advance: i64,
}

/// A 26.6 fixed-point length in whole pixels, dropping the fraction.
pub open spec fn pixels(v: i64) -> int {
    trunc_div(v as int, 64)
}

impl GlyphMetrics {
    /// Converts each metric from 1/64 pixel to whole pixels, rounding towards
    /// zero.
    pub fn from_ft(metrics: FtGlyphMetrics) -> (r: GlyphMetrics)
        ensures
            r.width == pixels(metrics.width),
            r.height == pixels(metrics.height),
            r.hori_bearing_x == pixels(metrics.hori_bearing_x),
            r.hori_bearing_y == pixels(metrics.hori_bearing_y),
            r.hori_advance == pixels(metrics.hori_advance),
            r.vert_bearing_x == pixels(metrics.vert_bearing_x),
            r.vert_bearing_y == pixels(metrics.vert_bearing_y),
            r.vert_advance == pixels(metrics.vert_advance),
    {
        GlyphMetrics {
            width: metrics.width / 64,
            height: metrics.height / 64,
            hori_bearing_x: metrics.hori_bearing_x / 64,
            hori_bearing_y: metrics.hori_bearing_y / 64,
            hori_advance: metrics.hori_advance / 64,
            vert_bearing_x: metrics.vert_bearing_x / 64,
            vert_bearing_y: metrics.vert_bearing_y / 64,
            vert_advance: metrics.vert_advance / 64,
        }
    }
}

/// A rendered glyph bitmap: `rows` rows of `|pitch|` bytes each; `pitch` is
/// negative when rows are stored bottom-up.
#[derive(Debug, Clone)]
pub struct Bitmap {
    pub rows: u32,
    pub width: u32,
    pub pitch: i32,
    pub buffer: Vec<u8>,
}

/// Size in bytes of the pixel buffer of a bitmap.
pub open spec fn spec_buffer_len(rows: u32, pitch: i32) -> int {
    rows as int * (if pitch < 0 {
        -(pitch as int)
    } else {
        pitch as int
    })
}

impl Bitmap {
    /// Number of bytes in the pixel buffer: `rows * |pitch|`.
    pub fn buffer_len(rows: u32, pitch: i32) -> (r: usize)
        requires
            pitch != i32::MIN,
            spec_buffer_len(rows, pitch) <= usize::MAX,
        ensures
            r == spec_buffer_len(rows, pitch),
    {
        let p: u32 = if pitch < 0 {
            (-pitch) as u32
        } else {
            pitch as u32
        };
        rows as usize * p as usize
    }

    /// A bitmap holding a copy of `data`, which must be exactly the
    /// `rows * |pitch|` bytes of its pixel buffer.
    pub fn from_raw(rows: u32, width: u32, pitch: i32, data: &[u8]) -> (r: Bitmap)
        requires
            data@.len() == spec_buffer_len(rows, pitch),
        ensures
            r.rows == rows,
            r.width == width,
            r.pitch == pitch,
            r.buffer@ == data@,
    {
        let mut buffer: Vec<u8> = Vec::new();
        let mut i: usize = 0;
        while i < data.len()
            invariant
                0 <= i <= data@.len(),
                buffer@ == data@.take(i as int),
            decreases data@.len() - i,
        {
            buffer.push(data[i]);
            i = i + 1;
            assert(buffer@ =~= data@.take(i as int));
        }
        assert(data@.take(data@.len() as int) =~= data@);
        Bitmap { rows, width, pitch, buffer }
    }
}

/// A loaded glyph: its bitmap and its metrics.
#[derive(Debug, Clone)]
pub struct Glyph {
    pub bitmap: Bitmap,
    pub metrics: GlyphMetrics,
}

} // verus!
