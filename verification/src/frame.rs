//! The thermal image inside a camera frame: pixel extraction, statistics,
//! contrast normalization, the text overlay and colorization.

use vstd::prelude::*;
use crate::font::{draw_text, lemma_render_text_len, render_text};
use crate::geometry::{
    FRAME_HEIGHT0, FRAME_WIDTH0, LINE_OFFSET, LINE_STRIDE, OUTPUT_PIXELS, THERMAL_PIXELS,
};

verus! {

/// Smallest frame length that holds the whole thermal image.
pub const THERMAL_DATA_END: usize = 9868;

/// Byte offset in a camera frame of the low byte of thermal pixel `i`
/// (row-major, `FRAME_WIDTH0` pixels per row).
pub open spec fn pixel_offset(i: int) -> int {
    2 * (LINE_STRIDE * (i / (FRAME_WIDTH0 as int)) + i % (FRAME_WIDTH0 as int)) + LINE_OFFSET
}

/// Thermal pixel `i` of the camera frame `buf`: a little-endian 16-bit word.
pub open spec fn raw_pixel(buf: Seq<u8>, i: int) -> u16 {
    (buf[pixel_offset(i)] + 256 * buf[pixel_offset(i) + 1]) as u16
}

/// The thermal image of the camera frame `buf`, row by row.
pub open spec fn thermal_pixels(buf: Seq<u8>) -> Seq<u16> {
    Seq::new(THERMAL_PIXELS as nat, |i: int| raw_pixel(buf, i))
}

/// `min` is the smallest and `max` the largest value of `pix`, and
/// `(maxx, maxy)` is the first position, row by row, that holds `max`.
pub open spec fn thermal_stats(pix: Seq<u16>, min: int, max: int, maxx: int, maxy: int) -> bool {
    &&& pix.len() == THERMAL_PIXELS
    &&& forall|i: int| 0 <= i < pix.len() ==> min <= #[trigger] pix[i] <= max
    &&& exists|i: int| 0 <= i < pix.len() && #[trigger] pix[i] == min
    &&& 0 <= maxx < FRAME_WIDTH0
    &&& 0 <= maxy < FRAME_HEIGHT0
    &&& pix[FRAME_WIDTH0 * maxy + maxx] == max
    &&& forall|j: int| 0 <= j < FRAME_WIDTH0 * maxy + maxx ==> #[trigger] pix[j] < max
}

/// The thermal image of a camera frame, with its statistics.
pub struct ThermalScan {
    /// Pixel values, row by row.
    pub pix: Vec<u16>,
    /// Coldest pixel value.
    pub min: i32,
    /// Hottest pixel value.
    pub max: i32,
    /// Column of the first hottest pixel.
    pub maxx: usize,
    /// Row of the first hottest pixel.
    pub maxy: usize,
}

/// Reads the thermal image out of the camera frame `buf` and finds its
/// coldest value, hottest value and first hottest position.
pub fn scan_thermal(buf: &[u8]) -> (scan: ThermalScan)
    requires
        buf@.len() >= THERMAL_DATA_END,
    ensures
        scan.pix@ == thermal_pixels(buf@),
        thermal_stats(scan.pix@, scan.min as int, scan.max as int, scan.maxx as int, scan.maxy as int),
{
    let mut pix: Vec<u16> = Vec::new();
    let mut min: i32 = 0x10000;
    let mut max: i32 = 0;
    let mut maxx: usize = 0;
    let mut maxy: usize = 0;
    let ghost target = thermal_pixels(buf@);
    let mut y: usize = 0;
    while y < FRAME_HEIGHT0
        invariant
            buf@.len() >= THERMAL_DATA_END,
            target == thermal_pixels(buf@),
            y <= FRAME_HEIGHT0,
            pix@ == target.take(FRAME_WIDTH0 * y),
            maxx < FRAME_WIDTH0,
            maxy < FRAME_HEIGHT0,
            0 <= max <= 0xffff,
            0 <= min <= 0x10000,
            y == 0 ==> min == 0x10000 && max == 0 && maxx == 0 && maxy == 0,
            y > 0 ==> thermal_stats_prefix(pix@, min as int, max as int, maxx as int, maxy as int),
        decreases FRAME_HEIGHT0 - y,
    {
        let mut x: usize = 0;
        while x < FRAME_WIDTH0
            invariant
                buf@.len() >= THERMAL_DATA_END,
                target == thermal_pixels(buf@),
                y < FRAME_HEIGHT0,
                x <= FRAME_WIDTH0,
                pix@ == target.take(FRAME_WIDTH0 * y + x),
                maxx < FRAME_WIDTH0,
                maxy < FRAME_HEIGHT0,
                0 <= max <= 0xffff,
                0 <= min <= 0x10000,
                y == 0 && x == 0 ==> min == 0x10000 && max == 0 && maxx == 0 && maxy == 0,
                y > 0 || x > 0 ==> thermal_stats_prefix(pix@, min as int, max as int, maxx as int, maxy as int),
            decreases FRAME_WIDTH0 - x,
        {
            let ghost k = FRAME_WIDTH0 * y + x;
            proof {
                crate::geometry::lemma_row_col(k, y as int, x as int);
            }
            let offset = 2 * (y * LINE_STRIDE + x) + LINE_OFFSET;
            assert(offset == pixel_offset(k));
            let b0 = buf[offset];
            let b1 = buf[offset + 1];
            let v: u16 = (b0 as u16) | ((b1 as u16) << 8);
            assert(v == b0 + 256 * b1) by (bit_vector)
                requires v == (b0 as u16) | ((b1 as u16) << 8);
            assert(v == target[k]);
            let ghost prev = pix@;
            let ghost (min0, max0, pos0) = (min as int, max as int, FRAME_WIDTH0 * maxy + maxx);
            pix.push(v);
            if (v as i32) < min {
                min = v as i32;
            }
            if (v as i32) > max {
                max = v as i32;
                maxx = x;
                maxy = y;
            }
            assert(pix@ =~= target.take(k + 1));
            proof {
                // A witness for the coldest value so far.
                if k > 0 && v as int >= min0 {
                    let w = choose|i: int| 0 <= i < prev.len() && #[trigger] prev[i] == min0;
                    assert(pix@[w] == min);
                } else {
                    assert(pix@[k] == min);
                }
                // The first hottest position so far.
                if v as int <= max0 && k > 0 {
                    assert(pix@[pos0] == prev[pos0]);
                }
            }
            x = x + 1;
        }
        y = y + 1;
    }
    assert(pix@ =~= target);
    ThermalScan { pix, min, max, maxx, maxy }
}

/// `thermal_stats` of a prefix of the image.
spec fn thermal_stats_prefix(pix: Seq<u16>, min: int, max: int, maxx: int, maxy: int) -> bool {
    &&& pix.len() > 0
    &&& forall|i: int| 0 <= i < pix.len() ==> min <= #[trigger] pix[i] <= max
    &&& exists|i: int| 0 <= i < pix.len() && #[trigger] pix[i] == min
    &&& 0 <= maxx < FRAME_WIDTH0
    &&& 0 <= maxy < FRAME_HEIGHT0
    &&& FRAME_WIDTH0 * maxy + maxx < pix.len()
    &&& pix[FRAME_WIDTH0 * maxy + maxx] == max
    &&& forall|j: int| 0 <= j < FRAME_WIDTH0 * maxy + maxx ==> #[trigger] pix[j] < max
}

/// The spread of pixel values used for contrast scaling (1 for a flat image).
pub open spec fn contrast_delta(min: int, max: int) -> int {
    if max == min { 1 } else { max - min }
}

/// The contrast gain: how much one raw step is worth in 1/256 of a gray level.
pub open spec fn contrast_scale(min: int, max: int) -> int {
    65536int / contrast_delta(min, max)
}

/// Gray level of raw value `p`: `(p - min) * scale / 256`, wrapped to a byte.
pub open spec fn normalized_value(p: int, min: int, max: int) -> u8 {
    ((((p - min) * contrast_scale(min, max)) / 256) % 256) as u8
}

/// The gray frame of `pix`: the thermal image normalized, and the text box
/// below it filled with mid gray (128).
pub open spec fn normalized_frame(pix: Seq<u16>, min: int, max: int) -> Seq<u8> {
    Seq::new(
        OUTPUT_PIXELS as nat,
        |i: int|
            if i < THERMAL_PIXELS {
                normalized_value(pix[i] as int, min, max)
            } else {
                128u8
            },
    )
}

proof fn lemma_scaled_bound(d: int, delta: int)
    requires
        0 <= d <= delta,
        1 <= delta,
    ensures
        0 <= d * (65536int / delta) <= 65536,
{
    assert(0 <= d * (65536int / delta) <= delta * (65536int / delta)) by (nonlinear_arith)
        requires
            0 <= d <= delta,
            1 <= delta,
    ;
    assert(delta * (65536int / delta) <= 65536) by (nonlinear_arith)
        requires
            1 <= delta,
    ;
}

/// Scales the thermal image to gray levels between its coldest value `min`
/// and hottest value `max`, into a frame with a mid-gray text box below it.
pub fn normalize(pix: &Vec<u16>, min: i32, max: i32) -> (fb: Vec<u8>)
    requires
        pix@.len() == THERMAL_PIXELS,
        0 <= min,
        forall|i: int| 0 <= i < pix@.len() ==> min <= #[trigger] pix@[i] <= max,
    ensures
        fb@ == normalized_frame(pix@, min as int, max as int),
{
    assert(min <= pix@[0] <= max);
    let delta: u32 = if max == min { 1 } else { (max - min) as u32 };
    let scale: u32 = 0x10000 / delta;
    let mut fb: Vec<u8> = vec![128u8; OUTPUT_PIXELS];
    let ghost target = normalized_frame(pix@, min as int, max as int);
    assert(forall|i: int| 0 <= i < fb@.len() ==> fb@[i] == 128u8);
    let mut i: usize = 0;
    while i < THERMAL_PIXELS
        invariant
            pix@.len() == THERMAL_PIXELS,
            0 <= min <= max,
            forall|j: int| 0 <= j < pix@.len() ==> min <= #[trigger] pix@[j] <= max,
            delta == contrast_delta(min as int, max as int),
            scale == contrast_scale(min as int, max as int),
            target == normalized_frame(pix@, min as int, max as int),
            i <= THERMAL_PIXELS,
            fb@.len() == OUTPUT_PIXELS,
            forall|j: int| 0 <= j < i ==> fb@[j] == #[trigger] target[j],
            forall|j: int| i <= j < OUTPUT_PIXELS ==> fb@[j] == 128u8,
        decreases THERMAL_PIXELS - i,
    {
        let p = pix[i];
        assert(min <= pix@[i as int] <= max);
        let d: u32 = (p as i32 - min) as u32;
        proof {
            lemma_scaled_bound(d as int, delta as int);
        }
        let prod: u32 = d * scale;
        let v: u8 = (prod >> 8) as u8;
        assert(v == (prod / 256) % 256) by (bit_vector)
            requires v == (prod >> 8) as u8;
        fb[i] = v;
        i = i + 1;
    }
    assert(fb@ =~= target);
    fb
}

/// Number of glyphs that fit on one line of the text box.
pub const LINE_CHARS: usize = 13;

/// First line of the overlay text: its first `LINE_CHARS` bytes.
pub open spec fn first_line(text: Seq<u8>) -> Seq<u8> {
    if text.len() > LINE_CHARS { text.take(LINE_CHARS as int) } else { text }
}

/// Second line of the overlay text: the next `LINE_CHARS` bytes, if any;
/// the rest is dropped.
pub open spec fn second_line(text: Seq<u8>) -> Seq<u8> {
    if text.len() > LINE_CHARS {
        let rest = text.skip(LINE_CHARS as int);
        if rest.len() > LINE_CHARS { rest.take(LINE_CHARS as int) } else { rest }
    } else {
        Seq::empty()
    }
}

/// Position of a hot-spot marker for a hot spot at `v`: four pixels before
/// it, kept within `0..=hi`.
pub open spec fn marker_offset(v: int, hi: int) -> int {
    if v - 4 < 0 {
        0
    } else if v - 4 > hi {
        hi
    } else {
        v - 4
    }
}

/// Byte of the crosshair glyph `+`.
pub const CROSSHAIR: u8 = 0x2b;

/// Byte of the row marker glyph `<`.
pub const ROW_MARKER: u8 = 0x3c;

/// Byte of the column marker glyph `|`.
pub const COLUMN_MARKER: u8 = 0x7c;

/// The gray frame `fb` with the overlay drawn: the text on two lines of the
/// text box, a crosshair at the center, and markers on the right edge and
/// the bottom row pointing at the hot spot `(maxx, maxy)`.
pub open spec fn overlay_frame(fb: Seq<u8>, text: Seq<u8>, maxx: int, maxy: int) -> Seq<u8> {
    let f1 = render_text(fb, 1, FRAME_HEIGHT0 as int, first_line(text));
    let f2 = if second_line(text).len() > 0 {
        render_text(f1, 1, FRAME_HEIGHT0 + 8, second_line(text))
    } else {
        f1
    };
    let f3 = render_text(f2, FRAME_WIDTH0 / 2 - 2, FRAME_HEIGHT0 / 2 - 3, seq![CROSSHAIR]);
    let f4 = render_text(
        f3,
        FRAME_WIDTH0 - 6,
        marker_offset(maxy, FRAME_HEIGHT0 - 10),
        seq![ROW_MARKER],
    );
    render_text(f4, marker_offset(maxx, FRAME_WIDTH0 - 10), FRAME_HEIGHT0 - 8, seq![COLUMN_MARKER])
}

/// Drawing the overlay keeps the frame's length.
pub proof fn lemma_overlay_frame_len(fb: Seq<u8>, text: Seq<u8>, maxx: int, maxy: int)
    ensures
        overlay_frame(fb, text, maxx, maxy).len() == fb.len(),
{
    let f1 = render_text(fb, 1, FRAME_HEIGHT0 as int, first_line(text));
    lemma_render_text_len(fb, 1, FRAME_HEIGHT0 as int, first_line(text));
    lemma_render_text_len(f1, 1, FRAME_HEIGHT0 + 8, second_line(text));
    let f2 = if second_line(text).len() > 0 {
        render_text(f1, 1, FRAME_HEIGHT0 + 8, second_line(text))
    } else {
        f1
    };
    lemma_render_text_len(f2, FRAME_WIDTH0 / 2 - 2, FRAME_HEIGHT0 / 2 - 3, seq![CROSSHAIR]);
    let f3 = render_text(f2, FRAME_WIDTH0 / 2 - 2, FRAME_HEIGHT0 / 2 - 3, seq![CROSSHAIR]);
    let my = marker_offset(maxy, FRAME_HEIGHT0 - 10);
    lemma_render_text_len(f3, FRAME_WIDTH0 - 6, my, seq![ROW_MARKER]);
    let f4 = render_text(f3, FRAME_WIDTH0 - 6, my, seq![ROW_MARKER]);
    lemma_render_text_len(
        f4,
        marker_offset(maxx, FRAME_WIDTH0 - 10),
        FRAME_HEIGHT0 - 8,
        seq![COLUMN_MARKER],
    );
}

/// Draws the overlay of `overlay_frame` into `fb`.
pub fn draw_overlay(fb: &mut Vec<u8>, text: &[u8], maxx: usize, maxy: usize)
    ensures
        final(fb)@ == overlay_frame(old(fb)@, text@, maxx as int, maxy as int),
        final(fb)@.len() == old(fb)@.len(),
{
    proof {
        lemma_overlay_frame_len(fb@, text@, maxx as int, maxy as int);
    }
    let n = text.len();
    if n > LINE_CHARS {
        let line1 = vstd::slice::slice_subrange(text, 0, LINE_CHARS);
        draw_text(fb.as_mut_slice(), 1, FRAME_HEIGHT0, line1);
        let rest_len = n - LINE_CHARS;
        let end = if rest_len > LINE_CHARS { LINE_CHARS + LINE_CHARS } else { n };
        let line2 = vstd::slice::slice_subrange(text, LINE_CHARS, end);
        assert(line1@ =~= first_line(text@));
        assert(line2@ =~= second_line(text@));
        draw_text(fb.as_mut_slice(), 1, FRAME_HEIGHT0 + 8, line2);
    } else {
        draw_text(fb.as_mut_slice(), 1, FRAME_HEIGHT0, text);
        assert(second_line(text@) =~= Seq::<u8>::empty());
    }
    let plus: [u8; 1] = [CROSSHAIR];
    draw_text(fb.as_mut_slice(), FRAME_WIDTH0 / 2 - 2, FRAME_HEIGHT0 / 2 - 3, plus.as_slice());
    let mut maxx_adj: usize = if maxx < 4 { 0 } else { maxx - 4 };
    let mut maxy_adj: usize = if maxy < 4 { 0 } else { maxy - 4 };
    if maxx_adj > FRAME_WIDTH0 - 10 {
        maxx_adj = FRAME_WIDTH0 - 10;
    }
    if maxy_adj > FRAME_HEIGHT0 - 10 {
        maxy_adj = FRAME_HEIGHT0 - 10;
    }
    let row_marker: [u8; 1] = [ROW_MARKER];
    draw_text(fb.as_mut_slice(), FRAME_WIDTH0 - 6, maxy_adj, row_marker.as_slice());
    let column_marker: [u8; 1] = [COLUMN_MARKER];
    draw_text(fb.as_mut_slice(), maxx_adj, FRAME_HEIGHT0 - 8, column_marker.as_slice());
    assert(plus@ =~= seq![CROSSHAIR]);
    assert(row_marker@ =~= seq![ROW_MARKER]);
    assert(column_marker@ =~= seq![COLUMN_MARKER]);
}

/// Length of a palette: 256 RGB entries.
pub const PALETTE_LEN: usize = 768;

/// The RGB frame of the gray frame `fb`: gray level `g` becomes the three
/// palette bytes at `3 * g`.
pub open spec fn colorized(fb: Seq<u8>, colormap: Seq<u8>) -> Seq<u8> {
    Seq::new(3 * fb.len(), |j: int| colormap[3 * fb[j / 3] + j % 3])
}

/// Maps each gray level of `fb` to its RGB entry in `colormap`.
pub fn colorize(fb: &Vec<u8>, colormap: &Vec<u8>) -> (rgb: Vec<u8>)
    requires
        colormap@.len() >= PALETTE_LEN,
        3 * fb@.len() <= usize::MAX,
    ensures
        rgb@ == colorized(fb@, colormap@),
{
    let n = fb.len();
    let mut rgb: Vec<u8> = Vec::new();
    let ghost target = colorized(fb@, colormap@);
    let mut i: usize = 0;
    while i < n
        invariant
            n == fb@.len(),
            3 * n <= usize::MAX,
            colormap@.len() >= PALETTE_LEN,
            target == colorized(fb@, colormap@),
            i <= n,
            rgb@ == target.take(3 * i),
        decreases n - i,
    {
        let v = fb[i] as usize;
        rgb.push(colormap[3 * v]);
        rgb.push(colormap[3 * v + 1]);
        rgb.push(colormap[3 * v + 2]);
        assert((3 * i) / 3 == i && (3 * i + 1) / 3 == i && (3 * i + 2) / 3 == i);
        assert((3 * i) % 3 == 0 && (3 * i + 1) % 3 == 1 && (3 * i + 2) % 3 == 2);
        assert(rgb@ =~= target.take(3 * i + 3));
        i = i + 1;
    }
    assert(rgb@ =~= target);
    rgb
}

/// The colorized thermal output frame for an image `pix` with the given
/// statistics and overlay `text`.
pub open spec fn thermal_image(
    pix: Seq<u16>,
    min: int,
    max: int,
    maxx: int,
    maxy: int,
    text: Seq<u8>,
    colormap: Seq<u8>,
) -> Seq<u8> {
    colorized(overlay_frame(normalized_frame(pix, min, max), text, maxx, maxy), colormap)
}

/// Builds the colorized thermal output frame of a scanned image: contrast
/// normalization, the overlay with `text` and the hot-spot markers, then the
/// palette.
pub fn render_thermal_image(scan: &ThermalScan, text: &[u8], colormap: &Vec<u8>) -> (rgb: Vec<u8>)
    requires
        thermal_stats(scan.pix@, scan.min as int, scan.max as int, scan.maxx as int, scan.maxy as int),
        colormap@.len() >= PALETTE_LEN,
    ensures
        rgb@ == thermal_image(
            scan.pix@,
            scan.min as int,
            scan.max as int,
            scan.maxx as int,
            scan.maxy as int,
            text@,
            colormap@,
        ),
        rgb@.len() == 3 * OUTPUT_PIXELS,
{
    proof {
        let w = choose|i: int| 0 <= i < scan.pix@.len() && #[trigger] scan.pix@[i] == scan.min;
        assert(scan.pix@[w] == scan.min);
    }
    let mut fb = normalize(&scan.pix, scan.min, scan.max);
    draw_overlay(&mut fb, text, scan.maxx, scan.maxy);
    colorize(&fb, colormap)
}

/// Average of the four pixels around the image center, rounded down.
pub open spec fn center_value(pix: Seq<u16>) -> int {
    let cy = FRAME_HEIGHT0 / 2;
    let cx = FRAME_WIDTH0 / 2;
    (pix[(cy - 1) * FRAME_WIDTH0 + (cx - 1)] + pix[(cy - 1) * FRAME_WIDTH0 + cx] + pix[cy
        * FRAME_WIDTH0 + (cx - 1)] + pix[cy * FRAME_WIDTH0 + cx]) / 4
}

/// The average of the four pixels around the image center, rounded down.
pub fn center_average(pix: &Vec<u16>) -> (med: u32)
    requires
        pix@.len() == THERMAL_PIXELS,
    ensures
        med == center_value(pix@),
{
    let cy = FRAME_HEIGHT0 / 2;
    let cx = FRAME_WIDTH0 / 2;
    (pix[(cy - 1) * FRAME_WIDTH0 + (cx - 1)] as u32 + pix[(cy - 1) * FRAME_WIDTH0 + cx] as u32
        + pix[cy * FRAME_WIDTH0 + (cx - 1)] as u32 + pix[cy * FRAME_WIDTH0 + cx] as u32) / 4
}

} // verus!
