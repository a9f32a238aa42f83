//! Properties of the frame pipeline that span several functions or calls.

use vstd::prelude::*;
use vstd::string::StringSliceAdditionalSpecFns;
use vstd::utf8::encode_utf8;
use crate::driver::{
    chunk_start, chunk_stored, frame_image, frame_size, has_ffc_marker, has_magic, has_visual,
    jpg_size, next_ffc_state, overlay_text, sends_thermal, store_chunk, thermal_size,
    visual_bytes, FrameView, HEADER_LEN,
};
use crate::font::{font_bit, glyph_covers, glyph_index, render_glyph, render_text, FONT5X7_BASIC};
use crate::frame::{
    center_value, colorized, contrast_delta, first_line, marker_offset, normalized_frame,
    normalized_value, overlay_frame, raw_pixel, second_line, thermal_stats,
};
use crate::v4l2::{output_pix_format, v4l2_pix_format};
use crate::geometry::{BUF85SIZE, FRAME_HEIGHT0, FRAME_WIDTH0, OUTPUT_PIXELS};

verus! {

/// Drawing text only ever blackens pixels: the frame keeps its length, and
/// each pixel either keeps its value or becomes 0.
pub proof fn law_text_only_blackens(fb: Seq<u8>, x: int, y: int, text: Seq<u8>)
    ensures
        render_text(fb, x, y, text).len() == fb.len(),
        forall|i: int|
            0 <= i < fb.len() ==> #[trigger] render_text(fb, x, y, text)[i] == fb[i]
                || render_text(fb, x, y, text)[i] == 0,
    decreases text.len(),
{
    if text.len() > 0 {
        law_text_only_blackens(fb, x, y, text.drop_last());
    }
}

/// Drawing text leaves alone every pixel that no glyph of it covers.
pub proof fn law_text_keeps_uncovered(fb: Seq<u8>, x: int, y: int, text: Seq<u8>, i: int)
    requires
        0 <= i < fb.len(),
        forall|k: int| 0 <= k < text.len() ==> !glyph_covers(#[trigger] text[k], x + 6 * k, y, i),
    ensures
        render_text(fb, x, y, text)[i] == fb[i],
    decreases text.len(),
{
    if text.len() > 0 {
        let init = text.drop_last();
        assert forall|k: int| 0 <= k < init.len() implies !glyph_covers(
            #[trigger] init[k],
            x + 6 * k,
            y,
            i,
        ) by {
            assert(init[k] == text[k]);
        }
        law_text_only_blackens(fb, x, y, init);
        law_text_keeps_uncovered(fb, x, y, init, i);
        assert(!glyph_covers(text[text.len() - 1], x + 6 * (text.len() - 1), y, i));
    }
}

/// The coldest value of an image is drawn black (gray level 0).
pub proof fn law_coldest_is_black(min: int, max: int)
    ensures
        normalized_value(min, min, max) == 0,
{
}

/// Contrast normalization keeps the order of pixel values: a hotter pixel is
/// never drawn darker than a colder one. It fails only where the hottest
/// value of a spread that divides 65536 wraps to gray level 0 (as with
/// `min = 0`, `max = 2`: 1 is drawn 128 and 2 is drawn 0), so that case is
/// left out.
pub proof fn law_normalization_monotone(p: int, q: int, min: int, max: int)
    requires
        0 <= min <= p <= q <= max,
        !(q - min == contrast_delta(min, max) && 65536int % contrast_delta(min, max) == 0),
    ensures
        normalized_value(p, min, max) <= normalized_value(q, min, max),
{
    let delta = contrast_delta(min, max);
    let s = 65536int / delta;
    let a = p - min;
    let b = q - min;
    assert(1 <= delta);
    assert(b <= delta);
    assert(a * s <= b * s) by (nonlinear_arith)
        requires
            0 <= a <= b,
            0 <= s,
    ;
    assert(delta * s <= 65536) by (nonlinear_arith)
        requires
            1 <= delta,
            s == 65536int / delta,
    ;
    assert(b * s <= delta * s) by (nonlinear_arith)
        requires
            0 <= b <= delta,
            0 <= s,
    ;
    if b * s == 65536 {
        assert(b == delta && delta * s == 65536) by (nonlinear_arith)
            requires
                0 <= b <= delta,
                1 <= delta,
                s == 65536int / delta,
                b * s == 65536,
                delta * s <= 65536,
        ;
        assert(65536int % delta == 0) by (nonlinear_arith)
            requires
                delta * s == 65536,
                1 <= delta,
        ;
    }
    assert(0 <= a * s <= b * s < 65536) by (nonlinear_arith)
        requires
            0 <= a <= b,
            0 <= s,
            a * s <= b * s,
            b * s <= 65536,
            b * s != 65536,
    ;
    assert((a * s) / 256 <= (b * s) / 256 < 256) by (nonlinear_arith)
        requires
            0 <= a * s <= b * s < 65536,
    ;
}

/// The average around the center lies between the coldest and the hottest
/// value, so the three temperatures shown are in order.
pub proof fn law_center_within_range(pix: Seq<u16>, min: int, max: int, maxx: int, maxy: int)
    requires
        thermal_stats(pix, min, max, maxx, maxy),
    ensures
        min <= center_value(pix) <= max,
{
    let cy = FRAME_HEIGHT0 / 2;
    let cx = FRAME_WIDTH0 / 2;
    let i0 = (cy - 1) * FRAME_WIDTH0 + (cx - 1);
    let i1 = (cy - 1) * FRAME_WIDTH0 + cx;
    let i2 = cy * FRAME_WIDTH0 + (cx - 1);
    let i3 = cy * FRAME_WIDTH0 + cx;
    assert(min <= pix[i0] <= max);
    assert(min <= pix[i1] <= max);
    assert(min <= pix[i2] <= max);
    assert(min <= pix[i3] <= max);
}

/// The hot-spot markers stay inside the image: the row marker's row is in
/// `0..=50` and the column marker's column in `0..=70`, whatever the hot spot.
pub proof fn law_markers_inside(maxx: int, maxy: int)
    ensures
        0 <= marker_offset(maxx, FRAME_WIDTH0 - 10) <= FRAME_WIDTH0 - 10,
        0 <= marker_offset(maxy, FRAME_HEIGHT0 - 10) <= FRAME_HEIGHT0 - 10,
{
}

/// A chunk that opens with the frame magic restarts the frame: it is stored
/// from the start of the buffer, so the buffer then opens with the magic
/// too and is never dropped as bad.
pub proof fn law_magic_chunk_restarts(buffer: Seq<u8>, pointer: int, chunk: Seq<u8>)
    requires
        buffer.len() == BUF85SIZE,
        0 <= pointer <= BUF85SIZE,
        has_magic(chunk),
    ensures
        chunk_start(pointer, chunk) == 0,
        store_chunk(buffer, pointer, chunk).take(chunk_stored(pointer, chunk)) == chunk.take(
            chunk_stored(pointer, chunk),
        ),
        has_magic(store_chunk(buffer, pointer, chunk)),
{
    let b = store_chunk(buffer, pointer, chunk);
    let n = chunk_stored(pointer, chunk);
    assert(b.take(n) =~= chunk.take(n));
    assert(b[0] == chunk[0] && b[1] == chunk[1] && b[2] == chunk[2] && b[3] == chunk[3]);
}

/// A chunk that holds a whole frame (the magic, the header and the payload
/// the header announces, and no more than the buffer) completes that frame
/// at once: the buffer then holds the chunk from its start, and the fill
/// position reaches the end of the frame.
pub proof fn law_whole_frame_chunk(buffer: Seq<u8>, pointer: int, chunk: Seq<u8>)
    requires
        buffer.len() == BUF85SIZE,
        0 <= pointer <= BUF85SIZE,
        has_magic(chunk),
        HEADER_LEN <= chunk.len() <= BUF85SIZE,
        frame_size(chunk) + HEADER_LEN <= chunk.len(),
    ensures
        ({
            let b = store_chunk(buffer, pointer, chunk);
            let end = chunk_start(pointer, chunk) + chunk_stored(pointer, chunk);
            &&& end == chunk.len()
            &&& b.take(chunk.len() as int) == chunk
            &&& has_magic(b)
            &&& HEADER_LEN <= end
            &&& frame_size(b) + HEADER_LEN <= end
        }),
{
    let b = store_chunk(buffer, pointer, chunk);
    assert(b.take(chunk.len() as int) =~= chunk);
    assert(b[0] == chunk[0] && b[1] == chunk[1] && b[2] == chunk[2] && b[3] == chunk[3]);
    assert(b[8] == chunk[8] && b[9] == chunk[9] && b[10] == chunk[10] && b[11] == chunk[11]);
}

/// After the camera marks a frame for flat-field correction, the next
/// unmarked frame is not sent, and the one after it is.
pub proof fn law_frame_after_ffc_skipped(state: int)
    ensures
        !sends_thermal(state, true),
        !sends_thermal(next_ffc_state(state, true), false),
        sends_thermal(next_ffc_state(next_ffc_state(state, true), false), false),
{
}

/// Every thermal image sent has the size that the thermal device is set up
/// for: three bytes per pixel of the 80x76 output frame.
pub proof fn law_thermal_image_size(f: FrameView, text: Seq<u8>, palette: Seq<u8>)
    ensures
        frame_image(f, text, palette).len() == 3 * OUTPUT_PIXELS,
{
    crate::frame::lemma_overlay_frame_len(
        crate::frame::normalized_frame(f.pixels, f.min, f.max),
        text,
        f.maxx,
        f.maxy,
    );
}

/// Drawing a concatenation draws its parts side by side: the second part
/// starts six pixels per byte of the first to the right.
pub proof fn law_text_concat(fb: Seq<u8>, x: int, y: int, s: Seq<u8>, t: Seq<u8>)
    ensures
        render_text(fb, x, y, s + t) == render_text(
            render_text(fb, x, y, s),
            x + 6 * s.len(),
            y,
            t,
        ),
    decreases t.len(),
{
    if t.len() == 0 {
        assert(s + t =~= s);
    } else {
        law_text_concat(fb, x, y, s, t.drop_last());
        assert((s + t).drop_last() =~= s + t.drop_last());
        assert((s + t).last() == t.last());
    }
}

/// The UTF-8 encoding of a concatenation is the concatenation of encodings.
pub proof fn lemma_encode_utf8_concat(a: Seq<char>, b: Seq<char>)
    ensures
        encode_utf8(a + b) == encode_utf8(a) + encode_utf8(b),
    decreases a.len(),
{
    if a.len() == 0 {
        assert(a + b =~= b);
        assert(encode_utf8(a) + encode_utf8(b) =~= encode_utf8(b));
    } else {
        lemma_encode_utf8_concat(a.drop_first(), b);
        assert((a + b).drop_first() =~= a.drop_first() + b);
        assert((a + b)[0] == a[0]);
        let e = vstd::utf8::encode_scalar(a[0] as u32);
        assert(e + (encode_utf8(a.drop_first()) + encode_utf8(b)) =~= (e + encode_utf8(
            a.drop_first(),
        )) + encode_utf8(b));
    }
}

/// `font_write` of a string `u` that is `s` followed by `t` draws as
/// `font_write` of `s` and then of `t`, six pixels per byte of `s` further
/// right.
pub proof fn law_font_write_concat(fb: Seq<u8>, x: int, y: int, s: &str, t: &str, u: &str)
    requires
        u@ == s@ + t@,
    ensures
        render_text(fb, x, y, u.spec_bytes()) == render_text(
            render_text(fb, x, y, s.spec_bytes()),
            x + 6 * s.spec_bytes().len(),
            y,
            t.spec_bytes(),
        ),
{
    lemma_encode_utf8_concat(s@, t@);
    law_text_concat(fb, x, y, s.spec_bytes(), t.spec_bytes());
}

/// Texts of the same length whose bytes pick the same glyphs draw alike: a
/// byte draws as the glyph of its low seven bits (so `C3 A9`, the UTF-8 of
/// `é`, draws as `C)`), and control bytes draw as the blank glyph.
pub proof fn law_same_glyphs_draw_alike(fb: Seq<u8>, x: int, y: int, s: Seq<u8>, t: Seq<u8>)
    requires
        s.len() == t.len(),
        forall|k: int| 0 <= k < s.len() ==> glyph_index(#[trigger] s[k]) == glyph_index(t[k]),
    ensures
        render_text(fb, x, y, s) == render_text(fb, x, y, t),
    decreases s.len(),
{
    if s.len() > 0 {
        let (s0, t0) = (s.drop_last(), t.drop_last());
        assert forall|k: int| 0 <= k < s0.len() implies glyph_index(#[trigger] s0[k])
            == glyph_index(t0[k]) by {
            assert(s0[k] == s[k] && t0[k] == t[k]);
        }
        law_same_glyphs_draw_alike(fb, x, y, s0, t0);
        let r = render_text(fb, x, y, s0);
        let xl = x + 6 * (s.len() - 1);
        assert(glyph_index(s.last()) == glyph_index(t.last()));
        assert(render_glyph(r, xl, y, s.last()) =~= render_glyph(r, xl, y, t.last()));
    }
}

/// Each byte takes one six-pixel cell and is drawn as the glyph of its low
/// seven bits (`byte & 0x7f`): texts of the same length whose bytes agree in
/// those bits draw alike.
pub proof fn law_low_seven_bits_draw(fb: Seq<u8>, x: int, y: int, s: Seq<u8>, t: Seq<u8>)
    requires
        s.len() == t.len(),
        forall|k: int| 0 <= k < s.len() ==> #[trigger] s[k] & 0x7f == t[k] & 0x7f,
    ensures
        render_text(fb, x, y, s) == render_text(fb, x, y, t),
{
    assert forall|k: int| 0 <= k < s.len() implies glyph_index(#[trigger] s[k]) == glyph_index(
        t[k],
    ) by {
        let (a, b) = (s[k], t[k]);
        assert(a & 0x7f == b & 0x7f ==> a % 128 == b % 128) by (bit_vector);
    }
    law_same_glyphs_draw_alike(fb, x, y, s, t);
}

/// `font_write` of two strings whose UTF-8 bytes agree in their low seven
/// bits, byte for byte, draws alike (as `"é"`, bytes `C3 A9`, and `"C)"`).
pub proof fn law_font_write_low_seven_bits(fb: Seq<u8>, x: int, y: int, s: &str, t: &str)
    requires
        s.spec_bytes().len() == t.spec_bytes().len(),
        forall|k: int|
            0 <= k < s.spec_bytes().len() ==> #[trigger] s.spec_bytes()[k] & 0x7f
                == t.spec_bytes()[k] & 0x7f,
    ensures
        render_text(fb, x, y, s.spec_bytes()) == render_text(fb, x, y, t.spec_bytes()),
{
    law_low_seven_bits_draw(fb, x, y, s.spec_bytes(), t.spec_bytes());
}

/// A chunk that does not open with the magic and fits after the fill
/// position is appended there: the buffer becomes its first `pointer` bytes,
/// the whole chunk, and the rest of the old buffer, and the frame then
/// extends to `pointer + chunk.len()`.
pub proof fn law_chunk_appended(buffer: Seq<u8>, pointer: int, chunk: Seq<u8>)
    requires
        buffer.len() == 1048576,
        0 <= pointer,
        !has_magic(chunk),
        pointer + chunk.len() < 1048576,
    ensures
        chunk_start(pointer, chunk) == pointer,
        chunk_start(pointer, chunk) + chunk_stored(pointer, chunk) == pointer + chunk.len(),
        store_chunk(buffer, pointer, chunk) == buffer.take(pointer) + chunk + buffer.skip(
            pointer + chunk.len(),
        ),
{
    assert(store_chunk(buffer, pointer, chunk) =~= buffer.take(pointer) + chunk + buffer.skip(
        pointer + chunk.len(),
    ));
}

/// A chunk that opens with the magic, or would reach the end of the buffer,
/// is stored from the start, as much of it as fits in the 1 MiB buffer.
pub proof fn law_chunk_restarts(buffer: Seq<u8>, pointer: int, chunk: Seq<u8>)
    requires
        buffer.len() == 1048576,
        0 <= pointer <= 1048576,
        has_magic(chunk) || pointer + chunk.len() >= 1048576,
    ensures
        chunk_start(pointer, chunk) == 0,
        chunk_stored(pointer, chunk) == if chunk.len() <= 1048576 {
            chunk.len() as int
        } else {
            1048576
        },
        chunk.len() <= 1048576 ==> store_chunk(buffer, pointer, chunk) == chunk + buffer.skip(
            chunk.len() as int,
        ),
{
    if chunk.len() <= 1048576 {
        assert(store_chunk(buffer, pointer, chunk) =~= chunk + buffer.skip(chunk.len() as int));
    }
}

/// A frame that arrives in two chunks, the first opening with the magic, both
/// together no longer than the buffer and the second not opening with the
/// magic, is reassembled whole: the buffer then holds the two chunks back
/// to back from its start, and its fill position is their total length.
pub proof fn law_two_chunk_frame(buffer: Seq<u8>, pointer: int, c1: Seq<u8>, c2: Seq<u8>)
    requires
        buffer.len() == 1048576,
        0 <= pointer <= 1048576,
        has_magic(c1),
        !has_magic(c2),
        c1.len() + c2.len() < 1048576,
    ensures
        ({
            let b1 = store_chunk(buffer, pointer, c1);
            let end1 = chunk_start(pointer, c1) + chunk_stored(pointer, c1);
            let b2 = store_chunk(b1, end1, c2);
            let end2 = chunk_start(end1, c2) + chunk_stored(end1, c2);
            &&& end1 == c1.len()
            &&& end2 == c1.len() + c2.len()
            &&& b2.take(end2) == c1 + c2
            &&& has_magic(b2)
        }),
{
    law_chunk_restarts(buffer, pointer, c1);
    let b1 = store_chunk(buffer, pointer, c1);
    law_chunk_appended(b1, c1.len() as int, c2);
    let b2 = store_chunk(b1, c1.len() as int, c2);
    assert(b2.take((c1.len() + c2.len()) as int) =~= c1 + c2);
    assert(b2[0] == c1[0] && b2[1] == c1[1] && b2[2] == c1[2] && b2[3] == c1[3]);
}

/// The header words are little-endian at offsets 8, 12 and 16; the JPEG image
/// follows the 28-byte header and the thermal part; the `FFC` marker sits 17
/// bytes after the JPEG image.
pub proof fn law_frame_layout(s: Seq<u8>)
    ensures
        frame_size(s) == s[8] + 256 * s[9] + 65536 * s[10] + 16777216 * s[11],
        thermal_size(s) == s[12] + 256 * s[13] + 65536 * s[14] + 16777216 * s[15],
        jpg_size(s) == s[16] + 256 * s[17] + 65536 * s[18] + 16777216 * s[19],
        has_visual(s) <==> 28 + thermal_size(s) + jpg_size(s) <= s.len(),
        visual_bytes(s) == s.subrange(
            28 + thermal_size(s),
            28 + thermal_size(s) + jpg_size(s),
        ),
        has_ffc_marker(s) <==> {
            let o = 28 + thermal_size(s) + jpg_size(s) + 17;
            o + 3 <= s.len() && s.subrange(o, o + 3) == seq![0x46u8, 0x46u8, 0x43u8]
        },
{
    let o = 28 + thermal_size(s) + jpg_size(s) + 17;
    if o + 3 <= s.len() {
        if s.subrange(o, o + 3) == seq![0x46u8, 0x46u8, 0x43u8] {
            assert(s.subrange(o, o + 3)[0] == s[o]);
            assert(s.subrange(o, o + 3)[1] == s[o + 1]);
            assert(s.subrange(o, o + 3)[2] == s[o + 2]);
        }
        if has_ffc_marker(s) {
            assert(s.subrange(o, o + 3) =~= seq![0x46u8, 0x46u8, 0x43u8]);
        }
    }
}

/// Thermal pixel `(x, y)` is the little-endian word at byte `164 y + 2 x + 32`
/// of the frame: 82 words per line, from byte 32 on.
pub proof fn law_pixel_layout(buf: Seq<u8>, x: int, y: int)
    requires
        0 <= x < 80,
        0 <= y < 60,
    ensures
        raw_pixel(buf, 80 * y + x) == (buf[164 * y + 2 * x + 32] + 256 * buf[164 * y + 2 * x
            + 33]) as u16,
{
    crate::geometry::lemma_row_col(80 * y + x, y, x);
}

/// The center reading averages the pixels at columns 39 and 40 of rows 29
/// and 30 (indices 29 * 80 + 39, 29 * 80 + 40, 30 * 80 + 39, 30 * 80 + 40),
/// rounding down.
pub proof fn law_center_pixels(pix: Seq<u16>)
    ensures
        center_value(pix) == (pix[2359] + pix[2360] + pix[2439] + pix[2440]) / 4,
{
}

/// Contrast scaling stretches the spread `max - min` over 256 gray levels:
/// a raw value `p` is drawn at `(p - min) * (65536 / (max - min)) / 256`,
/// wrapped to a byte, whatever the spread; a flat image is drawn black.
pub proof fn law_contrast_scaling(p: int, min: int, max: int)
    ensures
        min < max ==> normalized_value(p, min, max) == ((((p - min) * (65536int / (max
            - min))) / 256) % 256) as u8,
        min == max ==> normalized_value(p, min, max) == ((((p - min) * 65536) / 256) % 256) as u8,
        min == max && p == min ==> normalized_value(p, min, max) == 0,
{
}

/// The gray frame is 80x76: the thermal image scaled, row by row, over the
/// first 60 rows, and mid gray (128) in the 16-row text box below.
pub proof fn law_gray_frame_layout(pix: Seq<u16>, min: int, max: int, i: int)
    requires
        0 <= i < 6080,
    ensures
        normalized_frame(pix, min, max).len() == 6080,
        i < 4800 ==> normalized_frame(pix, min, max)[i] == normalized_value(pix[i] as int, min, max),
        i >= 4800 ==> normalized_frame(pix, min, max)[i] == 128,
{
}

/// The hot-spot markers follow the hot spot: four pixels before it, and
/// clamped to `0..=hi` only where that would leave the image.
pub proof fn law_markers_follow_hot_spot(v: int, hi: int)
    requires
        0 <= hi,
    ensures
        4 <= v <= hi + 4 ==> marker_offset(v, hi) == v - 4,
        v < 4 ==> marker_offset(v, hi) == 0,
        v > hi + 4 ==> marker_offset(v, hi) == hi,
        forall|w: int| v <= w ==> marker_offset(v, hi) <= #[trigger] marker_offset(w, hi),
{
}

/// The overlay text is the clock, a space, and the temperature text.
pub proof fn law_overlay_text(clock: Seq<u8>, temperatures: Seq<u8>)
    ensures
        overlay_text(clock, temperatures).len() == clock.len() + 1 + temperatures.len(),
        overlay_text(clock, temperatures).take(clock.len() as int) == clock,
        overlay_text(clock, temperatures)[clock.len() as int] == 0x20,
        overlay_text(clock, temperatures).skip(clock.len() + 1int) == temperatures,
{
    let t = overlay_text(clock, temperatures);
    assert(t.take(clock.len() as int) =~= clock);
    assert(t.skip(clock.len() + 1int) =~= temperatures);
}

/// The overlay text is split into lines of 13 glyphs: the first line holds
/// its first 13 bytes, the second the next 13, and the rest is not drawn.
pub proof fn law_overlay_lines(text: Seq<u8>)
    ensures
        text.len() <= 13 ==> first_line(text) == text && second_line(text).len() == 0,
        13 < text.len() <= 26 ==> first_line(text) + second_line(text) == text
            && first_line(text).len() == 13,
        26 < text.len() ==> first_line(text) + second_line(text) == text.take(26)
            && first_line(text).len() == 13,
{
    if 13 < text.len() {
        if text.len() <= 26 {
            assert(first_line(text) + second_line(text) =~= text);
        } else {
            assert(first_line(text) + second_line(text) =~= text.take(26));
        }
    }
}

/// A printable ASCII byte is drawn with its own entry of the font table
/// (entry `ch - 0x20`), control bytes with the blank first entry, and a byte
/// with the high bit set as the byte without it.
pub proof fn law_glyph_lookup(ch: u8)
    ensures
        0x20 <= ch < 0x80 ==> glyph_index(ch) == ch - 0x20,
        ch < 0x20 ==> glyph_index(ch) == 0,
        ch >= 0x80 ==> glyph_index(ch) == glyph_index((ch - 0x80) as u8),
        0 <= glyph_index(ch) < 96,
{
}

/// A glyph drawn at `(x, y)` blackens exactly the pixels `(x + c, y + r)`,
/// at index `80 (y + r) + x + c`, for the lit rows `r < 7` of its columns
/// `c < 5` (bit `r` of the column's font byte).
pub proof fn law_glyph_placement(ch: u8, x: int, y: int, i: int)
    ensures
        glyph_covers(ch, x, y, i) <==> exists|c: int, r: int|
            0 <= c < 5 && 0 <= r < 7 && i == 80 * (y + r) + x + c && #[trigger] font_bit(
                glyph_index(ch),
                c,
                r,
            ),
{
    let d = i - 80 * y - x;
    if glyph_covers(ch, x, y, i) {
        crate::geometry::lemma_row_col(d, d / 80, d % 80);
        assert(font_bit(glyph_index(ch), d % 80, d / 80));
    }
    if exists|c: int, r: int|
        0 <= c < 5 && 0 <= r < 7 && i == 80 * (y + r) + x + c && #[trigger] font_bit(
            glyph_index(ch),
            c,
            r,
        ) {
        let (c, r) = choose|c: int, r: int|
            0 <= c < 5 && 0 <= r < 7 && i == 80 * (y + r) + x + c && #[trigger] font_bit(
                glyph_index(ch),
                c,
                r,
            );
        crate::geometry::lemma_row_col(d, r, c);
    }
}

/// Lit rows of a glyph column are the set bits of its font byte.
pub proof fn law_font_bit(ci: int, c: int, r: int)
    requires
        0 <= ci < 96,
        0 <= c < 5,
        0 <= r < 7,
    ensures
        font_bit(ci, c, r) <==> (FONT5X7_BASIC@[ci]@[c] as int / crate::laws::pow2(r)) % 2 == 1,
{
    let b = FONT5X7_BASIC@[ci]@[c];
    let rr = r as u8;
    assert(((b >> rr) & 1u8 != 0u8) <==> ((b >> rr) % 2 == 1)) by (bit_vector);
    lemma_shift_is_div(b, rr);
}

/// `2^r`, for small `r`.
pub open spec fn pow2(r: int) -> int
    decreases r,
{
    if r <= 0 {
        1
    } else {
        2 * pow2(r - 1)
    }
}

proof fn lemma_shift_is_div(b: u8, r: u8)
    requires
        r < 7,
    ensures
        (b >> r) as int == b as int / pow2(r as int),
{
    reveal_with_fuel(pow2, 8);
    if r == 0 {
        assert(b >> 0u8 == b) by (bit_vector);
    } else if r == 1 {
        assert(b >> 1u8 == b / 2) by (bit_vector);
    } else if r == 2 {
        assert(b >> 2u8 == b / 4) by (bit_vector);
    } else if r == 3 {
        assert(b >> 3u8 == b / 8) by (bit_vector);
    } else if r == 4 {
        assert(b >> 4u8 == b / 16) by (bit_vector);
    } else if r == 5 {
        assert(b >> 5u8 == b / 32) by (bit_vector);
    } else {
        assert(b >> 6u8 == b / 64) by (bit_vector);
    }
}

/// Text drawing goes glyph by glyph: no text leaves the frame as it is, and
/// one byte draws its glyph.
pub proof fn law_text_single(fb: Seq<u8>, x: int, y: int, ch: u8)
    ensures
        render_text(fb, x, y, Seq::<u8>::empty()) == fb,
        render_text(fb, x, y, seq![ch]) == render_glyph(fb, x, y, ch),
{
    let one = seq![ch];
    assert(one.drop_last() =~= Seq::<u8>::empty());
    assert(render_text(fb, x, y, one.drop_last()) == fb);
    assert(one.last() == ch);
}

/// A drawn glyph blackens the pixels it covers and keeps all others.
pub proof fn law_glyph_blackens_covered(fb: Seq<u8>, x: int, y: int, ch: u8, i: int)
    requires
        0 <= i < fb.len(),
    ensures
        render_glyph(fb, x, y, ch).len() == fb.len(),
        render_glyph(fb, x, y, ch)[i] == if glyph_covers(ch, x, y, i) { 0u8 } else { fb[i] },
{
}

/// Colorizing takes three palette bytes per gray level: pixel `i` of gray
/// level `g` becomes palette bytes `3 g`, `3 g + 1`, `3 g + 2`.
pub proof fn law_colorize_layout(fb: Seq<u8>, palette: Seq<u8>, i: int, c: int)
    requires
        0 <= i < fb.len(),
        0 <= c < 3,
    ensures
        colorized(fb, palette).len() == 3 * fb.len(),
        colorized(fb, palette)[3 * i + c] == palette[3 * fb[i] + c],
{
    assert((3 * i + c) / 3 == i && (3 * i + c) % 3 == c);
}

/// The flat-field-correction states: only a frame that is not marked and
/// does not follow a marked one is sent.
pub proof fn law_ffc_states(state: int, is_ffc: bool)
    requires
        state == 0 || state == 1,
    ensures
        sends_thermal(state, is_ffc) <==> (state == 0 && !is_ffc),
        next_ffc_state(state, is_ffc) == if is_ffc { 1int } else { 0int },
{
}

/// The overlay's layout: the first text line at column 1 of row 60, the
/// second at column 1 of row 68, the crosshair `+` (byte 0x2b) at (38, 27),
/// the row marker `<` (0x3c) at column 74 and the column marker `|` (0x7c)
/// at row 52, each at its hot-spot coordinate.
pub proof fn law_overlay_layout(fb: Seq<u8>, text: Seq<u8>, maxx: int, maxy: int)
    ensures
        overlay_frame(fb, text, maxx, maxy) == render_glyph(
            render_glyph(
                render_glyph(
                    render_text(render_text(fb, 1, 60, first_line(text)), 1, 68, second_line(text)),
                    38,
                    27,
                    0x2b,
                ),
                74,
                marker_offset(maxy, 50),
                0x3c,
            ),
            marker_offset(maxx, 70),
            52,
            0x7c,
        ),
{
    let f1 = render_text(fb, 1, 60, first_line(text));
    law_text_single(f1, 1, 68, 0);
    let f2 = render_text(f1, 1, 68, second_line(text));
    law_text_single(f2, 38, 27, 0x2b);
    let f3 = render_glyph(f2, 38, 27, 0x2b);
    law_text_single(f3, 74, marker_offset(maxy, 50), 0x3c);
    let f4 = render_glyph(f3, 74, marker_offset(maxy, 50), 0x3c);
    law_text_single(f4, marker_offset(maxx, 70), 52, 0x7c);
    if second_line(text).len() == 0 {
        assert(second_line(text) =~= Seq::<u8>::empty());
    }
}

/// The thermal image is the gray frame with its overlay, colorized: byte
/// `3 i + c` is palette byte `3 g + c` for the gray level `g` of pixel `i`.
pub proof fn law_thermal_image_pipeline(f: FrameView, text: Seq<u8>, palette: Seq<u8>, i: int, c: int)
    requires
        0 <= i < 6080,
        0 <= c < 3,
    ensures
        frame_image(f, text, palette)[3 * i + c] == palette[3 * overlay_frame(
            normalized_frame(f.pixels, f.min, f.max),
            text,
            f.maxx,
            f.maxy,
        )[i] + c],
{
    let g = overlay_frame(normalized_frame(f.pixels, f.min, f.max), text, f.maxx, f.maxy);
    crate::frame::lemma_overlay_frame_len(normalized_frame(f.pixels, f.min, f.max), text, f.maxx, f.maxy);
    law_colorize_layout(g, palette, i, c);
}

/// A camera frame opens with the four bytes `ef be 00 00`.
pub proof fn law_magic(s: Seq<u8>)
    ensures
        has_magic(s) <==> s.len() >= 4 && s.take(4) == seq![0xefu8, 0xbeu8, 0x00u8, 0x00u8],
{
    if s.len() >= 4 {
        let m = seq![0xefu8, 0xbeu8, 0x00u8, 0x00u8];
        if has_magic(s) {
            assert(s.take(4) =~= m);
        }
        if s.take(4) == m {
            assert(s.take(4)[0] == s[0] && s.take(4)[1] == s[1]);
            assert(s.take(4)[2] == s[2] && s.take(4)[3] == s[3]);
        }
    }
}

/// The output pixel format takes the given size, pixel format, image size
/// and line length, sets progressive frames (field 1) and sRGB (colorspace
/// 8), and keeps the device's private, flag, encoding, quantization and
/// transfer words.
pub proof fn law_output_pix_format(
    current: v4l2_pix_format,
    width: u32,
    height: u32,
    pixelformat: u32,
    sizeimage: u32,
    bytesperline: u32,
)
    ensures
        ({
            let p = output_pix_format(current, width, height, pixelformat, sizeimage, bytesperline);
            &&& p.width == width && p.height == height
            &&& p.pixelformat == pixelformat
            &&& p.sizeimage == sizeimage && p.bytesperline == bytesperline
            &&& p.field == 1 && p.colorspace == 8
            &&& p.priv_field == current.priv_field && p.flags == current.flags
            &&& p.enc == current.enc && p.quantization == current.quantization
            &&& p.xfer_func == current.xfer_func
        }),
{
}

} // verus!
