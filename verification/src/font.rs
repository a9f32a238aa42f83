//! The 5x7 bitmap font and the routine that stamps text into a frame.

use vstd::prelude::*;
use crate::geometry::{FRAME_WIDTH2, lemma_row_col};
use vstd::string::StringSliceAdditionalSpecFns;

verus! {

/// Number of glyphs in the font.
pub const MAX_CHARS: usize = 96;

/// Code of the first character that has a glyph.
pub const CHAR_OFFSET: usize = 0x20;

/// Glyphs for the printable ASCII range. Each glyph is five columns; bit `r`
/// of a column byte lights row `r`.
pub const FONT5X7_BASIC: [[u8; 5]; 96] = [
    [0x00, 0x00, 0x00, 0x00, 0x00], // (space)
    [0x00, 0x00, 0x5F, 0x00, 0x00], // !
    [0x00, 0x07, 0x00, 0x07, 0x00], // "
    [0x14, 0x7F, 0x14, 0x7F, 0x14], // #
    [0x24, 0x2A, 0x7F, 0x2A, 0x12], // $
    [0x23, 0x13, 0x08, 0x64, 0x62], // %
    [0x36, 0x49, 0x55, 0x22, 0x50], // &
    [0x00, 0x05, 0x03, 0x00, 0x00], // '
    [0x00, 0x1C, 0x22, 0x41, 0x00], // (
    [0x00, 0x41, 0x22, 0x1C, 0x00], // )
    [0x08, 0x2A, 0x1C, 0x2A, 0x08], // *
    [0x08, 0x08, 0x63, 0x08, 0x08], // +
    [0x00, 0x50, 0x30, 0x00, 0x00], // ,
    [0x08, 0x08, 0x08, 0x08, 0x08], // -
    [0x00, 0x60, 0x60, 0x00, 0x00], // .
    [0x20, 0x10, 0x08, 0x04, 0x02], // /
    [0x3E, 0x51, 0x49, 0x45, 0x3E], // 0
    [0x00, 0x42, 0x7F, 0x40, 0x00], // 1
    [0x42, 0x61, 0x51, 0x49, 0x46], // 2
    [0x21, 0x41, 0x45, 0x4B, 0x31], // 3
    [0x18, 0x14, 0x12, 0x7F, 0x10], // 4
    [0x27, 0x45, 0x45, 0x45, 0x39], // 5
    [0x3C, 0x4A, 0x49, 0x49, 0x30], // 6
    [0x01, 0x71, 0x09, 0x05, 0x03], // 7
    [0x36, 0x49, 0x49, 0x49, 0x36], // 8
    [0x06, 0x49, 0x49, 0x29, 0x1E], // 9
    [0x00, 0x36, 0x36, 0x00, 0x00], // :
    [0x00, 0x56, 0x36, 0x00, 0x00], // ;
    [0x00, 0x08, 0x14, 0x22, 0x41], // <
    [0x14, 0x14, 0x14, 0x14, 0x14], // =
    [0x41, 0x22, 0x14, 0x08, 0x00], // >
    [0x02, 0x01, 0x51, 0x09, 0x06], // ?
    [0x32, 0x49, 0x79, 0x41, 0x3E], // @
    [0x7E, 0x11, 0x11, 0x11, 0x7E], // A
    [0x7F, 0x49, 0x49, 0x49, 0x36], // B
    [0x3E, 0x41, 0x41, 0x41, 0x22], // C
    [0x7F, 0x41, 0x41, 0x22, 0x1C], // D
    [0x7F, 0x49, 0x49, 0x49, 0x41], // E
    [0x7F, 0x09, 0x09, 0x01, 0x01], // F
    [0x3E, 0x41, 0x41, 0x51, 0x32], // G
    [0x7F, 0x08, 0x08, 0x08, 0x7F], // H
    [0x00, 0x41, 0x7F, 0x41, 0x00], // I
    [0x20, 0x40, 0x41, 0x3F, 0x01], // J
    [0x7F, 0x08, 0x14, 0x22, 0x41], // K
    [0x7F, 0x40, 0x40, 0x40, 0x40], // L
    [0x7F, 0x02, 0x04, 0x02, 0x7F], // M
    [0x7F, 0x04, 0x08, 0x10, 0x7F], // N
    [0x3E, 0x41, 0x41, 0x41, 0x3E], // O
    [0x7F, 0x09, 0x09, 0x09, 0x06], // P
    [0x3E, 0x51, 0x49, 0x45, 0x3E], // Q
    [0x7F, 0x09, 0x19, 0x29, 0x46], // R
    [0x46, 0x49, 0x49, 0x49, 0x31], // S
    [0x01, 0x01, 0x7F, 0x01, 0x01], // T
    [0x3F, 0x40, 0x40, 0x40, 0x3F], // U
    [0x1F, 0x20, 0x40, 0x20, 0x1F], // V
    [0x7F, 0x20, 0x18, 0x20, 0x7F], // W
    [0x63, 0x14, 0x08, 0x14, 0x63], // X
    [0x03, 0x04, 0x78, 0x04, 0x03], // Y
    [0x61, 0x51, 0x49, 0x45, 0x43], // Z
    [0x00, 0x00, 0x7F, 0x41, 0x41], // [
    [0x02, 0x04, 0x08, 0x10, 0x20], // "\"
    [0x41, 0x41, 0x7F, 0x00, 0x00], // ]
    [0x04, 0x02, 0x01, 0x02, 0x04], // ^
    [0x40, 0x40, 0x40, 0x40, 0x40], // _
    [0x00, 0x01, 0x02, 0x04, 0x00], // `
    [0x20, 0x54, 0x54, 0x54, 0x78], // a
    [0x7F, 0x48, 0x44, 0x44, 0x38], // b
    [0x38, 0x44, 0x44, 0x44, 0x20], // c
    [0x38, 0x44, 0x44, 0x48, 0x7F], // d
    [0x38, 0x54, 0x54, 0x54, 0x18], // e
    [0x08, 0x7E, 0x09, 0x01, 0x02], // f
    [0x08, 0x14, 0x54, 0x54, 0x3C], // g
    [0x7F, 0x08, 0x04, 0x04, 0x78], // h
    [0x00, 0x44, 0x7D, 0x40, 0x00], // i
    [0x20, 0x40, 0x44, 0x3D, 0x00], // j
    [0x00, 0x7F, 0x10, 0x28, 0x44], // k
    [0x00, 0x41, 0x7F, 0x40, 0x00], // l
    [0x7C, 0x04, 0x18, 0x04, 0x78], // m
    [0x7C, 0x08, 0x04, 0x04, 0x78], // n
    [0x38, 0x44, 0x44, 0x44, 0x38], // o
    [0x7C, 0x14, 0x14, 0x14, 0x08], // p
    [0x08, 0x14, 0x14, 0x18, 0x7C], // q
    [0x7C, 0x08, 0x04, 0x04, 0x08], // r
    [0x48, 0x54, 0x54, 0x54, 0x20], // s
    [0x04, 0x3F, 0x44, 0x40, 0x20], // t
    [0x3C, 0x40, 0x40, 0x20, 0x7C], // u
    [0x1C, 0x20, 0x40, 0x20, 0x1C], // v
    [0x3C, 0x40, 0x30, 0x40, 0x3C], // w
    [0x44, 0x28, 0x10, 0x28, 0x44], // x
    [0x0C, 0x50, 0x50, 0x50, 0x3C], // y
    [0x44, 0x64, 0x54, 0x4C, 0x44], // z
    [0x00, 0x08, 0x36, 0x41, 0x00], // {
    [0x00, 0x00, 0x7F, 0x00, 0x00], // |
    [0x00, 0x41, 0x36, 0x08, 0x00], // }
    [0x08, 0x08, 0x2A, 0x1C, 0x08], // ->
    [0x08, 0x1C, 0x2A, 0x08, 0x08], // <-
];

/// Index in the font of the glyph drawn for byte `ch`: the high bit is
/// ignored and codes below the first glyph saturate to it.
pub open spec fn glyph_index(ch: u8) -> int {
    let c = ch as int % 128;
    if c < CHAR_OFFSET { 0 } else { c - CHAR_OFFSET }
}

/// Whether row `row` of column `col` of glyph `ci` is lit.
pub open spec fn font_bit(ci: int, col: int, row: int) -> bool {
    (FONT5X7_BASIC@[ci]@[col] >> row) & 1u8 != 0u8
}

/// Whether drawing byte `ch` with its top-left corner at `(x, y)` blackens
/// the pixel with index `i` of a frame `FRAME_WIDTH2` pixels wide.
/// Column `c` and row `r` of the glyph land on index `(y + r) * width + x + c`.
pub open spec fn glyph_covers(ch: u8, x: int, y: int, i: int) -> bool {
    let ci = glyph_index(ch);
    let d = i - FRAME_WIDTH2 * y - x;
    &&& ci < MAX_CHARS
    &&& 0 <= d
    &&& d / (FRAME_WIDTH2 as int) < 7
    &&& d % (FRAME_WIDTH2 as int) < 5
    &&& font_bit(ci, d % (FRAME_WIDTH2 as int), d / (FRAME_WIDTH2 as int))
}

/// The frame `fb` after drawing byte `ch` at `(x, y)`: covered pixels become 0.
pub open spec fn render_glyph(fb: Seq<u8>, x: int, y: int, ch: u8) -> Seq<u8> {
    Seq::new(fb.len(), |i: int| if glyph_covers(ch, x, y, i) { 0u8 } else { fb[i] })
}

/// The frame `fb` after drawing `text` from `(x, y)`, one glyph every six pixels.
pub open spec fn render_text(fb: Seq<u8>, x: int, y: int, text: Seq<u8>) -> Seq<u8>
    decreases text.len(),
{
    if text.len() == 0 {
        fb
    } else {
        render_glyph(
            render_text(fb, x, y, text.drop_last()),
            x + 6 * (text.len() - 1),
            y,
            text.last(),
        )
    }
}

/// Drawing text keeps the frame's length.
pub proof fn lemma_render_text_len(fb: Seq<u8>, x: int, y: int, text: Seq<u8>)
    ensures
        render_text(fb, x, y, text).len() == fb.len(),
    decreases text.len(),
{
    if text.len() > 0 {
        lemma_render_text_len(fb, x, y, text.drop_last());
    }
}

/// Glyph pixels drawn so far: all columns before `col`, and the rows before
/// `row` of column `col`.
spec fn glyph_partial(fb: Seq<u8>, x: int, y: int, ch: u8, col: int, row: int) -> Seq<u8> {
    Seq::new(
        fb.len(),
        |i: int|
            {
                let d = i - FRAME_WIDTH2 * y - x;
                let c = d % (FRAME_WIDTH2 as int);
                let r = d / (FRAME_WIDTH2 as int);
                if glyph_covers(ch, x, y, i) && (c < col || (c == col && r < row)) {
                    0u8
                } else {
                    fb[i]
                }
            },
    )
}

/// Draws the bytes of `text` into `fb` with its top-left corner at `(x, y)`,
/// one glyph every six pixels. Lit glyph pixels are set to 0 (black); pixels
/// that fall outside `fb` are skipped; every other pixel keeps its value.
pub fn draw_text(fb: &mut [u8], x: usize, y: usize, text: &[u8])
    ensures
        final(fb)@ == render_text(old(fb)@, x as int, y as int, text@),
{
    let bytes = text;
    let n = bytes.len();
    let ghost fb0 = fb@;
    // Glyph positions are tracked in 128 bits, where they cannot wrap.
    let mut xc: u128 = x as u128;
    let mut k: usize = 0;
    assert(bytes@.take(0) =~= Seq::<u8>::empty());
    while k < n
        invariant
            n == bytes@.len(),
            k <= n,
            xc == x + 6 * k,
            fb@ == render_text(fb0, x as int, y as int, bytes@.take(k as int)),
        decreases n - k,
    {
        let ch = bytes[k];
        let ghost prev = fb@;
        let low: u8 = ch & 0x7f;
        assert(low as int == ch as int % 128) by (bit_vector)
            requires low == ch & 0x7f;
        let char_idx: usize = (low as usize).saturating_sub(CHAR_OFFSET);
        if char_idx < MAX_CHARS {
            let glyph = FONT5X7_BASIC[char_idx];
            let mut ry: usize = 0;
            assert(fb@ =~= glyph_partial(prev, xc as int, y as int, ch, 0, 0));
            while ry < 5
                invariant
                    ry <= 5,
                    char_idx < MAX_CHARS,
                    char_idx == glyph_index(ch),
                    glyph@ == FONT5X7_BASIC@[char_idx as int]@,
                    xc == x + 6 * k,
                    k < n,
                    fb@ == glyph_partial(prev, xc as int, y as int, ch, ry as int, 0),
                decreases 5 - ry,
            {
                let font_row = glyph[ry];
                let mut rx: usize = 0;
                while rx < 7
                    invariant
                        ry < 5,
                        rx <= 7,
                        char_idx < MAX_CHARS,
                        char_idx == glyph_index(ch),
                        font_row == FONT5X7_BASIC@[char_idx as int]@[ry as int],
                        xc == x + 6 * k,
                        k < n,
                        fb.len() == prev.len(),
                        fb@ == glyph_partial(prev, xc as int, y as int, ch, ry as int, rx as int),
                    decreases 7 - rx,
                {
                    let v = (font_row >> rx) & 1;
                    let row: u128 = y as u128 + rx as u128;
                    assert(row * 80 <= 0x2_0000_0000_0000_0000 * 80) by (nonlinear_arith)
                        requires row <= 0x2_0000_0000_0000_0000;
                    let target: u128 = row * (FRAME_WIDTH2 as u128) + (xc + ry as u128);
                    if v != 0 && target < fb.len() as u128 {
                        fb[target as usize] = 0;
                    }
                    proof {
                        let next = glyph_partial(prev, xc as int, y as int, ch, ry as int, rx + 1);
                        assert forall|i: int| 0 <= i < prev.len() implies #[trigger] fb@[i]
                            == next[i] by {
                            let d = i - FRAME_WIDTH2 * y - xc;
                            lemma_row_col(d, rx as int, ry as int);
                        }
                        assert(fb@ =~= next);
                    }
                    rx = rx + 1;
                }
                proof {
                    let next = glyph_partial(prev, xc as int, y as int, ch, ry + 1, 0);
                    assert forall|i: int| 0 <= i < prev.len() implies #[trigger] fb@[i]
                        == next[i] by {
                        let d = i - FRAME_WIDTH2 * y - xc;
                        lemma_row_col(d, 7, ry as int);
                    }
                    assert(fb@ =~= next);
                }
                ry = ry + 1;
            }
            assert(fb@ =~= render_glyph(prev, xc as int, y as int, ch));
        } else {
            assert(fb@ =~= render_glyph(prev, xc as int, y as int, ch));
        }
        assert(bytes@.take(k + 1).drop_last() =~= bytes@.take(k as int));
        assert(bytes@.take(k + 1).last() == ch);
        k = k + 1;
        xc = xc + 6;
    }
    assert(bytes@.take(n as int) =~= bytes@);
}

/// Draws `text` into `fb` with its top-left corner at `(x, y)`: the bytes of
/// its UTF-8 encoding are drawn as by `draw_text`.
pub fn font_write(fb: &mut [u8], x: usize, y: usize, text: &str)
    ensures
        final(fb)@ == render_text(old(fb)@, x as int, y as int, text.spec_bytes()),
{
    draw_text(fb, x, y, text.as_bytes());
}

} // verus!
