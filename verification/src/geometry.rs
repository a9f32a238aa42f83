//! Frame geometry of the FLIR One Gen 3 / Pro LT camera streams.

use vstd::prelude::*;

verus! {

/// Width of the raw thermal image, in pixels.
pub const FRAME_WIDTH0: usize = 80;

/// Height of the raw thermal image, in pixels.
pub const FRAME_HEIGHT0: usize = 60;

/// Height of the text box drawn below the thermal image.
pub const TEXTBOX_HEIGHT: usize = 16;

/// Width of the visual (MJPEG) stream.
pub const FRAME_WIDTH1: usize = 640;

/// Height of the visual (MJPEG) stream.
pub const FRAME_HEIGHT1: usize = 480;

/// Width of the colorized thermal output frame (that of the thermal image).
pub const FRAME_WIDTH2: usize = 80;

/// Height of the colorized thermal output frame: `FRAME_HEIGHT0 + TEXTBOX_HEIGHT`.
pub const FRAME_HEIGHT2: usize = 76;

/// Number of 16-bit words per line of thermal data in a camera frame:
/// `FRAME_WIDTH0 * 164 / 160`.
pub const LINE_STRIDE: usize = 82;

/// Byte offset of the first thermal line inside a camera frame.
pub const LINE_OFFSET: usize = 32;

/// Size of the buffer that reassembles camera frames from USB chunks.
pub const BUF85SIZE: usize = 1048576;

/// Number of pixels of the thermal image: `FRAME_WIDTH0 * FRAME_HEIGHT0`.
pub const THERMAL_PIXELS: usize = 4800;

/// Number of pixels of the thermal output frame: `FRAME_WIDTH2 * FRAME_HEIGHT2`.
pub const OUTPUT_PIXELS: usize = 6080;

/// The derived sizes agree with the dimensions they are named after.
pub proof fn lemma_geometry()
    ensures
        FRAME_WIDTH2 == FRAME_WIDTH0,
        FRAME_HEIGHT2 == FRAME_HEIGHT0 + TEXTBOX_HEIGHT,
        LINE_STRIDE == FRAME_WIDTH0 * 164 / 160,
        THERMAL_PIXELS == FRAME_WIDTH0 * FRAME_HEIGHT0,
        OUTPUT_PIXELS == FRAME_WIDTH2 * FRAME_HEIGHT2,
{
}

/// An offset `d` from the start of a row-major grid 80 pixels wide is row
/// `r`, column `c` (with `c` in a row) exactly when `d == 80 * r + c`.
pub proof fn lemma_row_col(d: int, r: int, c: int)
    requires
        0 <= r,
        0 <= c < 80,
    ensures
        (d == 80 * r + c) <==> (0 <= d && d / 80 == r && d % 80 == c),
{
    if d == 80 * r + c {
        assert(d / 80 == r && d % 80 == c) by (nonlinear_arith)
            requires
                d == 80 * r + c,
                0 <= r,
                0 <= c < 80,
        ;
    }
    if 0 <= d && d / 80 == r && d % 80 == c {
        assert(d == 80 * (d / 80) + d % 80) by (nonlinear_arith)
            requires
                0 <= d,
        ;
    }
}

} // verus!
