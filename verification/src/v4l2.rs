//! The V4L2 records exchanged with a loopback device, the output format the
//! driver asks for, and FourCC pixel-format codes.

#![allow(non_camel_case_types)]

use vstd::prelude::*;

verus! {

/// `VIDIOC_QUERYCAP` answer: what a V4L2 device is and can do.
#[derive(Debug, Copy, Clone)]
pub struct v4l2_capability {
    pub driver: [u8; 16],
    pub card: [u8; 32],
    pub bus_info: [u8; 32],
    pub version: u32,
    pub capabilities: u32,
    pub device_caps: u32,
    pub reserved: [u32; 3],
}

/// Single-plane pixel format of a V4L2 stream.
#[derive(Debug, Copy, Clone)]
pub struct v4l2_pix_format {
    pub width: u32,
    pub height: u32,
    pub pixelformat: u32,
    pub field: u32,
    pub bytesperline: u32,
    pub sizeimage: u32,
    pub colorspace: u32,
    pub priv_field: u32,
    pub flags: u32,
    /// `ycbcr_enc` or `hsv_enc`, which share this word.
    pub enc: u32,
    pub quantization: u32,
    pub xfer_func: u32,
}

/// The format payload of a `v4l2_format`, read according to its buffer type.
#[derive(Copy)]
pub union v4l2_format_union {
    pub pix: v4l2_pix_format,
    pub raw_data: [u8; 200],
    pub align: usize,
}

impl Clone for v4l2_format_union {
    fn clone(&self) -> (copy: Self)
        ensures
            copy == *self,
    {
        *self
    }
}

/// `VIDIOC_G_FMT` / `VIDIOC_S_FMT` record: a buffer type and its format.
#[derive(Copy, Clone)]
pub struct v4l2_format {
    pub type_: u32,
    pub fmt: v4l2_format_union,
}

/// Buffer type of a video output stream (what a loopback device is fed with).
pub const V4L2_BUF_TYPE_VIDEO_OUTPUT: u32 = 2;

/// Progressive (not interlaced) frames.
pub const V4L2_FIELD_NONE: u32 = 1;

/// The sRGB colorspace.
pub const V4L2_COLORSPACE_SRGB: u32 = 8;

/// The FourCC code of four characters: `a` in the low byte, `d` in the high byte.
pub open spec fn fourcc_value(a: u8, b: u8, c: u8, d: u8) -> int {
    a + 256 * b + 65536 * c + 16777216 * d
}

/// Packs four characters into a little-endian FourCC code.
pub fn fourcc(a: u8, b: u8, c: u8, d: u8) -> (code: u32)
    ensures
        code == fourcc_value(a, b, c, d),
        code & 0xff == a,
        (code >> 8u32) & 0xff == b,
        (code >> 16u32) & 0xff == c,
        code >> 24u32 == d,
{
    let r = (a as u32) | ((b as u32) << 8) | ((c as u32) << 16) | ((d as u32) << 24);
    assert(r == a + 256 * b + 65536 * c + 16777216 * d && r & 0xff == a && (r >> 8u32) & 0xff == b
        && (r >> 16u32) & 0xff == c && r >> 24u32 == d) by (bit_vector)
        requires
            r == (a as u32) | ((b as u32) << 8) | ((c as u32) << 16) | ((d as u32) << 24),
    ;
    r
}

/// `current` with the settings the driver asks of an output stream: the given
/// size, pixel format, image size and line length, progressive frames and
/// sRGB; the private, flag, encoding, quantization and transfer words kept.
pub open spec fn output_pix_format(
    current: v4l2_pix_format,
    width: u32,
    height: u32,
    pixelformat: u32,
    sizeimage: u32,
    bytesperline: u32,
) -> v4l2_pix_format {
    v4l2_pix_format {
        width,
        height,
        pixelformat,
        field: V4L2_FIELD_NONE,
        bytesperline,
        sizeimage,
        colorspace: V4L2_COLORSPACE_SRGB,
        ..current
    }
}

/// The pixel format to set on a loopback device, given the one it reports:
/// `output_pix_format` of the report.
pub fn configure_output_pix(
    current: v4l2_pix_format,
    width: u32,
    height: u32,
    pixelformat: u32,
    sizeimage: u32,
    bytesperline: u32,
) -> (pix: v4l2_pix_format)
    ensures
        pix == output_pix_format(current, width, height, pixelformat, sizeimage, bytesperline),
{
    let mut pix = current;
    pix.width = width;
    pix.height = height;
    pix.pixelformat = pixelformat;
    pix.sizeimage = sizeimage;
    pix.field = V4L2_FIELD_NONE;
    pix.bytesperline = bytesperline;
    pix.colorspace = V4L2_COLORSPACE_SRGB;
    pix
}

/// The format to set on a loopback device, given the pixel format it reports:
/// an output stream whose pixel format is `output_pix_format` of the report.
pub fn output_format(
    current: v4l2_pix_format,
    width: u32,
    height: u32,
    pixelformat: u32,
    sizeimage: u32,
    bytesperline: u32,
) -> (fmt: v4l2_format)
    ensures
        fmt.type_ == V4L2_BUF_TYPE_VIDEO_OUTPUT,
        is_variant(fmt.fmt, "pix"),
        get_union_field::<v4l2_format_union, v4l2_pix_format>(fmt.fmt, "pix") == output_pix_format(
            current,
            width,
            height,
            pixelformat,
            sizeimage,
            bytesperline,
        ),
{
    let pix = configure_output_pix(current, width, height, pixelformat, sizeimage, bytesperline);
    v4l2_format { type_: V4L2_BUF_TYPE_VIDEO_OUTPUT, fmt: v4l2_format_union { pix } }
}

} // verus!
