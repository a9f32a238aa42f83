use flirone::font::font_write;
use flirone::v4l2::{
    configure_output_pix, fourcc, output_format, v4l2_pix_format, V4L2_BUF_TYPE_VIDEO_OUTPUT,
};

#[test]
fn fourcc_codes() {
    assert_eq!(fourcc(b'M', b'J', b'P', b'G'), 0x4750_4a4d);
    assert_eq!(fourcc(b'R', b'G', b'B', b'3'), 0x3342_4752);
    assert_eq!(fourcc(0, 0, 0, 0xff), 0xff00_0000);
}

#[test]
fn plus_glyph_pixels() {
    let mut fb = vec![128u8; 80 * 76];
    font_write(&mut fb, 0, 0, "+");
    // '+' is [0x08, 0x08, 0x63, 0x08, 0x08]: row 3 of columns 0, 1, 3, 4 and
    // rows 0, 1, 5, 6 of column 2.
    let lit = [240usize, 241, 243, 244, 2, 82, 402, 482];
    for (i, &v) in fb.iter().enumerate() {
        if lit.contains(&i) {
            assert_eq!(v, 0, "pixel {}", i);
        } else {
            assert_eq!(v, 128, "pixel {}", i);
        }
    }
}

#[test]
fn glyphs_advance_six_pixels() {
    let mut a = vec![200u8; 80 * 76];
    let mut b = vec![200u8; 80 * 76];
    font_write(&mut a, 10, 20, "AB");
    font_write(&mut b, 16, 20, "B");
    font_write(&mut b, 10, 20, "A");
    assert_eq!(a, b);
}

#[test]
fn space_draws_nothing() {
    let mut fb = vec![9u8; 80 * 76];
    font_write(&mut fb, 3, 3, "   ");
    assert!(fb.iter().all(|&v| v == 9));
}

#[test]
fn control_bytes_draw_as_space_and_high_bit_is_ignored() {
    let mut a = vec![9u8; 80 * 76];
    font_write(&mut a, 3, 3, "\u{1}\n");
    assert!(a.iter().all(|&v| v == 9));
    // 'é' is C3 A9: drawn as 'C' (0x43) and ')' (0x29).
    let mut b = vec![9u8; 80 * 76];
    let mut c = vec![9u8; 80 * 76];
    font_write(&mut b, 3, 3, "é");
    font_write(&mut c, 3, 3, "C)");
    assert_eq!(b, c);
}

#[test]
fn glyphs_below_the_frame_are_clipped() {
    let mut fb = vec![128u8; 80 * 76];
    font_write(&mut fb, 0, 74, "|");
    // '|' is a full middle column: rows 74 and 75 land inside, the rest outside.
    assert_eq!(fb[80 * 74 + 2], 0);
    assert_eq!(fb[80 * 75 + 2], 0);
    assert_eq!(fb.iter().filter(|&&v| v == 0).count(), 2);
}

#[test]
fn output_format_sets_output_fields() {
    let current = v4l2_pix_format {
        width: 1,
        height: 2,
        pixelformat: 3,
        field: 4,
        bytesperline: 5,
        sizeimage: 6,
        colorspace: 7,
        priv_field: 8,
        flags: 9,
        enc: 10,
        quantization: 11,
        xfer_func: 12,
    };
    let f = output_format(current, 80, 76, 0x3342_4752, 18240, 80);
    assert_eq!(f.type_, V4L2_BUF_TYPE_VIDEO_OUTPUT);
    let p = configure_output_pix(current, 80, 76, 0x3342_4752, 18240, 80);
    assert_eq!(p.width, 80);
    assert_eq!(p.height, 76);
    assert_eq!(p.pixelformat, 0x3342_4752);
    assert_eq!(p.field, 1);
    assert_eq!(p.bytesperline, 80);
    assert_eq!(p.sizeimage, 18240);
    assert_eq!(p.colorspace, 8);
    assert_eq!(p.priv_field, 8);
    assert_eq!(p.flags, 9);
    assert_eq!(p.enc, 10);
    assert_eq!(p.quantization, 11);
    assert_eq!(p.xfer_func, 12);
}

#[test]
fn concatenation_draws_parts_side_by_side() {
    let s = "12:3";
    let t = "4'C é";
    let u = format!("{}{}", s, t);
    let mut a = vec![77u8; 80 * 76];
    let mut b = vec![77u8; 80 * 76];
    font_write(&mut a, 2, 30, &u);
    font_write(&mut b, 2, 30, s);
    font_write(&mut b, 2 + 6 * s.len(), 30, t);
    assert_eq!(a, b);
}
