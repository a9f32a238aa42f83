use flirone::driver::{DriverState, PaletteError, UsbEvent};
use flirone::geometry::BUF85SIZE;

const THERMAL_SIZE: u32 = 9840;

fn put_u32(buf: &mut Vec<u8>, off: usize, v: u32) {
    buf[off..off + 4].copy_from_slice(&v.to_le_bytes());
}

/// A camera frame: header, thermal lines with `pixel(x, y)`, a JPEG payload,
/// 17 bytes of padding and an optional `FFC` marker.
fn camera_frame(pixel: impl Fn(usize, usize) -> u16, jpg: &[u8], ffc: bool) -> Vec<u8> {
    let frame_size = THERMAL_SIZE as usize + jpg.len() + 20;
    let mut f = vec![0u8; 28 + frame_size];
    f[0] = 0xef;
    f[1] = 0xbe;
    put_u32(&mut f, 8, frame_size as u32);
    put_u32(&mut f, 12, THERMAL_SIZE);
    put_u32(&mut f, 16, jpg.len() as u32);
    for y in 0..60 {
        for x in 0..80 {
            let off = 2 * (y * 82 + x) + 32;
            let v = pixel(x, y);
            f[off] = (v & 0xff) as u8;
            f[off + 1] = (v >> 8) as u8;
        }
    }
    let vis = 28 + THERMAL_SIZE as usize;
    f[vis..vis + jpg.len()].copy_from_slice(jpg);
    if ffc {
        let o = vis + jpg.len() + 17;
        f[o..o + 3].copy_from_slice(b"FFC");
    }
    f
}

fn gradient(x: usize, y: usize) -> u16 {
    (1000 + x + y) as u16
}

fn palette() -> Vec<u8> {
    let mut p = Vec::new();
    for g in 0..256usize {
        p.push(g as u8);
        p.push(255 - g as u8);
        p.push(7);
    }
    p
}

fn frame_of(event: UsbEvent) -> flirone::driver::CameraFrame {
    match event {
        UsbEvent::Frame(f) => f,
        UsbEvent::Pending => panic!("frame pending"),
        UsbEvent::BadMagic => panic!("bad magic"),
    }
}

#[test]
fn short_palette_is_refused() {
    match DriverState::new(vec![0u8; 767]) {
        Err(e) => assert_eq!(e, PaletteError::TooShort { len: 767 }),
        Ok(_) => panic!("a 767-byte palette was accepted"),
    }
    assert!(DriverState::new(vec![0u8; 768]).is_ok());
}

#[test]
fn new_driver_starts_empty() {
    let st = DriverState::new(palette()).unwrap();
    assert_eq!(st.buf85pointer(), 0);
    assert_eq!(st.ffc_state(), 0);
}

#[test]
fn chunk_without_magic_is_dropped() {
    let mut st = DriverState::new(palette()).unwrap();
    let ev = st.process_usb_data(&[1, 2, 3, 4, 5, 6]);
    assert!(matches!(ev, UsbEvent::BadMagic));
    assert_eq!(st.buf85pointer(), 0);
}

#[test]
fn partial_header_waits() {
    let mut st = DriverState::new(palette()).unwrap();
    let ev = st.process_usb_data(&[0xef, 0xbe, 0, 0, 9, 9, 9, 9, 9, 9]);
    assert!(matches!(ev, UsbEvent::Pending));
    assert_eq!(st.buf85pointer(), 10);
}

#[test]
fn partial_payload_waits_then_completes() {
    let mut st = DriverState::new(palette()).unwrap();
    let f = camera_frame(gradient, &[1, 2, 3], false);
    let ev = st.process_usb_data(&f[..5000]);
    assert!(matches!(ev, UsbEvent::Pending));
    assert_eq!(st.buf85pointer(), 5000);
    let ev = st.process_usb_data(&f[5000..]);
    let frame = frame_of(ev);
    assert_eq!(st.buf85pointer(), 0);
    assert_eq!(frame.min(), 1000);
    assert_eq!(frame.max(), 1138);
}

#[test]
fn whole_frame_chunk_is_read_out() {
    let mut st = DriverState::new(palette()).unwrap();
    let f = camera_frame(gradient, &[0xff, 0xd8, 0x11, 0x22], false);
    let frame = frame_of(st.process_usb_data(&f));
    assert_eq!(st.buf85pointer(), 0);
    let pix = frame.pixels();
    assert_eq!(pix.len(), 4800);
    assert_eq!(pix[0], 1000);
    assert_eq!(pix[80 * 10 + 7], 1017);
    assert_eq!(pix[4799], 1138);
    assert_eq!(frame.min(), 1000);
    assert_eq!(frame.max(), 1138);
    assert_eq!(frame.hot_spot(), (79, 59));
    // (1068 + 1069 + 1069 + 1070) / 4
    assert_eq!(frame.center(), 1069);
    assert_eq!(frame.visual(), Some(&[0xff, 0xd8, 0x11, 0x22][..]));
    assert!(!frame.is_ffc());
}

#[test]
fn first_hottest_pixel_is_the_hot_spot() {
    let mut st = DriverState::new(palette()).unwrap();
    let hot = |x: usize, y: usize| if (x == 5 && y == 3) || (x == 70 && y == 40) { 3000 } else { 500 };
    let f = camera_frame(hot, &[], false);
    let frame = frame_of(st.process_usb_data(&f));
    assert_eq!(frame.hot_spot(), (5, 3));
    assert_eq!(frame.max(), 3000);
    assert_eq!(frame.min(), 500);
}

#[test]
fn all_zero_image_has_hot_spot_at_origin() {
    let mut st = DriverState::new(palette()).unwrap();
    let f = camera_frame(|_, _| 0, &[], false);
    let frame = frame_of(st.process_usb_data(&f));
    assert_eq!(frame.hot_spot(), (0, 0));
    assert_eq!(frame.max(), 0);
    assert_eq!(frame.min(), 0);
}

#[test]
fn magic_chunk_restarts_the_frame() {
    let mut st = DriverState::new(palette()).unwrap();
    let f = camera_frame(gradient, &[1], false);
    assert!(matches!(st.process_usb_data(&f[..3000]), UsbEvent::Pending));
    // A new frame starts: the partial one is abandoned.
    let g = camera_frame(|_, _| 42, &[2], false);
    let frame = frame_of(st.process_usb_data(&g));
    assert_eq!(frame.min(), 42);
    assert_eq!(frame.max(), 42);
    assert_eq!(frame.visual(), Some(&[2u8][..]));
}

#[test]
fn oversized_chunk_fills_the_buffer() {
    let mut st = DriverState::new(palette()).unwrap();
    let mut big = vec![0u8; BUF85SIZE + 100];
    big[0] = 0xef;
    big[1] = 0xbe;
    put_u32(&mut big, 8, u32::MAX);
    let ev = st.process_usb_data(&big);
    assert!(matches!(ev, UsbEvent::Pending));
    assert_eq!(st.buf85pointer(), BUF85SIZE);
    // The next chunk would overflow: it is stored from the start.
    let ev = st.process_usb_data(&[0x00, 0x01]);
    assert!(matches!(ev, UsbEvent::BadMagic));
    assert_eq!(st.buf85pointer(), 0);
}

#[test]
fn visual_beyond_buffer_is_absent() {
    let mut st = DriverState::new(palette()).unwrap();
    let mut f = camera_frame(gradient, &[], false);
    put_u32(&mut f, 16, BUF85SIZE as u32);
    let frame = frame_of(st.process_usb_data(&f));
    assert_eq!(frame.visual(), None);
    assert!(!frame.is_ffc());
}

#[test]
fn ffc_frames_and_the_next_one_are_not_sent() {
    let mut st = DriverState::new(palette()).unwrap();
    let ffc = frame_of(st.process_usb_data(&camera_frame(gradient, &[9], true)));
    assert!(ffc.is_ffc());
    assert!(st.finish_frame_at(&ffc, b"12:00:00", "1.0/2.0/3.0'C").is_none());
    assert_eq!(st.ffc_state(), 1);
    let next = frame_of(st.process_usb_data(&camera_frame(gradient, &[9], false)));
    assert!(!next.is_ffc());
    assert!(st.finish_frame_at(&next, b"12:00:01", "1.0/2.0/3.0'C").is_none());
    assert_eq!(st.ffc_state(), 0);
    let third = frame_of(st.process_usb_data(&camera_frame(gradient, &[9], false)));
    assert!(st.finish_frame_at(&third, b"12:00:02", "1.0/2.0/3.0'C").is_some());
    assert_eq!(st.ffc_state(), 0);
}

#[test]
fn thermal_image_values() {
    let mut st = DriverState::new(palette()).unwrap();
    let frame = frame_of(st.process_usb_data(&camera_frame(gradient, &[], false)));
    let img = st.finish_frame_at(&frame, b"12:34:56", "1.0'C").unwrap();
    assert_eq!(img.len(), 80 * 76 * 3);
    let gray = |i: usize| img[3 * i];
    // delta 138, scale 65536 / 138 = 474; pixel (10, 10) is 20 above min.
    assert_eq!(gray(80 * 10 + 10), ((20u32 * 474) >> 8) as u8);
    assert_eq!(img[3 * (80 * 10 + 10) + 1], 255 - 37);
    assert_eq!(img[3 * (80 * 10 + 10) + 2], 7);
    // The coldest pixel is black, the hottest nearly white.
    assert_eq!(gray(0), 0);
    assert_eq!(gray(80 * 59 + 78), ((137u32 * 474) >> 8) as u8);
    // The text box background is mid gray.
    assert_eq!(gray(80 * 60), 128);
    assert_eq!(gray(80 * 75 + 79), 128);
    // The crosshair '+' at (38, 27): its middle column has rows 0, 1, 5, 6 lit.
    assert_eq!(gray(80 * 27 + 40), 0);
    assert_eq!(gray(80 * 28 + 40), 0);
    assert_eq!(gray(80 * 32 + 40), 0);
    assert_ne!(gray(80 * 29 + 40), 0);
}

#[test]
fn long_text_wraps_to_second_line() {
    let mut st = DriverState::new(palette()).unwrap();
    let frame = frame_of(st.process_usb_data(&camera_frame(|_, _| 10, &[], false)));
    let short = st.finish_frame_at(&frame, b"00:00:00", "1'C").unwrap();
    let long = st.finish_frame_at(&frame, b"00:00:00", "11.1/22.2/33.3'C").unwrap();
    // Line two starts at row 68; a flat image leaves it untouched with short text.
    let row_band = |img: &Vec<u8>| (68..75).flat_map(|y| (0..80).map(move |x| 80 * y + x)).filter(|&i| img[3 * i] == 0).count();
    assert_eq!(row_band(&short), 0);
    assert!(row_band(&long) > 0);
}

#[test]
fn hot_spot_markers_are_clamped() {
    let mut st = DriverState::new(palette()).unwrap();
    let hot = |x: usize, y: usize| if x == 79 && y == 59 { 2000 } else { 1000 };
    let frame = frame_of(st.process_usb_data(&camera_frame(hot, &[], false)));
    let img = st.finish_frame_at(&frame, b"00:00:00", "x").unwrap();
    let gray = |i: usize| img[3 * i];
    // '<' at (74, 50): its first column (0x00) is blank, its last (0x41) lights rows 0 and 6.
    assert_eq!(gray(80 * 50 + 78), 0);
    assert_eq!(gray(80 * 56 + 78), 0);
    // '|' at (70, 52): its middle column (0x7f) lights rows 0 to 6.
    for r in 0..7 {
        assert_eq!(gray(80 * (52 + r) + 72), 0);
    }
}

#[test]
fn wrapping_contrast_at_a_power_of_two_spread() {
    // With min 0 and max 2 the scale is 32768: 1 is drawn 128 and 2 wraps to 0.
    let mut st = DriverState::new(palette()).unwrap();
    let pix = |x: usize, _y: usize| (x % 3) as u16;
    let frame = frame_of(st.process_usb_data(&camera_frame(pix, &[], false)));
    let img = st.finish_frame_at(&frame, b"00:00:00", "").unwrap();
    assert_eq!(img[3 * (80 * 5)], 0);
    assert_eq!(img[3 * (80 * 5 + 1)], 128);
    assert_eq!(img[3 * (80 * 5 + 2)], 0);
}

#[test]
fn hotter_pixels_are_never_darker() {
    let mut st = DriverState::new(palette()).unwrap();
    let frame = frame_of(st.process_usb_data(&camera_frame(gradient, &[], false)));
    let img = st.finish_frame_at(&frame, b"", "").unwrap();
    let pix = frame.pixels();
    // Row 15 is clear of the overlay; along it the raw values rise.
    for x in 0..79 {
        let i = 80 * 15 + x;
        assert!(pix[i] <= pix[i + 1]);
        assert!(img[3 * i] <= img[3 * (i + 1)]);
    }
}

#[test]
fn center_reading_lies_between_extremes() {
    let mut st = DriverState::new(palette()).unwrap();
    let bumpy = |x: usize, y: usize| (((x * 7919 + y * 104729) % 5000) + 100) as u16;
    let frame = frame_of(st.process_usb_data(&camera_frame(bumpy, &[], false)));
    assert!(frame.min() as i64 <= frame.center() as i64);
    assert!(frame.center() as i64 <= frame.max() as i64);
    let pix = frame.pixels();
    let expected = (pix[2359] as u32 + pix[2360] as u32 + pix[2439] as u32 + pix[2440] as u32) / 4;
    assert_eq!(frame.center(), expected);
}

#[test]
fn frame_in_many_small_chunks() {
    let mut st = DriverState::new(palette()).unwrap();
    let f = camera_frame(gradient, &[5, 6, 7], false);
    let mut got = None;
    for (n, piece) in f.chunks(512).enumerate() {
        match st.process_usb_data(piece) {
            UsbEvent::Pending => assert_eq!(st.buf85pointer(), 512 * (n + 1)),
            UsbEvent::Frame(frame) => got = Some(frame),
            UsbEvent::BadMagic => panic!("bad magic"),
        }
    }
    let frame = got.expect("frame completed");
    assert_eq!(frame.visual(), Some(&[5u8, 6, 7][..]));
    assert_eq!(frame.hot_spot(), (79, 59));
}
