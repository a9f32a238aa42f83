//! The driver's frame pipeline: reassembling camera frames from USB bulk
//! chunks, and turning a complete frame into the output streams.

use vstd::prelude::*;
use vstd::string::StringSliceAdditionalSpecFns;
use crate::frame::{
    center_average, center_value, render_thermal_image, scan_thermal, thermal_image,
    thermal_pixels, thermal_stats, ThermalScan, PALETTE_LEN,
};
use crate::geometry::BUF85SIZE;

verus! {

/// Length of the camera frame header.
pub const HEADER_LEN: usize = 28;

/// Whether `s` starts with the frame magic `ef be 00 00`.
pub open spec fn has_magic(s: Seq<u8>) -> bool {
    &&& s.len() >= 4
    &&& s[0] == 0xef
    &&& s[1] == 0xbe
    &&& s[2] == 0x00
    &&& s[3] == 0x00
}

/// The little-endian 32-bit word at `off` of `s`.
pub open spec fn le_u32(s: Seq<u8>, off: int) -> int {
    s[off] + 256 * s[off + 1] + 65536 * s[off + 2] + 16777216 * s[off + 3]
}

/// Length of the frame payload, from the header.
pub open spec fn frame_size(s: Seq<u8>) -> int {
    le_u32(s, 8)
}

/// Length of the thermal part of the payload, from the header.
pub open spec fn thermal_size(s: Seq<u8>) -> int {
    le_u32(s, 12)
}

/// Length of the JPEG part of the payload, from the header.
pub open spec fn jpg_size(s: Seq<u8>) -> int {
    le_u32(s, 16)
}

/// Where a chunk is stored: at the fill position, or from the start again
/// when the chunk opens with the magic or would reach the end of the buffer.
pub open spec fn chunk_start(pointer: int, chunk: Seq<u8>) -> int {
    if has_magic(chunk) || pointer + chunk.len() >= BUF85SIZE {
        0
    } else {
        pointer
    }
}

/// How many bytes of a chunk are stored: as many as fit.
pub open spec fn chunk_stored(pointer: int, chunk: Seq<u8>) -> int {
    let start = chunk_start(pointer, chunk);
    if chunk.len() <= BUF85SIZE - start {
        chunk.len() as int
    } else {
        BUF85SIZE - start
    }
}

/// The buffer `buffer` after storing `chunk` with fill position `pointer`.
pub open spec fn store_chunk(buffer: Seq<u8>, pointer: int, chunk: Seq<u8>) -> Seq<u8> {
    let start = chunk_start(pointer, chunk);
    let n = chunk_stored(pointer, chunk);
    Seq::new(
        buffer.len(),
        |i: int|
            if start <= i < start + n {
                chunk[i - start]
            } else {
                buffer[i]
            },
    )
}

/// Whether the JPEG image named by the header of `s` lies inside `s`.
pub open spec fn has_visual(s: Seq<u8>) -> bool {
    HEADER_LEN + thermal_size(s) + jpg_size(s) <= s.len()
}

/// The JPEG image of the camera frame `s`.
pub open spec fn visual_bytes(s: Seq<u8>) -> Seq<u8> {
    s.subrange(HEADER_LEN + thermal_size(s), HEADER_LEN + thermal_size(s) + jpg_size(s))
}

/// Offset of the flat-field-correction marker, 17 bytes after the JPEG image.
pub open spec fn ffc_offset(s: Seq<u8>) -> int {
    HEADER_LEN + thermal_size(s) + jpg_size(s) + 17
}

/// Whether the camera frame `s` carries the `FFC` marker (the camera is
/// recalibrating its sensor).
pub open spec fn has_ffc_marker(s: Seq<u8>) -> bool {
    let o = ffc_offset(s);
    &&& o + 3 <= s.len()
    &&& s[o] == 0x46
    &&& s[o + 1] == 0x46
    &&& s[o + 2] == 0x43
}

/// The abstract content of a camera frame.
pub struct FrameView {
    pub pixels: Seq<u16>,
    pub min: int,
    pub max: int,
    pub maxx: int,
    pub maxy: int,
    pub center: int,
    pub visual: Option<Seq<u8>>,
    pub is_ffc: bool,
}

/// What a complete camera frame `s` holds.
pub open spec fn frame_view_of(s: Seq<u8>, v: FrameView) -> bool {
    &&& v.pixels == thermal_pixels(s)
    &&& thermal_stats(v.pixels, v.min, v.max, v.maxx, v.maxy)
    &&& v.center == center_value(v.pixels)
    &&& v.visual == if has_visual(s) {
        Some(visual_bytes(s))
    } else {
        None::<Seq<u8>>
    }
    &&& v.is_ffc == has_ffc_marker(s)
}

/// A complete camera frame, read out of the reassembly buffer.
pub struct CameraFrame {
    scan: ThermalScan,
    center: u32,
    visual: Option<Vec<u8>>,
    is_ffc: bool,
}

impl View for CameraFrame {
    type V = FrameView;

    closed spec fn view(&self) -> FrameView {
        FrameView {
            pixels: self.scan.pix@,
            min: self.scan.min as int,
            max: self.scan.max as int,
            maxx: self.scan.maxx as int,
            maxy: self.scan.maxy as int,
            center: self.center as int,
            visual: match self.visual {
                Some(v) => Some(v@),
                None => None,
            },
            is_ffc: self.is_ffc,
        }
    }
}

impl CameraFrame {
    #[verifier::type_invariant]
    spec fn inv(self) -> bool {
        thermal_stats(
            self.scan.pix@,
            self.scan.min as int,
            self.scan.max as int,
            self.scan.maxx as int,
            self.scan.maxy as int,
        )
    }

    /// Coldest raw pixel value.
    pub fn min(&self) -> (v: i32)
        ensures
            v == self@.min,
    {
        self.scan.min
    }

    /// Hottest raw pixel value.
    pub fn max(&self) -> (v: i32)
        ensures
            v == self@.max,
    {
        self.scan.max
    }

    /// Average raw value of the four pixels around the center.
    pub fn center(&self) -> (v: u32)
        ensures
            v == self@.center,
    {
        self.center
    }

    /// Column and row of the first hottest pixel.
    pub fn hot_spot(&self) -> (p: (usize, usize))
        ensures
            p.0 == self@.maxx,
            p.1 == self@.maxy,
    {
        (self.scan.maxx, self.scan.maxy)
    }

    /// The raw thermal pixels, row by row.
    pub fn pixels(&self) -> (p: &[u16])
        ensures
            p@ == self@.pixels,
    {
        self.scan.pix.as_slice()
    }

    /// The JPEG image of the visual camera, when the frame holds all of it.
    pub fn visual(&self) -> (v: Option<&[u8]>)
        ensures
            match v {
                Some(b) => self@.visual == Some(b@),
                None => self@.visual is None,
            },
    {
        match &self.visual {
            Some(b) => Some(b.as_slice()),
            None => None,
        }
    }

    /// Whether the frame carries the flat-field-correction marker.
    pub fn is_ffc(&self) -> (b: bool)
        ensures
            b == self@.is_ffc,
    {
        self.is_ffc
    }
}

/// What a USB chunk brought.
pub enum UsbEvent {
    /// The frame is not complete yet.
    Pending,
    /// The buffer did not start with the frame magic and was dropped.
    BadMagic,
    /// A frame is complete.
    Frame(CameraFrame),
}

/// Why a palette was refused.
#[derive(Debug, PartialEq, Eq, Structural)]
pub enum PaletteError {
    /// The palette holds fewer than 256 RGB entries.
    TooShort { len: usize },
}

/// The driver's state between USB chunks: the reassembly buffer and its fill
/// position, the palette, and whether the last frame was a flat-field
/// correction.
pub struct DriverState {
    buf85: Vec<u8>,
    buf85pointer: usize,
    colormap: Vec<u8>,
    ffc_state: i32,
}

/// The abstract driver state.
pub struct DriverView {
    pub buffer: Seq<u8>,
    pub pointer: int,
    pub palette: Seq<u8>,
    pub ffc_state: int,
}

impl DriverView {
    /// The driver invariant: a full-size reassembly buffer, a fill position
    /// inside it, and a palette of at least 256 RGB entries.
    pub open spec fn valid(self) -> bool {
        &&& self.buffer.len() == BUF85SIZE
        &&& 0 <= self.pointer <= BUF85SIZE
        &&& self.palette.len() >= PALETTE_LEN
    }
}

impl View for DriverState {
    type V = DriverView;

    closed spec fn view(&self) -> DriverView {
        DriverView {
            buffer: self.buf85@,
            pointer: self.buf85pointer as int,
            palette: self.colormap@,
            ffc_state: self.ffc_state as int,
        }
    }
}

/// Flat-field-correction state after a frame: set while the camera marks its
/// frames, cleared on the first frame after.
pub open spec fn next_ffc_state(state: int, is_ffc: bool) -> int {
    if is_ffc {
        1
    } else if state == 1 {
        0
    } else {
        state
    }
}

/// Whether a frame's thermal image is sent: not while the camera recalibrates,
/// nor for the first frame after.
pub open spec fn sends_thermal(state: int, is_ffc: bool) -> bool {
    !is_ffc && state != 1
}

/// The overlay text: the clock, a space, and the temperature text.
pub open spec fn overlay_text(clock: Seq<u8>, temperatures: Seq<u8>) -> Seq<u8> {
    clock + seq![0x20u8] + temperatures
}

/// The colorized thermal frame for camera frame `f` with overlay `text`.
pub open spec fn frame_image(f: FrameView, text: Seq<u8>, palette: Seq<u8>) -> Seq<u8> {
    thermal_image(f.pixels, f.min, f.max, f.maxx, f.maxy, text, palette)
}

/// Reads the little-endian 32-bit word at `off` of `s`.
fn read_le_u32(s: &Vec<u8>, off: usize) -> (v: u32)
    requires
        off + 4 <= s.len(),
    ensures
        v == le_u32(s@, off as int),
{
    let b0 = s[off];
    let b1 = s[off + 1];
    let b2 = s[off + 2];
    let b3 = s[off + 3];
    let v = (b0 as u32) | ((b1 as u32) << 8) | ((b2 as u32) << 16) | ((b3 as u32) << 24);
    assert(v == b0 + 256 * b1 + 65536 * b2 + 16777216 * b3) by (bit_vector)
        requires
            v == (b0 as u32) | ((b1 as u32) << 8) | ((b2 as u32) << 16) | ((b3 as u32) << 24),
    ;
    v
}

/// Whether `s` starts with the frame magic.
fn starts_with_magic(s: &[u8]) -> (b: bool)
    ensures
        b == has_magic(s@),
{
    s.len() >= 4 && s[0] == 0xef && s[1] == 0xbe && s[2] == 0x00 && s[3] == 0x00
}

impl DriverState {
    /// The invariant of the driver state.
    #[verifier::type_invariant]
    spec fn wf(&self) -> bool {
        &&& self.buf85@.len() == BUF85SIZE
        &&& self.buf85pointer <= BUF85SIZE
        &&& self.colormap@.len() >= PALETTE_LEN
    }

    /// A driver with an empty reassembly buffer and the given palette of RGB
    /// triples, indexed by gray level; refused when it has fewer than 256
    /// entries.
    pub fn new(colormap: Vec<u8>) -> (r: Result<DriverState, PaletteError>)
        ensures
            match r {
                Ok(st) => {
                    &&& colormap@.len() >= PALETTE_LEN
                    &&& st@.valid()
                    &&& st@.buffer == Seq::new(BUF85SIZE as nat, |i: int| 0u8)
                    &&& st@.pointer == 0
                    &&& st@.palette == colormap@
                    &&& st@.ffc_state == 0
                },
                Err(e) => colormap@.len() < PALETTE_LEN && e == PaletteError::TooShort {
                    len: colormap@.len() as usize,
                },
            },
    {
        if colormap.len() < PALETTE_LEN {
            return Err(PaletteError::TooShort { len: colormap.len() });
        }
        let buf85: Vec<u8> = vec![0u8; BUF85SIZE];
        assert(buf85@ =~= Seq::new(BUF85SIZE as nat, |i: int| 0u8));
        Ok(DriverState { buf85, buf85pointer: 0, colormap, ffc_state: 0 })
    }

    /// The fill position of the reassembly buffer.
    pub fn buf85pointer(&self) -> (p: usize)
        ensures
            p == self@.pointer,
    {
        self.buf85pointer
    }

    /// The flat-field-correction state (1 while the camera recalibrates).
    pub fn ffc_state(&self) -> (s: i32)
        ensures
            s == self@.ffc_state,
    {
        self.ffc_state
    }

    /// Stores a USB bulk chunk in the reassembly buffer and reports whether a
    /// camera frame is complete.
    ///
    /// The chunk is stored at the fill position, or at the start when it
    /// opens with the frame magic or would reach the end of the buffer, as
    /// far as it fits. Then: a buffer that does not start with the magic is
    /// dropped; a frame whose header or payload has not fully arrived is kept
    /// for the next chunk; a complete frame is read out and the buffer starts
    /// over.
    pub fn process_usb_data(&mut self, buf: &[u8]) -> (event: UsbEvent)
        ensures
            old(self)@.valid(),
            final(self)@.valid(),
            ({
                let b = store_chunk(old(self)@.buffer, old(self)@.pointer, buf@);
                let end = chunk_start(old(self)@.pointer, buf@) + chunk_stored(
                    old(self)@.pointer,
                    buf@,
                );
                &&& final(self)@.buffer == b
                &&& final(self)@.palette == old(self)@.palette
                &&& final(self)@.ffc_state == old(self)@.ffc_state
                &&& match event {
                    UsbEvent::BadMagic => !has_magic(b) && final(self)@.pointer == 0,
                    UsbEvent::Pending => {
                        &&& has_magic(b)
                        &&& end < HEADER_LEN || frame_size(b) + HEADER_LEN > end
                        &&& final(self)@.pointer == end
                    },
                    UsbEvent::Frame(f) => {
                        &&& has_magic(b)
                        &&& HEADER_LEN <= end
                        &&& frame_size(b) + HEADER_LEN <= end
                        &&& final(self)@.pointer == 0
                        &&& frame_view_of(b, f@)
                    },
                }
            }),
    {
        proof {
            use_type_invariant(&*self);
        }
        let ghost old_buf = self.buf85@;
        let ghost p0 = self.buf85pointer as int;
        if starts_with_magic(buf) || buf.len() >= BUF85SIZE - self.buf85pointer {
            self.buf85pointer = 0;
        }
        let start = self.buf85pointer;
        let copy_len = if buf.len() <= BUF85SIZE - start { buf.len() } else { BUF85SIZE - start };
        assert(start == chunk_start(p0, buf@));
        assert(copy_len == chunk_stored(p0, buf@));
        let mut i: usize = 0;
        while i < copy_len
            invariant
                self.buf85@.len() == BUF85SIZE,
                old_buf.len() == BUF85SIZE,
                start + copy_len <= BUF85SIZE,
                copy_len <= buf@.len(),
                i <= copy_len,
                self.buf85pointer == start,
                self.colormap@.len() >= PALETTE_LEN,
                self.colormap@ == old(self).colormap@,
                self.ffc_state == old(self).ffc_state,
                self.buf85@ == Seq::new(
                    BUF85SIZE as nat,
                    |k: int|
                        if start <= k < start + i {
                            buf@[k - start]
                        } else {
                            old_buf[k]
                        },
                ),
            decreases copy_len - i,
        {
            self.buf85[start + i] = buf[i];
            proof {
                assert(self.buf85@ =~= Seq::new(
                    BUF85SIZE as nat,
                    |k: int|
                        if start <= k < start + i + 1 {
                            buf@[k - start]
                        } else {
                            old_buf[k]
                        },
                ));
            }
            i = i + 1;
        }
        self.buf85pointer = start + copy_len;
        assert(self.buf85@ =~= store_chunk(old_buf, p0, buf@));
        if !starts_with_magic(self.buf85.as_slice()) {
            self.buf85pointer = 0;
            return UsbEvent::BadMagic;
        }
        if self.buf85pointer < HEADER_LEN {
            return UsbEvent::Pending;
        }
        let frame_size = read_le_u32(&self.buf85, 8);
        let thermal_size = read_le_u32(&self.buf85, 12);
        let jpg_size = read_le_u32(&self.buf85, 16);
        if frame_size as u64 + HEADER_LEN as u64 > self.buf85pointer as u64 {
            return UsbEvent::Pending;
        }
        self.buf85pointer = 0;
        let scan = scan_thermal(self.buf85.as_slice());
        let center = center_average(&scan.pix);
        let len = self.buf85.len() as u64;
        let visual_offset: u64 = HEADER_LEN as u64 + thermal_size as u64;
        let visual = if visual_offset + jpg_size as u64 <= len {
            let from = visual_offset as usize;
            let to = (visual_offset + jpg_size as u64) as usize;
            let data = vstd::slice::slice_subrange(self.buf85.as_slice(), from, to);
            Some(vstd::slice::slice_to_vec(data))
        } else {
            None
        };
        let ffc_offset: u64 = visual_offset + jpg_size as u64 + 17;
        let is_ffc = if ffc_offset + 3 <= len {
            let o = ffc_offset as usize;
            self.buf85[o] == 0x46 && self.buf85[o + 1] == 0x46 && self.buf85[o + 2] == 0x43
        } else {
            false
        };
        let frame = CameraFrame { scan, center, visual, is_ffc };
        assert(frame@.visual == if has_visual(self.buf85@) {
            Some(visual_bytes(self.buf85@))
        } else {
            None::<Seq<u8>>
        });
        UsbEvent::Frame(frame)
    }

    /// Finishes a complete camera frame with the clock text read by the caller
    /// (the local time of day): the thermal image with the overlay
    /// `clock temperatures` is built, and it is sent
    /// unless the camera is recalibrating or has just done so.
    pub fn finish_frame_at(&mut self, frame: &CameraFrame, clock: &[u8], temperatures: &str) -> (thermal: Option<Vec<u8>>)
        ensures
            old(self)@.valid(),
            final(self)@.valid(),
            final(self)@.buffer == old(self)@.buffer,
            final(self)@.pointer == old(self)@.pointer,
            final(self)@.palette == old(self)@.palette,
            final(self)@.ffc_state == next_ffc_state(old(self)@.ffc_state, frame@.is_ffc),
            match thermal {
                Some(img) => {
                    &&& sends_thermal(old(self)@.ffc_state, frame@.is_ffc)
                    &&& img@ == frame_image(
                        frame@,
                        overlay_text(clock@, temperatures.spec_bytes()),
                        old(self)@.palette,
                    )
                },
                None => !sends_thermal(old(self)@.ffc_state, frame@.is_ffc),
            },
    {
        proof {
            use_type_invariant(frame);
            use_type_invariant(&*self);
        }
        let temps = temperatures.as_bytes();
        let mut text: Vec<u8> = Vec::new();
        let mut i: usize = 0;
        while i < clock.len()
            invariant
                i <= clock@.len(),
                text@ == clock@.take(i as int),
            decreases clock@.len() - i,
        {
            text.push(clock[i]);
            assert(text@ =~= clock@.take(i + 1));
            i = i + 1;
        }
        text.push(0x20);
        let mut j: usize = 0;
        while j < temps.len()
            invariant
                j <= temps@.len(),
                text@ == clock@ + seq![0x20u8] + temps@.take(j as int),
            decreases temps@.len() - j,
        {
            text.push(temps[j]);
            assert(text@ =~= clock@ + seq![0x20u8] + temps@.take(j + 1));
            j = j + 1;
        }
        assert(clock@.take(clock@.len() as int) =~= clock@);
        assert(temps@.take(temps@.len() as int) =~= temps@);
        let image = render_thermal_image(&frame.scan, text.as_slice(), &self.colormap);
        if frame.is_ffc {
            self.ffc_state = 1;
            None
        } else if self.ffc_state == 1 {
            self.ffc_state = 0;
            None
        } else {
            Some(image)
        }
    }
}

} // verus!
