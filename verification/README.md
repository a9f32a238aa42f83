# flirone

A user-space driver for the FLIR One Pro LT and FLIR One Gen 3 thermal
cameras. It reads camera frames over USB, feeds the MJPEG visual stream and a
colorized 80x76 thermal stream (with a temperature overlay) to two
`v4l2loopback` devices.

Layout:

- `src/` is the verified library (Verus):
  - `geometry.rs`: frame dimensions;
  - `font.rs`: the 5x7 font and `font_write`, specified pixel by pixel;
  - `v4l2.rs`: the V4L2 records, FourCC codes and the output format asked of
    a loopback device;
  - `frame.rs`: thermal pixel extraction, statistics, contrast scaling, the
    overlay and the palette;
  - `driver.rs`: reassembly of camera frames from USB chunks and the
    flat-field-correction state machine;
  - `usb.rs`: what the capture loop does after a failed USB read;
  - `laws.rs`: properties that span several functions.
- `app/main.rs` is the program: command line, palette file, V4L2 ioctls
  (`nix`), USB transfers (`rusb`), the local time of day (`chrono`) and the floating-point Planck conversion of
  raw values to degrees Celsius.
- `tests/` exercises the library on synthetic camera frames.
