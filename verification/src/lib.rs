//! Frame processing for the FLIR One Pro LT / Gen 3 thermal camera.

pub mod font;
pub mod geometry;
pub mod v4l2;
pub mod frame;
pub mod driver;
pub mod laws;
pub mod usb;
