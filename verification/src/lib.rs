//! Verified core of a small kernel: the bring-up of its USB 3 host
//! controller, and what it draws on the frame buffer.
//!
//! The crate holds the decisions of the driver and proves them: where hardware
//! structures are placed in memory, how the producer and consumer rings move,
//! in which order the controller is handed over, reset and started, and how
//! the PCI configuration window is walked. It never touches hardware itself:
//! every register access is handed to the caller as a [`usb::Request`], and the
//! caller hands the answer back as a [`usb::Reply`].
//!
//! The frame buffer is a vector of bytes; [`graphics`], [`text`], [`console`]
//! and [`cursor`] say for each drawing operation which bytes it changes.

use vstd::prelude::*;

pub mod acpi;
pub mod console;
pub mod cursor;
pub mod graphics;
pub mod memory;
pub mod pci;
pub mod ring;
pub mod text;
pub mod usb;

verus! {

/// Order of the colour bytes in one pixel of the frame buffer.
#[derive(Copy, Clone, Debug, Eq, PartialEq)]
pub enum PixelFormat {
    RgbResv8BitPerColor,
    BgrResv8BitPerColor,
}

/// The frame buffer that the loader hands to the kernel.
#[derive(Debug)]
pub struct FrameBufferConfig {
    pub buf: Vec<u8>,
    pub pixels_per_scan_line: usize,
    pub width: usize,
    pub height: usize,
    pub pixel_format: PixelFormat,
}

} // verus!
