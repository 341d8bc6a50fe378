//! A point-to-point binary framing protocol for periodic sensor readings.
//!
//! A sender serializes one `SensorReading` per frame with [`encoder::DataFrame`];
//! a receiver feeds the (possibly corrupted) byte stream one byte at a time into
//! [`decoder::FrameParser`], which recovers readings and resynchronizes after any
//! corruption by falling back to scanning for the next start byte.

use vstd::prelude::*;

pub mod buffer;
pub mod bytes;
pub mod decoder;
pub mod encoder;
pub mod fault;
pub mod laws;
pub mod message;
pub mod reading;
pub mod stats;

verus! {

/// First byte of every frame.
pub const START_BYTE: u8 = 0xAA;

/// Last byte of every frame.
pub const END_BYTE: u8 = 0x55;

/// Sensor tag carried by humidity readings.
pub const SENSOR_HUMIDITY: u8 = 0x02;

/// Largest declared data length the protocol accepts.
pub const MAX_DATA_LEN: u8 = 20;

/// Capacity of the fixed frame buffers on both sides.
pub const MAX_FRAME_SIZE: usize = 32;

/// Hook for an unrecoverable fault of the sending node; see [`fault::panic`].
pub fn panic() {
}

} // verus!
