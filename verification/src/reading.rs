//! The value type carried by the protocol.

use vstd::prelude::*;

verus! {

/// One sensor measurement.
///
/// The wire format stores the measured value as a 32-bit IEEE-754 number; this
/// library never interprets those bits arithmetically, only moves them, so the
/// value is held here as its bit pattern (`f32::to_bits` / `f32::from_bits` at
/// the boundary).
#[derive(Clone, Copy, Debug, PartialEq, Eq, Structural)]
pub struct SensorReading {
    /// Tag identifying the measurement kind.
    pub sensor_id: u8,
    /// Bit pattern of the 32-bit IEEE-754 measured value.
    pub value_bits: u32,
    /// Sender-local monotonically increasing counter.
    pub timestamp: u32,
}

} // verus!
