//! A trivial observer of decoded readings: frame counts and the last value.

use vstd::prelude::*;

use crate::reading::SensorReading;
use crate::SENSOR_HUMIDITY;

verus! {

/// Increment that wraps around at the counter's top value instead of failing.
pub open spec fn wrap_inc(x: u32) -> u32 {
    if x == u32::MAX {
        0
    } else {
        (x + 1) as u32
    }
}

/// Counters over the readings a decoder has emitted.
pub struct Statistics {
    /// How many humidity readings were seen.
    pub humidity_count: u32,
    /// How many readings were seen in all.
    pub total_frames: u32,
    /// Bit pattern of the last humidity value seen.
    pub last_humidity_bits: u32,
}

impl Statistics {
    /// Counters at zero.
    pub fn new() -> (r: Self)
        ensures
            r.humidity_count == 0,
            r.total_frames == 0,
            r.last_humidity_bits == 0,
    {
        Self { humidity_count: 0, total_frames: 0, last_humidity_bits: 0 }
    }

    /// Records one decoded reading.
    pub fn update(&mut self, reading: &SensorReading)
        ensures
            final(self).total_frames == wrap_inc(old(self).total_frames),
            reading.sensor_id == SENSOR_HUMIDITY ==> final(self).humidity_count == wrap_inc(
                old(self).humidity_count,
            ),
            reading.sensor_id == SENSOR_HUMIDITY ==> final(self).last_humidity_bits
                == reading.value_bits,
            reading.sensor_id != SENSOR_HUMIDITY ==> final(self).humidity_count == old(
                self,
            ).humidity_count,
            reading.sensor_id != SENSOR_HUMIDITY ==> final(self).last_humidity_bits == old(
                self,
            ).last_humidity_bits,
    {
        self.total_frames = if self.total_frames == u32::MAX {
            0
        } else {
            self.total_frames + 1
        };
        if reading.sensor_id == SENSOR_HUMIDITY {
            self.humidity_count = if self.humidity_count == u32::MAX {
                0
            } else {
                self.humidity_count + 1
            };
            self.last_humidity_bits = reading.value_bits;
        }
    }
}

} // verus!
