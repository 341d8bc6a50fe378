//! The frame encoder: one `SensorReading` in, one delimited frame out.

use vstd::prelude::*;

use crate::buffer::{hv_as_slice, hv_clear, hv_contents, hv_get, hv_len, hv_new, hv_push};
use crate::bytes::{u32_le_bytes, u32_to_le, xor_fold};
use crate::reading::SensorReading;
use crate::{END_BYTE, START_BYTE};

verus! {

/// The checksummed region of a frame for `r`: header sensor id, data length,
/// then the data section (sensor id again, value bits, timestamp, all
/// little-endian).
pub open spec fn frame_body(r: SensorReading) -> Seq<u8> {
    seq![r.sensor_id, 9u8, r.sensor_id] + u32_le_bytes(r.value_bits) + u32_le_bytes(r.timestamp)
}

/// The complete wire frame for `r`: start byte, checksummed region, checksum,
/// end byte.
pub open spec fn frame_bytes(r: SensorReading) -> Seq<u8> {
    seq![START_BYTE] + frame_body(r) + seq![xor_fold(frame_body(r)), END_BYTE]
}

/// A frame under construction, in a fixed-capacity buffer.
pub struct DataFrame {
    data: heapless::Vec<u8, 32>,
}

impl View for DataFrame {
    type V = Seq<u8>;

    closed spec fn view(&self) -> Seq<u8> {
        hv_contents(self.data)
    }
}

impl DataFrame {
    /// An empty frame buffer.
    pub fn new() -> (r: Self)
        ensures
            r@ == Seq::<u8>::empty(),
    {
        Self { data: hv_new() }
    }

    /// Serializes `reading` into this buffer, replacing its previous contents.
    ///
    /// The fixed payload always fits the buffer's capacity, so building never
    /// fails; the error arm exists so a payload that outgrew the capacity
    /// would surface as a construction error rather than a truncated frame.
    pub fn build_frame(&mut self, reading: &SensorReading) -> (r: Result<(), ()>)
        ensures
            r is Ok,
            final(self)@ == frame_bytes(*reading),
    {
        hv_clear(&mut self.data);

        let (v0, v1, v2, v3) = u32_to_le(reading.value_bits);
        let (t0, t1, t2, t3) = u32_to_le(reading.timestamp);
        let data_length: u8 = 9;

        if hv_push(&mut self.data, START_BYTE).is_err() {
            return Err(());
        }
        if hv_push(&mut self.data, reading.sensor_id).is_err() {
            return Err(());
        }
        if hv_push(&mut self.data, data_length).is_err() {
            return Err(());
        }
        if hv_push(&mut self.data, reading.sensor_id).is_err() {
            return Err(());
        }
        if hv_push(&mut self.data, v0).is_err() {
            return Err(());
        }
        if hv_push(&mut self.data, v1).is_err() {
            return Err(());
        }
        if hv_push(&mut self.data, v2).is_err() {
            return Err(());
        }
        if hv_push(&mut self.data, v3).is_err() {
            return Err(());
        }
        if hv_push(&mut self.data, t0).is_err() {
            return Err(());
        }
        if hv_push(&mut self.data, t1).is_err() {
            return Err(());
        }
        if hv_push(&mut self.data, t2).is_err() {
            return Err(());
        }
        if hv_push(&mut self.data, t3).is_err() {
            return Err(());
        }

        assert(hv_contents(self.data) =~= seq![START_BYTE] + frame_body(*reading));

        let n = hv_len(&self.data);
        let mut checksum: u8 = 0;
        let mut i: usize = 1;
        while i < n
            invariant
                1 <= i <= n,
                n == hv_contents(self.data).len(),
                hv_contents(self.data) == seq![START_BYTE] + frame_body(*reading),
                checksum == xor_fold(hv_contents(self.data).subrange(1, i as int)),
            decreases n - i,
        {
            let ghost pre = hv_contents(self.data).subrange(1, i as int);
            checksum = checksum ^ hv_get(&self.data, i);
            proof {
                assert(hv_contents(self.data).subrange(1, i + 1 as int).drop_last() =~= pre);
            }
            i = i + 1;
        }
        assert(hv_contents(self.data).subrange(1, n as int) =~= frame_body(*reading));

        if hv_push(&mut self.data, checksum).is_err() {
            return Err(());
        }
        if hv_push(&mut self.data, END_BYTE).is_err() {
            return Err(());
        }

        assert(hv_contents(self.data) =~= frame_bytes(*reading));
        Ok(())
    }

    /// The bytes of the most recently built frame, in wire order.
    pub fn get_bytes(&self) -> (r: &[u8])
        ensures
            r@ == self@,
    {
        hv_as_slice(&self.data)
    }
}

} // verus!
