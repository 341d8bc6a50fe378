//! The frame decoder: a byte-at-a-time resynchronizing state machine.
//!
//! The decoder consumes an unbounded, possibly corrupted byte stream and emits
//! a reading exactly when a complete, checksum-correct, well-terminated frame
//! has been observed. On any violation it drops the frame in progress and
//! falls back to scanning for the next start byte; it never fails hard.

use vstd::prelude::*;

use crate::buffer::{hv_clear, hv_contents, hv_get, hv_len, hv_new, hv_push};
use crate::bytes::{u32_from_le, u32_from_le_parts};
use crate::reading::SensorReading;
use crate::{END_BYTE, MAX_DATA_LEN, MAX_FRAME_SIZE, START_BYTE};

verus! {

/// Phase of the receiving automaton.
#[derive(Clone, Copy, Debug, PartialEq, Eq, Structural)]
pub enum ParseState {
    WaitingForStart,
    ReadingSensorId,
    ReadingLength,
    ReadingData,
    ReadingChecksum,
    ReadingEnd,
}

/// Mathematical state of the decoder: what [`FrameParser`] holds, with the
/// byte buffer abstracted to a sequence.
#[verifier::ext_equal]
pub ghost struct ParserModel {
    pub state: ParseState,
    pub buffer: Seq<u8>,
    pub sensor_id: u8,
    pub data_length: u8,
    pub bytes_read: nat,
    pub expected_checksum: u8,
}

/// The decoder's idle state: scanning for a start byte, everything cleared.
pub open spec fn init_model() -> ParserModel {
    ParserModel {
        state: ParseState::WaitingForStart,
        buffer: Seq::<u8>::empty(),
        sensor_id: 0,
        data_length: 0,
        bytes_read: 0,
        expected_checksum: 0,
    }
}

/// The reading a structurally complete frame yields, if its data section is
/// long enough and its embedded sensor id matches the header's.
pub open spec fn payload_reading(m: ParserModel) -> Option<SensorReading> {
    if m.buffer.len() < 9 {
        None
    } else if m.buffer[0] != m.sensor_id {
        None
    } else {
        Some(
            SensorReading {
                sensor_id: m.buffer[0],
                value_bits: u32_from_le(m.buffer[1], m.buffer[2], m.buffer[3], m.buffer[4]),
                timestamp: u32_from_le(m.buffer[5], m.buffer[6], m.buffer[7], m.buffer[8]),
            },
        )
    }
}

/// The decoder state after consuming one byte.
pub open spec fn step(m: ParserModel, byte: u8) -> ParserModel {
    match m.state {
        ParseState::WaitingForStart => if byte == START_BYTE {
            ParserModel { state: ParseState::ReadingSensorId, buffer: Seq::<u8>::empty(), ..m }
        } else {
            m
        },
        ParseState::ReadingSensorId => ParserModel {
            state: ParseState::ReadingLength,
            sensor_id: byte,
            expected_checksum: byte,
            ..m
        },
        ParseState::ReadingLength => if 0 < byte && byte <= MAX_DATA_LEN {
            ParserModel {
                state: ParseState::ReadingData,
                data_length: byte,
                expected_checksum: m.expected_checksum ^ byte,
                bytes_read: 0,
                buffer: Seq::<u8>::empty(),
                ..m
            }
        } else {
            init_model()
        },
        ParseState::ReadingData => if m.buffer.len() >= MAX_FRAME_SIZE {
            init_model()
        } else {
            let stepped = ParserModel {
                buffer: m.buffer.push(byte),
                expected_checksum: m.expected_checksum ^ byte,
                bytes_read: m.bytes_read + 1,
                ..m
            };
            if m.bytes_read + 1 >= m.data_length {
                ParserModel { state: ParseState::ReadingChecksum, ..stepped }
            } else {
                stepped
            }
        },
        ParseState::ReadingChecksum => if byte == m.expected_checksum {
            ParserModel { state: ParseState::ReadingEnd, ..m }
        } else {
            init_model()
        },
        ParseState::ReadingEnd => init_model(),
    }
}

/// The reading, if any, that consuming one byte emits.
pub open spec fn step_emit(m: ParserModel, byte: u8) -> Option<SensorReading> {
    if m.state == ParseState::ReadingEnd && byte == END_BYTE {
        payload_reading(m)
    } else {
        None
    }
}

/// The decoder state after consuming a whole byte sequence, front first.
pub open spec fn run_from(m: ParserModel, s: Seq<u8>) -> ParserModel
    decreases s.len(),
{
    if s.len() == 0 {
        m
    } else {
        run_from(step(m, s.first()), s.drop_first())
    }
}

/// Every reading a byte sequence emits, in order.
pub open spec fn emitted_from(m: ParserModel, s: Seq<u8>) -> Seq<SensorReading>
    decreases s.len(),
{
    if s.len() == 0 {
        Seq::<SensorReading>::empty()
    } else {
        let rest = emitted_from(step(m, s.first()), s.drop_first());
        match step_emit(m, s.first()) {
            Some(r) => seq![r] + rest,
            None => rest,
        }
    }
}

/// Well-formedness of a decoder state: the buffer tracks the progress counter
/// and never outgrows the accepted payload bound.
pub open spec fn wf_model(m: ParserModel) -> bool {
    match m.state {
        ParseState::WaitingForStart => m.buffer.len() == 0,
        ParseState::ReadingSensorId => m.buffer.len() == 0,
        ParseState::ReadingLength => m.buffer.len() == 0,
        ParseState::ReadingData => 0 < m.data_length <= MAX_DATA_LEN && m.buffer.len()
            == m.bytes_read && m.bytes_read < m.data_length,
        ParseState::ReadingChecksum => 0 < m.data_length <= MAX_DATA_LEN && m.buffer.len()
            == m.data_length,
        ParseState::ReadingEnd => 0 < m.data_length <= MAX_DATA_LEN && m.buffer.len()
            == m.data_length,
    }
}

/// The byte-stream parser: phase, bounded buffer, header fields captured so
/// far, and the running checksum.
pub struct FrameParser {
    state: ParseState,
    buffer: heapless::Vec<u8, 32>,
    sensor_id: u8,
    data_length: u8,
    bytes_read: usize,
    expected_checksum: u8,
}

impl View for FrameParser {
    type V = ParserModel;

    closed spec fn view(&self) -> ParserModel {
        ParserModel {
            state: self.state,
            buffer: hv_contents(self.buffer),
            sensor_id: self.sensor_id,
            data_length: self.data_length,
            bytes_read: self.bytes_read as nat,
            expected_checksum: self.expected_checksum,
        }
    }
}

impl FrameParser {
    /// Well-formedness of this parser's state.
    pub open spec fn wf(&self) -> bool {
        wf_model(self@)
    }

    /// A parser in its idle state.
    pub fn new() -> (r: Self)
        ensures
            r@ == init_model(),
            r.wf(),
    {
        let r = Self {
            state: ParseState::WaitingForStart,
            buffer: hv_new(),
            sensor_id: 0,
            data_length: 0,
            bytes_read: 0,
            expected_checksum: 0,
        };
        proof {
            assert(r@ =~= init_model());
        }
        r
    }

    /// Discards all state accumulated for the frame in progress and returns
    /// to scanning for a start byte.
    pub fn reset(&mut self)
        ensures
            final(self)@ == init_model(),
            final(self).wf(),
    {
        self.state = ParseState::WaitingForStart;
        hv_clear(&mut self.buffer);
        self.sensor_id = 0;
        self.data_length = 0;
        self.bytes_read = 0;
        self.expected_checksum = 0;
        proof {
            assert(self@ =~= init_model());
        }
    }

    /// Consumes one byte of the stream and emits a reading exactly when this
    /// byte completes a valid frame.
    pub fn process_byte(&mut self, byte: u8) -> (r: Option<SensorReading>)
        requires
            old(self).wf(),
        ensures
            final(self)@ == step(old(self)@, byte),
            r == step_emit(old(self)@, byte),
            final(self).wf(),
    {
        match self.state {
            ParseState::WaitingForStart => {
                if byte == START_BYTE {
                    hv_clear(&mut self.buffer);
                    self.state = ParseState::ReadingSensorId;
                }
                proof {
                    assert(self@ =~= step(old(self)@, byte));
                }
                None
            },
            ParseState::ReadingSensorId => {
                self.sensor_id = byte;
                self.expected_checksum = byte;
                self.state = ParseState::ReadingLength;
                proof {
                    assert(self@ =~= step(old(self)@, byte));
                }
                None
            },
            ParseState::ReadingLength => {
                self.data_length = byte;
                self.expected_checksum = self.expected_checksum ^ byte;
                self.bytes_read = 0;
                hv_clear(&mut self.buffer);
                if self.data_length > 0 && self.data_length <= MAX_DATA_LEN {
                    self.state = ParseState::ReadingData;
                    proof {
                        assert(self@ =~= step(old(self)@, byte));
                    }
                } else {
                    self.reset();
                }
                None
            },
            ParseState::ReadingData => {
                if hv_push(&mut self.buffer, byte).is_err() {
                    self.reset();
                    return None;
                }
                self.expected_checksum = self.expected_checksum ^ byte;
                self.bytes_read = self.bytes_read + 1;
                if self.bytes_read >= self.data_length as usize {
                    self.state = ParseState::ReadingChecksum;
                }
                proof {
                    assert(self@ =~= step(old(self)@, byte));
                }
                None
            },
            ParseState::ReadingChecksum => {
                if byte == self.expected_checksum {
                    self.state = ParseState::ReadingEnd;
                } else {
                    self.reset();
                }
                None
            },
            ParseState::ReadingEnd => {
                if byte == END_BYTE {
                    let reading = self.parse_sensor_data();
                    self.reset();
                    reading
                } else {
                    self.reset();
                    None
                }
            },
        }
    }

    /// Decodes the accumulated data section into a reading, checking the
    /// embedded sensor id against the header's.
    pub fn parse_sensor_data(&self) -> (r: Option<SensorReading>)
        ensures
            r == payload_reading(self@),
    {
        let n = hv_len(&self.buffer);
        if n < 9 {
            return None;
        }
        let received_sensor_id = hv_get(&self.buffer, 0);
        if received_sensor_id != self.sensor_id {
            return None;
        }
        let value_bits = u32_from_le_parts(
            hv_get(&self.buffer, 1),
            hv_get(&self.buffer, 2),
            hv_get(&self.buffer, 3),
            hv_get(&self.buffer, 4),
        );
        let timestamp = u32_from_le_parts(
            hv_get(&self.buffer, 5),
            hv_get(&self.buffer, 6),
            hv_get(&self.buffer, 7),
            hv_get(&self.buffer, 8),
        );
        Some(SensorReading { sensor_id: received_sensor_id, value_bits, timestamp })
    }
}

} // verus!
