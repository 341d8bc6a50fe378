//! Protocol-level guarantees, proved over the decoder's mathematical model.

use vstd::prelude::*;

use crate::bytes::{lemma_u32_le_round_trip, lemma_xor_fold_push, lemma_xor_fold_update, u32_le_bytes, xor_fold};
use crate::decoder::{
    emitted_from, init_model, run_from, step, step_emit, wf_model, ParseState, ParserModel,
};
use crate::encoder::{frame_body, frame_bytes};
use crate::reading::SensorReading;
use crate::{END_BYTE, MAX_DATA_LEN, MAX_FRAME_SIZE, START_BYTE};

verus! {

/// The running checksum equals the fold of the header bytes seen so far and
/// the buffered data.
pub open spec fn ck_tracks(m: ParserModel) -> bool {
    m.expected_checksum == xor_fold(seq![m.sensor_id, m.data_length] + m.buffer)
}

/// One decoder step keeps the state well formed, so the data buffer never
/// outgrows the largest accepted payload: a corrupt length field is rejected
/// before it can overrun the buffer.
pub proof fn lemma_wf_preserved(m: ParserModel, byte: u8)
    requires
        wf_model(m),
    ensures
        wf_model(step(m, byte)),
        step(m, byte).buffer.len() <= MAX_DATA_LEN,
{
}

/// Running the data phase to its end: the declared number of bytes is
/// buffered in order, folded into the checksum, and nothing is emitted.
proof fn lemma_data_run(m: ParserModel, d: Seq<u8>)
    requires
        m.state == ParseState::ReadingData,
        ck_tracks(m),
        m.bytes_read == m.buffer.len(),
        m.buffer.len() + d.len() == m.data_length,
        0 < m.data_length <= MAX_DATA_LEN,
        d.len() > 0,
    ensures
        run_from(m, d).state == ParseState::ReadingChecksum,
        run_from(m, d).buffer == m.buffer + d,
        run_from(m, d).sensor_id == m.sensor_id,
        run_from(m, d).data_length == m.data_length,
        ck_tracks(run_from(m, d)),
        emitted_from(m, d) == Seq::<SensorReading>::empty(),
    decreases d.len(),
{
    let b = d.first();
    let m1 = step(m, b);
    assert(m.buffer.len() < MAX_FRAME_SIZE);
    assert((seq![m.sensor_id, m.data_length] + m.buffer).push(b) =~= seq![
        m1.sensor_id,
        m1.data_length,
    ] + m1.buffer);
    lemma_xor_fold_push(seq![m.sensor_id, m.data_length] + m.buffer, b);
    if d.len() == 1 {
        assert(m1.buffer =~= m.buffer + d);
        assert(run_from(m1, d.drop_first()) == m1);
        assert(d.drop_first().len() == 0);
        assert(emitted_from(m1, d.drop_first()) =~= Seq::<SensorReading>::empty());
        assert(emitted_from(m, d) =~= Seq::<SensorReading>::empty());
    } else {
        lemma_data_run(m1, d.drop_first());
        assert(m1.buffer + d.drop_first() =~= m.buffer + d);
        assert(emitted_from(m, d) == emitted_from(m1, d.drop_first()));
    }
}

/// Consuming a concatenation is consuming the parts in turn, and emits the
/// readings of the first part followed by those of the second.
pub proof fn lemma_run_concat(m: ParserModel, a: Seq<u8>, b: Seq<u8>)
    ensures
        run_from(m, a + b) == run_from(run_from(m, a), b),
        emitted_from(m, a + b) == emitted_from(m, a) + emitted_from(run_from(m, a), b),
    decreases a.len(),
{
    if a.len() == 0 {
        assert(a + b =~= b);
        assert(emitted_from(m, a) + emitted_from(m, b) =~= emitted_from(m, b));
    } else {
        let m1 = step(m, a.first());
        assert((a + b).first() == a.first());
        assert((a + b).drop_first() =~= a.drop_first() + b);
        lemma_run_concat(m1, a.drop_first(), b);
        match step_emit(m, a.first()) {
            Some(r) => {
                assert(seq![r] + (emitted_from(m1, a.drop_first()) + emitted_from(
                    run_from(m1, a.drop_first()),
                    b,
                )) =~= (seq![r] + emitted_from(m1, a.drop_first())) + emitted_from(
                    run_from(m1, a.drop_first()),
                    b,
                ));
            },
            None => {},
        }
    }
}

/// From idle scanning, one complete well-formed frame is consumed whole: it
/// emits exactly its reading and leaves the decoder idle again. The idle
/// state's leftover header fields do not matter, because the frame's own
/// header overwrites them before they are read.
pub proof fn lemma_frame_decode(m: ParserModel, r: SensorReading)
    requires
        m.state == ParseState::WaitingForStart,
    ensures
        run_from(m, frame_bytes(r)) == init_model(),
        emitted_from(m, frame_bytes(r)) == seq![r],
{
    let s = frame_bytes(r);
    let body = frame_body(r);
    let v = u32_le_bytes(r.value_bits);
    let t = u32_le_bytes(r.timestamp);
    let data = seq![r.sensor_id] + v + t;
    let ck = xor_fold(body);
    let id = r.sensor_id;

    assert(s.first() == START_BYTE);
    let m1 = step(m, s.first());
    let s1 = s.drop_first();
    assert(s1.first() == id);
    let m2 = step(m1, s1.first());
    let s2 = s1.drop_first();
    assert(s2.first() == 9u8);
    let m3 = step(m2, s2.first());
    let s3 = s2.drop_first();
    assert(s3 =~= data + seq![ck, END_BYTE]);

    assert(m3.state == ParseState::ReadingData);
    assert(m3.data_length == 9 && m3.bytes_read == 0 && m3.sensor_id == id);
    assert(m3.buffer =~= Seq::<u8>::empty());

    // the seeded checksum equals the fold of the two header bytes
    assert(0u8 ^ id == id) by (bit_vector);
    assert(xor_fold(Seq::<u8>::empty()) == 0u8);
    assert(seq![id].drop_last() =~= Seq::<u8>::empty());
    assert(seq![id].last() == id);
    assert(xor_fold(seq![id]) == id);
    assert(seq![id, 9u8].drop_last() =~= seq![id]);
    assert(xor_fold(seq![id, 9u8]) == id ^ 9u8);
    assert(seq![m3.sensor_id, m3.data_length] + m3.buffer =~= seq![id, 9u8]);
    assert(ck_tracks(m3));

    lemma_data_run(m3, data);
    lemma_run_concat(m3, data, seq![ck, END_BYTE]);
    let m4 = run_from(m3, data);
    assert(m4.buffer =~= data);
    assert(seq![m4.sensor_id, m4.data_length] + m4.buffer =~= body);
    assert(m4.expected_checksum == ck);

    let cs = seq![ck, END_BYTE];
    assert(cs.first() == ck);
    let m5 = step(m4, ck);
    assert(m5.state == ParseState::ReadingEnd);
    assert(cs.drop_first().first() == END_BYTE);
    let m6 = step(m5, END_BYTE);
    assert(m6 == init_model());

    // the emitted reading is exactly `r`
    lemma_u32_le_round_trip(r.value_bits);
    lemma_u32_le_round_trip(r.timestamp);
    assert(m5.buffer[0] == id);
    assert(m5.buffer[1] == v[0] && m5.buffer[2] == v[1] && m5.buffer[3] == v[2] && m5.buffer[4]
        == v[3]);
    assert(m5.buffer[5] == t[0] && m5.buffer[6] == t[1] && m5.buffer[7] == t[2] && m5.buffer[8]
        == t[3]);
    assert(step_emit(m5, END_BYTE) == Some(r));

    assert(cs.drop_first().drop_first().len() == 0);
    assert(run_from(m6, cs.drop_first().drop_first()) == m6);
    assert(run_from(m5, cs.drop_first()) == m6);
    assert(run_from(m4, cs) == init_model());
    assert(run_from(m3, s3) == init_model());
    assert(run_from(m2, s2) == run_from(m3, s3));
    assert(run_from(m1, s1) == run_from(m2, s2));
    assert(run_from(m, s) == run_from(m1, s1));

    assert(emitted_from(m6, cs.drop_first().drop_first()) =~= Seq::<SensorReading>::empty());
    assert(emitted_from(m5, cs.drop_first()) =~= seq![r]);
    assert(emitted_from(m4, cs) =~= seq![r]);
    assert(emitted_from(m3, s3) =~= seq![r]);
    assert(emitted_from(m2, s2) =~= seq![r]);
    assert(emitted_from(m1, s1) =~= seq![r]);
    assert(emitted_from(m, s) =~= seq![r]);
}

/// Encoding then decoding is the identity: from the initial state, the frame
/// for any reading emits exactly that reading and returns the decoder to its
/// initial state.
pub proof fn lemma_round_trip(r: SensorReading)
    ensures
        run_from(init_model(), frame_bytes(r)) == init_model(),
        emitted_from(init_model(), frame_bytes(r)) == seq![r],
{
    lemma_frame_decode(init_model(), r);
}

/// Recovery: after any byte sequence that leaves the decoder scanning for a
/// start byte, a complete valid frame is still decoded, and the readings
/// already emitted are kept.
pub proof fn lemma_recovery_after_prefix(prefix: Seq<u8>, r: SensorReading)
    requires
        run_from(init_model(), prefix).state == ParseState::WaitingForStart,
    ensures
        run_from(init_model(), prefix + frame_bytes(r)) == init_model(),
        emitted_from(init_model(), prefix + frame_bytes(r)) == emitted_from(init_model(), prefix)
            + seq![r],
{
    lemma_run_concat(init_model(), prefix, frame_bytes(r));
    lemma_frame_decode(run_from(init_model(), prefix), r);
}

/// Fewest further bytes that could possibly complete a frame that emits a
/// reading, from a well-formed state. A reading needs a nine-byte data
/// section, so a frame in progress with a shorter declared length must first
/// be dropped (at its checksum or end byte at the earliest) and a fresh
/// frame parsed from the start.
pub open spec fn min_bytes_to_emit(m: ParserModel) -> int {
    match m.state {
        ParseState::WaitingForStart => 14,
        ParseState::ReadingSensorId => 13,
        ParseState::ReadingLength => 12,
        ParseState::ReadingData => if m.data_length >= 9 {
            m.data_length - m.bytes_read + 2
        } else {
            m.data_length - m.bytes_read + 15
        },
        ParseState::ReadingChecksum => if m.data_length >= 9 {
            2
        } else {
            15
        },
        ParseState::ReadingEnd => if m.data_length >= 9 {
            1
        } else {
            15
        },
    }
}

/// A well-formed decoder emits nothing on a byte sequence shorter than its
/// distance to the earliest possible emission.
proof fn lemma_no_short_emission(m: ParserModel, s: Seq<u8>)
    requires
        wf_model(m),
        s.len() < min_bytes_to_emit(m),
    ensures
        emitted_from(m, s) == Seq::<SensorReading>::empty(),
    decreases s.len(),
{
    if s.len() > 0 {
        let b = s.first();
        let m1 = step(m, b);
        lemma_wf_preserved(m, b);
        assert(step_emit(m, b) is None);
        assert(min_bytes_to_emit(m1) >= min_bytes_to_emit(m) - 1);
        lemma_no_short_emission(m1, s.drop_first());
        assert(emitted_from(m, s) == emitted_from(m1, s.drop_first()));
    }
}

/// Flipping a single bit of the length field of an otherwise valid frame
/// yields no reading: the remaining eleven bytes of the frame are too few to
/// complete any frame whose data section could hold a reading.
pub proof fn lemma_length_flip_yields_no_reading(r: SensorReading, k: u8)
    requires
        k < 8,
    ensures
        emitted_from(init_model(), frame_bytes(r).update(2, frame_bytes(r)[2] ^ (1u8 << k)))
            == Seq::<SensorReading>::empty(),
{
    let m = init_model();
    let s = frame_bytes(r);
    assert(s[2] == 9u8);
    let lb = (9u8 ^ (1u8 << k)) as u8;
    let s2 = s.update(2, lb);

    assert(s2.first() == START_BYTE);
    let m1 = step(m, s2.first());
    let t1 = s2.drop_first();
    assert(t1.first() == s2[1]);
    let m2 = step(m1, t1.first());
    let t2 = t1.drop_first();
    assert(t2.first() == lb);
    let m3 = step(m2, t2.first());
    let t3 = t2.drop_first();
    assert(t3.len() == 11);

    assert(lb != 9u8) by (bit_vector)
        requires
            k < 8,
            lb == (9u8 ^ (1u8 << k)) as u8,
    ;
    assert(wf_model(m3));
    assert(min_bytes_to_emit(m3) > 11);
    lemma_no_short_emission(m3, t3);

    assert(emitted_from(m2, t2) == emitted_from(m3, t3));
    assert(emitted_from(m1, t1) == emitted_from(m2, t2));
    assert(emitted_from(m, s2) == emitted_from(m1, t1));
}

/// Checksum sensitivity: flipping any single bit in the checksummed region
/// of an otherwise valid frame — header sensor id, length field, or data
/// section — yields no reading for that frame.
pub proof fn lemma_checksum_sensitivity(r: SensorReading, i: int, k: u8)
    requires
        1 <= i <= 11,
        k < 8,
    ensures
        emitted_from(init_model(), frame_bytes(r).update(i, frame_bytes(r)[i] ^ (1u8 << k)))
            == Seq::<SensorReading>::empty(),
{
    if i == 2 {
        lemma_length_flip_yields_no_reading(r, k);
    } else {
        lemma_checksum_catches_bit_flip(r, i, k);
    }
}

/// Flipping a single bit of any checksummed byte other than the length field
/// of an otherwise valid frame yields no reading: the frame keeps its shape,
/// the checksum comparison fails, and the frame's end byte leaves the decoder
/// idle for the next frame. (A flip inside the length field changes how many
/// bytes the decoder consumes; [`lemma_length_flip_yields_no_reading`] covers
/// it.)
pub proof fn lemma_checksum_catches_bit_flip(r: SensorReading, i: int, k: u8)
    requires
        1 <= i <= 11,
        i != 2,
        k < 8,
    ensures
        run_from(init_model(), frame_bytes(r).update(i, frame_bytes(r)[i] ^ (1u8 << k)))
            == init_model(),
        emitted_from(init_model(), frame_bytes(r).update(i, frame_bytes(r)[i] ^ (1u8 << k)))
            == Seq::<SensorReading>::empty(),
{
    let m = init_model();
    let s = frame_bytes(r);
    let body = frame_body(r);
    let x = s[i];
    let b = (x ^ (1u8 << k)) as u8;
    let s2 = s.update(i, b);
    let body2 = body.update(i - 1, b);
    let f = xor_fold(body);
    assert(s[i] == body[i - 1]);

    assert(s2.first() == START_BYTE);
    let m1 = step(m, s2.first());
    let t1 = s2.drop_first();
    let id2 = s2[1];
    assert(t1.first() == id2);
    let m2 = step(m1, t1.first());
    let t2 = t1.drop_first();
    assert(t2.first() == 9u8);
    let m3 = step(m2, t2.first());
    let t3 = t2.drop_first();
    let data2 = body2.subrange(2, 11);
    assert(t3 =~= data2 + seq![f, END_BYTE]);

    assert(m3.state == ParseState::ReadingData);
    assert(m3.data_length == 9 && m3.bytes_read == 0 && m3.sensor_id == id2);
    assert(m3.buffer =~= Seq::<u8>::empty());

    assert(0u8 ^ id2 == id2) by (bit_vector);
    assert(xor_fold(Seq::<u8>::empty()) == 0u8);
    assert(seq![id2].drop_last() =~= Seq::<u8>::empty());
    assert(seq![id2].last() == id2);
    assert(xor_fold(seq![id2]) == id2);
    assert(seq![id2, 9u8].drop_last() =~= seq![id2]);
    assert(xor_fold(seq![id2, 9u8]) == id2 ^ 9u8);
    assert(seq![m3.sensor_id, m3.data_length] + m3.buffer =~= seq![id2, 9u8]);
    assert(ck_tracks(m3));

    lemma_data_run(m3, data2);
    lemma_run_concat(m3, data2, seq![f, END_BYTE]);
    let m4 = run_from(m3, data2);
    assert(seq![m4.sensor_id, m4.data_length] + m4.buffer =~= body2);
    assert(m4.expected_checksum == xor_fold(body2));

    // one flipped bit moves the fold away from the stored checksum
    lemma_xor_fold_update(body, i - 1, b);
    assert(f ^ x ^ (x ^ (1u8 << k)) != f) by (bit_vector)
        requires
            k < 8,
    ;
    assert(m4.expected_checksum != f);

    let cs = seq![f, END_BYTE];
    assert(cs.first() == f);
    let m5 = step(m4, f);
    assert(m5 == init_model());
    assert(cs.drop_first().first() == END_BYTE);
    let m6 = step(m5, END_BYTE);
    assert(m6 == init_model());
    assert(cs.drop_first().drop_first().len() == 0);
    assert(run_from(m6, cs.drop_first().drop_first()) == m6);
    assert(run_from(m5, cs.drop_first()) == m6);
    assert(run_from(m4, cs) == init_model());
    assert(run_from(m3, t3) == init_model());
    assert(run_from(m2, t2) == run_from(m3, t3));
    assert(run_from(m1, t1) == run_from(m2, t2));
    assert(run_from(m, s2) == run_from(m1, t1));

    assert(emitted_from(m6, cs.drop_first().drop_first()) =~= Seq::<SensorReading>::empty());
    assert(emitted_from(m5, cs.drop_first()) =~= Seq::<SensorReading>::empty());
    assert(emitted_from(m4, cs) =~= Seq::<SensorReading>::empty());
    assert(emitted_from(m3, t3) =~= Seq::<SensorReading>::empty());
    assert(emitted_from(m2, t2) =~= Seq::<SensorReading>::empty());
    assert(emitted_from(m1, t1) =~= Seq::<SensorReading>::empty());
    assert(emitted_from(m, s2) =~= Seq::<SensorReading>::empty());
}

/// A declared data length of zero, or above the accepted bound, is rejected
/// as soon as it is read: the decoder returns to idle, emits nothing, and has
/// buffered nothing.
pub proof fn lemma_length_bound_rejected(m: ParserModel, id: u8, len_byte: u8)
    requires
        m.state == ParseState::WaitingForStart,
        len_byte == 0 || len_byte > MAX_DATA_LEN,
    ensures
        run_from(m, seq![START_BYTE, id, len_byte]) == init_model(),
        emitted_from(m, seq![START_BYTE, id, len_byte]) == Seq::<SensorReading>::empty(),
{
    let s = seq![START_BYTE, id, len_byte];
    let m1 = step(m, s.first());
    let s1 = s.drop_first();
    assert(s1.first() == id);
    let m2 = step(m1, s1.first());
    let s2 = s1.drop_first();
    assert(s2.first() == len_byte);
    let m3 = step(m2, s2.first());
    assert(m3 == init_model());
    assert(s2.drop_first().len() == 0);
    assert(run_from(m3, s2.drop_first()) == m3);
    assert(run_from(m2, s2) == m3);
    assert(run_from(m1, s1) == m3);
    assert(run_from(m, s) == m3);
    assert(emitted_from(m3, s2.drop_first()) =~= Seq::<SensorReading>::empty());
    assert(emitted_from(m2, s2) =~= Seq::<SensorReading>::empty());
    assert(emitted_from(m1, s1) =~= Seq::<SensorReading>::empty());
    assert(emitted_from(m, s) =~= Seq::<SensorReading>::empty());
}

} // verus!

