use sensor_frame::decoder::FrameParser;
use sensor_frame::encoder::DataFrame;
use sensor_frame::message::Message;
use sensor_frame::reading::SensorReading;
use sensor_frame::stats::Statistics;
use sensor_frame::{END_BYTE, MAX_DATA_LEN, SENSOR_HUMIDITY, START_BYTE};

fn encode(r: SensorReading) -> Vec<u8> {
    let mut f = DataFrame::new();
    f.build_frame(&r).unwrap();
    f.get_bytes().to_vec()
}

fn feed(p: &mut FrameParser, bytes: &[u8]) -> Vec<SensorReading> {
    let mut out = Vec::new();
    for b in bytes {
        if let Some(r) = p.process_byte(*b) {
            out.push(r);
        }
    }
    out
}

fn humidity_reading() -> SensorReading {
    SensorReading { sensor_id: SENSOR_HUMIDITY, value_bits: 45.0f32.to_bits(), timestamp: 1 }
}

#[test]
fn concrete_humidity_frame_encoding() {
    let bytes = encode(humidity_reading());
    assert_eq!(
        bytes,
        vec![0xAA, 0x02, 0x09, 0x02, 0x00, 0x00, 0x34, 0x42, 0x01, 0x00, 0x00, 0x00, 0x7E, 0x55]
    );
}

#[test]
fn concrete_humidity_frame_decodes() {
    let bytes = vec![
        0xAA, 0x02, 0x09, 0x02, 0x00, 0x00, 0x34, 0x42, 0x01, 0x00, 0x00, 0x00, 0x7E, 0x55,
    ];
    let mut p = FrameParser::new();
    let out = feed(&mut p, &bytes);
    assert_eq!(out.len(), 1);
    assert_eq!(out[0].sensor_id, 0x02);
    assert_eq!(f32::from_bits(out[0].value_bits), 45.0);
    assert_eq!(out[0].timestamp, 1);
}

#[test]
fn reading_emitted_only_at_final_byte() {
    let bytes = encode(humidity_reading());
    let mut p = FrameParser::new();
    for (i, b) in bytes.iter().enumerate() {
        let r = p.process_byte(*b);
        if i + 1 < bytes.len() {
            assert!(r.is_none());
        } else {
            assert_eq!(r, Some(humidity_reading()));
        }
    }
}

#[test]
fn round_trip_various_readings() {
    let cases = [
        SensorReading { sensor_id: 0x00, value_bits: 0, timestamp: 0 },
        SensorReading { sensor_id: 0xFF, value_bits: u32::MAX, timestamp: u32::MAX },
        SensorReading { sensor_id: 0x02, value_bits: (-3.25f32).to_bits(), timestamp: 77 },
        // data bytes that collide with the frame delimiters
        SensorReading { sensor_id: START_BYTE, value_bits: 0xAAAA_AAAA, timestamp: 0x5555_5555 },
        SensorReading { sensor_id: END_BYTE, value_bits: 0x55AA_55AA, timestamp: 0xAA55_AA55 },
    ];
    for r in cases {
        let mut p = FrameParser::new();
        let out = feed(&mut p, &encode(r));
        assert_eq!(out, vec![r]);
        // the decoder is idle again: the same frame decodes again
        let out2 = feed(&mut p, &encode(r));
        assert_eq!(out2, vec![r]);
    }
}

#[test]
fn truncated_frame_then_fresh_frames_recover() {
    let r = humidity_reading();
    let frame = encode(r);
    // cut anywhere before the end byte; one following frame can be consumed
    // by a stale in-progress parse, but the decoder resynchronizes on a
    // violation, so feeding the frame twice always yields it at least once
    for cut in 0..frame.len() {
        let mut p = FrameParser::new();
        let none = feed(&mut p, &frame[..cut]);
        assert!(none.is_empty());
        let mut decoded = feed(&mut p, &frame);
        decoded.extend(feed(&mut p, &frame));
        assert!(!decoded.is_empty(), "no recovery after cut at {cut}");
        for d in decoded {
            assert_eq!(d, r);
        }
    }
}

#[test]
fn single_bit_flip_yields_no_reading() {
    let frame = encode(humidity_reading());
    // header-or-data region: every byte the checksum covers
    for i in 1..=11 {
        for k in 0..8 {
            let mut bad = frame.clone();
            bad[i] ^= 1u8 << k;
            let mut p = FrameParser::new();
            let out = feed(&mut p, &bad);
            assert!(out.is_empty(), "flip at byte {i} bit {k} was accepted");
        }
    }
}

#[test]
fn zero_length_rejected_then_recovers() {
    let mut p = FrameParser::new();
    let out = feed(&mut p, &[START_BYTE, SENSOR_HUMIDITY, 0x00]);
    assert!(out.is_empty());
    let r = humidity_reading();
    assert_eq!(feed(&mut p, &encode(r)), vec![r]);
}

#[test]
fn oversized_length_rejected_then_recovers() {
    let r = humidity_reading();
    for len_byte in [MAX_DATA_LEN + 1, 0x40, 0xFF] {
        let mut p = FrameParser::new();
        let out = feed(&mut p, &[START_BYTE, SENSOR_HUMIDITY, len_byte]);
        assert!(out.is_empty());
        assert_eq!(feed(&mut p, &encode(r)), vec![r]);
    }
}

#[test]
fn checksum_mismatch_rejected_then_recovers() {
    let r = humidity_reading();
    let mut bad = encode(r);
    let ck_at = bad.len() - 2;
    bad[ck_at] ^= 0xFF;
    let mut p = FrameParser::new();
    assert!(feed(&mut p, &bad).is_empty());
    assert_eq!(feed(&mut p, &encode(r)), vec![r]);
}

#[test]
fn bad_end_byte_rejected_then_recovers() {
    let r = humidity_reading();
    let mut bad = encode(r);
    let end_at = bad.len() - 1;
    bad[end_at] = 0x00;
    let mut p = FrameParser::new();
    assert!(feed(&mut p, &bad).is_empty());
    assert_eq!(feed(&mut p, &encode(r)), vec![r]);
}

#[test]
fn sensor_id_cross_check_mismatch_rejected() {
    // header claims 0x03 but the data section embeds 0x02
    let data = [0x02u8, 0x00, 0x00, 0x34, 0x42, 0x01, 0x00, 0x00, 0x00];
    let mut bytes = vec![START_BYTE, 0x03, 0x09];
    bytes.extend_from_slice(&data);
    let mut ck = 0x03u8 ^ 0x09;
    for b in data {
        ck ^= b;
    }
    bytes.push(ck);
    bytes.push(END_BYTE);
    let mut p = FrameParser::new();
    assert!(feed(&mut p, &bytes).is_empty());
    // the frame was structurally complete, so the decoder is idle again
    let r = humidity_reading();
    assert_eq!(feed(&mut p, &encode(r)), vec![r]);
}

#[test]
fn start_byte_inside_data_section_decodes() {
    // a legitimate payload may contain the start byte; it is not escaped
    let r = SensorReading {
        sensor_id: SENSOR_HUMIDITY,
        value_bits: 0xAA00_00AA,
        timestamp: 0x0000_00AA,
    };
    let mut p = FrameParser::new();
    assert_eq!(feed(&mut p, &encode(r)), vec![r]);
}

#[test]
fn injected_start_byte_resynchronizes_within_bounded_violations() {
    let r = humidity_reading();
    let mut bad = encode(r);
    bad[5] = START_BYTE;  // corrupt one data byte to the start marker
    let mut p = FrameParser::new();
    assert!(feed(&mut p, &bad).is_empty());
    // the decoder may misparse once, but recovers within two fresh frames
    let mut decoded = feed(&mut p, &encode(r));
    decoded.extend(feed(&mut p, &encode(r)));
    assert!(!decoded.is_empty());
    for d in decoded {
        assert_eq!(d, r);
    }
}

#[test]
fn arbitrary_noise_never_wedges_the_decoder() {
    // pseudo-random junk, then two valid frames: at least one decodes
    let r = humidity_reading();
    let mut x = 0x12345678u32;
    let mut noise = Vec::new();
    for _ in 0..512 {
        x = x.wrapping_mul(1664525).wrapping_add(1013904223);
        noise.push((x >> 24) as u8);
    }
    let mut p = FrameParser::new();
    feed(&mut p, &noise);
    let mut decoded = feed(&mut p, &encode(r));
    decoded.extend(feed(&mut p, &encode(r)));
    assert!(!decoded.is_empty());
    for d in decoded {
        assert_eq!(d, r);
    }
}

#[test]
fn statistics_track_humidity_readings() {
    let mut s = Statistics::new();
    assert_eq!(s.total_frames, 0);
    assert_eq!(s.humidity_count, 0);
    s.update(&humidity_reading());
    assert_eq!(s.total_frames, 1);
    assert_eq!(s.humidity_count, 1);
    assert_eq!(f32::from_bits(s.last_humidity_bits), 45.0);
    let other = SensorReading { sensor_id: 0x07, value_bits: 0, timestamp: 2 };
    s.update(&other);
    assert_eq!(s.total_frames, 2);
    assert_eq!(s.humidity_count, 1);
    assert_eq!(f32::from_bits(s.last_humidity_bits), 45.0);
}

#[test]
fn empty_frame_buffer_has_no_bytes() {
    let f = DataFrame::new();
    assert!(f.get_bytes().is_empty());
}

#[test]
fn reset_returns_parser_to_idle() {
    let r = humidity_reading();
    let frame = encode(r);
    let mut p = FrameParser::new();
    feed(&mut p, &frame[..7]);
    p.reset();
    assert_eq!(feed(&mut p, &frame), vec![r]);
}

#[test]
fn button_message_holds_its_state() {
    let m = Message::Button(true);
    assert_eq!(m, Message::Button(true));
    assert_ne!(m, Message::Button(false));
}
