use flint_proto::{
    crc16_ccitt, decode, encode, encode_frame_report, encode_raw_frame, find_sync, parse_record, write_frame,
    BridgeError, BridgeRecord, Disposition, FlintPayload, LinkQuality, MeshEnvelope, ParseOutcome, WeatherPacket,
    BRIDGE_MAX_FRAME, BRIDGE_SYNC, MAX_PACKET_BYTES,
};

fn sample_envelope() -> MeshEnvelope {
    MeshEnvelope::new_broadcast(
        0x0a2b_3c4d,
        0xdead_beef,
        FlintPayload::SensorReading(WeatherPacket {
            node_id: 7,
            temp_c: 2350,
            humidity_pct: 42,
            gas_resistance_ohms: 51234,
            wind_speed_ms: 14,
            wind_dir_deg: 270,
            fuel_moisture: 12,
            battery_soc: 88,
            battery_mv: 4012,
            solar_ma: 120,
            load_ma: 35,
            power_flags: 0,
            sequence: 9,
        }),
    )
}

#[test]
fn frame_report_round_trip() {
    let env = sample_envelope();
    let mut envbuf = [0u8; MAX_PACKET_BYTES];
    let env_bytes = encode(&env, &mut envbuf).unwrap();
    let link = LinkQuality {
        rssi: -91,
        snr: 7,
        len: env_bytes.len() as u8,
    };

    let mut out = [0u8; BRIDGE_MAX_FRAME];
    let n = encode_frame_report(&link, Disposition::Relayed, 2, env_bytes, &mut out).unwrap();

    match parse_record(&out[..n]) {
        ParseOutcome::Record { record, consumed } => {
            assert_eq!(consumed, n);
            match record {
                BridgeRecord::Frame {
                    link: l,
                    disposition,
                    hops_left,
                    envelope,
                } => {
                    assert_eq!(l, link);
                    assert_eq!(disposition, Disposition::Relayed);
                    assert_eq!(hops_left, 2);
                    let decoded = decode(&envelope).unwrap();
                    assert_eq!(decoded.from, env.from);
                    assert_eq!(decoded.packet_id, env.packet_id);
                }
                other => panic!("expected Frame, got {other:?}"),
            }
        }
        other => panic!("expected Record, got {other:?}"),
    }
}

#[test]
fn raw_frame_round_trip() {
    let raw = [0x01, 0x02, 0x03, 0xfe, 0xff];
    let link = LinkQuality {
        rssi: -120,
        snr: -8,
        len: raw.len() as u8,
    };
    let mut out = [0u8; BRIDGE_MAX_FRAME];
    let n = encode_raw_frame(&link, &raw, &mut out).unwrap();

    match parse_record(&out[..n]) {
        ParseOutcome::Record { record, consumed } => {
            assert_eq!(consumed, n);
            match record {
                BridgeRecord::Raw { link: l, data } => {
                    assert_eq!(l, link);
                    assert_eq!(&data[..], &raw[..]);
                }
                other => panic!("expected Raw, got {other:?}"),
            }
        }
        other => panic!("expected Record, got {other:?}"),
    }
}

#[test]
fn resyncs_after_leading_garbage() {
    let link = LinkQuality {
        rssi: -70,
        snr: 9,
        len: 3,
    };
    let mut frame = [0u8; BRIDGE_MAX_FRAME];
    let n = encode_raw_frame(&link, &[0xaa, 0xbb, 0xcc], &mut frame).unwrap();

    // Prepend boot/panic-like garbage (including a lone sync byte) before the frame.
    let mut stream = std::vec::Vec::new();
    stream.extend_from_slice(b"booting...\xf1 panic\r\n");
    stream.extend_from_slice(&frame[..n]);

    // Drive the parser the way the gateway would, skipping until the record.
    let mut pos = 0;
    loop {
        match parse_record(&stream[pos..]) {
            ParseOutcome::Record { record, consumed } => {
                match record {
                    BridgeRecord::Raw { data, .. } => {
                        assert_eq!(&data[..], &[0xaa, 0xbb, 0xcc]);
                    }
                    other => panic!("expected Raw, got {other:?}"),
                }
                assert_eq!(consumed, n);
                break;
            }
            ParseOutcome::Skip(k) => {
                assert!(k > 0);
                pos += k;
            }
            ParseOutcome::NeedMore => panic!("ran out of bytes before finding record"),
        }
    }
}

#[test]
fn rejects_corrupt_crc() {
    let link = LinkQuality {
        rssi: -70,
        snr: 9,
        len: 3,
    };
    let mut frame = [0u8; BRIDGE_MAX_FRAME];
    let n = encode_raw_frame(&link, &[0xaa, 0xbb, 0xcc], &mut frame).unwrap();
    // Flip a body byte so the CRC no longer matches.
    frame[5] ^= 0xff;

    match parse_record(&frame[..n]) {
        ParseOutcome::Skip(k) => assert_eq!(k, 2),
        other => panic!("expected Skip on bad CRC, got {other:?}"),
    }
}

#[test]
fn crc_matches_the_standard_check_value() {
    assert_eq!(crc16_ccitt(b"123456789"), 0x29B1);
    assert_eq!(crc16_ccitt(&[]), 0xFFFF);
}

#[test]
fn raw_frame_has_the_documented_layout() {
    let link = LinkQuality { rssi: -2, snr: 258, len: 1 };
    let mut out = [0x77u8; 20];
    let n = encode_raw_frame(&link, &[0xab], &mut out).unwrap();
    assert_eq!(n, 12);
    let body = [0xfe, 0xff, 0x02, 0x01, 0x01, 0xab];
    assert_eq!(&out[..6], &[BRIDGE_SYNC[0], BRIDGE_SYNC[1], 0x02, 6, 0xfe, 0xff]);
    assert_eq!(&out[4..10], &body);
    let mut covered = vec![0x02u8, 6];
    covered.extend_from_slice(&body);
    let crc = crc16_ccitt(&covered);
    assert_eq!(out[10], (crc & 0xff) as u8);
    assert_eq!(out[11], (crc >> 8) as u8);
    // Bytes past the record are left alone.
    assert_eq!(&out[12..], &[0x77u8; 8]);
}

#[test]
fn frame_report_body_carries_disposition_code() {
    let link = LinkQuality { rssi: 0, snr: 0, len: 2 };
    let mut out = [0u8; BRIDGE_MAX_FRAME];
    let n = encode_frame_report(&link, Disposition::Duplicate, 0, &[9, 8], &mut out).unwrap();
    assert_eq!(n, 15);
    assert_eq!(out[2], 0x01);
    assert_eq!(out[3], 9);
    assert_eq!(out[9], 2);
    assert_eq!(out[10], 0);
    assert_eq!(&out[11..13], &[9, 8]);
}

#[test]
fn write_frame_rejects_long_body_and_small_buffer() {
    let body = [0u8; 256];
    let mut out = [0u8; 300];
    assert_eq!(write_frame(0x02, &body, &mut out), Err(BridgeError::BodyTooLong));
    let mut small = [0u8; 8];
    assert_eq!(write_frame(0x02, &[1, 2, 3], &mut small), Err(BridgeError::BufferTooSmall));
    assert_eq!(small, [0u8; 8]);
    let mut exact = [0u8; 9];
    assert_eq!(write_frame(0x02, &[1, 2, 3], &mut exact), Ok(9));
}

#[test]
fn encoders_reject_oversized_payloads() {
    let link = LinkQuality { rssi: 0, snr: 0, len: 0 };
    let big = [0u8; MAX_PACKET_BYTES + 1];
    let mut out = [0u8; 200];
    assert_eq!(encode_raw_frame(&link, &big, &mut out), Err(BridgeError::BodyTooLong));
    assert_eq!(
        encode_frame_report(&link, Disposition::Relayed, 1, &big, &mut out),
        Err(BridgeError::BodyTooLong)
    );
    let mut tiny = [0u8; 10];
    assert_eq!(encode_raw_frame(&link, &[], &mut tiny), Err(BridgeError::BufferTooSmall));
    assert_eq!(encode_raw_frame(&link, &[], &mut out), Ok(11));
}

#[test]
fn parser_waits_for_more_input() {
    assert!(matches!(parse_record(&[]), ParseOutcome::NeedMore));
    assert!(matches!(parse_record(&[0x41]), ParseOutcome::NeedMore));
    assert!(matches!(parse_record(&[0xf1]), ParseOutcome::NeedMore));
    assert!(matches!(parse_record(&[0xf1, 0x5e, 0x02]), ParseOutcome::NeedMore));
    let link = LinkQuality { rssi: 1, snr: 2, len: 3 };
    let mut frame = [0u8; BRIDGE_MAX_FRAME];
    let n = encode_raw_frame(&link, &[1, 2, 3], &mut frame).unwrap();
    assert!(matches!(parse_record(&frame[..n - 1]), ParseOutcome::NeedMore));
}

#[test]
fn parser_skips_everything_but_a_possible_sync_byte() {
    match parse_record(b"hello") {
        ParseOutcome::Skip(k) => assert_eq!(k, 4),
        other => panic!("expected Skip, got {other:?}"),
    }
    match parse_record(&[1, 2, 0xf1, 0x5e, 0x02]) {
        ParseOutcome::Skip(k) => assert_eq!(k, 2),
        other => panic!("expected Skip, got {other:?}"),
    }
    assert_eq!(find_sync(&[1, 0xf1, 0xf1, 0x5e]), Some(2));
    assert_eq!(find_sync(&[0x5e, 0xf1]), None);
}

#[test]
fn parser_rejects_unknown_tag_and_disposition() {
    // A CRC-valid record with an unknown tag.
    let mut out = [0u8; 32];
    let n = write_frame(0x07, &[1, 2, 3, 4, 5], &mut out).unwrap();
    assert!(matches!(parse_record(&out[..n]), ParseOutcome::Skip(2)));
    // A CRC-valid FrameReport whose disposition code is unknown.
    let n = write_frame(0x01, &[0, 0, 0, 0, 0, 9, 0], &mut out).unwrap();
    assert!(matches!(parse_record(&out[..n]), ParseOutcome::Skip(2)));
    // A CRC-valid RawFrame whose body is shorter than its header.
    let n = write_frame(0x02, &[0, 0, 0], &mut out).unwrap();
    assert!(matches!(parse_record(&out[..n]), ParseOutcome::Skip(2)));
    // A CRC-valid RawFrame whose payload exceeds the capacity.
    let mut long = vec![0u8; 5];
    long.extend_from_slice(&[0xaa; MAX_PACKET_BYTES + 1]);
    let mut big_out = [0u8; 80];
    let n = write_frame(0x02, &long, &mut big_out).unwrap();
    assert!(matches!(parse_record(&big_out[..n]), ParseOutcome::Skip(2)));
}

#[test]
fn record_constructors_truncate_to_capacity() {
    let link = LinkQuality { rssi: 0, snr: 0, len: 60 };
    let long = [5u8; 60];
    match BridgeRecord::raw(link, &long) {
        BridgeRecord::Raw { data, .. } => assert_eq!(&data[..], &long[..MAX_PACKET_BYTES]),
        other => panic!("expected Raw, got {other:?}"),
    }
    match BridgeRecord::frame(link, Disposition::LocalOnly, 0, &[1, 2]) {
        BridgeRecord::Frame { envelope, disposition, .. } => {
            assert_eq!(&envelope[..], &[1, 2]);
            assert_eq!(disposition, Disposition::LocalOnly);
        }
        other => panic!("expected Frame, got {other:?}"),
    }
}

#[test]
fn disposition_codes_round_trip() {
    for d in [Disposition::Relayed, Disposition::LocalOnly, Disposition::Duplicate] {
        assert_eq!(Disposition::from_u8(d.to_u8()), Some(d));
    }
    assert_eq!(Disposition::Relayed.to_u8(), 0);
    assert_eq!(Disposition::LocalOnly.to_u8(), 1);
    assert_eq!(Disposition::Duplicate.to_u8(), 2);
    assert_eq!(Disposition::from_u8(3), None);
    assert_eq!(Disposition::Relayed.as_str(), "relayed");
    assert_eq!(Disposition::LocalOnly.as_str(), "local");
    assert_eq!(Disposition::Duplicate.as_str(), "duplicate");
}

#[test]
fn any_single_corrupted_byte_is_rejected() {
    let link = LinkQuality { rssi: -70, snr: 9, len: 3 };
    let mut frame = [0u8; BRIDGE_MAX_FRAME];
    let n = encode_frame_report(&link, Disposition::LocalOnly, 0, &[0x10, 0x20, 0x30], &mut frame).unwrap();
    for p in (2..n).filter(|&p| p != 3) {
        for flip in [0x01u8, 0x80, 0xff] {
            let mut bad = frame;
            bad[p] ^= flip;
            match parse_record(&bad[..n]) {
                ParseOutcome::Skip(k) => assert_eq!(k, 2),
                other => panic!("byte {p} flipped by {flip:#x}: expected Skip, got {other:?}"),
            }
        }
    }
}

#[test]
fn largest_records_fit_the_maximum_frame() {
    let link = LinkQuality { rssi: i16::MIN, snr: i16::MAX, len: 255 };
    let payload = [0x5au8; MAX_PACKET_BYTES];
    let mut out = [0u8; BRIDGE_MAX_FRAME];
    assert_eq!(encode_frame_report(&link, Disposition::Relayed, 3, &payload, &mut out), Ok(BRIDGE_MAX_FRAME));
    assert!(matches!(parse_record(&out), ParseOutcome::Record { consumed: BRIDGE_MAX_FRAME, .. }));
    let mut out = [0u8; BRIDGE_MAX_FRAME];
    assert_eq!(encode_raw_frame(&link, &payload, &mut out), Ok(BRIDGE_MAX_FRAME - 2));
    match parse_record(&out) {
        ParseOutcome::Record { record: BridgeRecord::Raw { link: l, data }, .. } => {
            assert_eq!(l, link);
            assert_eq!(&data[..], &payload[..]);
        }
        other => panic!("expected Raw, got {other:?}"),
    }
}

#[test]
fn appended_crc_leaves_a_zero_residue() {
    for data in [&b"123456789"[..], &[][..], &[0x00, 0xff, 0x10][..]] {
        let c = crc16_ccitt(data);
        let mut whole = data.to_vec();
        whole.push((c >> 8) as u8);
        whole.push((c & 0xff) as u8);
        assert_eq!(crc16_ccitt(&whole), 0);
    }
    assert_eq!(crc16_ccitt(&[b'1', b'2', b'3', b'4', b'5', b'6', b'7', b'8', b'9', 0x29, 0xB1]), 0);
}

#[test]
fn crc_detects_bursts_of_up_to_16_bits() {
    let data: Vec<u8> = (0..12u8).map(|i| i.wrapping_mul(37) ^ 0x5a).collect();
    let base = crc16_ccitt(&data);
    for start in 0..data.len() * 8 {
        for pattern in [1u32, 0x8001, 0xffff, 0x1021, 0xa5a5] {
            let mut changed = data.clone();
            for bit in 0..16 {
                let at = start + bit;
                if pattern >> (15 - bit) & 1 == 1 && at < data.len() * 8 {
                    changed[at / 8] ^= 0x80 >> (at % 8);
                }
            }
            if changed != data {
                assert_ne!(crc16_ccitt(&changed), base, "start {start} pattern {pattern:#x}");
            }
        }
    }
}
