use flint_proto::oled::{
    line_origin, msg_rx, screen_lines, screen_rules, DisplayEvent, DisplayState, MsgRx, RxCounters,
};
use flint_proto::{
    cap_backlog, default_port, default_topic_prefix, drain_records, encode, encode_frame_report, encode_raw_frame,
    fmt_count, fmt_hex, hms_utc, now_hms, BridgeRecord, Disposition, FlintPayload, LinkQuality, MeshEnvelope,
    WeatherPacket, BRIDGE_MAX_FRAME, MAX_BUFFER, MAX_PACKET_BYTES,
};

fn sample_envelope(temp_c: i16) -> MeshEnvelope {
    MeshEnvelope::new_broadcast(
        0x0a2b_3c4d,
        0xdead_beef,
        FlintPayload::SensorReading(WeatherPacket {
            node_id: 7,
            temp_c,
            humidity_pct: 42,
            gas_resistance_ohms: 51234,
            wind_speed_ms: 14,
            wind_dir_deg: 270,
            fuel_moisture: 12,
            battery_soc: 88,
            battery_mv: 4012,
            solar_ma: 120,
            load_ma: 35,
            power_flags: 0,
            sequence: 9,
        }),
    )
}

#[test]
fn fmt_count_prefixes_the_counter() {
    let mut buf = [0u8; 16];
    assert_eq!(fmt_count(&mut buf, 0), "RX: 0");
    let mut buf = [0u8; 16];
    assert_eq!(fmt_count(&mut buf, 1205), "RX: 1205");
    let mut buf = [0u8; 16];
    assert_eq!(fmt_count(&mut buf, u32::MAX), "RX: 4294967295");
}

#[test]
fn fmt_hex_spaces_bytes_and_stops_at_thirty_two() {
    let mut buf = [0u8; 95];
    assert_eq!(fmt_hex(&mut buf, &[0xde, 0xad, 0x01]), "de ad 01");
    let mut buf = [0u8; 95];
    assert_eq!(fmt_hex(&mut buf, &[]), "");
    let data = [0xabu8; 40];
    let mut buf = [0u8; 95];
    let text = fmt_hex(&mut buf, &data);
    assert_eq!(text.len(), 95);
    assert_eq!(text, ["ab"; 32].join(" "));
}

#[test]
fn clock_text_is_zero_padded() {
    assert_eq!(hms_utc(0), "00:00:00 UTC");
    assert_eq!(hms_utc(3661), "01:01:01 UTC");
    assert_eq!(hms_utc(86399), "23:59:59 UTC");
    assert_eq!(hms_utc(86400 * 3 + 45296), "12:34:56 UTC");
    let now = now_hms();
    assert_eq!(now.len(), 12);
    assert!(now.ends_with(" UTC"));
    assert_eq!(&now[2..3], ":");
}

#[test]
fn dashboard_defaults() {
    assert_eq!(default_port(), 1883);
    assert_eq!(default_topic_prefix(), "flintmesh");
}

#[test]
fn raw_record_renders_hex_bytes() {
    let link = LinkQuality { rssi: -120, snr: -8, len: 5 };
    let record = BridgeRecord::raw(link, &[0x01, 0x02, 0x03, 0xfe, 0xff]);
    assert_eq!(record.describe(), "RAW rssi=-120dBm snr=-8dB len=5 bytes=010203feff");
}

#[test]
fn frame_record_renders_envelope_fields() {
    let env = sample_envelope(2350);
    let mut buf = [0u8; MAX_PACKET_BYTES];
    let bytes = encode(&env, &mut buf).unwrap();
    let link = LinkQuality { rssi: -91, snr: 7, len: bytes.len() as u8 };
    let record = BridgeRecord::frame(link, Disposition::Relayed, 2, bytes);
    assert_eq!(
        record.describe(),
        format!(
            "FRAME rssi=-91dBm snr=7dB len={} relayed hops_left=2 from=0x0a2b3c4d id=0xdeadbeef hops=3/3 \
             node=7 23.50C 42%RH gas=51234ohm 14x0.5m/s@270deg fuel=12% batt=88%/4012mV seq=9",
            bytes.len()
        )
    );
}

#[test]
fn negative_temperatures_keep_their_sign() {
    for (temp, text) in [
        (-2350i16, "-23.50C"),
        (-50, "-0.50C"),
        (-5, "-0.05C"),
        (-100, "-1.00C"),
        (0, "0.00C"),
        (5, "0.05C"),
        (-32768, "-327.68C"),
        (32767, "327.67C"),
    ] {
        let env = sample_envelope(temp);
        let mut buf = [0u8; MAX_PACKET_BYTES];
        let bytes = encode(&env, &mut buf).unwrap();
        let link = LinkQuality { rssi: 0, snr: 0, len: 0 };
        let line = BridgeRecord::frame(link, Disposition::Duplicate, 0, bytes).describe();
        assert!(line.contains(&format!(" node=7 {text} 42%RH")), "{line}");
        assert!(line.contains(" duplicate hops_left=0 "), "{line}");
    }
}

#[test]
fn undecodable_envelope_is_marked() {
    let link = LinkQuality { rssi: 3, snr: 0, len: 2 };
    let record = BridgeRecord::frame(link, Disposition::LocalOnly, 0, &[0xff, 0xff]);
    assert_eq!(record.describe(), "FRAME rssi=3dBm snr=0dB len=2 local hops_left=0 <undecodable envelope>");
}

#[test]
fn drain_records_yields_every_record_and_keeps_a_partial_one() {
    let link = LinkQuality { rssi: -70, snr: 9, len: 3 };
    let mut one = [0u8; BRIDGE_MAX_FRAME];
    let n1 = encode_raw_frame(&link, &[0xaa, 0xbb, 0xcc], &mut one).unwrap();
    let mut two = [0u8; BRIDGE_MAX_FRAME];
    let n2 = encode_frame_report(&link, Disposition::Relayed, 1, &[1, 2, 3], &mut two).unwrap();
    let mut acc: Vec<u8> = Vec::new();
    acc.extend_from_slice(b"panicked at boot\r\n");
    acc.extend_from_slice(&one[..n1]);
    acc.extend_from_slice(b"xx");
    acc.extend_from_slice(&two[..n2]);
    acc.extend_from_slice(&one[..3]);
    let records = drain_records(&mut acc);
    assert_eq!(records.len(), 2);
    assert!(matches!(&records[0], BridgeRecord::Raw { data, .. } if &data[..] == &[0xaa, 0xbb, 0xcc]));
    assert!(matches!(&records[1], BridgeRecord::Frame { envelope, hops_left: 1, .. } if &envelope[..] == &[1, 2, 3]));
    assert_eq!(acc, one[..3].to_vec());
}

#[test]
fn backlog_is_capped() {
    let mut acc: Vec<u8> = (0..5000u32).map(|i| (i % 251) as u8).collect();
    let expected = acc[5000 - 1024..].to_vec();
    cap_backlog(&mut acc);
    assert_eq!(acc, expected);
    let mut small: Vec<u8> = vec![1; MAX_BUFFER];
    cap_backlog(&mut small);
    assert_eq!(small.len(), MAX_BUFFER);
}

#[test]
fn screen_shows_waiting_then_the_last_reception() {
    let mut state = DisplayState::new();
    assert_eq!(screen_lines(&state), vec!["FlintBridge RX0 ERR0", "waiting for RX..."]);
    let env = sample_envelope(2350);
    let link = LinkQuality { rssi: -91, snr: 7, len: 33 };
    let msg = msg_rx(&env, &link, 5_999);
    assert_eq!(msg.timestamp_s, 5);
    let mut counters = RxCounters::new();
    state.apply(counters.on_decoded(msg));
    state.apply(counters.on_error());
    assert_eq!(state.decoded, 1);
    assert_eq!(state.errors, 1);
    assert_eq!(
        screen_lines(&state),
        vec![
            "FlintBridge RX1 ERR1",
            "Pkt deadbeef",
            "Node 7",
            "RSSI -91",
            "Time 5s",
            "Batt 88%",
            "T 23.50C",
            "H 42%",
            "W 7.0",
            "Gas 51234",
        ]
    );
}

#[test]
fn screen_title_drops_the_error_count_when_full() {
    let state = DisplayState { decoded: u32::MAX, errors: 7, last: None };
    assert_eq!(screen_lines(&state)[0], "FlintBridge RX4294967295 ERR");
    let state = DisplayState { decoded: 123456789, errors: 7, last: None };
    assert_eq!(screen_lines(&state)[0], "FlintBridge RX123456789 ERR7");
    let mut counters = RxCounters { decoded: u32::MAX, errors: u32::MAX };
    assert_eq!(counters.on_decoded(MsgRx {
        node_id: 1, rssi: 0, timestamp_s: 0, packet_id: 0, temp_c: 0, humidity: 0, wind_speed_ms: 15,
        gas_ohms: 0, battery_soc: 0,
    }), DisplayEvent::Decoded { decoded: u32::MAX, errors: u32::MAX, msg: MsgRx {
        node_id: 1, rssi: 0, timestamp_s: 0, packet_id: 0, temp_c: 0, humidity: 0, wind_speed_ms: 15,
        gas_ohms: 0, battery_soc: 0,
    } });
    assert_eq!(counters.on_error(), DisplayEvent::Counts { decoded: u32::MAX, errors: u32::MAX });
}

#[test]
fn weather_topic_appends_the_node_filter() {
    assert_eq!(flint_proto::weather_topic("flintmesh"), "flintmesh/node/+/weather");
    assert_eq!(flint_proto::weather_topic("héllo"), "héllo/node/+/weather");
    assert_eq!(flint_proto::weather_topic(""), "/node/+/weather");
}

#[test]
fn node_rows_are_found_by_id() {
    assert_eq!(flint_proto::find_node_row(&[4, 2, 2], 2), Some(1));
    assert_eq!(flint_proto::find_node_row(&[4, 2, 2], 7), None);
    assert_eq!(flint_proto::find_node_row(&[], 1), None);
}

#[test]
fn dashboard_reacts_to_broker_events() {
    let ack = flint_proto::dashboard::broker_reaction(flint_proto::dashboard::BrokerEvent::ConnAck);
    assert!(ack.subscribe);
    assert_eq!(ack.status, Some(flint_proto::dashboard::LinkStatus::Connected));
    let publish = flint_proto::dashboard::broker_reaction(flint_proto::dashboard::BrokerEvent::Publish);
    assert!(publish.show_reading && !publish.subscribe && publish.status.is_none());
    let err = flint_proto::dashboard::broker_reaction(flint_proto::dashboard::BrokerEvent::ConnectionError);
    assert_eq!(err.status, Some(flint_proto::dashboard::LinkStatus::Disconnected));
    let other = flint_proto::dashboard::broker_reaction(flint_proto::dashboard::BrokerEvent::Other);
    assert!(!other.subscribe && !other.show_reading && other.status.is_none());
}

#[test]
fn screen_shows_negative_temperatures_and_odd_wind() {
    let msg = MsgRx {
        node_id: 3, rssi: -5, timestamp_s: 0, packet_id: 1, temp_c: -5, humidity: 0, wind_speed_ms: 15,
        gas_ohms: 0, battery_soc: 100,
    };
    let state = DisplayState { decoded: 1, errors: 0, last: Some(msg) };
    let lines = screen_lines(&state);
    assert_eq!(lines[1], "Pkt 00000001");
    assert_eq!(lines[6], "T -0.05C");
    assert_eq!(lines[8], "W 7.5");
}

#[test]
fn display_follows_a_sequence_of_events() {
    let first = MsgRx {
        node_id: 1, rssi: -80, timestamp_s: 2, packet_id: 10, temp_c: 100, humidity: 50, wind_speed_ms: 2,
        gas_ohms: 1, battery_soc: 90,
    };
    let second = MsgRx { node_id: 2, packet_id: 11, ..first };
    let mut state = DisplayState::new();
    assert_eq!(state, DisplayState { decoded: 0, errors: 0, last: None });
    state.apply(DisplayEvent::Counts { decoded: 0, errors: 1 });
    assert_eq!(state, DisplayState { decoded: 0, errors: 1, last: None });
    state.apply(DisplayEvent::Decoded { decoded: 1, errors: 1, msg: first });
    state.apply(DisplayEvent::Counts { decoded: 1, errors: 2 });
    assert_eq!(state, DisplayState { decoded: 1, errors: 2, last: Some(first) });
    state.apply(DisplayEvent::Decoded { decoded: 2, errors: 2, msg: second });
    state.apply(DisplayEvent::Counts { decoded: 2, errors: 3 });
    state.apply(DisplayEvent::Counts { decoded: 2, errors: 4 });
    assert_eq!(state, DisplayState { decoded: 2, errors: 4, last: Some(second) });
}

#[test]
fn dashboard_subscribes_before_the_first_event_and_clock_starts_at_epoch() {
    let start = flint_proto::dashboard::broker_start();
    assert!(start.subscribe && !start.show_reading && start.status.is_none());
    assert_eq!(flint_proto::dashboard::clock_seconds(None), 0);
    assert_eq!(flint_proto::dashboard::clock_seconds(Some(1_700_000_000)), 1_700_000_000);
    assert_eq!(hms_utc(flint_proto::dashboard::clock_seconds(None)), "00:00:00 UTC");
    assert_eq!(hms_utc(flint_proto::dashboard::clock_seconds(Some(1_700_000_000))), "22:13:20 UTC");
}

#[test]
fn screen_layout_places_lines_in_two_columns() {
    assert_eq!(line_origin(0, false), (0, 0));
    assert_eq!(line_origin(1, false), (0, 14));
    assert_eq!(line_origin(1, true), (0, 12));
    let left: Vec<(i32, i32)> = (2..6).map(|l| line_origin(l, true)).collect();
    assert_eq!(left, vec![(0, 22), (0, 32), (0, 42), (0, 52)]);
    let right: Vec<(i32, i32)> = (6..10).map(|l| line_origin(l, true)).collect();
    assert_eq!(right, vec![(67, 22), (67, 32), (67, 42), (67, 52)]);
    assert_eq!(screen_rules(false), vec![((0, 10), (127, 10))]);
    assert_eq!(screen_rules(true), vec![((0, 10), (127, 10)), ((63, 21), (63, 63))]);
}
