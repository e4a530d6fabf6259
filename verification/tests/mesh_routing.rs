use flint_proto::bridge_node::{bridge_reception, next_offset, step_output, LogLevel, OutputMode, WriteResult};
use flint_proto::oled::{DisplayEvent, RxCounters};
use flint_proto::{parse_record, BridgeRecord, LinkQuality, ParseOutcome};
use flint_proto::node::{
    next_sequence, node_envelope, sensor_init_step, SensorInit, NODE_ADDR, NODE_ID, SENSOR_INIT_ATTEMPTS,
};
use flint_proto::{
    decode, encode, receive, Disposition, FlintPayload, MeshEnvelope, SeenCache, WeatherPacket, WireError,
    BROADCAST_ADDR, DEFAULT_HOP_LIMIT, MAX_PACKET_BYTES, SEEN_CACHE_SIZE,
};

fn reading(sequence: u16) -> WeatherPacket {
    WeatherPacket {
        node_id: 3,
        temp_c: -1234,
        humidity_pct: 55,
        gas_resistance_ohms: 4_000_000_000,
        wind_speed_ms: 200,
        wind_dir_deg: 359,
        fuel_moisture: 100,
        battery_soc: 100,
        battery_mv: 65535,
        solar_ma: 65535,
        load_ma: 65535,
        power_flags: 0x0f,
        sequence,
    }
}

#[test]
fn new_broadcast_uses_default_hops() {
    let env = MeshEnvelope::new_broadcast(5, 6, FlintPayload::SensorReading(reading(1)));
    assert_eq!(env.from, 5);
    assert_eq!(env.to, BROADCAST_ADDR);
    assert_eq!(env.packet_id, 6);
    assert_eq!(env.hop_limit, DEFAULT_HOP_LIMIT);
    assert_eq!(env.hop_start, DEFAULT_HOP_LIMIT);
}

#[test]
fn for_relay_spends_one_hop() {
    let env = MeshEnvelope::new_broadcast(5, 6, FlintPayload::SensorReading(reading(1)));
    let relayed = env.for_relay().unwrap();
    assert_eq!(relayed.hop_limit, 2);
    assert_eq!(relayed.hop_start, 3);
    assert_eq!(relayed.packet_id, 6);
    let mut last = env;
    last.hop_limit = 0;
    assert!(last.for_relay().is_none());
}

#[test]
fn seen_cache_reports_duplicates() {
    let mut cache = SeenCache::new();
    assert!(cache.is_empty());
    assert!(cache.check_and_insert(42));
    assert!(!cache.check_and_insert(42));
    assert_eq!(cache.len(), 1);
    assert!(!cache.is_empty());
    let default_cache = SeenCache::default();
    assert_eq!(default_cache.len(), 0);
}

#[test]
fn seen_cache_evicts_the_oldest_half_when_full() {
    let mut cache = SeenCache::new();
    for id in 0..SEEN_CACHE_SIZE as u32 {
        assert!(cache.check_and_insert(id));
    }
    assert_eq!(cache.len(), SEEN_CACHE_SIZE);
    // A new ID evicts the oldest half (0..32) and joins the newest half.
    assert!(cache.check_and_insert(1000));
    assert_eq!(cache.len(), SEEN_CACHE_SIZE / 2 + 1);
    for id in (SEEN_CACHE_SIZE / 2) as u32..SEEN_CACHE_SIZE as u32 {
        assert!(!cache.check_and_insert(id));
    }
    assert!(!cache.check_and_insert(1000));
    assert_eq!(cache.len(), SEEN_CACHE_SIZE / 2 + 1);
    assert!(cache.check_and_insert(0));
    assert!(cache.check_and_insert(31));
    assert_eq!(cache.len(), SEEN_CACHE_SIZE / 2 + 3);
}

#[test]
fn receive_relays_then_flags_duplicates() {
    let mut seen = SeenCache::new();
    let env = MeshEnvelope::new_broadcast(9, 77, FlintPayload::SensorReading(reading(2)));
    let first = receive(&mut seen, &env);
    assert_eq!(first.disposition, Disposition::Relayed);
    assert_eq!(first.hops_left, 2);
    assert_eq!(first.relay.unwrap().hop_limit, 2);
    let second = receive(&mut seen, &env);
    assert_eq!(second.disposition, Disposition::Duplicate);
    assert_eq!(second.hops_left, 0);
    assert!(second.relay.is_none());
    let mut spent = env;
    spent.packet_id = 78;
    spent.hop_limit = 0;
    let local = receive(&mut seen, &spent);
    assert_eq!(local.disposition, Disposition::LocalOnly);
    assert_eq!(local.hops_left, 0);
    assert!(local.relay.is_none());
    assert_eq!(seen.len(), 2);
}

#[test]
fn envelope_encoding_round_trips() {
    let env = MeshEnvelope::new_broadcast(0xffff_ffff, 0x8000_0001, FlintPayload::SensorReading(reading(65535)));
    let mut buf = [0u8; MAX_PACKET_BYTES];
    let bytes = encode(&env, &mut buf).unwrap().to_vec();
    assert!(bytes.len() <= MAX_PACKET_BYTES);
    assert_eq!(decode(&bytes), Ok(env));
}

#[test]
fn envelope_bytes_follow_postcard_layout() {
    let w = WeatherPacket {
        node_id: 7,
        temp_c: -1,
        humidity_pct: 2,
        gas_resistance_ohms: 300,
        wind_speed_ms: 4,
        wind_dir_deg: 5,
        fuel_moisture: 6,
        battery_soc: 7,
        battery_mv: 8,
        solar_ma: 9,
        load_ma: 10,
        power_flags: 11,
        sequence: 12,
    };
    let env = MeshEnvelope::new_broadcast(1, 2, FlintPayload::SensorReading(w));
    let mut buf = [0u8; MAX_PACKET_BYTES];
    let bytes = encode(&env, &mut buf).unwrap();
    let expected: [u8; 24] = [
        1, 0xff, 0xff, 0xff, 0xff, 0x0f, 2, 3, 3, 0, // header and variant index
        7, 1, 2, 0xac, 0x02, 4, 5, 6, 7, 8, 9, 10, 11, 12, // reading: -1 zigzags to 1, 300 is a varint
    ];
    assert_eq!(bytes, &expected[..]);
}

#[test]
fn decode_rejects_malformed_bytes() {
    assert_eq!(decode(&[]), Err(WireError::Malformed));
    let env = MeshEnvelope::new_broadcast(1, 2, FlintPayload::SensorReading(reading(3)));
    let mut buf = [0u8; MAX_PACKET_BYTES];
    let mut bytes = encode(&env, &mut buf).unwrap().to_vec();
    // from=1 (1 byte), to (5 bytes), packet_id=2 (1 byte), hops (2 bytes): the variant index is next.
    assert_eq!(bytes[9], 0);
    bytes[9] = 1;
    assert_eq!(decode(&bytes), Err(WireError::Malformed));
    assert_eq!(decode(&bytes[..5]), Err(WireError::Malformed));
}

#[test]
fn node_broadcasts_its_sequence_number() {
    let env = node_envelope(2150, 40, 0, 17);
    assert_eq!(env.from, NODE_ADDR);
    assert_eq!(env.packet_id, 17);
    assert_eq!(env.hop_limit, DEFAULT_HOP_LIMIT);
    let FlintPayload::SensorReading(w) = env.payload;
    assert_eq!(w.node_id, NODE_ID);
    assert_eq!(w.temp_c, 2150);
    assert_eq!(w.fuel_moisture, 50);
    assert_eq!(w.battery_mv, 3800);
    assert_eq!(w.sequence, 17);
    assert_eq!(next_sequence(17), 18);
    assert_eq!(next_sequence(u16::MAX), 0);
}

#[test]
fn bridge_reports_every_reception_once() {
    let mut seen = SeenCache::new();
    let mut counters = RxCounters::new();
    let env = MeshEnvelope::new_broadcast(9, 77, FlintPayload::SensorReading(reading(2)));
    let mut buf = [0u8; MAX_PACKET_BYTES];
    let bytes = encode(&env, &mut buf).unwrap().to_vec();
    let link = LinkQuality { rssi: -80, snr: 4, len: bytes.len() as u8 };

    let step = bridge_reception(&mut seen, &mut counters, &bytes, &link, 12_345);
    assert_eq!(step.relay.unwrap().hop_limit, 2);
    assert!(matches!(step.event, DisplayEvent::Decoded { decoded: 1, errors: 0, .. }));
    let report = step.report.unwrap();
    match parse_record(&report) {
        ParseOutcome::Record { record: BridgeRecord::Frame { disposition, hops_left, envelope, link: l }, consumed } => {
            assert_eq!(consumed, report.len());
            assert_eq!(disposition, Disposition::Relayed);
            assert_eq!(hops_left, 2);
            assert_eq!(l, link);
            assert_eq!(&envelope[..], &bytes[..]);
        }
        other => panic!("expected Frame, got {other:?}"),
    }

    let again = bridge_reception(&mut seen, &mut counters, &bytes, &link, 12_400);
    assert!(again.relay.is_none());
    match parse_record(&again.report.unwrap()) {
        ParseOutcome::Record { record: BridgeRecord::Frame { disposition, hops_left, .. }, .. } => {
            assert_eq!(disposition, Disposition::Duplicate);
            assert_eq!(hops_left, 0);
        }
        other => panic!("expected Frame, got {other:?}"),
    }

    let noise = [0xffu8, 0xff];
    let raw = bridge_reception(&mut seen, &mut counters, &noise, &link, 12_500);
    assert_eq!(
        String::from_utf8(step_output(OutputMode::Debug, &raw)).unwrap(),
        "RAW rssi=-80dBm snr=4dB len=35 bytes=ffff\r\n"
    );
    assert_eq!(step_output(OutputMode::Binary, &raw), raw.report.clone().unwrap());
    assert!(raw.relay.is_none());
    assert!(matches!(raw.event, DisplayEvent::Counts { decoded: 2, errors: 1 }));
    match parse_record(&raw.report.unwrap()) {
        ParseOutcome::Record { record: BridgeRecord::Raw { data, .. }, .. } => assert_eq!(&data[..], &noise[..]),
        other => panic!("expected Raw, got {other:?}"),
    }
    assert_eq!(seen.len(), 1);
}

#[test]
fn output_mode_follows_commands() {
    let mode = OutputMode::at_boot();
    assert_eq!(mode, OutputMode::Binary);
    assert_eq!(mode.log_level(), LogLevel::Off);
    let debug = mode.after_command(b'd');
    assert_eq!(debug, OutputMode::Debug);
    assert_eq!(debug.log_level(), LogLevel::Trace);
    assert_eq!(debug.after_command(b'd'), OutputMode::Debug);
    assert_eq!(debug.after_command(b'x'), OutputMode::Debug);
    assert_eq!(debug.after_command(b'b'), OutputMode::Binary);
    assert_eq!(mode.after_command(b'b'), OutputMode::Binary);
}

#[test]
fn seen_cache_remembers_an_id_through_32_newer_ones() {
    let mut cache = SeenCache::new();
    for id in 100..164u32 {
        assert!(cache.check_and_insert(id));
    }
    // The cache is full: 7 evicts the oldest half and is the newest ID.
    assert!(cache.check_and_insert(7));
    assert_eq!(cache.len(), 33);
    for id in 0..32u32 {
        assert!(cache.check_and_insert(1000 + id));
        // Known IDs offered in between change nothing.
        assert!(!cache.check_and_insert(1000 + id));
        assert!(!cache.check_and_insert(7));
    }
    // 32 newer IDs later, one eviction on the way, 7 is still remembered.
    assert_eq!(cache.len(), 33);
    for id in 0..31u32 {
        assert!(cache.check_and_insert(2000 + id));
    }
    // Full again, with 7 now in the oldest half: the next eviction drops it.
    assert!(!cache.check_and_insert(7));
    assert!(cache.check_and_insert(5000));
    assert!(cache.check_and_insert(7));
}

#[test]
fn usb_writes_advance_until_the_port_stalls() {
    assert_eq!(next_offset(0, WriteResult::Wrote(10)), Some(10));
    assert_eq!(next_offset(10, WriteResult::Wrote(5)), Some(15));
    assert_eq!(next_offset(10, WriteResult::Wrote(0)), None);
    assert_eq!(next_offset(10, WriteResult::Failed), None);
    assert_eq!(next_offset(usize::MAX - 1, WriteResult::Wrote(5)), Some(usize::MAX));
}

#[test]
fn sensor_init_retries_then_degrades() {
    assert_eq!(sensor_init_step(1, true), SensorInit::Ready);
    for attempt in 1..SENSOR_INIT_ATTEMPTS {
        assert_eq!(sensor_init_step(attempt, false), SensorInit::Retry);
    }
    assert_eq!(sensor_init_step(5, false), SensorInit::Degraded);
    assert_eq!(sensor_init_step(5, true), SensorInit::Ready);
}
