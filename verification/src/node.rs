//! The sensor node's transmissions: one broadcast reading per interval.

use vstd::prelude::*;
use crate::mesh::{FlintPayload, MeshEnvelope, WeatherPacket, BROADCAST_ADDR, DEFAULT_HOP_LIMIT};

verus! {

/// Mesh address of the test node.
pub const NODE_ADDR: u32 = 1;

/// Node id of the test node, as carried in its readings.
pub const NODE_ID: u8 = 1;

/// The reading a test node reports for one measurement: the measured air
/// values, and fixed stand-ins for the sensors that are not fitted yet.
pub open spec fn node_reading(temp_c: i16, humidity_pct: u8, gas_ohms: u32, sequence: u16) -> WeatherPacket {
    WeatherPacket {
        node_id: NODE_ID,
        temp_c,
        humidity_pct,
        gas_resistance_ohms: gas_ohms,
        wind_speed_ms: 0,
        wind_dir_deg: 0,
        fuel_moisture: 50,
        battery_soc: 85,
        battery_mv: 3800,
        solar_ma: 0,
        load_ma: 0,
        power_flags: 0,
        sequence,
    }
}

/// The envelope a test node broadcasts for one measurement; the sequence
/// number doubles as the packet id.
pub fn node_envelope(temp_c: i16, humidity_pct: u8, gas_ohms: u32, sequence: u16) -> (r: MeshEnvelope)
    ensures
        r == (MeshEnvelope {
            from: NODE_ADDR,
            to: BROADCAST_ADDR,
            packet_id: sequence as u32,
            hop_limit: DEFAULT_HOP_LIMIT,
            hop_start: DEFAULT_HOP_LIMIT,
            payload: FlintPayload::SensorReading(node_reading(temp_c, humidity_pct, gas_ohms, sequence)),
        }),
{
    let payload = FlintPayload::SensorReading(WeatherPacket {
        node_id: NODE_ID,
        temp_c,
        humidity_pct,
        gas_resistance_ohms: gas_ohms,
        wind_speed_ms: 0,
        wind_dir_deg: 0,
        fuel_moisture: 50,
        battery_soc: 85,
        battery_mv: 3800,
        solar_ma: 0,
        load_ma: 0,
        power_flags: 0,
        sequence,
    });
    MeshEnvelope::new_broadcast(NODE_ADDR, sequence as u32, payload)
}

/// The next sequence number, wrapping to 0 after the largest.
pub fn next_sequence(sequence: u16) -> (r: u16)
    ensures
        r == (if sequence == u16::MAX { 0 } else { sequence + 1 }),
{
    sequence.wrapping_add(1)
}


/// How many times the node tries to bring up its air sensor at boot.
pub const SENSOR_INIT_ATTEMPTS: u8 = 5;

/// What the node does after an attempt to bring up its air sensor.
#[derive(Debug, Clone, Copy, PartialEq, Eq, Structural)]
pub enum SensorInit {
    /// The sensor is ready.
    Ready,
    /// Signal the failure, wait, and try again.
    Retry,
    /// Give up: the node runs on and reports zero air readings.
    Degraded,
}

/// The decision after attempt number `attempt` (counting from 1) to bring up
/// the air sensor: a failure is retried until `SENSOR_INIT_ATTEMPTS`
/// attempts have failed, and then the node does without the sensor rather
/// than stopping.
pub fn sensor_init_step(attempt: u8, succeeded: bool) -> (r: SensorInit)
    ensures
        succeeded ==> r == SensorInit::Ready,
        !succeeded && attempt < SENSOR_INIT_ATTEMPTS ==> r == SensorInit::Retry,
        !succeeded && attempt >= SENSOR_INIT_ATTEMPTS ==> r == SensorInit::Degraded,
{
    if succeeded {
        SensorInit::Ready
    } else if attempt < SENSOR_INIT_ATTEMPTS {
        SensorInit::Retry
    } else {
        SensorInit::Degraded
    }
}


/// A node's broadcast carries its measurements as measured: the temperature,
/// humidity, gas resistance and sequence number it was given, under its own
/// node id and address, with the sequence number as the packet id and the
/// full hop budget.
pub proof fn lemma_envelope_carries_measurements(temp_c: i16, humidity_pct: u8, gas_ohms: u32, sequence: u16)
    ensures
        ({
            let w = node_reading(temp_c, humidity_pct, gas_ohms, sequence);
            &&& w.temp_c == temp_c
            &&& w.humidity_pct == humidity_pct
            &&& w.gas_resistance_ohms == gas_ohms
            &&& w.sequence == sequence
            &&& w.node_id == 1u8
        }),
{
}

} // verus!
