//! Packet types and the flood-routing envelope.

use vstd::prelude::*;

verus! {

/// Flood-broadcast destination (deliver to every node in range).
pub const BROADCAST_ADDR: u32 = 0xFFFF_FFFF;

/// Default hop limit of a freshly originated packet.
pub const DEFAULT_HOP_LIMIT: u8 = 3;

/// Largest encoded `MeshEnvelope`; sizes every envelope buffer.
pub const MAX_PACKET_BYTES: usize = 48;

/// Fire-weather sensor reading from a single node, in scaled integers.
#[derive(Debug, Clone, Copy, PartialEq, Eq, Structural)]
pub struct WeatherPacket {
    /// Which node sent this reading (0–254; 255 reserved).
    pub node_id: u8,
    /// Air temperature in Celsius × 100.
    pub temp_c: i16,
    /// Relative humidity, 0–100 %.
    pub humidity_pct: u8,
    /// Gas-sensor resistance in ohms; 0 means no valid reading.
    pub gas_resistance_ohms: u32,
    /// Wind speed in m/s × 2.
    pub wind_speed_ms: u8,
    /// Wind direction, 0–359 °.
    pub wind_dir_deg: u16,
    /// Dead fuel moisture proxy, 0–100 %.
    pub fuel_moisture: u8,
    /// Battery state-of-charge, 0–100 %.
    pub battery_soc: u8,
    /// Battery terminal voltage in millivolts.
    pub battery_mv: u16,
    /// Solar charge current in milliamps.
    pub solar_ma: u16,
    /// Node load current in milliamps.
    pub load_ma: u16,
    /// Power status bit flags.
    pub power_flags: u8,
    /// Monotonic per-node packet counter.
    pub sequence: u16,
}

/// All application-layer message types the network can carry.
#[derive(Debug, Clone, Copy, PartialEq, Eq, Structural)]
pub enum FlintPayload {
    SensorReading(WeatherPacket),
}

/// Mesh routing envelope: wraps a payload for flood routing.
#[derive(Debug, Clone, Copy, PartialEq, Eq, Structural)]
pub struct MeshEnvelope {
    /// Originating node ID.
    pub from: u32,
    /// Destination node ID, or `BROADCAST_ADDR`.
    pub to: u32,
    /// Unique packet ID, the key for deduplication.
    pub packet_id: u32,
    /// Remaining relay hops allowed.
    pub hop_limit: u8,
    /// `hop_limit` at the time of first transmission.
    pub hop_start: u8,
    pub payload: FlintPayload,
}

impl MeshEnvelope {
    /// A new broadcast packet with the default hop budget.
    pub fn new_broadcast(from: u32, packet_id: u32, payload: FlintPayload) -> (r: Self)
        ensures
            r == (MeshEnvelope {
                from,
                to: BROADCAST_ADDR,
                packet_id,
                hop_limit: DEFAULT_HOP_LIMIT,
                hop_start: DEFAULT_HOP_LIMIT,
                payload,
            }),
    {
        MeshEnvelope {
            from,
            to: BROADCAST_ADDR,
            packet_id,
            hop_limit: DEFAULT_HOP_LIMIT,
            hop_start: DEFAULT_HOP_LIMIT,
            payload,
        }
    }

    /// The envelope prepared for rebroadcast, with one hop used up; `None`
    /// when no hop is left.
    pub fn for_relay(&self) -> (r: Option<Self>)
        ensures
            self.hop_limit == 0 ==> r is None,
            self.hop_limit > 0 ==> r == Some(MeshEnvelope { hop_limit: (self.hop_limit - 1) as u8, ..*self }),
    {
        if self.hop_limit == 0 {
            return None;
        }
        let mut relayed = *self;
        relayed.hop_limit = relayed.hop_limit - 1;
        Some(relayed)
    }
}

} // verus!
