//! Shared packet types, flood-routing rules and the bridge record codec of the
//! FlintMesh sensor network, with their contracts proved by Verus.
//!
//! Flood routing with hop-limit deduplication: a sender wraps its payload in a
//! `MeshEnvelope` with a unique `packet_id` and `hop_limit = DEFAULT_HOP_LIMIT`;
//! a receiver discards a packet it has seen, delivers an unseen one locally,
//! and rebroadcasts it with one hop less while hops remain.

pub mod bounded;
pub mod bridge;
pub mod bridge_node;
pub mod crc;
pub mod dashboard;
pub mod describe;
pub mod gateway;
pub mod mesh;
pub mod node;
pub mod oled;
pub mod power_flags;
pub mod relay;
pub mod seen;
pub mod text;
pub mod wire;

pub use bridge::{
    encode_frame_report, encode_raw_frame, find_sync, parse_record, write_frame, BridgeError, BridgeRecord,
    Disposition, LinkQuality, ParseOutcome, BRIDGE_MAX_BODY, BRIDGE_MAX_FRAME, BRIDGE_SYNC, BRIDGE_TAG_FRAME_REPORT,
    BRIDGE_TAG_RAW_FRAME,
};
pub use crc::crc16_ccitt;
pub use dashboard::{default_port, default_topic_prefix, find_node_row, now_hms, weather_topic};
pub use gateway::{cap_backlog, drain_records, MAX_BUFFER};
pub use mesh::{FlintPayload, MeshEnvelope, WeatherPacket, BROADCAST_ADDR, DEFAULT_HOP_LIMIT, MAX_PACKET_BYTES};
pub use relay::{receive, Reception};
pub use seen::{SeenCache, SEEN_CACHE_SIZE};
pub use text::{fmt_count, fmt_hex, hms_utc};
pub use wire::{decode, encode, WireError};
