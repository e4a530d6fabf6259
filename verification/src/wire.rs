//! The on-air encoding of a `MeshEnvelope`: postcard's serde format of the
//! envelope's fields in declaration order, with the payload's variant index in
//! front of the payload's fields. The encoder and decoder of `postcard` do the
//! byte-level work on plain tuples of those fields.

use vstd::prelude::*;
use crate::mesh::{FlintPayload, MeshEnvelope, WeatherPacket, MAX_PACKET_BYTES};

verus! {

/// The envelope header in wire order: from, to, packet_id, hop_limit,
/// hop_start, and the payload's variant index.
pub type HeaderFields = (u32, u32, u32, u8, u8, u32);

/// A sensor reading's fields in wire order.
pub type ReadingFields = (u8, i16, u8, u32, u8, u16, u8, u8, u16, u16, u16, u8, u16);

/// `postcard::Error`, the error of postcard's encoder and decoder.
#[verifier::external_type_specification]
#[verifier::external_body]
pub struct ExPostcardError(postcard::Error);

/// The bytes that postcard's serializer produces for the pair of tuples.
pub uninterp spec fn postcard_bytes(header: HeaderFields, reading: ReadingFields) -> Seq<u8>;

/// The pair of tuples that postcard's deserializer reads from the front of
/// `bytes`, or `None` when it fails.
pub uninterp spec fn postcard_fields(bytes: Seq<u8>) -> Option<(HeaderFields, ReadingFields)>;

/// `postcard::to_slice` on the pair of tuples. Postcard writes the encoding
/// from the start of `buf` and fails, with `SerializeBufferFull`, exactly when
/// the encoding is longer than `buf`; what it wrote before failing is not
/// stated. The encoding decodes back to the same tuples.
#[verifier::external_body]
fn postcard_to_slice(header: HeaderFields, reading: ReadingFields, buf: &mut [u8; MAX_PACKET_BYTES]) -> (r: Result<usize, postcard::Error>)
    ensures
        r is Ok <==> postcard_bytes(header, reading).len() <= MAX_PACKET_BYTES,
        r matches Ok(n) ==> n == postcard_bytes(header, reading).len()
            && final(buf)@ == postcard_bytes(header, reading) + old(buf)@.skip(n as int),
        r matches Ok(n) ==> postcard_fields(postcard_bytes(header, reading)) == Some((header, reading)),
{
    match postcard::to_slice(&(header, reading), buf) {
        Ok(used) => Ok(used.len()),
        Err(e) => Err(e),
    }
}

/// `postcard::from_bytes` for the pair of tuples.
#[verifier::external_body]
fn postcard_from_bytes(bytes: &[u8]) -> (r: Result<(HeaderFields, ReadingFields), postcard::Error>)
    ensures
        r is Ok <==> postcard_fields(bytes@) is Some,
        r matches Ok(v) ==> postcard_fields(bytes@) == Some(v),
{
    postcard::from_bytes(bytes)
}

/// Why an envelope could not be encoded or decoded.
#[derive(Debug, Clone, Copy, PartialEq, Eq, Structural)]
pub enum WireError {
    /// The encoded envelope does not fit in the buffer.
    BufferFull,
    /// The bytes do not hold an envelope.
    Malformed,
}

/// The variant index of a payload in serde's data model.
pub open spec fn payload_variant(p: FlintPayload) -> u32 {
    match p {
        FlintPayload::SensorReading(_) => 0,
    }
}

/// The reading's fields in wire order.
pub open spec fn reading_fields(w: WeatherPacket) -> ReadingFields {
    (w.node_id, w.temp_c, w.humidity_pct, w.gas_resistance_ohms, w.wind_speed_ms, w.wind_dir_deg,
     w.fuel_moisture, w.battery_soc, w.battery_mv, w.solar_ma, w.load_ma, w.power_flags, w.sequence)
}

/// The reading with the given wire fields.
pub open spec fn reading_from(f: ReadingFields) -> WeatherPacket {
    WeatherPacket {
        node_id: f.0,
        temp_c: f.1,
        humidity_pct: f.2,
        gas_resistance_ohms: f.3,
        wind_speed_ms: f.4,
        wind_dir_deg: f.5,
        fuel_moisture: f.6,
        battery_soc: f.7,
        battery_mv: f.8,
        solar_ma: f.9,
        load_ma: f.10,
        power_flags: f.11,
        sequence: f.12,
    }
}

/// The envelope header in wire order.
pub open spec fn header_fields(e: MeshEnvelope) -> HeaderFields {
    (e.from, e.to, e.packet_id, e.hop_limit, e.hop_start, payload_variant(e.payload))
}

/// The sensor reading that an envelope carries.
pub open spec fn carried_reading(e: MeshEnvelope) -> WeatherPacket {
    match e.payload {
        FlintPayload::SensorReading(w) => w,
    }
}

/// The on-air bytes of an envelope.
pub open spec fn envelope_bytes(e: MeshEnvelope) -> Seq<u8> {
    postcard_bytes(header_fields(e), reading_fields(carried_reading(e)))
}

/// The envelope that `bytes` start with, if any: postcard must read the
/// fields, and the variant index must name a payload type.
pub open spec fn envelope_in(bytes: Seq<u8>) -> Option<MeshEnvelope> {
    match postcard_fields(bytes) {
        Some((h, f)) => if h.5 == 0 {
            Some(MeshEnvelope {
                from: h.0,
                to: h.1,
                packet_id: h.2,
                hop_limit: h.3,
                hop_start: h.4,
                payload: FlintPayload::SensorReading(reading_from(f)),
            })
        } else {
            None
        },
        None => None,
    }
}

/// Serialize a `MeshEnvelope` into `buf`; returns the encoded bytes, which
/// `decode` turns back into the same envelope.
pub fn encode<'a>(envelope: &MeshEnvelope, buf: &'a mut [u8; MAX_PACKET_BYTES]) -> (r: Result<&'a [u8], WireError>)
    ensures
        r is Ok <==> envelope_bytes(*envelope).len() <= MAX_PACKET_BYTES,
        r matches Ok(bytes) ==> bytes@ == envelope_bytes(*envelope),
        r matches Ok(bytes) ==> final(buf)@ == envelope_bytes(*envelope) + old(buf)@.skip(bytes@.len() as int),
        r matches Ok(bytes) ==> envelope_in(bytes@) == Some(*envelope),
        r matches Err(e) ==> e == WireError::BufferFull,
{
    let w = match envelope.payload {
        FlintPayload::SensorReading(w) => w,
    };
    let variant: u32 = match envelope.payload {
        FlintPayload::SensorReading(_) => 0,
    };
    let header: HeaderFields = (envelope.from, envelope.to, envelope.packet_id, envelope.hop_limit, envelope.hop_start, variant);
    let reading: ReadingFields = (w.node_id, w.temp_c, w.humidity_pct, w.gas_resistance_ohms, w.wind_speed_ms,
        w.wind_dir_deg, w.fuel_moisture, w.battery_soc, w.battery_mv, w.solar_ma, w.load_ma, w.power_flags, w.sequence);
    match postcard_to_slice(header, reading, buf) {
        Ok(n) => {
            let whole: &'a [u8; MAX_PACKET_BYTES] = buf;
            let used = vstd::slice::slice_subrange(vstd::array::array_as_slice(whole), 0, n);
            assert(used@ =~= envelope_bytes(*envelope));
            Ok(used)
        },
        Err(_) => Err(WireError::BufferFull),
    }
}

/// Deserialize a `MeshEnvelope` from received bytes.
pub fn decode(bytes: &[u8]) -> (r: Result<MeshEnvelope, WireError>)
    ensures
        envelope_in(bytes@) matches Some(e) ==> r == Ok::<MeshEnvelope, WireError>(e),
        envelope_in(bytes@) is None ==> r == Err::<MeshEnvelope, WireError>(WireError::Malformed),
{
    match postcard_from_bytes(bytes) {
        Ok((h, f)) => {
            if h.5 != 0 {
                return Err(WireError::Malformed);
            }
            let reading = WeatherPacket {
                node_id: f.0,
                temp_c: f.1,
                humidity_pct: f.2,
                gas_resistance_ohms: f.3,
                wind_speed_ms: f.4,
                wind_dir_deg: f.5,
                fuel_moisture: f.6,
                battery_soc: f.7,
                battery_mv: f.8,
                solar_ma: f.9,
                load_ma: f.10,
                power_flags: f.11,
                sequence: f.12,
            };
            Ok(MeshEnvelope {
                from: h.0,
                to: h.1,
                packet_id: h.2,
                hop_limit: h.3,
                hop_start: h.4,
                payload: FlintPayload::SensorReading(reading),
            })
        },
        Err(_) => Err(WireError::Malformed),
    }
}


/// The on-air layout: an envelope's bytes are postcard's encoding of its
/// fields in declaration order (from, to, packet_id, hop_limit, hop_start),
/// the payload's variant index 0, then the reading's fields in declaration
/// order, from `node_id` first to `sequence` last.
pub proof fn lemma_wire_field_order(e: MeshEnvelope, w: WeatherPacket)
    requires
        e.payload == FlintPayload::SensorReading(w),
    ensures
        envelope_bytes(e) == postcard_bytes(
            (e.from, e.to, e.packet_id, e.hop_limit, e.hop_start, 0u32),
            (w.node_id, w.temp_c, w.humidity_pct, w.gas_resistance_ohms, w.wind_speed_ms, w.wind_dir_deg,
             w.fuel_moisture, w.battery_soc, w.battery_mv, w.solar_ma, w.load_ma, w.power_flags, w.sequence),
        ),
{
}

/// Reading received bytes follows the same layout: when postcard reads the
/// header and reading fields `h` and `f` from them, with variant index 0, the
/// envelope has `h`'s fields in declaration order and its reading has `f`'s,
/// `node_id` from the first and `sequence` from the last.
pub proof fn lemma_decoded_field_order(bytes: Seq<u8>, h: HeaderFields, f: ReadingFields)
    requires
        postcard_fields(bytes) == Some((h, f)),
        h.5 == 0,
    ensures
        envelope_in(bytes) == Some(
            MeshEnvelope {
                from: h.0,
                to: h.1,
                packet_id: h.2,
                hop_limit: h.3,
                hop_start: h.4,
                payload: FlintPayload::SensorReading(
                    WeatherPacket {
                        node_id: f.0,
                        temp_c: f.1,
                        humidity_pct: f.2,
                        gas_resistance_ohms: f.3,
                        wind_speed_ms: f.4,
                        wind_dir_deg: f.5,
                        fuel_moisture: f.6,
                        battery_soc: f.7,
                        battery_mv: f.8,
                        solar_ma: f.9,
                        load_ma: f.10,
                        power_flags: f.11,
                        sequence: f.12,
                    },
                ),
            },
        ),
{
}

} // verus!
