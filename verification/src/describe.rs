//! Human-readable rendering of bridge records, as the gateway prints them.

use vstd::prelude::*;
use vstd::utf8::is_ascii_chars;
use crate::bounded::byte_vec_as_slice;
use crate::bridge::{disposition_name, BridgeRecord, Disposition, LinkQuality, RecordView};
use crate::mesh::{FlintPayload, MeshEnvelope, WeatherPacket};
use crate::text::{
    ascii_bytes, ascii_str, lemma_ascii_bytes_concat, decimal, hex_digit, hex_digit_byte, hex_pair, lemma_decimal_ascii, push_decimal,
    push_str, push_two_digits, two_digits,
};
use crate::wire::{decode, envelope_in};

verus! {

// ── The text, as mathematics ─────────────────────────────────────────────────

/// An integer in decimal, with a minus sign when negative.
pub open spec fn signed(x: int) -> Seq<char> {
    if x < 0 {
        seq!['-'] + decimal((-x) as nat)
    } else {
        decimal(x as nat)
    }
}

/// The lowest `width` hex digits of `v`, most significant first.
pub open spec fn hex_fixed(v: nat, width: nat) -> Seq<char>
    decreases width,
{
    if width == 0 {
        seq![]
    } else {
        hex_fixed(v / 16, (width - 1) as nat).push(hex_digit(v % 16))
    }
}

/// The bytes as lower-case hex pairs with nothing between them.
pub open spec fn hex_run(bytes: Seq<u8>) -> Seq<char>
    decreases bytes.len(),
{
    if bytes.len() == 0 {
        seq![]
    } else {
        hex_run(bytes.drop_last()) + hex_pair(bytes.last())
    }
}

/// The magnitude of an integer.
pub open spec fn magnitude(t: int) -> nat {
    if t < 0 {
        (-t) as nat
    } else {
        t as nat
    }
}

/// A temperature in hundredths of a degree, as "{degrees}.{hundredths}C",
/// with a minus sign before it whenever it is below zero.
pub open spec fn celsius_text(t: int) -> Seq<char> {
    (if t < 0 { seq!['-'] } else { Seq::<char>::empty() }) + decimal(magnitude(t) / 100) + "."@
        + two_digits(magnitude(t) % 100) + "C"@
}

/// The link-quality part of a rendered record.
pub open spec fn link_text(link: LinkQuality) -> Seq<char> {
    "rssi="@ + signed(link.rssi as int) + "dBm snr="@ + signed(link.snr as int) + "dB len="@
        + decimal(link.len as nat)
}

/// The node and air measurements of a sensor reading, rendered.
pub open spec fn climate_text(w: WeatherPacket) -> Seq<char> {
    " node="@ + decimal(w.node_id as nat) + " "@ + celsius_text(w.temp_c as int) + " "@
        + decimal(w.humidity_pct as nat) + "%RH gas="@ + decimal(w.gas_resistance_ohms as nat) + "ohm "@
}

/// The wind, fuel, battery and sequence fields of a sensor reading, rendered.
pub open spec fn field_text(w: WeatherPacket) -> Seq<char> {
    decimal(w.wind_speed_ms as nat) + "x0.5m/s@"@ + decimal(w.wind_dir_deg as nat) + "deg fuel="@
        + decimal(w.fuel_moisture as nat) + "% batt="@ + decimal(w.battery_soc as nat) + "%/"@
        + decimal(w.battery_mv as nat) + "mV seq="@ + decimal(w.sequence as nat)
}

/// A sensor reading, rendered.
pub open spec fn reading_text(w: WeatherPacket) -> Seq<char> {
    climate_text(w) + field_text(w)
}

/// A decoded envelope, rendered.
pub open spec fn envelope_text(e: MeshEnvelope) -> Seq<char> {
    " from=0x"@ + hex_fixed(e.from as nat, 8) + " id=0x"@ + hex_fixed(e.packet_id as nat, 8) + " hops="@
        + decimal(e.hop_limit as nat) + "/"@ + decimal(e.hop_start as nat) + match e.payload {
        FlintPayload::SensorReading(w) => reading_text(w),
    }
}

/// A record, rendered as one line: the link quality and disposition, then
/// the envelope's fields when its bytes decode (the raw bytes in hex for a
/// raw reception).
pub open spec fn record_text(r: RecordView) -> Seq<char> {
    match r {
        RecordView::Frame { link, disposition, hops_left, envelope } => "FRAME "@ + link_text(link) + " "@
            + disposition_name(disposition) + " hops_left="@ + decimal(hops_left as nat) + match envelope_in(
            envelope,
        ) {
            Some(e) => envelope_text(e),
            None => " <undecodable envelope>"@,
        },
        RecordView::Raw { link, data } => "RAW "@ + link_text(link) + " bytes="@ + hex_run(data),
    }
}

/// Text is ASCII exactly when both of its parts are.
pub broadcast proof fn lemma_ascii_concat(a: Seq<char>, b: Seq<char>)
    ensures
        #[trigger] is_ascii_chars(a + b) <==> is_ascii_chars(a) && is_ascii_chars(b),
{
    if is_ascii_chars(a + b) {
        assert forall|i: int| 0 <= i < a.len() implies '\0' <= #[trigger] a[i] <= '\u{7f}' by {
            assert(a[i] == (a + b)[i]);
        }
        assert forall|i: int| 0 <= i < b.len() implies '\0' <= #[trigger] b[i] <= '\u{7f}' by {
            assert(b[i] == (a + b)[a.len() + i]);
        }
    }
}


// ── Building the text ────────────────────────────────────────────────────────

/// Append ASCII literal text, proving it ASCII on the way.
pub(crate) fn push_lit(out: &mut Vec<u8>, s: &str)
    requires
        is_ascii_chars(s@),
    ensures
        final(out)@ == old(out)@ + ascii_bytes(s@),
{
    push_str(out, s);
}

/// Append an unsigned number in decimal.
pub(crate) fn push_num(out: &mut Vec<u8>, n: u64)
    ensures
        final(out)@ == old(out)@ + ascii_bytes(decimal(n as nat)),
        is_ascii_chars(decimal(n as nat)),
{
    proof {
        lemma_decimal_ascii(n as nat);
    }
    push_decimal(out, n);
}

/// The magnitude of an `i16`.
fn magnitude_i16(x: i16) -> (r: u16)
    ensures
        r as nat == magnitude(x as int),
{
    if x < 0 {
        (0i32 - x as i32) as u16
    } else {
        x as u16
    }
}

/// Append a signed number in decimal.
pub(crate) fn push_signed(out: &mut Vec<u8>, x: i16)
    ensures
        final(out)@ == old(out)@ + ascii_bytes(signed(x as int)),
        is_ascii_chars(signed(x as int)),
{
    broadcast use lemma_ascii_concat;

    let a = magnitude_i16(x);
    if x < 0 {
        out.push(45u8);
        push_num(out, a as u64);
        proof {
            assert(is_ascii_chars(seq!['-']));
        }
    } else {
        push_num(out, a as u64);
    }
    assert(out@ =~= old(out)@ + ascii_bytes(signed(x as int)));
}

/// Hex digits are ASCII.
proof fn lemma_hex_fixed_ascii(v: nat, width: nat)
    ensures
        is_ascii_chars(hex_fixed(v, width)),
    decreases width,
{
    broadcast use lemma_ascii_concat;

    if width > 0 {
        lemma_hex_fixed_ascii(v / 16, (width - 1) as nat);
        assert(hex_fixed(v, width) =~= hex_fixed(v / 16, (width - 1) as nat) + seq![hex_digit(v % 16)]);
    }
}

/// Append the lowest `width` hex digits of `v`.
pub(crate) fn push_hex_fixed(out: &mut Vec<u8>, v: u64, width: u32)
    ensures
        final(out)@ == old(out)@ + ascii_bytes(hex_fixed(v as nat, width as nat)),
        is_ascii_chars(hex_fixed(v as nat, width as nat)),
    decreases width,
{
    proof {
        lemma_hex_fixed_ascii(v as nat, width as nat);
    }
    if width > 0 {
        push_hex_fixed(out, v / 16, width - 1);
        out.push(hex_digit_byte((v % 16) as u8));
    }
    assert(out@ =~= old(out)@ + ascii_bytes(hex_fixed(v as nat, width as nat)));
}

/// Append the bytes as hex pairs with nothing between them.
fn push_hex_run(out: &mut Vec<u8>, bytes: &[u8])
    ensures
        final(out)@ == old(out)@ + ascii_bytes(hex_run(bytes@)),
        is_ascii_chars(hex_run(bytes@)),
{
    broadcast use lemma_ascii_concat;

    let mut i: usize = 0;
    while i < bytes.len()
        invariant
            i <= bytes@.len(),
            out@ == old(out)@ + ascii_bytes(hex_run(bytes@.take(i as int))),
            is_ascii_chars(hex_run(bytes@.take(i as int))),
        decreases bytes@.len() - i,
    {
        let b: u8 = bytes[i];
        out.push(hex_digit_byte(b / 16));
        out.push(hex_digit_byte(b % 16));
        proof {
            let after = bytes@.take(i + 1);
            assert(after.drop_last() =~= bytes@.take(i as int));
            assert(hex_run(after) == hex_run(bytes@.take(i as int)) + hex_pair(b));
            assert(is_ascii_chars(hex_pair(b)));
            assert(out@ =~= old(out)@ + ascii_bytes(hex_run(after)));
        }
        i = i + 1;
    }
    assert(bytes@.take(bytes@.len() as int) =~= bytes@);
}

/// Append a temperature given in hundredths of a degree.
pub(crate) fn push_celsius(out: &mut Vec<u8>, t: i16)
    ensures
        final(out)@ == old(out)@ + ascii_bytes(celsius_text(t as int)),
        is_ascii_chars(celsius_text(t as int)),
{
    broadcast use lemma_ascii_concat;

    let a = magnitude_i16(t);
    let whole: u16 = a / 100;
    if t < 0 {
        out.push(45u8);
    }
    push_num(out, whole as u64);
    proof {
        reveal_strlit(".");
        reveal_strlit("C");
    }
    push_lit(out, ".");
    push_two_digits(out, (a % 100) as u64);
    push_lit(out, "C");
    proof {
        assert(is_ascii_chars(seq!['-']));
        assert(is_ascii_chars(two_digits((a % 100) as nat)));
        assert(is_ascii_chars(Seq::<char>::empty()));
    }
    assert(out@ =~= old(out)@ + ascii_bytes(celsius_text(t as int)));
}


/// Append the link-quality part of a record.
#[verifier::rlimit(50)]
fn push_link_text(out: &mut Vec<u8>, link: &LinkQuality)
    ensures
        final(out)@ == old(out)@ + ascii_bytes(link_text(*link)),
        is_ascii_chars(link_text(*link)),
{
    broadcast use lemma_ascii_concat, lemma_ascii_bytes_concat;

    proof {
        reveal_strlit("rssi=");
        reveal_strlit("dBm snr=");
        reveal_strlit("dB len=");
    }
    push_lit(out, "rssi=");
    push_signed(out, link.rssi);
    push_lit(out, "dBm snr=");
    push_signed(out, link.snr);
    push_lit(out, "dB len=");
    push_num(out, link.len as u64);
}

/// Append the node and air measurements of a sensor reading.
#[verifier::rlimit(50)]
fn push_climate_text(out: &mut Vec<u8>, w: &WeatherPacket)
    ensures
        final(out)@ == old(out)@ + ascii_bytes(climate_text(*w)),
        is_ascii_chars(climate_text(*w)),
{
    broadcast use lemma_ascii_concat, lemma_ascii_bytes_concat;

    proof {
        reveal_strlit(" node=");
        reveal_strlit(" ");
        reveal_strlit("%RH gas=");
        reveal_strlit("ohm ");
    }
    push_lit(out, " node=");
    push_num(out, w.node_id as u64);
    push_lit(out, " ");
    push_celsius(out, w.temp_c);
    push_lit(out, " ");
    push_num(out, w.humidity_pct as u64);
    push_lit(out, "%RH gas=");
    push_num(out, w.gas_resistance_ohms as u64);
    push_lit(out, "ohm ");
}

/// Append the wind, fuel, battery and sequence fields of a sensor reading.
#[verifier::rlimit(50)]
fn push_field_text(out: &mut Vec<u8>, w: &WeatherPacket)
    ensures
        final(out)@ == old(out)@ + ascii_bytes(field_text(*w)),
        is_ascii_chars(field_text(*w)),
{
    broadcast use lemma_ascii_concat, lemma_ascii_bytes_concat;

    proof {
        reveal_strlit("x0.5m/s@");
        reveal_strlit("deg fuel=");
        reveal_strlit("% batt=");
        reveal_strlit("%/");
        reveal_strlit("mV seq=");
    }
    push_num(out, w.wind_speed_ms as u64);
    push_lit(out, "x0.5m/s@");
    push_num(out, w.wind_dir_deg as u64);
    push_lit(out, "deg fuel=");
    push_num(out, w.fuel_moisture as u64);
    push_lit(out, "% batt=");
    push_num(out, w.battery_soc as u64);
    push_lit(out, "%/");
    push_num(out, w.battery_mv as u64);
    push_lit(out, "mV seq=");
    push_num(out, w.sequence as u64);
}

/// Append a sensor reading.
fn push_reading_text(out: &mut Vec<u8>, w: &WeatherPacket)
    ensures
        final(out)@ == old(out)@ + ascii_bytes(reading_text(*w)),
        is_ascii_chars(reading_text(*w)),
{
    broadcast use lemma_ascii_concat, lemma_ascii_bytes_concat;

    push_climate_text(out, w);
    push_field_text(out, w);
}

/// Append a decoded envelope.
#[verifier::rlimit(50)]
fn push_envelope_text(out: &mut Vec<u8>, e: &MeshEnvelope)
    ensures
        final(out)@ == old(out)@ + ascii_bytes(envelope_text(*e)),
        is_ascii_chars(envelope_text(*e)),
{
    broadcast use lemma_ascii_concat, lemma_ascii_bytes_concat;

    proof {
        reveal_strlit(" from=0x");
        reveal_strlit(" id=0x");
        reveal_strlit(" hops=");
        reveal_strlit("/");
    }
    push_lit(out, " from=0x");
    push_hex_fixed(out, e.from as u64, 8);
    push_lit(out, " id=0x");
    push_hex_fixed(out, e.packet_id as u64, 8);
    push_lit(out, " hops=");
    push_num(out, e.hop_limit as u64);
    push_lit(out, "/");
    push_num(out, e.hop_start as u64);
    match e.payload {
        FlintPayload::SensorReading(w) => push_reading_text(out, &w),
    }
}

impl BridgeRecord {
    /// The record as one line of human-readable text, as the gateway prints
    /// it: the link quality and disposition, then the envelope's fields when
    /// its bytes decode; for a raw reception the bytes in hex.
#[verifier::rlimit(50)]
    pub fn describe(&self) -> (r: String)
        ensures
            r@ == record_text(self@),
    {
        broadcast use lemma_ascii_concat, lemma_ascii_bytes_concat;

        let mut out: Vec<u8> = Vec::new();
        proof {
            reveal_strlit("FRAME ");
            reveal_strlit(" ");
            reveal_strlit(" hops_left=");
            reveal_strlit(" <undecodable envelope>");
            reveal_strlit("RAW ");
            reveal_strlit(" bytes=");
            reveal_strlit("relayed");
            reveal_strlit("local");
            reveal_strlit("duplicate");
        }
        match self {
            BridgeRecord::Frame { link, disposition, hops_left, envelope } => {
                push_lit(&mut out, "FRAME ");
                push_link_text(&mut out, link);
                push_lit(&mut out, " ");
                push_lit(&mut out, disposition.as_str());
                push_lit(&mut out, " hops_left=");
                push_num(&mut out, *hops_left as u64);
                match decode(byte_vec_as_slice(envelope)) {
                    Ok(e) => push_envelope_text(&mut out, &e),
                    Err(_) => push_lit(&mut out, " <undecodable envelope>"),
                }
            },
            BridgeRecord::Raw { link, data } => {
                push_lit(&mut out, "RAW ");
                push_link_text(&mut out, link);
                push_lit(&mut out, " bytes=");
                push_hex_run(&mut out, byte_vec_as_slice(data));
            },
        }
        assert(out@ == ascii_bytes(record_text(self@)));
        ascii_str(out.as_slice(), Ghost(record_text(self@))).to_owned()
    }
}


/// The text of a frame whose envelope decodes shows the envelope's sender
/// and packet id in hex, then its hop count as remaining hops over hops at
/// the start, and the reading's node, temperature and humidity; it ends with
/// the reading's gas resistance, wind (in half metres per second) and
/// direction, fuel moisture, battery charge and voltage, and sequence number.
#[verifier::rlimit(60)]
pub proof fn lemma_frame_text_shows_envelope(
    link: LinkQuality,
    disposition: Disposition,
    hops_left: u8,
    envelope: Seq<u8>,
    e: MeshEnvelope,
    w: WeatherPacket,
)
    requires
        envelope_in(envelope) == Some(e),
        e.payload == FlintPayload::SensorReading(w),
    ensures
        ({
            let text = record_text(RecordView::Frame { link, disposition, hops_left, envelope });
            &&& exists|a: Seq<char>, b: Seq<char>|
                text == a + " from=0x"@ + hex_fixed(e.from as nat, 8) + " id=0x"@ + hex_fixed(e.packet_id as nat, 8)
                    + " hops="@ + decimal(e.hop_limit as nat) + "/"@ + decimal(e.hop_start as nat) + b
            &&& exists|a: Seq<char>, b: Seq<char>|
                text == a + " node="@ + decimal(w.node_id as nat) + " "@ + celsius_text(w.temp_c as int) + " "@
                    + decimal(w.humidity_pct as nat) + "%RH"@ + b
            &&& exists|a: Seq<char>|
                text == a + " gas="@ + decimal(w.gas_resistance_ohms as nat) + "ohm "@ + decimal(w.wind_speed_ms as nat)
                    + "x0.5m/s@"@ + decimal(w.wind_dir_deg as nat) + "deg fuel="@ + decimal(w.fuel_moisture as nat)
                    + "% batt="@ + decimal(w.battery_soc as nat) + "%/"@ + decimal(w.battery_mv as nat) + "mV seq="@
                    + decimal(w.sequence as nat)
        }),
{
    let text = record_text(RecordView::Frame { link, disposition, hops_left, envelope });
    let a1 = "FRAME "@ + link_text(link) + " "@ + disposition_name(disposition) + " hops_left="@ + decimal(
        hops_left as nat,
    );
    let b1 = reading_text(w);
    assert(text =~= a1 + " from=0x"@ + hex_fixed(e.from as nat, 8) + " id=0x"@ + hex_fixed(e.packet_id as nat, 8)
        + " hops="@ + decimal(e.hop_limit as nat) + "/"@ + decimal(e.hop_start as nat) + b1);
    let a2 = a1 + " from=0x"@ + hex_fixed(e.from as nat, 8) + " id=0x"@ + hex_fixed(e.packet_id as nat, 8)
        + " hops="@ + decimal(e.hop_limit as nat) + "/"@ + decimal(e.hop_start as nat);
    let b2 = " gas="@ + decimal(w.gas_resistance_ohms as nat) + "ohm "@ + field_text(w);
    assert(text =~= a2 + " node="@ + decimal(w.node_id as nat) + " "@ + celsius_text(w.temp_c as int) + " "@
        + decimal(w.humidity_pct as nat) + "%RH"@ + b2) by {
        reveal_strlit("%RH gas=");
        reveal_strlit("%RH");
        reveal_strlit(" gas=");
        assert("%RH gas="@ =~= "%RH"@ + " gas="@);
    }
    let a3 = a2 + " node="@ + decimal(w.node_id as nat) + " "@ + celsius_text(w.temp_c as int) + " "@
        + decimal(w.humidity_pct as nat) + "%RH"@;
    assert(text =~= a3 + " gas="@ + decimal(w.gas_resistance_ohms as nat) + "ohm "@ + field_text(w)) by {
        assert(text =~= a2 + climate_text(w) + field_text(w));
    }
}

} // verus!
