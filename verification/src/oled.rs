//! The bridge node's status screen: what the receive loop tells the display,
//! how the display keeps its state, and the text it shows.

use vstd::prelude::*;
use vstd::utf8::is_ascii_chars;
use crate::bridge::LinkQuality;
use crate::describe::{
    celsius_text, hex_fixed, lemma_ascii_concat, push_celsius, push_hex_fixed, push_lit, push_num, push_signed, signed,
};
use crate::mesh::{FlintPayload, MeshEnvelope};
use crate::text::{ascii_bytes, ascii_str, decimal, lemma_ascii_bytes_concat, lemma_decimal_len_u32};

verus! {

/// Capacity, in characters, of one line of the status screen.
pub const SCREEN_LINE_CHARS: usize = 28;

/// Details of the most recent decoded reception, for the screen.
#[derive(Debug, Clone, Copy, PartialEq, Eq, Structural)]
pub struct MsgRx {
    pub node_id: u32,
    pub rssi: i16,
    pub timestamp_s: u64,
    pub packet_id: u32,
    pub temp_c: i16,
    pub humidity: u8,
    pub wind_speed_ms: u8,
    pub gas_ohms: u32,
    pub battery_soc: u8,
}

/// The screen details of a decoded reception, `uptime_ms` after boot.
pub open spec fn msg_rx_of(envelope: MeshEnvelope, link: LinkQuality, uptime_ms: u64) -> MsgRx {
    let FlintPayload::SensorReading(w) = envelope.payload;
    MsgRx {
        node_id: w.node_id as u32,
        rssi: link.rssi,
        timestamp_s: uptime_ms / 1000,
        packet_id: envelope.packet_id,
        temp_c: w.temp_c,
        humidity: w.humidity_pct,
        wind_speed_ms: w.wind_speed_ms,
        gas_ohms: w.gas_resistance_ohms,
        battery_soc: w.battery_soc,
    }
}

/// The screen details of a decoded reception, `uptime_ms` after boot.
pub fn msg_rx(envelope: &MeshEnvelope, link: &LinkQuality, uptime_ms: u64) -> (r: MsgRx)
    ensures
        r == msg_rx_of(*envelope, *link, uptime_ms),
{
    let FlintPayload::SensorReading(w) = envelope.payload;
    MsgRx {
        node_id: w.node_id as u32,
        rssi: link.rssi,
        timestamp_s: uptime_ms / 1000,
        packet_id: envelope.packet_id,
        temp_c: w.temp_c,
        humidity: w.humidity_pct,
        wind_speed_ms: w.wind_speed_ms,
        gas_ohms: w.gas_resistance_ohms,
        battery_soc: w.battery_soc,
    }
}

/// Display update events. The counts come from the receive loop and ride
/// along in every event, so a dropped event only skips a redraw.
#[derive(Debug, Clone, Copy, PartialEq, Eq, Structural)]
pub enum DisplayEvent {
    Decoded { decoded: u32, errors: u32, msg: MsgRx },
    Counts { decoded: u32, errors: u32 },
}

/// What the screen shows: the counts and the latest decoded reception.
#[derive(Debug, Clone, Copy, PartialEq, Eq, Structural)]
pub struct DisplayState {
    pub decoded: u32,
    pub errors: u32,
    pub last: Option<MsgRx>,
}

/// The state after taking in `event` in state `s`: the counts are the
/// event's, and a decoded reception becomes the latest one.
pub open spec fn apply_event(s: DisplayState, event: DisplayEvent) -> DisplayState {
    match event {
        DisplayEvent::Decoded { decoded, errors, msg } => DisplayState { decoded, errors, last: Some(msg) },
        DisplayEvent::Counts { decoded, errors } => DisplayState { decoded, errors, last: s.last },
    }
}

/// The state at boot.
pub open spec fn boot_state() -> DisplayState {
    DisplayState { decoded: 0, errors: 0, last: None }
}

/// The state after taking in `events` in order, from boot.
pub open spec fn state_after(events: Seq<DisplayEvent>) -> DisplayState
    decreases events.len(),
{
    if events.len() == 0 {
        boot_state()
    } else {
        apply_event(state_after(events.drop_last()), events.last())
    }
}

/// The reception carried by the latest `Decoded` event among `events`.
pub open spec fn latest_msg(events: Seq<DisplayEvent>) -> Option<MsgRx>
    decreases events.len(),
{
    if events.len() == 0 {
        None
    } else {
        match events.last() {
            DisplayEvent::Decoded { msg, .. } => Some(msg),
            DisplayEvent::Counts { .. } => latest_msg(events.drop_last()),
        }
    }
}

/// The counts that an event carries.
pub open spec fn event_counts(event: DisplayEvent) -> (u32, u32) {
    match event {
        DisplayEvent::Decoded { decoded, errors, .. } => (decoded, errors),
        DisplayEvent::Counts { decoded, errors } => (decoded, errors),
    }
}

/// After any sequence of events from boot, the screen shows the counts of the
/// last event (zero before any event), and the reception of the latest
/// `Decoded` event (none before the first): a `Counts` event never changes
/// which reception is shown.
pub proof fn lemma_display_follows_events(events: Seq<DisplayEvent>)
    ensures
        state_after(events).last == latest_msg(events),
        events.len() == 0 ==> state_after(events) == boot_state(),
        events.len() > 0 ==> (state_after(events).decoded, state_after(events).errors) == event_counts(
            events.last(),
        ),
    decreases events.len(),
{
    if events.len() > 0 {
        lemma_display_follows_events(events.drop_last());
    }
}

impl DisplayState {
    /// The state at boot: nothing received.
    pub fn new() -> (r: Self)
        ensures
            r == (DisplayState { decoded: 0, errors: 0, last: None }),
            r == boot_state(),
    {
        DisplayState { decoded: 0, errors: 0, last: None }
    }

    /// Take in one event: the counts are replaced by the event's, and a
    /// decoded reception becomes the latest one.
    pub fn apply(&mut self, event: DisplayEvent)
        ensures
            event matches DisplayEvent::Decoded { decoded, errors, msg }
                ==> *final(self) == (DisplayState { decoded, errors, last: Some(msg) }),
            event matches DisplayEvent::Counts { decoded, errors }
                ==> *final(self) == (DisplayState { decoded, errors, last: old(self).last }),
            *final(self) == apply_event(*old(self), event),
    {
        match event {
            DisplayEvent::Decoded { decoded, errors, msg } => {
                self.decoded = decoded;
                self.errors = errors;
                self.last = Some(msg);
            },
            DisplayEvent::Counts { decoded, errors } => {
                self.decoded = decoded;
                self.errors = errors;
            },
        }
    }
}

/// The receive loop's counters of decoded and undecodable receptions.
#[derive(Debug, Clone, Copy, PartialEq, Eq, Structural)]
pub struct RxCounters {
    pub decoded: u32,
    pub errors: u32,
}

/// `n + 1`, staying at the largest `u32` once it is reached.
pub open spec fn bump(n: u32) -> u32 {
    if n == u32::MAX {
        n
    } else {
        (n + 1) as u32
    }
}

impl RxCounters {
    /// Both counters at zero.
    pub fn new() -> (r: Self)
        ensures
            r == (RxCounters { decoded: 0, errors: 0 }),
    {
        RxCounters { decoded: 0, errors: 0 }
    }

    /// Count a decoded reception; the event that tells the screen about it.
    pub fn on_decoded(&mut self, msg: MsgRx) -> (r: DisplayEvent)
        ensures
            *final(self) == (RxCounters { decoded: bump(old(self).decoded), errors: old(self).errors }),
            r == (DisplayEvent::Decoded { decoded: final(self).decoded, errors: final(self).errors, msg }),
    {
        self.decoded = self.decoded.saturating_add(1);
        DisplayEvent::Decoded { decoded: self.decoded, errors: self.errors, msg }
    }

    /// Count an undecodable reception; the event that tells the screen.
    pub fn on_error(&mut self) -> (r: DisplayEvent)
        ensures
            *final(self) == (RxCounters { decoded: old(self).decoded, errors: bump(old(self).errors) }),
            r == (DisplayEvent::Counts { decoded: final(self).decoded, errors: final(self).errors }),
    {
        self.errors = self.errors.saturating_add(1);
        DisplayEvent::Counts { decoded: self.decoded, errors: self.errors }
    }
}


// ── Screen text ──────────────────────────────────────────────────────────────

/// The title line with the counts. A line holds `SCREEN_LINE_CHARS`
/// characters and is written piece by piece, so the error count is left off
/// when the whole line would not fit.
pub open spec fn header_text(decoded: u32, errors: u32) -> Seq<char> {
    let full = "FlintBridge RX"@ + decimal(decoded as nat) + " ERR"@ + decimal(errors as nat);
    if full.len() <= SCREEN_LINE_CHARS {
        full
    } else {
        "FlintBridge RX"@ + decimal(decoded as nat) + " ERR"@
    }
}

/// The lines of the status screen, top to bottom: the title, then either a
/// waiting notice or the packet id, the left column (node, RSSI, time,
/// battery) and the right column (temperature, humidity, wind, gas).
pub open spec fn screen_text(s: DisplayState) -> Seq<Seq<char>> {
    let header = header_text(s.decoded, s.errors);
    match s.last {
        None => seq![header, "waiting for RX..."@],
        Some(m) => seq![
            header,
            "Pkt "@ + hex_fixed(m.packet_id as nat, 8),
            "Node "@ + decimal(m.node_id as nat),
            "RSSI "@ + signed(m.rssi as int),
            "Time "@ + decimal(m.timestamp_s as nat) + "s"@,
            "Batt "@ + decimal(m.battery_soc as nat) + "%"@,
            "T "@ + celsius_text(m.temp_c as int),
            "H "@ + decimal(m.humidity as nat) + "%"@,
            "W "@ + decimal(m.wind_speed_ms as nat / 2) + "."@ + decimal((m.wind_speed_ms as nat % 2) * 5),
            "Gas "@ + decimal(m.gas_ohms as nat),
        ],
    }
}

/// The string for bytes of ASCII text.
fn line_string(out: Vec<u8>, Ghost(text): Ghost<Seq<char>>) -> (r: String)
    requires
        is_ascii_chars(text),
        out@ == ascii_bytes(text),
    ensures
        r@ == text,
{
    ascii_str(out.as_slice(), Ghost(text)).to_owned()
}

/// The title line.
fn header_line(decoded: u32, errors: u32) -> (r: String)
    ensures
        r@ == header_text(decoded, errors),
{
    broadcast use lemma_ascii_concat, lemma_ascii_bytes_concat;

    proof {
        reveal_strlit("FlintBridge RX");
        reveal_strlit(" ERR");
    }
    let mut out: Vec<u8> = Vec::new();
    push_lit(&mut out, "FlintBridge RX");
    push_num(&mut out, decoded as u64);
    push_lit(&mut out, " ERR");
    let mut tail: Vec<u8> = Vec::new();
    push_num(&mut tail, errors as u64);
    proof {
        lemma_decimal_len_u32(decoded);
        lemma_decimal_len_u32(errors);
    }
    if out.len() + tail.len() <= SCREEN_LINE_CHARS {
        out.append(&mut tail);
    }
    let ghost full = "FlintBridge RX"@ + decimal(decoded as nat) + " ERR"@ + decimal(errors as nat);
    proof {
        assert(full.len() == ascii_bytes(full).len());
    }
    line_string(out, Ghost(header_text(decoded, errors)))
}

/// `label` followed by `n` and `unit`.
fn number_line(label: &str, n: u64, unit: &str) -> (r: String)
    requires
        is_ascii_chars(label@),
        is_ascii_chars(unit@),
    ensures
        r@ == label@ + decimal(n as nat) + unit@,
{
    broadcast use lemma_ascii_concat, lemma_ascii_bytes_concat;

    let mut out: Vec<u8> = Vec::new();
    push_lit(&mut out, label);
    push_num(&mut out, n);
    push_lit(&mut out, unit);
    line_string(out, Ghost(label@ + decimal(n as nat) + unit@))
}

/// The lines of the status screen for `state`, top to bottom.
#[verifier::rlimit(50)]
pub fn screen_lines(state: &DisplayState) -> (r: Vec<String>)
    ensures
        r@.map_values(|line: String| line@) == screen_text(*state),
{
    broadcast use lemma_ascii_concat, lemma_ascii_bytes_concat;

    proof {
        reveal_strlit("waiting for RX...");
        reveal_strlit("Pkt ");
        reveal_strlit("Node ");
        reveal_strlit("RSSI ");
        reveal_strlit("Time ");
        reveal_strlit("s");
        reveal_strlit("Batt ");
        reveal_strlit("%");
        reveal_strlit("T ");
        reveal_strlit("H ");
        reveal_strlit("W ");
        reveal_strlit(".");
        reveal_strlit("Gas ");
        reveal_strlit("");
    }
    let mut lines: Vec<String> = Vec::new();
    lines.push(header_line(state.decoded, state.errors));
    match state.last {
        None => {
            lines.push("waiting for RX...".to_owned());
        },
        Some(m) => {
            let mut pkt: Vec<u8> = Vec::new();
            push_lit(&mut pkt, "Pkt ");
            push_hex_fixed(&mut pkt, m.packet_id as u64, 8);
            lines.push(line_string(pkt, Ghost("Pkt "@ + hex_fixed(m.packet_id as nat, 8))));
            lines.push(number_line("Node ", m.node_id as u64, ""));
            let mut rssi: Vec<u8> = Vec::new();
            push_lit(&mut rssi, "RSSI ");
            push_signed(&mut rssi, m.rssi);
            lines.push(line_string(rssi, Ghost("RSSI "@ + signed(m.rssi as int))));
            lines.push(number_line("Time ", m.timestamp_s, "s"));
            lines.push(number_line("Batt ", m.battery_soc as u64, "%"));
            let mut temp: Vec<u8> = Vec::new();
            push_lit(&mut temp, "T ");
            push_celsius(&mut temp, m.temp_c);
            lines.push(line_string(temp, Ghost("T "@ + celsius_text(m.temp_c as int))));
            lines.push(number_line("H ", m.humidity as u64, "%"));
            let mut wind: Vec<u8> = Vec::new();
            push_lit(&mut wind, "W ");
            push_num(&mut wind, (m.wind_speed_ms / 2) as u64);
            push_lit(&mut wind, ".");
            push_num(&mut wind, ((m.wind_speed_ms % 2) * 5) as u64);
            lines.push(line_string(wind, Ghost("W "@ + decimal(m.wind_speed_ms as nat / 2) + "."@
                + decimal((m.wind_speed_ms as nat % 2) * 5))));
            lines.push(number_line("Gas ", m.gas_ohms as u64, ""));
        },
    }
    assert(lines@.map_values(|line: String| line@) =~= screen_text(*state));
    lines
}


/// Where line `line` of `screen_text` is drawn on the 128x64 screen: the
/// top-left corner of its text. The title spans the top; the packet id (or
/// the waiting notice) sits below the rule; the left column holds lines 2
/// to 5 and the right column lines 6 to 9, ten pixels apart.
pub open spec fn line_origin_of(line: int, has_reading: bool) -> (i32, i32) {
    if line == 0 {
        (0, 0)
    } else if line == 1 {
        if has_reading { (0, 12) } else { (0, 14) }
    } else if line < 6 {
        (0, (22 + 10 * (line - 2)) as i32)
    } else {
        (67, (22 + 10 * (line - 6)) as i32)
    }
}

/// The top-left corner at which line `line` of the screen is drawn.
pub fn line_origin(line: usize, has_reading: bool) -> (r: (i32, i32))
    requires
        line < 10,
        !has_reading ==> line < 2,
    ensures
        r == line_origin_of(line as int, has_reading),
{
    if line == 0 {
        (0, 0)
    } else if line == 1 {
        if has_reading { (0, 12) } else { (0, 14) }
    } else if line < 6 {
        (0, 22 + 10 * (line as i32 - 2))
    } else {
        (67, 22 + 10 * (line as i32 - 6))
    }
}

/// The straight rules drawn on the screen, as end points: one under the
/// title across the screen, and, with a reading shown, the divider between
/// the two columns.
pub fn screen_rules(has_reading: bool) -> (r: Vec<((i32, i32), (i32, i32))>)
    ensures
        has_reading ==> r@ == seq![((0i32, 10i32), (127i32, 10i32)), ((63i32, 21i32), (63i32, 63i32))],
        !has_reading ==> r@ == seq![((0i32, 10i32), (127i32, 10i32))],
{
    let mut rules: Vec<((i32, i32), (i32, i32))> = Vec::new();
    rules.push(((0, 10), (127, 10)));
    if has_reading {
        rules.push(((63, 21), (63, 63)));
    }
    assert(has_reading ==> rules@ =~= seq![((0i32, 10i32), (127i32, 10i32)), ((63i32, 21i32), (63i32, 63i32))]);
    assert(!has_reading ==> rules@ =~= seq![((0i32, 10i32), (127i32, 10i32))]);
    rules
}

} // verus!
