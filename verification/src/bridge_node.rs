//! One turn of the bridge node's receive loop: every reception off the air is
//! decoded if it can be, disposed of by the flood-routing rules, reported to
//! the host as exactly one record, and counted for the status screen.

use vstd::prelude::*;
use crate::bridge::{
    encode_frame_report, encode_raw_frame, frame_report_body, raw_frame_body, record_bytes, truncated, BridgeRecord,
    LinkQuality, RecordView, BRIDGE_MAX_FRAME, BRIDGE_TAG_FRAME_REPORT, BRIDGE_TAG_RAW_FRAME,
};
use crate::describe::record_text;
use crate::mesh::{MeshEnvelope, MAX_PACKET_BYTES};
use crate::oled::{bump, msg_rx, msg_rx_of, DisplayEvent, RxCounters};
use crate::relay::{receive, reception_of};
use crate::seen::{after_offer, SeenCache};
use crate::wire::{decode, envelope_in};

verus! {

/// What the receive loop does after one reception.
pub struct BridgeStep {
    /// The record to send to the host; `None` when the reception is longer
    /// than an envelope can be and no record can carry it.
    pub report: Option<Vec<u8>>,
    /// The envelope to rebroadcast, if any.
    pub relay: Option<MeshEnvelope>,
    /// The update for the status screen.
    pub event: DisplayEvent,
    /// The reception as a record, for human-readable output.
    pub record: BridgeRecord,
}

/// Handle one reception of `raw` with link quality `link`, `uptime_ms`
/// after boot.
#[verifier::rlimit(30)]
pub fn bridge_reception(
    seen: &mut SeenCache,
    counters: &mut RxCounters,
    raw: &[u8],
    link: &LinkQuality,
    uptime_ms: u64,
) -> (r: BridgeStep)
    requires
        old(seen).well_formed(),
    ensures
        final(seen).well_formed(),
        envelope_in(raw@) matches Some(e) ==> {
            let rc = reception_of(old(seen)@, e);
            &&& final(seen)@ == after_offer(old(seen)@, e.packet_id)
            &&& r.relay == rc.relay
            &&& (raw@.len() <= MAX_PACKET_BYTES ==> (r.report matches Some(rec)
                && rec@ == record_bytes(BRIDGE_TAG_FRAME_REPORT, frame_report_body(*link, rc.disposition, rc.hops_left, raw@))))
            &&& (raw@.len() > MAX_PACKET_BYTES ==> r.report is None)
            &&& *final(counters) == (RxCounters { decoded: bump(old(counters).decoded), errors: old(counters).errors })
            &&& r.event == (DisplayEvent::Decoded {
                decoded: final(counters).decoded,
                errors: final(counters).errors,
                msg: msg_rx_of(e, *link, uptime_ms),
            })
            &&& r.record@ == (RecordView::Frame {
                link: *link,
                disposition: rc.disposition,
                hops_left: rc.hops_left,
                envelope: truncated(raw@),
            })
        },
        envelope_in(raw@) is None ==> {
            &&& final(seen)@ == old(seen)@
            &&& r.relay is None
            &&& (raw@.len() <= MAX_PACKET_BYTES ==> (r.report matches Some(rec)
                && rec@ == record_bytes(BRIDGE_TAG_RAW_FRAME, raw_frame_body(*link, raw@))))
            &&& (raw@.len() > MAX_PACKET_BYTES ==> r.report is None)
            &&& *final(counters) == (RxCounters { decoded: old(counters).decoded, errors: bump(old(counters).errors) })
            &&& r.event == (DisplayEvent::Counts { decoded: final(counters).decoded, errors: final(counters).errors })
            &&& r.record@ == (RecordView::Raw { link: *link, data: truncated(raw@) })
        },
{
    let mut frame: Vec<u8> = vec![0u8; BRIDGE_MAX_FRAME];
    match decode(raw) {
        Ok(envelope) => {
            let reception = receive(seen, &envelope);
            let written = encode_frame_report(link, reception.disposition, reception.hops_left, raw, frame.as_mut_slice());
            let report = match written {
                Ok(n) => {
                    frame.truncate(n);
                    Some(frame)
                },
                Err(_) => None,
            };
            let msg = msg_rx(&envelope, link, uptime_ms);
            let event = counters.on_decoded(msg);
            let record = BridgeRecord::frame(*link, reception.disposition, reception.hops_left, raw);
            BridgeStep { report, relay: reception.relay, event, record }
        },
        Err(_) => {
            let written = encode_raw_frame(link, raw, frame.as_mut_slice());
            let report = match written {
                Ok(n) => {
                    frame.truncate(n);
                    Some(frame)
                },
                Err(_) => None,
            };
            let event = counters.on_error();
            let record = BridgeRecord::raw(*link, raw);
            BridgeStep { report, relay: None, event, record }
        },
    }
}


/// What the bridge writes to the host: binary records, or human-readable
/// text for debugging the bridge itself.
#[derive(Debug, Clone, Copy, PartialEq, Eq, Structural)]
pub enum OutputMode {
    /// Binary records only; the default at boot.
    Binary,
    /// Human-readable text in place of the records, with trace logging.
    Debug,
}

/// How much the firmware logs.
#[derive(Debug, Clone, Copy, PartialEq, Eq, Structural)]
pub enum LogLevel {
    /// Nothing, so that no text interleaves with the binary records.
    Off,
    /// Everything down to trace messages.
    Trace,
}

/// The command byte that selects binary output.
pub const COMMAND_BINARY: u8 = 0x62;

/// The command byte that selects debug output.
pub const COMMAND_DEBUG: u8 = 0x64;

/// The mode after the host sends `command` in mode `mode`: each command sets
/// its mode, whatever the mode was; any other byte is ignored.
pub open spec fn mode_after(mode: OutputMode, command: u8) -> OutputMode {
    if command == COMMAND_BINARY {
        OutputMode::Binary
    } else if command == COMMAND_DEBUG {
        OutputMode::Debug
    } else {
        mode
    }
}

impl OutputMode {
    /// The mode at boot.
    pub fn at_boot() -> (r: Self)
        ensures
            r == OutputMode::Binary,
    {
        OutputMode::Binary
    }

    /// The mode after the host sends the byte `command`.
    pub fn after_command(self, command: u8) -> (r: Self)
        ensures
            r == mode_after(self, command),
    {
        if command == COMMAND_BINARY {
            OutputMode::Binary
        } else if command == COMMAND_DEBUG {
            OutputMode::Debug
        } else {
            self
        }
    }

    /// The log level that goes with the mode.
    pub fn log_level(self) -> (r: LogLevel)
        ensures
            self == OutputMode::Binary ==> r == LogLevel::Off,
            self == OutputMode::Debug ==> r == LogLevel::Trace,
    {
        match self {
            OutputMode::Binary => LogLevel::Off,
            OutputMode::Debug => LogLevel::Trace,
        }
    }
}

/// Commands are idempotent: sending a command twice leaves the bridge where
/// sending it once did, so a reconnecting host can force a known mode.
pub proof fn lemma_commands_idempotent(mode: OutputMode, command: u8)
    ensures
        mode_after(mode_after(mode, command), command) == mode_after(mode, command),
        mode_after(mode, COMMAND_BINARY) == OutputMode::Binary,
        mode_after(mode, COMMAND_DEBUG) == OutputMode::Debug,
{
}

/// The bytes the bridge writes to the host for one reception: in binary mode
/// the record (nothing when no record could carry it), in debug mode the
/// record's text and a line break.
pub fn step_output(mode: OutputMode, step: &BridgeStep) -> (r: Vec<u8>)
    ensures
        mode == OutputMode::Binary ==> (step.report matches Some(rec) ==> r@ == rec@),
        mode == OutputMode::Binary ==> (step.report is None ==> r@ == Seq::<u8>::empty()),
        mode == OutputMode::Debug ==> r@ == vstd::utf8::encode_utf8(record_text(step.record@)) + seq![13u8, 10u8],
{
    match mode {
        OutputMode::Binary => match &step.report {
            Some(rec) => rec.clone(),
            None => Vec::new(),
        },
        OutputMode::Debug => {
            let text = step.record.describe();
            let mut out: Vec<u8> = Vec::new();
            out.extend_from_slice(text.as_str().as_bytes());
            out.push(13u8);
            out.push(10u8);
            out
        },
    }
}


/// What one write to the USB serial port reported.
#[derive(Debug, Clone, Copy, PartialEq, Eq, Structural)]
pub enum WriteResult {
    /// The port took this many bytes.
    Wrote(usize),
    /// The write failed.
    Failed,
}

/// The offset to write from after a write of the bytes from offset `sent`
/// on: further by what the port took (at most `usize::MAX`), or `None` to
/// stop when the port took nothing or failed.
pub open spec fn offset_after(sent: usize, result: WriteResult) -> Option<usize> {
    match result {
        WriteResult::Wrote(n) => if n == 0 {
            None
        } else if sent + n > usize::MAX {
            Some(usize::MAX)
        } else {
            Some((sent + n) as usize)
        },
        WriteResult::Failed => None,
    }
}

/// After a write of the bytes from offset `sent` on: the offset to write
/// from next, or `None` to stop, because the port took nothing or failed.
/// The output is complete once the offset reaches the length.
pub fn next_offset(sent: usize, result: WriteResult) -> (r: Option<usize>)
    ensures
        r == offset_after(sent, result),
{
    match result {
        WriteResult::Wrote(n) => if n == 0 {
            None
        } else {
            Some(sent.saturating_add(n))
        },
        WriteResult::Failed => None,
    }
}


/// Only the two command bytes change the mode: `b` selects binary output and
/// `d` debug output from either mode, and every other byte leaves the mode
/// as it was.
pub proof fn lemma_unknown_commands_ignored(mode: OutputMode, command: u8)
    ensures
        command != 0x62u8 && command != 0x64u8 ==> mode_after(mode, command) == mode,
        command == 0x62u8 ==> mode_after(mode, command) == OutputMode::Binary,
        command == 0x64u8 ==> mode_after(mode, command) == OutputMode::Debug,
{
}

} // verus!
