//! The bridge record protocol: the self-delimiting binary records that a
//! bridge node sends to the host for every reception, and their parser.
//!
//! A record is `[sync:2] [tag:1] [len:1] [body:len] [crc16:2]`, where the CRC
//! (CRC-16/CCITT-FALSE, little-endian on the wire) covers `tag .. body`.
//!
//! Bodies:
//!   FrameReport: `[rssi:i16] [snr:i16] [len:u8] [disposition:u8] [hops_left:u8] [envelope…]`
//!   RawFrame:    `[rssi:i16] [snr:i16] [len:u8] [raw bytes…]`

use vstd::prelude::*;
use vstd::slice::slice_subrange;
use crate::bounded::{byte_vec_extend, byte_vec_new, payload_bytes};
use crate::crc::{crc16, crc16_ccitt, crc16_update, lemma_crc_detects_single_byte_change, lemma_crc_update_concat, CRC16_INIT};
use crate::mesh::MAX_PACKET_BYTES;

verus! {

/// First byte of the sync word that marks the start of a record.
pub const BRIDGE_SYNC_HI: u8 = 0xF1;

/// Second byte of the sync word.
pub const BRIDGE_SYNC_LO: u8 = 0x5E;

/// Sync word marking the start of a bridge record.
pub const BRIDGE_SYNC: [u8; 2] = [BRIDGE_SYNC_HI, BRIDGE_SYNC_LO];

/// Record type tag: a decoded `MeshEnvelope` report.
pub const BRIDGE_TAG_FRAME_REPORT: u8 = 0x01;

/// Record type tag: an undecodable raw reception.
pub const BRIDGE_TAG_RAW_FRAME: u8 = 0x02;

/// FrameReport body header: rssi(2) + snr(2) + len(1) + disposition(1) + hops_left(1).
pub const FRAME_HEADER_LEN: usize = 7;

/// RawFrame body header: rssi(2) + snr(2) + len(1).
pub const RAW_HEADER_LEN: usize = 5;

/// Largest possible record body (a FrameReport carrying a full-size envelope).
pub const BRIDGE_MAX_BODY: usize = FRAME_HEADER_LEN + MAX_PACKET_BYTES;

/// Largest possible encoded record: sync(2) + tag(1) + len(1) + body + crc(2).
pub const BRIDGE_MAX_FRAME: usize = 4 + BRIDGE_MAX_BODY + 2;

/// Bytes that a record adds around its body: sync, tag, length and CRC.
pub const RECORD_OVERHEAD: usize = 6;

/// How the receiver disposed of a decoded frame.
#[derive(Debug, Clone, Copy, PartialEq, Eq, Structural)]
pub enum Disposition {
    /// Unseen with `hop_limit > 0`: rebroadcast onward.
    Relayed,
    /// Unseen with `hop_limit == 0`: delivered locally, not relayed.
    LocalOnly,
    /// `packet_id` already in the seen cache: discarded.
    Duplicate,
}

/// The wire code of a disposition.
pub open spec fn disposition_code(d: Disposition) -> u8 {
    match d {
        Disposition::Relayed => 0,
        Disposition::LocalOnly => 1,
        Disposition::Duplicate => 2,
    }
}

/// The disposition that a wire code stands for, if any.
pub open spec fn disposition_of_code(v: u8) -> Option<Disposition> {
    if v == 0 {
        Some(Disposition::Relayed)
    } else if v == 1 {
        Some(Disposition::LocalOnly)
    } else if v == 2 {
        Some(Disposition::Duplicate)
    } else {
        None
    }
}

/// The human-readable name of a disposition.
pub open spec fn disposition_name(d: Disposition) -> Seq<char> {
    match d {
        Disposition::Relayed => "relayed"@,
        Disposition::LocalOnly => "local"@,
        Disposition::Duplicate => "duplicate"@,
    }
}

impl Disposition {
    /// The wire code of this disposition.
    pub fn to_u8(self) -> (r: u8)
        ensures
            r == disposition_code(self),
    {
        match self {
            Disposition::Relayed => 0,
            Disposition::LocalOnly => 1,
            Disposition::Duplicate => 2,
        }
    }

    /// The disposition with wire code `v`; `None` for an unknown code.
    pub fn from_u8(v: u8) -> (r: Option<Self>)
        ensures
            r == disposition_of_code(v),
    {
        match v {
            0 => Some(Disposition::Relayed),
            1 => Some(Disposition::LocalOnly),
            2 => Some(Disposition::Duplicate),
            _ => None,
        }
    }

    /// The human-readable name of this disposition.
    pub fn as_str(self) -> (r: &'static str)
        ensures
            r@ == disposition_name(self),
    {
        match self {
            Disposition::Relayed => "relayed",
            Disposition::LocalOnly => "local",
            Disposition::Duplicate => "duplicate",
        }
    }
}

/// Link-quality header carried by every bridge record.
#[derive(Debug, Clone, Copy, PartialEq, Eq, Structural)]
pub struct LinkQuality {
    /// Received signal strength, dBm.
    pub rssi: i16,
    /// Signal-to-noise ratio, dB.
    pub snr: i16,
    /// Number of bytes received off the air.
    pub len: u8,
}

/// Errors that can occur while encoding a bridge record.
#[derive(Debug, Clone, Copy, PartialEq, Eq, Structural)]
pub enum BridgeError {
    /// The output buffer is smaller than the encoded record.
    BufferTooSmall,
    /// The payload exceeds the protocol maximum.
    BodyTooLong,
}

// ── The wire format, as mathematics ─────────────────────────────────────────

/// The two bytes of an `i16`, least significant first.
pub open spec fn le_bytes(x: i16) -> Seq<u8> {
    seq![((x as u16) & 0xffu16) as u8, ((x as u16) >> 8u16) as u8]
}

/// The `i16` whose little-endian bytes are `lo`, `hi`.
pub open spec fn from_le(lo: u8, hi: u8) -> i16 {
    ((lo as u16) | ((hi as u16) << 8u16)) as i16
}

/// The `u16` whose little-endian bytes are `lo`, `hi`.
pub open spec fn u16_from_le(lo: u8, hi: u8) -> u16 {
    (lo as u16) | ((hi as u16) << 8u16)
}

/// The link-quality header as it stands at the front of every body.
pub open spec fn link_bytes(link: LinkQuality) -> Seq<u8> {
    le_bytes(link.rssi) + le_bytes(link.snr) + seq![link.len]
}

/// The body of a FrameReport record.
pub open spec fn frame_report_body(link: LinkQuality, d: Disposition, hops_left: u8, envelope: Seq<u8>) -> Seq<u8> {
    link_bytes(link) + seq![disposition_code(d), hops_left] + envelope
}

/// The body of a RawFrame record.
pub open spec fn raw_frame_body(link: LinkQuality, raw: Seq<u8>) -> Seq<u8> {
    link_bytes(link) + raw
}

/// The complete record with type `tag` around `body` (of at most 255 bytes).
pub open spec fn record_bytes(tag: u8, body: Seq<u8>) -> Seq<u8> {
    let head = seq![tag, body.len() as u8];
    let c = crc16(head + body);
    seq![BRIDGE_SYNC_HI, BRIDGE_SYNC_LO] + head + body + seq![(c & 0xffu16) as u8, (c >> 8u16) as u8]
}

/// A decoded record, with its payload as a sequence of bytes.
pub enum RecordView {
    Frame { link: LinkQuality, disposition: Disposition, hops_left: u8, envelope: Seq<u8> },
    Raw { link: LinkQuality, data: Seq<u8> },
}

/// The outcome of one parse step, with record payloads as sequences of bytes.
pub enum OutcomeView {
    Record { record: RecordView, consumed: nat },
    NeedMore,
    Skip(nat),
}

/// The link-quality header at the front of `body`.
pub open spec fn link_from(body: Seq<u8>) -> LinkQuality {
    LinkQuality { rssi: from_le(body[0], body[1]), snr: from_le(body[2], body[3]), len: body[4] }
}

/// The record that a CRC-valid record with type `tag` and body `body`
/// stands for: `None` for an unknown tag, a body shorter than its header,
/// an unknown disposition code or a payload longer than `MAX_PACKET_BYTES`.
pub open spec fn body_record(tag: u8, body: Seq<u8>) -> Option<RecordView> {
    if tag == BRIDGE_TAG_FRAME_REPORT {
        if body.len() < FRAME_HEADER_LEN || body.len() - FRAME_HEADER_LEN > MAX_PACKET_BYTES {
            None
        } else {
            match disposition_of_code(body[5]) {
                Some(d) => Some(RecordView::Frame {
                    link: link_from(body),
                    disposition: d,
                    hops_left: body[6],
                    envelope: body.skip(FRAME_HEADER_LEN as int),
                }),
                None => None,
            }
        }
    } else if tag == BRIDGE_TAG_RAW_FRAME {
        if body.len() < RAW_HEADER_LEN || body.len() - RAW_HEADER_LEN > MAX_PACKET_BYTES {
            None
        } else {
            Some(RecordView::Raw { link: link_from(body), data: body.skip(RAW_HEADER_LEN as int) })
        }
    } else {
        None
    }
}

/// Whether the sync word starts at index `i` of `buf`.
pub open spec fn sync_at(buf: Seq<u8>, i: int) -> bool {
    &&& 0 <= i
    &&& i + 1 < buf.len()
    &&& buf[i] == BRIDGE_SYNC_HI
    &&& buf[i + 1] == BRIDGE_SYNC_LO
}

/// Whether a sync word starts somewhere before index `n` of `buf`.
pub open spec fn sync_before(buf: Seq<u8>, n: int) -> bool {
    exists|j: int| 0 <= j < n && #[trigger] sync_at(buf, j)
}

/// Whether `buf` holds a sync word anywhere.
pub open spec fn has_sync(buf: Seq<u8>) -> bool {
    exists|j: int| #[trigger] sync_at(buf, j)
}

/// Whether `i` is the position of the first sync word of `buf`.
pub open spec fn first_sync_at(buf: Seq<u8>, i: int) -> bool {
    sync_at(buf, i) && !sync_before(buf, i)
}

/// The outcome for a buffer that starts with the sync word.
pub open spec fn aligned_outcome(buf: Seq<u8>) -> OutcomeView {
    if buf.len() < 4 {
        OutcomeView::NeedMore
    } else {
        let len = buf[3] as int;
        let total = len + RECORD_OVERHEAD;
        if buf.len() < total {
            OutcomeView::NeedMore
        } else if crc16(buf.subrange(2, 4 + len)) != u16_from_le(buf[4 + len], buf[5 + len]) {
            OutcomeView::Skip(2)
        } else {
            match body_record(buf[2], buf.subrange(4, 4 + len)) {
                Some(record) => OutcomeView::Record { record, consumed: total as nat },
                None => OutcomeView::Skip(2),
            }
        }
    }
}

/// What one parse step does with the front of `buf`: with no sync word it
/// skips all but the last byte (which may begin a split sync word); it skips
/// to the first sync word; and at a sync word it waits for the whole record,
/// skips the sync word of a record with a bad CRC or an unusable body, and
/// otherwise yields the record.
pub open spec fn parse_outcome(buf: Seq<u8>) -> OutcomeView {
    if !has_sync(buf) {
        if buf.len() <= 1 {
            OutcomeView::NeedMore
        } else {
            OutcomeView::Skip((buf.len() - 1) as nat)
        }
    } else {
        let p = choose|i: int| first_sync_at(buf, i);
        if p > 0 {
            OutcomeView::Skip(p as nat)
        } else {
            aligned_outcome(buf)
        }
    }
}

/// There is at most one first sync word.
pub proof fn lemma_first_sync_unique(buf: Seq<u8>, i: int)
    requires
        first_sync_at(buf, i),
    ensures
        has_sync(buf),
        (choose|j: int| first_sync_at(buf, j)) == i,
{
    assert(sync_at(buf, i));
    let j = choose|j: int| first_sync_at(buf, j);
    assert(first_sync_at(buf, j));
    if j < i {
        assert(sync_before(buf, i));
    } else if i < j {
        assert(sync_at(buf, i));
        assert(sync_before(buf, j));
    }
}

/// Little-endian bytes of an `i16` give the value back.
pub proof fn lemma_le_round_trip(x: i16)
    ensures
        from_le(le_bytes(x)[0], le_bytes(x)[1]) == x,
{
    assert((((((x as u16) & 0xffu16) as u8) as u16) | (((((x as u16) >> 8u16) as u8) as u16) << 8u16)) as i16 == x) by (bit_vector);
}

/// Little-endian bytes of a `u16` give the value back.
pub proof fn lemma_u16_le_round_trip(c: u16)
    ensures
        u16_from_le((c & 0xffu16) as u8, (c >> 8u16) as u8) == c,
{
    assert((((c & 0xffu16) as u8) as u16) | ((((c >> 8u16) as u8) as u16) << 8u16) == c) by (bit_vector);
}


// ── Encoding ────────────────────────────────────────────────────────────────

/// Frame a record body with sync word, tag, length and CRC at the front of
/// `out`, leaving the rest of `out` as it was. Returns the record length.
pub fn write_frame(tag: u8, body: &[u8], out: &mut [u8]) -> (r: Result<usize, BridgeError>)
    ensures
        body@.len() > 255 ==> r == Err::<usize, BridgeError>(BridgeError::BodyTooLong) && final(out)@ == old(out)@,
        body@.len() <= 255 && old(out)@.len() < body@.len() + RECORD_OVERHEAD ==> r == Err::<usize, BridgeError>(BridgeError::BufferTooSmall) && final(out)@ == old(out)@,
        body@.len() <= 255 && old(out)@.len() >= body@.len() + RECORD_OVERHEAD ==> r == Ok::<usize, BridgeError>((body@.len() + RECORD_OVERHEAD) as usize)
            && final(out)@ == record_bytes(tag, body@) + old(out)@.skip(body@.len() + RECORD_OVERHEAD),
{
    if body.len() > 255 {
        return Err(BridgeError::BodyTooLong);
    }
    let n: usize = body.len();
    let total: usize = n + RECORD_OVERHEAD;
    if out.len() < total {
        return Err(BridgeError::BufferTooSmall);
    }
    let len_byte: u8 = n as u8;
    out[0] = BRIDGE_SYNC_HI;
    out[1] = BRIDGE_SYNC_LO;
    out[2] = tag;
    out[3] = len_byte;
    let mut i: usize = 0;
    while i < n
        invariant
            n == body@.len(),
            n <= 255,
            total == n + RECORD_OVERHEAD,
            total <= out@.len(),
            out@.len() == old(out)@.len(),
            i <= n,
            out@[0] == BRIDGE_SYNC_HI,
            out@[1] == BRIDGE_SYNC_LO,
            out@[2] == tag,
            out@[3] == len_byte,
            forall|j: int| 0 <= j < i ==> out@[4 + j] == body@[j],
            forall|j: int| total <= j < out@.len() ==> out@[j] == old(out)@[j],
        decreases n - i,
    {
        out[4 + i] = body[i];
        i = i + 1;
    }
    let head: Vec<u8> = vec![tag, len_byte];
    let head_crc: u16 = crc16_ccitt(head.as_slice());
    let crc: u16 = crc16_update(head_crc, body);
    proof {
        lemma_crc_update_concat(CRC16_INIT, head@, body@);
    }
    out[4 + n] = (crc & 0xff) as u8;
    out[5 + n] = (crc >> 8) as u8;
    assert(out@ =~= record_bytes(tag, body@) + old(out)@.skip(total as int));
    Ok(total)
}

/// Append the link-quality header to `body`.
fn push_link(body: &mut Vec<u8>, link: &LinkQuality)
    ensures
        final(body)@ == old(body)@ + link_bytes(*link),
{
    let rssi: u16 = link.rssi as u16;
    let snr: u16 = link.snr as u16;
    body.push((rssi & 0xff) as u8);
    body.push((rssi >> 8) as u8);
    body.push((snr & 0xff) as u8);
    body.push((snr >> 8) as u8);
    body.push(link.len);
    assert(body@ =~= old(body)@ + link_bytes(*link));
}

/// Append all of `bytes` to `body`.
fn push_all(body: &mut Vec<u8>, bytes: &[u8])
    ensures
        final(body)@ == old(body)@ + bytes@,
{
    let mut i: usize = 0;
    while i < bytes.len()
        invariant
            i <= bytes@.len(),
            body@ == old(body)@ + bytes@.take(i as int),
        decreases bytes@.len() - i,
    {
        body.push(bytes[i]);
        i = i + 1;
        assert(body@ =~= old(body)@ + bytes@.take(i as int));
    }
    assert(bytes@.take(bytes@.len() as int) =~= bytes@);
}

/// Encode a FrameReport record (a decoded `MeshEnvelope` reception) at the
/// front of `out`; `envelope_bytes` is the envelope as received. Returns the
/// record length.
pub fn encode_frame_report(
    link: &LinkQuality,
    disposition: Disposition,
    hops_left: u8,
    envelope_bytes: &[u8],
    out: &mut [u8],
) -> (r: Result<usize, BridgeError>)
    ensures
        envelope_bytes@.len() > MAX_PACKET_BYTES ==> r == Err::<usize, BridgeError>(BridgeError::BodyTooLong) && final(out)@ == old(out)@,
        envelope_bytes@.len() <= MAX_PACKET_BYTES && old(out)@.len() < envelope_bytes@.len() + FRAME_HEADER_LEN + RECORD_OVERHEAD
            ==> r == Err::<usize, BridgeError>(BridgeError::BufferTooSmall) && final(out)@ == old(out)@,
        envelope_bytes@.len() <= MAX_PACKET_BYTES && old(out)@.len() >= envelope_bytes@.len() + FRAME_HEADER_LEN + RECORD_OVERHEAD
            ==> r == Ok::<usize, BridgeError>((envelope_bytes@.len() + FRAME_HEADER_LEN + RECORD_OVERHEAD) as usize)
            && final(out)@ == record_bytes(BRIDGE_TAG_FRAME_REPORT, frame_report_body(*link, disposition, hops_left, envelope_bytes@))
                + old(out)@.skip(envelope_bytes@.len() + FRAME_HEADER_LEN + RECORD_OVERHEAD),
{
    if envelope_bytes.len() > MAX_PACKET_BYTES {
        return Err(BridgeError::BodyTooLong);
    }
    let mut body: Vec<u8> = Vec::with_capacity(BRIDGE_MAX_BODY);
    push_link(&mut body, link);
    body.push(disposition.to_u8());
    body.push(hops_left);
    push_all(&mut body, envelope_bytes);
    assert(body@ =~= frame_report_body(*link, disposition, hops_left, envelope_bytes@));
    write_frame(BRIDGE_TAG_FRAME_REPORT, body.as_slice(), out)
}

/// Encode a RawFrame record (an undecodable reception) at the front of
/// `out`. Returns the record length.
pub fn encode_raw_frame(link: &LinkQuality, raw: &[u8], out: &mut [u8]) -> (r: Result<usize, BridgeError>)
    ensures
        raw@.len() > MAX_PACKET_BYTES ==> r == Err::<usize, BridgeError>(BridgeError::BodyTooLong) && final(out)@ == old(out)@,
        raw@.len() <= MAX_PACKET_BYTES && old(out)@.len() < raw@.len() + RAW_HEADER_LEN + RECORD_OVERHEAD
            ==> r == Err::<usize, BridgeError>(BridgeError::BufferTooSmall) && final(out)@ == old(out)@,
        raw@.len() <= MAX_PACKET_BYTES && old(out)@.len() >= raw@.len() + RAW_HEADER_LEN + RECORD_OVERHEAD
            ==> r == Ok::<usize, BridgeError>((raw@.len() + RAW_HEADER_LEN + RECORD_OVERHEAD) as usize)
            && final(out)@ == record_bytes(BRIDGE_TAG_RAW_FRAME, raw_frame_body(*link, raw@))
                + old(out)@.skip(raw@.len() + RAW_HEADER_LEN + RECORD_OVERHEAD),
{
    if raw.len() > MAX_PACKET_BYTES {
        return Err(BridgeError::BodyTooLong);
    }
    let mut body: Vec<u8> = Vec::with_capacity(BRIDGE_MAX_BODY);
    push_link(&mut body, link);
    push_all(&mut body, raw);
    write_frame(BRIDGE_TAG_RAW_FRAME, body.as_slice(), out)
}


// ── Decoding ────────────────────────────────────────────────────────────────

/// A decoded bridge record.
#[derive(Debug, Clone)]
pub enum BridgeRecord {
    /// A decoded `MeshEnvelope` reception; `envelope` holds the received
    /// envelope bytes, which `decode` turns back into the envelope.
    Frame {
        link: LinkQuality,
        disposition: Disposition,
        hops_left: u8,
        envelope: heapless::Vec<u8, MAX_PACKET_BYTES>,
    },
    /// An undecodable reception, with the raw bytes received off the air.
    Raw { link: LinkQuality, data: heapless::Vec<u8, MAX_PACKET_BYTES> },
}

impl View for BridgeRecord {
    type V = RecordView;

    open spec fn view(&self) -> RecordView {
        match *self {
            BridgeRecord::Frame { link, disposition, hops_left, envelope } => RecordView::Frame {
                link,
                disposition,
                hops_left,
                envelope: payload_bytes(envelope),
            },
            BridgeRecord::Raw { link, data } => RecordView::Raw { link, data: payload_bytes(data) },
        }
    }
}

/// The first `MAX_PACKET_BYTES` bytes of `bytes` (all of them when fewer).
pub open spec fn truncated(bytes: Seq<u8>) -> Seq<u8> {
    if bytes.len() <= MAX_PACKET_BYTES {
        bytes
    } else {
        bytes.take(MAX_PACKET_BYTES as int)
    }
}

/// A payload vector holding the first `MAX_PACKET_BYTES` bytes of `bytes`.
fn truncated_payload(bytes: &[u8]) -> (r: heapless::Vec<u8, MAX_PACKET_BYTES>)
    ensures
        payload_bytes(r) == truncated(bytes@),
{
    let n: usize = if bytes.len() <= MAX_PACKET_BYTES { bytes.len() } else { MAX_PACKET_BYTES };
    let mut v = byte_vec_new();
    let _ = byte_vec_extend(&mut v, slice_subrange(bytes, 0, n));
    assert(bytes@.subrange(0, n as int) =~= truncated(bytes@));
    v
}

impl BridgeRecord {
    /// A `Frame` record from received envelope bytes, truncated to capacity.
    pub fn frame(link: LinkQuality, disposition: Disposition, hops_left: u8, envelope_bytes: &[u8]) -> (r: Self)
        ensures
            r@ == (RecordView::Frame { link, disposition, hops_left, envelope: truncated(envelope_bytes@) }),
    {
        let envelope = truncated_payload(envelope_bytes);
        BridgeRecord::Frame { link, disposition, hops_left, envelope }
    }

    /// A `Raw` record from received bytes, truncated to capacity.
    pub fn raw(link: LinkQuality, data_bytes: &[u8]) -> (r: Self)
        ensures
            r@ == (RecordView::Raw { link, data: truncated(data_bytes@) }),
    {
        let data = truncated_payload(data_bytes);
        BridgeRecord::Raw { link, data }
    }
}

/// Result of attempting to parse one record from a streaming buffer.
#[derive(Debug)]
pub enum ParseOutcome {
    /// A complete, CRC-valid record. Drop `consumed` leading bytes and continue.
    Record { record: BridgeRecord, consumed: usize },
    /// Not enough bytes buffered yet to decide: read more and retry.
    NeedMore,
    /// Discard `skip` leading bytes (no sync, bad CRC, or unknown tag) and retry.
    Skip(usize),
}

impl View for ParseOutcome {
    type V = OutcomeView;

    open spec fn view(&self) -> OutcomeView {
        match *self {
            ParseOutcome::Record { record, consumed } => OutcomeView::Record { record: record@, consumed: consumed as nat },
            ParseOutcome::NeedMore => OutcomeView::NeedMore,
            ParseOutcome::Skip(k) => OutcomeView::Skip(k as nat),
        }
    }
}

/// Locate the first sync word in `buf`.
pub fn find_sync(buf: &[u8]) -> (r: Option<usize>)
    ensures
        r matches Some(p) ==> first_sync_at(buf@, p as int),
        r is None ==> !has_sync(buf@),
{
    if buf.len() < 2 {
        assert forall|j: int| !#[trigger] sync_at(buf@, j) by {}
        return None;
    }
    let last: usize = buf.len() - 1;
    let mut i: usize = 0;
    while i < last
        invariant
            last + 1 == buf@.len(),
            i <= last,
            !sync_before(buf@, i as int),
        decreases buf@.len() - i,
    {
        if buf[i] == BRIDGE_SYNC_HI && buf[i + 1] == BRIDGE_SYNC_LO {
            return Some(i);
        }
        assert forall|j: int| 0 <= j < i + 1 implies !#[trigger] sync_at(buf@, j) by {
            if j < i {
                assert(!sync_before(buf@, i as int));
            }
        }
        i = i + 1;
    }
    assert forall|j: int| !#[trigger] sync_at(buf@, j) by {
        if 0 <= j < i {
            assert(!sync_before(buf@, i as int));
        }
    }
    None
}

/// The link-quality header at the front of `body`.
fn read_link(body: &[u8]) -> (r: LinkQuality)
    requires
        body@.len() >= RAW_HEADER_LEN,
    ensures
        r == link_from(body@),
{
    LinkQuality {
        rssi: ((body[0] as u16) | ((body[1] as u16) << 8)) as i16,
        snr: ((body[2] as u16) | ((body[3] as u16) << 8)) as i16,
        len: body[4],
    }
}

/// The record for a CRC-valid body with type `tag`, if it is usable.
fn parse_body(tag: u8, body: &[u8]) -> (r: Option<BridgeRecord>)
    ensures
        r matches Some(rec) ==> body_record(tag, body@) == Some(rec@),
        r is None ==> body_record(tag, body@) is None,
{
    if tag == BRIDGE_TAG_FRAME_REPORT {
        if body.len() < FRAME_HEADER_LEN {
            return None;
        }
        let link = read_link(body);
        let disposition = match Disposition::from_u8(body[5]) {
            Some(d) => d,
            None => return None,
        };
        let hops_left: u8 = body[6];
        let mut envelope = byte_vec_new();
        match byte_vec_extend(&mut envelope, slice_subrange(body, FRAME_HEADER_LEN, body.len())) {
            Ok(()) => {},
            Err(()) => return None,
        }
        assert(body@.subrange(FRAME_HEADER_LEN as int, body@.len() as int) =~= body@.skip(FRAME_HEADER_LEN as int));
        Some(BridgeRecord::Frame { link, disposition, hops_left, envelope })
    } else if tag == BRIDGE_TAG_RAW_FRAME {
        if body.len() < RAW_HEADER_LEN {
            return None;
        }
        let link = read_link(body);
        let mut data = byte_vec_new();
        match byte_vec_extend(&mut data, slice_subrange(body, RAW_HEADER_LEN, body.len())) {
            Ok(()) => {},
            Err(()) => return None,
        }
        assert(body@.subrange(RAW_HEADER_LEN as int, body@.len() as int) =~= body@.skip(RAW_HEADER_LEN as int));
        Some(BridgeRecord::Raw { link, data })
    } else {
        None
    }
}

/// Attempt to parse a single bridge record from the front of `buf`.
///
/// Drives a streaming host parser: feed bytes into a growing buffer, call this
/// repeatedly, and act on the outcome (drop `consumed`/`skip` bytes, or read
/// more on `NeedMore`). Stray bytes between records are skipped until the next
/// valid, CRC-checked record.
pub fn parse_record(buf: &[u8]) -> (r: ParseOutcome)
    ensures
        r@ == parse_outcome(buf@),
{
    match find_sync(buf) {
        None => {
            if buf.len() <= 1 {
                ParseOutcome::NeedMore
            } else {
                ParseOutcome::Skip(buf.len() - 1)
            }
        },
        Some(pos) => {
            proof {
                lemma_first_sync_unique(buf@, pos as int);
            }
            if pos > 0 {
                return ParseOutcome::Skip(pos);
            }
            if buf.len() < 4 {
                return ParseOutcome::NeedMore;
            }
            let tag: u8 = buf[2];
            let len: usize = buf[3] as usize;
            let total: usize = len + RECORD_OVERHEAD;
            if buf.len() < total {
                return ParseOutcome::NeedMore;
            }
            let crc_calc: u16 = crc16_ccitt(slice_subrange(buf, 2, 4 + len));
            let crc_wire: u16 = (buf[4 + len] as u16) | ((buf[5 + len] as u16) << 8);
            if crc_calc != crc_wire {
                return ParseOutcome::Skip(2);
            }
            match parse_body(tag, slice_subrange(buf, 4, 4 + len)) {
                Some(record) => ParseOutcome::Record { record, consumed: total },
                None => ParseOutcome::Skip(2),
            }
        },
    }
}


// ── Laws of the record protocol ─────────────────────────────────────────────

/// A link-quality header reads back as the header that was written.
pub proof fn lemma_link_round_trip(link: LinkQuality, rest: Seq<u8>)
    ensures
        link_from(link_bytes(link) + rest) == link,
{
    lemma_le_round_trip(link.rssi);
    lemma_le_round_trip(link.snr);
    let b = link_bytes(link) + rest;
    assert(b[0] == le_bytes(link.rssi)[0] && b[1] == le_bytes(link.rssi)[1]);
    assert(b[2] == le_bytes(link.snr)[0] && b[3] == le_bytes(link.snr)[1]);
    assert(b[4] == link.len);
}

/// A record written around a body of at most 255 bytes, followed by any
/// bytes at all, parses as its tag and body and consumes exactly the record.
pub proof fn lemma_record_parses(tag: u8, body: Seq<u8>, rest: Seq<u8>)
    requires
        body.len() <= 255,
    ensures
        ({
            let b = record_bytes(tag, body) + rest;
            &&& first_sync_at(b, 0)
            &&& parse_outcome(b) == match body_record(tag, body) {
                Some(record) => OutcomeView::Record { record, consumed: (body.len() + RECORD_OVERHEAD) as nat },
                None => OutcomeView::Skip(2),
            }
        }),
{
    let b = record_bytes(tag, body) + rest;
    let len = body.len() as int;
    let head = seq![tag, body.len() as u8];
    let c = crc16(head + body);
    assert(b[0] == BRIDGE_SYNC_HI && b[1] == BRIDGE_SYNC_LO);
    assert(sync_at(b, 0));
    assert(!sync_before(b, 0));
    lemma_first_sync_unique(b, 0);
    assert(b[2] == tag);
    assert((body.len() as u8) as int == len);
    assert(b[3] as int == len);
    assert(b.subrange(2, 4 + len) =~= head + body);
    assert(b.subrange(4, 4 + len) =~= body);
    assert(b[4 + len] == (c & 0xffu16) as u8);
    assert(b[5 + len] == (c >> 8u16) as u8);
    lemma_u16_le_round_trip(c);
}

/// A record with any one byte of its tag, body or CRC altered is rejected:
/// the parser skips its sync word instead of yielding corrupt fields.
pub proof fn lemma_corrupt_record_rejected(tag: u8, body: Seq<u8>, rest: Seq<u8>, p: int, v: u8)
    requires
        body.len() <= 255,
        p == 2 || 4 <= p < body.len() + RECORD_OVERHEAD,
        v != record_bytes(tag, body)[p],
    ensures
        parse_outcome((record_bytes(tag, body) + rest).update(p, v)) == OutcomeView::Skip(2),
{
    let good = record_bytes(tag, body) + rest;
    let b = good.update(p, v);
    let len = body.len() as int;
    let head = seq![tag, body.len() as u8];
    let c = crc16(head + body);
    lemma_record_parses(tag, body, rest);
    assert(b[0] == BRIDGE_SYNC_HI && b[1] == BRIDGE_SYNC_LO);
    assert(sync_at(b, 0));
    assert(!sync_before(b, 0));
    lemma_first_sync_unique(b, 0);
    assert((body.len() as u8) as int == len);
    assert(b[3] == good[3]);
    assert(good.subrange(2, 4 + len) =~= head + body);
    lemma_u16_le_round_trip(c);
    if p < 4 + len {
        assert(b.subrange(2, 4 + len) =~= (head + body).update(p - 2, v));
        lemma_crc_detects_single_byte_change(head + body, p - 2, v);
        assert(b[4 + len] == good[4 + len] && b[5 + len] == good[5 + len]);
    } else {
        assert(b.subrange(2, 4 + len) =~= head + body);
        let lo = good[4 + len];
        let hi = good[5 + len];
        if p == 4 + len {
            assert(v != lo ==> u16_from_le(v, hi) != u16_from_le(lo, hi)) by (bit_vector);
        } else {
            assert(v != hi ==> u16_from_le(lo, v) != u16_from_le(lo, hi)) by (bit_vector);
        }
    }
}

/// A RawFrame record reads back as the link quality and bytes it was
/// encoded from, whatever follows it in the stream.
pub proof fn lemma_raw_frame_round_trip(link: LinkQuality, raw: Seq<u8>, rest: Seq<u8>)
    requires
        raw.len() <= MAX_PACKET_BYTES,
    ensures
        parse_outcome(record_bytes(BRIDGE_TAG_RAW_FRAME, raw_frame_body(link, raw)) + rest)
            == (OutcomeView::Record {
                record: RecordView::Raw { link, data: raw },
                consumed: (raw.len() + RAW_HEADER_LEN + RECORD_OVERHEAD) as nat,
            }),
{
    let body = raw_frame_body(link, raw);
    lemma_record_parses(BRIDGE_TAG_RAW_FRAME, body, rest);
    lemma_link_round_trip(link, raw);
    assert(body.skip(RAW_HEADER_LEN as int) =~= raw);
}

/// A FrameReport record reads back as the link quality, disposition, hop
/// count and envelope bytes it was encoded from, whatever follows it.
pub proof fn lemma_frame_report_round_trip(
    link: LinkQuality,
    disposition: Disposition,
    hops_left: u8,
    envelope: Seq<u8>,
    rest: Seq<u8>,
)
    requires
        envelope.len() <= MAX_PACKET_BYTES,
    ensures
        parse_outcome(record_bytes(BRIDGE_TAG_FRAME_REPORT, frame_report_body(link, disposition, hops_left, envelope)) + rest)
            == (OutcomeView::Record {
                record: RecordView::Frame { link, disposition, hops_left, envelope },
                consumed: (envelope.len() + FRAME_HEADER_LEN + RECORD_OVERHEAD) as nat,
            }),
{
    let body = frame_report_body(link, disposition, hops_left, envelope);
    lemma_record_parses(BRIDGE_TAG_FRAME_REPORT, body, rest);
    lemma_link_round_trip(link, seq![disposition_code(disposition), hops_left] + envelope);
    assert(body =~= link_bytes(link) + (seq![disposition_code(disposition), hops_left] + envelope));
    assert(body[5] == disposition_code(disposition));
    assert(body[6] == hops_left);
    assert(body.skip(FRAME_HEADER_LEN as int) =~= envelope);
}

/// Every record that carries at most `MAX_PACKET_BYTES` of envelope or raw
/// bytes fits in `BRIDGE_MAX_FRAME` bytes.
pub proof fn lemma_records_fit_max_frame(link: LinkQuality, d: Disposition, hops_left: u8, payload: Seq<u8>)
    requires
        payload.len() <= MAX_PACKET_BYTES,
    ensures
        record_bytes(BRIDGE_TAG_FRAME_REPORT, frame_report_body(link, d, hops_left, payload)).len() <= BRIDGE_MAX_FRAME,
        record_bytes(BRIDGE_TAG_RAW_FRAME, raw_frame_body(link, payload)).len() <= BRIDGE_MAX_FRAME,
{
}

/// Stray bytes before a record (boot text, a panic backtrace) that hold no
/// sync word are skipped in one step, which lands exactly on the record.
pub proof fn lemma_skips_leading_garbage(garbage: Seq<u8>, stream: Seq<u8>)
    requires
        garbage.len() > 0,
        !has_sync(garbage),
        stream.len() >= 2,
        stream[0] == BRIDGE_SYNC_HI,
        stream[1] == BRIDGE_SYNC_LO,
    ensures
        parse_outcome(garbage + stream) == OutcomeView::Skip(garbage.len()),
        (garbage + stream).skip(garbage.len() as int) == stream,
{
    let b = garbage + stream;
    let g = garbage.len() as int;
    assert(sync_at(b, g));
    assert forall|j: int| 0 <= j < g implies !#[trigger] sync_at(b, j) by {
        if j + 1 < g {
            if sync_at(b, j) {
                assert(sync_at(garbage, j));
            }
        } else {
            assert(b[j + 1] == stream[0]);
        }
    }
    assert(!sync_before(b, g));
    lemma_first_sync_unique(b, g);
    assert(b.skip(g) =~= stream);
}

/// Every step makes progress or asks for more input: a skip drops at least
/// one byte and a record consumes at least one, never more than are buffered.
pub proof fn lemma_parse_progress(buf: Seq<u8>)
    ensures
        parse_outcome(buf) matches OutcomeView::Skip(k) ==> 0 < k <= buf.len(),
        parse_outcome(buf) matches OutcomeView::Record { consumed, .. } ==> 0 < consumed <= buf.len(),
{
    if has_sync(buf) {
        let w = choose|j: int| #[trigger] sync_at(buf, j);
        if !sync_before(buf, w) {
            assert(first_sync_at(buf, w));
        } else {
            let w2 = choose|j: int| 0 <= j < w && #[trigger] sync_at(buf, j);
            lemma_first_sync_exists(buf, w2);
        }
    }
}

/// Below any sync word there is a first one.
pub proof fn lemma_first_sync_exists(buf: Seq<u8>, i: int)
    requires
        sync_at(buf, i),
    ensures
        exists|k: int| first_sync_at(buf, k),
    decreases i,
{
    if sync_before(buf, i) {
        let j = choose|j: int| 0 <= j < i && #[trigger] sync_at(buf, j);
        lemma_first_sync_exists(buf, j);
    } else {
        assert(first_sync_at(buf, i));
    }
}

/// The wire code of a disposition decodes back to it, and a code decodes
/// only to the disposition that has it.
pub proof fn lemma_disposition_codes(d: Disposition, v: u8)
    ensures
        disposition_of_code(disposition_code(d)) == Some(d),
        disposition_of_code(v) == Some(d) ==> disposition_code(d) == v,
{
}

} // verus!
