//! Settings and clock of the wall-display dashboard.

use vstd::prelude::*;
use vstd::utf8::{encode_utf8, encode_utf8_decode_utf8, encode_utf8_valid_utf8};
use crate::text::{hms_text, hms_utc, str_from_utf8};

verus! {

/// The MQTT broker port used when the configuration names none.
pub fn default_port() -> (r: u16)
    ensures
        r == 1883,
{
    1883
}

/// The MQTT topic prefix used when the configuration names none.
pub fn default_topic_prefix() -> (r: String)
    ensures
        r@ == "flintmesh"@,
{
    "flintmesh".to_owned()
}

/// `std::time::SystemTime`, a wall-clock instant.
#[verifier::external_type_specification]
#[verifier::external_body]
pub struct ExSystemTime(std::time::SystemTime);

/// `std::time::SystemTimeError`: the instant lies before the reference.
#[verifier::external_type_specification]
#[verifier::external_body]
pub struct ExSystemTimeError(std::time::SystemTimeError);

/// `SystemTime::now`: the current wall-clock time. Nothing is stated of it.
#[verifier::external_body]
fn system_now() -> std::time::SystemTime {
    std::time::SystemTime::now()
}

/// `SystemTime::duration_since(UNIX_EPOCH)`: the time elapsed since the Unix
/// epoch, or an error for an instant before it. Nothing is stated of it.
#[verifier::external_body]
fn since_unix_epoch(t: &std::time::SystemTime) -> Result<core::time::Duration, std::time::SystemTimeError> {
    t.duration_since(std::time::UNIX_EPOCH)
}

/// `Duration::as_secs`: the whole seconds of a duration. Nothing is stated of it.
#[verifier::external_body]
fn whole_secs(d: &core::time::Duration) -> u64 {
    d.as_secs()
}

/// The whole seconds since the Unix epoch that the clock shows: zero when
/// it reads before the epoch.
pub open spec fn clock_secs(since_epoch: Option<u64>) -> u64 {
    match since_epoch {
        Some(secs) => secs,
        None => 0,
    }
}

/// The seconds to show for a clock reading: the whole seconds since the
/// Unix epoch, or zero when the clock reads before it.
pub fn clock_seconds(since_epoch: Option<u64>) -> (r: u64)
    ensures
        r == clock_secs(since_epoch),
        since_epoch is None ==> r == 0,
{
    match since_epoch {
        Some(secs) => secs,
        None => 0,
    }
}

/// The current UTC time of day as "HH:MM:SS UTC" (midnight when the clock
/// reads before the Unix epoch). Which instant the clock gives is not stated:
/// the text is that of the clock's reading, whatever it was.
pub fn now_hms() -> (r: String)
    ensures
        exists|reading: Option<u64>| r@ == hms_text(clock_secs(reading) as nat),
{
    let reading: Option<u64> = match since_unix_epoch(&system_now()) {
        Ok(d) => Some(whole_secs(&d)),
        Err(_) => None,
    };
    let secs = clock_seconds(reading);
    hms_utc(secs)
}


/// Encoding joined text gives the joined encodings.
pub proof fn lemma_encode_utf8_concat(a: Seq<char>, b: Seq<char>)
    ensures
        encode_utf8(a + b) == encode_utf8(a) + encode_utf8(b),
    decreases a.len(),
{
    if a.len() == 0 {
        assert(a + b =~= b);
    } else {
        lemma_encode_utf8_concat(a.drop_first(), b);
        assert((a + b).drop_first() =~= a.drop_first() + b);
        assert((a + b)[0] == a[0]);
    }
}

/// The MQTT topic filter for every node's weather readings under `prefix`.
pub fn weather_topic(prefix: &str) -> (r: String)
    ensures
        r@ == prefix@ + "/node/+/weather"@,
{
    let suffix = "/node/+/weather";
    let mut bytes: Vec<u8> = Vec::new();
    bytes.extend_from_slice(prefix.as_bytes());
    bytes.extend_from_slice(suffix.as_bytes());
    let ghost text = prefix@ + suffix@;
    proof {
        lemma_encode_utf8_concat(prefix@, suffix@);
        assert(bytes@ =~= encode_utf8(text));
        encode_utf8_valid_utf8(text);
        encode_utf8_decode_utf8(text);
    }
    match str_from_utf8(bytes.as_slice()) {
        Ok(s) => s.to_owned(),
        Err(_) => String::new(),
    }
}

/// The first table row that shows node `id`, if any; a reading for a node
/// already shown replaces that row, and a new node's is appended.
pub fn find_node_row(row_ids: &[i32], id: i32) -> (r: Option<usize>)
    ensures
        r matches Some(i) ==> i < row_ids@.len() && row_ids@[i as int] == id
            && forall|j: int| 0 <= j < i ==> row_ids@[j] != id,
        r is None ==> forall|j: int| 0 <= j < row_ids@.len() ==> row_ids@[j] != id,
{
    let mut i: usize = 0;
    while i < row_ids.len()
        invariant
            i <= row_ids@.len(),
            forall|j: int| 0 <= j < i ==> row_ids@[j] != id,
        decreases row_ids@.len() - i,
    {
        if row_ids[i] == id {
            return Some(i);
        }
        i = i + 1;
    }
    None
}


/// What the dashboard's MQTT connection reports.
#[derive(Debug, Clone, Copy, PartialEq, Eq, Structural)]
pub enum BrokerEvent {
    /// The broker accepted the connection.
    ConnAck,
    /// A message arrived on a subscribed topic.
    Publish,
    /// The connection failed or dropped.
    ConnectionError,
    /// Anything else (pings, acknowledgements of our own packets).
    Other,
}

/// The connection status the dashboard shows.
#[derive(Debug, Clone, Copy, PartialEq, Eq, Structural)]
pub enum LinkStatus {
    Connected,
    Disconnected,
}

/// What the dashboard does about one broker event.
#[derive(Debug, Clone, Copy, PartialEq, Eq, Structural)]
pub struct BrokerReaction {
    /// Subscribe to the weather topic (again): subscriptions do not survive a
    /// reconnect.
    pub subscribe: bool,
    /// The status to show, if it changes.
    pub status: Option<LinkStatus>,
    /// Decode the message as a node's reading and show it.
    pub show_reading: bool,
}

/// What the dashboard does once the connection is set up, before the first
/// broker event: subscribe to the weather topic.
pub fn broker_start() -> (r: BrokerReaction)
    ensures
        r == (BrokerReaction { subscribe: true, status: None, show_reading: false }),
{
    BrokerReaction { subscribe: true, status: None, show_reading: false }
}

/// The dashboard's reaction to a broker event.
pub fn broker_reaction(event: BrokerEvent) -> (r: BrokerReaction)
    ensures
        event == BrokerEvent::ConnAck ==> r == (BrokerReaction { subscribe: true, status: Some(LinkStatus::Connected), show_reading: false }),
        event == BrokerEvent::Publish ==> r == (BrokerReaction { subscribe: false, status: None, show_reading: true }),
        event == BrokerEvent::ConnectionError ==> r == (BrokerReaction { subscribe: false, status: Some(LinkStatus::Disconnected), show_reading: false }),
        event == BrokerEvent::Other ==> r == (BrokerReaction { subscribe: false, status: None, show_reading: false }),
{
    match event {
        BrokerEvent::ConnAck => BrokerReaction { subscribe: true, status: Some(LinkStatus::Connected), show_reading: false },
        BrokerEvent::Publish => BrokerReaction { subscribe: false, status: None, show_reading: true },
        BrokerEvent::ConnectionError => BrokerReaction { subscribe: false, status: Some(LinkStatus::Disconnected), show_reading: false },
        BrokerEvent::Other => BrokerReaction { subscribe: false, status: None, show_reading: false },
    }
}

} // verus!
