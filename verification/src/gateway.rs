//! The host side of the bridge stream: draining a growing byte buffer into
//! records, and bounding the buffer when no record turns up.

use vstd::prelude::*;
use crate::bridge::{body_record, has_sync, lemma_record_parses, lemma_skips_leading_garbage, record_bytes, lemma_parse_progress, parse_outcome, parse_record, BridgeRecord, OutcomeView, ParseOutcome, RecordView};

verus! {

/// Cap on the resync buffer: past it, only the newest `BACKLOG_KEEP` bytes
/// are kept rather than letting the buffer grow without bound.
pub const MAX_BUFFER: usize = 4096;

/// How many of the newest bytes a buffer over `MAX_BUFFER` keeps.
pub const BACKLOG_KEEP: usize = 1024;

/// The records that repeated parse steps take from the front of `buf`, in
/// order, and the bytes left once a step needs more input.
pub open spec fn drained(buf: Seq<u8>) -> (Seq<RecordView>, Seq<u8>)
    decreases buf.len(),
{
    match parse_outcome(buf) {
        OutcomeView::Record { record, consumed } => {
            proof {
                lemma_parse_progress(buf);
            }
            let rest = drained(buf.skip(consumed as int));
            (seq![record] + rest.0, rest.1)
        },
        OutcomeView::Skip(k) => {
            proof {
                lemma_parse_progress(buf);
            }
            drained(buf.skip(k as int))
        },
        OutcomeView::NeedMore => (Seq::empty(), buf),
    }
}

/// The decoded views of a list of records.
pub open spec fn record_views(records: Seq<BridgeRecord>) -> Seq<RecordView> {
    records.map_values(|r: BridgeRecord| r@)
}

/// Drop the first `n` bytes of `acc`.
fn drop_front(acc: &mut Vec<u8>, n: usize)
    requires
        n <= old(acc)@.len(),
    ensures
        final(acc)@ == old(acc)@.skip(n as int),
{
    let rest = acc.split_off(n);
    *acc = rest;
    assert(acc@ =~= old(acc)@.skip(n as int));
}

/// Parse every complete record at the front of `acc`, dropping consumed and
/// skipped bytes, until more input is needed. Returns the records in order.
pub fn drain_records(acc: &mut Vec<u8>) -> (records: Vec<BridgeRecord>)
    ensures
        record_views(records@) == drained(old(acc)@).0,
        final(acc)@ == drained(old(acc)@).1,
        parse_outcome(final(acc)@) == OutcomeView::NeedMore,
{
    let mut records: Vec<BridgeRecord> = Vec::new();
    loop
        invariant
            record_views(records@) + drained(acc@).0 == drained(old(acc)@).0,
            drained(acc@).1 == drained(old(acc)@).1,
        ensures
            record_views(records@) == drained(old(acc)@).0,
            acc@ == drained(old(acc)@).1,
            parse_outcome(acc@) == OutcomeView::NeedMore,
        decreases acc@.len(),
    {
        let ghost before = acc@;
        let ghost views = record_views(records@);
        proof {
            lemma_parse_progress(before);
        }
        match parse_record(acc.as_slice()) {
            ParseOutcome::Record { record, consumed } => {
                let ghost rv = record@;
                records.push(record);
                drop_front(acc, consumed);
                assert(record_views(records@) =~= views.push(rv));
                assert(views.push(rv) + drained(acc@).0 =~= views + (seq![rv] + drained(acc@).0));
            },
            ParseOutcome::Skip(k) => {
                drop_front(acc, k);
            },
            ParseOutcome::NeedMore => {
                assert(drained(acc@).0 =~= Seq::<RecordView>::empty());
                assert(record_views(records@) + Seq::<RecordView>::empty() =~= record_views(records@));
                break;
            },
        }
    }
    records
}

/// Bound the resync buffer: once it holds more than `MAX_BUFFER` bytes,
/// keep only the newest `BACKLOG_KEEP`.
pub fn cap_backlog(acc: &mut Vec<u8>)
    ensures
        old(acc)@.len() > MAX_BUFFER ==> final(acc)@ == old(acc)@.skip(old(acc)@.len() - BACKLOG_KEEP),
        old(acc)@.len() <= MAX_BUFFER ==> final(acc)@ == old(acc)@,
{
    if acc.len() > MAX_BUFFER {
        let drop = acc.len() - BACKLOG_KEEP;
        drop_front(acc, drop);
    }
}


/// Stray bytes that hold no sync word, followed by a usable record, drain to
/// that record, and draining goes on with whatever follows it.
pub proof fn lemma_drain_recovers_record(garbage: Seq<u8>, tag: u8, body: Seq<u8>, rest: Seq<u8>)
    requires
        body.len() <= 255,
        body_record(tag, body) is Some,
        !has_sync(garbage),
    ensures
        drained(garbage + record_bytes(tag, body) + rest)
            == (seq![body_record(tag, body).unwrap()] + drained(rest).0, drained(rest).1),
{
    let rec = record_bytes(tag, body);
    let s = rec + rest;
    let r = body_record(tag, body).unwrap();
    lemma_record_parses(tag, body, rest);
    assert(parse_outcome(s) == OutcomeView::Record { record: r, consumed: (body.len() + 6) as nat });
    assert(s.skip(body.len() + 6int) =~= rest);
    assert(drained(s) == (seq![r] + drained(rest).0, drained(rest).1));
    if garbage.len() > 0 {
        lemma_skips_leading_garbage(garbage, s);
        assert(garbage + rec + rest =~= garbage + s);
        assert(drained(garbage + s) == drained((garbage + s).skip(garbage.len() as int)));
    } else {
        assert(garbage + rec + rest =~= s);
    }
}

} // verus!
