//! What a receiving node does with a decoded envelope: flood routing with
//! hop-limit deduplication.
//!
//!   - a duplicate `packet_id` is discarded;
//!   - an unseen envelope with `hop_limit == 0` is delivered locally only;
//!   - an unseen envelope with `hop_limit > 0` is delivered locally and
//!     rebroadcast with one hop less.
//!
//! In every case but a duplicate the `packet_id` is remembered.

use vstd::prelude::*;
use crate::bridge::Disposition;
use crate::mesh::MeshEnvelope;
use crate::seen::{after_offer, SeenCache};

verus! {

/// The decision for one received envelope.
#[derive(Debug, Clone, Copy, PartialEq, Eq, Structural)]
pub struct Reception {
    /// How the envelope was disposed of.
    pub disposition: Disposition,
    /// The hop count reported for it: the relayed copy's `hop_limit`, or 0.
    pub hops_left: u8,
    /// The envelope to rebroadcast, if any.
    pub relay: Option<MeshEnvelope>,
}

/// The decision for `envelope` when the seen cache remembers `seen`.
pub open spec fn reception_of(seen: Seq<u32>, envelope: MeshEnvelope) -> Reception {
    if seen.contains(envelope.packet_id) {
        Reception { disposition: Disposition::Duplicate, hops_left: 0, relay: None }
    } else if envelope.hop_limit == 0 {
        Reception { disposition: Disposition::LocalOnly, hops_left: 0, relay: None }
    } else {
        Reception {
            disposition: Disposition::Relayed,
            hops_left: (envelope.hop_limit - 1) as u8,
            relay: Some(MeshEnvelope { hop_limit: (envelope.hop_limit - 1) as u8, ..envelope }),
        }
    }
}

/// Dispose of a received envelope: check it against the seen cache (which
/// remembers it from now on) and decide whether to relay it.
pub fn receive(seen: &mut SeenCache, envelope: &MeshEnvelope) -> (r: Reception)
    requires
        old(seen).well_formed(),
    ensures
        final(seen).well_formed(),
        final(seen)@ == after_offer(old(seen)@, envelope.packet_id),
        r == reception_of(old(seen)@, *envelope),
{
    if seen.check_and_insert(envelope.packet_id) {
        match envelope.for_relay() {
            Some(relay) => Reception { disposition: Disposition::Relayed, hops_left: relay.hop_limit, relay: Some(relay) },
            None => Reception { disposition: Disposition::LocalOnly, hops_left: 0, relay: None },
        }
    } else {
        Reception { disposition: Disposition::Duplicate, hops_left: 0, relay: None }
    }
}

/// A packet that was just seen is a duplicate the next time it arrives, and
/// it is never relayed twice by the same node in a row.
pub proof fn lemma_second_copy_is_duplicate(seen: Seq<u32>, first: MeshEnvelope, second: MeshEnvelope)
    requires
        first.packet_id == second.packet_id,
    ensures
        reception_of(after_offer(seen, first.packet_id), second).disposition == Disposition::Duplicate,
        reception_of(after_offer(seen, first.packet_id), second).relay is None,
{
    let s2 = after_offer(seen, first.packet_id);
    if !seen.contains(first.packet_id) {
        assert(s2[s2.len() - 1] == first.packet_id);
    }
}

/// A relayed copy always carries strictly fewer hops than the received envelope, so a
/// packet is relayed at most `hop_limit` times along any path.
pub proof fn lemma_relay_spends_a_hop(seen: Seq<u32>, envelope: MeshEnvelope)
    ensures
        reception_of(seen, envelope).relay matches Some(copy) ==> copy.hop_limit < envelope.hop_limit
            && copy.hop_limit == reception_of(seen, envelope).hops_left
            && copy.packet_id == envelope.packet_id
            && copy.hop_start == envelope.hop_start
            && copy.payload == envelope.payload,
        reception_of(seen, envelope).disposition == Disposition::Relayed <==> reception_of(seen, envelope).relay is Some,
{
}


/// The flood-routing rules, case by case: a remembered packet id is a
/// duplicate and goes no further; an unseen envelope with no hop left is
/// delivered locally only; an unseen envelope with hops left is relayed as
/// the same envelope with exactly one hop less, and that count is reported.
pub proof fn lemma_reception_rules(seen: Seq<u32>, envelope: MeshEnvelope)
    ensures
        seen.contains(envelope.packet_id) ==> reception_of(seen, envelope) == (Reception {
            disposition: Disposition::Duplicate,
            hops_left: 0,
            relay: None,
        }),
        !seen.contains(envelope.packet_id) && envelope.hop_limit == 0 ==> reception_of(seen, envelope) == (
        Reception { disposition: Disposition::LocalOnly, hops_left: 0, relay: None }),
        !seen.contains(envelope.packet_id) && envelope.hop_limit > 0 ==> {
            let r = reception_of(seen, envelope);
            &&& r.disposition == Disposition::Relayed
            &&& r.hops_left + 1 == envelope.hop_limit
            &&& r.relay matches Some(copy) && copy.hop_limit + 1 == envelope.hop_limit && copy.from
                == envelope.from && copy.to == envelope.to && copy.packet_id == envelope.packet_id
                && copy.hop_start == envelope.hop_start && copy.payload == envelope.payload
        },
        reception_of(seen, envelope).disposition == Disposition::LocalOnly <==> !seen.contains(
            envelope.packet_id,
        ) && envelope.hop_limit == 0,
        reception_of(seen, envelope).disposition == Disposition::Relayed <==> !seen.contains(
            envelope.packet_id,
        ) && envelope.hop_limit > 0,
{
}

} // verus!
