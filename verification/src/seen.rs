//! Seen-packet deduplication cache.

use vstd::prelude::*;
use crate::bounded::{
    id_slots, id_vec_as_slice, id_vec_contains, id_vec_is_empty, id_vec_is_full, id_vec_len, id_vec_new,
    id_vec_push,
};

verus! {

/// Capacity of the seen-packet deduplication cache (number of packet IDs).
pub const SEEN_CACHE_SIZE: usize = 64;

/// Whether no packet ID occurs twice in `ids`.
pub open spec fn distinct(ids: Seq<u32>) -> bool {
    forall|i: int, j: int| 0 <= i < j < ids.len() ==> ids[i] != ids[j]
}

/// How many of the newest IDs a full cache keeps when a new ID comes: half
/// of its capacity.
pub open spec fn kept_on_eviction() -> int {
    SEEN_CACHE_SIZE as int / 2
}

/// The remembered IDs, oldest first, after offering `id` to a cache that
/// remembers `ids`: a known ID changes nothing; a new one is appended, and
/// when the cache is full its oldest half is dropped first, so that the
/// newest half and the new ID remain.
pub open spec fn after_offer(ids: Seq<u32>, id: u32) -> Seq<u32> {
    if ids.contains(id) {
        ids
    } else if ids.len() < SEEN_CACHE_SIZE {
        ids.push(id)
    } else {
        ids.skip(ids.len() - kept_on_eviction()).push(id)
    }
}

/// The remembered IDs after offering each of `xs` in order to a cache that
/// remembers `ids`.
pub open spec fn offers(ids: Seq<u32>, xs: Seq<u32>) -> Seq<u32>
    decreases xs.len(),
{
    if xs.len() == 0 {
        ids
    } else {
        after_offer(offers(ids, xs.drop_last()), xs.last())
    }
}

/// How many of the offers of `xs`, made in order to a cache that remembers
/// `ids`, bring an ID the cache does not know (the offers answered `true`).
pub open spec fn new_count(ids: Seq<u32>, xs: Seq<u32>) -> nat
    decreases xs.len(),
{
    if xs.len() == 0 {
        0
    } else {
        new_count(ids, xs.drop_last()) + if offers(ids, xs.drop_last()).contains(xs.last()) {
            0nat
        } else {
            1nat
        }
    }
}

/// Fixed-capacity cache of recently-seen packet IDs.
///
/// Used by every node to suppress duplicate rebroadcasts in the flood mesh.
/// When the cache is full the oldest half is evicted (simple sliding window).
pub struct SeenCache {
    /// The remembered IDs, oldest first.
    packets: heapless::Vec<u32, SEEN_CACHE_SIZE>,
}

impl SeenCache {
    /// The cache's invariant: at most `SEEN_CACHE_SIZE` IDs, none of them twice.
    pub closed spec fn well_formed(self) -> bool {
        &&& id_slots(self.packets).len() <= SEEN_CACHE_SIZE
        &&& distinct(id_slots(self.packets))
    }
}

impl View for SeenCache {
    /// The remembered packet IDs, oldest first.
    type V = Seq<u32>;

    closed spec fn view(&self) -> Seq<u32> {
        id_slots(self.packets)
    }
}

impl SeenCache {
    /// An empty cache.
    pub fn new() -> (r: Self)
        ensures
            r.well_formed(),
            r@ == Seq::<u32>::empty(),
    {
        SeenCache { packets: id_vec_new() }
    }

    /// Returns `true` if `packet_id` is **new** (and records it); returns
    /// `false` if it is a duplicate, which the caller should discard.
    pub fn check_and_insert(&mut self, packet_id: u32) -> (r: bool)
        requires
            old(self).well_formed(),
        ensures
            final(self).well_formed(),
            r == !old(self)@.contains(packet_id),
            final(self)@ == after_offer(old(self)@, packet_id),
            final(self)@.len() <= SEEN_CACHE_SIZE,
            distinct(final(self)@),
    {
        let ghost ids = self@;
        if id_vec_contains(&self.packets, packet_id) {
            return false;
        }
        if id_vec_is_full(&self.packets) {
            let keep: usize = SEEN_CACHE_SIZE / 2;
            let mut newer = id_vec_new();
            let slots = id_vec_as_slice(&self.packets);
            let mut i: usize = SEEN_CACHE_SIZE - keep;
            while i < slots.len()
                invariant
                    slots@ == ids,
                    ids.len() == SEEN_CACHE_SIZE,
                    SEEN_CACHE_SIZE - keep <= i <= SEEN_CACHE_SIZE,
                    keep == SEEN_CACHE_SIZE / 2,
                    id_slots(newer) == ids.subrange(SEEN_CACHE_SIZE - keep, i as int),
                decreases SEEN_CACHE_SIZE - i,
            {
                let _ = id_vec_push(&mut newer, slots[i]);
                assert(ids.subrange(SEEN_CACHE_SIZE - keep, i + 1) =~= ids.subrange(
                    SEEN_CACHE_SIZE - keep,
                    i as int,
                ).push(ids[i as int]));
                i = i + 1;
            }
            let _ = id_vec_push(&mut newer, packet_id);
            self.packets = newer;
            proof {
                assert(ids.subrange(SEEN_CACHE_SIZE - keep, SEEN_CACHE_SIZE as int) =~= ids.skip(
                    ids.len() - kept_on_eviction(),
                ));
            }
        } else {
            let _ = id_vec_push(&mut self.packets, packet_id);
        }
        proof {
            lemma_offer_remembers(ids, packet_id);
        }
        true
    }

    /// The number of packet IDs currently tracked.
    pub fn len(&self) -> (r: usize)
        requires
            self.well_formed(),
        ensures
            r == self@.len(),
            r <= SEEN_CACHE_SIZE,
    {
        id_vec_len(&self.packets)
    }

    /// Whether no packet ID is tracked.
    pub fn is_empty(&self) -> (r: bool)
        requires
            self.well_formed(),
        ensures
            r == (self@.len() == 0),
    {
        id_vec_is_empty(&self.packets)
    }
}

impl Default for SeenCache {
    fn default() -> (r: Self)
        ensures
            r.well_formed(),
            r@ == Seq::<u32>::empty(),
    {
        Self::new()
    }
}


/// Offering an ID leaves it remembered, keeps every other remembered ID but
/// (when the cache was full and the ID new) those of the oldest half, and
/// keeps the cache within its capacity and free of repeats.
pub proof fn lemma_offer_remembers(ids: Seq<u32>, id: u32)
    requires
        ids.len() <= SEEN_CACHE_SIZE,
        distinct(ids),
    ensures
        after_offer(ids, id).contains(id),
        after_offer(ids, id).len() <= SEEN_CACHE_SIZE,
        distinct(after_offer(ids, id)),
        forall|i: int|
            0 <= i < ids.len() && (i >= ids.len() - kept_on_eviction() || ids.len() < SEEN_CACHE_SIZE
                || ids.contains(id)) ==> #[trigger] after_offer(ids, id).contains(ids[i]),
{
    let a = after_offer(ids, id);
    if ids.contains(id) {
    } else if ids.len() < SEEN_CACHE_SIZE {
        assert(a[ids.len() as int] == id);
        assert forall|i: int| 0 <= i < ids.len() implies #[trigger] a.contains(ids[i]) by {
            assert(a[i] == ids[i]);
        }
        assert forall|i: int, j: int| 0 <= i < j < a.len() implies a[i] != a[j] by {
            if j == ids.len() {
                assert(ids.contains(ids[i]));
            }
        }
    } else {
        let off = ids.len() - kept_on_eviction();
        assert(a[a.len() - 1] == id);
        assert forall|i: int| off <= i < ids.len() implies #[trigger] a.contains(ids[i]) by {
            assert(a[i - off] == ids[i]);
        }
        assert forall|i: int, j: int| 0 <= i < j < a.len() implies a[i] != a[j] by {
            if j == a.len() - 1 {
                assert(ids.contains(ids[i + off]));
            } else {
                assert(a[i] == ids[i + off] && a[j] == ids[j + off]);
            }
        }
    }
}

/// One offer moves a remembered ID at most one place further from the newest
/// end: it stays where it was when the offered ID is known, and is one place
/// older otherwise, provided that it was in the newest half of a full cache.
proof fn lemma_offer_ages(ids: Seq<u32>, id: u32, x: u32, d: int)
    requires
        ids.len() <= SEEN_CACHE_SIZE,
        distinct(ids),
        0 <= d < ids.len(),
        ids[ids.len() - 1 - d] == x,
        !ids.contains(id) ==> d < kept_on_eviction(),
    ensures
        ({
            let a = after_offer(ids, id);
            let d2 = if ids.contains(id) { d } else { d + 1 };
            d2 < a.len() && a[a.len() - 1 - d2] == x
        }),
{
    let a = after_offer(ids, id);
    if ids.contains(id) {
    } else if ids.len() < SEEN_CACHE_SIZE {
        assert(a[a.len() - 1 - (d + 1)] == ids[ids.len() - 1 - d]);
    } else {
        assert(a[a.len() - 1 - (d + 1)] == ids[ids.len() - 1 - d]);
    }
}

/// Any run of offers keeps the cache within its capacity and free of repeats.
pub proof fn lemma_offers_well_formed(ids: Seq<u32>, xs: Seq<u32>)
    requires
        ids.len() <= SEEN_CACHE_SIZE,
        distinct(ids),
    ensures
        offers(ids, xs).len() <= SEEN_CACHE_SIZE,
        distinct(offers(ids, xs)),
    decreases xs.len(),
{
    if xs.len() > 0 {
        lemma_offers_well_formed(ids, xs.drop_last());
        lemma_offer_remembers(offers(ids, xs.drop_last()), xs.last());
    }
}

/// A remembered ID that has `d` newer IDs after it stays remembered through
/// any run of offers that brings at most `SEEN_CACHE_SIZE / 2 - d` new IDs
/// (offers of known IDs do not count): it then has exactly `d` plus that
/// many newer IDs after it.
pub proof fn lemma_offers_keep_recent(ids: Seq<u32>, xs: Seq<u32>, x: u32, d: int)
    requires
        ids.len() <= SEEN_CACHE_SIZE,
        distinct(ids),
        0 <= d < ids.len(),
        ids[ids.len() - 1 - d] == x,
        d + new_count(ids, xs) <= kept_on_eviction(),
    ensures
        ({
            let a = offers(ids, xs);
            let d2 = d + new_count(ids, xs);
            &&& d2 < a.len()
            &&& a[a.len() - 1 - d2] == x
            &&& a.contains(x)
        }),
    decreases xs.len(),
{
    if xs.len() > 0 {
        let before = offers(ids, xs.drop_last());
        lemma_offers_keep_recent(ids, xs.drop_last(), x, d);
        lemma_offers_well_formed(ids, xs.drop_last());
        lemma_offer_ages(before, xs.last(), x, d + new_count(ids, xs.drop_last()));
    }
    let a = offers(ids, xs);
    let d2 = d + new_count(ids, xs);
    assert(a[a.len() - 1 - d2] == x);
}

/// Once an offer of `x` has answered `true`, later offers of `x` answer
/// `false` (a duplicate) as long as at most `SEEN_CACHE_SIZE / 2` offers of
/// new IDs have followed it, whatever else is offered in between: the cache
/// always remembers at least the newest half of its capacity.
pub proof fn lemma_seen_stays_duplicate(ids: Seq<u32>, x: u32, xs: Seq<u32>)
    requires
        ids.len() <= SEEN_CACHE_SIZE,
        distinct(ids),
        !ids.contains(x),
        new_count(after_offer(ids, x), xs) <= kept_on_eviction(),
    ensures
        offers(after_offer(ids, x), xs).contains(x),
        offers(ids, seq![x] + xs).contains(x),
        new_count(ids, seq![x] + xs) == new_count(after_offer(ids, x), xs) + 1,
{
    let first = after_offer(ids, x);
    lemma_offer_remembers(ids, x);
    assert(first[first.len() - 1 - 0] == x);
    lemma_offers_keep_recent(first, xs, x, 0);
    lemma_offers_prefix(ids, x, xs);
}

/// Offering `x` and then `xs` is offering `xs` to the cache that the offer
/// of `x` left.
proof fn lemma_offers_prefix(ids: Seq<u32>, x: u32, xs: Seq<u32>)
    ensures
        offers(ids, seq![x] + xs) == offers(after_offer(ids, x), xs),
        new_count(ids, seq![x] + xs) == new_count(after_offer(ids, x), xs) + if ids.contains(x) {
            0nat
        } else {
            1nat
        },
    decreases xs.len(),
{
    if xs.len() == 0 {
        let one = seq![x] + xs;
        assert(one.drop_last() =~= Seq::<u32>::empty());
        assert(one.last() == x);
        assert(offers(ids, one.drop_last()) == ids);
        assert(new_count(ids, one.drop_last()) == 0);
        assert(offers(ids, one) == after_offer(ids, x));
    } else {
        lemma_offers_prefix(ids, x, xs.drop_last());
        assert((seq![x] + xs).drop_last() =~= seq![x] + xs.drop_last());
        assert((seq![x] + xs).last() == xs.last());
    }
}

} // verus!
