//! The fixed-capacity vectors of `heapless` that the cache and the bridge
//! records keep their contents in. Everything here is trusted: each item states
//! what `heapless` 0.8 does, as its source shows it.

use vstd::prelude::*;
use crate::mesh::MAX_PACKET_BYTES;
use crate::seen::SEEN_CACHE_SIZE;

verus! {

/// `heapless::Vec`, a vector with inline storage for at most `N` items.
#[verifier::external_type_specification]
#[verifier::external_body]
#[verifier::reject_recursive_types(T)]
pub struct ExHeaplessVec<T, const N: usize>(heapless::Vec<T, N>);

/// `Clone` of `heapless::Vec`: a new vector with clones of the items. Nothing
/// is stated of the copy; records are cloned only by code outside the proofs.
pub assume_specification<T, const N: usize>[<heapless::Vec<T, N> as Clone>::clone](v: &heapless::Vec<T, N>) -> heapless::Vec<T, N>
    where
        T: Clone,
;

/// The packet IDs that a seen-cache vector holds, in storage order.
pub uninterp spec fn id_slots(v: heapless::Vec<u32, SEEN_CACHE_SIZE>) -> Seq<u32>;

/// The bytes that a record payload vector holds, in order.
pub uninterp spec fn payload_bytes(v: heapless::Vec<u8, MAX_PACKET_BYTES>) -> Seq<u8>;

/// `heapless::Vec::new`: an empty vector.
#[verifier::external_body]
pub(crate) fn id_vec_new() -> (r: heapless::Vec<u32, SEEN_CACHE_SIZE>)
    ensures
        id_slots(r) == Seq::<u32>::empty(),
{
    heapless::Vec::new()
}

/// `contains` on the vector's slice: whether `id` is one of its items.
#[verifier::external_body]
pub(crate) fn id_vec_contains(v: &heapless::Vec<u32, SEEN_CACHE_SIZE>, id: u32) -> (r: bool)
    ensures
        r == id_slots(*v).contains(id),
{
    v.contains(&id)
}

/// `heapless::Vec::is_full`: whether the length has reached the capacity.
#[verifier::external_body]
pub(crate) fn id_vec_is_full(v: &heapless::Vec<u32, SEEN_CACHE_SIZE>) -> (r: bool)
    ensures
        r == (id_slots(*v).len() == SEEN_CACHE_SIZE),
{
    v.is_full()
}

/// `heapless::Vec::push`: appends `id` when there is room, and otherwise
/// hands it back and leaves the vector as it was.
#[verifier::external_body]
pub(crate) fn id_vec_push(v: &mut heapless::Vec<u32, SEEN_CACHE_SIZE>, id: u32) -> (r: Result<(), u32>)
    ensures
        id_slots(*old(v)).len() < SEEN_CACHE_SIZE ==> r is Ok && id_slots(*final(v)) == id_slots(*old(v)).push(id),
        id_slots(*old(v)).len() >= SEEN_CACHE_SIZE ==> (r matches Err(back) && back == id) && id_slots(*final(v)) == id_slots(*old(v)),
{
    v.push(id)
}

/// `heapless::Vec::as_slice`: the items as a slice.
#[verifier::external_body]
pub(crate) fn id_vec_as_slice(v: &heapless::Vec<u32, SEEN_CACHE_SIZE>) -> (r: &[u32])
    ensures
        r@ == id_slots(*v),
{
    v.as_slice()
}

/// `len` of the vector's slice: the number of items.
#[verifier::external_body]
pub(crate) fn id_vec_len(v: &heapless::Vec<u32, SEEN_CACHE_SIZE>) -> (r: usize)
    ensures
        r == id_slots(*v).len(),
{
    v.len()
}

/// `heapless::Vec::is_empty`: whether there are no items.
#[verifier::external_body]
pub(crate) fn id_vec_is_empty(v: &heapless::Vec<u32, SEEN_CACHE_SIZE>) -> (r: bool)
    ensures
        r == (id_slots(*v).len() == 0),
{
    v.is_empty()
}

/// `heapless::Vec::new`: an empty vector.
#[verifier::external_body]
pub(crate) fn byte_vec_new() -> (r: heapless::Vec<u8, MAX_PACKET_BYTES>)
    ensures
        payload_bytes(r) == Seq::<u8>::empty(),
{
    heapless::Vec::new()
}

/// `heapless::Vec::extend_from_slice`: appends all of `other` when it fits
/// in the remaining capacity; otherwise fails and changes nothing.
#[verifier::external_body]
pub(crate) fn byte_vec_extend(v: &mut heapless::Vec<u8, MAX_PACKET_BYTES>, other: &[u8]) -> (r: Result<(), ()>)
    ensures
        payload_bytes(*old(v)).len() + other@.len() <= MAX_PACKET_BYTES ==> r is Ok
            && payload_bytes(*final(v)) == payload_bytes(*old(v)) + other@,
        payload_bytes(*old(v)).len() + other@.len() > MAX_PACKET_BYTES ==> r is Err
            && payload_bytes(*final(v)) == payload_bytes(*old(v)),
{
    v.extend_from_slice(other)
}

/// `heapless::Vec::as_slice`: the items as a slice.
#[verifier::external_body]
pub(crate) fn byte_vec_as_slice(v: &heapless::Vec<u8, MAX_PACKET_BYTES>) -> (r: &[u8])
    ensures
        r@ == payload_bytes(*v),
{
    v.as_slice()
}

} // verus!
