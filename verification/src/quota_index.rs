//! The content-addressed index of the disk-quota evictor: an ordered index
//! from content hash to `(priority, file size)`, with cheap access to the
//! entry most worth evicting.
//!
//! The index is priority_queue's `PriorityQueue`. Priorities start at the
//! largest value and are lowered as a file proves useful, so popping the
//! greatest pair yields the least-used entry, and among equally used
//! entries the larger file. The contents are modelled as a map from hash
//! bytes to pair, [`quota_entries`].

use std::hash::Hash;
use vstd::prelude::*;

use priority_queue::PriorityQueue;

verus! {

#[verifier::external_type_specification]
#[verifier::external_body]
#[verifier::reject_recursive_types(I)]
#[verifier::reject_recursive_types(P)]
#[verifier::reject_recursive_types(H)]
pub struct ExPriorityQueue<I: Hash + Eq, P: Ord, H>(PriorityQueue<I, P, H>);

/// What the index holds: the (priority, size) pair filed under each hash.
pub uninterp spec fn quota_entries(q: PriorityQueue<[u8; 32], (i32, u32)>) -> Map<
    Seq<u8>,
    (i32, u32),
>;

/// The contents of an index that holds nothing.
pub open spec fn no_quota_entries() -> Map<Seq<u8>, (i32, u32)> {
    Map::empty()
}

/// How the index orders its pairs: as std orders tuples, first field
/// first.
pub open spec fn pair_le(a: (i32, u32), b: (i32, u32)) -> bool {
    a.0 < b.0 || (a.0 == b.0 && a.1 <= b.1)
}

/// Relies on PriorityQueue::new. Nothing is claimed of the fresh queue;
/// [`quota_clear`] establishes emptiness in the model.
#[verifier::external_body]
pub fn quota_new() -> (r: PriorityQueue<[u8; 32], (i32, u32)>) {
    PriorityQueue::new()
}

/// Relies on PriorityQueue::clear: afterwards the index holds nothing.
#[verifier::external_body]
pub fn quota_clear(q: &mut PriorityQueue<[u8; 32], (i32, u32)>)
    ensures
        quota_entries(*final(q)) == no_quota_entries(),
{
    q.clear()
}

/// Relies on PriorityQueue::push: files the hash under the pair, replacing
/// and returning its old pair if it was already present.
#[verifier::external_body]
pub fn quota_push(q: &mut PriorityQueue<[u8; 32], (i32, u32)>, hash: [u8; 32], pri: (i32, u32)) -> (r:
    Option<(i32, u32)>)
    ensures
        quota_entries(*final(q)) == quota_entries(*old(q)).insert(hash@, pri),
        match r {
            Some(old_pri) => quota_entries(*old(q)).contains_pair(hash@, old_pri),
            None => !quota_entries(*old(q)).dom().contains(hash@),
        },
{
    q.push(hash, pri)
}

/// Relies on PriorityQueue::pop: removes and returns a hash with the
/// greatest pair - the least-used entry, the largest among ties - or
/// nothing when the index is empty.
#[verifier::external_body]
pub fn quota_pop(q: &mut PriorityQueue<[u8; 32], (i32, u32)>) -> (r: Option<([u8; 32], (i32, u32))>)
    ensures
        r is None <==> quota_entries(*old(q)).dom() == Set::<Seq<u8>>::empty(),
        match r {
            Some(hp) => {
                &&& quota_entries(*old(q)).contains_pair(hp.0@, hp.1)
                &&& (forall|k2: Seq<u8>|
                    #[trigger] quota_entries(*old(q)).dom().contains(k2) ==> pair_le(
                        quota_entries(*old(q))[k2],
                        hp.1,
                    ))
                &&& quota_entries(*final(q)) == quota_entries(*old(q)).remove(hp.0@)
            },
            None => quota_entries(*final(q)) == quota_entries(*old(q)),
        },
{
    q.pop()
}

/// Relies on PriorityQueue::get_priority: the pair a hash is filed under,
/// if it is there.
#[verifier::external_body]
pub fn quota_get(q: &PriorityQueue<[u8; 32], (i32, u32)>, hash: &[u8; 32]) -> (r: Option<
    (i32, u32),
>)
    ensures
        match r {
            Some(pri) => quota_entries(*q).contains_pair(hash@, pri),
            None => !quota_entries(*q).dom().contains(hash@),
        },
{
    q.get_priority(hash).copied()
}

/// Relies on PriorityQueue::change_priority: refiles the hash under the
/// new pair and returns the old one, or does nothing if the hash is not
/// there.
#[verifier::external_body]
pub fn quota_change_priority(
    q: &mut PriorityQueue<[u8; 32], (i32, u32)>,
    hash: &[u8; 32],
    pri: (i32, u32),
) -> (r: Option<(i32, u32)>)
    ensures
        r is Some <==> quota_entries(*old(q)).dom().contains(hash@),
        match r {
            Some(old_pri) => {
                &&& quota_entries(*old(q)).contains_pair(hash@, old_pri)
                &&& quota_entries(*final(q)) == quota_entries(*old(q)).insert(hash@, pri)
            },
            None => quota_entries(*final(q)) == quota_entries(*old(q)),
        },
{
    q.change_priority(hash, pri)
}

} // verus!
