//! The popularity index of the in-memory cache: an ordered index from cache
//! key to usage score, with cheap access to the least popular entry.
//!
//! The index is priority_queue's `DoublePriorityQueue`, keyed by the cache
//! key. Its contents are modelled as a map from key to score,
//! [`usage_entries`]; every operation of the queue that the cache calls is
//! wrapped here with a contract over that map.

use std::hash::Hash;
use vstd::prelude::*;

use priority_queue::DoublePriorityQueue;

verus! {

#[verifier::external_type_specification]
#[verifier::external_body]
#[verifier::reject_recursive_types(I)]
#[verifier::reject_recursive_types(P)]
#[verifier::reject_recursive_types(H)]
pub struct ExDoublePriorityQueue<I: Hash + Eq, P: Ord, H>(DoublePriorityQueue<I, P, H>);

/// What the queue holds: the score under which each key is filed.
pub uninterp spec fn usage_entries(q: DoublePriorityQueue<String, usize>) -> Map<Seq<char>, usize>;

/// The contents of a queue that holds nothing.
pub open spec fn no_usage_entries() -> Map<Seq<char>, usize> {
    Map::empty()
}

/// Relies on DoublePriorityQueue::new. Nothing is claimed of the fresh
/// queue; [`usage_clear`] establishes emptiness in the model.
#[verifier::external_body]
pub fn usage_new() -> (r: DoublePriorityQueue<String, usize>) {
    DoublePriorityQueue::new()
}

/// Relies on DoublePriorityQueue::clear: afterwards the queue holds
/// nothing.
#[verifier::external_body]
pub fn usage_clear(q: &mut DoublePriorityQueue<String, usize>)
    ensures
        usage_entries(*final(q)) == no_usage_entries(),
{
    q.clear()
}

/// Relies on DoublePriorityQueue::push: files the key under the score,
/// replacing and returning its old score if it was already present.
#[verifier::external_body]
pub fn usage_push(q: &mut DoublePriorityQueue<String, usize>, key: String, score: usize) -> (r:
    Option<usize>)
    ensures
        usage_entries(*final(q)) == usage_entries(*old(q)).insert(key@, score),
        match r {
            Some(old_score) => usage_entries(*old(q)).contains_pair(key@, old_score),
            None => !usage_entries(*old(q)).dom().contains(key@),
        },
{
    q.push(key, score)
}

/// Relies on DoublePriorityQueue::peek_min: a key with the lowest score,
/// or nothing when the queue is empty.
#[verifier::external_body]
pub fn usage_peek_min(q: &DoublePriorityQueue<String, usize>) -> (r: Option<(String, usize)>)
    ensures
        r is None <==> usage_entries(*q).dom() == Set::<Seq<char>>::empty(),
        match r {
            Some(kp) => usage_entries(*q).contains_pair(kp.0@, kp.1) && forall|k2: Seq<char>|
                #[trigger] usage_entries(*q).dom().contains(k2) ==> kp.1 <= usage_entries(*q)[k2],
            None => true,
        },
{
    q.peek_min().map(|(k, p)| (k.clone(), *p))
}

/// Relies on DoublePriorityQueue::remove: takes the key out of the queue,
/// returning it with its score, or nothing if it was not there.
#[verifier::external_body]
pub fn usage_remove(q: &mut DoublePriorityQueue<String, usize>, key: &String) -> (r: Option<
    (String, usize),
>)
    ensures
        r is Some <==> usage_entries(*old(q)).dom().contains(key@),
        match r {
            Some(kp) => {
                &&& kp.0@ == key@
                &&& usage_entries(*old(q)).contains_pair(key@, kp.1)
                &&& usage_entries(*final(q)) == usage_entries(*old(q)).remove(key@)
            },
            None => usage_entries(*final(q)) == usage_entries(*old(q)),
        },
{
    q.remove(key)
}

/// Relies on DoublePriorityQueue::change_priority: refiles the key under
/// the new score and returns the old one, or does nothing if the key is
/// not there.
#[verifier::external_body]
pub fn usage_change_priority(
    q: &mut DoublePriorityQueue<String, usize>,
    key: &String,
    score: usize,
) -> (r: Option<usize>)
    ensures
        r is Some <==> usage_entries(*old(q)).dom().contains(key@),
        match r {
            Some(old_score) => {
                &&& usage_entries(*old(q)).contains_pair(key@, old_score)
                &&& usage_entries(*final(q)) == usage_entries(*old(q)).insert(key@, score)
            },
            None => usage_entries(*final(q)) == usage_entries(*old(q)),
        },
{
    q.change_priority(key, score)
}

/// Relies on DoublePriorityQueue::get_priority: the score a key is filed
/// under, if it is there.
#[verifier::external_body]
pub fn usage_get(q: &DoublePriorityQueue<String, usize>, key: &String) -> (r: Option<usize>)
    ensures
        match r {
            Some(score) => usage_entries(*q).contains_pair(key@, score),
            None => !usage_entries(*q).dom().contains(key@),
        },
{
    q.get_priority(key).copied()
}

} // verus!
