//! This module handles caching for the api.
//! A configurable number of words, or a max total size of files should be
//! kept. The data flow is as follows
//! req -> check if item in cache
//!     -> item in cache, increment popularity score, return item
//!     -> not in cache, generate item fresh, update popularity score
//!         -> if space in cache, save item.
//!         -> if no space in cache, check if our score is greater than the
//!            lowest popularity score
//!             -> if greater, bump that item, update the lowest popularity
//!                score number, cache this item
//!             -> else, do nothing.
//!
//! The cache is keyed by strings; the artifacts it stores are any type that
//! can report, persist and remove its backing file through [`Cachable`].

use core::marker::PhantomData;
use vstd::prelude::*;

use priority_queue::DoublePriorityQueue;

use crate::usage_index::{
    no_usage_entries, usage_change_priority, usage_clear, usage_entries, usage_get, usage_new,
    usage_peek_min, usage_push, usage_remove,
};

verus! {

/// The number of bytes in a mb.
pub const BYTES_IN_MB: usize = 1_000_000;

/// An error raised by the cache: either the key is already present, or a
/// storage operation of the wrapped artifact failed.
#[derive(Debug, PartialEq)]
pub enum CacheError {
    DuplicateKey,
    Storage(String),
}

impl CacheError {
    /// The text of this error.
    pub fn message(&self) -> (r: String)
        ensures
            self is DuplicateKey ==> r@ == "Key already exists in cache"@,
            match *self {
                CacheError::Storage(ref m) => r == m,
                _ => true,
            },
    {
        match self {
            CacheError::DuplicateKey => String::from_str("Key already exists in cache"),
            CacheError::Storage(m) => m.clone(),
        }
    }
}

/// A type indicating that this return type may be cached properly in the
/// api. These methods are required to save and load from the disk; the
/// library takes whatever they return, so implementations live with the
/// caller and carry no proof obligations.
pub trait Cachable<U> {
    /// Load the underlying file from the disk, or generate it fresh if it's
    /// not there.
    fn load_underlying(&self) -> Result<U, String>;

    /// Get the total size this object is taking up on the disk. Should fail
    /// if the file has not been saved to the disk.
    fn size_on_disk(&self) -> Result<usize, String>;

    /// Save this file to the disk, so that it is cached for future use. May
    /// require regeneration of the file.
    fn save_on_disk(&self) -> Result<(), String>;

    /// Remove the underlying file from the disk.
    fn remove_from_disk(&self) -> Result<(), String>;
}

/// A struct which wraps cacheable data for the cache. This is useful as we
/// can store information about the stored item, which can be used when
/// making decisions about whether to cache or not.
#[derive(Debug)]
pub struct Info<G, U> {
    /// Number of times this data has been requested.
    pub uses: usize,
    /// Whether it is currently cached to disk.
    pub cached: bool,
    /// The byte size this entry was charged for when it was admitted to the
    /// disk cache; zero while the entry is not cached. Budget accounting
    /// uses this recorded size, so a later change in what the artifact
    /// reports cannot corrupt the counters.
    pub disk_bytes: usize,
    /// The wrapped internal data.
    pub wrapped: G,
    /// Marks the payload type the wrapped artifact loads.
    pub _return_type: PhantomData<U>,
}

/// What the accounting sees of one entry.
pub ghost struct EntrySnap {
    pub uses: nat,
    pub cached: bool,
    pub disk_bytes: nat,
}

impl<G, U> Info<G, U> {
    /// The accounting view of this entry.
    pub open spec fn snap(self) -> EntrySnap {
        EntrySnap { uses: self.uses as nat, cached: self.cached, disk_bytes: self.disk_bytes as nat }
    }
}

/// True when no two entries share a key.
pub open spec fn seq_keys_unique<G, U>(s: Seq<(String, Info<G, U>)>) -> bool {
    forall|i: int, j: int| 0 <= i < j < s.len() ==> s[i].0@ != s[j].0@
}

/// True when some entry holds the key.
pub open spec fn seq_has_key<G, U>(s: Seq<(String, Info<G, U>)>, k: Seq<char>) -> bool {
    exists|i: int| 0 <= i < s.len() && s[i].0@ == k
}

/// The position of the entry holding the key.
pub open spec fn seq_index_of<G, U>(s: Seq<(String, Info<G, U>)>, k: Seq<char>) -> int {
    choose|i: int| 0 <= i < s.len() && s[i].0@ == k
}

/// The number of entries currently cached to disk.
pub open spec fn cached_count<G, U>(s: Seq<(String, Info<G, U>)>) -> int
    decreases s.len(),
{
    if s.len() == 0 {
        0
    } else {
        cached_count(s.drop_last()) + if s.last().1.cached {
            1int
        } else {
            0int
        }
    }
}

/// The bytes the cached entries were charged for, together.
pub open spec fn cached_bytes<G, U>(s: Seq<(String, Info<G, U>)>) -> int
    decreases s.len(),
{
    if s.len() == 0 {
        0
    } else {
        cached_bytes(s.drop_last()) + if s.last().1.cached {
            s.last().1.disk_bytes as int
        } else {
            0int
        }
    }
}

proof fn lemma_index_of_is<G, U>(s: Seq<(String, Info<G, U>)>, k: Seq<char>, i: int)
    requires
        seq_keys_unique(s),
        0 <= i < s.len(),
        s[i].0@ == k,
    ensures
        seq_has_key(s, k),
        seq_index_of(s, k) == i,
{
    assert(seq_has_key(s, k));
    let j = seq_index_of(s, k);
    assert(0 <= j < s.len() && s[j].0@ == k);
    if i < j {
        assert(s[i].0@ != s[j].0@);
    } else if j < i {
        assert(s[j].0@ != s[i].0@);
    }
}

proof fn lemma_cached_count_update<G, U>(
    s: Seq<(String, Info<G, U>)>,
    i: int,
    e: (String, Info<G, U>),
)
    requires
        0 <= i < s.len(),
    ensures
        cached_count(s.update(i, e)) == cached_count(s) + (if e.1.cached {
            1int
        } else {
            0int
        }) - (if s[i].1.cached {
            1int
        } else {
            0int
        }),
        cached_bytes(s.update(i, e)) == cached_bytes(s) + (if e.1.cached {
            e.1.disk_bytes as int
        } else {
            0int
        }) - (if s[i].1.cached {
            s[i].1.disk_bytes as int
        } else {
            0int
        }),
    decreases s.len(),
{
    let t = s.update(i, e);
    if i == s.len() - 1 {
        assert(t.drop_last() =~= s.drop_last());
        assert(t.last() == e);
    } else {
        assert(t.drop_last() =~= s.drop_last().update(i, e));
        assert(t.last() == s.last());
        lemma_cached_count_update(s.drop_last(), i, e);
    }
}

proof fn lemma_cached_count_push<G, U>(s: Seq<(String, Info<G, U>)>, e: (String, Info<G, U>))
    ensures
        cached_count(s.push(e)) == cached_count(s) + (if e.1.cached {
            1int
        } else {
            0int
        }),
        cached_bytes(s.push(e)) == cached_bytes(s) + (if e.1.cached {
            e.1.disk_bytes as int
        } else {
            0int
        }),
{
    assert(s.push(e).drop_last() =~= s);
    assert(s.push(e).last() == e);
}

/// Cached entries never account for more than the whole: one cached entry's
/// recorded bytes are at most the sum.
proof fn lemma_entry_bytes_le<G, U>(s: Seq<(String, Info<G, U>)>, i: int)
    requires
        0 <= i < s.len(),
        s[i].1.cached,
    ensures
        s[i].1.disk_bytes as int <= cached_bytes(s),
        cached_count(s) >= 1,
    decreases s.len(),
{
    lemma_cached_nonneg(s.drop_last());
    if i == s.len() - 1 {
    } else {
        lemma_entry_bytes_le(s.drop_last(), i);
    }
}

/// The counters derived from a sequence of entries are never negative.
proof fn lemma_cached_nonneg<G, U>(s: Seq<(String, Info<G, U>)>)
    ensures
        cached_count(s) >= 0,
        cached_bytes(s) >= 0,
    decreases s.len(),
{
    if s.len() > 0 {
        lemma_cached_nonneg(s.drop_last());
    }
}

/// A cache for storing frequently used data. Will automatically attempt to
/// cache popular items over time, decaching less popular items as required.
pub struct Cache<G, U> where G: Cachable<U> {
    /// Maximum number of items to cache.
    pub max_to_cache: usize,
    /// Maximum size of items to cache.
    pub max_size_of_cache_bytes: usize,
    /// The current count of items cached.
    pub count: usize,
    /// The current size of all cached items on the disk.
    pub size_on_disk: usize,
    /// When an item gets replaced, how large should the "bump" be to
    /// prevent it from being quickly deseated. This is very important as it
    /// stops frequent swapping of lower cached items consuming system
    /// resources.
    pub uses_threshold: usize,
    /// A double priority queue which stores the items in least and most
    /// popular form.
    pub priority: DoublePriorityQueue<String, usize>,
    /// The cache itself, stores data about a variety of objects. Note that
    /// we wrap objects with an info struct to track information about
    /// individual objects. Keys are unique; the order of entries carries no
    /// meaning.
    pub cache: Vec<(String, Info<G, U>)>,
}

impl<G, U> Cache<G, U> where G: Cachable<U> {
    /// True when some entry holds the key.
    pub open spec fn has_key(self, k: Seq<char>) -> bool {
        seq_has_key(self.cache@, k)
    }

    /// The accounting view of the entry holding the key.
    pub open spec fn entry(self, k: Seq<char>) -> EntrySnap {
        self.cache@[seq_index_of(self.cache@, k)].1.snap()
    }

    /// The scores under which the cached entries are filed.
    pub open spec fn scores(self) -> Map<Seq<char>, usize> {
        usage_entries(self.priority)
    }

    /// True when both budget gates have headroom.
    pub open spec fn spec_space_available(self) -> bool {
        self.count < self.max_to_cache && self.size_on_disk < self.max_size_of_cache_bytes
    }

    /// Well-formedness: unique keys; the counters agree with the entries;
    /// the count respects its budget; and an entry is filed in the
    /// popularity index exactly when it is cached (an entry never appears
    /// in the index while absent from the map).
    pub open spec fn wf(self) -> bool {
        &&& seq_keys_unique(self.cache@)
        &&& self.count as int == cached_count(self.cache@)
        &&& self.size_on_disk as int == cached_bytes(self.cache@)
        &&& self.count <= self.max_to_cache
        &&& self.scores().dom().finite()
        &&& (forall|k: Seq<char>| #[trigger]
            self.scores().dom().contains(k) ==> seq_has_key(self.cache@, k) && self.cache@[seq_index_of(
                self.cache@,
                k,
            )].1.cached)
        &&& (forall|i: int|
            0 <= i < self.cache@.len() && self.cache@[i].1.cached ==> self.scores().dom().contains(
                #[trigger] self.cache@[i].0@,
            ))
        &&& (forall|i: int|
            0 <= i < self.cache@.len() && !self.cache@[i].1.cached ==> (
            #[trigger] self.cache@[i].1.disk_bytes) == 0)
    }

    /// The settings of the cache, which no operation changes.
    pub open spec fn same_settings(self, other: Self) -> bool {
        &&& other.max_to_cache == self.max_to_cache
        &&& other.max_size_of_cache_bytes == self.max_size_of_cache_bytes
        &&& other.uses_threshold == self.uses_threshold
    }

    /// True when `other` holds the same entries, in the same order, with
    /// the same artifacts and use counts; only the cached flags and
    /// recorded sizes of the keys in `except` may differ.
    pub open spec fn same_entries_except(self, other: Self, except: Set<Seq<char>>) -> bool {
        &&& other.cache@.len() == self.cache@.len()
        &&& (forall|i: int|
            0 <= i < self.cache@.len() ==> (#[trigger] other.cache@[i]).0 == self.cache@[i].0
                && other.cache@[i].1.wrapped == self.cache@[i].1.wrapped)
        &&& (forall|i: int|
            0 <= i < self.cache@.len() && !except.contains(self.cache@[i].0@)
                ==> (#[trigger] other.cache@[i]).1 == self.cache@[i].1)
    }

    /// Create a new cache, with a specific max number of items and max size
    /// on disk.
    pub fn new(max_items: usize, max_size: usize) -> (r: Cache<G, U>)
        ensures
            r.wf(),
            r.max_to_cache == max_items,
            r.max_size_of_cache_bytes == max_size,
            r.count == 0,
            r.size_on_disk == 0,
            r.uses_threshold == 5,
            r.cache@.len() == 0,
            r.scores() == no_usage_entries(),
    {
        let mut c: Cache<G, U> = Default::default();
        c.max_to_cache = max_items;
        c.max_size_of_cache_bytes = max_size;
        c
    }

    /// Change the uses_threshold value.
    pub fn set_threshold(&mut self, threshold: usize)
        ensures
            final(self).uses_threshold == threshold,
            final(self).max_to_cache == old(self).max_to_cache,
            final(self).max_size_of_cache_bytes == old(self).max_size_of_cache_bytes,
            final(self).count == old(self).count,
            final(self).size_on_disk == old(self).size_on_disk,
            final(self).priority == old(self).priority,
            final(self).cache == old(self).cache,
            old(self).wf() ==> final(self).wf(),
    {
        self.uses_threshold = threshold;
    }

    /// The position of the entry holding the key, if any.
    fn find_index(&self, key: &str) -> (r: Option<usize>)
        requires
            seq_keys_unique(self.cache@),
        ensures
            match r {
                Some(i) => i < self.cache@.len() && self.cache@[i as int].0@ == key@
                    && seq_index_of(self.cache@, key@) == i && self.has_key(key@),
                None => !self.has_key(key@),
            },
    {
        let n = self.cache.len();
        let mut i: usize = 0;
        while i < n
            invariant
                n == self.cache@.len(),
                i <= n,
                seq_keys_unique(self.cache@),
                forall|j: int| 0 <= j < i ==> self.cache@[j].0@ != key@,
            decreases n - i,
        {
            if crate::strutil::str_eq(self.cache[i].0.as_str(), key) {
                proof {
                    lemma_index_of_is(self.cache@, key@, i as int);
                }
                return Some(i);
            }
            i = i + 1;
        }
        None
    }

    /// Check whether the cache contains a given key.
    pub fn contains_item(&self, key: &String) -> (r: bool)
        requires
            self.wf(),
        ensures
            r == self.has_key(key@),
    {
        self.find_index(key.as_str()).is_some()
    }

    /// Get the raw item, without running the function which actually gets
    /// the data it contains internally.
    pub fn get_raw(&self, key: &String) -> (r: Option<&G>)
        requires
            self.wf(),
        ensures
            match r {
                Some(g) => self.has_key(key@) && *g == self.cache@[seq_index_of(
                    self.cache@,
                    key@,
                )].1.wrapped,
                None => !self.has_key(key@),
            },
    {
        match self.find_index(key.as_str()) {
            Some(i) => Some(&self.cache[i].1.wrapped),
            None => None,
        }
    }

    /// Get information about an item.
    pub fn get_info(&self, key: &String) -> (r: Option<&Info<G, U>>)
        requires
            self.wf(),
        ensures
            match r {
                Some(info) => self.has_key(key@) && *info == self.cache@[seq_index_of(
                    self.cache@,
                    key@,
                )].1,
                None => !self.has_key(key@),
            },
    {
        match self.find_index(key.as_str()) {
            Some(i) => Some(&self.cache[i].1),
            None => None,
        }
    }

    /// Collect a reference to the underlying backing store. This is
    /// primarily useful for testing, but can also be useful if you wish to
    /// manually retrieve data from a stored object.
    pub fn get_underlying(&self) -> (r: &Vec<(String, Info<G, U>)>)
        ensures
            r == &self.cache,
    {
        &self.cache
    }

    /// Check if there is space available in the cache.
    pub fn space_available(&self) -> (r: bool)
        ensures
            r == self.spec_space_available(),
    {
        self.count < self.max_to_cache && self.size_on_disk < self.max_size_of_cache_bytes
    }
}

/// Addition that stops at the largest representable value.
pub open spec fn sat_add_spec(a: int, b: int) -> int {
    if a + b <= usize::MAX {
        a + b
    } else {
        usize::MAX as int
    }
}

/// Add two sizes, stopping at the largest representable value.
pub fn sat_add(a: usize, b: usize) -> (r: usize)
    ensures
        r as int == sat_add_spec(a as int, b as int),
{
    if a <= usize::MAX - b {
        a + b
    } else {
        usize::MAX
    }
}

impl<G, U> Cache<G, U> where G: Cachable<U> {
    /// The admission transition: the entry for `k` (with `uses` accesses at
    /// the time of the check) was persisted because both budget gates had
    /// headroom, and was filed in the index at its use count.
    pub open spec fn admission_to(self, post: Self, k: Seq<char>, uses: nat) -> bool {
        &&& self.spec_space_available()
        &&& self.same_entries_except(post, set![k])
        &&& post.entry(k).cached
        &&& post.entry(k).uses == uses
        &&& post.count == self.count + 1
        &&& post.size_on_disk == self.size_on_disk + post.entry(k).disk_bytes
        &&& post.scores() == self.scores().insert(k, uses as usize)
    }

    /// The promotion transition: with no headroom left, the entry for `k`
    /// outscored the least popular resident `mk`, which was removed from
    /// disk and from the index; `k` was persisted and filed at its use
    /// count inflated by the hysteresis threshold.
    pub open spec fn promotion_to(self, post: Self, k: Seq<char>, uses: nat) -> bool {
        &&& !self.spec_space_available()
        &&& exists|mk: Seq<char>|
            {
                &&& #[trigger] self.scores().dom().contains(mk)
                &&& mk != k
                &&& uses > self.scores()[mk]
                &&& (forall|k2: Seq<char>| #[trigger]
                    self.scores().dom().contains(k2) ==> self.scores()[mk] <= self.scores()[k2])
                &&& self.same_entries_except(post, set![k, mk])
                &&& post.entry(k).cached
                &&& post.entry(k).uses == uses
                &&& !post.entry(mk).cached
                &&& post.entry(mk).disk_bytes == 0
                &&& post.entry(mk).uses == self.entry(mk).uses
                &&& post.count == self.count
                &&& post.size_on_disk == self.size_on_disk - self.entry(mk).disk_bytes + post.entry(
                    k,
                ).disk_bytes
                &&& post.scores() == self.scores().remove(mk).insert(
                    k,
                    sat_add_spec(uses as int, self.uses_threshold as int) as usize,
                )
            }
    }

    /// The refusal outcome: no headroom, and `k` (at `uses` accesses) did
    /// not outscore the least popular resident, so nothing was persisted.
    pub open spec fn refused_check(self, k: Seq<char>, uses: nat) -> bool {
        &&& !self.spec_space_available()
        &&& (forall|k2: Seq<char>| #[trigger]
            self.scores().dom().contains(k2) ==> uses <= self.scores()[k2])
    }
}

impl<G, U> Cache<G, U> where G: Cachable<U> {
    /// Check whether the provided item can be cached, and caches it if so.
    /// If the item was cached returns true, if not returns false.
    ///
    /// A storage failure of the wrapped artifact leaves the cache exactly
    /// as it was: counters are only adjusted after the corresponding disk
    /// call succeeds.
    pub fn check_popularity(&mut self, key: &String) -> (r: Result<bool, CacheError>)
        requires
            old(self).wf(),
            old(self).has_key(key@),
        ensures
            final(self).wf(),
            old(self).same_settings(*final(self)),
            final(self).has_key(key@),
            old(self).entry(key@).cached ==> r == Ok::<bool, CacheError>(true) && *final(self)
                == *old(self),
            (!old(self).entry(key@).cached && old(self).refused_check(
                key@,
                old(self).entry(key@).uses,
            )) ==> r == Ok::<bool, CacheError>(false),
            match r {
                Ok(true) => old(self).entry(key@).cached || (if old(self).spec_space_available() {
                    old(self).admission_to(*final(self), key@, old(self).entry(key@).uses)
                } else {
                    old(self).promotion_to(*final(self), key@, old(self).entry(key@).uses)
                }),
                Ok(false) => *final(self) == *old(self) && !old(self).entry(key@).cached && old(
                    self,
                ).refused_check(key@, old(self).entry(key@).uses),
                Err(e) => *final(self) == *old(self) && !old(self).entry(key@).cached
                    && e is Storage,
            },
    {
        let i = match self.find_index(key.as_str()) {
            Some(i) => i,
            None => {
                proof {
                    assert(false);
                }
                0
            },
        };
        if self.cache[i].1.cached {
            // Already cached!
            return Ok(true);
        }
        let space_available = self.space_available();
        let uses_now = self.cache[i].1.uses;

        if space_available {
            // If there is space in the cache, always cache.
            if let Err(e) = self.cache[i].1.wrapped.save_on_disk() {
                return Err(CacheError::Storage(e));
            }
            let s = match self.cache[i].1.wrapped.size_on_disk() {
                Ok(s) => s,
                Err(e) => {
                    return Err(CacheError::Storage(e));
                },
            };
            if s > usize::MAX - self.size_on_disk {
                return Err(CacheError::Storage(String::from_str("cache size overflow")));
            }
            let ghost pre = *self;
            let e = &mut self.cache[i];
            e.1.cached = true;
            e.1.disk_bytes = s;
            proof {
                assert(self.cache@ =~= pre.cache@.update(
                    i as int,
                    (pre.cache@[i as int].0, self.cache@[i as int].1),
                ));
                lemma_cached_count_update(pre.cache@, i as int, self.cache@[i as int]);
            }
            self.size_on_disk = self.size_on_disk + s;
            self.count = self.count + 1;
            usage_push(&mut self.priority, key.clone(), uses_now);
            proof {
                let pre = *old(self);
                let now = *self;
                let ii = i as int;
                assert(now.cache@[ii].0@ == key@);
                assert(seq_keys_unique(now.cache@));
                lemma_index_of_is(now.cache@, key@, ii);
                lemma_index_of_is(pre.cache@, key@, ii);
                assert(now.scores() =~= pre.scores().insert(key@, uses_now));
                assert forall|k2: Seq<char>| #[trigger] now.scores().dom().contains(k2) implies
                seq_has_key(now.cache@, k2) && now.cache@[seq_index_of(now.cache@, k2)].1.cached by {
                    if k2 == key@ {
                    } else {
                        assert(pre.scores().dom().contains(k2));
                        let m = seq_index_of(pre.cache@, k2);
                        assert(pre.cache@[m].1.cached);
                        assert(m != ii);
                        lemma_index_of_is(now.cache@, k2, m);
                    }
                }
                assert forall|i2: int|
                    0 <= i2 < now.cache@.len() && now.cache@[i2].1.cached implies
                now.scores().dom().contains(#[trigger] now.cache@[i2].0@) by {
                    if i2 != ii {
                        assert(now.cache@[i2] == pre.cache@[i2]);
                        assert(pre.scores().dom().contains(pre.cache@[i2].0@));
                    }
                }
                assert(now.wf());
                assert(pre.same_entries_except(now, set![key@]));
                assert(now.entry(key@).cached && now.entry(key@).uses == uses_now as nat);
                assert(now.entry(key@).disk_bytes == s as nat);
                assert(pre.admission_to(now, key@, pre.entry(key@).uses));
            }
            Ok(true)
        } else {
            // Check if this item has enough popularity to be cached!
            match usage_peek_min(&self.priority) {
                Some((min_key, min_score)) => {
                    if uses_now > min_score {
                        // The least popular resident loses its place.
                        proof {
                            assert(self.scores().dom().contains(min_key@));
                        }
                        let j = match self.find_index(min_key.as_str()) {
                            Some(j) => j,
                            None => {
                                proof {
                                    assert(false);
                                }
                                0
                            },
                        };
                        if let Err(e) = self.cache[i].1.wrapped.save_on_disk() {
                            return Err(CacheError::Storage(e));
                        }
                        let s_new = match self.cache[i].1.wrapped.size_on_disk() {
                            Ok(s) => s,
                            Err(e) => {
                                return Err(CacheError::Storage(e));
                            },
                        };
                        proof {
                            lemma_entry_bytes_le(self.cache@, j as int);
                        }
                        let old_bytes = self.cache[j].1.disk_bytes;
                        let shrunk = self.size_on_disk - old_bytes;
                        if s_new > usize::MAX - shrunk {
                            return Err(CacheError::Storage(String::from_str("cache size overflow")));
                        }
                        if let Err(e) = self.cache[j].1.wrapped.remove_from_disk() {
                            return Err(CacheError::Storage(e));
                        }
                        let ghost pre = *self;
                        let ej = &mut self.cache[j];
                        ej.1.cached = false;
                        ej.1.disk_bytes = 0;
                        proof {
                            assert(self.cache@ =~= pre.cache@.update(
                                j as int,
                                (pre.cache@[j as int].0, self.cache@[j as int].1),
                            ));
                            lemma_cached_count_update(pre.cache@, j as int, self.cache@[j as int]);
                        }
                        let ghost mid = *self;
                        let ei = &mut self.cache[i];
                        ei.1.cached = true;
                        ei.1.disk_bytes = s_new;
                        proof {
                            assert(self.cache@ =~= mid.cache@.update(
                                i as int,
                                (mid.cache@[i as int].0, self.cache@[i as int].1),
                            ));
                            lemma_cached_count_update(mid.cache@, i as int, self.cache@[i as int]);
                        }
                        self.size_on_disk = shrunk + s_new;
                        let score = sat_add(uses_now, self.uses_threshold);
                        usage_remove(&mut self.priority, &min_key);
                        usage_push(&mut self.priority, key.clone(), score);
                        proof {
                            let pre = *old(self);
                            let now = *self;
                            let ii = i as int;
                            let jj = j as int;
                            assert(jj != ii);
                            assert(now.cache@[ii].0@ == key@);
                            assert(now.cache@[jj].0@ == min_key@);
                            assert(seq_keys_unique(now.cache@));
                            lemma_index_of_is(now.cache@, key@, ii);
                            lemma_index_of_is(pre.cache@, key@, ii);
                            lemma_index_of_is(now.cache@, min_key@, jj);
                            lemma_index_of_is(pre.cache@, min_key@, jj);
                            assert(now.scores() =~= pre.scores().remove(min_key@).insert(
                                key@,
                                score,
                            ));
                            assert forall|k2: Seq<char>| #[trigger]
                                now.scores().dom().contains(k2) implies seq_has_key(now.cache@, k2)
                                && now.cache@[seq_index_of(now.cache@, k2)].1.cached by {
                                if k2 == key@ {
                                } else {
                                    assert(k2 != min_key@);
                                    assert(pre.scores().dom().contains(k2));
                                    let m = seq_index_of(pre.cache@, k2);
                                    assert(pre.cache@[m].1.cached);
                                    assert(m != ii && m != jj);
                                    lemma_index_of_is(now.cache@, k2, m);
                                }
                            }
                            assert forall|i2: int|
                                0 <= i2 < now.cache@.len() && now.cache@[i2].1.cached implies
                            now.scores().dom().contains(#[trigger] now.cache@[i2].0@) by {
                                if i2 != ii && i2 != jj {
                                    assert(now.cache@[i2] == pre.cache@[i2]);
                                    assert(pre.scores().dom().contains(pre.cache@[i2].0@));
                                    lemma_index_of_is(pre.cache@, pre.cache@[i2].0@, i2);
                                    assert(pre.cache@[i2].0@ != key@ && pre.cache@[i2].0@
                                        != min_key@);
                                }
                            }
                            assert(now.wf());
                            assert(pre.same_entries_except(now, set![key@, min_key@]));
                            assert(now.entry(key@).cached && now.entry(key@).uses
                                == uses_now as nat);
                            assert(now.entry(key@).disk_bytes == s_new as nat);
                            assert(!now.entry(min_key@).cached && now.entry(min_key@).disk_bytes
                                == 0);
                            assert(pre.scores().dom().contains(min_key@) && min_key@ != key@
                                && pre.entry(key@).uses > pre.scores()[min_key@]);
                            assert(pre.promotion_to(now, key@, pre.entry(key@).uses));
                        }
                        Ok(true)
                    } else {
                        Ok(false)
                    }
                },
                None => Ok(false),
            }
        }
    }
}

impl<G, U> Cache<G, U> where G: Cachable<U> {
    /// True when every cached entry was charged exactly one byte.
    pub open spec fn unit_sized(self) -> bool {
        forall|i: int|
            0 <= i < self.cache@.len() && self.cache@[i].1.cached ==> (
            #[trigger] self.cache@[i].1.disk_bytes) == 1
    }

    /// Only the use count of `k` changed: flags, sizes, counters and the
    /// index all stand as they were.
    pub open spec fn touched_only_uses(self, post: Self, k: Seq<char>, uses: nat) -> bool {
        &&& self.same_entries_except(post, set![k])
        &&& post.entry(k).uses == uses
        &&& post.entry(k).cached == self.entry(k).cached
        &&& post.entry(k).disk_bytes == self.entry(k).disk_bytes
        &&& post.count == self.count
        &&& post.size_on_disk == self.size_on_disk
        &&& post.scores() == self.scores()
    }
}

proof fn lemma_entries_except_trans<G: Cachable<U>, U>(
    a: Cache<G, U>,
    b: Cache<G, U>,
    c: Cache<G, U>,
    s1: Set<Seq<char>>,
    s2: Set<Seq<char>>,
)
    requires
        a.same_entries_except(b, s1),
        b.same_entries_except(c, s2),
    ensures
        a.same_entries_except(c, s1.union(s2)),
{
    assert forall|i: int|
        0 <= i < a.cache@.len() && !s1.union(s2).contains(a.cache@[i].0@) implies (
    #[trigger] c.cache@[i]).1 == a.cache@[i].1 by {
        assert(b.cache@[i].1 == a.cache@[i].1);
        assert(b.cache@[i].0@ == a.cache@[i].0@);
    }
}

proof fn lemma_entry_outside_except<G: Cachable<U>, U>(
    a: Cache<G, U>,
    b: Cache<G, U>,
    s: Set<Seq<char>>,
    k: Seq<char>,
)
    requires
        a.same_entries_except(b, s),
        seq_keys_unique(a.cache@),
        seq_keys_unique(b.cache@),
        !s.contains(k),
        a.has_key(k),
    ensures
        b.has_key(k),
        seq_index_of(b.cache@, k) == seq_index_of(a.cache@, k),
        b.entry(k) == a.entry(k),
{
    let m = seq_index_of(a.cache@, k);
    assert(0 <= m < a.cache@.len() && a.cache@[m].0@ == k);
    assert(b.cache@[m].0 == a.cache@[m].0);
    lemma_index_of_is(b.cache@, k, m);
    assert(b.cache@[m].1 == a.cache@[m].1);
}

impl<G, U> Cache<G, U> where G: Cachable<U> {
    /// Loads the data from an item, and returns it to the user.
    /// Requires a mutable reference as it updates the popularity of this
    /// item internally.
    ///
    /// A key that is not present is answered with `Ok(None)` and no change.
    /// A present key has its use count raised by one; an already-cached
    /// entry additionally has its index score raised by one and costs no
    /// disk space, while an uncached entry goes through the same admission
    /// or promotion decision as at insertion, at its new use count.
    pub fn load(&mut self, key: String) -> (r: Result<Option<U>, CacheError>)
        requires
            old(self).wf(),
        ensures
            final(self).wf(),
            old(self).same_settings(*final(self)),
            !old(self).has_key(key@) ==> (r matches Ok(o) && o is None) && *final(self) == *old(
                self,
            ),
            old(self).has_key(key@) ==> {
                let u2 = sat_add_spec(old(self).entry(key@).uses as int, 1) as nat;
                &&& final(self).has_key(key@)
                &&& final(self).entry(key@).uses == u2
                &&& (r matches Ok(o) ==> o is Some)
                &&& if old(self).entry(key@).cached {
                    {
                        &&& old(self).same_entries_except(*final(self), set![key@])
                        &&& final(self).entry(key@).cached
                        &&& final(self).entry(key@).disk_bytes == old(self).entry(key@).disk_bytes
                        &&& final(self).count == old(self).count
                        &&& final(self).size_on_disk == old(self).size_on_disk
                        &&& final(self).scores() == old(self).scores().insert(
                            key@,
                            sat_add_spec(old(self).scores()[key@] as int, 1) as usize,
                        )
                    }
                } else {
                    {
                        &&& (old(self).touched_only_uses(*final(self), key@, u2) || old(
                            self,
                        ).admission_to(*final(self), key@, u2) || old(self).promotion_to(
                            *final(self),
                            key@,
                            u2,
                        ))
                        &&& r is Ok ==> (if old(self).spec_space_available() {
                            old(self).admission_to(*final(self), key@, u2)
                        } else if old(self).refused_check(key@, u2) {
                            old(self).touched_only_uses(*final(self), key@, u2)
                        } else {
                            old(self).promotion_to(*final(self), key@, u2)
                        })
                    }
                }
            },
            (old(self).unit_sized() && old(self).size_on_disk <= old(
                self,
            ).max_size_of_cache_bytes && final(self).unit_sized()) ==> final(self).size_on_disk
                <= final(self).max_size_of_cache_bytes,
    {
        let i = match self.find_index(key.as_str()) {
            Some(i) => i,
            None => {
                return Ok(None);
            },
        };
        let u_old = self.cache[i].1.uses;
        let u2 = sat_add(u_old, 1);
        let ghost pre = *self;
        let e = &mut self.cache[i];
        e.1.uses = u2;
        let was_cached = self.cache[i].1.cached;
        proof {
            assert(self.cache@ =~= pre.cache@.update(
                i as int,
                (pre.cache@[i as int].0, self.cache@[i as int].1),
            ));
            lemma_cached_count_update(pre.cache@, i as int, self.cache@[i as int]);
            lemma_index_of_is(pre.cache@, key@, i as int);
            lemma_index_of_is(self.cache@, key@, i as int);
            assert forall|k2: Seq<char>| #[trigger] self.scores().dom().contains(k2) implies
            seq_has_key(self.cache@, k2) && self.cache@[seq_index_of(self.cache@, k2)].1.cached by {
                let m = seq_index_of(pre.cache@, k2);
                assert(pre.cache@[m].1.cached);
                lemma_index_of_is(self.cache@, k2, m);
            }
            assert forall|i2: int|
                0 <= i2 < self.cache@.len() && self.cache@[i2].1.cached implies
            self.scores().dom().contains(#[trigger] self.cache@[i2].0@) by {
                assert(pre.cache@[i2].1.cached == self.cache@[i2].1.cached);
                assert(pre.cache@[i2].0@ == self.cache@[i2].0@);
            }
            assert(self.wf());
            assert(pre.same_entries_except(*self, set![key@]));
        }
        let ghost bumped = *self;
        let checked = match self.check_popularity(&key) {
            Ok(b) => b,
            Err(e) => {
                proof {
                    assert(old(self).touched_only_uses(*self, key@, u2 as nat));
                }
                return Err(e);
            },
        };
        if checked && was_cached {
            // Item already cached, lets just increase its popularity.
            proof {
                assert(*self == bumped);
                assert(self.scores().dom().contains(key@));
            }
            let cur = match usage_get(&self.priority, &key) {
                Some(p) => p,
                None => {
                    proof {
                        assert(false);
                    }
                    0
                },
            };
            let bumped_score = sat_add(cur, 1);
            usage_change_priority(&mut self.priority, &key, bumped_score);
            proof {
                assert(self.scores() =~= bumped.scores().insert(key@, bumped_score));
                assert(self.scores().dom() =~= bumped.scores().dom());
                assert(self.cache@ == bumped.cache@);
                assert(self.wf());
            }
        }
        let j = match self.find_index(key.as_str()) {
            Some(j) => j,
            None => {
                proof {
                    assert(false);
                }
                0
            },
        };
        let ghost settled = *self;
        let payload = match self.cache[j].1.wrapped.load_underlying() {
            Ok(u) => u,
            Err(e) => {
                let err = CacheError::Storage(e);
                proof {
                    lemma_load_summary(*old(self), bumped, settled, key@, u2 as nat, was_cached);
                }
                return Err(err);
            },
        };
        proof {
            lemma_load_summary(*old(self), bumped, settled, key@, u2 as nat, was_cached);
        }
        Ok(Some(payload))
    }

    /// Add a new entry to the cache, which can be retrieved at a later
    /// date. Will automatically save this to the disk if space is
    /// available.
    ///
    /// Fails with a duplicate-key error exactly when the key is already
    /// present (the cache never silently overwrites); a fresh entry starts
    /// at zero uses, and is persisted immediately exactly when both budget
    /// gates have headroom.
    pub fn insert(&mut self, key: String, value: G) -> (r: Result<(), CacheError>)
        requires
            old(self).wf(),
        ensures
            final(self).wf(),
            old(self).same_settings(*final(self)),
            (r matches Err(e) && e is DuplicateKey) <==> old(self).has_key(key@),
            old(self).has_key(key@) ==> *final(self) == *old(self),
            !old(self).has_key(key@) ==> {
                &&& final(self).cache@.len() == old(self).cache@.len() + 1
                &&& (forall|i2: int|
                    0 <= i2 < old(self).cache@.len() ==> (#[trigger] final(self).cache@[i2]) == old(
                        self,
                    ).cache@[i2])
                &&& final(self).cache@.last().0 == key
                &&& final(self).cache@.last().1.wrapped == value
                &&& final(self).has_key(key@)
                &&& final(self).entry(key@).uses == 0
                &&& if final(self).entry(key@).cached {
                    {
                        &&& old(self).spec_space_available()
                        &&& r is Ok
                        &&& final(self).count == old(self).count + 1
                        &&& final(self).size_on_disk == old(self).size_on_disk + final(self).entry(
                            key@,
                        ).disk_bytes
                        &&& final(self).scores() == old(self).scores().insert(key@, 0usize)
                    }
                } else {
                    {
                        &&& final(self).entry(key@).disk_bytes == 0
                        &&& final(self).count == old(self).count
                        &&& final(self).size_on_disk == old(self).size_on_disk
                        &&& final(self).scores() == old(self).scores()
                        &&& (r is Ok ==> !old(self).spec_space_available())
                    }
                }
                &&& (!old(self).spec_space_available() ==> r is Ok)
            },
            (old(self).unit_sized() && old(self).size_on_disk <= old(
                self,
            ).max_size_of_cache_bytes && final(self).unit_sized()) ==> final(self).size_on_disk
                <= final(self).max_size_of_cache_bytes,
    {
        // Check if item already in the cache; never overwrite.
        if self.find_index(key.as_str()).is_some() {
            return Err(CacheError::DuplicateKey);
        }
        let ghost pre = *self;
        self.cache.push(
            (
                key.clone(),
                Info {
                    wrapped: value,
                    uses: 0,
                    cached: false,
                    disk_bytes: 0,
                    _return_type: PhantomData,
                },
            ),
        );
        proof {
            let n = pre.cache@.len() as int;
            assert(self.cache@ =~= pre.cache@.push(self.cache@.last()));
            lemma_cached_count_push(pre.cache@, self.cache@.last());
            assert(seq_keys_unique(self.cache@));
            lemma_index_of_is(self.cache@, key@, n);
            assert forall|k2: Seq<char>| #[trigger] self.scores().dom().contains(k2) implies
            seq_has_key(self.cache@, k2) && self.cache@[seq_index_of(self.cache@, k2)].1.cached by {
                let m = seq_index_of(pre.cache@, k2);
                assert(pre.cache@[m].1.cached);
                lemma_index_of_is(self.cache@, k2, m);
            }
            assert forall|i2: int|
                0 <= i2 < self.cache@.len() && self.cache@[i2].1.cached implies
            self.scores().dom().contains(#[trigger] self.cache@[i2].0@) by {
                assert(i2 < pre.cache@.len());
            }
            assert(self.wf());
        }
        let ghost mid = *self;
        // Check if we should cache this item!
        let r = self.check_popularity(&key);
        proof {
            lemma_insert_summary(pre, mid, *self, key@);
        }
        match r {
            Ok(_) => Ok(()),
            Err(e) => Err(e),
        }
    }
}

/// Carries the state facts of `load` from the intermediate states to the
/// entry and counter claims of its contract.
proof fn lemma_load_summary<G: Cachable<U>, U>(
    pre: Cache<G, U>,
    bumped: Cache<G, U>,
    settled: Cache<G, U>,
    k: Seq<char>,
    u2: nat,
    was_cached: bool,
)
    requires
        pre.wf(),
        bumped.wf(),
        settled.wf(),
        pre.same_settings(bumped),
        bumped.same_settings(settled),
        pre.has_key(k),
        u2 == sat_add_spec(pre.entry(k).uses as int, 1),
        pre.same_entries_except(bumped, set![k]),
        bumped.entry(k).uses == u2,
        bumped.entry(k).cached == pre.entry(k).cached,
        bumped.entry(k).disk_bytes == pre.entry(k).disk_bytes,
        bumped.count == pre.count,
        bumped.size_on_disk == pre.size_on_disk,
        bumped.scores() == pre.scores(),
        bumped.has_key(k),
        was_cached == pre.entry(k).cached,
        was_cached ==> settled.cache@ == bumped.cache@ && settled.count == bumped.count
            && settled.size_on_disk == bumped.size_on_disk && settled.scores() == bumped.scores().insert(
            k,
            sat_add_spec(bumped.scores()[k] as int, 1) as usize,
        ),
        !was_cached ==> (bumped.touched_only_uses(settled, k, u2) || bumped.admission_to(
            settled,
            k,
            u2,
        ) || bumped.promotion_to(settled, k, u2)),
    ensures
        settled.has_key(k),
        settled.entry(k).uses == u2,
        was_cached ==> {
            &&& pre.same_entries_except(settled, set![k])
            &&& settled.entry(k).cached
            &&& settled.entry(k).disk_bytes == pre.entry(k).disk_bytes
            &&& settled.count == pre.count
            &&& settled.size_on_disk == pre.size_on_disk
            &&& settled.scores() == pre.scores().insert(
                k,
                sat_add_spec(pre.scores()[k] as int, 1) as usize,
            )
        },
        !was_cached ==> (pre.touched_only_uses(settled, k, u2) || pre.admission_to(settled, k, u2)
            || pre.promotion_to(settled, k, u2)),
{
    let m = seq_index_of(bumped.cache@, k);
    assert(0 <= m < bumped.cache@.len() && bumped.cache@[m].0@ == k);
    if was_cached {
        assert(settled.cache@ == bumped.cache@);
        assert(bumped.same_entries_except(settled, set![k]));
        lemma_entries_except_trans(pre, bumped, settled, set![k], set![k]);
        assert(set![k].union(set![k]) =~= set![k]);
        lemma_index_of_is(settled.cache@, k, m);
        assert(settled.entry(k) == bumped.entry(k));
    } else {
        if bumped.touched_only_uses(settled, k, u2) {
            lemma_entries_except_trans(pre, bumped, settled, set![k], set![k]);
            assert(set![k].union(set![k]) =~= set![k]);
            assert(settled.cache@[m].0 == bumped.cache@[m].0);
            lemma_index_of_is(settled.cache@, k, m);
            assert(pre.touched_only_uses(settled, k, u2));
        } else if bumped.admission_to(settled, k, u2) {
            lemma_entries_except_trans(pre, bumped, settled, set![k], set![k]);
            assert(set![k].union(set![k]) =~= set![k]);
            assert(settled.cache@[m].0 == bumped.cache@[m].0);
            lemma_index_of_is(settled.cache@, k, m);
            assert(pre.spec_space_available() == bumped.spec_space_available());
            assert(pre.admission_to(settled, k, u2));
        } else {
            let mk = choose|mk: Seq<char>|
                {
                    &&& #[trigger] bumped.scores().dom().contains(mk)
                    &&& mk != k
                    &&& u2 > bumped.scores()[mk]
                    &&& (forall|k2: Seq<char>| #[trigger]
                        bumped.scores().dom().contains(k2) ==> bumped.scores()[mk]
                            <= bumped.scores()[k2])
                    &&& bumped.same_entries_except(settled, set![k, mk])
                    &&& settled.entry(k).cached
                    &&& settled.entry(k).uses == u2
                    &&& !settled.entry(mk).cached
                    &&& settled.entry(mk).disk_bytes == 0
                    &&& settled.entry(mk).uses == bumped.entry(mk).uses
                    &&& settled.count == bumped.count
                    &&& settled.size_on_disk == bumped.size_on_disk - bumped.entry(mk).disk_bytes
                        + settled.entry(k).disk_bytes
                    &&& settled.scores() == bumped.scores().remove(mk).insert(
                        k,
                        sat_add_spec(u2 as int, bumped.uses_threshold as int) as usize,
                    )
                };
            lemma_entries_except_trans(pre, bumped, settled, set![k], set![k, mk]);
            assert(set![k].union(set![k, mk]) =~= set![k, mk]);
            assert(bumped.scores().dom().contains(mk));
            assert(pre.scores().dom().contains(mk));
            assert(pre.has_key(mk) && pre.cache@[seq_index_of(pre.cache@, mk)].1.cached);
            lemma_entry_outside_except(pre, bumped, set![k], mk);
            assert(pre.entry(mk) == bumped.entry(mk));
            assert(settled.cache@[m].0 == bumped.cache@[m].0);
            lemma_index_of_is(settled.cache@, k, m);
            assert(!pre.spec_space_available());
            assert(pre.promotion_to(settled, k, u2)) by {
                assert({
                    &&& pre.scores().dom().contains(mk)
                    &&& mk != k
                    &&& u2 > pre.scores()[mk]
                    &&& (forall|k2: Seq<char>| #[trigger]
                        pre.scores().dom().contains(k2) ==> pre.scores()[mk] <= pre.scores()[k2])
                    &&& pre.same_entries_except(settled, set![k, mk])
                    &&& settled.entry(k).cached
                    &&& settled.entry(k).uses == u2
                    &&& !settled.entry(mk).cached
                    &&& settled.entry(mk).disk_bytes == 0
                    &&& settled.entry(mk).uses == pre.entry(mk).uses
                    &&& settled.count == pre.count
                    &&& settled.size_on_disk == pre.size_on_disk - pre.entry(mk).disk_bytes
                        + settled.entry(k).disk_bytes
                    &&& settled.scores() == pre.scores().remove(mk).insert(
                        k,
                        sat_add_spec(u2 as int, pre.uses_threshold as int) as usize,
                    )
                });
            }
        }
    }
}

/// Carries the state facts of `insert` from the pushed intermediate state
/// to the claims of its contract.
proof fn lemma_insert_summary<G: Cachable<U>, U>(
    pre: Cache<G, U>,
    mid: Cache<G, U>,
    post: Cache<G, U>,
    k: Seq<char>,
)
    requires
        pre.wf(),
        mid.wf(),
        post.wf(),
        pre.same_settings(mid),
        !pre.has_key(k),
        mid.cache@.len() == pre.cache@.len() + 1,
        forall|i2: int| 0 <= i2 < pre.cache@.len() ==> (#[trigger] mid.cache@[i2]) == pre.cache@[i2],
        mid.cache@.last().0@ == k,
        mid.cache@.last().1.uses == 0,
        !mid.cache@.last().1.cached,
        mid.cache@.last().1.disk_bytes == 0,
        mid.count == pre.count,
        mid.size_on_disk == pre.size_on_disk,
        mid.scores() == pre.scores(),
        mid.same_settings(post),
        mid.entry(k).cached || mid.entry(k) == mid.cache@.last().1.snap(),
        seq_index_of(mid.cache@, k) == pre.cache@.len(),
        post.wf(),
        mid.touched_only_uses(post, k, 0) || mid.admission_to(post, k, 0) || post == mid,
    ensures
        post.cache@.len() == pre.cache@.len() + 1,
        forall|i2: int| 0 <= i2 < pre.cache@.len() ==> (#[trigger] post.cache@[i2]) == pre.cache@[i2],
        post.cache@.last().0 == mid.cache@.last().0,
        post.cache@.last().1.wrapped == mid.cache@.last().1.wrapped,
        post.has_key(k),
        post.entry(k).uses == 0,
        post.entry(k).cached ==> {
            &&& pre.spec_space_available()
            &&& post.count == pre.count + 1
            &&& post.size_on_disk == pre.size_on_disk + post.entry(k).disk_bytes
            &&& post.scores() == pre.scores().insert(k, 0usize)
        },
        !post.entry(k).cached ==> {
            &&& post.entry(k).disk_bytes == 0
            &&& post.count == pre.count
            &&& post.size_on_disk == pre.size_on_disk
            &&& post.scores() == pre.scores()
        },
{
    let n = pre.cache@.len() as int;
    lemma_index_of_is(mid.cache@, k, n);
    if post == mid {
        assert(post.entry(k) == mid.entry(k));
    } else if mid.touched_only_uses(post, k, 0) {
        lemma_entry_outside_except_at(mid, post, set![k], n);
        assert(post.cache@.last().0 == mid.cache@.last().0);
        lemma_index_of_is(post.cache@, k, n);
    } else {
        assert(mid.admission_to(post, k, 0));
        lemma_index_of_is(post.cache@, k, n);
    }
}

/// Key and artifact of an entry outside the exempt set are untouched.
proof fn lemma_entry_outside_except_at<G: Cachable<U>, U>(
    a: Cache<G, U>,
    b: Cache<G, U>,
    s: Set<Seq<char>>,
    i: int,
)
    requires
        a.same_entries_except(b, s),
        0 <= i < a.cache@.len(),
    ensures
        b.cache@[i].0 == a.cache@[i].0,
        b.cache@[i].1.wrapped == a.cache@[i].1.wrapped,
{
}

impl<G, U> Cache<G, U> where G: Cachable<U> {
    /// After every operation the number of cached entries stays within the
    /// configured budget: a well-formed cache never claims more slots than
    /// `max_to_cache`.
    pub proof fn lemma_count_within_budget(self)
        requires
            self.wf(),
        ensures
            self.count <= self.max_to_cache,
    {
    }

    /// An entry's `cached` flag is true if and only if it currently has a
    /// corresponding entry in the popularity index.
    pub proof fn lemma_cached_iff_indexed(self, k: Seq<char>)
        requires
            self.wf(),
            self.has_key(k),
        ensures
            self.entry(k).cached <==> self.scores().dom().contains(k),
    {
        let m = seq_index_of(self.cache@, k);
        assert(0 <= m < self.cache@.len() && self.cache@[m].0@ == k);
        if self.entry(k).cached {
            assert(self.cache@[m].1.cached);
            assert(self.scores().dom().contains(self.cache@[m].0@));
        }
    }
}

impl<G, U> Default for Cache<G, U> where G: Cachable<U> {
    /// A cache for 100 items and 10 mb, with a hysteresis threshold of 5.
    fn default() -> (r: Cache<G, U>)
        ensures
            r.wf(),
            r.max_to_cache == 100,
            r.max_size_of_cache_bytes == 10 * BYTES_IN_MB,
            r.count == 0,
            r.size_on_disk == 0,
            r.uses_threshold == 5,
            r.cache@.len() == 0,
            r.scores() == no_usage_entries(),
    {
        let mut priority = usage_new();
        usage_clear(&mut priority);
        let r = Cache {
            max_to_cache: 100,
            max_size_of_cache_bytes: 10 * BYTES_IN_MB,
            count: 0,
            size_on_disk: 0,
            uses_threshold: 5,
            priority,
            cache: Vec::new(),
        };
        proof {
            assert(cached_count(r.cache@) == 0);
            assert(cached_bytes(r.cache@) == 0);
        }
        r
    }
}

} // verus!
