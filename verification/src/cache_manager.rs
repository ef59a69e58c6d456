//! Handles the size and implementation of the cache folder for any
//! application, automatically removing files as needed.
//!
//! The manager owns a content-addressed index (hash to priority and size)
//! and a running total of on-disk bytes against a byte budget. Usage
//! reports arrive as [`CacheAction`] messages; when the total exceeds the
//! budget an enforcement pass walks the least-valuable entries. The walking
//! of the directory, the message channel and the deleting of files are I/O
//! and live with the caller: they hand file names, sizes and deletion
//! outcomes in as plain values, and every decision taken on those values is
//! checked here.

use vstd::prelude::*;

use priority_queue::PriorityQueue;

use crate::hexstr::{decode_hash_hex, encode_hash_hex, hex_byte_at, hex_encoding_of, is_hash_hex};
use crate::quota_index::{
    no_quota_entries, pair_le, quota_change_priority, quota_clear, quota_entries, quota_get,
    quota_new, quota_pop, quota_push,
};

verus! {

/// Enforce the cache size on every so-many `Used` messages, to save
/// compute.
pub const ENFORCEMENT_CADENCE: u32 = 2;

/// An entry whose use count exceeds this many uses is kept available for
/// re-indexing when an enforcement pass would discard it.
pub const RETENTION_MIN_USES: i32 = 5;

/// The divisor of the current size that an enforcement pass aims to free:
/// a quarter.
pub const ENFORCEMENT_SHARE: u64 = 4;

/// A message to the cache manager: a content hash was used (with the size
/// of its backing file), or the cache is closing down.
#[derive(Debug, Clone, Copy)]
pub enum CacheAction {
    Used(([u8; 32], u32)),
    Close,
}

/// Addition on byte totals that stops at the largest representable value.
pub open spec fn sat_add_u64_spec(a: int, b: int) -> int {
    if a + b <= u64::MAX {
        a + b
    } else {
        u64::MAX as int
    }
}

/// Add two byte totals, stopping at the largest representable value.
pub fn sat_add_u64(a: u64, b: u64) -> (r: u64)
    ensures
        r as int == sat_add_u64_spec(a as int, b as int),
{
    if a <= u64::MAX - b {
        a + b
    } else {
        u64::MAX
    }
}

/// The bytes a hex-named file stands for, as decoding yields them.
pub open spec fn decoded_hash(stem: Seq<char>) -> Seq<u8> {
    Seq::new(32, |j: int| hex_byte_at(stem, j) as u8)
}

/// What the startup scan decided about one directory entry.
#[derive(Debug, PartialEq, Eq)]
pub enum ScanOutcome {
    /// The name is reserved and never treated as a cache entry.
    Restricted,
    /// Directories inside the cache are skipped with a warning.
    Directory,
    /// The name does not decode as a content hash; skipped with an error
    /// log.
    BadName,
    /// The file was recorded in the index and counted.
    Added,
}

/// Handles the size and implementation of the cache folder, automatically
/// removing files as needed.
pub struct CacheManager {
    /// Hash -> (priority, file_size). This means that bigger files will get
    /// removed over smaller ones.
    pub cache: PriorityQueue<[u8; 32], (i32, u32)>,
    /// The directory the cache files live in.
    pub cache_path: String,
    /// The byte budget.
    pub max_allowed_size_bytes: u64,
    /// The bytes currently counted against the budget.
    pub current_size_bytes: u64,
    /// File names that are never treated as cache entries.
    pub restricted_files: Vec<String>,
    /// `Used` messages seen since the last enforcement check.
    pub msgs_since_enforce: u32,
}

/// One enforcement pass: how much ought to be freed, how much has been,
/// and the entries kept back for re-indexing.
pub struct EvictionPass {
    /// The number of bytes this pass tries to free.
    pub target: u64,
    /// The bytes freed so far; only successful deletions count.
    pub freed: u64,
    /// Popped entries whose use count earned them re-indexing.
    pub retained: Vec<([u8; 32], (i32, u32))>,
}

/// The entries of the index after the kept-back entries are refiled.
pub open spec fn refiled(m: Map<Seq<u8>, (i32, u32)>, items: Seq<([u8; 32], (i32, u32))>, n: int) -> Map<
    Seq<u8>,
    (i32, u32),
>
    decreases n,
{
    if n <= 0 {
        m
    } else {
        refiled(m, items, n - 1).insert(items[n - 1].0@, items[n - 1].1)
    }
}

impl CacheManager {
    /// The modelled contents of the index.
    pub open spec fn entries(self) -> Map<Seq<u8>, (i32, u32)> {
        quota_entries(self.cache)
    }

    /// Everything but the index and the byte total, unchanged.
    pub open spec fn same_except_index(self, other: Self) -> bool {
        &&& other.cache_path == self.cache_path
        &&& other.max_allowed_size_bytes == self.max_allowed_size_bytes
        &&& other.restricted_files == self.restricted_files
        &&& other.msgs_since_enforce == self.msgs_since_enforce
    }

    /// Create a new manager for a cache directory and a budget in MB. The
    /// caller scans the directory and reports each entry through
    /// [`CacheManager::bootstrap_file`]; a directory that cannot be read at
    /// all is fatal on the caller's side.
    pub fn new(cache_path: String, max_allowed_size_mb: u64) -> (r: CacheManager)
        requires
            max_allowed_size_mb <= u64::MAX / 1_000_000,
        ensures
            r.cache_path == cache_path,
            r.max_allowed_size_bytes == max_allowed_size_mb * 1_000_000,
            r.current_size_bytes == 0,
            r.msgs_since_enforce == 0,
            r.entries() == no_quota_entries(),
            r.restricted_files@.len() == 1 && r.restricted_files@[0]@ == ".gitkeep"@,
    {
        let mut cache = quota_new();
        quota_clear(&mut cache);
        let mut restricted_files: Vec<String> = Vec::new();
        restricted_files.push(String::from_str(".gitkeep"));
        CacheManager {
            cache,
            cache_path,
            max_allowed_size_bytes: max_allowed_size_mb * 1_000_000,
            current_size_bytes: 0,
            restricted_files,
            msgs_since_enforce: 0,
        }
    }

    /// True when the name is reserved and never treated as a cache entry.
    pub fn is_restricted(&self, file_name: &str) -> (r: bool)
        ensures
            r == exists|i: int|
                0 <= i < self.restricted_files@.len() && self.restricted_files@[i]@ == file_name@,
    {
        let n = self.restricted_files.len();
        let mut i: usize = 0;
        while i < n
            invariant
                n == self.restricted_files@.len(),
                i <= n,
                forall|j: int| 0 <= j < i ==> self.restricted_files@[j]@ != file_name@,
            decreases n - i,
        {
            if crate::strutil::str_eq(self.restricted_files[i].as_str(), file_name) {
                return true;
            }
            i = i + 1;
        }
        false
    }

    /// Record one directory entry of the startup scan: reserved names and
    /// directories are skipped, a name that does not decode as a content
    /// hash is skipped, and everything else is filed at the lowest
    /// favourability and counted.
    pub fn bootstrap_file(&mut self, file_name: &str, stem: &str, is_dir: bool, size: u64) -> (r:
        ScanOutcome)
        ensures
            old(self).same_except_index(*final(self)),
            r == ScanOutcome::Restricted <==> exists|i: int|
                0 <= i < old(self).restricted_files@.len() && old(self).restricted_files@[i]@
                    == file_name@,
            r != ScanOutcome::Restricted ==> (r == ScanOutcome::Directory <==> is_dir),
            (r == ScanOutcome::Restricted || r == ScanOutcome::Directory) ==> *final(self) == *old(
                self,
            ),
            (r != ScanOutcome::Restricted && r != ScanOutcome::Directory) ==> (r
                == ScanOutcome::BadName <==> !is_hash_hex(stem@)),
            r == ScanOutcome::BadName ==> *final(self) == *old(self),
            r == ScanOutcome::Added ==> {
                &&& final(self).entries() == old(self).entries().insert(
                    decoded_hash(stem@),
                    (i32::MAX, size as u32),
                )
                &&& final(self).current_size_bytes as int == sat_add_u64_spec(
                    old(self).current_size_bytes as int,
                    size as int,
                )
            },
    {
        if self.is_restricted(file_name) {
            return ScanOutcome::Restricted;
        }
        if is_dir {
            return ScanOutcome::Directory;
        }
        let hash = match decode_hash_hex(stem) {
            Some(h) => h,
            None => {
                return ScanOutcome::BadName;
            },
        };
        proof {
            assert(hash@ =~= decoded_hash(stem@));
        }
        #[verifier::truncate]
        let small = size as u32;
        quota_push(&mut self.cache, hash, (i32::MAX, small));
        self.current_size_bytes = sat_add_u64(self.current_size_bytes, size);
        ScanOutcome::Added
    }

    /// Apply a `Used` report: a hash already in the index becomes cheaper
    /// to keep (its counted size does not change), a new hash is filed at
    /// the lowest favourability and its size joins the total. Returns true
    /// when the message cadence calls for an enforcement pass.
    pub fn handle_used(&mut self, hash: [u8; 32], size: u32) -> (r: bool)
        ensures
            final(self).cache_path == old(self).cache_path,
            final(self).max_allowed_size_bytes == old(self).max_allowed_size_bytes,
            final(self).restricted_files == old(self).restricted_files,
            old(self).entries().dom().contains(hash@) ==> {
                &&& final(self).entries() == old(self).entries().insert(
                    hash@,
                    (
                        (if old(self).entries()[hash@].0 > i32::MIN {
                            (old(self).entries()[hash@].0 - 1) as i32
                        } else {
                            old(self).entries()[hash@].0
                        }),
                        old(self).entries()[hash@].1,
                    ),
                )
                &&& final(self).current_size_bytes == old(self).current_size_bytes
            },
            !old(self).entries().dom().contains(hash@) ==> {
                &&& final(self).entries() == old(self).entries().insert(hash@, (i32::MAX, size))
                &&& final(self).current_size_bytes as int == sat_add_u64_spec(
                    old(self).current_size_bytes as int,
                    size as int,
                )
            },
            r == (old(self).msgs_since_enforce + 1 >= ENFORCEMENT_CADENCE),
            final(self).msgs_since_enforce == if r {
                0u32
            } else {
                (old(self).msgs_since_enforce + 1) as u32
            },
    {
        match quota_get(&self.cache, &hash) {
            Some(pri) => {
                let lowered: i32 = if pri.0 > i32::MIN {
                    pri.0 - 1
                } else {
                    pri.0
                };
                quota_change_priority(&mut self.cache, &hash, (lowered, pri.1));
            },
            None => {
                self.current_size_bytes = sat_add_u64(self.current_size_bytes, size as u64);
                quota_push(&mut self.cache, hash, (i32::MAX, size));
            },
        }
        // Only enforce the size of the cache every few messages to save
        // compute.
        if self.msgs_since_enforce >= ENFORCEMENT_CADENCE - 1 {
            self.msgs_since_enforce = 0;
            true
        } else {
            self.msgs_since_enforce = self.msgs_since_enforce + 1;
            false
        }
    }

    /// Start an enforcement pass, or nothing when the total is within
    /// budget: a pass run while `current <= max` is a no-op. The target is
    /// a quarter of the current size.
    pub fn begin_enforcement(&self) -> (r: Option<EvictionPass>)
        ensures
            r is Some <==> self.current_size_bytes > self.max_allowed_size_bytes,
            match r {
                Some(pass) => {
                    &&& pass.target == self.current_size_bytes / ENFORCEMENT_SHARE
                    &&& pass.freed == 0
                    &&& pass.retained@.len() == 0
                },
                None => true,
            },
    {
        if self.current_size_bytes > self.max_allowed_size_bytes {
            Some(
                EvictionPass {
                    target: self.current_size_bytes / ENFORCEMENT_SHARE,
                    freed: 0,
                    retained: Vec::new(),
                },
            )
        } else {
            None
        }
    }

    /// The next entry a worker should try to delete: the least favourable
    /// one, as long as the pass still has bytes to free and candidates
    /// remain.
    pub fn next_candidate(&mut self, pass: &EvictionPass) -> (r: Option<([u8; 32], (i32, u32))>)
        ensures
            old(self).same_except_index(*final(self)),
            final(self).current_size_bytes == old(self).current_size_bytes,
            pass.freed >= pass.target ==> r is None && *final(self) == *old(self),
            pass.freed < pass.target ==> {
                &&& (r is None <==> old(self).entries().dom() == Set::<Seq<u8>>::empty())
                &&& match r {
                    Some(hp) => {
                        &&& old(self).entries().contains_pair(hp.0@, hp.1)
                        &&& (forall|k2: Seq<u8>|
                            #[trigger] old(self).entries().dom().contains(k2) ==> pair_le(
                                old(self).entries()[k2],
                                hp.1,
                            ))
                        &&& final(self).entries() == old(self).entries().remove(hp.0@)
                    },
                    None => final(self).entries() == old(self).entries(),
                }
            },
    {
        if pass.freed < pass.target {
            quota_pop(&mut self.cache)
        } else {
            None
        }
    }

    /// Credit a successful deletion to the pass.
    pub fn record_removed(pass: &mut EvictionPass, size: u32)
        ensures
            final(pass).freed as int == sat_add_u64_spec(old(pass).freed as int, size as int),
            final(pass).target == old(pass).target,
            final(pass).retained == old(pass).retained,
    {
        pass.freed = sat_add_u64(pass.freed, size as u64);
    }

    /// Whether a popped entry's use count earns it re-indexing: only keep
    /// items that have been used more than a few times; items with a
    /// single use should not be kept.
    ///
    /// Mind that a retained entry is refiled after its backing file has
    /// already been deleted by the pass: until the file is regenerated and
    /// reported used again, the index carries it without a file behind it.
    /// This mirrors a long-standing behaviour of the service and is kept as
    /// a deliberate decision rather than silently changed.
    pub fn should_retain(priority: i32) -> (r: bool)
        ensures
            r == (i32::MAX - priority > RETENTION_MIN_USES),
    {
        (i32::MAX as i64) - (priority as i64) > RETENTION_MIN_USES as i64
    }

    /// Keep a popped entry back for re-indexing if its use count earns it.
    pub fn consider_retention(pass: &mut EvictionPass, hash: [u8; 32], pri: (i32, u32))
        ensures
            final(pass).freed == old(pass).freed,
            final(pass).target == old(pass).target,
            if i32::MAX - pri.0 > RETENTION_MIN_USES {
                final(pass).retained@ == old(pass).retained@.push((hash, pri))
            } else {
                final(pass).retained == old(pass).retained
            },
    {
        if Self::should_retain(pri.0) {
            pass.retained.push((hash, pri));
        }
    }

    /// Close an enforcement pass: take the freed bytes off the total -
    /// eviction reduces, never increases, the counted size - and refile the
    /// kept-back entries.
    pub fn finish_enforcement(&mut self, pass: EvictionPass)
        ensures
            old(self).same_except_index(*final(self)),
            final(self).current_size_bytes == if pass.freed <= old(self).current_size_bytes {
                (old(self).current_size_bytes - pass.freed) as u64
            } else {
                0u64
            },
            final(self).current_size_bytes <= old(self).current_size_bytes,
            final(self).entries() == refiled(
                old(self).entries(),
                pass.retained@,
                pass.retained@.len() as int,
            ),
    {
        if pass.freed <= self.current_size_bytes {
            self.current_size_bytes = self.current_size_bytes - pass.freed;
        } else {
            self.current_size_bytes = 0;
        }
        let n = pass.retained.len();
        let mut i: usize = 0;
        while i < n
            invariant
                n == pass.retained@.len(),
                i <= n,
                self.entries() == refiled(old(self).entries(), pass.retained@, i as int),
                old(self).same_except_index(*self),
                self.current_size_bytes == if pass.freed <= old(self).current_size_bytes {
                    (old(self).current_size_bytes - pass.freed) as u64
                } else {
                    0u64
                },
            decreases n - i,
        {
            quota_push(&mut self.cache, pass.retained[i].0, pass.retained[i].1);
            i = i + 1;
        }
    }
}

/// The on-disk name of a cache entry: the lowercase hex of its hash, with
/// the wav extension.
pub fn cache_file_name(hash: &[u8; 32]) -> (r: String)
    ensures
        r@ == hex_encoding_of(hash@) + ".wav"@,
{
    let mut s = encode_hash_hex(hash);
    s.append(".wav");
    s
}

/// The `Used` message for a file whose stem should spell a content hash;
/// nothing when it does not. The caller reads the file's size from its
/// metadata.
pub fn used_action(stem: &str, size: u32) -> (r: Option<CacheAction>)
    ensures
        r is Some <==> is_hash_hex(stem@),
        match r {
            Some(a) => a matches CacheAction::Used(hs) && hs.0@ == decoded_hash(stem@) && hs.1
                == size,
            None => true,
        },
{
    match decode_hash_hex(stem) {
        Some(h) => {
            proof {
                assert(h@ =~= decoded_hash(stem@));
            }
            Some(CacheAction::Used((h, size)))
        },
        None => None,
    }
}

} // verus!
