//! General helpers used across the api: content hashing, random string
//! generation, and a plain handle for generated files.

use rand::Rng;
use sha2::Digest;
use vstd::prelude::*;

verus! {

/// True for the characters that `generate_random_alphanumeric` may produce.
pub open spec fn is_alphanumeric_char(c: char) -> bool {
    ('0' <= c && c <= '9') || ('a' <= c && c <= 'z') || ('A' <= c && c <= 'Z')
}

/// The lowercase-hex sha256 digest of a character sequence. The digest is a
/// function of the characters alone.
pub uninterp spec fn sha256_hex_of(s: Seq<char>) -> Seq<char>;

/// The lowercase-hex sha512 digest of a character sequence. The digest is a
/// function of the characters alone.
pub uninterp spec fn sha512_hex_of(s: Seq<char>) -> Seq<char>;

/// Takes an input reference string, and hashes it using the sha256 algorithm.
/// The resultant value is returned as a string in hexadecimal - meaning it is
/// url and i/o safe.
///
/// Relies on sha2's Sha256: the digest depends on the input alone and is 32
/// bytes, printed here as 64 lowercase hex characters.
#[verifier::external_body]
pub fn sha_256_hash(input: &str) -> (r: String)
    ensures
        r@ == sha256_hex_of(input@),
        r@.len() == 64,
        forall|i: int| 0 <= i < 64 ==> crate::hexstr::is_hex_digit(#[trigger] r@[i]),
{
    let mut hasher = sha2::Sha256::new();
    hasher.update(input);
    format!("{:x}", hasher.finalize())
}

/// Takes an input reference string, and hashes it using the sha512 algorithm.
/// The resultant value is returned as a string in hexadecimal - meaning it is
/// url and i/o safe. The choice of sha512 over sha256 is that sha512 tends to
/// perform better at longer strings - which we are likely to encounter with
/// this api.
///
/// Relies on sha2's Sha512: the digest depends on the input alone and is 64
/// bytes, printed here as 128 lowercase hex characters.
#[verifier::external_body]
pub fn sha_512_hash(input: &str) -> (r: String)
    ensures
        r@ == sha512_hex_of(input@),
        r@.len() == 128,
        forall|i: int| 0 <= i < 128 ==> crate::hexstr::is_hex_digit(#[trigger] r@[i]),
{
    let mut hasher = sha2::Sha512::new();
    hasher.update(input);
    format!("{:x}", hasher.finalize())
}

/// Generate a randomised alphanumeric (base 62) string of a requested length.
///
/// Relies on rand's Alphanumeric distribution: every sampled character is a
/// digit or an ascii letter; the value itself depends on the thread's rng.
#[verifier::external_body]
pub fn generate_random_alphanumeric(length: usize) -> (r: String)
    ensures
        r@.len() == length as nat,
        forall|i: int| 0 <= i < r@.len() ==> is_alphanumeric_char(#[trigger] r@[i]),
{
    rand::thread_rng()
        .sample_iter(rand::distributions::Alphanumeric)
        .take(length)
        .map(char::from)
        .collect()
}

/// A useful file handle for wrapping generated files. The path is carried as
/// plain text; deleting a non-cached file when the handle is dropped is the
/// caller's business, outside this library.
#[derive(Debug, Clone)]
pub struct FileHandle {
    pub path: String,
    pub to_cache: bool,
}

impl FileHandle {
    /// Wrap a path, remembering whether the file it names is kept in the cache.
    pub fn new(path: String, to_cache: bool) -> (r: FileHandle)
        ensures
            r.path == path,
            r.to_cache == to_cache,
    {
        FileHandle { path, to_cache }
    }

    /// The wrapped path.
    pub fn underlying(&self) -> (r: &String)
        ensures
            r == &self.path,
    {
        &self.path
    }

    /// Whether the file is kept in the cache (a kept file must not be
    /// deleted when the handle is dropped).
    pub fn is_cached(&self) -> (r: bool)
        ensures
            r == self.to_cache,
    {
        self.to_cache
    }
}

} // verus!
