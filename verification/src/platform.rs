//! The engine's few contact points with the machine: fresh identifiers,
//! wall-clock and monotonic time, and the SHA-256 digest. Each one is a thin
//! trusted declaration over an outside call; everything that reasons about
//! their results lives elsewhere and is verified.

use std::collections::hash_map::DefaultHasher;
use std::hash::Hash;
use std::hash::Hasher;

use sha2::Digest;
use vstd::prelude::*;

verus! {

/// Monotonic clock readings carried by auction windows.
#[verifier::external_type_specification]
#[verifier::external_body]
pub struct ExInstant(std::time::Instant);

/// What SHA-256 returns for a byte string. The digest is a pure function of
/// its input, far too large to write out; contracts speak of it by this name.
pub uninterp spec fn sha256_of(data: Seq<u8>) -> Seq<u8>;

/// What the standard library's default hasher returns for a string. The
/// result depends on the characters alone.
pub uninterp spec fn str_hash64(s: Seq<char>) -> u64;

/// Relies on uuid::Uuid::new_v4: a freshly drawn random 128-bit identifier.
/// Nothing can be promised of a random value.
#[verifier::external_body]
pub(crate) fn fresh_id() -> u128 {
    uuid::Uuid::new_v4().as_u128()
}

/// Relies on std::time::SystemTime::now: nanoseconds since the Unix epoch.
/// The clock may move arbitrarily between calls, so nothing is promised.
#[verifier::external_body]
pub(crate) fn now_unix_nanos() -> u128 {
    match std::time::SystemTime::now().duration_since(std::time::UNIX_EPOCH) {
        Ok(d) => d.as_nanos(),
        Err(_) => 0,
    }
}

/// Relies on std::time::Instant::now: an opaque monotonic clock reading.
#[verifier::external_body]
pub(crate) fn instant_now() -> std::time::Instant {
    std::time::Instant::now()
}

/// Relies on std::time::Instant::elapsed: whole milliseconds since `start`
/// was taken. Time is outside the model, so nothing is promised.
#[verifier::external_body]
pub(crate) fn millis_since(start: &std::time::Instant) -> u64 {
    u64::try_from(start.elapsed().as_millis()).unwrap_or(u64::MAX)
}

/// Relies on sha2::Sha256 (the Digest trait): the 32-byte SHA-256 digest of
/// the input bytes.
#[verifier::external_body]
pub(crate) fn sha256(data: &Vec<u8>) -> (r: Vec<u8>)
    ensures
        r@ == sha256_of(data@),
        r@.len() == 32,
{
    sha2::Sha256::digest(data.as_slice()).to_vec()
}

/// Relies on std::collections::hash_map::DefaultHasher: hashers made by
/// `DefaultHasher::new` all start from the same keys, so the result is a
/// function of the input string alone.
#[verifier::external_body]
fn default_hasher_finish(input: &str) -> (r: u64)
    ensures
        r == str_hash64(input@),
{
    let mut hasher = DefaultHasher::new();
    input.hash(&mut hasher);
    hasher.finish()
}

/// Hashes a string deterministically with the standard library's default
/// hasher.
pub fn hash_str(input: &str) -> (r: u64)
    ensures
        r == str_hash64(input@),
{
    default_hasher_finish(input)
}

} // verus!
