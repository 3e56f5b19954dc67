//! Core of a federated real-time chat server: the hub permission evaluator and hub
//! mutations, the subscription registry behind notification fan-out, and the bookkeeping of
//! the per-channel search indexes (pending commits, journal, crash catch-up).

/// Channels and their message logs.
pub mod channel;
/// Configuration objects.
pub mod config;
/// Errors.
pub mod error;
/// Hubs, permission evaluation, channel and member management.
pub mod hub;
/// Search-index bookkeeping: pending counters, commits and the journal.
pub mod indexer;
/// Hub and channel permissions.
pub mod permission;
/// Connections, subscriptions and notifications.
pub mod server;
/// Fingerprints, key-server addresses and signature-time checks.
pub mod signing;

pub use error::{Error, Result};

use std::collections::HashMap;
use vstd::prelude::*;

verus! {

broadcast use vstd::std_specs::hash::group_hash_axioms;

/// Maximum size of a name in bytes.
pub const MAX_NAME_SIZE: usize = 128;

/// Maximum size of a user status in bytes.
pub const MAX_STATUS_SIZE: usize = 128;

/// Maximum size of a description in bytes.
pub const MAX_DESCRIPTION_SIZE: usize = 8192;

/// Maximum size of a message in bytes.
pub const MESSAGE_MAX_SIZE: usize = 8192;

/// How many messages are added to a search index before it is committed.
pub const TANTIVY_COMMIT_THRESHOLD: u8 = 10;

/// Identifier of hubs, channels, groups, users and messages: a 128-bit UUID.
pub type ID = u128;

/// Length in bytes of the UTF-8 encoding of `s`.
pub open spec fn byte_len(s: Seq<char>) -> nat {
    vstd::utf8::encode_utf8(s).len()
}

/// Checks if a name is valid (not too long).
pub fn is_valid_name(name: &str) -> (r: bool)
    ensures
        r == (byte_len(name@) <= MAX_NAME_SIZE),
{
    name.as_bytes().len() <= MAX_NAME_SIZE
}

/// Wraps `is_valid_name` to return a `Result`.
pub fn check_name_validity(name: &str) -> (r: Result)
    ensures
        r is Ok <==> byte_len(name@) <= MAX_NAME_SIZE,
        r is Err ==> r == Err::<(), Error>(Error::InvalidName),
{
    if is_valid_name(name) {
        Ok(())
    } else {
        Err(Error::InvalidName)
    }
}

/// Generates a new random ID.
///
/// Relies on `uuid::Uuid::new_v4` (random bytes with the version-4 bits set) and
/// `Uuid::as_u128` (the big-endian value of those bytes); nothing is promised of the value.
#[verifier::external_body]
pub fn new_id() -> ID {
    uuid::Uuid::new_v4().as_u128()
}

/// Milliseconds since the Unix epoch.
///
/// Relies on `std::time::SystemTime::now`; the value depends on the clock, nothing is promised
/// of it. A clock before the epoch reads as 0.
#[verifier::external_body]
pub(crate) fn get_system_millis() -> u128 {
    std::time::SystemTime::now()
        .duration_since(std::time::UNIX_EPOCH)
        .map(|d| d.as_millis())
        .unwrap_or(0)
}

/// A random 128-bit value.
///
/// Relies on `rand::random::<u128>` (drawn from the thread-local generator); nothing is promised
/// of the value.
#[verifier::external_body]
pub(crate) fn random_u128() -> u128 {
    rand::random::<u128>()
}

/// `candidate` if it is not a key of `taken`; otherwise the smallest value from 0 upward that
/// is not, of which there is one among the first `taken.len() + 1`.
pub fn first_free<V>(taken: &HashMap<ID, V>, candidate: ID) -> (r: ID)
    ensures
        !taken@.contains_key(r),
        !taken@.contains_key(candidate) ==> r == candidate,
{
    if !taken.contains_key(&candidate) {
        return candidate;
    }
    let n = taken.len();
    let mut next: u128 = 0;
    let ghost mut tried: Seq<u128> = Seq::empty();
    while taken.contains_key(&next)
        invariant
            n == taken@.len(),
            taken@.dom().finite(),
            tried.len() == next,
            next <= n,
            forall|k: int| 0 <= k < tried.len() ==> tried[k] == k,
            forall|k: int| 0 <= k < tried.len() ==> taken@.contains_key(#[trigger] tried[k]),
        decreases n - next,
    {
        proof {
            tried = tried.push(next);
            assert(tried.no_duplicates());
            tried.unique_seq_to_set();
            assert(tried.to_set().subset_of(taken@.dom()));
            vstd::set_lib::lemma_len_subset(tried.to_set(), taken@.dom());
        }
        next = next + 1;
    }
    next
}

/// A new random ID that is not a key of `taken`: a fresh draw replaces one that collides, and
/// should that collide too, [`first_free`] settles it.
pub fn fresh_id<V>(taken: &HashMap<ID, V>) -> (r: ID)
    ensures
        !taken@.contains_key(r),
{
    let mut candidate = new_id();
    if taken.contains_key(&candidate) {
        candidate = new_id();
    }
    first_free(taken, candidate)
}

} // verus!
