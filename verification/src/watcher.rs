//! When the inbox watcher processes the inbox: only when the inbox's
//! fingerprint differs from the one recorded after the last pass.

use std::collections::hash_map::DefaultHasher;
use std::hash::Hasher;
use vstd::prelude::*;
use vstd::std_specs::hash::DefaultHasherAdditionalSpecFns;

verus! {

/// The number that the bytes `s` write in little-endian order.
pub open spec fn little_endian_value(s: Seq<u8>) -> int
    decreases s.len(),
{
    if s.len() == 0 {
        0
    } else {
        s[0] as int + 256 * little_endian_value(s.drop_first())
    }
}

/// `s` is the native-order encoding of the length `n`: as many bytes as a
/// `usize` has, giving `n` when read in little-endian or in big-endian order
/// (which of the two is the machine's).
pub open spec fn is_native_usize_bytes(s: Seq<u8>, n: nat) -> bool {
    &&& s.len() * 8 == usize::BITS
    &&& (little_endian_value(s) == n || little_endian_value(s.reverse()) == n)
}

/// std's `usize::to_ne_bytes`: the bytes of `n` in the machine's byte order.
/// Which order that is depends on the machine, so only what holds on every
/// machine is stated: there are as many bytes as a `usize` has, and read in
/// little-endian or in big-endian order they give `n`.
#[verifier::external_body]
fn usize_ne_bytes(n: usize) -> (r: Vec<u8>)
    ensures
        is_native_usize_bytes(r@, n as nat),
{
    n.to_ne_bytes().to_vec()
}

/// `h` is the fingerprint of the bytes `contents`: the `DefaultHasher` digest
/// of what `Hash::hash` writes for a byte vector, its length in native byte
/// order and then the bytes.
pub open spec fn is_fingerprint_of(h: u64, contents: Seq<u8>) -> bool {
    exists|length: Seq<u8>|
        is_native_usize_bytes(length, contents.len()) && h == DefaultHasher::spec_finish(
            #[trigger] seq![length, contents],
        )
}

/// Fingerprints an inbox file from its contents (`None` when the file does
/// not exist), as `Hash::hash` of the byte vector into a `DefaultHasher`
/// does: the length is written first, then the bytes.
pub fn inbox_fingerprint(contents: Option<&[u8]>) -> (r: Option<u64>)
    ensures
        contents is None ==> r is None,
        contents matches Some(b) ==> (r matches Some(h) && is_fingerprint_of(h, b@)),
{
    match contents {
        Some(bytes) => {
            let mut hasher = DefaultHasher::new();
            let length = usize_ne_bytes(bytes.len());
            hasher.write(length.as_slice());
            hasher.write(bytes);
            assert(hasher@ =~= seq![length@, bytes@]);
            Some(hasher.finish())
        },
        None => None,
    }
}

/// Whether a poll that reads `fingerprint` processes an inbox last recorded as `last`.
pub open spec fn triggers_pass(last: Option<u64>, fingerprint: Option<u64>) -> bool {
    fingerprint != last
}

/// The fingerprint recorded after a pass started on `fingerprint`.
pub open spec fn fingerprint_after_pass(fingerprint: Option<u64>, refreshed: Option<Option<u64>>) -> Option<u64> {
    match refreshed {
        Some(f) => f,
        None => fingerprint,
    }
}

/// The state the inbox watcher keeps between polls.
#[derive(Debug, PartialEq, Eq)]
pub struct InboxWatcher {
    /// The fingerprint of the inbox as it was after the last pass (`None`
    /// for an inbox file that does not exist, or before any pass).
    pub last_fingerprint: Option<u64>,
}

impl InboxWatcher {
    /// A watcher that has not processed the inbox yet.
    pub fn new() -> (r: Self)
        ensures
            r.last_fingerprint is None,
    {
        InboxWatcher { last_fingerprint: None }
    }

    /// Whether a poll that read the fingerprint `fingerprint` processes the inbox.
    pub fn should_process(&self, fingerprint: Option<u64>) -> (r: bool)
        ensures
            r == triggers_pass(self.last_fingerprint, fingerprint),
    {
        match (fingerprint, self.last_fingerprint) {
            (Some(a), Some(b)) => a != b,
            (None, None) => false,
            _ => true,
        }
    }

    /// Records a pass made on seeing `fingerprint`: the fingerprint read
    /// again after the pass when that read succeeded (`refreshed` is
    /// `Some`), else `fingerprint`.
    pub fn record_processed(&mut self, fingerprint: Option<u64>, refreshed: Option<Option<u64>>)
        ensures
            final(self).last_fingerprint == fingerprint_after_pass(fingerprint, refreshed),
    {
        self.last_fingerprint = match refreshed {
            Some(f) => f,
            None => fingerprint,
        };
    }
}

/// A fresh watcher processes an inbox that exists on its first poll.
pub proof fn law_first_poll_of_existing_inbox_triggers(fingerprint: u64)
    ensures
        triggers_pass(None, Some(fingerprint)),
{
}

/// An inbox whose content does not change after a pass (the re-read gives
/// the same fingerprint, or fails) is not processed again by a poll that
/// reads that same fingerprint; a poll that reads a different one is.
pub proof fn law_unchanged_inbox_is_not_reprocessed(
    fingerprint: Option<u64>,
    refreshed: Option<Option<u64>>,
    next: Option<u64>,
)
    requires
        refreshed == Some(fingerprint) || refreshed is None,
    ensures
        triggers_pass(fingerprint_after_pass(fingerprint, refreshed), next) <==> next != fingerprint,
{
}

} // verus!
