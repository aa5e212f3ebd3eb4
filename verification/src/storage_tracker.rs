//! Tracks how much state storage an account's changes add or release.

use vstd::prelude::*;

verus! {

/// A number of bytes of state storage.
pub type StorageUsage = u64;

/// Changes in state storage, and the usage when tracking started (while tracking).
#[derive(Clone, Default)]
pub struct StorageTracker {
    pub bytes_added: StorageUsage,
    pub bytes_released: StorageUsage,
    pub initial_storage_usage: Option<StorageUsage>,
}

impl StorageTracker {
    /// Starts tracking from the current storage usage `storage_usage`. The
    /// tracker must not be tracking already.
    pub fn start(&mut self, storage_usage: StorageUsage)
        requires
            old(self).initial_storage_usage is None,
        ensures
            *final(self) == started(*old(self), storage_usage),
    {
        self.initial_storage_usage = Some(storage_usage);
    }

    /// Stops tracking at the current storage usage `storage_usage` and records
    /// the change since tracking started as added or released bytes.
    pub fn stop(&mut self, storage_usage: StorageUsage)
        requires
            old(self).initial_storage_usage is Some,
            storage_usage >= old(self).initial_storage_usage.unwrap() ==>
                old(self).bytes_added + (storage_usage - old(self).initial_storage_usage.unwrap()) <= u64::MAX,
            storage_usage < old(self).initial_storage_usage.unwrap() ==>
                old(self).bytes_released + (old(self).initial_storage_usage.unwrap() - storage_usage) <= u64::MAX,
        ensures
            *final(self) == stopped(*old(self), storage_usage),
    {
        let initial_storage_usage = match self.initial_storage_usage.take() {
            Some(u) => u,
            None => 0,
        };
        if storage_usage >= initial_storage_usage {
            self.bytes_added = self.bytes_added + (storage_usage - initial_storage_usage);
        } else {
            self.bytes_released = self.bytes_released + (initial_storage_usage - storage_usage);
        }
    }

    /// Takes over the changes recorded by `other`, which is left with none.
    /// `other` must not be tracking.
    pub fn consume(&mut self, other: &mut StorageTracker)
        requires
            old(other).initial_storage_usage is None,
            old(self).bytes_added + old(other).bytes_added <= u64::MAX,
            old(self).bytes_released + old(other).bytes_released <= u64::MAX,
        ensures
            final(self).bytes_added == old(self).bytes_added + old(other).bytes_added,
            final(self).bytes_released == old(self).bytes_released + old(other).bytes_released,
            final(self).initial_storage_usage == old(self).initial_storage_usage,
            final(other).bytes_added == 0,
            final(other).bytes_released == 0,
            final(other).initial_storage_usage is None,
            *final(self) == consumed(*old(self), *old(other)),
    {
        self.bytes_added = self.bytes_added + other.bytes_added;
        other.bytes_added = 0;
        self.bytes_released = self.bytes_released + other.bytes_released;
        other.bytes_released = 0;
    }

    /// Whether no bytes are added or released and the tracker is not tracking.
    pub fn is_empty(&self) -> (r: bool)
        ensures
            r == (self.bytes_added == 0 && self.bytes_released == 0 && self.initial_storage_usage is None),
    {
        self.bytes_added == 0 && self.bytes_released == 0 && self.initial_storage_usage.is_none()
    }

    /// Forgets every change and stops tracking.
    pub fn clean(&mut self)
        ensures
            final(self).is_empty_spec(),
    {
        self.bytes_added = 0;
        self.bytes_released = 0;
        self.initial_storage_usage = None;
    }

    /// No bytes are added or released and the tracker is not tracking.
    pub open spec fn is_empty_spec(&self) -> bool {
        self.bytes_added == 0 && self.bytes_released == 0 && self.initial_storage_usage is None
    }
}

/// The tracker after it consumed `other`.
pub open spec fn consumed(t: StorageTracker, other: StorageTracker) -> StorageTracker {
    StorageTracker {
        bytes_added: (t.bytes_added + other.bytes_added) as u64,
        bytes_released: (t.bytes_released + other.bytes_released) as u64,
        ..t
    }
}

/// The tracker after it consumed each of `sources` in turn.
pub open spec fn consumed_all(t: StorageTracker, sources: Seq<StorageTracker>) -> StorageTracker
    decreases sources.len(),
{
    if sources.len() == 0 { t } else { consumed(consumed_all(t, sources.drop_last()), sources.last()) }
}

/// The bytes added by all of `sources`.
pub open spec fn added_sum(sources: Seq<StorageTracker>) -> nat
    decreases sources.len(),
{
    if sources.len() == 0 { 0 } else { added_sum(sources.drop_last()) + sources.last().bytes_added as nat }
}

/// The bytes released by all of `sources`.
pub open spec fn released_sum(sources: Seq<StorageTracker>) -> nat
    decreases sources.len(),
{
    if sources.len() == 0 { 0 } else { released_sum(sources.drop_last()) + sources.last().bytes_released as nat }
}

/// Consuming several trackers in turn adds up all their changes: the bytes
/// added and released grow by the sums over the sources, and the tracker's
/// own tracking state is untouched. A source with no change changes nothing.
pub proof fn lemma_consume_adds_up(t: StorageTracker, sources: Seq<StorageTracker>)
    requires
        t.bytes_added + added_sum(sources) <= u64::MAX,
        t.bytes_released + released_sum(sources) <= u64::MAX,
    ensures
        consumed_all(t, sources).bytes_added == t.bytes_added + added_sum(sources),
        consumed_all(t, sources).bytes_released == t.bytes_released + released_sum(sources),
        consumed_all(t, sources).initial_storage_usage == t.initial_storage_usage,
        consumed(t, StorageTracker { bytes_added: 0, bytes_released: 0, initial_storage_usage: None }) == t,
    decreases sources.len(),
{
    if sources.len() > 0 {
        lemma_consume_adds_up(t, sources.drop_last());
    }
}

/// The tracker after `start` at `storage_usage`.
pub open spec fn started(t: StorageTracker, storage_usage: StorageUsage) -> StorageTracker {
    StorageTracker { initial_storage_usage: Some(storage_usage), ..t }
}

/// The tracker after `stop` at `storage_usage`.
pub open spec fn stopped(t: StorageTracker, storage_usage: StorageUsage) -> StorageTracker {
    let initial = t.initial_storage_usage.unwrap();
    if storage_usage >= initial {
        StorageTracker { bytes_added: (t.bytes_added + (storage_usage - initial)) as u64, initial_storage_usage: None, ..t }
    } else {
        StorageTracker { bytes_released: (t.bytes_released + (initial - storage_usage)) as u64, initial_storage_usage: None, ..t }
    }
}

/// Tracking a span of execution records exactly the change of storage usage
/// over it: after `start` at `u0` and `stop` at `u1`, the bytes added minus
/// the bytes released have grown by `u1 - u0`, and the tracker is no longer
/// tracking. With no change (`u0 == u1`) nothing is recorded.
pub proof fn lemma_start_stop_records_change(t: StorageTracker, u0: StorageUsage, u1: StorageUsage)
    requires
        t.initial_storage_usage is None,
        t.bytes_added + u1 <= u64::MAX,
        t.bytes_released + u0 <= u64::MAX,
    ensures
        stopped(started(t, u0), u1).bytes_added - stopped(started(t, u0), u1).bytes_released
            == t.bytes_added - t.bytes_released + (u1 - u0),
        stopped(started(t, u0), u1).initial_storage_usage is None,
        u0 == u1 ==> stopped(started(t, u0), u1) == t,
{
}

} // verus!
