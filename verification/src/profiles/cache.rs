//! The discovery cache as a value: its entries, the operations on it, and
//! what holds of them.

use crate::profiles::Key;
use vstd::prelude::*;

verus! {


/// How far the discovery stream of an entry has come.
#[derive(Clone, Copy, Debug, PartialEq, Eq, Hash, Structural)]
pub enum Phase {
    /// The stream has not delivered a profile yet; lookups wait for it.
    Pending,
    /// The stream is established; lookups are answered with a receiver.
    Ready,
    /// The stream failed for good; lookups are answered with no profile.
    Failed,
}

/// An entry of the cache, as a value.
pub struct Entry {
    /// The number of the entry's discovery stream.
    pub stream: nat,
    /// How far that stream has come.
    pub phase: Phase,
    /// How many references keep the entry alive: waiting lookups and
    /// receivers.
    pub handles: nat,
    /// When the entry was last used, in nanoseconds on the cache's clock.
    pub idle_since: nat,
}

/// A reference to an entry, as a value.
pub struct HandleView {
    pub key: Key,
    pub stream: nat,
}

/// The answer to a lookup, as a value.
pub enum Outcome {
    /// The entry is new: its stream is to be started, and the lookup waits
    /// for it.
    Start(HandleView),
    /// The entry's stream is pending: the lookup waits for it.
    Wait(HandleView),
    /// The entry's stream is established: here is a receiver.
    Ready(HandleView),
    /// The entry's stream has failed: there is no profile.
    Unavailable,
}

/// The cache, as a value.
pub struct Cache {
    /// The entries by lookup address.
    pub entries: Map<Key, Entry>,
    /// How many streams were started so far. Streams are numbered in the
    /// order in which they were started.
    pub started: nat,
    /// How long an unused entry is kept, in nanoseconds.
    pub idle: nat,
}

impl Entry {
    /// The same entry with another count of references. When the last
    /// reference goes, the entry counts as unused from `now` on.
    pub open spec fn with_handles(self, handles: nat, now: nat) -> Entry {
        Entry {
            handles,
            idle_since: if handles == 0 {
                now
            } else {
                self.idle_since
            },
            ..self
        }
    }

    /// The same entry in another phase.
    pub open spec fn with_phase(self, phase: Phase) -> Entry {
        Entry { phase, ..self }
    }
}

impl Cache {
    /// What holds of every cache: streams are numbered below the count of
    /// started streams, and no two entries share a stream.
    pub open spec fn inv(self) -> bool {
        &&& forall|k: Key| #[trigger]
            self.entries.contains_key(k) ==> self.entries[k].stream < self.started
        &&& forall|k1: Key, k2: Key|
            #![trigger self.entries[k1], self.entries[k2]]
            self.entries.contains_key(k1) && self.entries.contains_key(k2) && self.entries[k1].stream
                == self.entries[k2].stream ==> k1 == k2
    }

    /// Whether the counters leave room for one more lookup of `key`.
    pub open spec fn has_room(self, key: Key) -> bool {
        if self.entries.contains_key(key) {
            self.entries[key].handles < u64::MAX
        } else {
            self.started < u64::MAX
        }
    }

    /// Whether `key` has an entry with the stream `stream`.
    pub open spec fn holds(self, key: Key, stream: nat) -> bool {
        self.entries.contains_key(key) && self.entries[key].stream == stream
    }

    /// The cache with another entry for `key`.
    pub open spec fn with_entry(self, key: Key, entry: Entry) -> Cache {
        Cache { entries: self.entries.insert(key, entry), ..self }
    }

    /// The answer to a lookup of `key`.
    pub open spec fn lookup_outcome(self, key: Key) -> Outcome {
        if !self.entries.contains_key(key) {
            Outcome::Start(HandleView { key, stream: self.started })
        } else {
            let handle = HandleView { key, stream: self.entries[key].stream };
            match self.entries[key].phase {
                Phase::Pending => Outcome::Wait(handle),
                Phase::Ready => Outcome::Ready(handle),
                Phase::Failed => Outcome::Unavailable,
            }
        }
    }

    /// The cache after a lookup of `key` at the time `now`. A key without
    /// entry gets one, with a new stream and the lookup as its first
    /// reference. An entry that is pending or ready gets one more reference,
    /// and no stream is started. An entry that has failed gets no reference,
    /// but counts as used at `now` when nothing else refers to it.
    pub open spec fn lookup(self, key: Key, now: nat) -> Cache {
        if !self.entries.contains_key(key) {
            Cache {
                entries: self.entries.insert(
                    key,
                    Entry {
                        stream: self.started,
                        phase: Phase::Pending,
                        handles: 1,
                        idle_since: now,
                    },
                ),
                started: self.started + 1,
                ..self
            }
        } else {
            let entry = self.entries[key];
            match entry.phase {
                Phase::Failed => self.with_entry(key, entry.with_handles(entry.handles, now)),
                _ => self.with_entry(key, entry.with_handles(entry.handles + 1, now)),
            }
        }
    }

    /// The cache after the stream `stream` of `key` changed from pending to
    /// `phase`. A stream that is not the pending stream of `key` changes
    /// nothing.
    pub open spec fn resolved(self, key: Key, stream: nat, phase: Phase) -> Cache {
        if self.holds(key, stream) && self.entries[key].phase == Phase::Pending {
            self.with_entry(key, self.entries[key].with_phase(phase))
        } else {
            self
        }
    }

    /// The number of lookups that wait for the stream `stream` of `key`.
    pub open spec fn waiting(self, key: Key, stream: nat) -> nat {
        if self.holds(key, stream) && self.entries[key].phase == Phase::Pending {
            self.entries[key].handles
        } else {
            0
        }
    }

    /// The cache after one more reference to the stream `stream` of `key`
    /// was made from an existing one.
    pub open spec fn cloned(self, key: Key, stream: nat) -> Cache {
        if self.holds(key, stream) {
            let entry = self.entries[key];
            self.with_entry(key, Entry { handles: entry.handles + 1, ..entry })
        } else {
            self
        }
    }

    /// The cache after a reference to the stream `stream` of `key` was given
    /// up at the time `now`. A reference to an entry that is gone changes
    /// nothing.
    pub open spec fn released(self, key: Key, stream: nat, now: nat) -> Cache {
        if self.holds(key, stream) && self.entries[key].handles > 0 {
            let entry = self.entries[key];
            self.with_entry(key, entry.with_handles((entry.handles - 1) as nat, now))
        } else {
            self
        }
    }

    /// The answer to a lookup that waited for the stream `stream` of `key`
    /// and asks again.
    pub open spec fn poll_outcome(self, key: Key, stream: nat) -> Outcome {
        if self.holds(key, stream) {
            match self.entries[key].phase {
                Phase::Pending => Outcome::Wait(HandleView { key, stream }),
                Phase::Ready => Outcome::Ready(HandleView { key, stream }),
                Phase::Failed => Outcome::Unavailable,
            }
        } else {
            Outcome::Unavailable
        }
    }

    /// The cache after a lookup that waited for the stream `stream` of `key`
    /// asked again at the time `now`. When the stream has failed, the lookup
    /// ends with no profile and its reference is given up; in every other
    /// case nothing changes.
    pub open spec fn polled(self, key: Key, stream: nat, now: nat) -> Cache {
        if self.holds(key, stream) && self.entries[key].phase == Phase::Failed {
            self.released(key, stream, now)
        } else {
            self
        }
    }

    /// Whether the entry of `key` is due for removal at the time `now`:
    /// nothing refers to it, and it has been unused for the idle time.
    pub open spec fn expired(self, key: Key, now: nat) -> bool {
        &&& self.entries.contains_key(key)
        &&& self.entries[key].handles == 0
        &&& self.entries[key].idle_since + self.idle <= now
    }

    /// The cache after the removal of the entries that are due at `now`.
    pub open spec fn evicted(self, now: nat) -> Cache {
        Cache {
            entries: self.entries.remove_keys(Set::new(|k: Key| self.expired(k, now))),
            ..self
        }
    }

    /// The cache after one lookup of `key` at each of the given times, in
    /// their order, with nothing in between.
    pub open spec fn lookups(self, key: Key, times: Seq<nat>) -> Cache
        decreases times.len(),
    {
        if times.len() == 0 {
            self
        } else {
            self.lookups(key, times.drop_last()).lookup(key, times.last())
        }
    }
}

/// Each operation keeps what holds of every cache.
pub proof fn operations_keep_invariant(cache: Cache, key: Key, stream: nat, phase: Phase, now: nat)
    requires
        cache.inv(),
    ensures
        cache.lookup(key, now).inv(),
        cache.resolved(key, stream, phase).inv(),
        cache.cloned(key, stream).inv(),
        cache.released(key, stream, now).inv(),
        cache.evicted(now).inv(),
{
    let after = cache.lookup(key, now);
    assert forall|k: Key| #[trigger] after.entries.contains_key(k) implies after.entries[k].stream
        < after.started by {
        if k != key {
            assert(cache.entries.contains_key(k));
        }
    }
    assert forall|k1: Key, k2: Key|
        #![trigger after.entries[k1], after.entries[k2]]
        after.entries.contains_key(k1) && after.entries.contains_key(k2) && after.entries[k1].stream
            == after.entries[k2].stream implies k1 == k2 by {
        if k1 != key {
            assert(cache.entries.contains_key(k1));
        }
        if k2 != key {
            assert(cache.entries.contains_key(k2));
        }
        if k1 != key && k2 != key {
            assert(cache.entries[k1].stream == cache.entries[k2].stream);
        }
    }
    lemma_same_streams_keep_invariant(cache, cache.resolved(key, stream, phase));
    lemma_same_streams_keep_invariant(cache, cache.cloned(key, stream));
    lemma_same_streams_keep_invariant(cache, cache.released(key, stream, now));
    lemma_same_streams_keep_invariant(cache, cache.evicted(now));
}

/// A cache whose entries are among those of a cache that meets the
/// invariant, with the same streams, meets it too.
proof fn lemma_same_streams_keep_invariant(before: Cache, after: Cache)
    requires
        before.inv(),
        after.started == before.started,
        forall|k: Key| #[trigger]
            after.entries.contains_key(k) ==> before.entries.contains_key(k)
                && after.entries[k].stream == before.entries[k].stream,
    ensures
        after.inv(),
{
    assert forall|k1: Key, k2: Key|
        #![trigger after.entries[k1], after.entries[k2]]
        after.entries.contains_key(k1) && after.entries.contains_key(k2) && after.entries[k1].stream
            == after.entries[k2].stream implies k1 == k2 by {
        assert(before.entries.contains_key(k1));
        assert(before.entries.contains_key(k2));
        assert(before.entries[k1].stream == before.entries[k2].stream);
    }
}

/// A lookup starts a stream only for a key that has no entry. A key that
/// has an entry keeps it, with the stream it has: no key ever has two
/// streams at once.
pub proof fn lookup_starts_at_most_one_stream(cache: Cache, key: Key, now: nat)
    ensures
        cache.lookup(key, now).started == if cache.entries.contains_key(key) {
            cache.started
        } else {
            cache.started + 1
        },
        cache.lookup_outcome(key) is Start <==> !cache.entries.contains_key(key),
        cache.lookup(key, now).entries.contains_key(key),
        cache.entries.contains_key(key) ==> cache.lookup(key, now).entries[key].stream
            == cache.entries[key].stream,
        forall|other: Key|
            other != key ==> (cache.lookup(key, now).entries.contains_key(other)
                <==> cache.entries.contains_key(other)),
        forall|other: Key|
            other != key && cache.entries.contains_key(other) ==> #[trigger] cache.lookup(
                key,
                now,
            ).entries[other] == cache.entries[other],
{
}

/// Any number of lookups of a key that come before its stream resolves
/// share one stream: the first lookup of a key without entry starts it, the
/// others wait for it, and each of them holds one reference to the entry.
/// When the stream is established, all of them are answered with a receiver
/// of that one stream.
pub proof fn concurrent_lookups_share_one_stream(cache: Cache, key: Key, times: Seq<nat>)
    requires
        !cache.entries.contains_key(key),
        times.len() > 0,
    ensures
        cache.lookups(key, times).started == cache.started + 1,
        cache.lookups(key, times).entries.contains_key(key),
        cache.lookups(key, times).entries[key] == (Entry {
            stream: cache.started,
            phase: Phase::Pending,
            handles: times.len(),
            idle_since: times[0],
        }),
        cache.lookup_outcome(key) == Outcome::Start(HandleView { key, stream: cache.started }),
        forall|earlier: int|
            0 < earlier <= times.len() ==> #[trigger] cache.lookups(
                key,
                times.take(earlier),
            ).lookup_outcome(key) == Outcome::Wait(HandleView { key, stream: cache.started }),
        cache.lookups(key, times).waiting(key, cache.started) == times.len(),
        cache.lookups(key, times).resolved(key, cache.started, Phase::Ready).lookup_outcome(key)
            == Outcome::Ready(HandleView { key, stream: cache.started }),
        cache.lookups(key, times).resolved(key, cache.started, Phase::Ready).entries[key].handles
            == times.len(),
    decreases times.len(),
{
    let init = times.drop_last();
    assert(times.take(times.len() as int) == times);
    if times.len() > 1 {
        concurrent_lookups_share_one_stream(cache, key, init);
        assert(init[0] == times[0]);
        assert forall|earlier: int| 0 < earlier <= times.len() implies #[trigger] cache.lookups(
            key,
            times.take(earlier),
        ).lookup_outcome(key) == Outcome::Wait(HandleView { key, stream: cache.started }) by {
            if earlier < times.len() {
                assert(times.take(earlier) == init.take(earlier));
            }
        }
    } else {
        assert(cache.lookups(key, init) == cache);
        assert forall|earlier: int| 0 < earlier <= times.len() implies #[trigger] cache.lookups(
            key,
            times.take(earlier),
        ).lookup_outcome(key) == Outcome::Wait(HandleView { key, stream: cache.started }) by {
            assert(times.take(earlier) == times);
        }
    }
}

/// An entry is removed only when nothing refers to it and it has been unused
/// for the idle time. A lookup keeps it: while the reference of the lookup
/// is held, the entry stays whatever the time, with the stream it had; and
/// when the entry had failed, it stays until the idle time has passed again
/// since the lookup.
pub proof fn lookup_defers_eviction(cache: Cache, key: Key, at: nat, now: nat)
    requires
        cache.entries.contains_key(key),
    ensures
        cache.lookup(key, at).started == cache.started,
        cache.lookup(key, at).entries.contains_key(key),
        cache.lookup(key, at).entries[key].stream == cache.entries[key].stream,
        cache.entries[key].phase != Phase::Failed ==> cache.lookup(key, at).evicted(
            now,
        ).entries.contains_key(key),
        now < at + cache.idle ==> cache.lookup(key, at).evicted(now).entries.contains_key(key),
        cache.lookup(key, at).evicted(now).entries.contains_key(key) ==> cache.lookup(
            key,
            at,
        ).evicted(now).entries[key] == cache.lookup(key, at).entries[key],
{
}

/// An entry whose last reference was given up at the time `at` stays until
/// the idle time has passed, and is removed by the first sweep after that.
pub proof fn released_entry_idles_out(cache: Cache, key: Key, stream: nat, at: nat, now: nat)
    requires
        cache.holds(key, stream),
        cache.entries[key].handles == 1,
    ensures
        cache.released(key, stream, at).evicted(now).entries.contains_key(key) <==> now < at
            + cache.idle,
{
}

/// A sweep removes the entries that are due and leaves every other entry as
/// it is.
pub proof fn eviction_removes_only_expired(cache: Cache, key: Key, now: nat)
    ensures
        cache.evicted(now).entries.contains_key(key) <==> cache.entries.contains_key(key)
            && !cache.expired(key, now),
        cache.evicted(now).entries.contains_key(key) ==> cache.evicted(now).entries[key]
            == cache.entries[key],
        cache.evicted(now).started == cache.started,
{
}

} // verus!
