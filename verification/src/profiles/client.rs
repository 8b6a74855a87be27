//! The discovery cache: one watch on the discovery service for each
//! destination, shared by every lookup of that destination, and dropped when
//! it has been unused for a while.
//!
//! The cache is a table from lookup address to entry, owned by a single
//! writer. It starts no stream and keeps no time by itself: each operation
//! takes the current time on a monotonic clock, and its result tells the
//! owner which stream to start, whom to answer, and which entries are gone.

use crate::profiles::cache::{operations_keep_invariant, Cache, Entry, HandleView, Outcome, Phase};
use crate::profiles::{path_of, Key, LookupAddr};
use crate::time::Duration;
use vstd::prelude::*;
use vstd::string::*;

verus! {

/// A counted reference to an entry of the cache. As long as it is held, the
/// entry is not removed. It is given back with [`Client::release`].
#[derive(Debug, PartialEq, Eq)]
pub struct Handle {
    addr: LookupAddr,
    stream: u64,
}

impl View for Handle {
    type V = HandleView;

    closed spec fn view(&self) -> HandleView {
        HandleView { key: self.addr@, stream: self.stream as nat }
    }
}

/// A reference to an entry whose stream is established: it receives the
/// profile of the destination and every update of it.
#[derive(Debug, PartialEq, Eq)]
pub struct Receiver(Handle);

impl View for Receiver {
    type V = HandleView;

    closed spec fn view(&self) -> HandleView {
        self.0@
    }
}

/// The answer to a lookup.
#[derive(Debug, PartialEq, Eq)]
pub enum Lookup {
    /// The entry is new: start its stream, and wait for it.
    Start(Handle),
    /// The entry's stream is pending: wait for it.
    Wait(Handle),
    /// The entry's stream is established.
    Ready(Receiver),
    /// The entry's stream has failed: there is no profile.
    Unavailable,
}

impl View for Lookup {
    type V = Outcome;

    open spec fn view(&self) -> Outcome {
        match *self {
            Lookup::Start(handle) => Outcome::Start(handle@),
            Lookup::Wait(handle) => Outcome::Wait(handle@),
            Lookup::Ready(receiver) => Outcome::Ready(receiver@),
            Lookup::Unavailable => Outcome::Unavailable,
        }
    }
}

/// An entry that was removed from the cache. Its stream is to be stopped.
#[derive(Debug, PartialEq, Eq)]
pub struct Evicted {
    pub addr: LookupAddr,
    pub stream: u64,
}

/// What becomes of a discovery stream that reported an error. `B` is the
/// backoff of a retry, `E` the error.
#[derive(Clone, Debug, PartialEq, Eq)]
pub enum Recovered<B, E> {
    /// The error is transient: the stream is started again after the
    /// backoff. Lookups see nothing of it.
    Retry(B),
    /// The error is final: the stream has failed, and the `waiting` lookups
    /// are to be answered with no profile.
    Failed { error: E, waiting: u64 },
}

/// The request that starts the discovery stream of a destination.
#[derive(Clone, Debug, PartialEq, Eq)]
pub struct GetDestination {
    /// The destination, as `name:port`.
    pub path: String,
    /// The token that tells the discovery service who asks.
    pub context_token: String,
}

impl Handle {
    /// The address of the entry.
    pub fn addr(&self) -> (addr: &LookupAddr)
        ensures
            addr@ == self@.key,
    {
        &self.addr
    }

    /// The number of the entry's stream.
    pub fn stream(&self) -> (stream: u64)
        ensures
            stream == self@.stream,
    {
        self.stream
    }
}

impl Receiver {
    /// The address of the entry.
    pub fn addr(&self) -> (addr: &LookupAddr)
        ensures
            addr@ == self@.key,
    {
        &self.0.addr
    }

    /// The number of the entry's stream.
    pub fn stream(&self) -> (stream: u64)
        ensures
            stream == self@.stream,
    {
        self.0.stream
    }

    /// Turns the receiver into the reference that it holds, to give it back.
    pub fn into_handle(self) -> (handle: Handle)
        ensures
            handle@ == self@,
    {
        self.0
    }
}

struct Slot {
    addr: LookupAddr,
    stream: u64,
    phase: Phase,
    handles: u64,
    idle_since: Duration,
}

/// The discovery cache of a proxy.
///
/// The view of a client is the cache as a value.
pub struct Client {
    context_token: String,
    idle: Duration,
    capacity: usize,
    slots: Vec<Slot>,
    started: u64,
}

spec fn entry_of(slot: Slot) -> Entry {
    Entry {
        stream: slot.stream as nat,
        phase: slot.phase,
        handles: slot.handles as nat,
        idle_since: slot.idle_since@,
    }
}

spec fn has_key(slots: Seq<Slot>, key: Key) -> bool {
    exists|i: int| 0 <= i < slots.len() && (#[trigger] slots[i]).addr@ == key
}

spec fn index_of(slots: Seq<Slot>, key: Key) -> int {
    choose|i: int| 0 <= i < slots.len() && (#[trigger] slots[i]).addr@ == key
}

spec fn entries_of(slots: Seq<Slot>) -> Map<Key, Entry> {
    Map::new(|key: Key| has_key(slots, key), |key: Key| entry_of(slots[index_of(slots, key)]))
}

spec fn distinct(slots: Seq<Slot>) -> bool {
    forall|i: int, j: int|
        0 <= i < j < slots.len() ==> (#[trigger] slots[i]).addr@ != (#[trigger] slots[j]).addr@
}

proof fn lemma_entry_at(slots: Seq<Slot>, i: int)
    requires
        distinct(slots),
        0 <= i < slots.len(),
    ensures
        entries_of(slots).contains_key(slots[i].addr@),
        entries_of(slots)[slots[i].addr@] == entry_of(slots[i]),
{
    let key = slots[i].addr@;
    assert(has_key(slots, key));
    let j = index_of(slots, key);
    assert(slots[j].addr@ == key);
    if i < j {
        assert(slots[i].addr@ != slots[j].addr@);
    }
    if j < i {
        assert(slots[j].addr@ != slots[i].addr@);
    }
}

proof fn lemma_update(slots: Seq<Slot>, i: int, slot: Slot)
    requires
        distinct(slots),
        0 <= i < slots.len(),
        slot.addr@ == slots[i].addr@,
    ensures
        distinct(slots.update(i, slot)),
        entries_of(slots.update(i, slot)) == entries_of(slots).insert(slot.addr@, entry_of(slot)),
{
    let after = slots.update(i, slot);
    assert forall|a: int, b: int| 0 <= a < b < after.len() implies (#[trigger] after[a]).addr@ != (
    #[trigger] after[b]).addr@ by {
        assert(slots[a].addr@ != slots[b].addr@);
    }
    let expected = entries_of(slots).insert(slot.addr@, entry_of(slot));
    assert forall|key: Key| entries_of(after).contains_key(key) <==> expected.contains_key(
        key,
    ) by {
        if has_key(after, key) {
            let j = index_of(after, key);
            assert(slots[j].addr@ == key);
        }
        if has_key(slots, key) {
            let j = index_of(slots, key);
            assert(after[j].addr@ == key);
        }
        if key == slot.addr@ {
            assert(after[i].addr@ == key);
        }
    }
    assert forall|key: Key| entries_of(after).contains_key(key) implies entries_of(after)[key]
        == expected[key] by {
        let j = index_of(after, key);
        lemma_entry_at(after, j);
        if j != i {
            assert(slots[j] == after[j]);
            lemma_entry_at(slots, j);
        }
    }
    assert(entries_of(after) =~= expected);
}

proof fn lemma_push(slots: Seq<Slot>, slot: Slot)
    requires
        distinct(slots),
        !has_key(slots, slot.addr@),
    ensures
        distinct(slots.push(slot)),
        entries_of(slots.push(slot)) == entries_of(slots).insert(slot.addr@, entry_of(slot)),
{
    let after = slots.push(slot);
    assert forall|a: int, b: int| 0 <= a < b < after.len() implies (#[trigger] after[a]).addr@ != (
    #[trigger] after[b]).addr@ by {
        if b < slots.len() {
            assert(slots[a].addr@ != slots[b].addr@);
        } else {
            assert(slots[a].addr@ != slot.addr@);
        }
    }
    let expected = entries_of(slots).insert(slot.addr@, entry_of(slot));
    assert forall|key: Key| entries_of(after).contains_key(key) <==> expected.contains_key(
        key,
    ) by {
        if has_key(after, key) {
            let j = index_of(after, key);
            if j < slots.len() {
                assert(slots[j].addr@ == key);
            }
        }
        if has_key(slots, key) {
            let j = index_of(slots, key);
            assert(after[j].addr@ == key);
        }
        if key == slot.addr@ {
            assert(after[slots.len() as int].addr@ == key);
        }
    }
    assert forall|key: Key| entries_of(after).contains_key(key) implies entries_of(after)[key]
        == expected[key] by {
        let j = index_of(after, key);
        lemma_entry_at(after, j);
        if j < slots.len() {
            assert(slots[j] == after[j]);
            lemma_entry_at(slots, j);
        }
    }
    assert(entries_of(after) =~= expected);
}

proof fn lemma_swap_remove(slots: Seq<Slot>, i: int)
    requires
        distinct(slots),
        0 <= i < slots.len(),
    ensures
        distinct(slots.update(i, slots.last()).drop_last()),
        entries_of(slots.update(i, slots.last()).drop_last()) == entries_of(slots).remove(
            slots[i].addr@,
        ),
{
    let after = slots.update(i, slots.last()).drop_last();
    let last = slots.len() - 1;
    assert forall|a: int| 0 <= a < after.len() implies #[trigger] after[a] == slots[if a == i {
        last
    } else {
        a
    }] by {}
    assert forall|a: int, b: int| 0 <= a < b < after.len() implies (#[trigger] after[a]).addr@ != (
    #[trigger] after[b]).addr@ by {
        let a0 = if a == i {
            last
        } else {
            a
        };
        let b0 = if b == i {
            last
        } else {
            b
        };
        if a0 < b0 {
            assert(slots[a0].addr@ != slots[b0].addr@);
        } else {
            assert(slots[b0].addr@ != slots[a0].addr@);
        }
    }
    let expected = entries_of(slots).remove(slots[i].addr@);
    assert forall|key: Key| entries_of(after).contains_key(key) <==> expected.contains_key(
        key,
    ) by {
        if has_key(after, key) {
            let j = index_of(after, key);
            let j0 = if j == i {
                last
            } else {
                j
            };
            assert(slots[j0].addr@ == key);
            if j0 < i {
                assert(slots[j0].addr@ != slots[i].addr@);
            }
            if i < j0 {
                assert(slots[i].addr@ != slots[j0].addr@);
            }
        }
        if has_key(slots, key) && key != slots[i].addr@ {
            let j = index_of(slots, key);
            if j == last {
                assert(after[i].addr@ == key);
            } else {
                assert(after[j].addr@ == key);
            }
        }
    }
    assert forall|key: Key| entries_of(after).contains_key(key) implies entries_of(after)[key]
        == expected[key] by {
        let j = index_of(after, key);
        lemma_entry_at(after, j);
        let j0 = if j == i {
            last
        } else {
            j
        };
        lemma_entry_at(slots, j0);
    }
    assert(entries_of(after) =~= expected);
}

fn find(slots: &Vec<Slot>, addr: &LookupAddr) -> (found: Option<usize>)
    ensures
        match found {
            Some(i) => i < slots@.len() && slots@[i as int].addr@ == addr@,
            None => !has_key(slots@, addr@),
        },
{
    let mut i: usize = 0;
    while i < slots.len()
        invariant
            i <= slots@.len(),
            forall|j: int| 0 <= j < i ==> (#[trigger] slots@[j]).addr@ != addr@,
        decreases slots@.len() - i,
    {
        if slots[i].addr.same(addr) {
            return Some(i);
        }
        i += 1;
    }
    None
}

impl View for Client {
    type V = Cache;

    closed spec fn view(&self) -> Cache {
        Cache {
            entries: entries_of(self.slots@),
            started: self.started as nat,
            idle: self.idle@,
        }
    }
}

impl Client {
    #[verifier::type_invariant]
    spec fn well_formed(self) -> bool {
        &&& distinct(self.slots@)
        &&& self@.inv()
    }

    /// The token that tells the discovery service who asks.
    pub closed spec fn context_token(&self) -> Seq<char> {
        self.context_token@
    }

    /// How many lookups may queue for a pending stream before further ones
    /// are held back.
    pub closed spec fn capacity(&self) -> usize {
        self.capacity
    }

    /// An empty cache that keeps unused entries for `idle`.
    pub fn new(context_token: &str, idle: Duration, capacity: usize) -> (client: Client)
        ensures
            client@ == (Cache { entries: Map::empty(), started: 0, idle: idle@ }),
            client@.inv(),
            client.context_token() == context_token@,
            client.capacity() == capacity,
    {
        let client = Client {
            context_token: String::from_str(context_token),
            idle,
            capacity,
            slots: Vec::new(),
            started: 0,
        };
        assert(entries_of(client.slots@) =~= Map::empty());
        client
    }

    /// The queue bound of pending streams.
    pub fn queue_capacity(&self) -> (capacity: usize)
        ensures
            capacity == self.capacity(),
    {
        self.capacity
    }

    /// Always ready to take a lookup.
    pub fn poll_ready(&self) -> (ready: bool)
        ensures
            ready,
    {
        true
    }

    /// The request that starts the discovery stream of `addr`.
    pub fn request(&self, addr: &LookupAddr) -> (request: GetDestination)
        ensures
            request.path@ == path_of(addr@),
            request.context_token@ == self.context_token(),
    {
        GetDestination { path: addr.to_path(), context_token: self.context_token.clone() }
    }

    fn take_slots(&mut self) -> (slots: Vec<Slot>)
        ensures
            slots@ == old(self).slots@,
            final(self).slots@.len() == 0,
            final(self).started == old(self).started,
            final(self).idle == old(self).idle,
            final(self).context_token == old(self).context_token,
            final(self).capacity == old(self).capacity,
    {
        proof {
            use_type_invariant(&*self);
        }
        let mut slots: Vec<Slot> = Vec::new();
        core::mem::swap(&mut self.slots, &mut slots);
        slots
    }

    fn put_slots(&mut self, slots: Vec<Slot>)
        requires
            distinct(slots@),
            (Cache {
                entries: entries_of(slots@),
                started: old(self).started as nat,
                idle: old(self).idle@,
            }).inv(),
        ensures
            final(self).slots@ == slots@,
            final(self).started == old(self).started,
            final(self).idle == old(self).idle,
            final(self).context_token == old(self).context_token,
            final(self).capacity == old(self).capacity,
    {
        let mut slots = slots;
        core::mem::swap(&mut self.slots, &mut slots);
    }

    /// Whether the counters leave room for one more lookup of `addr`.
    pub fn has_room(&self, addr: &LookupAddr) -> (room: bool)
        ensures
            room == self@.has_room(addr@),
    {
        proof {
            use_type_invariant(self);
        }
        match find(&self.slots, addr) {
            Some(i) => {
                proof {
                    lemma_entry_at(self.slots@, i as int);
                }
                self.slots[i].handles < u64::MAX
            },
            None => self.started < u64::MAX,
        }
    }
}

impl Client {
    /// Replaces the slot at `i` by one for the same address.
    fn store(&mut self, i: usize, slot: Slot)
        requires
            i < old(self).slots@.len(),
            slot.addr@ == old(self).slots@[i as int].addr@,
            old(self)@.with_entry(slot.addr@, entry_of(slot)).inv(),
        ensures
            final(self)@ == old(self)@.with_entry(slot.addr@, entry_of(slot)),
            final(self).context_token == old(self).context_token,
            final(self).capacity == old(self).capacity,
    {
        proof {
            use_type_invariant(&*self);
            lemma_update(self.slots@, i as int, slot);
        }
        let mut slots = self.take_slots();
        slots.set(i, slot);
        self.put_slots(slots);
    }

    /// Looks up the profile of `addr` at the time `now`.
    ///
    /// The first lookup of an address makes its entry and asks for its
    /// stream to be started. Every later lookup reuses the entry, so that an
    /// address never has two streams at once: it waits while the stream is
    /// pending, gets a receiver once it is established, and gets no profile
    /// when it has failed. Every answer but the last holds a reference to the
    /// entry.
    pub fn lookup(&mut self, addr: &LookupAddr, now: Duration) -> (lookup: Lookup)
        requires
            old(self)@.has_room(addr@),
        ensures
            final(self)@ == old(self)@.lookup(addr@, now@),
            lookup@ == old(self)@.lookup_outcome(addr@),
            final(self)@.inv(),
            final(self).context_token() == old(self).context_token(),
            final(self).capacity() == old(self).capacity(),
    {
        proof {
            use_type_invariant(&*self);
            operations_keep_invariant(self@, addr@, 0, Phase::Pending, now@);
        }
        match find(&self.slots, addr) {
            None => {
                let stream = self.started;
                let slot = Slot {
                    addr: addr.duplicate(),
                    stream,
                    phase: Phase::Pending,
                    handles: 1,
                    idle_since: now,
                };
                proof {
                    lemma_push(self.slots@, slot);
                }
                let mut slots = self.take_slots();
                slots.push(slot);
                self.started = stream + 1;
                self.put_slots(slots);
                Lookup::Start(Handle { addr: addr.duplicate(), stream })
            },
            Some(i) => {
                proof {
                    lemma_entry_at(self.slots@, i as int);
                }
                let stream = self.slots[i].stream;
                let handles = self.slots[i].handles;
                let idle_since = self.slots[i].idle_since;
                match self.slots[i].phase {
                    Phase::Failed => {
                        let slot = Slot {
                            addr: addr.duplicate(),
                            stream,
                            phase: Phase::Failed,
                            handles,
                            idle_since: if handles == 0 {
                                now
                            } else {
                                idle_since
                            },
                        };
                        self.store(i, slot);
                        Lookup::Unavailable
                    },
                    phase => {
                        let slot = Slot {
                            addr: addr.duplicate(),
                            stream,
                            phase,
                            handles: handles + 1,
                            idle_since,
                        };
                        self.store(i, slot);
                        let handle = Handle { addr: addr.duplicate(), stream };
                        match phase {
                            Phase::Pending => Lookup::Wait(handle),
                            _ => Lookup::Ready(Receiver(handle)),
                        }
                    },
                }
            },
        }
    }

    /// Records that the stream `stream` of `addr` changed from pending to
    /// `phase`, and returns how many lookups were waiting for it.
    fn resolve(&mut self, addr: &LookupAddr, stream: u64, phase: Phase) -> (waiting: u64)
        ensures
            final(self)@ == old(self)@.resolved(addr@, stream as nat, phase),
            waiting == old(self)@.waiting(addr@, stream as nat),
            final(self)@.inv(),
            final(self).context_token() == old(self).context_token(),
            final(self).capacity() == old(self).capacity(),
    {
        proof {
            use_type_invariant(&*self);
            operations_keep_invariant(self@, addr@, stream as nat, phase, 0);
        }
        match find(&self.slots, addr) {
            None => 0,
            Some(i) => {
                proof {
                    lemma_entry_at(self.slots@, i as int);
                }
                let handles = self.slots[i].handles;
                if self.slots[i].stream != stream {
                    return 0;
                }
                match self.slots[i].phase {
                    Phase::Pending => {
                        let slot = Slot {
                            addr: addr.duplicate(),
                            stream,
                            phase,
                            handles,
                            idle_since: self.slots[i].idle_since,
                        };
                        self.store(i, slot);
                        handles
                    },
                    _ => 0,
                }
            },
        }
    }

    /// The stream `stream` of `addr` is established. Every lookup that waits
    /// for it can now be answered with a receiver of this one stream; the
    /// result is their number. A stream that is not the pending stream of
    /// `addr` is ignored.
    pub fn established(&mut self, addr: &LookupAddr, stream: u64) -> (waiting: u64)
        ensures
            final(self)@ == old(self)@.resolved(addr@, stream as nat, Phase::Ready),
            waiting == old(self)@.waiting(addr@, stream as nat),
            final(self)@.inv(),
            final(self).context_token() == old(self).context_token(),
            final(self).capacity() == old(self).capacity(),
    {
        self.resolve(addr, stream, Phase::Ready)
    }

    /// The stream `stream` of `addr` has failed for good: the discovery
    /// client gave up on it. Every lookup that waits for it is to be answered
    /// with no profile; the result is their number. The entry stays until it
    /// idles out, and answers lookups with no profile until then. A stream
    /// that is not the pending stream of `addr` is ignored.
    pub fn failed(&mut self, addr: &LookupAddr, stream: u64) -> (waiting: u64)
        ensures
            final(self)@ == old(self)@.resolved(addr@, stream as nat, Phase::Failed),
            waiting == old(self)@.waiting(addr@, stream as nat),
            final(self)@.inv(),
            final(self).context_token() == old(self).context_token(),
            final(self).capacity() == old(self).capacity(),
    {
        self.resolve(addr, stream, Phase::Failed)
    }

    /// The stream `stream` of `addr` reported an error, and the recovery
    /// policy was asked about it: `recovery` is the backoff after which to
    /// try again, or the error on which the policy gave up. An error that the
    /// policy recovers from changes nothing in the cache. Only an error that
    /// it gives up on makes the stream fail.
    pub fn recover<B, E>(&mut self, addr: &LookupAddr, stream: u64, recovery: Result<B, E>) -> (r:
        Recovered<B, E>)
        ensures
            match recovery {
                Ok(backoff) => r == Recovered::<B, E>::Retry(backoff) && final(self)@ == old(
                    self,
                )@,
                Err(error) => r == (Recovered::<B, E>::Failed {
                    error,
                    waiting: old(self)@.waiting(addr@, stream as nat) as u64,
                }) && final(self)@ == old(self)@.resolved(addr@, stream as nat, Phase::Failed),
            },
            final(self)@.inv(),
            final(self).context_token() == old(self).context_token(),
            final(self).capacity() == old(self).capacity(),
    {
        proof {
            use_type_invariant(&*self);
        }
        match recovery {
            Ok(backoff) => Recovered::Retry(backoff),
            Err(error) => {
                let waiting = self.failed(addr, stream);
                Recovered::Failed { error, waiting }
            },
        }
    }

    /// Whether the counters leave room for one more receiver of the entry
    /// of `receiver`.
    pub fn can_clone(&self, receiver: &Receiver) -> (room: bool)
        ensures
            room == (self@.holds(receiver@.key, receiver@.stream)
                ==> self@.entries[receiver@.key].handles < u64::MAX),
    {
        proof {
            use_type_invariant(self);
        }
        match find(&self.slots, &receiver.0.addr) {
            Some(i) => {
                proof {
                    lemma_entry_at(self.slots@, i as int);
                }
                self.slots[i].stream != receiver.0.stream || self.slots[i].handles < u64::MAX
            },
            None => true,
        }
    }

    /// Makes a second receiver from a receiver. This counts one more
    /// reference to the entry and starts no stream.
    pub fn clone_receiver(&mut self, receiver: &Receiver) -> (clone: Receiver)
        requires
            old(self)@.holds(receiver@.key, receiver@.stream) ==> old(
                self,
            )@.entries[receiver@.key].handles < u64::MAX,
        ensures
            final(self)@ == old(self)@.cloned(receiver@.key, receiver@.stream),
            clone@ == receiver@,
            final(self)@.inv(),
            final(self).context_token() == old(self).context_token(),
            final(self).capacity() == old(self).capacity(),
    {
        proof {
            use_type_invariant(&*self);
            operations_keep_invariant(self@, receiver@.key, receiver@.stream, Phase::Ready, 0);
        }
        let addr = &receiver.0.addr;
        let stream = receiver.0.stream;
        match find(&self.slots, addr) {
            None => {},
            Some(i) => {
                proof {
                    lemma_entry_at(self.slots@, i as int);
                }
                if self.slots[i].stream == stream {
                    let slot = Slot {
                        addr: addr.duplicate(),
                        stream,
                        phase: self.slots[i].phase,
                        handles: self.slots[i].handles + 1,
                        idle_since: self.slots[i].idle_since,
                    };
                    self.store(i, slot);
                }
            },
        }
        Receiver(Handle { addr: addr.duplicate(), stream })
    }

    /// Gives a reference back at the time `now`. When it was the last one,
    /// the entry is unused from now on and will idle out. A reference to an
    /// entry that is gone changes nothing.
    pub fn release(&mut self, handle: Handle, now: Duration)
        ensures
            final(self)@ == old(self)@.released(handle@.key, handle@.stream, now@),
            final(self)@.inv(),
            final(self).context_token() == old(self).context_token(),
            final(self).capacity() == old(self).capacity(),
    {
        proof {
            use_type_invariant(&*self);
            operations_keep_invariant(self@, handle@.key, handle@.stream, Phase::Ready, now@);
        }
        let Handle { addr, stream } = handle;
        match find(&self.slots, &addr) {
            None => {},
            Some(i) => {
                proof {
                    lemma_entry_at(self.slots@, i as int);
                }
                let handles = self.slots[i].handles;
                if self.slots[i].stream == stream && handles > 0 {
                    let slot = Slot {
                        addr,
                        stream,
                        phase: self.slots[i].phase,
                        handles: handles - 1,
                        idle_since: if handles == 1 {
                            now
                        } else {
                            self.slots[i].idle_since
                        },
                    };
                    self.store(i, slot);
                }
            },
        }
    }
}

impl Client {
    /// Asks again for a lookup that waits with the reference `handle`. While
    /// the stream is pending the lookup keeps waiting. Once it is
    /// established the reference becomes a receiver. When it has failed, the
    /// lookup ends with no profile and the reference is not kept, so that the
    /// entry can idle out.
    pub fn poll(&mut self, handle: Handle, now: Duration) -> (lookup: Lookup)
        ensures
            final(self)@ == old(self)@.polled(handle@.key, handle@.stream, now@),
            lookup@ == old(self)@.poll_outcome(handle@.key, handle@.stream),
            final(self)@.inv(),
            final(self).context_token() == old(self).context_token(),
            final(self).capacity() == old(self).capacity(),
    {
        proof {
            use_type_invariant(&*self);
        }
        match find(&self.slots, &handle.addr) {
            None => Lookup::Unavailable,
            Some(i) => {
                proof {
                    lemma_entry_at(self.slots@, i as int);
                }
                if self.slots[i].stream != handle.stream {
                    return Lookup::Unavailable;
                }
                match self.slots[i].phase {
                    Phase::Pending => Lookup::Wait(handle),
                    Phase::Ready => Lookup::Ready(Receiver(handle)),
                    Phase::Failed => {
                        self.release(handle, now);
                        Lookup::Unavailable
                    },
                }
            },
        }
    }

    /// Removes the entries that are due at the time `now`: those that
    /// nothing refers to and that have been unused for the idle time. Every
    /// other entry stays as it is. The result lists what was removed, each
    /// entry once.
    pub fn evict_idle(&mut self, now: Duration) -> (evicted: Vec<Evicted>)
        ensures
            final(self)@ == old(self)@.evicted(now@),
            forall|i: int|
                0 <= i < evicted@.len() ==> old(self)@.expired((#[trigger] evicted@[i]).addr@, now@)
                    && old(self)@.entries[evicted@[i].addr@].stream == evicted@[i].stream,
            forall|k: Key|
                old(self)@.expired(k, now@) ==> exists|i: int|
                    0 <= i < evicted@.len() && (#[trigger] evicted@[i]).addr@ == k,
            forall|i: int, j: int|
                0 <= i < j < evicted@.len() ==> (#[trigger] evicted@[i]).addr@ != (
                #[trigger] evicted@[j]).addr@,
            final(self)@.inv(),
            final(self).context_token() == old(self).context_token(),
            final(self).capacity() == old(self).capacity(),
    {
        proof {
            use_type_invariant(&*self);
            operations_keep_invariant(self@, arbitrary(), 0, Phase::Pending, now@);
        }
        let ghost before = self@;
        let idle = self.idle;
        let mut slots = self.take_slots();
        let mut evicted: Vec<Evicted> = Vec::new();
        let ghost mut removed: Set<Key> = Set::empty();
        let mut i: usize = 0;
        assert(before.entries.remove_keys(removed) =~= before.entries);
        while i < slots.len()
            invariant
                i <= slots@.len(),
                distinct(slots@),
                idle@ == before.idle,
                entries_of(slots@) == before.entries.remove_keys(removed),
                forall|k: Key| removed.contains(k) ==> before.expired(k, now@),
                forall|j: int| 0 <= j < i ==> !before.expired((#[trigger] slots@[j]).addr@, now@),
                forall|k: Key|
                    removed.contains(k) <==> exists|e: int|
                        0 <= e < evicted@.len() && (#[trigger] evicted@[e]).addr@ == k,
                forall|e: int|
                    0 <= e < evicted@.len() ==> before.entries.contains_key(
                        (#[trigger] evicted@[e]).addr@,
                    ) && before.entries[evicted@[e].addr@].stream == evicted@[e].stream,
                forall|a: int, b: int|
                    0 <= a < b < evicted@.len() ==> (#[trigger] evicted@[a]).addr@ != (
                    #[trigger] evicted@[b]).addr@,
            decreases slots@.len() - i,
        {
            proof {
                lemma_entry_at(slots@, i as int);
            }
            let ghost key = slots@[i as int].addr@;
            assert(before.entries.contains_key(key) && before.entries[key] == entry_of(
                slots@[i as int],
            ));
            let due = slots[i].handles == 0 && now.reaches(&slots[i].idle_since, &idle);
            assert(due == before.expired(key, now@));
            if due {
                proof {
                    lemma_swap_remove(slots@, i as int);
                    assert(!removed.contains(key));
                    assert(before.entries.remove_keys(removed).remove(key)
                        =~= before.entries.remove_keys(removed.insert(key)));
                }
                let ghost listed = evicted@;
                let slot = slots.swap_remove(i);
                evicted.push(Evicted { addr: slot.addr, stream: slot.stream });
                proof {
                    removed = removed.insert(key);
                    assert forall|k: Key| removed.contains(k) implies exists|e: int|
                        0 <= e < evicted@.len() && (#[trigger] evicted@[e]).addr@ == k by {
                        if k == key {
                            assert(evicted@[listed.len() as int].addr@ == k);
                        } else {
                            let e = choose|e: int|
                                0 <= e < listed.len() && (#[trigger] listed[e]).addr@ == k;
                            assert(evicted@[e].addr@ == k);
                        }
                    }
                    assert forall|k: Key|
                        (exists|e: int|
                            0 <= e < evicted@.len() && (#[trigger] evicted@[e]).addr@
                                == k) implies removed.contains(k) by {
                        let e = choose|e: int|
                            0 <= e < evicted@.len() && (#[trigger] evicted@[e]).addr@ == k;
                        if e < listed.len() {
                            assert(listed[e].addr@ == k);
                        }
                    }
                    assert forall|a: int, b: int| 0 <= a < b < evicted@.len() implies (
                    #[trigger] evicted@[a]).addr@ != (#[trigger] evicted@[b]).addr@ by {
                        if b == listed.len() {
                            assert(listed[a].addr@ == evicted@[a].addr@);
                        } else {
                            assert(listed[a].addr@ != listed[b].addr@);
                        }
                    }
                }
            } else {
                i += 1;
            }
        }
        proof {
            let due = Set::new(|k: Key| before.expired(k, now@));
            assert forall|k: Key| due.contains(k) implies removed.contains(k) by {
                if !removed.contains(k) {
                    assert(entries_of(slots@).contains_key(k));
                    let j = index_of(slots@, k);
                    assert(!before.expired(slots@[j].addr@, now@));
                }
            }
            assert(removed =~= due);
            assert forall|e: int| 0 <= e < evicted@.len() implies before.expired(
                (#[trigger] evicted@[e]).addr@,
                now@,
            ) by {
                assert(removed.contains(evicted@[e].addr@));
            }
            assert forall|k: Key| before.expired(k, now@) implies exists|e: int|
                0 <= e < evicted@.len() && (#[trigger] evicted@[e]).addr@ == k by {
                assert(removed.contains(k));
            }
        }
        self.put_slots(slots);
        evicted
    }
}

} // verus!
