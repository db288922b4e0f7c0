//! The profile cache: fetched profiles by key, each with the clock reading of
//! its fetch, in front of a slow upstream.
//!
//! A value younger than the time to live is served as it is. An older one is
//! still served, whoever asks, together with the task to refresh it. A key
//! that is not cached yields a task for one authorized caller only: whoever
//! claims its marker. Whatever is written is also queued for the refresh
//! worker, which comes back with a task for it when its time is up.
//!
//! A task is work on offer, not a fetch. Its fetch goes out only once the
//! task is started, and starting claims the key's marker or declines: of all
//! the tasks for one key, wherever they come from, one at a time leads to a
//! fetch. The marker is given up when the end of that fetch is reported.
//!
//! [`CacheState`] is the cache as a mathematical value, and its functions say
//! what each operation does. [`ProfileCache`] is the cache itself.

use crate::clock::{elapsed, elapsed_nanos, remaining, time_left, Span};
use crate::dash::{
    claims, claims_insert, claims_new, claims_release, profiles, profiles_get, profiles_insert,
    profiles_len, profiles_new, profiles_remove, profiles_stamps, MAX_CAPACITY_HINT,
};
use crate::linux_do_card::model::UserInfo;
use dashmap::DashMap;
use foldhash::fast::RandomState;
use std::collections::VecDeque;
use std::sync::Arc;
use vstd::prelude::*;

verus! {

/// Seconds for which a fetched value counts as fresh.
pub const CACHE_TTL: u64 = 300;

/// The ceiling on the number of keys: the cache is cleaned and the refresh
/// queue is cut once they hold more. For the queue this is twice the length
/// that it is cut down to.
pub const DESIRED_MAX_KEY_COUNT: usize = 5120;

/// Keys expected to be in flight at one time.
pub const EXPECTED_IN_FLIGHT: usize = 128;

/// A value fetched at `fetched_at` is fresh at `now` while no more than `ttl`
/// seconds have passed since. A reading before the fetch counts as the
/// moment of the fetch.
pub open spec fn is_fresh(fetched_at: u64, now: u64, ttl: u64) -> bool {
    elapsed(now, fetched_at) <= ttl * crate::clock::NANOS_PER_SEC
}

/// Whether a value fetched at `fetched_at` is fresh at `now`.
pub fn fresh_at(fetched_at: u64, now: u64, ttl: u64) -> (fresh: bool)
    ensures
        fresh == is_fresh(fetched_at, now, ttl),
{
    time_left(ttl, elapsed_nanos(now, fetched_at)).is_some()
}

/// The entries that are fresh at `now`.
pub open spec fn retained(entries: Map<Seq<char>, (UserInfo, u64)>, ttl: u64, now: u64) -> Map<
    Seq<char>,
    (UserInfo, u64),
> {
    entries.restrict(
        Set::new(|key: Seq<char>| entries.contains_key(key) && is_fresh(entries[key].1, now, ttl)),
    )
}

/// Key and clock reading of each item of a queue.
pub open spec fn item_views(items: Seq<(String, u64)>) -> Seq<(Seq<char>, u64)> {
    items.map_values(|item: (String, u64)| (item.0@, item.1))
}

/// A map from keys to fetched values, each with the reading of its fetch.
pub struct Cache {
    inner: DashMap<String, (Arc<UserInfo>, u64), RandomState>,
}

impl View for Cache {
    type V = Map<Seq<char>, (UserInfo, u64)>;

    closed spec fn view(&self) -> Map<Seq<char>, (UserInfo, u64)> {
        profiles(self.inner)
    }
}

impl Cache {
    /// An empty cache with room reserved for `capacity` entries. The
    /// capacity is a hint only, and one beyond what can be reserved at once
    /// is cut down to that.
    pub fn with_capacity(capacity: usize) -> (cache: Self)
        ensures
            cache@ == Map::<Seq<char>, (UserInfo, u64)>::empty(),
    {
        let hint: usize = if capacity <= MAX_CAPACITY_HINT {
            capacity
        } else {
            MAX_CAPACITY_HINT
        };
        Cache { inner: profiles_new(hint) }
    }

    /// Keeps the entries that are fresh at `now` under a time to live of
    /// `target_ttl` seconds, and removes all others.
    pub fn retain_ttl(&mut self, target_ttl: u64, now: u64)
        ensures
            final(self)@ == retained(old(self)@, target_ttl, now),
    {
        let ghost before = profiles(self.inner);
        let stamps = profiles_stamps(&self.inner);
        let mut i: usize = 0;
        while i < stamps.len()
            invariant
                i <= stamps@.len(),
                forall|j: int|
                    0 <= j < stamps@.len() ==> before.contains_key((#[trigger] stamps@[j]).0@)
                        && before[stamps@[j].0@].1 == stamps@[j].1,
                forall|j: int, k: int|
                    0 <= j < k < stamps@.len() ==> (#[trigger] stamps@[j]).0@ != (
                    #[trigger] stamps@[k]).0@,
                forall|key: Seq<char>| #[trigger]
                    profiles(self.inner).dom().contains(key) ==> before.dom().contains(key)
                        && profiles(self.inner)[key] == before[key],
                forall|j: int|
                    0 <= j < stamps@.len() ==> (profiles(self.inner).contains_key(
                        (#[trigger] stamps@[j]).0@,
                    ) <==> !(j < i && !is_fresh(stamps@[j].1, now, target_ttl))),
            decreases stamps@.len() - i,
        {
            let ghost held = profiles(self.inner);
            if !fresh_at(stamps[i].1, now, target_ttl) {
                profiles_remove(&mut self.inner, stamps[i].0.as_str());
                proof {
                    let key = stamps@[i as int].0@;
                    assert(profiles(self.inner) == held.remove(key));
                    assert forall|other: Seq<char>| #[trigger]
                        profiles(self.inner).dom().contains(other) implies before.dom().contains(
                        other,
                    ) && profiles(self.inner)[other] == before[other] by {
                        assert(held.dom().contains(other));
                    }
                    assert forall|j: int| 0 <= j < stamps@.len() implies (profiles(
                        self.inner,
                    ).contains_key((#[trigger] stamps@[j]).0@) <==> !(j < i + 1 && !is_fresh(
                        stamps@[j].1,
                        now,
                        target_ttl,
                    ))) by {
                        if j < i {
                            assert(stamps@[j].0@ != stamps@[i as int].0@);
                        } else if j > i {
                            assert(stamps@[i as int].0@ != stamps@[j].0@);
                        }
                    }
                }
            }
            i += 1;
        }
        proof {
            let after = profiles(self.inner);
            let kept = retained(before, target_ttl, now);
            assert forall|key: Seq<char>| after.dom().contains(key) <==> kept.dom().contains(
                key,
            ) by {
                if before.contains_key(key) {
                    let j = choose|j: int|
                        0 <= j < stamps@.len() && (#[trigger] stamps@[j]).0@ == key;
                    assert(before[stamps@[j].0@].1 == stamps@[j].1);
                    assert(after.contains_key(stamps@[j].0@) <==> !(j < i && !is_fresh(
                        stamps@[j].1,
                        now,
                        target_ttl,
                    )));
                } else {
                    assert(!after.dom().contains(key));
                }
            }
            assert(after =~= kept);
        }
    }

    /// The entry under `key`, if there is one.
    pub fn get(&self, key: &str) -> (found: Option<(Arc<UserInfo>, u64)>)
        ensures
            found is Some <==> self@.contains_key(key@),
            found matches Some(entry) ==> (*entry.0, entry.1) == self@[key@],
    {
        profiles_get(&self.inner, key)
    }

    /// Stores a value and the reading of its fetch under `key`, replacing
    /// what was there.
    pub fn insert(&mut self, key: String, value: Arc<UserInfo>, fetched_at: u64)
        ensures
            final(self)@ == old(self)@.insert(key@, (*value, fetched_at)),
    {
        profiles_insert(&mut self.inner, key, value, fetched_at)
    }

    /// The number of entries, of which there are finitely many.
    pub fn len(&self) -> (len: usize)
        ensures
            self@.dom().finite(),
            len == self@.dom().len(),
    {
        profiles_len(&self.inner)
    }
}

/// Work that the cache hands out: a fetch of `key` from upstream. A task is
/// started with `start_fetch`, which says whether the fetch may go out, and
/// its end is reported with `finish_fetch`. A task cannot be copied.
#[derive(Debug, PartialEq, Eq)]
pub struct FetchTask {
    key: String,
    claimed: bool,
}

impl View for FetchTask {
    type V = (Seq<char>, bool);

    closed spec fn view(&self) -> (Seq<char>, bool) {
        (self.key@, self.claimed)
    }
}

impl FetchTask {
    /// The key to fetch.
    pub fn key(&self) -> (key: &str)
        ensures
            key@ == self@.0,
    {
        self.key.as_str()
    }

    /// Whether the task holds the key's in-flight marker.
    pub fn is_claimed(&self) -> (claimed: bool)
        ensures
            claimed == self@.1,
    {
        self.claimed
    }
}

/// The task of an optional task, as a value.
pub open spec fn task_of(task: Option<FetchTask>) -> Option<(Seq<char>, bool)> {
    match task {
        Some(task) => Some(task@),
        None => None,
    }
}

/// Housekeeping that has fallen due after a write. It is not done by the
/// write itself, so that the writer is not held up.
#[derive(Clone, Copy, Debug, PartialEq, Eq, Structural)]
pub struct Upkeep {
    /// The cache is over its ceiling: call `retain_fresh`.
    pub retain: bool,
    /// The refresh queue is over its ceiling: call `truncate_queue`.
    pub truncate: bool,
}

/// What the refresh worker does next: sleep for `sleep`, then start
/// `refresh` if there is one, then ask again.
#[derive(Debug, PartialEq, Eq)]
pub struct RefreshStep {
    pub sleep: Span,
    pub refresh: Option<FetchTask>,
}

/// The profile cache as a value.
pub struct CacheState {
    /// The cached values, each with the reading of its fetch.
    pub entries: Map<Seq<char>, (UserInfo, u64)>,
    /// The keys that are being fetched.
    pub in_flight: Set<Seq<char>>,
    /// What the refresh worker has before it: key and reading of each write,
    /// the latest write first.
    pub queue: Seq<(Seq<char>, u64)>,
    /// The refresh worker has been started.
    pub worker_started: bool,
}

impl CacheState {
    /// Neither cached nor being fetched.
    pub open spec fn is_cold(self, key: Seq<char>) -> bool {
        !self.entries.contains_key(key) && !self.in_flight.contains(key)
    }

    /// Cached, and older than the time to live.
    pub open spec fn is_stale(self, key: Seq<char>, now: u64) -> bool {
        self.entries.contains_key(key) && !is_fresh(self.entries[key].1, now, CACHE_TTL)
    }

    /// A lookup: the new state, the value served, and the task that the
    /// caller is left with.
    ///
    /// A cached value is always served. If it is stale, the caller, whoever
    /// it is, is also left with the task to refresh it; the task holds no
    /// marker yet, and the lookup changes nothing. A key that is not cached
    /// yields no value. An authorized caller then claims the key's marker and
    /// is left with the task that holds it, unless the marker is already
    /// claimed. An unauthorized caller never claims and is left with nothing.
    pub open spec fn get_or_fetch(self, key: Seq<char>, authorized: bool, now: u64) -> (
        CacheState,
        Option<UserInfo>,
        Option<(Seq<char>, bool)>,
    ) {
        if self.entries.contains_key(key) {
            (
                self,
                Some(self.entries[key].0),
                if self.is_stale(key, now) {
                    Some((key, false))
                } else {
                    None
                },
            )
        } else if !authorized || self.in_flight.contains(key) {
            (self, None, None)
        } else {
            (CacheState { in_flight: self.in_flight.insert(key), ..self }, None, Some((key, true)))
        }
    }

    /// The start of a task: the new state, and the task if its fetch may go
    /// out. A task that holds its key's marker goes ahead. One that holds
    /// none claims the marker if it is free, and is declined if it is not:
    /// the key is being fetched already.
    pub open spec fn start_fetch(self, task: (Seq<char>, bool)) -> (
        CacheState,
        Option<(Seq<char>, bool)>,
    ) {
        if task.1 {
            (self, Some(task))
        } else if self.in_flight.contains(task.0) {
            (self, None)
        } else {
            (CacheState { in_flight: self.in_flight.insert(task.0), ..self }, Some((task.0, true)))
        }
    }

    /// A lookup whose task is started at once: the new state, the value
    /// served, and the task whose fetch goes out.
    pub open spec fn get_and_start(self, key: Seq<char>, authorized: bool, now: u64) -> (
        CacheState,
        Option<UserInfo>,
        Option<(Seq<char>, bool)>,
    ) {
        let found = self.get_or_fetch(key, authorized, now);
        match found.2 {
            Some(task) => (found.0.start_fetch(task).0, found.1, found.0.start_fetch(task).1),
            None => found,
        }
    }

    /// The end of a fetch. The marker that the task holds is given up,
    /// whether or not the fetch brought a value; a value is stored. No other
    /// marker is touched.
    pub open spec fn finish_fetch(self, task: (Seq<char>, bool), fetched: Option<UserInfo>) -> CacheState {
        let released = if task.1 {
            self.release(task.0)
        } else {
            self
        };
        match fetched {
            Some(value) => released.store(value),
            None => released,
        }
    }

    /// Gives a key's marker up.
    pub open spec fn release(self, key: Seq<char>) -> CacheState {
        CacheState { in_flight: self.in_flight.remove(key), ..self }
    }

    /// Stores a fetched value under its user name: the value replaces what
    /// was cached, and the write is put at the front of the refresh queue. A
    /// value without the reading of its fetch is ignored.
    pub open spec fn store(self, value: UserInfo) -> CacheState {
        match value.created {
            None => self,
            Some(fetched_at) => {
                let key = value.user.username@;
                CacheState {
                    entries: self.entries.insert(key, (value, fetched_at)),
                    queue: seq![(key, fetched_at)] + self.queue,
                    ..self
                }
            },
        }
    }

    /// Takes a fetched value in, under its user name: whatever is in flight
    /// under that name ends with this write, so the marker of the name is
    /// given up, and the value is stored. A value without the reading of its
    /// fetch is ignored.
    pub open spec fn write_cache(self, value: UserInfo) -> CacheState {
        match value.created {
            None => self,
            Some(_) => self.release(value.user.username@).store(value),
        }
    }

    /// The housekeeping that is due in this state.
    pub open spec fn upkeep(self) -> Upkeep {
        Upkeep {
            retain: self.entries.dom().len() > DESIRED_MAX_KEY_COUNT,
            truncate: self.queue.len() > DESIRED_MAX_KEY_COUNT,
        }
    }

    /// Drops every entry that is no longer fresh.
    pub open spec fn retain_fresh(self, now: u64) -> CacheState {
        CacheState { entries: retained(self.entries, CACHE_TTL, now), ..self }
    }

    /// Cuts a refresh queue that has grown beyond the ceiling, which is twice
    /// its target length, down to that target: half the ceiling. The oldest
    /// writes are dropped. A shorter queue is left alone.
    pub open spec fn truncate_queue(self) -> CacheState {
        if self.queue.len() > DESIRED_MAX_KEY_COUNT {
            CacheState { queue: self.queue.take(DESIRED_MAX_KEY_COUNT as int / 2), ..self }
        } else {
            self
        }
    }

    /// One step of the refresh worker: the new state, the nanoseconds to
    /// sleep, and the task to run after the sleep.
    ///
    /// The oldest write leaves the queue. The worker sleeps until that
    /// write's value reaches the time to live, not at all if it already has,
    /// and is then to start the task for its key, which holds no marker yet.
    /// On an empty queue the worker sleeps for one time to live and has no
    /// task.
    pub open spec fn next_refresh(self, now: u64) -> (CacheState, nat, Option<(Seq<char>, bool)>) {
        if self.queue.len() == 0 {
            (self, (CACHE_TTL * crate::clock::NANOS_PER_SEC) as nat, None)
        } else {
            let (key, fetched_at) = self.queue.last();
            (
                CacheState { queue: self.queue.drop_last(), ..self },
                match remaining(CACHE_TTL, elapsed(now, fetched_at)) {
                    Some(left) => left,
                    None => 0,
                },
                Some((key, false)),
            )
        }
    }

    /// Whether a lookup of `key` leaves its caller with a task: on a cached
    /// key if the value is stale, on any other if the caller is authorized.
    pub open spec fn calls_for_fetch(self, key: Seq<char>, authorized: bool, now: u64) -> bool {
        if self.entries.contains_key(key) {
            self.is_stale(key, now)
        } else {
            authorized
        }
    }

    /// The number of fetches that go out in a run of lookups of one key, the
    /// task of each started at once. Each lookup has its own caller and its
    /// own time.
    pub open spec fn fetches(self, key: Seq<char>, lookups: Seq<(bool, u64)>) -> nat
        decreases lookups.len(),
    {
        if lookups.len() == 0 {
            0
        } else {
            let (authorized, now) = lookups.first();
            let step = self.get_and_start(key, authorized, now);
            (if step.2 is Some {
                1nat
            } else {
                0nat
            }) + step.0.fetches(key, lookups.drop_first())
        }
    }

    /// The state after a run of lookups of one key, the task of each started
    /// at once.
    pub open spec fn after_lookups(self, key: Seq<char>, lookups: Seq<(bool, u64)>) -> CacheState
        decreases lookups.len(),
    {
        if lookups.len() == 0 {
            self
        } else {
            let (authorized, now) = lookups.first();
            self.get_and_start(key, authorized, now).0.after_lookups(key, lookups.drop_first())
        }
    }

    /// The state after an event.
    pub open spec fn after(self, event: CacheEvent) -> CacheState {
        match event {
            CacheEvent::Lookup { key, authorized, now } => self.get_or_fetch(
                key,
                authorized,
                now,
            ).0,
            CacheEvent::Start { task } => self.start_fetch(task).0,
            CacheEvent::Finish { task, fetched } => self.finish_fetch(task, fetched),
            CacheEvent::Write { value } => self.write_cache(value),
            CacheEvent::Refresh { now } => self.next_refresh(now).0,
            CacheEvent::Retain { now } => self.retain_fresh(now),
            CacheEvent::Truncate => self.truncate_queue(),
        }
    }

    /// Whether the event sends a fetch of `key` on its way: a lookup that
    /// claims the key's marker, or the start of a task that does.
    pub open spec fn begins_fetch(self, event: CacheEvent, key: Seq<char>) -> bool {
        match event {
            CacheEvent::Lookup { key: asked, authorized, now } => asked == key
                && self.get_or_fetch(asked, authorized, now).2 == Some((key, true)),
            CacheEvent::Start { task } => task == (key, false) && self.start_fetch(task).1
                is Some,
            _ => false,
        }
    }

    /// The state after a run of events.
    pub open spec fn after_all(self, events: Seq<CacheEvent>) -> CacheState
        decreases events.len(),
    {
        if events.len() == 0 {
            self
        } else {
            self.after(events.first()).after_all(events.drop_first())
        }
    }

    /// The number of fetches of `key` that a run of events sends on their
    /// way.
    pub open spec fn fetches_begun(self, events: Seq<CacheEvent>, key: Seq<char>) -> nat
        decreases events.len(),
    {
        if events.len() == 0 {
            0
        } else {
            (if self.begins_fetch(events.first(), key) {
                1nat
            } else {
                0nat
            }) + self.after(events.first()).fetches_begun(events.drop_first(), key)
        }
    }

    /// One if `key` is in flight, zero if it is not.
    pub open spec fn in_flight_count(self, key: Seq<char>) -> nat {
        if self.in_flight.contains(key) {
            1
        } else {
            0
        }
    }
}

/// Something that happens to the cache.
pub enum CacheEvent {
    /// A lookup of a key.
    Lookup { key: Seq<char>, authorized: bool, now: u64 },
    /// The start of a task.
    Start { task: (Seq<char>, bool) },
    /// The end of a task's fetch, with the value fetched or without one.
    Finish { task: (Seq<char>, bool), fetched: Option<UserInfo> },
    /// A value written from outside.
    Write { value: UserInfo },
    /// A step of the refresh worker.
    Refresh { now: u64 },
    /// A cleaning of the cache.
    Retain { now: u64 },
    /// A cutting of the refresh queue.
    Truncate,
}

/// Whether the event ends what is in flight under `key`: the end of the task
/// that holds the key's marker, or a value written under that name.
pub open spec fn ends_fetch(event: CacheEvent, key: Seq<char>) -> bool {
    match event {
        CacheEvent::Finish { task, fetched } => task == (key, true),
        CacheEvent::Write { value } => value.created is Some && value.user.username@ == key,
        _ => false,
    }
}

/// The number of events of a run that end what is in flight under `key`.
pub open spec fn fetches_ended(events: Seq<CacheEvent>, key: Seq<char>) -> nat
    decreases events.len(),
{
    if events.len() == 0 {
        0
    } else {
        (if ends_fetch(events.first(), key) {
            1nat
        } else {
            0nat
        }) + fetches_ended(events.drop_first(), key)
    }
}

/// A fetch goes out only by claiming its key's marker: the event that sends
/// it finds the key free and leaves it in flight. And a key stays in flight
/// until an event ends what is in flight under it.
pub proof fn fetch_goes_out_under_its_marker(state: CacheState, event: CacheEvent, key: Seq<char>)
    ensures
        state.begins_fetch(event, key) ==> !state.in_flight.contains(key) && state.after(
            event,
        ).in_flight.contains(key),
        state.in_flight.contains(key) && !ends_fetch(event, key) ==> state.after(
            event,
        ).in_flight.contains(key),
        !state.begins_fetch(event, key) && !state.in_flight.contains(key) ==> !state.after(
            event,
        ).in_flight.contains(key),
{
}

/// Single flight, for every key and at every instant. Over any run of
/// lookups, starts, ends, writes and worker steps, on whatever keys, the
/// fetches of one key that were sent on their way and have not ended are
/// those that the key's marker stands for: none or one. So no more fetches
/// of a key go out than have ended, and one; and while nothing ends, at most
/// one goes out, and none if the key was in flight to begin with.
pub proof fn at_most_one_fetch_per_key(state: CacheState, events: Seq<CacheEvent>, key: Seq<char>)
    ensures
        state.fetches_begun(events, key) + state.in_flight_count(key) <= fetches_ended(events, key)
            + state.after_all(events).in_flight_count(key),
        state.fetches_begun(events, key) <= fetches_ended(events, key) + 1,
        fetches_ended(events, key) == 0 ==> state.fetches_begun(events, key) + state.in_flight_count(
            key,
        ) == state.after_all(events).in_flight_count(key),
    decreases events.len(),
{
    if events.len() > 0 {
        fetch_goes_out_under_its_marker(state, events.first(), key);
        at_most_one_fetch_per_key(state.after(events.first()), events.drop_first(), key);
    }
}

/// While a key is in flight, no lookup of it sends a fetch on its way or
/// changes anything, whether a value is cached under it or not.
pub proof fn claimed_key_is_left_alone(state: CacheState, key: Seq<char>, lookups: Seq<(bool, u64)>)
    requires
        state.in_flight.contains(key),
    ensures
        state.fetches(key, lookups) == 0,
        state.after_lookups(key, lookups) == state,
    decreases lookups.len(),
{
    if lookups.len() > 0 {
        claimed_key_is_left_alone(state, key, lookups.drop_first());
    }
}

/// Single flight for lookups. However many lookups of a key that is not in
/// flight arrive before its fetch ends, and whoever makes them, at most one
/// fetch goes out, whether the key is cached and stale or not cached at
/// all. Exactly one goes out if any of the lookups calls for one; it is the
/// first that does, and the key is in flight from then on. Otherwise the
/// state stays as it was.
pub proof fn single_flight(state: CacheState, key: Seq<char>, lookups: Seq<(bool, u64)>)
    requires
        !state.in_flight.contains(key),
    ensures
        state.fetches(key, lookups) <= 1,
        state.fetches(key, lookups) == 1 <==> exists|i: int|
            0 <= i < lookups.len() && state.calls_for_fetch(
                key,
                (#[trigger] lookups[i]).0,
                lookups[i].1,
            ),
        state.fetches(key, lookups) == 1 ==> state.after_lookups(key, lookups) == (CacheState {
            in_flight: state.in_flight.insert(key),
            ..state
        }),
        state.fetches(key, lookups) == 0 ==> state.after_lookups(key, lookups) == state,
    decreases lookups.len(),
{
    if lookups.len() > 0 {
        let (authorized, now) = lookups.first();
        let rest = lookups.drop_first();
        if state.calls_for_fetch(key, authorized, now) {
            let claimed = CacheState { in_flight: state.in_flight.insert(key), ..state };
            assert(state.get_and_start(key, authorized, now).0 == claimed);
            claimed_key_is_left_alone(claimed, key, rest);
            assert(state.calls_for_fetch(key, lookups[0].0, lookups[0].1));
        } else {
            assert(state.get_and_start(key, authorized, now).0 == state);
            single_flight(state, key, rest);
            if state.fetches(key, lookups) == 1 {
                let i = choose|i: int|
                    0 <= i < rest.len() && state.calls_for_fetch(
                        key,
                        (#[trigger] rest[i]).0,
                        rest[i].1,
                    );
                assert(lookups[i + 1] == rest[i]);
            }
            if exists|i: int|
                0 <= i < lookups.len() && state.calls_for_fetch(
                    key,
                    (#[trigger] lookups[i]).0,
                    lookups[i].1,
                ) {
                let i = choose|i: int|
                    0 <= i < lookups.len() && state.calls_for_fetch(
                        key,
                        (#[trigger] lookups[i]).0,
                        lookups[i].1,
                    );
                assert(rest[i - 1] == lookups[i]);
            }
        }
    }
}

/// Once a fetched value is written, every lookup of its user name is served
/// that value, and the name is no longer marked as in flight.
pub proof fn written_value_is_served(
    state: CacheState,
    value: UserInfo,
    authorized: bool,
    now: u64,
)
    requires
        value.created is Some,
    ensures
        state.write_cache(value).get_or_fetch(value.user.username@, authorized, now).1 == Some(
            value,
        ),
        !state.write_cache(value).in_flight.contains(value.user.username@),
        is_fresh(value.created->0, now, CACHE_TTL) ==> state.write_cache(value).get_or_fetch(
            value.user.username@,
            authorized,
            now,
        ).2 is None,
{
}

/// The value that a fetch of a key brings under that key's name is served to
/// every lookup of the key from the end of the fetch on, and the key is free
/// for its next refresh.
pub proof fn fetched_value_is_served(
    state: CacheState,
    key: Seq<char>,
    value: UserInfo,
    authorized: bool,
    now: u64,
)
    requires
        value.created is Some,
        value.user.username@ == key,
    ensures
        state.finish_fetch((key, true), Some(value)).get_or_fetch(key, authorized, now).1 == Some(
            value,
        ),
        !state.finish_fetch((key, true), Some(value)).in_flight.contains(key),
{
}

/// A lookup of a stale entry serves the old value at once, whoever asks, and
/// changes nothing. It leaves the caller with the task to refresh the key;
/// the task holds no marker, so that its fetch goes out only if none for the
/// key is under way.
pub proof fn stale_read_serves_old_value(
    state: CacheState,
    key: Seq<char>,
    authorized: bool,
    now: u64,
)
    requires
        state.is_stale(key, now),
    ensures
        state.get_or_fetch(key, authorized, now) == (
            state,
            Some(state.entries[key].0),
            Some((key, false)),
        ),
        state.in_flight.contains(key) ==> state.start_fetch((key, false)) == (
            state,
            None::<(Seq<char>, bool)>,
        ),
        !state.in_flight.contains(key) ==> state.start_fetch((key, false)).1 == Some((key, true))
            && state.start_fetch((key, false)).0.start_fetch((key, false)).1 is None,
{
}

/// A cached value and the reading of its fetch change only together, when
/// a new value is written under the same key. Lookups, starts, the refresh
/// worker, and the cutting of the queue leave every entry as it is; cleaning
/// takes whole entries away and changes none.
pub proof fn entries_change_only_by_writing(
    state: CacheState,
    key: Seq<char>,
    authorized: bool,
    now: u64,
    value: UserInfo,
    task: (Seq<char>, bool),
)
    ensures
        state.get_or_fetch(key, authorized, now).0.entries == state.entries,
        state.start_fetch(task).0.entries == state.entries,
        state.release(key).entries == state.entries,
        state.next_refresh(now).0.entries == state.entries,
        state.truncate_queue().entries == state.entries,
        state.retain_fresh(now).entries.submap_of(state.entries),
        value.created matches Some(fetched_at) ==> state.write_cache(value).entries
            == state.entries.insert(value.user.username@, (value, fetched_at)),
        value.created is None ==> state.write_cache(value).entries == state.entries,
{
}

/// A marker does not outlive its fetch. When the task that holds a key's
/// marker ends, with a value or without, the key is no longer in flight. If
/// the fetch failed for a key that is not cached, the next authorized lookup
/// claims the key anew.
pub proof fn marker_ends_with_fetch(
    state: CacheState,
    key: Seq<char>,
    fetched: Option<UserInfo>,
    now: u64,
)
    ensures
        !state.finish_fetch((key, true), fetched).in_flight.contains(key),
        fetched is None && !state.entries.contains_key(key) ==> state.finish_fetch(
            (key, true),
            fetched,
        ).is_cold(key) && state.finish_fetch((key, true), fetched).get_or_fetch(key, true, now).2
            == Some((key, true)),
{
}

/// A lookup by an unauthorized caller never changes the cache and never
/// claims a key. It is served what is cached, if anything, and is left with
/// a task only where the value served is stale.
pub proof fn unauthorized_lookup_claims_nothing(state: CacheState, key: Seq<char>, now: u64)
    ensures
        state.get_or_fetch(key, false, now).0 == state,
        state.get_or_fetch(key, false, now).1 is Some <==> state.entries.contains_key(key),
        state.get_or_fetch(key, false, now).2 == (if state.is_stale(key, now) {
            Some((key, false))
        } else {
            None
        }),
{
}

/// The profile cache with its in-flight markers and its refresh queue.
pub struct ProfileCache {
    cache: Cache,
    fetch_processing: DashMap<String, (), RandomState>,
    update_queue: VecDeque<(String, u64)>,
    worker_started: bool,
}

impl View for ProfileCache {
    type V = CacheState;

    closed spec fn view(&self) -> CacheState {
        CacheState {
            entries: self.cache@,
            in_flight: claims(self.fetch_processing),
            queue: item_views(self.update_queue@),
            worker_started: self.worker_started,
        }
    }
}

impl ProfileCache {
    /// An empty cache: nothing cached, nothing in flight, nothing queued, no
    /// worker.
    pub fn new() -> (cache: ProfileCache)
        ensures
            cache@ == (CacheState {
                entries: Map::empty(),
                in_flight: Set::empty(),
                queue: Seq::empty(),
                worker_started: false,
            }),
    {
        let cache = ProfileCache {
            cache: Cache::with_capacity(DESIRED_MAX_KEY_COUNT),
            fetch_processing: claims_new(EXPECTED_IN_FLIGHT),
            update_queue: VecDeque::new(),
            worker_started: false,
        };
        assert(item_views(cache.update_queue@) =~= Seq::empty());
        cache
    }

    /// Says whether the refresh worker has to be started now: `true` on the
    /// first call, `false` ever after.
    pub fn try_init_cache_update_queue(&mut self) -> (start: bool)
        ensures
            start == !old(self)@.worker_started,
            final(self)@ == (CacheState { worker_started: true, ..old(self)@ }),
    {
        let start: bool = !self.worker_started;
        self.worker_started = true;
        start
    }

    /// One step of the refresh worker.
    pub fn next_refresh(&mut self, now: u64) -> (step: RefreshStep)
        ensures
            final(self)@ == old(self)@.next_refresh(now).0,
            step.sleep.wf(),
            step.sleep.total_nanos() == old(self)@.next_refresh(now).1,
            task_of(step.refresh) == old(self)@.next_refresh(now).2,
    {
        match self.update_queue.pop_back() {
            None => RefreshStep { sleep: Span { secs: CACHE_TTL, nanos: 0 }, refresh: None },
            Some(item) => {
                assert(item_views(self.update_queue@) =~= old(self)@.queue.drop_last());
                assert(old(self)@.queue.last() == (item.0@, item.1));
                let sleep: Span = match time_left(CACHE_TTL, elapsed_nanos(now, item.1)) {
                    Some(left) => left,
                    None => Span { secs: 0, nanos: 0 },
                };
                RefreshStep { sleep, refresh: Some(FetchTask { key: item.0, claimed: false }) }
            },
        }
    }

    /// Looks `key` up. Returns the cached value, if there is one, and the
    /// task that the caller is left with, if there is one. The task is to be
    /// handed to `start_fetch`.
    pub fn get_or_fetch(&mut self, key: &str, authorized: bool, now: u64) -> (found: (
        Option<Arc<UserInfo>>,
        Option<FetchTask>,
    ))
        ensures
            final(self)@ == old(self)@.get_or_fetch(key@, authorized, now).0,
            (match found.0 {
                Some(value) => Some(*value),
                None => None,
            }) == old(self)@.get_or_fetch(key@, authorized, now).1,
            task_of(found.1) == old(self)@.get_or_fetch(key@, authorized, now).2,
    {
        match self.cache.get(key) {
            Some(entry) => {
                let task: Option<FetchTask> = if !fresh_at(entry.1, now, CACHE_TTL) {
                    Some(FetchTask { key: key.to_owned(), claimed: false })
                } else {
                    None
                };
                (Some(entry.0), task)
            },
            None => {
                if authorized && claims_insert(&mut self.fetch_processing, key.to_owned()).is_none() {
                    (None, Some(FetchTask { key: key.to_owned(), claimed: true }))
                } else {
                    assert(claims(self.fetch_processing) =~= old(self)@.in_flight);
                    (None, None)
                }
            },
        }
    }

    /// Starts a task. Returns the task if its fetch may go out now, holding
    /// the key's marker; `None` if the key is being fetched already, in
    /// which case there is nothing to do and nothing to report.
    pub fn start_fetch(&mut self, task: FetchTask) -> (started: Option<FetchTask>)
        ensures
            final(self)@ == old(self)@.start_fetch(task@).0,
            task_of(started) == old(self)@.start_fetch(task@).1,
    {
        if task.claimed {
            return Some(task);
        }
        match claims_insert(&mut self.fetch_processing, task.key.clone()) {
            None => Some(FetchTask { key: task.key, claimed: true }),
            Some(_) => {
                assert(claims(self.fetch_processing) =~= old(self)@.in_flight);
                None
            },
        }
    }

    /// Gives the marker of `key` up.
    fn release(&mut self, key: &str)
        ensures
            final(self)@ == old(self)@.release(key@),
    {
        claims_release(&mut self.fetch_processing, key);
    }

    /// Stores a fetched value and says which housekeeping is due.
    fn store(&mut self, value: UserInfo) -> (due: Upkeep)
        ensures
            final(self)@ == old(self)@.store(value),
            due == (match value.created {
                Some(_) => final(self)@.upkeep(),
                None => Upkeep { retain: false, truncate: false },
            }),
    {
        match value.created {
            None => Upkeep { retain: false, truncate: false },
            Some(fetched_at) => {
                let key: String = value.user.username.clone();
                self.cache.insert(key.clone(), Arc::new(value), fetched_at);
                let retain: bool = self.cache.len() > DESIRED_MAX_KEY_COUNT;
                self.update_queue.push_front((key, fetched_at));
                assert(item_views(self.update_queue@) =~= seq![(key@, fetched_at)] + old(
                    self,
                )@.queue);
                let truncate: bool = self.update_queue.len() > DESIRED_MAX_KEY_COUNT;
                Upkeep { retain, truncate }
            },
        }
    }

    /// Reports how the fetch of a task has ended: with the value fetched, or
    /// without one. The task's marker is given up either way. Says which
    /// housekeeping is due.
    pub fn finish_fetch(&mut self, task: FetchTask, fetched: Option<UserInfo>) -> (due: Upkeep)
        ensures
            final(self)@ == old(self)@.finish_fetch(task@, fetched),
            due == (match fetched {
                Some(value) if value.created is Some => final(self)@.upkeep(),
                _ => Upkeep { retain: false, truncate: false },
            }),
    {
        if task.claimed {
            self.release(task.key.as_str());
        }
        match fetched {
            Some(value) => self.store(value),
            None => Upkeep { retain: false, truncate: false },
        }
    }

    /// Takes in a fetched value that comes without a task. What is in flight
    /// under the value's user name ends with it. Says which housekeeping is
    /// due.
    pub fn write_cache(&mut self, value: UserInfo) -> (due: Upkeep)
        ensures
            final(self)@ == old(self)@.write_cache(value),
            due == (match value.created {
                Some(_) => final(self)@.upkeep(),
                None => Upkeep { retain: false, truncate: false },
            }),
    {
        match value.created {
            None => Upkeep { retain: false, truncate: false },
            Some(_) => {
                self.release(value.user.username.as_str());
                self.store(value)
            },
        }
    }

    /// Drops every entry that is no longer fresh at `now`.
    pub fn retain_fresh(&mut self, now: u64)
        ensures
            final(self)@ == old(self)@.retain_fresh(now),
    {
        self.cache.retain_ttl(CACHE_TTL, now);
    }

    /// Cuts an overgrown refresh queue down.
    pub fn truncate_queue(&mut self)
        ensures
            final(self)@ == old(self)@.truncate_queue(),
    {
        if self.update_queue.len() > DESIRED_MAX_KEY_COUNT {
            self.update_queue.truncate(DESIRED_MAX_KEY_COUNT / 2);
            assert(item_views(self.update_queue@) =~= old(self)@.queue.take(
                DESIRED_MAX_KEY_COUNT as int / 2,
            ));
        }
    }

    /// The number of cached entries, of which there are finitely many.
    pub fn len(&self) -> (len: usize)
        ensures
            self@.entries.dom().finite(),
            len == self@.entries.dom().len(),
    {
        self.cache.len()
    }

    /// The number of writes that the refresh worker has before it.
    pub fn queue_len(&self) -> (len: usize)
        ensures
            len == self@.queue.len(),
    {
        self.update_queue.len()
    }
}

} // verus!
