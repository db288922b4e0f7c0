//! The counter store: one visit counter per identifier.
//!
//! A counter that exists is incremented by anyone. A counter that does not
//! exist is created only for an authorized caller. Every change is queued for
//! the durable sink. When a creation takes the table over its ceiling, a
//! sweep falls due that removes every counter still at 1: those that were
//! created and never visited again.
//!
//! [`CounterState`] is the store as a mathematical value, and its functions
//! say what each operation does. [`Counter`] is the store itself; each of its
//! methods is proved to do what the function of the same name says.

pub mod db;

use crate::access::{authorized, AccessPolicy, CidrBlock, IpAddress};
use crate::text::{owned_text_of, text_of};
use crate::config::Config;
use crate::counter::db::{
    sink_count, to_sink_count, Persistent, PersistMessage, QueueState, SinkOp, WriteStep,
    DEFAULT_QUEUE_CAPACITY,
};
use crate::dash::{
    counts, counts_entries, counts_get, counts_insert, counts_len, counts_new, counts_remove,
};
use dashmap::DashMap;
use foldhash::fast::RandomState;
use vstd::prelude::*;

verus! {

/// Room that a new table reserves.
pub const INITIAL_TABLE_CAPACITY: usize = 8192;

/// Why a counter was not deleted.
#[derive(Clone, Copy, Debug, PartialEq, Eq, Structural)]
pub enum DeleteError {
    /// The caller is neither allow-listed nor in possession of the secret.
    Unauthorized,
    /// There is no counter under that identifier.
    NotFound,
}

/// The value after one visit. Counting wraps around at the top, as the
/// atomic addition does.
pub open spec fn next_count(count: u64, debug: bool) -> u64 {
    if debug {
        count
    } else if count == u64::MAX {
        0
    } else {
        (count + 1) as u64
    }
}

/// Identifier and count of each entry of a list.
pub open spec fn entry_views(entries: Seq<(String, u64)>) -> Seq<(Seq<char>, u64)> {
    entries.map_values(|entry: (String, u64)| (entry.0@, entry.1))
}

/// The characters of each string of a list.
pub open spec fn id_views(ids: Seq<String>) -> Seq<Seq<char>> {
    ids.map_values(|id: String| id@)
}

/// The counters after loading `entries` one after the other: an entry
/// replaces what the table, or an earlier entry, held under its identifier.
pub open spec fn loaded(counts: Map<Seq<char>, u64>, entries: Seq<(Seq<char>, u64)>) -> Map<
    Seq<char>,
    u64,
>
    decreases entries.len(),
{
    if entries.len() == 0 {
        counts
    } else {
        loaded(counts, entries.drop_last()).insert(entries.last().0, entries.last().1)
    }
}

/// The counters after making sure that each of `ids` has one: those that had
/// none start at 0, the others keep their count.
pub open spec fn preloaded(counts: Map<Seq<char>, u64>, ids: Seq<Seq<char>>) -> Map<Seq<char>, u64>
    decreases ids.len(),
{
    if ids.len() == 0 {
        counts
    } else {
        let before = preloaded(counts, ids.drop_last());
        if before.contains_key(ids.last()) {
            before
        } else {
            before.insert(ids.last(), 0)
        }
    }
}

/// The counters that a sweep leaves: all but those at exactly 1.
pub open spec fn swept(counts: Map<Seq<char>, u64>) -> Map<Seq<char>, u64> {
    counts.restrict(Set::new(|id: Seq<char>| counts.contains_key(id) && counts[id] != 1))
}

/// The counter store as a value.
pub struct CounterState {
    /// The counters, by identifier.
    pub counts: Map<Seq<char>, u64>,
    /// Network ranges whose callers are authorized.
    pub allow_list: Set<CidrBlock>,
    /// The shared secret, if one is configured.
    pub secret: Option<Seq<char>>,
    /// The ceiling on the number of counters.
    pub max_counters: usize,
    /// A creation went over the ceiling and no sweep has run since.
    pub sweep_due: bool,
    /// The queue of changes on their way to the sink.
    pub outbox: QueueState,
}

impl CounterState {
    /// Whether a caller may create and delete counters.
    pub open spec fn authorizes(self, credential: Option<Seq<char>>, origin: Option<IpAddress>) -> bool {
        authorized(self.allow_list, self.secret, credential, origin)
    }

    /// Queues a change for the sink, or drops it if the queue is full and
    /// counts the drop.
    pub open spec fn persist_data_tx(self, id: Seq<char>, new_count: Option<u64>) -> CounterState {
        CounterState { outbox: self.outbox.send((id, new_count)), ..self }
    }

    /// Stores a new counter at 1. The sweep falls due if the table is then
    /// over its ceiling.
    pub open spec fn insert_counter(self, id: Seq<char>) -> CounterState {
        let counts = self.counts.insert(id, 1);
        CounterState {
            counts,
            sweep_due: self.sweep_due || counts.dom().len() > self.max_counters,
            ..self
        }
    }

    /// One visit. An existing counter is incremented, or only read in debug
    /// mode, and its value queued for the sink. A missing counter is created
    /// at 1 for an authorized caller. For anyone else nothing changes.
    pub open spec fn increment_or_create(
        self,
        id: Seq<char>,
        credential: Option<Seq<char>>,
        origin: Option<IpAddress>,
        debug: bool,
    ) -> (CounterState, Option<u64>) {
        if self.counts.contains_key(id) {
            let next = next_count(self.counts[id], debug);
            (
                CounterState { counts: self.counts.insert(id, next), ..self }.persist_data_tx(
                    id,
                    Some(next),
                ),
                Some(next),
            )
        } else if self.authorizes(credential, origin) {
            (self.insert_counter(id).persist_data_tx(id, Some(1u64)), Some(1u64))
        } else {
            (self, None)
        }
    }

    /// Removes a counter for an authorized caller and queues the deletion of
    /// its row. Authorization is checked first.
    pub open spec fn delete(
        self,
        id: Seq<char>,
        credential: Option<Seq<char>>,
        origin: Option<IpAddress>,
    ) -> (CounterState, Result<(), DeleteError>) {
        if !self.authorizes(credential, origin) {
            (self, Err(DeleteError::Unauthorized))
        } else if !self.counts.contains_key(id) {
            (self, Err(DeleteError::NotFound))
        } else {
            (
                CounterState { counts: self.counts.remove(id), ..self }.persist_data_tx(id, None),
                Ok(()),
            )
        }
    }

    /// Loads a list of counters.
    pub open spec fn bulk_load(self, entries: Seq<(Seq<char>, u64)>) -> CounterState {
        CounterState { counts: loaded(self.counts, entries), ..self }
    }

    /// Makes sure that each identifier has a counter.
    pub open spec fn preload(self, ids: Seq<Seq<char>>) -> CounterState {
        CounterState { counts: preloaded(self.counts, ids), ..self }
    }

    /// Removes the counters at exactly 1.
    pub open spec fn sweep(self) -> CounterState {
        CounterState { counts: swept(self.counts), sweep_due: false, ..self }
    }

    /// Takes over the ceiling and the allow-list, and the secret if the
    /// configuration has a non-empty one.
    pub open spec fn update_config(
        self,
        max_counters: usize,
        allow_list: Set<CidrBlock>,
        secret: Option<Seq<char>>,
    ) -> CounterState {
        CounterState {
            max_counters,
            allow_list,
            secret: match secret {
                Some(text) if text.len() > 0 => Some(text),
                _ => self.secret,
            },
            ..self
        }
    }

    /// `n` counted visits to one counter by the same caller, one after the
    /// other.
    pub open spec fn visited(
        self,
        id: Seq<char>,
        credential: Option<Seq<char>>,
        origin: Option<IpAddress>,
        n: nat,
    ) -> CounterState
        decreases n,
    {
        if n == 0 {
            self
        } else {
            self.visited(id, credential, origin, (n - 1) as nat).increment_or_create(
                id,
                credential,
                origin,
                false,
            ).0
        }
    }
}

/// Loading lets the last entry decide: if `entries[at]` is the last entry
/// of the list for its identifier, the identifier has a counter afterwards,
/// and the counter holds that entry's count.
pub proof fn loaded_takes_the_last_entry(
    counts: Map<Seq<char>, u64>,
    entries: Seq<(Seq<char>, u64)>,
    at: int,
)
    requires
        0 <= at < entries.len(),
        forall|j: int| at < j < entries.len() ==> (#[trigger] entries[j]).0 != entries[at].0,
    ensures
        loaded(counts, entries).contains_key(entries[at].0),
        loaded(counts, entries)[entries[at].0] == entries[at].1,
    decreases entries.len(),
{
    if at < entries.len() - 1 {
        let before = entries.drop_last();
        assert(before[at] == entries[at]);
        assert forall|j: int| at < j < before.len() implies (#[trigger] before[j]).0
            != before[at].0 by {
            assert(before[j] == entries[j]);
        }
        loaded_takes_the_last_entry(counts, before, at);
        assert(entries[entries.len() - 1].0 != entries[at].0);
    }
}

/// Loading leaves alone what the list does not name: such an identifier has
/// a counter afterwards if it had one before, with the same count.
pub proof fn loaded_keeps_the_rest(
    counts: Map<Seq<char>, u64>,
    entries: Seq<(Seq<char>, u64)>,
    id: Seq<char>,
)
    requires
        forall|i: int| 0 <= i < entries.len() ==> (#[trigger] entries[i]).0 != id,
    ensures
        loaded(counts, entries).contains_key(id) <==> counts.contains_key(id),
        loaded(counts, entries)[id] == counts[id],
    decreases entries.len(),
{
    if entries.len() > 0 {
        let before = entries.drop_last();
        assert forall|i: int| 0 <= i < before.len() implies (#[trigger] before[i]).0 != id by {
            assert(before[i] == entries[i]);
        }
        loaded_keeps_the_rest(counts, before, id);
        assert(entries[entries.len() - 1].0 != id);
    }
}

/// What preloading comes to: an identifier has a counter afterwards if it
/// had one or is among those named; a counter that was there keeps its
/// count, and a new one stands at 0.
pub proof fn preloaded_adds_zeros(counts: Map<Seq<char>, u64>, ids: Seq<Seq<char>>, id: Seq<char>)
    ensures
        preloaded(counts, ids).contains_key(id) <==> counts.contains_key(id) || ids.contains(id),
        counts.contains_key(id) ==> preloaded(counts, ids)[id] == counts[id],
        !counts.contains_key(id) && ids.contains(id) ==> preloaded(counts, ids)[id] == 0,
    decreases ids.len(),
{
    if ids.len() > 0 {
        let before = ids.drop_last();
        preloaded_adds_zeros(counts, before, id);
        if ids.contains(id) {
            let i = choose|i: int| 0 <= i < ids.len() && ids[i] == id;
            if i < ids.len() - 1 {
                assert(before[i] == id);
            }
        }
        if before.contains(id) {
            let i = choose|i: int| 0 <= i < before.len() && before[i] == id;
            assert(ids[i] == id);
        }
        assert(ids[ids.len() - 1] == ids.last());
    }
}

/// No visit is lost. The store is changed through exclusive access only, so
/// visits that arrive together are carried out one after the other, in some
/// order; and in whatever order, `n` counted visits to an existing counter
/// leave it at its first value plus `n` (counting past the largest value
/// starts again at 0). No other counter is touched.
pub proof fn visits_add_up(
    state: CounterState,
    id: Seq<char>,
    credential: Option<Seq<char>>,
    origin: Option<IpAddress>,
    n: nat,
)
    requires
        state.counts.contains_key(id),
    ensures
        state.visited(id, credential, origin, n).counts.dom() == state.counts.dom(),
        state.visited(id, credential, origin, n).counts[id] == (state.counts[id] + n)
            % 0x1_0000_0000_0000_0000,
        forall|other: Seq<char>|
            other != id && state.counts.contains_key(other) ==> state.visited(
                id,
                credential,
                origin,
                n,
            ).counts[other] == state.counts[other],
    decreases n,
{
    if n > 0 {
        let before = state.visited(id, credential, origin, (n - 1) as nat);
        visits_add_up(state, id, credential, origin, (n - 1) as nat);
        assert(before.counts.contains_key(id));
        let after = before.increment_or_create(id, credential, origin, false).0;
        assert(after.counts == before.counts.insert(id, next_count(before.counts[id], false)));
        assert(after.counts.dom() =~= state.counts.dom());
    } else {
        assert(state.counts[id] as int % 0x1_0000_0000_0000_0000 == state.counts[id]);
    }
}

/// A caller that may not create counters cannot change the store by asking
/// for one that does not exist, and is told that there is none.
pub proof fn unauthorized_creation_changes_nothing(
    state: CounterState,
    id: Seq<char>,
    credential: Option<Seq<char>>,
    origin: Option<IpAddress>,
    debug: bool,
)
    requires
        !state.counts.contains_key(id),
        !state.authorizes(credential, origin),
    ensures
        state.increment_or_create(id, credential, origin, debug) == (state, None::<u64>),
{
}

/// Without a configured secret, no credential creates a counter for a caller
/// whose origin is unknown or not allow-listed.
pub proof fn no_secret_no_creation(
    state: CounterState,
    id: Seq<char>,
    credential: Option<Seq<char>>,
    origin: Option<IpAddress>,
    debug: bool,
)
    requires
        state.secret is None,
        !state.counts.contains_key(id),
        !(origin matches Some(addr) && crate::access::listed(state.allow_list, addr)),
    ensures
        state.increment_or_create(id, credential, origin, debug) == (state, None::<u64>),
{
}

/// A creation calls for a sweep exactly when it takes the table over its
/// ceiling. The counter just created stands at 1 like any other that was
/// never visited again: unless a visit comes first, the sweep removes it
/// too.
pub proof fn creation_over_the_ceiling_calls_for_a_sweep(
    state: CounterState,
    id: Seq<char>,
    credential: Option<Seq<char>>,
    origin: Option<IpAddress>,
    debug: bool,
)
    requires
        state.counts.dom().finite(),
        !state.counts.contains_key(id),
        state.authorizes(credential, origin),
    ensures
        state.increment_or_create(id, credential, origin, debug).0.sweep_due == (state.sweep_due
            || state.counts.dom().len() + 1 > state.max_counters),
        !state.increment_or_create(id, credential, origin, debug).0.sweep().counts.contains_key(
            id,
        ),
        state.increment_or_create(id, credential, origin, debug).0.increment_or_create(
            id,
            None,
            None,
            false,
        ).0.sweep().counts.contains_key(id),
{
}

/// The sweep removes a counter if and only if it stands at exactly 1: every
/// other counter is still there afterwards, with its value.
pub proof fn sweep_removes_only_ones(state: CounterState, id: Seq<char>)
    ensures
        state.sweep().counts.contains_key(id) <==> state.counts.contains_key(id)
            && state.counts[id] != 1,
        state.sweep().counts.contains_key(id) ==> state.sweep().counts[id] == state.counts[id],
        state.counts.contains_key(id) && !state.sweep().counts.contains_key(id)
            ==> state.counts[id] == 1,
{
}

/// The counter store.
pub struct Counter {
    table: DashMap<String, u64, RandomState>,
    access: AccessPolicy,
    max_counters: usize,
    sweep_due: bool,
    outbox: Persistent,
}

impl View for Counter {
    type V = CounterState;

    closed spec fn view(&self) -> CounterState {
        CounterState {
            counts: counts(self.table),
            allow_list: self.access.allow_list(),
            secret: self.access.secret(),
            max_counters: self.max_counters,
            sweep_due: self.sweep_due,
            outbox: self.outbox@,
        }
    }
}

impl Counter {
    /// An empty store that authorizes nobody, with the given ceiling and an
    /// empty queue of the given capacity.
    pub fn new(max_counters: usize, queue_capacity: usize) -> (store: Counter)
        ensures
            store@ == (CounterState {
                counts: Map::empty(),
                allow_list: Set::empty(),
                secret: None,
                max_counters,
                sweep_due: false,
                outbox: QueueState {
                    pending: Seq::empty(),
                    capacity: queue_capacity,
                    writing: false,
                    dropped: 0,
                },
            }),
    {
        Counter {
            table: counts_new(INITIAL_TABLE_CAPACITY),
            access: AccessPolicy::new(),
            max_counters,
            sweep_due: false,
            outbox: Persistent::init(queue_capacity),
        }
    }

    /// The store at start-up: configured, loaded with what the sink had
    /// stored, and with a counter for each configured identifier.
    pub fn init(config: &Config, stored: &Vec<(String, u64)>) -> (store: Counter)
        ensures
            store@ == (CounterState {
                counts: preloaded(
                    loaded(Map::empty(), entry_views(stored@)),
                    id_views(config.user_id@),
                ),
                allow_list: config.cidr_whitelist@.to_set(),
                secret: match config.access_key {
                    Some(text) if text@.len() > 0 => Some(text@),
                    _ => None,
                },
                max_counters: config.max_counter,
                sweep_due: false,
                outbox: QueueState {
                    pending: Seq::empty(),
                    capacity: DEFAULT_QUEUE_CAPACITY,
                    writing: false,
                    dropped: 0,
                },
            }),
    {
        let mut store = Counter::new(config.max_counter, DEFAULT_QUEUE_CAPACITY);
        store.update_config(config);
        store.bulk_load(stored);
        store.preload(&config.user_id);
        store
    }

    /// Applies a configuration to a running store. The secret is replaced
    /// only by a non-empty one; ceiling and allow-list are taken as they are.
    pub fn update_config(&mut self, config: &Config)
        ensures
            final(self)@ == old(self)@.update_config(
                config.max_counter,
                config.cidr_whitelist@.to_set(),
                owned_text_of(config.access_key),
            ),
    {
        self.max_counters = config.max_counter;
        match &config.access_key {
            Some(text) => self.access.update_secret(Some(text.as_str())),
            None => self.access.update_secret(None),
        }
        self.access.set_allow_list(&config.cidr_whitelist);
    }

    /// Loads counters in bulk, as at start-up from the sink's snapshot. An
    /// entry replaces the counter that its identifier had.
    pub fn bulk_load(&mut self, counters: &Vec<(String, u64)>)
        ensures
            final(self)@ == old(self)@.bulk_load(entry_views(counters@)),
    {
        let ghost views = entry_views(counters@);
        let mut i: usize = 0;
        assert(views.take(0) =~= Seq::empty());
        while i < counters.len()
            invariant
                i <= counters@.len(),
                views == entry_views(counters@),
                self@ == (CounterState {
                    counts: loaded(old(self)@.counts, views.take(i as int)),
                    ..old(self)@
                }),
            decreases counters@.len() - i,
        {
            let id: String = counters[i].0.clone();
            let count: u64 = counters[i].1;
            counts_insert(&mut self.table, id, count);
            proof {
                let upto = views.take(i + 1);
                assert(upto.drop_last() =~= views.take(i as int));
                assert(upto.last() == (counters@[i as int].0@, counters@[i as int].1));
            }
            i += 1;
        }
        assert(views.take(counters@.len() as int) =~= views);
    }

    /// Gives each of `ids` a counter at 0 unless it has one.
    pub fn preload(&mut self, ids: &Vec<String>)
        ensures
            final(self)@ == old(self)@.preload(id_views(ids@)),
    {
        let ghost views = id_views(ids@);
        let mut i: usize = 0;
        assert(views.take(0) =~= Seq::empty());
        while i < ids.len()
            invariant
                i <= ids@.len(),
                views == id_views(ids@),
                self@ == (CounterState {
                    counts: preloaded(old(self)@.counts, views.take(i as int)),
                    ..old(self)@
                }),
            decreases ids@.len() - i,
        {
            proof {
                let upto = views.take(i + 1);
                assert(upto.drop_last() =~= views.take(i as int));
                assert(upto.last() == ids@[i as int]@);
            }
            if counts_get(&self.table, ids[i].as_str()).is_none() {
                counts_insert(&mut self.table, ids[i].clone(), 0);
            }
            i += 1;
        }
        assert(views.take(ids@.len() as int) =~= views);
    }

    /// Queues a change for the sink. If the queue is full the change is
    /// dropped: persistence is best effort and never holds up a request.
    fn persist_data_tx(&mut self, id: String, new_count: Option<u64>) -> (accepted: bool)
        ensures
            final(self)@ == old(self)@.persist_data_tx(id@, new_count),
            accepted == old(self)@.outbox.has_room(),
    {
        self.outbox.send(PersistMessage { id, new_count })
    }

    /// Stores a new counter at 1 and checks the ceiling.
    fn insert_counter(&mut self, id: String)
        ensures
            final(self)@ == old(self)@.insert_counter(id@),
    {
        counts_insert(&mut self.table, id, 1);
        if counts_len(&self.table) > self.max_counters {
            self.sweep_due = true;
        }
    }

    /// Counts one visit to `id` and returns the counter's value, or creates
    /// the counter for an authorized caller. `None` means that there is no
    /// such counter and the caller may not create it; the store is then
    /// untouched.
    pub fn increment_or_create(
        &mut self,
        id: &str,
        access_credential: Option<&str>,
        remote_origin: Option<IpAddress>,
        debug: bool,
    ) -> (count: Option<u64>)
        ensures
            final(self)@ == old(self)@.increment_or_create(
                id@,
                text_of(access_credential),
                remote_origin,
                debug,
            ).0,
            count == old(self)@.increment_or_create(
                id@,
                text_of(access_credential),
                remote_origin,
                debug,
            ).1,
    {
        match counts_get(&self.table, id) {
            Some(current) => {
                let next: u64 = if debug {
                    current
                } else {
                    current.wrapping_add(1)
                };
                if !debug {
                    counts_insert(&mut self.table, id.to_owned(), next);
                }
                assert(counts(self.table) =~= old(self)@.counts.insert(id@, next));
                self.persist_data_tx(id.to_owned(), Some(next));
                Some(next)
            },
            None => {
                if self.access.auth(access_credential, remote_origin) {
                    self.insert_counter(id.to_owned());
                    self.persist_data_tx(id.to_owned(), Some(1));
                    Some(1)
                } else {
                    None
                }
            },
        }
    }

    /// Removes the counter under `id` and queues the deletion of its row.
    /// Fails with `Unauthorized` for a caller that may not, whether or not
    /// the counter exists, and with `NotFound` if an authorized caller names
    /// a counter that does not exist.
    pub fn delete(
        &mut self,
        id: &str,
        access_credential: Option<&str>,
        remote_origin: Option<IpAddress>,
    ) -> (outcome: Result<(), DeleteError>)
        ensures
            final(self)@ == old(self)@.delete(id@, text_of(access_credential), remote_origin).0,
            outcome == old(self)@.delete(id@, text_of(access_credential), remote_origin).1,
    {
        if !self.access.auth(access_credential, remote_origin) {
            return Err(DeleteError::Unauthorized);
        }
        match counts_remove(&mut self.table, id) {
            None => {
                assert(counts(self.table) =~= old(self)@.counts);
                Err(DeleteError::NotFound)
            },
            Some(_) => {
                self.persist_data_tx(id.to_owned(), None);
                Ok(())
            },
        }
    }

    /// Whether a sweep is due.
    pub fn sweep_due(&self) -> (due: bool)
        ensures
            due == self@.sweep_due,
    {
        self.sweep_due
    }

    /// The number of counters, of which there are finitely many.
    pub fn len(&self) -> (len: usize)
        ensures
            self@.counts.dom().finite(),
            len == self@.counts.dom().len(),
    {
        counts_len(&self.table)
    }

    /// The value of a counter, without counting a visit.
    pub fn get(&self, id: &str) -> (count: Option<u64>)
        ensures
            count == (if self@.counts.contains_key(id@) {
                Some(self@.counts[id@])
            } else {
                None
            }),
    {
        counts_get(&self.table, id)
    }

    /// The capacity sweep: removes every counter that stands at exactly 1 and
    /// returns the identifiers removed, each once. Nothing is queued for the
    /// sink.
    pub fn sweep(&mut self) -> (removed: Vec<String>)
        ensures
            final(self)@ == old(self)@.sweep(),
            forall|r: int|
                0 <= r < removed@.len() ==> old(self)@.counts.contains_pair(
                    (#[trigger] removed@[r])@,
                    1,
                ),
            forall|r: int, t: int|
                0 <= r < t < removed@.len() ==> (#[trigger] removed@[r])@ != (
                #[trigger] removed@[t])@,
            forall|id: Seq<char>|
                old(self)@.counts.contains_pair(id, 1) ==> exists|r: int|
                    0 <= r < removed@.len() && (#[trigger] removed@[r])@ == id,
    {
        let ghost before = counts(self.table);
        let entries = counts_entries(&self.table);
        let mut removed: Vec<String> = Vec::new();
        let mut i: usize = 0;
        while i < entries.len()
            invariant
                i <= entries@.len(),
                forall|j: int|
                    0 <= j < entries@.len() ==> before.contains_pair(
                        (#[trigger] entries@[j]).0@,
                        entries@[j].1,
                    ),
                forall|j: int, k: int|
                    0 <= j < k < entries@.len() ==> (#[trigger] entries@[j]).0@ != (
                    #[trigger] entries@[k]).0@,
                forall|id: Seq<char>| #[trigger]
                    counts(self.table).dom().contains(id) ==> before.dom().contains(id) && counts(
                        self.table,
                    )[id] == before[id],
                forall|j: int|
                    0 <= j < entries@.len() ==> (counts(self.table).contains_key(
                        (#[trigger] entries@[j]).0@,
                    ) <==> !(j < i && entries@[j].1 == 1)),
                forall|r: int|
                    0 <= r < removed@.len() ==> before.contains_pair((#[trigger] removed@[r])@, 1),
                forall|r: int|
                    0 <= r < removed@.len() ==> exists|j: int|
                        0 <= j < i && (#[trigger] entries@[j]).0@ == (#[trigger] removed@[r])@,
                forall|r: int, t: int|
                    0 <= r < t < removed@.len() ==> (#[trigger] removed@[r])@ != (
                    #[trigger] removed@[t])@,
                forall|j: int|
                    0 <= j < i && (#[trigger] entries@[j]).1 == 1 ==> exists|r: int|
                        0 <= r < removed@.len() && (#[trigger] removed@[r])@ == entries@[j].0@,
                self.access == old(self).access,
                self.max_counters == old(self).max_counters,
                self.outbox == old(self).outbox,
            decreases entries@.len() - i,
        {
            let ghost held = counts(self.table);
            let ghost taken = removed@;
            if entries[i].1 == 1 {
                counts_remove(&mut self.table, entries[i].0.as_str());
                removed.push(entries[i].0.clone());
                proof {
                    let key = entries@[i as int].0@;
                    assert(removed@[taken.len() as int]@ == key);
                    assert forall|r: int| 0 <= r < removed@.len() implies exists|j: int|
                        0 <= j < i + 1 && (#[trigger] entries@[j]).0@ == (
                        #[trigger] removed@[r])@ by {
                        if r < taken.len() {
                            assert(removed@[r] == taken[r]);
                            let j = choose|j: int|
                                0 <= j < i && (#[trigger] entries@[j]).0@ == (
                                #[trigger] taken[r])@;
                            assert(entries@[j].0@ == removed@[r]@);
                        } else {
                            assert(entries@[i as int].0@ == removed@[r]@);
                        }
                    }
                    assert forall|r: int, t: int| 0 <= r < t < removed@.len() implies (
                    #[trigger] removed@[r])@ != (#[trigger] removed@[t])@ by {
                        assert(removed@[r] == taken[r]);
                        if t < taken.len() {
                            assert(removed@[t] == taken[t]);
                        } else {
                            let j = choose|j: int|
                                0 <= j < i && (#[trigger] entries@[j]).0@ == (
                                #[trigger] taken[r])@;
                            assert(entries@[j].0@ != entries@[i as int].0@);
                        }
                    }
                    assert(counts(self.table) == held.remove(key));
                    assert forall|id: Seq<char>| #[trigger]
                        counts(self.table).dom().contains(id) implies before.dom().contains(id)
                        && counts(self.table)[id] == before[id] by {
                        assert(held.dom().contains(id));
                    }
                    assert forall|j: int| 0 <= j < entries@.len() implies (counts(
                        self.table,
                    ).contains_key((#[trigger] entries@[j]).0@) <==> !(j < i + 1 && entries@[j].1
                        == 1)) by {
                        if j < i {
                            assert(entries@[j].0@ != entries@[i as int].0@);
                        } else if j > i {
                            assert(entries@[i as int].0@ != entries@[j].0@);
                        }
                    }
                    assert forall|j: int| 0 <= j < i + 1 && (#[trigger] entries@[j]).1
                        == 1 implies exists|r: int|
                        0 <= r < removed@.len() && (#[trigger] removed@[r])@ == entries@[j].0@ by {
                        if j < i {
                            let r = choose|r: int|
                                0 <= r < taken.len() && (#[trigger] taken[r])@ == entries@[j].0@;
                            assert(removed@[r] == taken[r]);
                        } else {
                            assert(removed@[taken.len() as int]@ == entries@[j].0@);
                        }
                    }
                }
            }
            i += 1;
        }
        self.sweep_due = false;
        proof {
            let after = counts(self.table);
            assert forall|id: Seq<char>| after.contains_key(id) <==> swept(before).contains_key(
                id,
            ) by {
                if before.contains_key(id) {
                    let j = choose|j: int|
                        0 <= j < entries@.len() && (#[trigger] entries@[j]).0@ == id;
                    assert(before.contains_pair(entries@[j].0@, entries@[j].1));
                    assert(after.contains_key(entries@[j].0@) <==> !(j < i && entries@[j].1 == 1));
                    assert(before[id] == entries@[j].1);
                } else {
                    assert(!after.dom().contains(id));
                }
            }
            assert(after =~= swept(before));
            assert forall|id: Seq<char>| before.contains_pair(id, 1) implies exists|r: int|
                0 <= r < removed@.len() && (#[trigger] removed@[r])@ == id by {
                let j = choose|j: int| 0 <= j < entries@.len() && (#[trigger] entries@[j]).0@ == id;
                assert(before.contains_pair(entries@[j].0@, entries@[j].1));
            }
        }
        removed
    }

    /// One write for every counter: what has to reach the sink so that it
    /// holds the whole table, as at shutdown. Each counter occurs once.
    pub fn persist_all(&self) -> (writes: Vec<SinkOp>)
        ensures
            forall|i: int|
                0 <= i < writes@.len() ==> self@.counts.contains_key((#[trigger] writes@[i])@.0)
                    && writes@[i]@.1 == Some(
                    sink_count(self@.counts[writes@[i]@.0]),
                ),
            forall|i: int, j: int|
                0 <= i < j < writes@.len() ==> (#[trigger] writes@[i])@.0 != (
                #[trigger] writes@[j])@.0,
            forall|id: Seq<char>|
                self@.counts.contains_key(id) ==> exists|i: int|
                    0 <= i < writes@.len() && (#[trigger] writes@[i])@.0 == id,
    {
        let entries = counts_entries(&self.table);
        let mut writes: Vec<SinkOp> = Vec::new();
        let mut i: usize = 0;
        while i < entries.len()
            invariant
                i <= entries@.len(),
                writes@.len() == i,
                forall|j: int|
                    0 <= j < i ==> (#[trigger] writes@[j])@ == (
                        entries@[j].0@,
                        Some(sink_count(entries@[j].1)),
                    ),
            decreases entries@.len() - i,
        {
            writes.push(
                SinkOp::Upsert {
                    id: entries[i].0.clone(),
                    count: to_sink_count(entries[i].1),
                },
            );
            i += 1;
        }
        proof {
            assert forall|id: Seq<char>| self@.counts.contains_key(id) implies exists|i: int|
                0 <= i < writes@.len() && (#[trigger] writes@[i])@.0 == id by {
                let j = choose|j: int| 0 <= j < entries@.len() && (#[trigger] entries@[j]).0@ == id;
                assert(writes@[j]@.0 == id);
            }
            assert forall|i: int| 0 <= i < writes@.len() implies self@.counts.contains_key(
                (#[trigger] writes@[i])@.0,
            ) && writes@[i]@.1 == Some(
                sink_count(self@.counts[writes@[i]@.0]),
            ) by {
                assert(self@.counts.contains_pair(entries@[i].0@, entries@[i].1));
            }
            assert forall|i: int, j: int| 0 <= i < j < writes@.len() implies (
            #[trigger] writes@[i])@.0 != (#[trigger] writes@[j])@.0 by {
                assert(entries@[i].0@ != entries@[j].0@);
            }
        }
        writes
    }

    /// One step of the write-behind worker on the store's queue.
    pub fn next_write(&mut self, sink_ready: bool) -> (step: WriteStep)
        ensures
            final(self)@ == (CounterState {
                outbox: old(self)@.outbox.next_write(sink_ready).0,
                ..old(self)@
            }),
            step@ == old(self)@.outbox.next_write(sink_ready).1,
    {
        self.outbox.next_write(sink_ready)
    }

    /// Says how many changes were dropped because the queue was full since
    /// this was last asked, and starts counting anew.
    pub fn take_dropped(&mut self) -> (dropped: u64)
        ensures
            dropped == old(self)@.outbox.dropped,
            final(self)@ == (CounterState {
                outbox: old(self)@.outbox.take_dropped(),
                ..old(self)@
            }),
    {
        self.outbox.take_dropped()
    }

    /// Reports that the write handed out last has ended.
    pub fn write_done(&mut self)
        ensures
            final(self)@ == (CounterState { outbox: old(self)@.outbox.write_done(), ..old(self)@ }),
    {
        self.outbox.write_done()
    }

    /// Every counter with its value, each once, in no particular order.
    pub fn snapshot_all(&self) -> (entries: Vec<(String, u64)>)
        ensures
            forall|i: int|
                0 <= i < entries@.len() ==> self@.counts.contains_pair(
                    (#[trigger] entries@[i]).0@,
                    entries@[i].1,
                ),
            forall|i: int, j: int|
                0 <= i < j < entries@.len() ==> (#[trigger] entries@[i]).0@ != (
                #[trigger] entries@[j]).0@,
            forall|id: Seq<char>|
                self@.counts.contains_key(id) ==> exists|i: int|
                    0 <= i < entries@.len() && (#[trigger] entries@[i]).0@ == id,
    {
        counts_entries(&self.table)
    }
}

} // verus!
