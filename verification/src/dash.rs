//! The concurrent hash maps and sets of the `dashmap` crate, as the stores
//! hold them.
//!
//! Verus cannot look inside a `DashMap`. What a map holds is therefore given a
//! name per instantiation, and each method that the stores call gets a small
//! function whose contract restates, over that name, what the method's source
//! does. These contracts are taken on trust. Mutating methods take `&mut`
//! here although `DashMap` itself needs only `&`: the stores own their maps
//! exclusively, so the contents can only change through these functions.

use crate::access::CidrBlock;
use crate::linux_do_card::model::UserInfo;
use dashmap::{DashMap, DashSet};
use foldhash::fast::RandomState;
use std::sync::Arc;
use vstd::prelude::*;

verus! {

/// `dashmap::DashMap`, taken as a type of which nothing is known but what
/// the functions below say.
#[verifier::external_type_specification]
#[verifier::external_body]
#[verifier::reject_recursive_types(K)]
#[verifier::reject_recursive_types(V)]
#[verifier::reject_recursive_types(S)]
pub struct ExDashMap<K, V, S>(DashMap<K, V, S>);

/// `dashmap::DashSet`, taken as a type of which nothing is known but what
/// the functions below say.
#[verifier::external_type_specification]
#[verifier::external_body]
#[verifier::reject_recursive_types(K)]
#[verifier::reject_recursive_types(S)]
pub struct ExDashSet<K, S>(DashSet<K, S>);

/// `foldhash::fast::RandomState`, the randomly seeded hasher state that the
/// maps are built with. Nothing is claimed of it.
#[verifier::external_type_specification]
#[verifier::external_body]
pub struct ExRandomState(RandomState);

/// The map holds exactly `len` entries, and so finitely many.
pub open spec fn holds_exactly<V>(entries: Map<Seq<char>, V>, len: nat) -> bool {
    entries.dom().finite() && entries.dom().len() == len
}

/// Largest capacity hint handed to `dashmap`. Rounding the hint up to the
/// shard count and sizing each shard's table cannot overflow below it.
pub const MAX_CAPACITY_HINT: usize = 0x10_0000;

/// The counters that a counter table holds, by identifier.
pub uninterp spec fn counts(table: DashMap<String, u64, RandomState>) -> Map<Seq<char>, u64>;

/// `DashMap::with_capacity_and_hasher` with a fresh `foldhash` state: the new
/// map holds nothing.
#[verifier::external_body]
pub(crate) fn counts_new(capacity: usize) -> (fresh: DashMap<String, u64, RandomState>)
    requires
        capacity <= MAX_CAPACITY_HINT,
    ensures
        (counts(fresh) == Map::<Seq<char>, u64>::empty()),
{
    DashMap::with_capacity_and_hasher(capacity, RandomState::default())
}

/// `DashMap::get`: the count stored under `id`, if there is one.
#[verifier::external_body]
pub(crate) fn counts_get(table: &DashMap<String, u64, RandomState>, id: &str) -> (count: Option<u64>)
    ensures
        count == (if counts(*table).contains_key(id@) {
            Some(counts(*table)[id@])
        } else {
            None
        }),
{
    table.get(id).map(|entry| *entry.value())
}

/// `DashMap::insert`: stores `count` under `id`, replacing what was there, and
/// returns the count it replaced.
#[verifier::external_body]
pub(crate) fn counts_insert(
    table: &mut DashMap<String, u64, RandomState>,
    id: String,
    count: u64,
) -> (previous: Option<u64>)
    ensures
        counts(*final(table)) == counts(*old(table)).insert(id@, count),
        previous == (if counts(*old(table)).contains_key(id@) {
            Some(counts(*old(table))[id@])
        } else {
            None
        }),
{
    table.insert(id, count)
}

/// `DashMap::remove`: drops the entry under `id` and returns its count; a map
/// without that entry is left as it is.
#[verifier::external_body]
pub(crate) fn counts_remove(table: &mut DashMap<String, u64, RandomState>, id: &str) -> (removed:
    Option<u64>)
    ensures
        counts(*final(table)) == counts(*old(table)).remove(id@),
        removed == (if counts(*old(table)).contains_key(id@) {
            Some(counts(*old(table))[id@])
        } else {
            None
        }),
{
    table.remove(id).map(|(_, count)| count)
}

/// `DashMap::len`: the number of entries, summed over the shards.
#[verifier::external_body]
pub(crate) fn counts_len(table: &DashMap<String, u64, RandomState>) -> (len: usize)
    ensures
        holds_exactly(counts(*table), len as nat),
{
    table.len()
}

/// `DashMap::iter`, each entry copied out: every entry of the map occurs
/// exactly once, in an order that depends on the hasher's seed and on which
/// nothing is promised.
#[verifier::external_body]
pub(crate) fn counts_entries(table: &DashMap<String, u64, RandomState>) -> (entries: Vec<
    (String, u64),
>)
    ensures
        forall|i: int|
            0 <= i < entries@.len() ==> counts(*table).contains_pair(
                (#[trigger] entries@[i]).0@,
                entries@[i].1,
            ),
        forall|i: int, j: int|
            0 <= i < j < entries@.len() ==> (#[trigger] entries@[i]).0@ != (
            #[trigger] entries@[j]).0@,
        forall|id: Seq<char>|
            counts(*table).contains_key(id) ==> exists|i: int|
                0 <= i < entries@.len() && (#[trigger] entries@[i]).0@ == id,
{
    table.iter().map(|entry| (entry.key().clone(), *entry.value())).collect()
}

/// The profiles that a profile map holds, by key: the value and the clock
/// reading at which it was fetched.
pub uninterp spec fn profiles(cache: DashMap<String, (Arc<UserInfo>, u64), RandomState>) -> Map<
    Seq<char>,
    (UserInfo, u64),
>;

/// `DashMap::with_capacity_and_hasher` with a fresh `foldhash` state: the new
/// map holds nothing.
#[verifier::external_body]
pub(crate) fn profiles_new(capacity: usize) -> (fresh: DashMap<
    String,
    (Arc<UserInfo>, u64),
    RandomState,
>)
    requires
        capacity <= MAX_CAPACITY_HINT,
    ensures
        (profiles(fresh) == Map::<Seq<char>, (UserInfo, u64)>::empty()),
{
    DashMap::with_capacity_and_hasher(capacity, RandomState::default())
}

/// `DashMap::get`: the entry stored under `key`, if there is one, sharing the
/// stored value.
#[verifier::external_body]
pub(crate) fn profiles_get(
    cache: &DashMap<String, (Arc<UserInfo>, u64), RandomState>,
    key: &str,
) -> (found: Option<(Arc<UserInfo>, u64)>)
    ensures
        found is Some <==> profiles(*cache).contains_key(key@),
        found matches Some(entry) ==> (*entry.0, entry.1) == profiles(*cache)[key@],
{
    cache.get(key).map(|entry| entry.value().clone())
}

/// `DashMap::insert`: stores the value and its reading under `key`,
/// replacing what was there.
#[verifier::external_body]
pub(crate) fn profiles_insert(
    cache: &mut DashMap<String, (Arc<UserInfo>, u64), RandomState>,
    key: String,
    value: Arc<UserInfo>,
    fetched_at: u64,
)
    ensures
        profiles(*final(cache)) == profiles(*old(cache)).insert(key@, (*value, fetched_at)),
{
    cache.insert(key, (value, fetched_at));
}

/// `DashMap::remove`: drops the entry under `key`; a map without that entry
/// is left as it is.
#[verifier::external_body]
pub(crate) fn profiles_remove(
    cache: &mut DashMap<String, (Arc<UserInfo>, u64), RandomState>,
    key: &str,
)
    ensures
        profiles(*final(cache)) == profiles(*old(cache)).remove(key@),
{
    cache.remove(key);
}

/// `DashMap::len`: the number of entries, summed over the shards.
#[verifier::external_body]
pub(crate) fn profiles_len(cache: &DashMap<String, (Arc<UserInfo>, u64), RandomState>) -> (len:
    usize)
    ensures
        holds_exactly(profiles(*cache), len as nat),
{
    cache.len()
}

/// `DashMap::iter`, key and reading of each entry copied out: every entry of
/// the map occurs exactly once, in an order on which nothing is promised.
#[verifier::external_body]
pub(crate) fn profiles_stamps(cache: &DashMap<String, (Arc<UserInfo>, u64), RandomState>) -> (stamps:
    Vec<(String, u64)>)
    ensures
        forall|i: int|
            0 <= i < stamps@.len() ==> profiles(*cache).contains_key((#[trigger] stamps@[i]).0@)
                && profiles(*cache)[stamps@[i].0@].1 == stamps@[i].1,
        forall|i: int, j: int|
            0 <= i < j < stamps@.len() ==> (#[trigger] stamps@[i]).0@ != (
            #[trigger] stamps@[j]).0@,
        forall|key: Seq<char>|
            profiles(*cache).contains_key(key) ==> exists|i: int|
                0 <= i < stamps@.len() && (#[trigger] stamps@[i]).0@ == key,
{
    cache.iter().map(|entry| (entry.key().clone(), entry.value().1)).collect()
}

/// The keys that a marker map holds.
pub uninterp spec fn claims(markers: DashMap<String, (), RandomState>) -> Set<Seq<char>>;

/// `DashMap::with_capacity_and_hasher` with a fresh `foldhash` state: the new
/// map holds nothing.
#[verifier::external_body]
pub(crate) fn claims_new(capacity: usize) -> (fresh: DashMap<String, (), RandomState>)
    requires
        capacity <= MAX_CAPACITY_HINT,
    ensures
        claims(fresh) == Set::<Seq<char>>::empty(),
{
    DashMap::with_capacity_and_hasher(capacity, RandomState::default())
}

/// `DashMap::insert` of a marker: the key is claimed from now on. Returns
/// the marker that was there before, if the key was already claimed.
#[verifier::external_body]
pub(crate) fn claims_insert(markers: &mut DashMap<String, (), RandomState>, key: String) -> (previous:
    Option<()>)
    ensures
        previous is Some <==> claims(*old(markers)).contains(key@),
        claims(*final(markers)) == claims(*old(markers)).insert(key@),
{
    markers.insert(key, ())
}

/// `DashMap::remove`: gives the key up; a map without it is left as it is.
#[verifier::external_body]
pub(crate) fn claims_release(markers: &mut DashMap<String, (), RandomState>, key: &str)
    ensures
        claims(*final(markers)) == claims(*old(markers)).remove(key@),
{
    markers.remove(key);
}

/// The notes that a note map holds, each with what cleaning made of it:
/// `None` where cleaning changed nothing.
pub uninterp spec fn cleaned_notes(notes: DashMap<String, Option<String>, RandomState>) -> Map<
    Seq<char>,
    Option<Seq<char>>,
>;

/// `DashMap::with_hasher` with a fresh `foldhash` state: the new map holds
/// nothing.
#[verifier::external_body]
pub(crate) fn cleaned_notes_new() -> (fresh: DashMap<String, Option<String>, RandomState>)
    ensures
        (cleaned_notes(fresh) == Map::<Seq<char>, Option<Seq<char>>>::empty()),
{
    DashMap::with_hasher(RandomState::default())
}

/// `DashMap::get`: what is stored under `note`, if anything.
#[verifier::external_body]
pub(crate) fn cleaned_notes_get(
    notes: &DashMap<String, Option<String>, RandomState>,
    note: &str,
) -> (found: Option<Option<String>>)
    ensures
        found is Some <==> cleaned_notes(*notes).contains_key(note@),
        found matches Some(stored) ==> crate::text::owned_text_of(stored) == cleaned_notes(
            *notes,
        )[note@],
{
    notes.get(note).map(|entry| entry.value().clone())
}

/// `DashMap::insert`: stores `cleaned` under `note`, replacing what was
/// there.
#[verifier::external_body]
pub(crate) fn cleaned_notes_insert(
    notes: &mut DashMap<String, Option<String>, RandomState>,
    note: String,
    cleaned: Option<String>,
)
    ensures
        cleaned_notes(*final(notes)) == cleaned_notes(*old(notes)).insert(
            note@,
            crate::text::owned_text_of(cleaned),
        ),
{
    notes.insert(note, cleaned);
}

/// `DashMap::remove`: drops the entry under `note`; a map without that entry
/// is left as it is.
#[verifier::external_body]
pub(crate) fn cleaned_notes_remove(
    notes: &mut DashMap<String, Option<String>, RandomState>,
    note: &str,
)
    ensures
        cleaned_notes(*final(notes)) == cleaned_notes(*old(notes)).remove(note@),
{
    notes.remove(note);
}

/// The network ranges that an allow-list holds.
pub uninterp spec fn listed_blocks(list: DashSet<CidrBlock, RandomState>) -> Set<CidrBlock>;

/// `DashSet::with_hasher` with a fresh `foldhash` state: the new set holds
/// nothing.
#[verifier::external_body]
pub(crate) fn listed_blocks_new() -> (fresh: DashSet<CidrBlock, RandomState>)
    ensures
        listed_blocks(fresh) == Set::<CidrBlock>::empty(),
{
    DashSet::with_hasher(RandomState::default())
}

/// `DashSet::clear`: the set holds nothing afterwards.
#[verifier::external_body]
pub(crate) fn listed_blocks_clear(list: &mut DashSet<CidrBlock, RandomState>)
    ensures
        listed_blocks(*final(list)) == Set::<CidrBlock>::empty(),
{
    list.clear();
}

/// `DashSet::insert`: the set holds the range afterwards. Says whether the
/// range is new to the set.
#[verifier::external_body]
pub(crate) fn listed_blocks_insert(list: &mut DashSet<CidrBlock, RandomState>, block: CidrBlock) -> (added:
    bool)
    ensures
        added == !listed_blocks(*old(list)).contains(block),
        listed_blocks(*final(list)) == listed_blocks(*old(list)).insert(block),
{
    list.insert(block)
}

/// `DashSet::iter`, each range copied out: the ranges of the set, all of
/// them, in an order on which nothing is promised.
#[verifier::external_body]
pub(crate) fn listed_blocks_all(list: &DashSet<CidrBlock, RandomState>) -> (blocks: Vec<CidrBlock>)
    ensures
        blocks@.to_set() == listed_blocks(*list),
{
    list.iter().map(|block| *block.key()).collect()
}

} // verus!
