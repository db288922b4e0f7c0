//! Profile cards: what a card shows is the cached profile of a user of an
//! upstream forum. This module decides what a request for a card gets from
//! the cache and which work it leaves behind; drawing the card is not done
//! here.

pub mod cache;
pub mod model;
pub mod upstream;

use crate::linux_do_card::cache::{CacheState, FetchTask, ProfileCache};
use crate::linux_do_card::model::UserInfo;
use std::sync::Arc;
use vstd::prelude::*;

verus! {

/// Who may cause the first fetch of a user from upstream: a request that was
/// sent from the forum's own pages, and a request for an identifier that has
/// a counter.
pub open spec fn may_fetch(from_linux_do: bool, count: Option<u64>) -> bool {
    from_linux_do || count is Some
}

/// What a request for a card is answered with.
#[derive(Debug)]
pub struct CardLookup {
    /// The refresh worker is not running yet and has to be started.
    pub start_worker: bool,
    /// The profile to draw; without one, the empty card is drawn.
    pub user_info: Option<Arc<UserInfo>>,
    /// The fetch to run in the background. It has been started: it holds
    /// its key's marker, and its end is to be reported.
    pub task: Option<FetchTask>,
}

/// Answers a request for the card of `user`, made for a visit that was
/// counted as `count`. The lookup's task, if there is one, is started at
/// once, so that what comes back is a fetch to run or nothing. A request
/// without a user only makes sure that the refresh worker is started.
pub fn lookup(
    cache: &mut ProfileCache,
    user: Option<&str>,
    from_linux_do: bool,
    count: Option<u64>,
    now: u64,
) -> (found: CardLookup)
    ensures
        found.start_worker == !old(cache)@.worker_started,
        match user {
            Some(name) => {
                let started = CacheState { worker_started: true, ..old(cache)@ };
                let step = started.get_and_start(name@, may_fetch(from_linux_do, count), now);
                &&& final(cache)@ == step.0
                &&& (match found.user_info {
                    Some(value) => Some(*value),
                    None => None,
                }) == step.1
                &&& crate::linux_do_card::cache::task_of(found.task) == step.2
            },
            None => {
                &&& final(cache)@ == (CacheState { worker_started: true, ..old(cache)@ })
                &&& found.user_info is None
                &&& found.task is None
            },
        },
{
    let start_worker: bool = cache.try_init_cache_update_queue();
    match user {
        Some(name) => {
            let authorized: bool = from_linux_do || count.is_some();
            let (user_info, task) = cache.get_or_fetch(name, authorized, now);
            let task: Option<FetchTask> = match task {
                Some(task) => cache.start_fetch(task),
                None => None,
            };
            CardLookup { start_worker, user_info, task }
        },
        None => CardLookup { start_worker, user_info: None, task: None },
    }
}

} // verus!
