use greeting_core::clock::Span;
use greeting_core::linux_do_card::cache::{
    Cache, ProfileCache, Upkeep, CACHE_TTL, DESIRED_MAX_KEY_COUNT,
};
use greeting_core::linux_do_card::model::{User, UserInfo, UserSummary};
use std::sync::Arc;

const SEC: u64 = 1_000_000_000;

fn info(name: &str, fetched_at: u64) -> UserInfo {
    UserInfo {
        created: Some(fetched_at),
        user: User { id: 7, username: name.to_string(), ..User::default() },
        user_summary: UserSummary { days_visited: 3, ..UserSummary::default() },
    }
}

#[test]
fn unauthorized_lookup_of_unknown_key_finds_nothing_and_fetches_nothing() {
    let mut cache = ProfileCache::new();
    let (value, task) = cache.get_or_fetch("bob", false, 0);
    assert!(value.is_none());
    assert!(task.is_none());
    // the key was not claimed either: an authorized caller still gets the fetch
    let (value, task) = cache.get_or_fetch("bob", true, 1);
    assert!(value.is_none());
    let task = task.unwrap();
    assert_eq!(task.key(), "bob");
    assert!(task.is_claimed());
}

#[test]
fn cold_key_is_fetched_by_one_caller_only() {
    let mut cache = ProfileCache::new();
    let mut claimed = Vec::new();
    for i in 0..50u64 {
        let (value, task) = cache.get_or_fetch("carol", i % 3 != 0, i);
        assert!(value.is_none());
        if let Some(task) = task {
            assert_eq!(i, 1);
            claimed.push(task);
        }
    }
    assert_eq!(claimed.len(), 1);
    let task = cache.start_fetch(claimed.pop().unwrap()).unwrap();
    assert_eq!(task.key(), "carol");
    assert!(task.is_claimed());
    let due = cache.finish_fetch(task, Some(info("carol", 60 * SEC)));
    assert_eq!(due, Upkeep { retain: false, truncate: false });
    for i in 0..50u64 {
        let (value, task) = cache.get_or_fetch("carol", true, 60 * SEC + i);
        assert_eq!(*value.unwrap(), info("carol", 60 * SEC));
        assert!(task.is_none());
    }
    assert_eq!(cache.len(), 1);
}

#[test]
fn a_failed_fetch_gives_the_key_free_again() {
    let mut cache = ProfileCache::new();
    let claimed = cache.get_or_fetch("dan", true, 0).1.unwrap();
    assert!(cache.get_or_fetch("dan", true, 1).1.is_none());
    let started = cache.start_fetch(claimed).unwrap();
    assert!(cache.get_or_fetch("dan", true, 2).1.is_none());
    let due = cache.finish_fetch(started, None);
    assert_eq!(due, Upkeep { retain: false, truncate: false });
    let again = cache.get_or_fetch("dan", true, 3).1.unwrap();
    assert_eq!(again.key(), "dan");
    assert!(again.is_claimed());
    assert!(cache.get_or_fetch("dan", true, 4).1.is_none());
    assert_eq!(cache.len(), 0);
    assert_eq!(cache.queue_len(), 0);
}

#[test]
fn a_stale_value_is_served_with_its_refresh_to_whoever_asks() {
    let mut cache = ProfileCache::new();
    cache.write_cache(info("eve", 10 * SEC));
    // exactly 300 s later the value still counts as fresh
    let (value, task) = cache.get_or_fetch("eve", true, 310 * SEC);
    assert_eq!(value.unwrap().created, Some(10 * SEC));
    assert!(task.is_none());
    // a moment later it is stale: served all the same, along with its refresh
    let (value, task) = cache.get_or_fetch("eve", true, 310 * SEC + 1);
    assert_eq!(*value.unwrap(), info("eve", 10 * SEC));
    let task = task.unwrap();
    assert_eq!(task.key(), "eve");
    assert!(!task.is_claimed());
    // an unauthorized caller is served alike
    let (value, task) = cache.get_or_fetch("eve", false, 313 * SEC);
    assert_eq!(*value.unwrap(), info("eve", 10 * SEC));
    let task = task.unwrap();
    assert_eq!(task.key(), "eve");
    assert!(!task.is_claimed());
    assert_eq!(cache.len(), 1);
    assert_eq!(cache.queue_len(), 1);
}

#[test]
fn of_many_stale_reads_one_refresh_goes_out() {
    let mut cache = ProfileCache::new();
    cache.write_cache(info("eve", 0));
    let mut tasks = Vec::new();
    for i in 0..20u64 {
        let (value, task) = cache.get_or_fetch("eve", i % 2 == 0, 301 * SEC + i);
        assert_eq!(value.unwrap().created, Some(0));
        tasks.push(task.unwrap());
    }
    // the worker's task for the same key is among them
    let step = cache.next_refresh(302 * SEC);
    tasks.insert(7, step.refresh.unwrap());
    let mut started = Vec::new();
    for task in tasks {
        if let Some(task) = cache.start_fetch(task) {
            started.push(task);
        }
    }
    assert_eq!(started.len(), 1);
    let task = started.pop().unwrap();
    assert_eq!(task.key(), "eve");
    assert!(task.is_claimed());
    // a task that holds its marker goes ahead when started
    let task = cache.start_fetch(task).unwrap();
    // while the refresh is under way, later stale reads start nothing
    let (value, late) = cache.get_or_fetch("eve", true, 303 * SEC);
    assert!(value.is_some());
    assert!(cache.start_fetch(late.unwrap()).is_none());
    // the refresh replaces the value and frees the key
    cache.finish_fetch(task, Some(info("eve", 304 * SEC)));
    let (value, task) = cache.get_or_fetch("eve", true, 305 * SEC);
    assert_eq!(value.unwrap().created, Some(304 * SEC));
    assert!(task.is_none());
    let (_, task) = cache.get_or_fetch("eve", true, 700 * SEC);
    assert!(cache.start_fetch(task.unwrap()).is_some());
}

#[test]
fn a_refresh_waits_for_a_first_fetch_under_way() {
    let mut cache = ProfileCache::new();
    cache.write_cache(info("old", 0));
    let worker = cache.next_refresh(400 * SEC).refresh.unwrap();
    assert!(cache.get_or_fetch("new", true, 400 * SEC).1.unwrap().is_claimed());
    // another key's marker does not stand in the way
    let started = cache.start_fetch(worker).unwrap();
    assert_eq!(started.key(), "old");
    // a refresh that fails gives only its own marker up
    cache.finish_fetch(started, None);
    assert!(cache.get_or_fetch("new", true, 401 * SEC).1.is_none());
    let (_, task) = cache.get_or_fetch("old", false, 401 * SEC);
    assert!(cache.start_fetch(task.unwrap()).is_some());
}

#[test]
fn a_clock_reading_before_the_fetch_counts_as_fresh() {
    let mut cache = ProfileCache::new();
    cache.write_cache(info("early", 500 * SEC));
    let (value, task) = cache.get_or_fetch("early", true, 0);
    assert!(value.is_some());
    assert!(task.is_none());
}

#[test]
fn a_value_is_stored_under_its_user_name() {
    let mut cache = ProfileCache::new();
    let claimed = cache.get_or_fetch("Finn", true, 0).1.unwrap();
    let other = cache.get_or_fetch("finn", true, 0).1.unwrap();
    // the end of a fetch gives up the marker of the key that was asked for
    cache.finish_fetch(claimed, Some(info("finn", SEC)));
    assert_eq!(cache.get_or_fetch("finn", false, SEC).0.unwrap().created, Some(SEC));
    let again = cache.get_or_fetch("Finn", true, SEC).1.unwrap();
    assert_eq!(again.key(), "Finn");
    assert!(again.is_claimed());
    // and leaves alone the marker of the name, which another fetch holds
    cache.retain_fresh(400 * SEC);
    assert!(cache.get_or_fetch("finn", true, 400 * SEC).1.is_none());
    cache.finish_fetch(other, None);
    assert!(cache.get_or_fetch("finn", true, 400 * SEC).1.unwrap().is_claimed());
}

#[test]
fn a_write_ends_what_is_in_flight_under_its_name() {
    let mut cache = ProfileCache::new();
    assert!(cache.get_or_fetch("gil", true, 0).1.is_some());
    assert!(cache.get_or_fetch("gil", true, 1).1.is_none());
    let due = cache.write_cache(info("gil", 2));
    assert_eq!(due, Upkeep { retain: false, truncate: false });
    assert!(cache.get_or_fetch("gil", true, 3).0.is_some());
    cache.retain_fresh(500 * SEC);
    assert!(cache.get_or_fetch("gil", true, 500 * SEC).1.unwrap().is_claimed());
}

#[test]
fn a_value_without_a_fetch_time_is_ignored() {
    let mut cache = ProfileCache::new();
    assert!(cache.get_or_fetch("ghost", true, 0).1.is_some());
    let due = cache.write_cache(UserInfo {
        created: None,
        user: User { username: "ghost".to_string(), ..User::default() },
        user_summary: UserSummary::default(),
    });
    assert_eq!(due, Upkeep { retain: false, truncate: false });
    assert_eq!(cache.len(), 0);
    assert_eq!(cache.queue_len(), 0);
    assert!(cache.get_or_fetch("ghost", true, 1).1.is_none());
}

#[test]
fn the_worker_is_started_once() {
    let mut cache = ProfileCache::new();
    assert!(cache.try_init_cache_update_queue());
    assert!(!cache.try_init_cache_update_queue());
    assert!(!cache.try_init_cache_update_queue());
}

#[test]
fn the_worker_sleeps_a_full_ttl_on_an_empty_queue() {
    let mut cache = ProfileCache::new();
    let step = cache.next_refresh(123);
    assert_eq!(step.sleep, Span { secs: 300, nanos: 0 });
    assert!(step.refresh.is_none());
    assert_eq!(cache.queue_len(), 0);
}

#[test]
fn the_worker_refreshes_the_oldest_write_when_its_time_is_up() {
    let mut cache = ProfileCache::new();
    cache.write_cache(info("first", 10 * SEC));
    cache.write_cache(info("second", 20 * SEC));
    cache.write_cache(info("third", 25 * SEC + 5));
    assert_eq!(cache.queue_len(), 3);
    let step = cache.next_refresh(30 * SEC);
    let task = step.refresh.unwrap();
    assert_eq!(task.key(), "first");
    assert!(!task.is_claimed());
    assert_eq!(step.sleep, Span { secs: 280, nanos: 0 });
    let step = cache.next_refresh(320 * SEC);
    assert_eq!(step.refresh.unwrap().key(), "second");
    assert_eq!(step.sleep, Span { secs: 0, nanos: 0 });
    let step = cache.next_refresh(321 * SEC);
    assert_eq!(step.refresh.unwrap().key(), "third");
    assert_eq!(step.sleep, Span { secs: 4, nanos: 5 });
    assert_eq!(cache.queue_len(), 0);
    let step = cache.next_refresh(900 * SEC);
    assert!(step.refresh.is_none());
    assert_eq!(step.sleep, Span { secs: CACHE_TTL, nanos: 0 });
    // the cache itself is not touched by the worker
    assert_eq!(cache.len(), 3);
}

#[test]
fn an_expired_write_is_refreshed_without_sleep() {
    let mut cache = ProfileCache::new();
    cache.write_cache(info("late", 0));
    let step = cache.next_refresh(300 * SEC + 1);
    assert_eq!(step.refresh.unwrap().key(), "late");
    assert_eq!(step.sleep, Span { secs: 0, nanos: 0 });
}

#[test]
fn a_cache_over_its_ceiling_asks_for_a_cleanup() {
    let mut cache = ProfileCache::new();
    for i in 0..DESIRED_MAX_KEY_COUNT as u64 {
        let due = cache.write_cache(info(&format!("user{}", i), i * SEC));
        assert_eq!(due, Upkeep { retain: false, truncate: false });
    }
    let now = 5300 * SEC;
    let due = cache.write_cache(info("one too many", now));
    assert_eq!(due, Upkeep { retain: true, truncate: true });
    assert_eq!(cache.len(), DESIRED_MAX_KEY_COUNT + 1);
    cache.retain_fresh(now);
    // fresh at 5300 s: what was fetched at 5000 s or later
    assert_eq!(cache.len(), DESIRED_MAX_KEY_COUNT - 5000 + 1);
    assert!(cache.get_or_fetch("user4999", false, now).0.is_none());
    assert!(cache.get_or_fetch("user5000", false, now).0.is_some());
    assert!(cache.get_or_fetch("one too many", false, now).0.is_some());
    assert_eq!(cache.queue_len(), DESIRED_MAX_KEY_COUNT + 1);
    cache.truncate_queue();
    assert_eq!(cache.queue_len(), DESIRED_MAX_KEY_COUNT / 2);
    // the newest writes stay, and the oldest of them is next
    let step = cache.next_refresh(now);
    assert_eq!(step.refresh.unwrap().key(), "user2561");
    cache.truncate_queue();
    assert_eq!(cache.queue_len(), DESIRED_MAX_KEY_COUNT / 2 - 1);
}

#[test]
fn retain_ttl_keeps_what_is_fresh() {
    let mut cache = Cache::with_capacity(16);
    cache.insert("old".to_string(), Arc::new(info("old", 0)), 0);
    cache.insert("rim".to_string(), Arc::new(info("rim", 10 * SEC - 1)), 10 * SEC - 1);
    cache.insert("edge".to_string(), Arc::new(info("edge", 10 * SEC)), 10 * SEC);
    cache.insert("new".to_string(), Arc::new(info("new", 200 * SEC)), 200 * SEC);
    // at 310 s: "old" is 310 s old, "rim" a moment over 300 s, "edge" 300 s, "new" 110 s
    cache.retain_ttl(300, 310 * SEC);
    assert!(cache.get("old").is_none());
    assert!(cache.get("rim").is_none());
    assert_eq!(cache.get("edge").unwrap().1, 10 * SEC);
    assert_eq!(*cache.get("new").unwrap().0, info("new", 200 * SEC));
    assert_eq!(cache.len(), 2);
    cache.retain_ttl(100, 300 * SEC);
    assert_eq!(cache.len(), 1);
    cache.retain_ttl(0, 200 * SEC);
    assert_eq!(cache.len(), 1);
    cache.retain_ttl(0, 200 * SEC + 1);
    assert_eq!(cache.len(), 0);
    assert_eq!(CACHE_TTL, 300);
    assert_eq!(DESIRED_MAX_KEY_COUNT, 5120);
}

#[test]
fn a_huge_capacity_hint_is_cut_down() {
    let mut cache = Cache::with_capacity(usize::MAX);
    assert_eq!(cache.len(), 0);
    cache.insert("a".to_string(), Arc::new(info("a", 1)), 1);
    assert_eq!(cache.len(), 1);
}
