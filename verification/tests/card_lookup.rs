use greeting_core::linux_do_card::cache::ProfileCache;
use greeting_core::linux_do_card::lookup;
use greeting_core::linux_do_card::model::{User, UserInfo, UserSummary};

fn info(name: &str, fetched_at: u64) -> UserInfo {
    UserInfo {
        created: Some(fetched_at),
        user: User { username: name.to_string(), ..User::default() },
        user_summary: UserSummary::default(),
    }
}

#[test]
fn the_first_request_starts_the_worker() {
    let mut cache = ProfileCache::new();
    let found = lookup(&mut cache, None, true, Some(1), 0);
    assert!(found.start_worker);
    assert!(found.user_info.is_none());
    assert!(found.task.is_none());
    let found = lookup(&mut cache, Some("neo"), false, None, 0);
    assert!(!found.start_worker);
}

#[test]
fn a_counted_visit_or_a_visit_from_the_forum_may_fetch() {
    let mut cache = ProfileCache::new();
    let found = lookup(&mut cache, Some("a"), false, None, 0);
    assert!(found.user_info.is_none());
    assert!(found.task.is_none());
    let found = lookup(&mut cache, Some("a"), false, Some(0), 0);
    let task = found.task.unwrap();
    assert_eq!(task.key(), "a");
    assert!(task.is_claimed());
    let found = lookup(&mut cache, Some("b"), true, None, 0);
    assert_eq!(found.task.unwrap().key(), "b");
    let found = lookup(&mut cache, Some("b"), true, Some(5), 0);
    assert!(found.task.is_none());
}

#[test]
fn a_cached_profile_is_handed_out() {
    let mut cache = ProfileCache::new();
    cache.write_cache(info("neo", 5));
    let found = lookup(&mut cache, Some("neo"), false, None, 6);
    assert_eq!(*found.user_info.unwrap(), info("neo", 5));
    assert!(found.task.is_none());
}

#[test]
fn a_stale_profile_is_refreshed_once_whoever_asks() {
    let mut cache = ProfileCache::new();
    cache.write_cache(info("neo", 5));
    let stale = 300_000_000_006;
    // the first request for the stale card starts the refresh, counted or not
    let found = lookup(&mut cache, Some("neo"), false, None, stale);
    assert_eq!(*found.user_info.unwrap(), info("neo", 5));
    let task = found.task.unwrap();
    assert_eq!(task.key(), "neo");
    assert!(task.is_claimed());
    // the requests after it are served the old value and start nothing
    for i in 1..10u64 {
        let found = lookup(&mut cache, Some("neo"), true, Some(i), stale + i);
        assert_eq!(*found.user_info.unwrap(), info("neo", 5));
        assert!(found.task.is_none());
    }
    cache.finish_fetch(task, Some(info("neo", stale + 20)));
    let found = lookup(&mut cache, Some("neo"), true, Some(11), stale + 21);
    assert_eq!(found.user_info.unwrap().created, Some(stale + 20));
    assert!(found.task.is_none());
}
