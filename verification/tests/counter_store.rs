use greeting_core::access::{CidrBlock, IpAddress};
use greeting_core::config::Config;
use greeting_core::counter::db::{SinkOp, WriteStep};
use greeting_core::counter::{Counter, DeleteError};

fn loopback() -> CidrBlock {
    CidrBlock::new(IpAddress::V4(0x7f00_0000), 8).unwrap()
}

fn config(secret: Option<&str>, ids: &[&str], max: usize) -> Config {
    Config {
        access_key: secret.map(|s| s.to_string()),
        cidr_whitelist: vec![loopback()],
        user_id: ids.iter().map(|s| s.to_string()).collect(),
        max_counter: max,
    }
}

fn sorted(mut entries: Vec<(String, u64)>) -> Vec<(String, u64)> {
    entries.sort();
    entries
}

fn drain(store: &mut Counter) -> Vec<SinkOp> {
    let mut ops = Vec::new();
    loop {
        match store.next_write(true) {
            WriteStep::Write(op) => {
                ops.push(op);
                store.write_done();
            }
            WriteStep::Idle => return ops,
            other => panic!("unexpected step {:?}", other),
        }
    }
}

#[test]
fn preloaded_counter_counts_then_is_deleted_for_good() {
    let mut store = Counter::init(&config(Some("s3cret"), &["alice"], 100), &Vec::new());
    assert_eq!(store.get("alice"), Some(0));
    assert_eq!(store.increment_or_create("alice", None, None, false), Some(1));
    assert_eq!(store.increment_or_create("alice", None, None, false), Some(2));
    assert_eq!(store.delete("alice", Some("s3cret"), None), Ok(()));
    assert_eq!(store.increment_or_create("alice", None, None, false), None);
    assert_eq!(store.get("alice"), None);
}

#[test]
fn unauthorized_creation_leaves_the_store_alone() {
    let mut store = Counter::init(&config(Some("s3cret"), &[], 100), &Vec::new());
    assert_eq!(store.increment_or_create("mallory", Some("guess"), None, false), None);
    assert_eq!(
        store.increment_or_create("mallory", None, Some(IpAddress::V4(0x0a00_0001)), false),
        None
    );
    assert_eq!(store.increment_or_create("mallory", None, None, true), None);
    assert_eq!(store.len(), 0);
    assert!(store.snapshot_all().is_empty());
    assert!(!store.sweep_due());
    assert!(matches!(store.next_write(true), WriteStep::Idle));
}

#[test]
fn without_a_secret_only_the_allow_list_creates() {
    let mut store = Counter::init(&config(None, &[], 100), &Vec::new());
    assert_eq!(store.increment_or_create("x", Some(""), None, false), None);
    assert_eq!(store.increment_or_create("x", Some("anything"), None, false), None);
    assert_eq!(
        store.increment_or_create("x", None, Some(IpAddress::V4(0x7f01_0203)), false),
        Some(1)
    );
}

#[test]
fn an_empty_configured_secret_is_no_secret() {
    let mut store = Counter::init(&config(Some(""), &[], 100), &Vec::new());
    assert_eq!(store.increment_or_create("x", Some(""), None, false), None);
    assert_eq!(store.len(), 0);
}

#[test]
fn creation_by_secret_starts_at_one_and_is_queued() {
    let mut store = Counter::init(&config(Some("s3cret"), &[], 100), &Vec::new());
    assert_eq!(store.increment_or_create("dave", Some("s3cret"), None, false), Some(1));
    assert_eq!(store.increment_or_create("dave", None, None, false), Some(2));
    assert_eq!(
        drain(&mut store),
        vec![
            SinkOp::Upsert { id: "dave".to_string(), count: 1 },
            SinkOp::Upsert { id: "dave".to_string(), count: 2 },
        ]
    );
}

#[test]
fn a_thousand_visits_add_a_thousand() {
    let mut store = Counter::new(100, 16);
    store.bulk_load(&vec![("erin".to_string(), 41), ("other".to_string(), 5)]);
    for n in 1..=1000u64 {
        assert_eq!(store.increment_or_create("erin", None, None, false), Some(41 + n));
    }
    assert_eq!(store.get("erin"), Some(1041));
    assert_eq!(store.get("other"), Some(5));
}

#[test]
fn counting_wraps_around_at_the_top() {
    let mut store = Counter::new(100, 16);
    store.bulk_load(&vec![("top".to_string(), u64::MAX - 1)]);
    assert_eq!(store.increment_or_create("top", None, None, false), Some(u64::MAX));
    assert_eq!(store.increment_or_create("top", None, None, false), Some(0));
    assert_eq!(store.increment_or_create("top", None, None, false), Some(1));
}

#[test]
fn debug_mode_reads_without_counting() {
    let mut store = Counter::new(100, 16);
    store.bulk_load(&vec![("frank".to_string(), 9)]);
    assert_eq!(store.increment_or_create("frank", None, None, true), Some(9));
    assert_eq!(store.increment_or_create("frank", None, None, true), Some(9));
    assert_eq!(store.get("frank"), Some(9));
    assert_eq!(
        drain(&mut store),
        vec![
            SinkOp::Upsert { id: "frank".to_string(), count: 9 },
            SinkOp::Upsert { id: "frank".to_string(), count: 9 },
        ]
    );
}

#[test]
fn delete_reports_unauthorized_before_not_found() {
    let mut store = Counter::init(&config(Some("s3cret"), &["alice"], 100), &Vec::new());
    assert_eq!(store.delete("nobody", None, None), Err(DeleteError::Unauthorized));
    assert_eq!(store.delete("alice", Some("wrong"), None), Err(DeleteError::Unauthorized));
    assert_eq!(store.delete("nobody", Some("s3cret"), None), Err(DeleteError::NotFound));
    assert_eq!(store.get("alice"), Some(0));
    assert!(matches!(store.next_write(true), WriteStep::Idle));
    assert_eq!(store.delete("alice", None, Some(IpAddress::V4(0x7f00_0001))), Ok(()));
    assert_eq!(drain(&mut store), vec![SinkOp::Delete { id: "alice".to_string() }]);
}

#[test]
fn sweep_falls_due_over_the_ceiling_and_removes_only_ones() {
    let mut store = Counter::init(&config(Some("k"), &["zero"], 3), &Vec::new());
    assert_eq!(store.increment_or_create("a", Some("k"), None, false), Some(1));
    assert_eq!(store.increment_or_create("b", Some("k"), None, false), Some(1));
    assert_eq!(store.increment_or_create("b", None, None, false), Some(2));
    assert!(!store.sweep_due());
    assert_eq!(store.increment_or_create("c", Some("k"), None, false), Some(1));
    assert!(store.sweep_due());
    assert_eq!(store.len(), 4);
    let mut removed = store.sweep();
    removed.sort();
    assert_eq!(removed, vec!["a".to_string(), "c".to_string()]);
    assert!(!store.sweep_due());
    assert_eq!(
        sorted(store.snapshot_all()),
        vec![("b".to_string(), 2), ("zero".to_string(), 0)]
    );
}

#[test]
fn sweep_of_a_table_without_ones_removes_nothing() {
    let mut store = Counter::new(0, 16);
    store.bulk_load(&vec![("a".to_string(), 0), ("b".to_string(), 2), ("c".to_string(), u64::MAX)]);
    assert!(store.sweep().is_empty());
    assert_eq!(store.len(), 3);
}

#[test]
fn bulk_load_lets_the_later_entry_win() {
    let mut store = Counter::new(100, 16);
    store.bulk_load(&vec![
        ("a".to_string(), 1),
        ("b".to_string(), 2),
        ("a".to_string(), 7),
    ]);
    assert_eq!(sorted(store.snapshot_all()), vec![("a".to_string(), 7), ("b".to_string(), 2)]);
    store.bulk_load(&vec![("b".to_string(), 0)]);
    assert_eq!(store.get("b"), Some(0));
    assert!(matches!(store.next_write(true), WriteStep::Idle));
}

#[test]
fn init_keeps_stored_counts_of_configured_ids() {
    let stored = vec![("alice".to_string(), 12), ("zed".to_string(), 3)];
    let store = Counter::init(&config(None, &["alice", "bob"], 100), &stored);
    assert_eq!(
        sorted(store.snapshot_all()),
        vec![("alice".to_string(), 12), ("bob".to_string(), 0), ("zed".to_string(), 3)]
    );
}

#[test]
fn update_config_swaps_the_secret_only_for_a_new_one() {
    let mut store = Counter::init(&config(Some("first"), &[], 100), &Vec::new());
    store.update_config(&config(None, &[], 100));
    assert_eq!(store.increment_or_create("a", Some("first"), None, false), Some(1));
    store.update_config(&config(Some(""), &[], 100));
    assert_eq!(store.increment_or_create("b", Some("first"), None, false), Some(1));
    store.update_config(&config(Some("second"), &[], 100));
    assert_eq!(store.increment_or_create("c", Some("first"), None, false), None);
    assert_eq!(store.increment_or_create("c", Some("second"), None, false), Some(1));
}

#[test]
fn update_config_replaces_allow_list_and_ceiling() {
    let mut store = Counter::init(&config(None, &[], 100), &Vec::new());
    let inside = Some(IpAddress::V4(0x7f00_0001));
    assert_eq!(store.increment_or_create("a", None, inside, false), Some(1));
    let narrow = Config {
        access_key: None,
        cidr_whitelist: vec![CidrBlock::new(IpAddress::V4(0x0a00_0000), 8).unwrap()],
        user_id: Vec::new(),
        max_counter: 1,
    };
    store.update_config(&narrow);
    assert_eq!(store.increment_or_create("b", None, inside, false), None);
    assert!(!store.sweep_due());
    assert_eq!(
        store.increment_or_create("b", None, Some(IpAddress::V4(0x0a09_0807)), false),
        Some(1)
    );
    assert!(store.sweep_due());
}

#[test]
fn persist_all_writes_every_counter_once() {
    let mut store = Counter::new(100, 16);
    store.bulk_load(&vec![("a".to_string(), 1), ("big".to_string(), u64::MAX)]);
    let mut writes = store.persist_all();
    writes.sort_by_key(|op| match op {
        SinkOp::Upsert { id, .. } => id.clone(),
        SinkOp::Delete { id } => id.clone(),
    });
    assert_eq!(
        writes,
        vec![
            SinkOp::Upsert { id: "a".to_string(), count: 1 },
            SinkOp::Upsert { id: "big".to_string(), count: -1 },
        ]
    );
}

#[test]
fn a_full_queue_drops_the_change_but_keeps_the_count() {
    let mut store = Counter::new(100, 2);
    store.bulk_load(&vec![("a".to_string(), 0)]);
    assert_eq!(store.increment_or_create("a", None, None, false), Some(1));
    assert_eq!(store.increment_or_create("a", None, None, false), Some(2));
    assert_eq!(store.take_dropped(), 0);
    assert_eq!(store.increment_or_create("a", None, None, false), Some(3));
    assert_eq!(store.take_dropped(), 1);
    assert_eq!(store.increment_or_create("a", None, None, true), Some(3));
    assert_eq!(store.delete("a", None, Some(greeting_core::access::IpAddress::V4(1))), Err(DeleteError::Unauthorized));
    assert_eq!(store.take_dropped(), 1);
    assert_eq!(store.take_dropped(), 0);
    assert_eq!(
        drain(&mut store),
        vec![
            SinkOp::Upsert { id: "a".to_string(), count: 1 },
            SinkOp::Upsert { id: "a".to_string(), count: 2 },
        ]
    );
    assert_eq!(store.increment_or_create("a", None, None, false), Some(4));
    assert_eq!(drain(&mut store), vec![SinkOp::Upsert { id: "a".to_string(), count: 4 }]);
}
