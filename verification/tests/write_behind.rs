use greeting_core::counter::db::{
    from_sink_count, to_sink_count, PersistMessage, Persistent, SinkOp, WriteStep,
    DEFAULT_QUEUE_CAPACITY,
};

fn message(id: &str, new_count: Option<u64>) -> PersistMessage {
    PersistMessage { id: id.to_string(), new_count }
}

#[test]
fn sink_counts_survive_the_round_trip() {
    assert_eq!(to_sink_count(u64::MAX - 1), -2);
    assert_eq!(from_sink_count(-2), u64::MAX - 1);
    assert_eq!(from_sink_count(to_sink_count(u64::MAX - 1)), u64::MAX - 1);
    assert_eq!(to_sink_count(0), 0);
    assert_eq!(to_sink_count(i64::MAX as u64), i64::MAX);
    assert_eq!(to_sink_count(i64::MAX as u64 + 1), i64::MIN);
    assert_eq!(to_sink_count(u64::MAX), -1);
    assert_eq!(from_sink_count(i64::MIN), 1u64 << 63);
    assert_eq!(from_sink_count(-1), u64::MAX);
    assert_eq!(from_sink_count(i64::MAX), i64::MAX as u64);
}

#[test]
fn messages_leave_in_the_order_they_came() {
    let mut queue = Persistent::init(DEFAULT_QUEUE_CAPACITY);
    assert!(queue.send(message("a", Some(1))));
    assert!(queue.send(message("b", Some(1))));
    assert!(queue.send(message("a", None)));
    assert_eq!(queue.len(), 3);
    assert_eq!(
        queue.next_write(true),
        WriteStep::Write(SinkOp::Upsert { id: "a".to_string(), count: 1 })
    );
    queue.write_done();
    assert_eq!(
        queue.next_write(true),
        WriteStep::Write(SinkOp::Upsert { id: "b".to_string(), count: 1 })
    );
    queue.write_done();
    assert_eq!(queue.next_write(true), WriteStep::Write(SinkOp::Delete { id: "a".to_string() }));
    queue.write_done();
    assert_eq!(queue.next_write(true), WriteStep::Idle);
}

#[test]
fn only_one_write_is_under_way_at_a_time() {
    let mut queue = Persistent::init(8);
    assert!(queue.send(message("a", Some(1))));
    assert!(queue.send(message("b", Some(2))));
    assert!(matches!(queue.next_write(true), WriteStep::Write(_)));
    assert_eq!(queue.next_write(true), WriteStep::Busy);
    assert_eq!(queue.next_write(false), WriteStep::Busy);
    assert_eq!(queue.len(), 1);
    queue.write_done();
    assert_eq!(
        queue.next_write(true),
        WriteStep::Write(SinkOp::Upsert { id: "b".to_string(), count: 2 })
    );
}

#[test]
fn messages_are_dropped_while_the_sink_is_not_ready() {
    let mut queue = Persistent::init(8);
    assert!(queue.send(message("a", Some(1))));
    assert!(queue.send(message("b", Some(2))));
    assert_eq!(queue.next_write(false), WriteStep::Dropped(message("a", Some(1))));
    assert_eq!(
        queue.next_write(true),
        WriteStep::Write(SinkOp::Upsert { id: "b".to_string(), count: 2 })
    );
    queue.write_done();
    assert_eq!(queue.next_write(false), WriteStep::Idle);
}

#[test]
fn a_full_queue_refuses_and_stays_as_it_is() {
    let mut queue = Persistent::init(2);
    assert!(queue.send(message("a", Some(1))));
    assert!(queue.send(message("b", Some(2))));
    assert!(!queue.send(message("c", Some(3))));
    assert_eq!(queue.len(), 2);
    assert!(matches!(queue.next_write(true), WriteStep::Write(_)));
    assert!(queue.send(message("d", Some(4))));
    let mut none = Persistent::init(0);
    assert!(!none.send(message("a", Some(1))));
    assert_eq!(none.next_write(true), WriteStep::Idle);
    assert_eq!(DEFAULT_QUEUE_CAPACITY, 1024);
}

#[test]
fn dropped_messages_are_counted_until_the_count_is_taken() {
    let mut queue = Persistent::init(1);
    assert_eq!(queue.take_dropped(), 0);
    assert!(queue.send(message("a", Some(1))));
    assert_eq!(queue.take_dropped(), 0);
    assert!(!queue.send(message("b", Some(2))));
    assert!(!queue.send(message("c", None)));
    assert_eq!(queue.len(), 1);
    assert_eq!(queue.take_dropped(), 2);
    assert_eq!(queue.take_dropped(), 0);
    assert!(matches!(queue.next_write(false), WriteStep::Dropped(_)));
    // what the worker drops for want of a sink is not counted here
    assert_eq!(queue.take_dropped(), 0);
}
