//! Write-behind persistence: what the counter store hands to the durable
//! sink, and in which order.
//!
//! The store never waits for the sink. It puts a message into a bounded
//! queue and goes on; a single worker takes the messages out, oldest first,
//! and performs one write at a time. The worker itself is not here: it asks
//! [`Persistent::next_write`] what to do, does it, and reports back with
//! [`Persistent::write_done`].

use std::collections::VecDeque;
use vstd::prelude::*;

verus! {

/// Messages that the queue holds when none is configured.
pub const DEFAULT_QUEUE_CAPACITY: usize = 1024;

/// A change to persist: the counter's new value, or `None` to delete its row.
#[derive(Clone, Debug, PartialEq, Eq)]
pub struct PersistMessage {
    pub id: String,
    pub new_count: Option<u64>,
}

impl View for PersistMessage {
    type V = (Seq<char>, Option<u64>);

    open spec fn view(&self) -> (Seq<char>, Option<u64>) {
        (self.id@, self.new_count)
    }
}

/// One write to the sink's table, whose count column is a signed 64-bit
/// integer.
#[derive(Clone, Debug, PartialEq, Eq)]
pub enum SinkOp {
    /// Insert the row or replace its count.
    Upsert { id: String, count: i64 },
    /// Remove the row.
    Delete { id: String },
}

impl View for SinkOp {
    type V = (Seq<char>, Option<i64>);

    open spec fn view(&self) -> (Seq<char>, Option<i64>) {
        match self {
            SinkOp::Upsert { id, count } => (id@, Some(*count)),
            SinkOp::Delete { id } => (id@, None),
        }
    }
}

/// The signed integer with the same 64 bits as `count`.
pub open spec fn sink_count(count: u64) -> i64 {
    if count <= i64::MAX {
        count as i64
    } else {
        (count - 0x1_0000_0000_0000_0000) as i64
    }
}

/// The counter with the same 64 bits as the stored integer.
pub open spec fn stored_count(stored: i64) -> u64 {
    if stored >= 0 {
        stored as u64
    } else {
        (stored + 0x1_0000_0000_0000_0000) as u64
    }
}

/// The write that carries out a message.
pub open spec fn sink_op(message: (Seq<char>, Option<u64>)) -> (Seq<char>, Option<i64>) {
    match message.1 {
        Some(count) => (message.0, Some(sink_count(count))),
        None => (message.0, None),
    }
}

/// A counter as the sink stores it. Counts above `i64::MAX` come out
/// negative; [`from_sink_count`] brings them back.
pub fn to_sink_count(count: u64) -> (stored: i64)
    ensures
        stored == sink_count(count),
{
    if count <= 0x7fff_ffff_ffff_ffff {
        count as i64
    } else {
        let above: u64 = count - 0x8000_0000_0000_0000;
        (above as i64) + i64::MIN
    }
}

/// A stored integer as a counter.
pub fn from_sink_count(stored: i64) -> (count: u64)
    ensures
        count == stored_count(stored),
{
    if stored >= 0 {
        stored as u64
    } else {
        let above: i64 = stored - i64::MIN;
        (above as u64) + 0x8000_0000_0000_0000
    }
}

/// Every counter survives the way through the sink, and every stored integer
/// the way through a counter.
pub proof fn sink_count_round_trip(count: u64, stored: i64)
    ensures
        stored_count(sink_count(count)) == count,
        sink_count(stored_count(stored)) == stored,
{
}

/// What the worker has to do next.
#[derive(Clone, Debug, PartialEq, Eq)]
pub enum WriteStep {
    /// The queue is empty.
    Idle,
    /// A write is still under way; nothing was taken from the queue.
    Busy,
    /// The sink is not ready: the oldest message was taken out and dropped.
    Dropped(PersistMessage),
    /// Perform this write, then call `write_done`.
    Write(SinkOp),
}

/// A step of the worker as a value.
pub enum StepView {
    Idle,
    Busy,
    Dropped((Seq<char>, Option<u64>)),
    Write((Seq<char>, Option<i64>)),
}

impl View for WriteStep {
    type V = StepView;

    open spec fn view(&self) -> StepView {
        match self {
            WriteStep::Idle => StepView::Idle,
            WriteStep::Busy => StepView::Busy,
            WriteStep::Dropped(message) => StepView::Dropped(message@),
            WriteStep::Write(op) => StepView::Write(op@),
        }
    }
}

/// The queue as a value.
pub struct QueueState {
    /// The queued messages, oldest first.
    pub pending: Seq<(Seq<char>, Option<u64>)>,
    /// How many messages the queue takes.
    pub capacity: usize,
    /// A write to the sink is under way.
    pub writing: bool,
    /// How many messages a full queue has dropped since the count was last
    /// taken; the count stops at the largest number.
    pub dropped: u64,
}

impl QueueState {
    /// Whether there is room for one more message.
    pub open spec fn has_room(self) -> bool {
        self.pending.len() < self.capacity
    }

    /// Queues a message behind those already waiting, or drops it if the
    /// queue is full and counts the drop.
    pub open spec fn send(self, message: (Seq<char>, Option<u64>)) -> QueueState {
        if self.has_room() {
            QueueState { pending: self.pending.push(message), ..self }
        } else if self.dropped < u64::MAX {
            QueueState { dropped: (self.dropped + 1) as u64, ..self }
        } else {
            self
        }
    }

    /// The queue once the count of dropped messages has been taken.
    pub open spec fn take_dropped(self) -> QueueState {
        QueueState { dropped: 0, ..self }
    }

    /// One step of the worker. While a write is under way nothing is handed
    /// out. Otherwise the oldest message leaves the queue: as a write if the
    /// sink is ready, and to be dropped if it is not.
    pub open spec fn next_write(self, sink_ready: bool) -> (QueueState, StepView) {
        if self.writing {
            (self, StepView::Busy)
        } else if self.pending.len() == 0 {
            (self, StepView::Idle)
        } else if !sink_ready {
            (
                QueueState { pending: self.pending.drop_first(), ..self },
                StepView::Dropped(self.pending[0]),
            )
        } else {
            (
                QueueState { pending: self.pending.drop_first(), writing: true, ..self },
                StepView::Write(sink_op(self.pending[0])),
            )
        }
    }

    /// The end of the write handed out last.
    pub open spec fn write_done(self) -> QueueState {
        QueueState { writing: false, ..self }
    }

    /// The queue after the worker has taken `n` messages out, each written
    /// to a sink that is ready, and each write ended before the next.
    pub open spec fn drained(self, n: nat) -> QueueState
        decreases n,
    {
        if n == 0 {
            self
        } else {
            self.drained((n - 1) as nat).next_write(true).0.write_done()
        }
    }
}

/// First in, first out. With the sink ready and no write under way, the
/// worker is handed the queued messages one by one in the order in which
/// they were accepted: its step number `n` performs the write of message
/// number `n`.
pub proof fn writes_leave_in_send_order(queue: QueueState, n: nat)
    requires
        !queue.writing,
        n < queue.pending.len(),
    ensures
        queue.drained(n).pending == queue.pending.skip(n as int),
        !queue.drained(n).writing,
        queue.drained(n).next_write(true).1 == StepView::Write(sink_op(queue.pending[n as int])),
    decreases n,
{
    if n > 0 {
        writes_leave_in_send_order(queue, (n - 1) as nat);
        assert(queue.pending.skip(n - 1).drop_first() =~= queue.pending.skip(n as int));
    } else {
        assert(queue.pending.skip(0) =~= queue.pending);
    }
}

/// A message that is accepted takes its place behind all that wait, and
/// changes nothing for them.
pub proof fn sent_message_waits_its_turn(queue: QueueState, message: (Seq<char>, Option<u64>))
    requires
        queue.has_room(),
    ensures
        queue.send(message).pending.len() == queue.pending.len() + 1,
        queue.send(message).pending.last() == message,
        queue.send(message).pending.drop_last() == queue.pending,
        queue.send(message).dropped == queue.dropped,
{
    assert(queue.pending.push(message).drop_last() =~= queue.pending);
}

/// A message that finds the queue full is dropped: the queue holds what it
/// held, and the drop is counted, so that it does not pass unnoticed.
pub proof fn dropped_message_is_counted(queue: QueueState, message: (Seq<char>, Option<u64>))
    requires
        !queue.has_room(),
    ensures
        queue.send(message).pending == queue.pending,
        queue.send(message).writing == queue.writing,
        queue.dropped < u64::MAX ==> queue.send(message).dropped == queue.dropped + 1,
        queue.dropped == u64::MAX ==> queue.send(message).dropped == u64::MAX,
{
}

/// One write at a time. From the moment a write is handed out until it is
/// reported as ended, the worker is handed nothing, and the queue keeps what
/// it holds.
pub proof fn one_write_at_a_time(queue: QueueState, first_ready: bool, then_ready: bool)
    requires
        queue.next_write(first_ready).1 is Write,
    ensures
        queue.next_write(first_ready).0.next_write(then_ready) == (
            queue.next_write(first_ready).0,
            StepView::Busy,
        ),
        !queue.next_write(first_ready).0.write_done().writing,
{
}

/// The queue between the counter store and the sink.
pub struct Persistent {
    queue: VecDeque<PersistMessage>,
    capacity: usize,
    writing: bool,
    dropped: u64,
}

impl View for Persistent {
    type V = QueueState;

    closed spec fn view(&self) -> QueueState {
        QueueState {
            pending: self.queue@.map_values(|message: PersistMessage| message@),
            capacity: self.capacity,
            writing: self.writing,
            dropped: self.dropped,
        }
    }
}

impl Persistent {
    /// An empty queue for at most `capacity` messages, with no write under
    /// way and nothing dropped.
    pub fn init(capacity: usize) -> (queue: Persistent)
        ensures
            queue@ == (QueueState {
                pending: Seq::empty(),
                capacity,
                writing: false,
                dropped: 0,
            }),
    {
        let queue = Persistent { queue: VecDeque::new(), capacity, writing: false, dropped: 0 };
        assert(queue@.pending =~= Seq::empty());
        queue
    }

    /// Queues a message behind those already waiting. A full queue drops it
    /// instead: the sender is never held up.
    pub fn send(&mut self, message: PersistMessage) -> (accepted: bool)
        ensures
            accepted == old(self)@.has_room(),
            final(self)@ == old(self)@.send(message@),
    {
        if self.queue.len() < self.capacity {
            self.queue.push_back(message);
            assert(self@.pending =~= old(self)@.pending.push(message@));
            true
        } else {
            if self.dropped < u64::MAX {
                self.dropped = self.dropped + 1;
            }
            false
        }
    }

    /// Says how many messages the queue has dropped since this was last
    /// asked, and starts counting anew.
    pub fn take_dropped(&mut self) -> (dropped: u64)
        ensures
            dropped == old(self)@.dropped,
            final(self)@ == old(self)@.take_dropped(),
    {
        let dropped: u64 = self.dropped;
        self.dropped = 0;
        dropped
    }

    /// How many messages wait.
    pub fn len(&self) -> (len: usize)
        ensures
            len == self@.pending.len(),
    {
        self.queue.len()
    }

    /// One step of the worker.
    pub fn next_write(&mut self, sink_ready: bool) -> (step: WriteStep)
        ensures
            final(self)@ == old(self)@.next_write(sink_ready).0,
            step@ == old(self)@.next_write(sink_ready).1,
    {
        if self.writing {
            return WriteStep::Busy;
        }
        match self.queue.pop_front() {
            None => WriteStep::Idle,
            Some(message) => {
                assert(self@.pending =~= old(self)@.pending.drop_first());
                assert(message@ == old(self)@.pending[0]);
                if !sink_ready {
                    WriteStep::Dropped(message)
                } else {
                    self.writing = true;
                    match message.new_count {
                        Some(count) => WriteStep::Write(
                            SinkOp::Upsert { id: message.id, count: to_sink_count(count) },
                        ),
                        None => WriteStep::Write(SinkOp::Delete { id: message.id }),
                    }
                }
            },
        }
    }

    /// The write handed out last has ended, well or badly: the next one may
    /// start.
    pub fn write_done(&mut self)
        ensures
            final(self)@ == old(self)@.write_done(),
    {
        self.writing = false;
    }
}

} // verus!
