//! Input from one port: choosing the port, queueing its events and pacing
//! the commands that are run for them.

use vstd::prelude::*;
use queues::IsQueue;
use super::addr::DeviceAddr;
use super::port::MidiPort;
use super::portfilter::{passing, PortFilter};
use crate::event::{decoded, Event, EventBuf, EventView};
use crate::util::time::{Span, Timestamp};

verus! {

/// Whether `candidate` is a port to connect to for the announced port
/// `port`: it has the address of `port`, and `filter` lets it pass.
pub open spec fn fits(
    candidate: MidiPort<DeviceAddr>,
    port: MidiPort<DeviceAddr>,
    filter: PortFilter<DeviceAddr>,
) -> bool {
    candidate.addr == port.addr && filter.accepts(candidate.name@, candidate.addr)
}

/// Whether `at` is the place in `ports` of the port to connect to for
/// `port`: that of the first port that fits, or nothing where none fits.
pub open spec fn selected(
    ports: Seq<MidiPort<DeviceAddr>>,
    port: MidiPort<DeviceAddr>,
    filter: PortFilter<DeviceAddr>,
    at: Option<usize>,
) -> bool {
    match at {
        Some(i) => i < ports.len() && fits(ports[i as int], port, filter) && forall|j: int|
            0 <= j < i ==> !fits(#[trigger] ports[j], port, filter),
        None => forall|j: int| 0 <= j < ports.len() ==> !fits(#[trigger] ports[j], port, filter),
    }
}

/// Chooses among the ports that are there now the one to connect to for
/// `port`: the first with the address of `port` that `filter` lets pass.
/// Gives its place in `ports`, or nothing where `filter` refuses the port or
/// the port is gone.
pub fn try_connect(
    ports: &[MidiPort<DeviceAddr>],
    port: &MidiPort<DeviceAddr>,
    filter: &PortFilter<DeviceAddr>,
) -> (r: Option<usize>)
    ensures
        selected(ports@, *port, *filter, r),
{
    let mut i: usize = 0;
    while i < ports.len()
        invariant
            i <= ports.len(),
            forall|j: int| 0 <= j < i ==> !fits(#[trigger] ports@[j], *port, *filter),
        decreases ports.len() - i,
    {
        let candidate = &ports[i];
        if candidate.addr.client == port.addr.client && candidate.addr.port == port.addr.port
            && filter.matches(candidate) {
            return Some(i);
        }
        i = i + 1;
    }
    None
}

/// The port that `try_connect` chooses is the first of those that pass the
/// filter by the address of `port` and then `filter`.
#[verifier::rlimit(50)]
pub proof fn lemma_selected_first(
    ports: Seq<MidiPort<DeviceAddr>>,
    port: MidiPort<DeviceAddr>,
    filter: PortFilter<DeviceAddr>,
    at: Option<usize>,
)
    requires
        selected(ports, port, filter, at),
    ensures
        match at {
            Some(i) => passing(passing(ports, PortFilter::Addr(port.addr)), filter).len() > 0
                && passing(passing(ports, PortFilter::Addr(port.addr)), filter)[0] == ports[i as int],
            None => passing(passing(ports, PortFilter::Addr(port.addr)), filter).len() == 0,
        },
    decreases ports.len(),
{
    let by_addr = PortFilter::Addr(port.addr);
    if ports.len() > 0 {
        let rest = ports.drop_last();
        let last = ports.last();
        let inner = passing(rest, by_addr);
        match at {
            Some(i) => {
                if i < rest.len() {
                    lemma_selected_first(rest, port, filter, at);
                    let found = passing(inner, filter);
                    if by_addr.accepts(last.name@, last.addr) {
                        assert(passing(ports, by_addr) == inner.push(last));
                        assert(inner.push(last).drop_last() == inner);
                    }
                } else {
                    lemma_selected_first(rest, port, filter, None);
                    assert(passing(ports, by_addr) == inner.push(last));
                    assert(inner.push(last).drop_last() == inner);
                }
            },
            None => {
                lemma_selected_first(rest, port, filter, None);
                if by_addr.accepts(last.name@, last.addr) {
                    assert(passing(ports, by_addr) == inner.push(last));
                    assert(inner.push(last).drop_last() == inner);
                }
            },
        }
    }
}

/// `CircularBuffer` of the crate `queues`: a queue of bounded length that
/// lets its oldest value go where one more comes in. Nothing inside it is
/// seen here; what it holds is spoken of through `queue_items`,
/// `queue_limit` and `queue_padded`.
#[verifier::external_type_specification]
#[verifier::external_body]
#[verifier::reject_recursive_types(T)]
pub struct ExCircularBuffer<T: Clone>(queues::CircularBuffer<T>);

/// The events that a buffer holds, the oldest first.
pub uninterp spec fn queue_items(q: queues::CircularBuffer<EventBuf>) -> Seq<EventBuf>;

/// The number of events that a buffer was made to hold.
pub uninterp spec fn queue_limit(q: queues::CircularBuffer<EventBuf>) -> nat;

/// Whether a buffer was made with a value that fills its empty places.
pub uninterp spec fn queue_padded(q: queues::CircularBuffer<EventBuf>) -> bool;

/// `items` after `event` has come in to a queue that holds at most `limit`:
/// `event` stands last, and the oldest has left where the queue was full.
pub open spec fn pushed(items: Seq<EventBuf>, limit: nat, event: EventBuf) -> Seq<EventBuf> {
    if items.len() < limit {
        items.push(event)
    } else {
        items.push(event).drop_first()
    }
}

/// The count `n` of dropped events after one more event came in, which was
/// dropped or not.
pub open spec fn counted(n: u64, dropped: bool) -> u64 {
    if dropped && n < u64::MAX {
        (n + 1) as u64
    } else {
        n
    }
}

/// `CircularBuffer::new` of the crate `queues`: an empty buffer for at most
/// `capacity` values, without a value that fills its empty places.
#[verifier::external_body]
fn queue_new(capacity: usize) -> (q: queues::CircularBuffer<EventBuf>)
    ensures
        queue_items(q) == Seq::<EventBuf>::empty(),
        queue_limit(q) == capacity,
        !queue_padded(q),
{
    queues::CircularBuffer::new(capacity)
}

/// `CircularBuffer::add` of the crate `queues`: puts `event` last; where the
/// buffer held as many values as it was made for, its oldest value, or
/// `event` itself where it holds none, leaves and is returned.
#[verifier::external_body]
fn queue_add(q: &mut queues::CircularBuffer<EventBuf>, event: EventBuf) -> (out: Option<EventBuf>)
    ensures
        queue_items(*final(q)) == pushed(queue_items(*old(q)), queue_limit(*old(q)), event),
        queue_limit(*final(q)) == queue_limit(*old(q)),
        queue_padded(*final(q)) == queue_padded(*old(q)),
        out == if queue_items(*old(q)).len() < queue_limit(*old(q)) {
            None
        } else {
            Some(queue_items(*old(q)).push(event)[0])
        },
{
    match q.add(event) {
        Ok(out) => out,
        Err(_) => None,
    }
}

/// `CircularBuffer::remove` of the crate `queues`: takes the oldest value
/// out, or nothing where the buffer is empty. Of a buffer that was made with
/// a filling value only the returned value is stated.
#[verifier::external_body]
fn queue_remove(q: &mut queues::CircularBuffer<EventBuf>) -> (out: Option<EventBuf>)
    ensures
        out == if queue_items(*old(q)).len() > 0 {
            Some(queue_items(*old(q))[0])
        } else {
            None
        },
        queue_limit(*final(q)) == queue_limit(*old(q)),
        queue_padded(*final(q)) == queue_padded(*old(q)),
        queue_items(*old(q)).len() == 0 ==> queue_items(*final(q)) == queue_items(*old(q)),
        queue_items(*old(q)).len() > 0 && !queue_padded(*old(q)) ==> queue_items(*final(q))
            == queue_items(*old(q)).drop_first(),
{
    q.remove().ok()
}

/// `CircularBuffer::size` of the crate `queues`: the number of values held.
#[verifier::external_body]
fn queue_size(q: &queues::CircularBuffer<EventBuf>) -> (n: usize)
    ensures
        n == queue_items(*q).len(),
{
    q.size()
}

/// The events of one device that wait for their commands: at most as many
/// as the device rule allows, the oldest leaving where one more comes in.
pub struct EventQueue {
    buf: queues::CircularBuffer<EventBuf>,
    dropped: u64,
}

impl View for EventQueue {
    type V = Seq<EventBuf>;

    closed spec fn view(&self) -> Seq<EventBuf> {
        queue_items(self.buf)
    }
}

impl EventQueue {
    /// The number of events that the queue holds at most.
    pub closed spec fn capacity(&self) -> nat {
        queue_limit(self.buf)
    }

    /// The number of events that have left the queue on overflow; it stays
    /// at the largest number it can hold.
    pub closed spec fn spec_dropped(&self) -> u64 {
        self.dropped
    }

    /// The number of events that have left the queue on overflow.
    #[verifier::when_used_as_spec(spec_dropped)]
    pub fn dropped(&self) -> (n: u64)
        ensures
            n == self.spec_dropped(),
    {
        self.dropped
    }

    /// Whether the queue is one that `new` has made and `push`, `pop` and
    /// `ingest` have worked on: it holds no more than it was made for.
    pub closed spec fn wf(&self) -> bool {
        &&& !queue_padded(self.buf)
        &&& queue_items(self.buf).len() <= queue_limit(self.buf)
    }

    /// A queue never holds more than it was made for.
    pub proof fn lemma_bounded(&self)
        requires
            self.wf(),
        ensures
            self@.len() <= self.capacity(),
    {
    }

    /// The empty queue for at most `capacity` events.
    pub fn new(capacity: usize) -> (q: Self)
        ensures
            q.wf(),
            q@ == Seq::<EventBuf>::empty(),
            q.capacity() == capacity,
            q.spec_dropped() == 0,
    {
        EventQueue { buf: queue_new(capacity), dropped: 0 }
    }

    /// Puts `event` last. Where the queue is full, the oldest event leaves
    /// and is returned; a queue for no events returns `event` itself.
    pub fn push(&mut self, event: EventBuf) -> (out: Option<EventBuf>)
        requires
            old(self).wf(),
        ensures
            final(self).wf(),
            final(self)@ == pushed(old(self)@, old(self).capacity(), event),
            final(self).capacity() == old(self).capacity(),
            final(self)@.len() <= final(self).capacity(),
            out == if old(self)@.len() < old(self).capacity() {
                None
            } else {
                Some(old(self)@.push(event)[0])
            },
            final(self).spec_dropped() == counted(old(self).spec_dropped(), out is Some),
    {
        let out = queue_add(&mut self.buf, event);
        if out.is_some() && self.dropped < u64::MAX {
            self.dropped = self.dropped + 1;
        }
        out
    }

    /// Takes the oldest event out; nothing where the queue is empty.
    pub fn pop(&mut self) -> (out: Option<EventBuf>)
        requires
            old(self).wf(),
        ensures
            final(self).wf(),
            final(self).capacity() == old(self).capacity(),
            final(self).spec_dropped() == old(self).spec_dropped(),
            match out {
                Some(event) => old(self)@.len() > 0 && event == old(self)@[0] && final(self)@
                    == old(self)@.drop_first(),
                None => old(self)@.len() == 0 && final(self)@ == old(self)@,
            },
    {
        queue_remove(&mut self.buf)
    }

    /// The number of events that wait.
    pub fn len(&self) -> (n: usize)
        requires
            self.wf(),
        ensures
            n == self@.len(),
            n <= self.capacity(),
    {
        queue_size(&self.buf)
    }

    /// Decodes the message `bytes` that came in at the moment `at`, and puts
    /// the event last in the queue.
    pub fn ingest(&mut self, bytes: &[u8], at: Option<Timestamp>) -> (out: Option<EventBuf>)
        requires
            old(self).wf(),
        ensures
            final(self).wf(),
            final(self).capacity() == old(self).capacity(),
            final(self)@.len() <= final(self).capacity(),
            final(self).spec_dropped() == counted(old(self).spec_dropped(), out is Some),
            out is Some <==> old(self)@.len() >= old(self).capacity(),
            exists|event: EventBuf|
                {
                    &&& #[trigger] received(event, bytes@, at)
                    &&& final(self)@ == pushed(old(self)@, old(self).capacity(), event)
                },
    {
        let mut event = Event::decode(bytes).into_buf();
        event.timestamp = at;
        assert(received(event, bytes@, at));
        self.push(event)
    }
}

/// Whether `event` is what the message `bytes` that came in at `at` decodes
/// to.
pub open spec fn received(event: EventBuf, bytes: Seq<u8>, at: Option<Timestamp>) -> bool {
    event@ == (EventView { timestamp: at, ..decoded(bytes) })
}

/// What happens to a queue: an event comes in, or the oldest is taken out.
pub enum QueueOp {
    Push(EventBuf),
    Pop,
}

/// The queue for at most `limit` events after `ops`, in order, on the empty
/// queue.
pub open spec fn queue_after(ops: Seq<QueueOp>, limit: nat) -> Seq<EventBuf>
    decreases ops.len(),
{
    if ops.len() == 0 {
        Seq::empty()
    } else {
        let before = queue_after(ops.drop_last(), limit);
        match ops.last() {
            QueueOp::Push(event) => pushed(before, limit, event),
            QueueOp::Pop => if before.len() > 0 {
                before.drop_first()
            } else {
                before
            },
        }
    }
}

/// The events that `ops` have taken out of the queue, in order.
pub open spec fn taken(ops: Seq<QueueOp>, limit: nat) -> Seq<EventBuf>
    decreases ops.len(),
{
    if ops.len() == 0 {
        Seq::empty()
    } else {
        let before = queue_after(ops.drop_last(), limit);
        match ops.last() {
            QueueOp::Push(_) => taken(ops.drop_last(), limit),
            QueueOp::Pop => if before.len() > 0 {
                taken(ops.drop_last(), limit).push(before[0])
            } else {
                taken(ops.drop_last(), limit)
            },
        }
    }
}

/// The events that `ops` have put into the queue, in order.
pub open spec fn given(ops: Seq<QueueOp>) -> Seq<EventBuf>
    decreases ops.len(),
{
    if ops.len() == 0 {
        Seq::empty()
    } else {
        match ops.last() {
            QueueOp::Push(event) => given(ops.drop_last()).push(event),
            QueueOp::Pop => given(ops.drop_last()),
        }
    }
}

/// Whether `a` is what is left of `b` when some of its entries are struck
/// out: the entries of `a` stand in `b`, in the same order.
pub open spec fn in_order_of<T>(a: Seq<T>, b: Seq<T>) -> bool
    decreases b.len(),
{
    if a.len() == 0 {
        true
    } else if b.len() == 0 {
        false
    } else {
        (a.last() == b.last() && in_order_of(a.drop_last(), b.drop_last())) || in_order_of(
            a,
            b.drop_last(),
        )
    }
}

/// One more entry at the end of both keeps the order.
proof fn lemma_in_order_both<T>(a: Seq<T>, b: Seq<T>, x: T)
    requires
        in_order_of(a, b),
    ensures
        in_order_of(a.push(x), b.push(x)),
{
    assert(a.push(x).drop_last() == a);
    assert(b.push(x).drop_last() == b);
}

/// One more entry at the end of the longer keeps the order.
proof fn lemma_in_order_longer<T>(a: Seq<T>, b: Seq<T>, x: T)
    requires
        in_order_of(a, b),
    ensures
        in_order_of(a, b.push(x)),
{
    assert(b.push(x).drop_last() == b);
}

/// Striking out one more entry keeps the order.
#[verifier::rlimit(50)]
proof fn lemma_in_order_less<T>(a: Seq<T>, b: Seq<T>, i: int)
    requires
        in_order_of(a, b),
        0 <= i < a.len(),
    ensures
        in_order_of(a.remove(i), b),
    decreases b.len(),
{
    let less = a.remove(i);
    assert(b.len() > 0);
    assert(b.drop_last().push(b.last()) == b);
    if a.last() == b.last() && in_order_of(a.drop_last(), b.drop_last()) {
        if i == a.len() - 1 {
            assert(less == a.drop_last());
            lemma_in_order_longer(a.drop_last(), b.drop_last(), b.last());
        } else {
            assert(less.last() == a.last());
            assert(less.drop_last() == a.drop_last().remove(i));
            lemma_in_order_less(a.drop_last(), b.drop_last(), i);
        }
    } else {
        lemma_in_order_less(a, b.drop_last(), i);
        lemma_in_order_longer(less, b.drop_last(), b.last());
    }
}

/// Events leave the queue in the order in which they came in: whatever is
/// put in and taken out, the events taken out, followed by those that wait,
/// are the events put in with some struck out, which are those that left on
/// overflow.
#[verifier::rlimit(50)]
pub proof fn lemma_fifo(ops: Seq<QueueOp>, limit: nat)
    ensures
        in_order_of(taken(ops, limit) + queue_after(ops, limit), given(ops)),
        queue_after(ops, limit).len() <= limit,
    decreases ops.len(),
{
    if ops.len() > 0 {
        let rest = ops.drop_last();
        lemma_fifo(rest, limit);
        let t = taken(rest, limit);
        let q = queue_after(rest, limit);
        let g = given(rest);
        match ops.last() {
            QueueOp::Push(event) => {
                if q.len() < limit {
                    assert(t + q.push(event) == (t + q).push(event));
                    lemma_in_order_both(t + q, g, event);
                } else if q.len() == 0 {
                    assert(q.push(event).drop_first() == q);
                    lemma_in_order_longer(t + q, g, event);
                } else {
                    assert(t + q.push(event).drop_first() == (t + q).remove(t.len() as int).push(
                        event,
                    ));
                    lemma_in_order_less(t + q, g, t.len() as int);
                    lemma_in_order_both((t + q).remove(t.len() as int), g, event);
                }
            },
            QueueOp::Pop => {
                if q.len() > 0 {
                    assert(t.push(q[0]) + q.drop_first() == t + q);
                }
            },
        }
    }
}

/// Whether, in the course of `ops`, an event came in to a queue for at most
/// `limit` events that was full.
pub open spec fn overflowed(ops: Seq<QueueOp>, limit: nat) -> bool
    decreases ops.len(),
{
    if ops.len() == 0 {
        false
    } else {
        overflowed(ops.drop_last(), limit) || (ops.last() is Push && queue_after(
            ops.drop_last(),
            limit,
        ).len() >= limit)
    }
}

/// Where no event came in to a full queue, nothing is lost: the events
/// taken out, followed by those that wait, are the events put in, so that
/// the events taken out are the first of the events put in.
pub proof fn lemma_fifo_prefix(ops: Seq<QueueOp>, limit: nat)
    requires
        !overflowed(ops, limit),
    ensures
        taken(ops, limit) + queue_after(ops, limit) == given(ops),
        taken(ops, limit) == given(ops).subrange(0, taken(ops, limit).len() as int),
    decreases ops.len(),
{
    if ops.len() > 0 {
        let rest = ops.drop_last();
        lemma_fifo_prefix(rest, limit);
        let t = taken(rest, limit);
        let q = queue_after(rest, limit);
        match ops.last() {
            QueueOp::Push(event) => {
                assert(t + q.push(event) == (t + q).push(event));
            },
            QueueOp::Pop => {
                if q.len() > 0 {
                    assert(t.push(q[0]) + q.drop_first() == t + q);
                }
            },
        }
    }
    let all = taken(ops, limit) + queue_after(ops, limit);
    assert(all.subrange(0, taken(ops, limit).len() as int) == taken(ops, limit));
}

/// The time to wait after commands that took `elapsed`, all in nanoseconds:
/// what is left of `interval`.
pub open spec fn wait_for(interval: int, elapsed: int) -> int {
    if elapsed < interval {
        interval - elapsed
    } else {
        0
    }
}

/// Between the handling of two events lies the interval at least: where the
/// next event is handled no sooner than the commands of this one have ended
/// and the pause after them is over.
pub proof fn lemma_rate_limit(interval: int, elapsed: int, start: int, next: int)
    requires
        elapsed >= 0,
        next >= start + elapsed + wait_for(interval, elapsed),
    ensures
        next - start >= interval,
{
}

/// How long to wait after the commands of one event have taken `elapsed`,
/// so that `interval` lies between the handling of two events: what is left
/// of the interval, or nothing where it is over.
pub fn pause(interval: &Span, elapsed: &Span) -> (r: Option<Span>)
    requires
        interval.wf(),
        elapsed.wf(),
    ensures
        match r {
            Some(wait) => wait.wf() && elapsed.total() < interval.total() && wait.total()
                == wait_for(interval.total(), elapsed.total()),
            None => elapsed.total() >= interval.total(),
        },
{
    if elapsed.shorter_than(interval) {
        interval.checked_sub(elapsed)
    } else {
        None
    }
}

/// What the thread that runs the commands does next.
#[derive(Debug, Clone, Copy, PartialEq, Eq, Structural)]
pub enum ExecutorStep {
    /// Wait for the next signal.
    Park,
    /// Take the next event from the queue and handle it.
    Drain,
    /// Leave.
    Exit,
}

/// What the thread that runs the commands does when it is woken with
/// `shutdown`: it leaves where that is set, else it turns to the queue.
pub fn on_signal(shutdown: bool) -> (r: ExecutorStep)
    ensures
        r == if shutdown {
            ExecutorStep::Exit
        } else {
            ExecutorStep::Drain
        },
{
    if shutdown {
        ExecutorStep::Exit
    } else {
        ExecutorStep::Drain
    }
}

/// What the thread that runs the commands does after it has turned to a
/// queue that held `waiting` events: handle one more where there is one, else
/// wait for the next signal.
pub fn on_queue(waiting: usize) -> (r: ExecutorStep)
    ensures
        r == if waiting > 0 {
            ExecutorStep::Drain
        } else {
            ExecutorStep::Park
        },
{
    if waiting > 0 {
        ExecutorStep::Drain
    } else {
        ExecutorStep::Park
    }
}

} // verus!
