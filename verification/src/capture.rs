//! The bounded queue between the edge-capture interrupt and the task that
//! transmits what was captured.
//!
//! The queue is `heapless::spsc::Queue`. As one value it is a plain
//! first-in first-out queue whose content the contracts follow exactly.
//! Split into its two ends it is shared between two contexts, and an end
//! knows only what its own call returned.

use crate::data::{ClientHostMessage, Message, Reading};
use crate::frame::{encode_frame, Frame};
use vstd::prelude::*;

verus! {

/// Number of readings the capture queue can hold.
pub const CAPACITY: usize = 200;

/// Number of slots of the queue's storage. One slot always stays empty:
/// that is how the queue tells full from empty.
pub const SLOTS: usize = CAPACITY + 1;

/// `heapless::spsc::Producer`, the end of a queue that enqueues. It is
/// opaque here: nothing is known of what it refers to.
#[verifier::external_type_specification]
#[verifier::external_body]
#[verifier::reject_recursive_types(T)]
pub struct ExProducer<'a, T>(heapless::spsc::Producer<'a, T>);

/// `heapless::spsc::Consumer`, the end of a queue that dequeues. It is
/// opaque here: nothing is known of what it refers to.
#[verifier::external_type_specification]
#[verifier::external_body]
#[verifier::reject_recursive_types(T)]
pub struct ExConsumer<'a, T>(heapless::spsc::Consumer<'a, T>);

/// The storage of the capture queue: a `heapless::spsc::Queue` of readings
/// with `SLOTS` slots. Nothing of its inside is proved here; what it holds
/// is known through `queued` and through what the functions `queue_new` to
/// `queue_split` below claim of the methods of that queue.
#[verifier::external_body]
pub struct ReadingQueue {
    inner: heapless::spsc::Queue<Reading, SLOTS>,
}

/// The readings that wait in a queue, oldest first.
pub uninterp spec fn queued(queue: ReadingQueue) -> Seq<Reading>;

/// `heapless::spsc::Queue::new`: the new queue holds nothing.
#[verifier::external_body]
fn queue_new() -> (queue: ReadingQueue)
    ensures
        queued(queue) == Seq::<Reading>::empty(),
{
    ReadingQueue { inner: heapless::spsc::Queue::new() }
}

/// `heapless::spsc::Queue::len`: the number of readings that wait.
#[verifier::external_body]
fn queue_len(queue: &ReadingQueue) -> (count: usize)
    ensures
        count == queued(*queue).len(),
{
    queue.inner.len()
}

/// `heapless::spsc::Queue::enqueue`: below capacity the reading goes to
/// the back; at capacity it is handed back and the queue stays as it was.
#[verifier::external_body]
fn queue_enqueue(queue: &mut ReadingQueue, reading: Reading) -> (result: Result<(), Reading>)
    ensures
        queued(*old(queue)).len() < CAPACITY ==> result is Ok
            && queued(*final(queue)) == queued(*old(queue)).push(reading),
        queued(*old(queue)).len() >= CAPACITY ==> result is Err && result->Err_0 == reading
            && queued(*final(queue)) == queued(*old(queue)),
    no_unwind
{
    queue.inner.enqueue(reading)
}

/// `heapless::spsc::Queue::dequeue`: the oldest reading leaves the queue;
/// an empty queue gives `None` and stays empty.
#[verifier::external_body]
fn queue_dequeue(queue: &mut ReadingQueue) -> (result: Option<Reading>)
    ensures
        queued(*old(queue)).len() == 0 ==> result is None
            && queued(*final(queue)) == queued(*old(queue)),
        queued(*old(queue)).len() > 0 ==> result == Some(queued(*old(queue))[0])
            && queued(*final(queue)) == queued(*old(queue)).skip(1),
    no_unwind
{
    queue.inner.dequeue()
}

/// `heapless::spsc::Queue::split`: the two ends of the queue. Whatever is
/// done through them, the queue never holds more than its capacity.
#[verifier::external_body]
fn queue_split<'a>(queue: &'a mut ReadingQueue) -> (ends: (
    heapless::spsc::Producer<'a, Reading>,
    heapless::spsc::Consumer<'a, Reading>,
))
    ensures
        queued(*final(queue)).len() <= CAPACITY,
    no_unwind
{
    queue.inner.split()
}

/// `heapless::spsc::Producer::enqueue`: a reading that finds no room is
/// handed back. Whether there is room depends on the other end.
#[verifier::external_body]
fn producer_enqueue(
    producer: &mut heapless::spsc::Producer<'_, Reading>,
    reading: Reading,
) -> (result: Result<(), Reading>)
    ensures
        result is Err ==> result->Err_0 == reading,
{
    producer.enqueue(reading)
}

/// `heapless::spsc::Consumer::dequeue`: the oldest reading, if the other
/// end has put one in.
#[verifier::external_body]
fn consumer_dequeue(consumer: &mut heapless::spsc::Consumer<'_, Reading>) -> (result: Option<
    Reading,
>) {
    consumer.dequeue()
}

/// The queue had no room; the reading offered to it was dropped.
#[derive(Debug, PartialEq, Eq, Clone, Copy)]
pub struct Full;

/// What the caller of an enqueue is told, given what the queue handed
/// back: a reading that came back was dropped for want of room.
pub fn report(handed_back: Result<(), Reading>) -> (result: Result<(), Full>)
    ensures
        handed_back is Ok ==> result == Ok::<(), Full>(()),
        handed_back is Err ==> result == Err::<(), Full>(Full),
{
    match handed_back {
        Ok(()) => Ok(()),
        Err(_) => Err(Full),
    }
}

/// What the oldest reading of a queue becomes on its way out: the frame
/// of the message that carries it.
pub fn transmit_frame(dequeued: Option<Reading>) -> (frame: Option<Frame>)
    ensures
        dequeued is None ==> frame is None,
        dequeued matches Some(reading) ==> frame is Some && frame->Some_0@
            == ClientHostMessage::Reading(reading).wire(),
{
    match dequeued {
        Some(reading) => Some(encode_frame(&ClientHostMessage::Reading(reading))),
        None => None,
    }
}

/// The content of a queue after `reading` was offered to it.
pub open spec fn after_enqueue(queue: Seq<Reading>, reading: Reading) -> Seq<Reading> {
    if queue.len() < CAPACITY {
        queue.push(reading)
    } else {
        queue
    }
}

/// What offering a reading to a queue reports.
pub open spec fn enqueue_result(queue: Seq<Reading>) -> Result<(), Full> {
    if queue.len() < CAPACITY {
        Ok(())
    } else {
        Err(Full)
    }
}

/// The content of a queue after its oldest reading, if any, was taken.
pub open spec fn after_dequeue(queue: Seq<Reading>) -> Seq<Reading> {
    if queue.len() > 0 {
        queue.skip(1)
    } else {
        queue
    }
}

/// What taking from a queue gives.
pub open spec fn dequeue_result(queue: Seq<Reading>) -> Option<Reading> {
    if queue.len() > 0 {
        Some(queue[0])
    } else {
        None
    }
}

/// The content of a queue after `readings` were offered to it one by one.
pub open spec fn after_enqueue_all(queue: Seq<Reading>, readings: Seq<Reading>) -> Seq<Reading>
    decreases readings.len(),
{
    if readings.len() == 0 {
        queue
    } else {
        after_enqueue(after_enqueue_all(queue, readings.drop_last()), readings.last())
    }
}

/// Bounded first-in first-out queue of readings. A reading that arrives
/// when the queue is full is dropped; nothing that is queued is ever
/// overwritten.
pub struct CaptureRingBuffer {
    queue: ReadingQueue,
}

impl View for CaptureRingBuffer {
    type V = Seq<Reading>;

    /// The queued readings, oldest first.
    closed spec fn view(&self) -> Seq<Reading> {
        queued(self.queue)
    }
}

impl CaptureRingBuffer {
    /// The queue never holds more than its capacity.
    #[verifier::type_invariant]
    pub open spec fn within_capacity(&self) -> bool {
        self@.len() <= CAPACITY
    }

    /// An empty queue.
    pub fn new() -> (buffer: Self)
        ensures
            buffer@ == Seq::<Reading>::empty(),
    {
        Self { queue: queue_new() }
    }

    /// The number of readings the queue can hold.
    pub fn capacity(&self) -> (capacity: usize)
        ensures
            capacity == CAPACITY,
    {
        CAPACITY
    }

    /// The number of readings that wait, never above the capacity.
    pub fn len(&self) -> (count: usize)
        ensures
            count == self@.len(),
            count <= CAPACITY,
    {
        proof {
            use_type_invariant(self);
        }
        queue_len(&self.queue)
    }

    /// Whether no reading waits.
    pub fn is_empty(&self) -> (empty: bool)
        ensures
            empty == (self@.len() == 0),
    {
        queue_len(&self.queue) == 0
    }

    /// Whether the next reading offered would be dropped.
    pub fn is_full(&self) -> (full: bool)
        ensures
            full == (self@.len() == CAPACITY),
    {
        proof {
            use_type_invariant(self);
        }
        queue_len(&self.queue) == CAPACITY
    }

    /// Puts `reading` behind those already queued, or drops it and reports
    /// `Full` when the queue is at capacity.
    pub fn enqueue(&mut self, reading: Reading) -> (result: Result<(), Full>)
        ensures
            result == enqueue_result(old(self)@),
            final(self)@ == after_enqueue(old(self)@, reading),
    {
        proof {
            use_type_invariant(&*self);
        }
        let handed_back = queue_enqueue(&mut self.queue, reading);
        report(handed_back)
    }

    /// Takes the oldest reading off the queue, if there is one.
    pub fn dequeue(&mut self) -> (result: Option<Reading>)
        ensures
            result == dequeue_result(old(self)@),
            final(self)@ == after_dequeue(old(self)@),
    {
        proof {
            use_type_invariant(&*self);
        }
        queue_dequeue(&mut self.queue)
    }

    /// Samples taken at `ticks` become a reading, which is queued or, at
    /// capacity, dropped.
    pub fn capture(&mut self, ticks: u32, channel1: bool, channel2: bool) -> (result: Result<
        (),
        Full,
    >)
        ensures
            result == enqueue_result(old(self)@),
            final(self)@ == after_enqueue(old(self)@, Reading::new(ticks, channel1, channel2)),
    {
        let reading = Reading::new(ticks, channel1, channel2);
        self.enqueue(reading)
    }

    /// The frame of the oldest reading, which leaves the queue.
    pub fn next_frame(&mut self) -> (frame: Option<Frame>)
        ensures
            final(self)@ == after_dequeue(old(self)@),
            old(self)@.len() == 0 ==> frame is None,
            old(self)@.len() > 0 ==> frame is Some && frame->Some_0@ == ClientHostMessage::Reading(
                old(self)@[0],
            ).wire(),
    {
        let dequeued = self.dequeue();
        transmit_frame(dequeued)
    }

    /// The two ends of the queue, for the two contexts that share it. The
    /// queue itself is out of reach while they live.
    pub fn split(&mut self) -> (ends: (EdgeCaptureProducer<'_>, TransmitConsumer<'_>))
        ensures
            ends.0.lost() == 0,
            ends.0.sent() == Seq::<Reading>::empty(),
    {
        let (producer, consumer) = queue_split(&mut self.queue);
        (
            EdgeCaptureProducer { producer, lost: 0, sent: Ghost(Seq::empty()) },
            TransmitConsumer { consumer },
        )
    }
}

/// The end of the capture queue that the edge interrupt owns. It counts
/// the readings that found no room, and keeps the record of those that it
/// has put into the queue.
pub struct EdgeCaptureProducer<'a> {
    producer: heapless::spsc::Producer<'a, Reading>,
    lost: u32,
    sent: Ghost<Seq<Reading>>,
}

/// The record of what an end has put into the queue after it offered
/// `reading`: the reading stands at its end if the queue took it, and is
/// in no place if the queue was full.
pub open spec fn sent_after(sent: Seq<Reading>, reading: Reading, result: Result<(), Full>) -> Seq<
    Reading,
> {
    if result is Ok {
        sent.push(reading)
    } else {
        sent
    }
}

/// The count of lost readings after one more capture: it goes up by one
/// for a reading that was dropped, and stops at the largest number.
pub open spec fn lost_after(lost: u32, result: Result<(), Full>) -> u32 {
    if result is Err && lost < u32::MAX {
        (lost + 1) as u32
    } else {
        lost
    }
}

impl EdgeCaptureProducer<'_> {
    /// The readings that this end has put into the queue, oldest first.
    pub closed spec fn sent(&self) -> Seq<Reading> {
        self.sent@
    }

    /// The number of readings dropped so far because the queue was full.
    pub closed spec fn spec_lost(&self) -> u32 {
        self.lost
    }

    /// The number of readings dropped so far because the queue was full.
    #[verifier::when_used_as_spec(spec_lost)]
    pub fn lost(&self) -> (lost: u32)
        ensures
            lost == self.spec_lost(),
    {
        self.lost
    }

    /// Samples taken at `ticks` become a reading, which is offered to the
    /// queue. If the queue takes it, it is the newest that this end has
    /// sent; if the queue has no room at that moment, it is dropped and
    /// counted as lost. Whether there is room depends on what the other
    /// end has taken.
    pub fn capture(&mut self, ticks: u32, channel1: bool, channel2: bool) -> (result: Result<
        (),
        Full,
    >)
        ensures
            final(self).sent() == sent_after(
                old(self).sent(),
                Reading::new(ticks, channel1, channel2),
                result,
            ),
            final(self).lost() == lost_after(old(self).lost(), result),
    {
        let reading = Reading::new(ticks, channel1, channel2);
        let handed_back = producer_enqueue(&mut self.producer, reading);
        let result = report(handed_back);
        match result {
            Ok(()) => {
                self.sent = Ghost(self.sent@.push(reading));
            },
            Err(Full) => {
                if self.lost < u32::MAX {
                    self.lost = self.lost + 1;
                }
            },
        }
        result
    }
}

/// The end of the capture queue that the transmitting task owns.
pub struct TransmitConsumer<'a> {
    consumer: heapless::spsc::Consumer<'a, Reading>,
}

impl TransmitConsumer<'_> {
    /// The frame of the oldest reading, if the queue holds one at that
    /// moment; the reading leaves the queue.
    pub fn next_frame(&mut self) -> (frame: Option<Frame>)
        ensures
            frame matches Some(frame) ==> exists|reading: Reading|
                frame@ == #[trigger] ClientHostMessage::Reading(reading).wire(),
    {
        let dequeued = consumer_dequeue(&mut self.consumer);
        transmit_frame(dequeued)
    }
}

/// Filling an empty queue to its capacity: every one of the readings is
/// accepted, one more is refused and changes nothing, and the readings
/// leave in the order in which they came.
pub proof fn fill_then_drain(readings: Seq<Reading>, extra: Reading)
    requires
        readings.len() == CAPACITY,
    ensures
        forall|k: int|
            0 <= k < CAPACITY ==> #[trigger] after_enqueue_all(
                Seq::<Reading>::empty(),
                readings.take(k),
            ) == readings.take(k) && enqueue_result(readings.take(k)) == Ok::<(), Full>(()),
        after_enqueue_all(Seq::<Reading>::empty(), readings) == readings,
        enqueue_result(readings) == Err::<(), Full>(Full),
        after_enqueue(readings, extra) == readings,
        forall|k: int|
            0 <= k < CAPACITY ==> dequeue_result(#[trigger] readings.skip(k)) == Some(readings[k])
                && after_dequeue(readings.skip(k)) == readings.skip(k + 1),
        dequeue_result(readings.skip(CAPACITY as int)) == None::<Reading>,
{
    assert forall|k: int| 0 <= k <= CAPACITY implies #[trigger] after_enqueue_all(
        Seq::<Reading>::empty(),
        readings.take(k),
    ) == readings.take(k) by {
        lemma_enqueue_all(readings.take(k));
    }
    assert(readings.take(CAPACITY as int) == readings);
    assert forall|k: int| 0 <= k < CAPACITY implies dequeue_result(#[trigger] readings.skip(k))
        == Some(readings[k]) && after_dequeue(readings.skip(k)) == readings.skip(k + 1) by {
        assert(readings.skip(k).skip(1) == readings.skip(k + 1));
    }
}

/// Readings offered to an empty queue are all queued, in order, as long as
/// they are no more than the capacity.
pub proof fn lemma_enqueue_all(readings: Seq<Reading>)
    requires
        readings.len() <= CAPACITY,
    ensures
        after_enqueue_all(Seq::<Reading>::empty(), readings) == readings,
    decreases readings.len(),
{
    if readings.len() > 0 {
        lemma_enqueue_all(readings.drop_last());
        assert(readings.drop_last().push(readings.last()) == readings);
    }
}

} // verus!
