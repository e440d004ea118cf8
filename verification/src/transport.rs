//! The sample transport: a bounded first-in first-out queue of samples between
//! one capture pipeline and the render pipeline.
//!
//! A `Transport` is the whole queue in one hand: what it holds is known, and
//! so is the answer of every push and pop. Splitting it gives a `Producer` for
//! the capturing thread and a `Consumer` for the rendering thread; neither end
//! ever blocks. An end knows less, because the other end works at the same
//! time: the consumer is sure of the samples that were queued when it was
//! split off, and the producer of the places that were free then. Beyond
//! those, a pop or a push may go either way.

use vstd::prelude::*;

verus! {

/// The bit pattern of a silent sample, `0.0`.
pub const SILENCE: u32 = 0;

/// Frames of audio that a transport holds per channel.
pub const BUFFER_FRAMES: usize = 16384;

/// A bounded queue of samples, backed by `ringbuf::HeapRb<u32>`. Verus does
/// not look inside: what it holds is `transport_items`, how much it can hold
/// is `transport_limit`.
#[verifier::external_body]
pub struct Transport {
    ring: ringbuf::HeapRb<u32>,
}

/// The writing end of a split transport, backed by `ringbuf::HeapProducer<u32>`.
#[verifier::external_body]
pub struct Producer {
    end: ringbuf::HeapProducer<u32>,
}

/// The reading end of a split transport, backed by `ringbuf::HeapConsumer<u32>`.
#[verifier::external_body]
pub struct Consumer {
    end: ringbuf::HeapConsumer<u32>,
}

/// The samples queued in a transport, oldest first.
pub uninterp spec fn transport_items(t: Transport) -> Seq<u32>;

/// The number of samples that a transport was made to hold.
pub uninterp spec fn transport_limit(t: Transport) -> nat;

/// The places that a producer is sure to find free: those that were free when
/// its transport was split, less the samples that it has pushed since. The
/// consumer can only add to them.
pub uninterp spec fn producer_room(p: Producer) -> nat;

/// The samples that a consumer is sure to find next, oldest first: those that
/// were queued when its transport was split and that it has not popped since.
/// The producer can only queue more behind them.
pub uninterp spec fn consumer_ahead(c: Consumer) -> Seq<u32>;

/// Whether a ring buffer of `capacity` samples can be made: it has room for a
/// sample, and its bytes can be counted on this machine.
pub open spec fn makeable(capacity: usize) -> bool {
    0 < capacity && capacity * 4 <= isize::MAX
}

/// `ringbuf::HeapRb::<u32>::new`: an empty ring buffer of the given capacity.
/// The outside function panics on a capacity of zero, and on one whose bytes
/// are more than an allocation can have.
#[verifier::external_body]
fn ring_new(capacity: usize) -> (t: Transport)
    requires
        makeable(capacity),
    ensures
        transport_items(t) == Seq::<u32>::empty(),
        transport_limit(t) == capacity,
{
    Transport { ring: ringbuf::HeapRb::<u32>::new(capacity) }
}

/// `ringbuf::Rb::push` on the whole buffer: the sample goes to the back when
/// the buffer is not full; a full buffer is left as it was.
#[verifier::external_body]
fn ring_push(t: &mut Transport, sample: u32) -> (accepted: bool)
    ensures
        transport_limit(*final(t)) == transport_limit(*old(t)),
        accepted == (transport_items(*old(t)).len() < transport_limit(*old(t))),
        accepted ==> transport_items(*final(t)) == transport_items(*old(t)).push(sample),
        !accepted ==> transport_items(*final(t)) == transport_items(*old(t)),
{
    ringbuf::Rb::push(&mut t.ring, sample).is_ok()
}

/// `ringbuf::Rb::pop` on the whole buffer: the oldest sample leaves and is
/// returned; an empty buffer returns nothing and is left as it was.
#[verifier::external_body]
fn ring_pop(t: &mut Transport) -> (sample: Option<u32>)
    ensures
        transport_limit(*final(t)) == transport_limit(*old(t)),
        transport_items(*old(t)).len() == 0 ==> sample.is_none() && transport_items(*final(t))
            == transport_items(*old(t)),
        transport_items(*old(t)).len() > 0 ==> sample == Some(transport_items(*old(t))[0])
            && transport_items(*final(t)) == transport_items(*old(t)).drop_first(),
{
    ringbuf::Rb::pop(&mut t.ring)
}

/// `ringbuf::Rb::len`: the number of queued samples, never above the capacity.
#[verifier::external_body]
fn ring_len(t: &Transport) -> (n: usize)
    ensures
        n == transport_items(*t).len(),
        n <= transport_limit(*t),
{
    ringbuf::Rb::len(&t.ring)
}

/// `ringbuf::Rb::capacity`: the capacity that the buffer was made with.
#[verifier::external_body]
fn ring_capacity(t: &Transport) -> (n: usize)
    ensures
        n == transport_limit(*t),
        n > 0,
{
    ringbuf::Rb::capacity(&t.ring)
}

/// `ringbuf::SharedRb::split`: the two ends of the buffer. The buffer moves
/// into the ends as it is: what was queued is what the consumer pops first,
/// and what was free is free for the producer.
#[verifier::external_body]
fn ring_split(t: Transport) -> (ends: (Producer, Consumer))
    ensures
        producer_room(ends.0) + transport_items(t).len() == transport_limit(t),
        consumer_ahead(ends.1) == transport_items(t),
{
    let (producer, consumer) = t.ring.split();
    (Producer { end: producer }, Consumer { end: consumer })
}

/// `ringbuf::Producer::push`: the sample goes to the back when the buffer is
/// not full. A place that was free stays free until this producer fills it,
/// so a push into known room is accepted. Beyond that room the answer depends
/// on what the consumer has taken out by then, and nothing is promised.
#[verifier::external_body]
fn producer_push(p: &mut Producer, sample: u32) -> (accepted: bool)
    ensures
        producer_room(*old(p)) > 0 ==> accepted,
        producer_room(*final(p)) == room_after(producer_room(*old(p))),
{
    p.end.push(sample).is_ok()
}

/// `ringbuf::Consumer::pop`: the oldest sample leaves and is returned. A
/// sample that was queued stays at the front until this consumer pops it, so
/// a pop with samples known ahead returns the first of them. Beyond those the
/// answer depends on what the producer has queued by then, and nothing is
/// promised.
#[verifier::external_body]
fn consumer_pop(c: &mut Consumer) -> (sample: Option<u32>)
    ensures
        consumer_ahead(*old(c)).len() > 0 ==> sample == Some(consumer_ahead(*old(c))[0]),
        consumer_ahead(*final(c)) == popped(consumer_ahead(*old(c))),
{
    c.end.pop()
}

/// The room that is left of `room` known free places after one push.
pub open spec fn room_after(room: nat) -> nat {
    if room > 0 {
        (room - 1) as nat
    } else {
        0
    }
}

/// A queue after one push of `sample`: the sample is at the back where it was
/// accepted, and the queue is as it was where it was dropped. An unknown
/// queue stays unknown.
pub open spec fn pushed(queue: Option<Seq<u32>>, accepted: bool, sample: u32) -> Option<Seq<u32>> {
    match queue {
        Some(q) => if accepted {
            Some(q.push(sample))
        } else {
            Some(q)
        },
        None => None,
    }
}

/// The samples ahead after one pop: the oldest has left.
pub open spec fn popped(ahead: Seq<u32>) -> Seq<u32> {
    if ahead.len() > 0 {
        ahead.drop_first()
    } else {
        ahead
    }
}

/// What one pop takes from a queue.
pub open spec fn front(q: Seq<u32>) -> Option<u32> {
    if q.len() > 0 {
        Some(q[0])
    } else {
        None
    }
}

/// Something that samples can be pushed into without blocking.
pub trait SampleSink {
    /// The samples known to be queued behind this sink, oldest first; `None`
    /// where another thread may be taking samples out.
    spec fn backlog(&self) -> Option<Seq<u32>>;

    /// The places known to be free behind this sink. Where the queue is known
    /// these are all the free places there are.
    spec fn room(&self) -> nat;

    /// Queues one sample. A full queue drops the sample and answers `false`.
    /// A push into known room is accepted; a push into a known queue without
    /// room is dropped.
    fn push(&mut self, sample: u32) -> (accepted: bool)
        ensures
            old(self).room() > 0 ==> accepted,
            old(self).room() == 0 && old(self).backlog().is_some() ==> !accepted,
            final(self).room() == room_after(old(self).room()),
            final(self).backlog() == pushed(old(self).backlog(), accepted, sample),
    ;
}

/// Something that samples can be popped from without blocking.
pub trait SampleSource {
    /// The samples known to come next from this source, oldest first.
    spec fn ahead(&self) -> Seq<u32>;

    /// Whether nothing but the samples ahead can come: no other thread adds
    /// to the queue.
    spec fn sealed(&self) -> bool;

    /// Takes the oldest sample. An empty queue answers `None`. With samples
    /// known ahead the answer is the first of them; with none ahead, a sealed
    /// source answers `None`.
    fn pop(&mut self) -> (sample: Option<u32>)
        ensures
            old(self).ahead().len() > 0 || old(self).sealed() ==> sample == front(
                old(self).ahead(),
            ),
            final(self).ahead() == popped(old(self).ahead()),
            final(self).sealed() == old(self).sealed(),
    ;
}

impl View for Transport {
    type V = Seq<u32>;

    open spec fn view(&self) -> Seq<u32> {
        transport_items(*self)
    }
}

impl Transport {
    /// The number of samples that the transport can hold.
    pub open spec fn capacity_spec(&self) -> nat {
        transport_limit(*self)
    }

    /// The capacity for a stream of `channels` channels: `BUFFER_FRAMES`
    /// frames, and room for one channel where the stream has none.
    pub open spec fn capacity_for(channels: u16) -> nat {
        if channels == 0 {
            BUFFER_FRAMES as nat
        } else {
            (BUFFER_FRAMES * channels) as nat
        }
    }

    /// An empty transport for `capacity` samples, or `None` where no transport
    /// of that capacity can be made.
    pub fn new(capacity: usize) -> (made: Option<Transport>)
        ensures
            made.is_some() == makeable(capacity),
            made matches Some(t) ==> t@ == Seq::<u32>::empty() && t.capacity_spec() == capacity,
    {
        if capacity == 0 || capacity > (isize::MAX as usize) / 4 {
            None
        } else {
            Some(ring_new(capacity))
        }
    }

    /// An empty transport sized for a stream of `channels` channels, or
    /// `None` where this machine cannot hold one of that size.
    pub fn for_channels(channels: u16) -> (made: Option<Transport>)
        ensures
            made.is_some() == (Transport::capacity_for(channels) * 4 <= isize::MAX),
            made matches Some(t) ==> t@ == Seq::<u32>::empty() && t.capacity_spec()
                == Transport::capacity_for(channels),
    {
        let per_frame: usize = if channels == 0 {
            1
        } else {
            channels as usize
        };
        Transport::new(BUFFER_FRAMES * per_frame)
    }

    /// The number of queued samples.
    pub fn len(&self) -> (n: usize)
        ensures
            n == self@.len(),
            n <= self.capacity_spec(),
    {
        ring_len(self)
    }

    /// The number of samples that the transport can hold.
    pub fn capacity(&self) -> (n: usize)
        ensures
            n == self.capacity_spec(),
            n > 0,
    {
        ring_capacity(self)
    }

    /// Hands out the two ends, one for the capturing thread and one for the
    /// rendering thread. What is queued stays queued: the consumer has it
    /// ahead, and the producer has the free places as room.
    pub fn split(self) -> (ends: (Producer, Consumer))
        ensures
            ends.0.room() + self@.len() == self.capacity_spec(),
            ends.0.backlog().is_none(),
            ends.1.ahead() == self@,
            !ends.1.sealed(),
    {
        ring_split(self)
    }

    /// The free places of the transport.
    pub open spec fn free(&self) -> nat {
        if self@.len() <= self.capacity_spec() {
            (self.capacity_spec() - self@.len()) as nat
        } else {
            0
        }
    }
}

impl SampleSink for Transport {
    open spec fn backlog(&self) -> Option<Seq<u32>> {
        Some(self@)
    }

    open spec fn room(&self) -> nat {
        self.free()
    }

    fn push(&mut self, sample: u32) -> (accepted: bool) {
        ring_push(self, sample)
    }
}

impl SampleSource for Transport {
    open spec fn ahead(&self) -> Seq<u32> {
        self@
    }

    open spec fn sealed(&self) -> bool {
        true
    }

    fn pop(&mut self) -> (sample: Option<u32>) {
        ring_pop(self)
    }
}

impl SampleSink for Producer {
    open spec fn backlog(&self) -> Option<Seq<u32>> {
        None
    }

    open spec fn room(&self) -> nat {
        producer_room(*self)
    }

    fn push(&mut self, sample: u32) -> (accepted: bool) {
        producer_push(self, sample)
    }
}

impl SampleSource for Consumer {
    open spec fn ahead(&self) -> Seq<u32> {
        consumer_ahead(*self)
    }

    open spec fn sealed(&self) -> bool {
        false
    }

    fn pop(&mut self) -> (sample: Option<u32>) {
        consumer_pop(self)
    }
}

/// What the render pipeline reads one input from.
pub enum Feed {
    /// The reading end of the transport of a connected input.
    Live(Consumer),
    /// An input that is not connected: it never has a sample.
    Absent,
}

impl SampleSource for Feed {
    open spec fn ahead(&self) -> Seq<u32> {
        match self {
            Feed::Live(consumer) => consumer.ahead(),
            Feed::Absent => Seq::<u32>::empty(),
        }
    }

    open spec fn sealed(&self) -> bool {
        match self {
            Feed::Live(consumer) => false,
            Feed::Absent => true,
        }
    }

    fn pop(&mut self) -> (sample: Option<u32>) {
        match self {
            Feed::Live(consumer) => consumer.pop(),
            Feed::Absent => None,
        }
    }
}

/// A known queue and its room after the samples of `samples` were pushed one
/// by one, in order.
pub open spec fn pushed_each(queue: Seq<u32>, room: nat, samples: Seq<u32>) -> (Seq<u32>, nat)
    decreases samples.len(),
{
    if samples.len() == 0 {
        (queue, room)
    } else {
        let before = pushed_each(queue, room, samples.drop_last());
        if before.1 > 0 {
            (before.0.push(samples.last()), (before.1 - 1) as nat)
        } else {
            before
        }
    }
}

/// The samples ahead after `count` pops.
pub open spec fn popped_times(ahead: Seq<u32>, count: nat) -> Seq<u32>
    decreases count,
{
    if count == 0 {
        ahead
    } else {
        popped(popped_times(ahead, (count - 1) as nat))
    }
}

/// How many of `offered` samples go into `room` free places.
pub open spec fn admitted(room: nat, offered: nat) -> nat {
    if offered <= room {
        offered
    } else {
        room
    }
}

/// Pushing samples one by one takes in the first ones for which there is room
/// and drops the rest.
pub proof fn lemma_pushed_each(q: Seq<u32>, room: nat, samples: Seq<u32>)
    ensures
        pushed_each(q, room, samples) == (
            q + samples.take(admitted(room, samples.len()) as int),
            (room - admitted(room, samples.len())) as nat,
        ),
    decreases samples.len(),
{
    if samples.len() == 0 {
        assert(q + samples.take(0) =~= q);
    } else {
        let front_part = samples.drop_last();
        lemma_pushed_each(q, room, front_part);
        let taken = admitted(room, front_part.len());
        let before = q + front_part.take(taken as int);
        let now = admitted(room, samples.len());
        if room - taken > 0 {
            assert(before.push(samples.last()) =~= q + samples.take(now as int));
        } else {
            assert(before =~= q + samples.take(now as int));
        }
    }
}

/// What is left of the samples ahead once the `count` oldest are gone, or
/// nothing where there were no more than that.
pub open spec fn drained(ahead: Seq<u32>, count: nat) -> Seq<u32> {
    if count <= ahead.len() {
        ahead.skip(count as int)
    } else {
        Seq::<u32>::empty()
    }
}

/// Popping `count` times removes the `count` oldest samples, or all of them
/// where fewer are ahead.
pub proof fn lemma_popped_times(ahead: Seq<u32>, count: nat)
    ensures
        popped_times(ahead, count) == drained(ahead, count),
    decreases count,
{
    if count == 0 {
        assert(ahead.skip(0) =~= ahead);
    } else {
        lemma_popped_times(ahead, (count - 1) as nat);
        if count <= ahead.len() {
            assert(ahead.skip(count - 1).drop_first() =~= ahead.skip(count as int));
        } else if count - 1 == ahead.len() {
            assert(ahead.skip(count - 1) =~= Seq::<u32>::empty());
        }
    }
}

/// Draining `first` samples and then `then` more is draining `first + then`.
pub proof fn lemma_drained_again(ahead: Seq<u32>, first: nat, then: nat)
    ensures
        drained(drained(ahead, first), then) == drained(ahead, first + then),
{
    if first + then <= ahead.len() {
        assert(ahead.skip(first as int).skip(then as int) =~= ahead.skip((first + then) as int));
    } else {
        assert(drained(drained(ahead, first), then) =~= Seq::<u32>::empty());
    }
}

/// A transport of capacity `limit` that is offered more samples than it can
/// hold, with no pop in between, keeps exactly the first `limit` of them. The
/// push of sample `i` finds room, and so is accepted, if and only if
/// `i < limit`; every later push is dropped.
pub proof fn law_overflow_is_dropped(limit: nat, samples: Seq<u32>, i: int)
    requires
        limit > 0,
        samples.len() > limit,
        0 <= i < samples.len(),
    ensures
        pushed_each(Seq::<u32>::empty(), limit, samples) == (samples.take(limit as int), 0nat),
        pushed_each(Seq::<u32>::empty(), limit, samples.take(i)).1 > 0 <==> i < limit,
{
    let empty = Seq::<u32>::empty();
    lemma_pushed_each(empty, limit, samples);
    assert(empty + samples.take(limit as int) =~= samples.take(limit as int));
    lemma_pushed_each(empty, limit, samples.take(i));
}

/// Once a transport has been popped at least as often as it held samples, it
/// is empty and every further pop answers `None`.
pub proof fn law_underrun_is_empty(q: Seq<u32>, count: nat)
    requires
        count >= q.len(),
    ensures
        popped_times(q, count).len() == 0,
        front(popped_times(q, count)).is_none(),
        popped(popped_times(q, count)) == popped_times(q, count),
{
    lemma_popped_times(q, count);
}

} // verus!
