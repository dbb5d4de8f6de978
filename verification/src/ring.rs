//! The queue of samples between an audio device and the network: a fixed-capacity ring buffer.

use ringbuf::traits::{Consumer, Producer};
use vstd::prelude::*;

verus! {

/// A first-in first-out queue of samples, of a capacity chosen when it is made.
#[verifier::external_body]
pub struct SampleRing {
    ring: ringbuf::HeapRb<u32>,
}

/// The samples that a ring holds, the eldest first.
pub uninterp spec fn ring_samples(ring: SampleRing) -> Seq<u32>;

/// The number of samples that a ring has room for.
pub uninterp spec fn ring_capacity(ring: SampleRing) -> nat;

/// `ringbuf::HeapRb::new`: an empty ring with room for exactly `capacity` samples. It panics where
/// `capacity` is zero, and where the storage would be larger than an allocation can be.
#[verifier::external_body]
pub(crate) fn ring_new(capacity: usize) -> (ring: SampleRing)
    requires
        0 < capacity,
        capacity * 4 <= isize::MAX,
    ensures
        ring_samples(ring) == Seq::<u32>::empty(),
        ring_capacity(ring) == capacity,
{
    SampleRing { ring: ringbuf::HeapRb::new(capacity) }
}

/// `ringbuf::traits::Producer::push_slice`: appends as many of the samples as there is room for,
/// from the first on, and returns how many those are.
#[verifier::external_body]
pub(crate) fn ring_push_slice(ring: &mut SampleRing, samples: &[u32]) -> (count: usize)
    ensures
        ring_capacity(*final(ring)) == ring_capacity(*old(ring)),
        count <= samples@.len(),
        count <= ring_capacity(*old(ring)) - ring_samples(*old(ring)).len(),
        count == samples@.len() || count == ring_capacity(*old(ring)) - ring_samples(
            *old(ring),
        ).len(),
        ring_samples(*final(ring)) == ring_samples(*old(ring)) + samples@.take(count as int),
{
    ring.ring.push_slice(samples)
}

/// `ringbuf::traits::Consumer::pop_slice`: moves as many samples as the ring holds and the slice
/// has room for to the front of the slice, the eldest first, leaves the rest of the slice as it
/// was, and returns how many it moved.
#[verifier::external_body]
pub(crate) fn ring_pop_slice(ring: &mut SampleRing, samples: &mut [u32]) -> (count: usize)
    ensures
        ring_capacity(*final(ring)) == ring_capacity(*old(ring)),
        count <= old(samples)@.len(),
        count <= ring_samples(*old(ring)).len(),
        count == old(samples)@.len() || count == ring_samples(*old(ring)).len(),
        ring_samples(*final(ring)) == ring_samples(*old(ring)).skip(count as int),
        final(samples)@ == ring_samples(*old(ring)).take(count as int) + old(samples)@.skip(
            count as int,
        ),
{
    ring.ring.pop_slice(samples)
}

/// `ringbuf::traits::Consumer::try_pop`: removes and returns the eldest sample; `None` where the
/// ring holds none.
#[verifier::external_body]
pub(crate) fn ring_try_pop(ring: &mut SampleRing) -> (sample: Option<u32>)
    ensures
        ring_capacity(*final(ring)) == ring_capacity(*old(ring)),
        ring_samples(*old(ring)).len() == 0 ==> sample is None && ring_samples(*final(ring))
            == ring_samples(*old(ring)),
        ring_samples(*old(ring)).len() > 0 ==> sample == Some(ring_samples(*old(ring))[0])
            && ring_samples(*final(ring)) == ring_samples(*old(ring)).skip(1),
{
    ring.ring.try_pop()
}

/// What a queue with room for `capacity` samples holds after samples came in: those that found no
/// room are dropped.
pub open spec fn queue_after_push(queue: Seq<u32>, capacity: nat, samples: Seq<u32>) -> Seq<u32> {
    let room = capacity - queue.len();
    if samples.len() <= room {
        queue + samples
    } else {
        queue + samples.take(room)
    }
}

/// How many samples go from a queue to a place that has room for `room`.
pub open spec fn popped(queue: Seq<u32>, room: nat) -> nat {
    if queue.len() <= room {
        queue.len()
    } else {
        room
    }
}

/// Samples leave the queue in the order in which they came in, and none is lost while there is room:
/// after two pushes that fit, popping everything gives both.
pub proof fn law_queue_keeps_order(
    queue: Seq<u32>,
    capacity: nat,
    first: Seq<u32>,
    second: Seq<u32>,
)
    requires
        queue.len() + first.len() + second.len() <= capacity,
    ensures
        ({
            let after = queue_after_push(
                queue_after_push(queue, capacity, first),
                capacity,
                second,
            );
            let n = popped(after, (queue.len() + first.len() + second.len()) as nat);
            &&& after.take(n as int) == queue + first + second
            &&& after.skip(n as int) == Seq::<u32>::empty()
        }),
{
    let after = queue + first + second;
    assert(after.take(after.len() as int) =~= after);
    assert(after.skip(after.len() as int) =~= Seq::<u32>::empty());
}

/// A queue never holds more than it has room for, and a push leaves what it held in its place.
pub proof fn law_queue_is_bounded(queue: Seq<u32>, capacity: nat, samples: Seq<u32>)
    requires
        queue.len() <= capacity,
    ensures
        queue_after_push(queue, capacity, samples).len() <= capacity,
        queue_after_push(queue, capacity, samples).take(queue.len() as int) == queue,
{
    assert(queue_after_push(queue, capacity, samples).take(queue.len() as int) =~= queue);
}

/// A buffer that is queued in turns, where each turn takes up where the one before stopped, is queued
/// in order, without gaps or repetitions: a turn queues the samples from `pushed` up to where the
/// next one takes up, and stops short of the end only where there is no more room.
pub proof fn law_push_goes_on(queue: Seq<u32>, capacity: nat, buffer: Seq<u32>, pushed: int)
    requires
        queue.len() <= capacity,
        0 <= pushed <= buffer.len(),
    ensures
        ({
            let after = queue_after_push(queue, capacity, buffer.skip(pushed));
            let now = pushed + after.len() - queue.len();
            &&& pushed <= now <= buffer.len()
            &&& after == queue + buffer.subrange(pushed, now)
            &&& now == buffer.len() || after.len() == capacity
        }),
{
    let after = queue_after_push(queue, capacity, buffer.skip(pushed));
    let now = pushed + after.len() - queue.len();
    assert(after =~= queue + buffer.subrange(pushed, now));
}

/// Popping loses and repeats nothing: what was popped and what is left make up the queue, and
/// something is left only where there was no more room.
pub proof fn law_pop_goes_on(queue: Seq<u32>, room: nat)
    ensures
        ({
            let n = popped(queue, room);
            &&& n <= room
            &&& n <= queue.len()
            &&& queue.take(n as int) + queue.skip(n as int) == queue
            &&& n == room || queue.skip(n as int) == Seq::<u32>::empty()
        }),
{
    let n = popped(queue, room);
    assert(queue.take(n as int) + queue.skip(n as int) =~= queue);
    if n < room {
        assert(queue.skip(n as int) =~= Seq::<u32>::empty());
    }
}

} // verus!
