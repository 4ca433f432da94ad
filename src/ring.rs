//! The bounded FIFO of samples between the capture and render callbacks,
//! kept in a `ringbuf` heap ring buffer of sample bit patterns.

use ringbuf::traits::{Consumer, Producer, Split};
use ringbuf::{HeapCons, HeapProd, HeapRb};
use vstd::prelude::*;

verus! {

/// A heap ring buffer of sample bit patterns. Verus takes it as opaque: what
/// it holds is read through `ring_items` and `ring_capacity`.
#[verifier::external_body]
pub struct SampleRing {
    rb: HeapRb<u32>,
}

/// The items that a ring holds, oldest first.
pub uninterp spec fn ring_items(r: SampleRing) -> Seq<u32>;

/// The number of items that a ring can hold, fixed at its creation.
pub uninterp spec fn ring_capacity(r: SampleRing) -> nat;

/// Relies on `HeapRb::new`: an empty ring of the given capacity; it panics on
/// a zero capacity.
#[verifier::external_body]
pub(crate) fn ring_new(capacity: usize) -> (r: SampleRing)
    requires
        capacity > 0,
    ensures
        ring_items(r) == Seq::<u32>::empty(),
        ring_capacity(r) == capacity,
{
    SampleRing { rb: HeapRb::new(capacity) }
}

/// Relies on `Producer::try_push` of `SharedRb`: the item is appended when the
/// ring is not full, and handed back otherwise.
#[verifier::external_body]
pub(crate) fn ring_try_push(r: &mut SampleRing, item: u32) -> (pushed: bool)
    ensures
        ring_capacity(*final(r)) == ring_capacity(*old(r)),
        pushed == (ring_items(*old(r)).len() < ring_capacity(*old(r))),
        pushed ==> ring_items(*final(r)) == ring_items(*old(r)).push(item),
        !pushed ==> ring_items(*final(r)) == ring_items(*old(r)),
{
    r.rb.try_push(item).is_ok()
}

/// Relies on `Consumer::try_pop` of `SharedRb`: the oldest item is removed and
/// returned, or `None` when the ring is empty.
#[verifier::external_body]
pub(crate) fn ring_try_pop(r: &mut SampleRing) -> (item: Option<u32>)
    ensures
        ring_capacity(*final(r)) == ring_capacity(*old(r)),
        ring_items(*old(r)).len() == 0 ==> item is None && ring_items(*final(r)) == ring_items(*old(r)),
        ring_items(*old(r)).len() > 0 ==> item == Some(ring_items(*old(r))[0])
            && ring_items(*final(r)) == ring_items(*old(r)).drop_first(),
{
    r.rb.try_pop()
}

/// The capture end of a split ring. What the ring holds is not tracked
/// here: the render end pops from it concurrently.
#[verifier::external_body]
pub struct SampleProducer {
    prod: HeapProd<u32>,
}

/// The render end of a split ring. What the ring holds is not tracked here:
/// the capture end pushes to it concurrently.
#[verifier::external_body]
pub struct SampleConsumer {
    cons: HeapCons<u32>,
}

/// Relies on `Split::split` of `SharedRb`: the two ends share one ring, one
/// to push from a single thread and one to pop from another, without locks.
#[verifier::external_body]
pub(crate) fn ring_split(r: SampleRing) -> (ends: (SampleProducer, SampleConsumer)) {
    let (prod, cons) = r.rb.split();
    (SampleProducer { prod }, SampleConsumer { cons })
}

/// Relies on `Producer::try_push` of the capture end: `true` when the item
/// was appended, `false` when the ring was full at that moment.
#[verifier::external_body]
pub(crate) fn producer_try_push(p: &mut SampleProducer, item: u32) -> (pushed: bool) {
    p.prod.try_push(item).is_ok()
}

/// Relies on `Consumer::try_pop` of the render end: the oldest item, or
/// `None` when the ring was empty at that moment.
#[verifier::external_body]
pub(crate) fn consumer_try_pop(c: &mut SampleConsumer) -> (item: Option<u32>) {
    c.cons.try_pop()
}

} // verus!
