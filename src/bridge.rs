//! The audio bridge: the capture callback pushes samples into a bounded ring,
//! the render callback pops one block at a time. A full ring drops what is
//! captured, an empty one renders silence; each condition raises its own latch
//! the first time it happens.
//!
//! Samples travel as their IEEE-754 bit patterns, so silence is `0`.

use crate::ring::{
    consumer_try_pop, producer_try_push, ring_capacity, ring_items, ring_new, ring_split, ring_try_pop,
    ring_try_push, SampleConsumer, SampleProducer, SampleRing,
};
use vstd::prelude::*;

verus! {

/// What the bridge holds, as plain values.
pub struct BridgeState {
    pub items: Seq<u32>,
    pub capacity: nat,
    pub overflow: bool,
    pub underrun: bool,
}

/// How many of `offered` samples fit into a ring that holds `held` of
/// `capacity`.
pub open spec fn accepted_count(held: nat, capacity: nat, offered: nat) -> nat {
    if held + offered <= capacity {
        offered
    } else if held <= capacity {
        (capacity - held) as nat
    } else {
        0
    }
}

/// The bridge after the capture of `block`: what fits is appended, the rest
/// is dropped and latches the overflow.
pub open spec fn captured(s: BridgeState, block: Seq<u32>) -> BridgeState {
    let k = accepted_count(s.items.len(), s.capacity, block.len());
    BridgeState {
        items: s.items + block.take(k as int),
        capacity: s.capacity,
        overflow: s.overflow || k < block.len(),
        underrun: s.underrun,
    }
}

/// How many samples of `block` a capture drops.
pub open spec fn dropped_count(s: BridgeState, block: Seq<u32>) -> nat {
    (block.len() - accepted_count(s.items.len(), s.capacity, block.len())) as nat
}

/// Whether the capture of `block` raises the overflow latch.
pub open spec fn overflow_raised(s: BridgeState, block: Seq<u32>) -> bool {
    !s.overflow && captured(s, block).overflow
}

/// How many samples a render of `n` finds in the ring.
pub open spec fn available_count(s: BridgeState, n: nat) -> nat {
    if s.items.len() < n {
        s.items.len()
    } else {
        n
    }
}

/// The block that a render of `n` samples produces: the oldest samples held,
/// then silence for the shortfall.
pub open spec fn render_output(s: BridgeState, n: nat) -> Seq<u32> {
    let m = available_count(s, n);
    s.items.take(m as int) + Seq::new((n - m) as nat, |i: int| 0u32)
}

/// The bridge after a render of `n` samples.
pub open spec fn rendered(s: BridgeState, n: nat) -> BridgeState {
    let m = available_count(s, n);
    BridgeState {
        items: s.items.skip(m as int),
        capacity: s.capacity,
        overflow: s.overflow,
        underrun: s.underrun || m < n,
    }
}

/// Whether a render of `n` samples raises the underrun latch.
pub open spec fn underrun_raised(s: BridgeState, n: nat) -> bool {
    !s.underrun && rendered(s, n).underrun
}

/// Overflow drops only the excess: capturing one sample more than the
/// capacity into an empty ring keeps the first `capacity` samples, drops
/// exactly one, raises the overflow latch if it was down, and no later
/// capture raises it again.
pub proof fn lemma_overflow_drops_only_the_excess(s: BridgeState, block: Seq<u32>, later: Seq<u32>)
    requires
        s.items.len() == 0,
        s.capacity > 0,
        block.len() == s.capacity + 1,
    ensures
        captured(s, block).items == block.take(s.capacity as int),
        dropped_count(s, block) == 1,
        captured(s, block).overflow,
        overflow_raised(s, block) == !s.overflow,
        !overflow_raised(captured(s, block), later),
{
    assert(s.items + block.take(s.capacity as int) =~= block.take(s.capacity as int));
}

/// Underrun renders silence: a render from an empty ring gives a block of
/// zeros, raises the underrun latch if it was down, and no later render
/// raises it again.
pub proof fn lemma_underrun_renders_silence(s: BridgeState, n: nat, later: nat)
    requires
        s.items.len() == 0,
        n > 0,
    ensures
        render_output(s, n) == Seq::new(n, |i: int| 0u32),
        rendered(s, n).underrun,
        underrun_raised(s, n) == !s.underrun,
        !underrun_raised(rendered(s, n), later),
{
    assert(render_output(s, n) =~= Seq::new(n, |i: int| 0u32));
}

/// How many pushes were refused, given whether each one was accepted.
pub open spec fn refused_count(kept: Seq<bool>) -> nat
    decreases kept.len(),
{
    if kept.len() == 0 {
        0
    } else {
        refused_count(kept.drop_last()) + if kept.last() { 0nat } else { 1nat }
    }
}

/// The samples of `block` that the ring accepted, in order.
pub open spec fn accepted_samples(block: Seq<u32>, kept: Seq<bool>) -> Seq<u32>
    decreases kept.len(),
{
    if kept.len() == 0 || block.len() < kept.len() {
        Seq::empty()
    } else {
        let n = kept.len() - 1;
        let rest = accepted_samples(block.take(n), kept.drop_last());
        if kept.last() {
            rest.push(block[n])
        } else {
            rest
        }
    }
}

/// The sample that fills a render slot: the popped one, or silence.
pub open spec fn slot_sample(popped: Option<u32>) -> u32 {
    match popped {
        Some(x) => x,
        None => 0u32,
    }
}

/// How many pops found the ring empty.
pub open spec fn empty_count(got: Seq<Option<u32>>) -> nat
    decreases got.len(),
{
    if got.len() == 0 {
        0
    } else {
        empty_count(got.drop_last()) + if got.last() is None { 1nat } else { 0nat }
    }
}

/// The samples that the pops returned, in order.
pub open spec fn popped_samples(got: Seq<Option<u32>>) -> Seq<u32>
    decreases got.len(),
{
    if got.len() == 0 {
        Seq::empty()
    } else {
        let rest = popped_samples(got.drop_last());
        match got.last() {
            Some(x) => rest.push(x),
            None => rest,
        }
    }
}

/// The outcome of capturing one block.
#[derive(Clone, Copy, Debug, PartialEq, Eq, Structural)]
pub struct CaptureReport {
    /// Samples that did not fit.
    pub dropped: usize,
    /// The overflow latch went up during this capture.
    pub overflow_raised: bool,
}

/// The outcome of rendering one block.
#[derive(Clone, Copy, Debug, PartialEq, Eq, Structural)]
pub struct RenderReport {
    /// Slots that found the ring empty and were filled with silence.
    pub missing: usize,
    /// The underrun latch went up during this render.
    pub underrun_raised: bool,
}

/// The bounded sample FIFO between capture and render, with its two latches.
pub struct AudioBridge {
    ring: SampleRing,
    capacity: usize,
    overflow: bool,
    underrun: bool,
}

impl View for AudioBridge {
    type V = BridgeState;

    closed spec fn view(&self) -> BridgeState {
        BridgeState {
            items: ring_items(self.ring),
            capacity: ring_capacity(self.ring),
            overflow: self.overflow,
            underrun: self.underrun,
        }
    }
}

impl AudioBridge {
    /// The ring never holds more than its capacity, which is not zero.
    pub closed spec fn wf(&self) -> bool {
        &&& ring_capacity(self.ring) == self.capacity as nat
        &&& self.capacity > 0
        &&& ring_items(self.ring).len() <= self.capacity
    }

    /// A bridge that holds up to `max_latency_in_samples + block_size`
    /// samples, empty and with both latches down; `None` when that sum is zero
    /// or does not fit in a `usize`.
    pub fn new(max_latency_in_samples: usize, block_size: usize) -> (r: Option<AudioBridge>)
        ensures
            r is Some <==> 0 < max_latency_in_samples + block_size <= usize::MAX,
            r matches Some(b) ==> b.wf() && b@ == (BridgeState {
                items: Seq::<u32>::empty(),
                capacity: (max_latency_in_samples + block_size) as nat,
                overflow: false,
                underrun: false,
            }),
    {
        if max_latency_in_samples > usize::MAX - block_size {
            return None;
        }
        let capacity = max_latency_in_samples + block_size;
        if capacity == 0 {
            return None;
        }
        let ring = ring_new(capacity);
        Some(AudioBridge { ring, capacity, overflow: false, underrun: false })
    }

    /// The number of samples the bridge can hold.
    pub fn capacity(&self) -> (r: usize)
        requires
            self.wf(),
        ensures
            r == self@.capacity,
    {
        self.capacity
    }

    /// Whether a capture has ever found the ring full.
    pub fn overflow_latched(&self) -> (r: bool)
        ensures
            r == self@.overflow,
    {
        self.overflow
    }

    /// Whether a render has ever found the ring short.
    pub fn underrun_latched(&self) -> (r: bool)
        ensures
            r == self@.underrun,
    {
        self.underrun
    }

    /// Pushes every sample of `block` in order; those that find the ring full
    /// are dropped, never waited for.
    pub fn capture(&mut self, block: &[u32]) -> (r: CaptureReport)
        requires
            old(self).wf(),
        ensures
            final(self).wf(),
            final(self)@ == captured(old(self)@, block@),
            r.dropped == dropped_count(old(self)@, block@),
            r.overflow_raised == overflow_raised(old(self)@, block@),
    {
        let ghost s0 = self@;
        let was_latched = self.overflow;
        let mut dropped: usize = 0;
        let mut i: usize = 0;
        while i < block.len()
            invariant
                self.wf(),
                s0 == old(self)@,
                0 <= i <= block@.len(),
                s0.items.len() <= s0.capacity,
                self@.capacity == s0.capacity,
                self@.underrun == s0.underrun,
                self@.items == s0.items + block@.take(accepted_count(s0.items.len(), s0.capacity, i as nat) as int),
                dropped == i - accepted_count(s0.items.len(), s0.capacity, i as nat),
                self@.overflow == (s0.overflow || dropped > 0),
                was_latched == s0.overflow,
            decreases block@.len() - i,
        {
            let ghost k = accepted_count(s0.items.len(), s0.capacity, i as nat);
            let pushed = ring_try_push(&mut self.ring, block[i]);
            if !pushed {
                dropped = dropped + 1;
                self.overflow = true;
            }
            proof {
                let k1 = accepted_count(s0.items.len(), s0.capacity, (i + 1) as nat);
                if pushed {
                    assert(k1 == k + 1);
                    assert(block@.take(k1 as int) =~= block@.take(k as int).push(block@[i as int]));
                } else {
                    assert(k1 == k);
                }
            }
            i = i + 1;
        }
        proof {
            assert(block@.len() == i);
        }
        CaptureReport { dropped, overflow_raised: !was_latched && self.overflow }
    }

    /// Fills every slot of `out` with the oldest sample held, or with silence
    /// once the ring is empty.
    pub fn render_into(&mut self, out: &mut Vec<u32>) -> (r: RenderReport)
        requires
            old(self).wf(),
        ensures
            final(self).wf(),
            final(out)@ == render_output(old(self)@, old(out)@.len()),
            final(self)@ == rendered(old(self)@, old(out)@.len()),
            r.missing == old(out)@.len() - available_count(old(self)@, old(out)@.len()),
            r.underrun_raised == underrun_raised(old(self)@, old(out)@.len()),
    {
        let ghost s0 = self@;
        let ghost n = out@.len();
        let was_latched = self.underrun;
        let mut missing: usize = 0;
        let mut i: usize = 0;
        while i < out.len()
            invariant
                missing == i - available_count(s0, i as nat),
                self.wf(),
                s0 == old(self)@,
                n == out@.len(),
                0 <= i <= n,
                self@.capacity == s0.capacity,
                self@.overflow == s0.overflow,
                was_latched == s0.underrun,
                self@.items == s0.items.skip(available_count(s0, i as nat) as int),
                out@.take(i as int) == render_output(s0, i as nat),
                self@.underrun == (s0.underrun || available_count(s0, i as nat) < i),
            decreases n - i,
        {
            let ghost m = available_count(s0, i as nat);
            let popped = ring_try_pop(&mut self.ring);
            let sample: u32 = match popped {
                Some(x) => x,
                None => {
                    self.underrun = true;
                    missing = missing + 1;
                    0
                },
            };
            out.set(i, sample);
            proof {
                let m1 = available_count(s0, (i + 1) as nat);
                if popped is Some {
                    assert(m1 == m + 1);
                    assert(s0.items.skip(m1 as int) =~= s0.items.skip(m as int).drop_first());
                    assert(render_output(s0, (i + 1) as nat) =~= render_output(s0, i as nat).push(sample));
                } else {
                    assert(m1 == m);
                    assert(render_output(s0, (i + 1) as nat) =~= render_output(s0, i as nat).push(sample));
                }
                assert(out@.take((i + 1) as int) =~= out@.take(i as int).push(sample));
            }
            i = i + 1;
        }
        proof {
            assert(out@.take(n as int) =~= out@);
        }
        RenderReport { missing, underrun_raised: !was_latched && self.underrun }
    }

    /// Splits the bridge into its capture end and its render end, for two
    /// threads to use without locks; each end keeps its latch.
    pub fn split(self) -> (r: (CaptureEnd, RenderEnd))
        ensures
            r.0.overflow_latched_spec() == self@.overflow,
            r.1.underrun_latched_spec() == self@.underrun,
            r.0.sent() == Seq::<u32>::empty(),
            r.1.received() == Seq::<u32>::empty(),
    {
        let (producer, consumer) = ring_split(self.ring);
        (
            CaptureEnd { producer, overflow: self.overflow, sent: Ghost(Seq::empty()) },
            RenderEnd { consumer, underrun: self.underrun, received: Ghost(Seq::empty()) },
        )
    }
}

/// The capture end of a split bridge.
pub struct CaptureEnd {
    producer: SampleProducer,
    overflow: bool,
    sent: Ghost<Seq<u32>>,
}

impl CaptureEnd {
    /// Every sample that this end has handed to the ring and the ring
    /// accepted, oldest first.
    pub closed spec fn sent(&self) -> Seq<u32> {
        self.sent@
    }

    /// Whether a capture has ever found the ring full.
    pub closed spec fn overflow_latched_spec(&self) -> bool {
        self.overflow
    }

    /// Whether a capture has ever found the ring full.
    pub fn overflow_latched(&self) -> (r: bool)
        ensures
            r == self.overflow_latched_spec(),
    {
        self.overflow
    }

    /// Pushes every sample of `block` in order; a sample that finds the ring
    /// full is dropped, never waited for. How many fit depends on the render
    /// end, which pops concurrently.
    pub fn capture(&mut self, block: &[u32]) -> (r: CaptureReport)
        ensures
            exists|kept: Seq<bool>|
                #![trigger refused_count(kept)]
                kept.len() == block@.len() && r.dropped == refused_count(kept) && final(self).sent() == old(self).sent()
                    + accepted_samples(block@, kept),
            final(self).overflow_latched_spec() == (old(self).overflow_latched_spec() || r.dropped > 0),
            r.overflow_raised == (!old(self).overflow_latched_spec() && final(self).overflow_latched_spec()),
    {
        let was_latched = self.overflow;
        let ghost sent0 = self.sent@;
        let ghost mut kept: Seq<bool> = Seq::empty();
        let mut dropped: usize = 0;
        let mut i: usize = 0;
        while i < block.len()
            invariant
                0 <= i <= block@.len(),
                dropped <= i,
                kept.len() == i,
                dropped == refused_count(kept),
                self.sent@ == sent0 + accepted_samples(block@.take(i as int), kept),
                sent0 == old(self).sent@,
                was_latched == old(self).overflow,
                self.overflow == (was_latched || dropped > 0),
            decreases block@.len() - i,
        {
            let sample = block[i];
            let pushed = producer_try_push(&mut self.producer, sample);
            proof {
                let k = kept.push(pushed);
                assert(k.drop_last() =~= kept);
                assert(block@.take((i + 1) as int).take(i as int) =~= block@.take(i as int));
                assert(block@.take((i + 1) as int)[i as int] == sample);
                if pushed {
                    self.sent@ = self.sent@.push(sample);
                    assert(sent0 + accepted_samples(block@.take(i as int), kept).push(sample)
                        =~= (sent0 + accepted_samples(block@.take(i as int), kept)).push(sample));
                }
                kept = k;
            }
            if !pushed {
                dropped = dropped + 1;
                self.overflow = true;
            }
            i = i + 1;
        }
        proof {
            assert(block@.take(i as int) =~= block@);
        }
        CaptureReport { dropped, overflow_raised: !was_latched && self.overflow }
    }
}

/// The render end of a split bridge.
pub struct RenderEnd {
    consumer: SampleConsumer,
    underrun: bool,
    received: Ghost<Seq<u32>>,
}

impl RenderEnd {
    /// Every sample that this end has popped from the ring, oldest first.
    pub closed spec fn received(&self) -> Seq<u32> {
        self.received@
    }

    /// Whether a render has ever found the ring short.
    pub closed spec fn underrun_latched_spec(&self) -> bool {
        self.underrun
    }

    /// Whether a render has ever found the ring short.
    pub fn underrun_latched(&self) -> (r: bool)
        ensures
            r == self.underrun_latched_spec(),
    {
        self.underrun
    }

    /// Fills every slot of `out` with the oldest sample held, or with silence
    /// when the ring is empty at that moment. Which slots find it empty
    /// depends on the capture end, which pushes concurrently.
    pub fn render_into(&mut self, out: &mut Vec<u32>) -> (r: RenderReport)
        ensures
            exists|got: Seq<Option<u32>>|
                #![trigger empty_count(got)]
                got.len() == old(out)@.len() && final(out)@ == got.map_values(|o: Option<u32>| slot_sample(o))
                    && r.missing == empty_count(got) && final(self).received() == old(self).received()
                    + popped_samples(got),
            final(self).underrun_latched_spec() == (old(self).underrun_latched_spec() || r.missing > 0),
            r.underrun_raised == (!old(self).underrun_latched_spec() && final(self).underrun_latched_spec()),
    {
        let was_latched = self.underrun;
        let ghost received0 = self.received@;
        let ghost mut got: Seq<Option<u32>> = Seq::empty();
        let mut missing: usize = 0;
        let mut i: usize = 0;
        while i < out.len()
            invariant
                out@.len() == old(out)@.len(),
                0 <= i <= out@.len(),
                missing <= i,
                got.len() == i,
                missing == empty_count(got),
                out@.take(i as int) == got.map_values(|o: Option<u32>| slot_sample(o)),
                self.received@ == received0 + popped_samples(got),
                received0 == old(self).received@,
                was_latched == old(self).underrun,
                self.underrun == (was_latched || missing > 0),
            decreases out@.len() - i,
        {
            let popped = consumer_try_pop(&mut self.consumer);
            let sample: u32 = match popped {
                Some(x) => x,
                None => {
                    missing = missing + 1;
                    self.underrun = true;
                    0
                },
            };
            let ghost out_before = out@;
            out.set(i, sample);
            proof {
                let g = got.push(popped);
                assert(sample == slot_sample(popped));
                assert forall|j: int| 0 <= j < i implies out@[j] == out_before.take(i as int)[j] by {}
                assert(out_before.take(i as int) == got.map_values(|o: Option<u32>| slot_sample(o)));
                assert(g.drop_last() =~= got);
                if popped is Some {
                    self.received@ = self.received@.push(sample);
                    assert(received0 + popped_samples(got).push(sample) =~= (received0 + popped_samples(got)).push(sample));
                }
                assert(out@.take((i + 1) as int) =~= g.map_values(|o: Option<u32>| slot_sample(o)));
                got = g;
            }
            i = i + 1;
        }
        proof {
            assert(out@.take(i as int) =~= out@);
        }
        RenderReport { missing, underrun_raised: !was_latched && self.underrun }
    }
}

} // verus!
