use vstd::prelude::*;

use crate::ring::{
    ring_capacity,
    ring_contents,
    ring_new,
    ring_paired,
    ring_pop,
    ring_push,
    ring_write_chunk,
};
use crate::util::{ms_to_samples, spec_ms_to_samples};

verus! {

/// Pushing failed: the buffer was full. The sample is handed back.
#[derive(Debug, Clone, Copy, PartialEq, Eq, Structural)]
pub enum HaasPushError {
    Full(u32),
}

/// Popping failed: the buffer was empty.
#[derive(Debug, Clone, Copy, PartialEq, Eq, Structural)]
pub enum HaasPopError {
    Empty,
}

/// A delay given in whole milliseconds moved by `ms_delta` milliseconds, kept within the
/// range of `u32` (a negative result counts as zero).
pub open spec fn resized_delay_ms(delay_ms: u32, ms_delta: i64) -> u32 {
    let total = delay_ms + ms_delta;
    if total < 0 {
        0
    } else if total > u32::MAX {
        u32::MAX
    } else {
        total as u32
    }
}

/// Whether a queue of `ms` milliseconds at `sample_rate` can be computed and allocated:
/// the product fits in a `u32`, and the samples' bytes fit in an allocation.
pub open spec fn buffer_size_fits(ms: u32, sample_rate: u32) -> bool {
    &&& ms * sample_rate <= u32::MAX
    &&& spec_ms_to_samples(ms, sample_rate) * 4 <= isize::MAX
}

/// The queue after pushing `values` one by one onto `queued` in a buffer of capacity `cap`:
/// each push appends its value when there is room and is refused otherwise.
pub open spec fn after_pushes(queued: Seq<u32>, cap: nat, values: Seq<u32>) -> Seq<u32>
    decreases values.len(),
{
    if values.len() == 0 {
        queued
    } else {
        let q = after_pushes(queued, cap, values.drop_last());
        if q.len() < cap {
            q.push(values.last())
        } else {
            q
        }
    }
}

/// The queue after `k` pops from `queued`: each removes the oldest sample, if any.
pub open spec fn after_pops(queued: Seq<u32>, k: nat) -> Seq<u32>
    decreases k,
{
    if k == 0 || queued.len() == 0 {
        queued
    } else {
        after_pops(queued.drop_first(), (k - 1) as nat)
    }
}

/// Pushes that fit all land, in order, behind what was queued.
pub proof fn lemma_pushes_within_capacity_append(queued: Seq<u32>, cap: nat, values: Seq<u32>)
    requires
        queued.len() + values.len() <= cap,
    ensures
        after_pushes(queued, cap, values) == queued + values,
    decreases values.len(),
{
    if values.len() > 0 {
        lemma_pushes_within_capacity_append(queued, cap, values.drop_last());
        assert(queued + values.drop_last() + seq![values.last()] =~= queued + values);
    }
}

/// Pops take the queued samples from the oldest on.
pub proof fn lemma_pops_take_oldest_first(queued: Seq<u32>, k: nat)
    requires
        k <= queued.len(),
    ensures
        after_pops(queued, k) == queued.subrange(k as int, queued.len() as int),
    decreases k,
{
    if k == 0 {
        assert(queued.subrange(0, queued.len() as int) =~= queued);
    } else {
        lemma_pops_take_oldest_first(queued.drop_first(), (k - 1) as nat);
        assert(queued.drop_first().subrange((k - 1) as int, queued.len() - 1) =~= queued.subrange(
            k as int,
            queued.len() as int,
        ));
    }
}

/// First in, first out: once values that fit are pushed into an empty buffer, the `i`-th
/// pop after them returns the `i`-th value pushed.
pub proof fn lemma_first_in_first_out(cap: nat, values: Seq<u32>, i: nat)
    requires
        values.len() <= cap,
        i < values.len(),
    ensures
        after_pops(after_pushes(Seq::empty(), cap, values), i)[0] == values[i as int],
{
    lemma_pushes_within_capacity_append(Seq::empty(), cap, values);
    assert(Seq::<u32>::empty() + values =~= values);
    lemma_pops_take_oldest_first(values, i);
}

/// What resizing `before` by `ms_delta` milliseconds leaves in `after`: an empty,
/// well-formed buffer sized for the delay given at construction moved by `ms_delta`, with
/// the delay and the sample rate kept.
pub open spec fn resize_result(before: HaasBuffer, ms_delta: i64, after: HaasBuffer) -> bool {
    &&& after.wf()
    &&& after.queued() == Seq::<u32>::empty()
    &&& after.capacity() == spec_ms_to_samples(
        resized_delay_ms(before.delay_ms, ms_delta),
        before.sample_rate,
    )
    &&& after.delay_ms == before.delay_ms
    &&& after.sample_rate == before.sample_rate
}

/// Resizes do not add up: after two resizes, by `first` and then by `second` milliseconds,
/// the capacity is that of the delay given at construction moved by `second` alone.
pub proof fn lemma_resizes_do_not_accumulate(
    b0: HaasBuffer,
    b1: HaasBuffer,
    b2: HaasBuffer,
    first: i64,
    second: i64,
)
    requires
        resize_result(b0, first, b1),
        resize_result(b1, second, b2),
    ensures
        b2.capacity() == spec_ms_to_samples(resized_delay_ms(b0.delay_ms, second), b0.sample_rate),
        b2.delay_ms == b0.delay_ms,
        b2.sample_rate == b0.sample_rate,
{
}

/// A first-in first-out buffer of samples (bit patterns of `f32` values) sized to hold a
/// delay, given in whole milliseconds at a sample rate in whole hertz.
pub struct HaasBuffer {
    pub producer: rtrb::Producer<u32>,
    pub consumer: rtrb::Consumer<u32>,
    pub delay_ms: u32,
    pub sample_rate: u32,
}

impl HaasBuffer {
    /// The samples queued, the oldest first.
    pub open spec fn queued(&self) -> Seq<u32> {
        ring_contents(self.producer, self.consumer)
    }

    /// The number of samples the buffer holds at most.
    pub open spec fn capacity(&self) -> nat {
        ring_capacity(self.producer)
    }

    /// The producer and the consumer are the two ends of one ring buffer, whose queue never
    /// holds more than its capacity.
    pub open spec fn wf(&self) -> bool {
        &&& ring_paired(self.producer, self.consumer)
        &&& self.queued().len() <= self.capacity()
    }

    /// An empty buffer for `delay_ms` milliseconds at `sample_rate`: its capacity is
    /// `(delay_ms * sample_rate) / 1000` samples.
    pub fn new(delay_ms: u32, sample_rate: u32) -> (b: HaasBuffer)
        requires
            buffer_size_fits(delay_ms, sample_rate),
        ensures
            b.wf(),
            b.queued() == Seq::<u32>::empty(),
            b.capacity() == spec_ms_to_samples(delay_ms, sample_rate),
            b.delay_ms == delay_ms,
            b.sample_rate == sample_rate,
    {
        let size = ms_to_samples(delay_ms, sample_rate) as usize;
        let (producer, consumer) = ring_new(size);
        HaasBuffer { producer, consumer, delay_ms, sample_rate }
    }

    /// Replaces the buffer with an empty one sized for the delay given at construction moved
    /// by `ms_delta` milliseconds. The stored delay is not changed, so successive resizes do
    /// not add up.
    pub fn resize(&mut self, ms_delta: i64)
        requires
            buffer_size_fits(resized_delay_ms(old(self).delay_ms, ms_delta), old(self).sample_rate),
        ensures
            resize_result(*old(self), ms_delta, *final(self)),
    {
        let total: i128 = self.delay_ms as i128 + ms_delta as i128;
        let ms: u32 = if total < 0 {
            0
        } else if total > u32::MAX as i128 {
            u32::MAX
        } else {
            total as u32
        };
        let size = ms_to_samples(ms, self.sample_rate) as usize;
        let (mut producer, consumer) = ring_new(size);
        let _ = ring_write_chunk(&mut producer, &consumer, size);
        self.producer = producer;
        self.consumer = consumer;
    }

    /// Appends a sample, or hands it back in `HaasPushError::Full` when the buffer is full.
    pub fn push(&mut self, value: u32) -> (r: Result<(), HaasPushError>)
        requires
            old(self).wf(),
        ensures
            final(self).wf(),
            final(self).capacity() == old(self).capacity(),
            final(self).delay_ms == old(self).delay_ms,
            final(self).sample_rate == old(self).sample_rate,
            old(self).queued().len() < old(self).capacity() ==> {
                &&& r == Ok::<(), HaasPushError>(())
                &&& final(self).queued() == old(self).queued().push(value)
            },
            old(self).queued().len() == old(self).capacity() ==> {
                &&& r == Err::<(), HaasPushError>(HaasPushError::Full(value))
                &&& final(self).queued() == old(self).queued()
            },
    {
        match ring_push(&mut self.producer, &self.consumer, value) {
            Ok(()) => Ok(()),
            Err(_) => Err(HaasPushError::Full(value)),
        }
    }

    /// Removes and returns the oldest sample, or `HaasPopError::Empty` when the buffer is empty.
    pub fn pop(&mut self) -> (r: Result<u32, HaasPopError>)
        requires
            old(self).wf(),
        ensures
            final(self).wf(),
            final(self).capacity() == old(self).capacity(),
            final(self).delay_ms == old(self).delay_ms,
            final(self).sample_rate == old(self).sample_rate,
            old(self).queued().len() > 0 ==> {
                &&& r == Ok::<u32, HaasPopError>(old(self).queued()[0])
                &&& final(self).queued() == old(self).queued().drop_first()
            },
            old(self).queued().len() == 0 ==> {
                &&& r == Err::<u32, HaasPopError>(HaasPopError::Empty)
                &&& final(self).queued() == old(self).queued()
            },
    {
        match ring_pop(&self.producer, &mut self.consumer) {
            Ok(v) => Ok(v),
            Err(_) => Err(HaasPopError::Empty),
        }
    }

    /// Leaves the buffer as it is.
    pub fn reset(&mut self)
        ensures
            *final(self) == *old(self),
    {
    }
}

} // verus!
