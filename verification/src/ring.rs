use vstd::prelude::*;

verus! {

/// The producer end of an `rtrb` ring buffer.
#[verifier::external_type_specification]
#[verifier::external_body]
#[verifier::reject_recursive_types(T)]
pub struct ExProducer<T>(rtrb::Producer<T>);

/// The consumer end of an `rtrb` ring buffer.
#[verifier::external_type_specification]
#[verifier::external_body]
#[verifier::reject_recursive_types(T)]
pub struct ExConsumer<T>(rtrb::Consumer<T>);

/// The error of `rtrb::Producer::push`: the queue was full (it hands the value back).
#[verifier::external_type_specification]
#[verifier::external_body]
#[verifier::reject_recursive_types(T)]
pub struct ExPushError<T>(rtrb::PushError<T>);

/// The error of `rtrb::Consumer::pop`: the queue was empty.
#[verifier::external_type_specification]
#[verifier::external_body]
pub struct ExPopError(rtrb::PopError);

/// The error of `rtrb::Producer::write_chunk`: fewer slots were free than were asked for.
#[verifier::external_type_specification]
#[verifier::external_body]
pub struct ExChunkError(rtrb::chunks::ChunkError);

/// Whether `producer` and `consumer` are the two ends of one ring buffer. The queue lives in
/// an allocation that the two ends share, so what it holds is named for a pair of ends.
pub uninterp spec fn ring_paired(producer: rtrb::Producer<u32>, consumer: rtrb::Consumer<u32>) -> bool;

/// The samples queued in the ring buffer that `producer` and `consumer` share, the oldest
/// first.
pub uninterp spec fn ring_contents(
    producer: rtrb::Producer<u32>,
    consumer: rtrb::Consumer<u32>,
) -> Seq<u32>;

/// The number of samples that the producer's ring buffer was made to hold.
pub uninterp spec fn ring_capacity(producer: rtrb::Producer<u32>) -> nat;

/// Calls `rtrb::RingBuffer::new(capacity)`. Claimed: the two ends returned belong together,
/// their queue is empty, and it holds up to `capacity` samples. `rtrb` allocates the slots
/// with `Vec::with_capacity`, which panics beyond `isize::MAX` bytes, so the byte size must
/// fit.
#[verifier::external_body]
pub(crate) fn ring_new(capacity: usize) -> (ends: (rtrb::Producer<u32>, rtrb::Consumer<u32>))
    requires
        capacity * 4 <= isize::MAX,
    ensures
        ring_paired(ends.0, ends.1),
        ring_contents(ends.0, ends.1) == Seq::<u32>::empty(),
        ring_capacity(ends.0) == capacity,
{
    rtrb::RingBuffer::new(capacity)
}

/// Calls `rtrb::Producer::push`. Claimed: when fewer samples are queued than the capacity,
/// `value` is appended and `Ok` returned; otherwise an error is returned and nothing
/// changes. The ends stay paired, the capacity never changes, and the queue never holds
/// more than it.
#[verifier::external_body]
#[allow(unused_variables)]
pub(crate) fn ring_push(
    producer: &mut rtrb::Producer<u32>,
    consumer: &rtrb::Consumer<u32>,
    value: u32,
) -> (r: Result<(), rtrb::PushError<u32>>)
    requires
        ring_paired(*old(producer), *consumer),
        ring_contents(*old(producer), *consumer).len() <= ring_capacity(*old(producer)),
    ensures
        ring_paired(*final(producer), *consumer),
        ring_capacity(*final(producer)) == ring_capacity(*old(producer)),
        ring_contents(*final(producer), *consumer).len() <= ring_capacity(*final(producer)),
        ring_contents(*old(producer), *consumer).len() < ring_capacity(*old(producer)) ==> {
            &&& r is Ok
            &&& ring_contents(*final(producer), *consumer) == ring_contents(
                *old(producer),
                *consumer,
            ).push(value)
        },
        ring_contents(*old(producer), *consumer).len() == ring_capacity(*old(producer)) ==> {
            &&& r is Err
            &&& ring_contents(*final(producer), *consumer) == ring_contents(
                *old(producer),
                *consumer,
            )
        },
{
    producer.push(value)
}

/// Calls `rtrb::Consumer::pop`. Claimed: when samples are queued, the oldest is removed and
/// returned; otherwise an error is returned and nothing changes. The ends stay paired and
/// the capacity never changes.
#[verifier::external_body]
#[allow(unused_variables)]
pub(crate) fn ring_pop(
    producer: &rtrb::Producer<u32>,
    consumer: &mut rtrb::Consumer<u32>,
) -> (r: Result<u32, rtrb::PopError>)
    requires
        ring_paired(*producer, *old(consumer)),
        ring_contents(*producer, *old(consumer)).len() <= ring_capacity(*producer),
    ensures
        ring_paired(*producer, *final(consumer)),
        ring_contents(*producer, *final(consumer)).len() <= ring_capacity(*producer),
        ring_contents(*producer, *old(consumer)).len() > 0 ==> {
            &&& r == Ok::<u32, rtrb::PopError>(ring_contents(*producer, *old(consumer))[0])
            &&& ring_contents(*producer, *final(consumer)) == ring_contents(
                *producer,
                *old(consumer),
            ).drop_first()
        },
        ring_contents(*producer, *old(consumer)).len() == 0 ==> {
            &&& r is Err
            &&& ring_contents(*producer, *final(consumer)) == ring_contents(
                *producer,
                *old(consumer),
            )
        },
{
    consumer.pop()
}

/// Calls `rtrb::Producer::write_chunk(n)` and drops the chunk it hands out without
/// committing it. Claimed: `Ok` exactly when at least `n` slots are free; either way the
/// ends stay paired and the queued samples and the capacity stay as they were, since an
/// uncommitted chunk makes nothing readable.
#[verifier::external_body]
#[allow(unused_variables)]
pub(crate) fn ring_write_chunk(
    producer: &mut rtrb::Producer<u32>,
    consumer: &rtrb::Consumer<u32>,
    n: usize,
) -> (r: Result<(), rtrb::chunks::ChunkError>)
    requires
        ring_paired(*old(producer), *consumer),
        ring_contents(*old(producer), *consumer).len() <= ring_capacity(*old(producer)),
    ensures
        ring_paired(*final(producer), *consumer),
        ring_capacity(*final(producer)) == ring_capacity(*old(producer)),
        ring_contents(*final(producer), *consumer) == ring_contents(*old(producer), *consumer),
        r is Ok <==> n <= ring_capacity(*old(producer)) - ring_contents(
            *old(producer),
            *consumer,
        ).len(),
{
    match producer.write_chunk(n) {
        Ok(_) => Ok(()),
        Err(e) => Err(e),
    }
}

} // verus!
