//! The bounded single-producer single-consumer queue between capture and
//! signal processing, as `ringbuf` provides it.
//!
//! The two halves live on different threads. What one half finds in the queue
//! depends on what the other half did in the meantime, so nothing here speaks
//! of the queue's contents: the contracts give counts and the capacity only.

use ringbuf::traits::{Consumer, Observer, Producer, Split};
use vstd::prelude::*;

verus! {

/// Samples the queue holds: five seconds at 48 kHz.
pub const QUEUE_CAPACITY: usize = 240_000;

/// A `ringbuf::HeapRb` that has not been split yet.
#[verifier::external_body]
#[verifier::reject_recursive_types(T)]
pub struct FrameQueue<T> {
    inner: ringbuf::HeapRb<T>,
}

/// The writing half as `ringbuf` hands it out, a `ringbuf::HeapProd`.
#[verifier::external_body]
#[verifier::reject_recursive_types(T)]
pub struct ProducerHalf<T> {
    inner: ringbuf::HeapProd<T>,
}

/// The reading half as `ringbuf` hands it out, a `ringbuf::HeapCons`.
#[verifier::external_body]
#[verifier::reject_recursive_types(T)]
pub struct ConsumerHalf<T> {
    inner: ringbuf::HeapCons<T>,
}

/// `HeapRb::try_new`: a queue for `capacity` items, or nothing when the
/// memory cannot be had. The call panics on a capacity of zero, which the
/// precondition rules out.
#[verifier::external_body]
fn allocate<T>(capacity: usize) -> (queue: Option<FrameQueue<T>>)
    requires
        capacity > 0,
{
    match ringbuf::HeapRb::<T>::try_new(capacity) {
        Ok(inner) => Some(FrameQueue { inner }),
        Err(_) => None,
    }
}

/// `Split::split` on a `HeapRb`: the queue's two halves. Nothing is claimed of them.
#[verifier::external_body]
fn split<T>(queue: FrameQueue<T>) -> (halves: (ProducerHalf<T>, ConsumerHalf<T>)) {
    let (producer, consumer) = queue.inner.split();
    (ProducerHalf { inner: producer }, ConsumerHalf { inner: consumer })
}

/// `Producer::push_slice`: appends as many of `items`, from the front, as
/// the queue has room for, and returns how many that was.
#[verifier::external_body]
fn push_half<T: Copy>(producer: &mut ProducerHalf<T>, items: &[T]) -> (pushed: usize)
    ensures
        pushed <= items@.len(),
{
    producer.inner.push_slice(items)
}

/// `Consumer::pop_slice`: removes up to `items.len()` of the oldest items,
/// writes them to the front of `items` and returns how many that was.
#[verifier::external_body]
fn pop_half<T: Copy>(consumer: &mut ConsumerHalf<T>, items: &mut [T]) -> (popped: usize)
    ensures
        popped <= old(items)@.len(),
        final(items)@.len() == old(items)@.len(),
{
    consumer.inner.pop_slice(items)
}

/// A fresh queue of `QUEUE_CAPACITY` samples, split into its halves; `None`
/// when the memory cannot be had or the queue reports another capacity.
pub fn frame_queue<T>() -> (halves: Option<(FrameProducer<T>, FrameConsumer<T>)>)
    ensures
        match halves {
            Some((producer, consumer)) => {
                &&& producer.slots() == QUEUE_CAPACITY
                &&& consumer.slots() == QUEUE_CAPACITY
            },
            None => true,
        },
{
    match allocate::<T>(QUEUE_CAPACITY) {
        Some(queue) => {
            let slots: usize = slots_of(&queue);
            if slots != QUEUE_CAPACITY {
                return None;
            }
            let (producer, consumer) = split(queue);
            Some((FrameProducer { half: producer, slots }, FrameConsumer { half: consumer, slots }))
        },
        None => None,
    }
}

/// `Observer::capacity` on a `HeapRb`: the number of slots the queue has.
/// Nothing is claimed of the number here; `frame_queue` compares it with
/// what it asked for.
#[verifier::external_body]
fn slots_of<T>(queue: &FrameQueue<T>) -> (slots: usize) {
    queue.inner.capacity().get()
}

/// The writing half of a queue, with the number of slots the queue
/// reported before it was split.
#[verifier::reject_recursive_types(T)]
pub struct FrameProducer<T> {
    half: ProducerHalf<T>,
    slots: usize,
}

/// The reading half of a queue, with the number of slots the queue
/// reported before it was split.
#[verifier::reject_recursive_types(T)]
pub struct FrameConsumer<T> {
    half: ConsumerHalf<T>,
    slots: usize,
}

impl<T> FrameProducer<T> {
    /// Number of samples the queue holds at most.
    pub closed spec fn slots(&self) -> nat {
        self.slots as nat
    }

    /// Number of samples the queue holds at most.
    pub fn capacity(&self) -> (slots: usize)
        ensures
            slots == self.slots(),
    {
        self.slots
    }
}

impl<T> FrameConsumer<T> {
    /// Number of samples the queue holds at most.
    pub closed spec fn slots(&self) -> nat {
        self.slots as nat
    }

    /// Number of samples the queue holds at most.
    pub fn capacity(&self) -> (slots: usize)
        ensures
            slots == self.slots(),
    {
        self.slots
    }
}

/// Appends as many of `items`, from the front, as the queue has room for,
/// and returns how many that was.
pub(crate) fn push_slice<T: Copy>(producer: &mut FrameProducer<T>, items: &[T]) -> (pushed: usize)
    ensures
        pushed <= items@.len(),
        final(producer).slots() == old(producer).slots(),
{
    push_half(&mut producer.half, items)
}

/// Removes up to `items.len()` of the oldest items, writes them to the front
/// of `items` and returns how many that was.
pub(crate) fn pop_slice<T: Copy>(consumer: &mut FrameConsumer<T>, items: &mut [T]) -> (popped: usize)
    ensures
        popped <= old(items)@.len(),
        final(items)@.len() == old(items)@.len(),
        final(consumer).slots() == old(consumer).slots(),
{
    pop_half(&mut consumer.half, items)
}

} // verus!
