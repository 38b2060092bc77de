//! Bounded FIFO queues backed by `crossbeam::queue::ArrayQueue`.
//!
//! The queue itself is not verified. This module states what the verified
//! code relies on: a queue that has one owner, who changes it through `&mut`
//! only, behaves as a bounded first-in, first-out sequence. The queues are
//! kept in private fields and never shared, so that this is how they are
//! used.
use vstd::prelude::*;
use crossbeam::queue::ArrayQueue;

verus! {

#[verifier::external_type_specification]
#[verifier::external_body]
#[verifier::reject_recursive_types(T)]
pub struct ExArrayQueue<T>(ArrayQueue<T>);

/// The identifiers waiting in a queue, oldest first.
pub uninterp spec fn id_queue_items(queue: ArrayQueue<u64>) -> Seq<u64>;

/// The number of identifiers the queue was created to hold.
pub uninterp spec fn id_queue_capacity(queue: ArrayQueue<u64>) -> nat;

/// `ArrayQueue::new`: an empty queue with room for `capacity` identifiers,
/// allocated at once. The call panics on a capacity of zero, or on one so
/// large that the next power of two above it does not fit the index type.
#[verifier::external_body]
pub(crate) fn id_queue_new(capacity: usize) -> (queue: ArrayQueue<u64>)
    requires
        0 < capacity <= 0x7fff_ffff,
    ensures
        id_queue_items(queue) == Seq::<u64>::empty(),
        id_queue_capacity(queue) == capacity,
{
    ArrayQueue::new(capacity)
}

/// `ArrayQueue::push`: appends `id` at the tail when there is room, and
/// otherwise hands `id` back and leaves the queue as it was.
#[verifier::external_body]
pub(crate) fn id_queue_push(queue: &mut ArrayQueue<u64>, id: u64) -> (result: Result<(), u64>)
    ensures
        id_queue_capacity(*final(queue)) == id_queue_capacity(*old(queue)),
        id_queue_items(*old(queue)).len() < id_queue_capacity(*old(queue)) ==> result is Ok
            && id_queue_items(*final(queue)) == id_queue_items(*old(queue)).push(id),
        id_queue_items(*old(queue)).len() >= id_queue_capacity(*old(queue)) ==> result is Err
            && result->Err_0 == id && id_queue_items(*final(queue)) == id_queue_items(
            *old(queue),
        ),
{
    queue.push(id)
}

/// `ArrayQueue::pop`: removes and returns the identifier at the head, or
/// returns `None` when the queue is empty.
#[verifier::external_body]
pub(crate) fn id_queue_pop(queue: &mut ArrayQueue<u64>) -> (result: Option<u64>)
    ensures
        id_queue_capacity(*final(queue)) == id_queue_capacity(*old(queue)),
        id_queue_items(*old(queue)).len() == 0 ==> result is None && id_queue_items(
            *final(queue),
        ) == id_queue_items(*old(queue)),
        id_queue_items(*old(queue)).len() > 0 ==> result == Some(id_queue_items(*old(queue))[0])
            && id_queue_items(*final(queue)) == id_queue_items(*old(queue)).skip(1),
{
    queue.pop()
}

/// `ArrayQueue::is_empty`: whether nothing is waiting in the queue.
#[verifier::external_body]
pub(crate) fn id_queue_is_empty(queue: &ArrayQueue<u64>) -> (empty: bool)
    ensures
        empty == (id_queue_items(*queue).len() == 0),
{
    queue.is_empty()
}

/// The bytes waiting in a queue, oldest first.
pub uninterp spec fn byte_queue_items(queue: ArrayQueue<u8>) -> Seq<u8>;

/// The number of bytes the queue was created to hold.
pub uninterp spec fn byte_queue_capacity(queue: ArrayQueue<u8>) -> nat;

/// `ArrayQueue::new`: an empty queue with room for `capacity` bytes,
/// allocated at once. The call panics on a capacity of zero, or on one so
/// large that the next power of two above it does not fit the index type.
#[verifier::external_body]
pub(crate) fn byte_queue_new(capacity: usize) -> (queue: ArrayQueue<u8>)
    requires
        0 < capacity <= 0x7fff_ffff,
    ensures
        byte_queue_items(queue) == Seq::<u8>::empty(),
        byte_queue_capacity(queue) == capacity,
{
    ArrayQueue::new(capacity)
}

/// `ArrayQueue::push`: appends `byte` at the tail when there is room, and
/// otherwise hands `byte` back and leaves the queue as it was.
#[verifier::external_body]
pub(crate) fn byte_queue_push(queue: &mut ArrayQueue<u8>, byte: u8) -> (result: Result<(), u8>)
    ensures
        byte_queue_capacity(*final(queue)) == byte_queue_capacity(*old(queue)),
        byte_queue_items(*old(queue)).len() < byte_queue_capacity(*old(queue)) ==> result is Ok
            && byte_queue_items(*final(queue)) == byte_queue_items(*old(queue)).push(byte),
        byte_queue_items(*old(queue)).len() >= byte_queue_capacity(*old(queue)) ==> result is Err
            && result->Err_0 == byte && byte_queue_items(*final(queue)) == byte_queue_items(
            *old(queue),
        ),
{
    queue.push(byte)
}

/// `ArrayQueue::pop`: removes and returns the byte at the head, or returns
/// `None` when the queue is empty.
#[verifier::external_body]
pub(crate) fn byte_queue_pop(queue: &mut ArrayQueue<u8>) -> (result: Option<u8>)
    ensures
        byte_queue_capacity(*final(queue)) == byte_queue_capacity(*old(queue)),
        byte_queue_items(*old(queue)).len() == 0 ==> result is None && byte_queue_items(
            *final(queue),
        ) == byte_queue_items(*old(queue)),
        byte_queue_items(*old(queue)).len() > 0 ==> result == Some(byte_queue_items(*old(queue))[0])
            && byte_queue_items(*final(queue)) == byte_queue_items(*old(queue)).skip(1),
{
    queue.pop()
}

} // verus!
