//! The bridge between the keyboard interrupt and the task that reads
//! scancodes: a bounded queue of bytes and a slot for one waker.
use vstd::prelude::*;
use crossbeam::queue::ArrayQueue;
use crate::queue::{
    byte_queue_capacity, byte_queue_items, byte_queue_new, byte_queue_pop, byte_queue_push,
};
use crate::runtime::{Poll, TaskWaker};

verus! {

/// How many scancodes the bridge holds at most.
pub const SCANCODE_QUEUE_CAPACITY: usize = 100;

/// What became of a scancode handed to the bridge.
#[derive(Debug, Clone, Copy, PartialEq, Eq, Structural)]
pub enum ScancodeDelivery {
    /// The queue was full and the scancode was dropped.
    Dropped,
    /// The scancode is queued. `wake` is the waker that was registered, which
    /// the caller now fires; the slot is empty again.
    Queued { wake: Option<TaskWaker> },
}

/// The bridge as the contracts see it.
#[verifier::ext_equal]
pub struct BridgeState {
    /// Whether the queue has been set up.
    pub initialized: bool,
    /// The scancodes waiting to be read, oldest first.
    pub queue: Seq<u8>,
    /// How many scancodes `queue` holds at most.
    pub capacity: nat,
    /// The waker registered by the reader, if one is.
    pub waker: Option<TaskWaker>,
}

impl BridgeState {
    /// The bridge and the delivery report once the interrupt handler has
    /// handed in `scancode`.
    pub open spec fn pushed(self, scancode: u8) -> (BridgeState, ScancodeDelivery) {
        if self.queue.len() < self.capacity {
            (
                BridgeState { queue: self.queue.push(scancode), waker: None, ..self },
                ScancodeDelivery::Queued { wake: self.waker },
            )
        } else {
            (self, ScancodeDelivery::Dropped)
        }
    }

    /// The bridge and the scancode read once the reader has tried to take one.
    pub open spec fn popped(self) -> (BridgeState, Option<u8>) {
        if self.queue.len() > 0 {
            (BridgeState { queue: self.queue.skip(1), ..self }, Some(self.queue[0]))
        } else {
            (self, None)
        }
    }

    /// The bridge once the reader has registered `waker`. An earlier
    /// registration is lost.
    pub open spec fn registered(self, waker: TaskWaker) -> BridgeState {
        BridgeState { waker: Some(waker), ..self }
    }

    /// The bridge and the report of the reader's second look, made after it
    /// has registered: a scancode that has arrived meanwhile is read and the
    /// registration withdrawn; otherwise the reader is pending.
    pub open spec fn rechecked(self) -> (BridgeState, Poll<Option<u8>>) {
        if self.queue.len() > 0 {
            (
                BridgeState { queue: self.queue.skip(1), waker: None, ..self },
                Poll::Ready(Some(self.queue[0])),
            )
        } else {
            (self, Poll::Pending)
        }
    }

    /// The bridge and the report of one whole poll by a reader whose waker
    /// is `waker`, with nothing happening in between.
    pub open spec fn polled(self, waker: TaskWaker) -> (BridgeState, Poll<Option<u8>>) {
        if self.queue.len() > 0 {
            (self.popped().0, Poll::Ready(self.popped().1))
        } else {
            self.registered(waker).rechecked()
        }
    }
}

/// The queue of scancodes and the waker slot shared by the keyboard
/// interrupt handler, which fills the queue, and the one task that reads it.
pub struct InterruptBridge {
    scancode_queue: Option<ArrayQueue<u8>>,
    waker: Option<TaskWaker>,
}

impl InterruptBridge {
    pub closed spec fn view(&self) -> BridgeState {
        BridgeState {
            initialized: self.scancode_queue is Some,
            queue: if self.scancode_queue is Some {
                byte_queue_items(self.scancode_queue->Some_0)
            } else {
                Seq::empty()
            },
            capacity: if self.scancode_queue is Some {
                byte_queue_capacity(self.scancode_queue->Some_0)
            } else {
                0
            },
            waker: self.waker,
        }
    }

    /// A bridge whose queue has not been set up and whose waker slot is empty.
    pub fn uninit() -> (bridge: InterruptBridge)
        ensures
            !bridge@.initialized,
            bridge@.queue == Seq::<u8>::empty(),
            bridge@.capacity == 0,
            bridge@.waker is None,
    {
        InterruptBridge { scancode_queue: None, waker: None }
    }

    /// Whether the queue has been set up.
    pub fn is_initialized(&self) -> (initialized: bool)
        ensures
            initialized == self@.initialized,
    {
        self.scancode_queue.is_some()
    }

    /// The reader's look at the queue: takes the oldest scancode, if there is
    /// one. The waker slot is not touched.
    pub fn pop_scancode(&mut self) -> (scancode: Option<u8>)
        requires
            old(self)@.initialized,
        ensures
            (final(self)@, scancode) == old(self)@.popped(),
    {
        match &mut self.scancode_queue {
            Some(queue) => byte_queue_pop(queue),
            None => None,
        }
    }

    /// Puts `waker` into the waker slot, in place of what was there.
    pub fn register(&mut self, waker: &TaskWaker)
        ensures
            final(self)@ == old(self)@.registered(*waker),
    {
        self.waker = Some(*waker);
    }

    /// The reader's second look, made after it has registered its waker.
    pub fn recheck(&mut self) -> (report: Poll<Option<u8>>)
        requires
            old(self)@.initialized,
        ensures
            (final(self)@, report) == old(self)@.rechecked(),
    {
        match self.pop_scancode() {
            Some(scancode) => {
                self.waker = None;
                Poll::Ready(Some(scancode))
            },
            None => Poll::Pending,
        }
    }
}

/// The reading end of the bridge.
pub struct ScancodeStream {
    _private: (),
}

impl ScancodeStream {
    /// Sets up the queue of `bridge` and returns its reading end. The queue is
    /// set up once: a bridge has one reader.
    pub fn new(bridge: &mut InterruptBridge) -> (stream: ScancodeStream)
        requires
            !old(bridge)@.initialized,
        ensures
            final(bridge)@ == (BridgeState {
                initialized: true,
                queue: Seq::empty(),
                capacity: SCANCODE_QUEUE_CAPACITY as nat,
                waker: old(bridge)@.waker,
            }),
    {
        bridge.scancode_queue = Some(byte_queue_new(SCANCODE_QUEUE_CAPACITY));
        ScancodeStream { _private: () }
    }

    /// Sets up the queue of `bridge` and returns its reading end, unless the
    /// queue has been set up before: then there is no second reader, and the
    /// bridge is left alone.
    pub fn try_new(bridge: &mut InterruptBridge) -> (stream: Option<ScancodeStream>)
        ensures
            stream is Some <==> !old(bridge)@.initialized,
            old(bridge)@.initialized ==> final(bridge)@ == old(bridge)@,
            !old(bridge)@.initialized ==> final(bridge)@ == (BridgeState {
                initialized: true,
                queue: Seq::empty(),
                capacity: SCANCODE_QUEUE_CAPACITY as nat,
                waker: old(bridge)@.waker,
            }),
    {
        if bridge.is_initialized() {
            None
        } else {
            Some(ScancodeStream::new(bridge))
        }
    }

    /// One poll of the stream by the task that `waker` stands for. A scancode
    /// that waits is returned at once and the waker slot is not touched.
    /// Otherwise the waker is registered first and the queue looked at once
    /// more, so that a scancode arriving in between is not left behind
    /// without a wake-up.
    pub fn poll_next(&mut self, bridge: &mut InterruptBridge, waker: &TaskWaker) -> (report: Poll<
        Option<u8>,
    >)
        requires
            old(bridge)@.initialized,
        ensures
            (final(bridge)@, report) == old(bridge)@.polled(*waker),
    {
        if let Some(scancode) = bridge.pop_scancode() {
            return Poll::Ready(Some(scancode));
        }
        bridge.register(waker);
        bridge.recheck()
    }
}

/// The interrupt handler's entry point: queues `scancode` for the reader and
/// takes the registered waker out of its slot for the caller to fire. When
/// the queue is full the scancode is dropped and nothing else changes.
pub fn add_scancode(bridge: &mut InterruptBridge, scancode: u8) -> (delivery: ScancodeDelivery)
    requires
        old(bridge)@.initialized,
    ensures
        (final(bridge)@, delivery) == old(bridge)@.pushed(scancode),
{
    let pushed = match &mut bridge.scancode_queue {
        Some(queue) => byte_queue_push(queue, scancode),
        None => Err(scancode),
    };
    match pushed {
        Err(_) => ScancodeDelivery::Dropped,
        Ok(()) => {
            let wake = bridge.waker;
            bridge.waker = None;
            ScancodeDelivery::Queued { wake }
        },
    }
}

/// A scancode that arrives after the reader found the queue empty and before
/// it has registered its waker is not lost: the reader's second look finds
/// it, so the poll that is under way returns it and withdraws the
/// registration.
pub proof fn lemma_push_before_registration_is_read(
    bridge: BridgeState,
    waker: TaskWaker,
    scancode: u8,
)
    requires
        bridge.initialized,
        bridge.queue.len() == 0,
        bridge.capacity > 0,
    ensures
        bridge.popped() == (bridge, None::<u8>),
        bridge.pushed(scancode).0.registered(waker).rechecked() == (
            BridgeState { waker: None, ..bridge },
            Poll::Ready(Some(scancode)),
        ),
{
    let arrived = bridge.pushed(scancode).0.registered(waker);
    assert(arrived.queue =~= seq![scancode]);
    assert(arrived.queue.skip(1) =~= bridge.queue);
    assert(arrived.rechecked().0 =~= (BridgeState { waker: None, ..bridge }));
}

/// A scancode that arrives after the reader has registered its waker and
/// before its second look hands the caller that waker to fire, and the
/// second look finds the scancode.
pub proof fn lemma_push_after_registration_is_read(
    bridge: BridgeState,
    waker: TaskWaker,
    scancode: u8,
)
    requires
        bridge.initialized,
        bridge.queue.len() == 0,
        bridge.capacity > 0,
    ensures
        bridge.registered(waker).pushed(scancode).1 == (ScancodeDelivery::Queued {
            wake: Some(waker),
        }),
        bridge.registered(waker).pushed(scancode).0.rechecked() == (
            BridgeState { waker: None, ..bridge },
            Poll::Ready(Some(scancode)),
        ),
{
    let arrived = bridge.registered(waker).pushed(scancode).0;
    assert(arrived.queue =~= seq![scancode]);
    assert(arrived.queue.skip(1) =~= bridge.queue);
    assert(arrived.rechecked().0 =~= (BridgeState { waker: None, ..bridge }));
}

/// A reader that is pending is woken by the next scancode and reads it with
/// its next poll: the poll left the reader's waker registered, the handler
/// hands that waker to its caller, and the following poll returns the
/// scancode.
pub proof fn lemma_pending_reader_is_woken(bridge: BridgeState, waker: TaskWaker, scancode: u8)
    requires
        bridge.initialized,
        bridge.capacity > 0,
        bridge.polled(waker).1 is Pending,
    ensures
        bridge.queue.len() == 0,
        bridge.polled(waker).0 == bridge.registered(waker),
        bridge.polled(waker).0.pushed(scancode).1 == (ScancodeDelivery::Queued {
            wake: Some(waker),
        }),
        bridge.polled(waker).0.pushed(scancode).0.polled(waker) == (
            BridgeState { waker: None, ..bridge },
            Poll::Ready(Some(scancode)),
        ),
{
    let arrived = bridge.polled(waker).0.pushed(scancode).0;
    assert(arrived.queue =~= seq![scancode]);
    assert(arrived.queue.skip(1) =~= bridge.queue);
    assert(arrived.polled(waker).0 =~= (BridgeState { waker: None, ..bridge }));
}

/// Scancodes are read in the order in which they were queued: what is read
/// is the oldest, and a scancode handed in goes behind all that wait.
pub proof fn lemma_scancodes_keep_their_order(bridge: BridgeState, scancode: u8)
    requires
        bridge.queue.len() > 0,
        bridge.queue.len() < bridge.capacity,
    ensures
        bridge.pushed(scancode).0.popped().1 == Some(bridge.queue[0]),
        bridge.pushed(scancode).0.popped().0.queue == bridge.popped().0.pushed(scancode).0.queue,
{
    assert(bridge.queue.push(scancode).skip(1) =~= bridge.queue.skip(1).push(scancode));
}

} // verus!
