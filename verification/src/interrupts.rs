//! The interrupt vectors of the two chained interrupt controllers, and what
//! the handlers of the hardware interrupts decide.
use vstd::prelude::*;
use crate::task::keyboard::{add_scancode, InterruptBridge, ScancodeDelivery};

verus! {

/// The vector of the first interrupt of the primary controller.
pub const PIC_1_OFFSET: u8 = 32;

/// The vector of the first interrupt of the secondary controller.
pub const PIC_2_OFFSET: u8 = 40;

/// The hardware interrupts that the kernel handles.
#[derive(Debug, Clone, Copy, PartialEq, Eq, Structural)]
pub enum InterruptIndex {
    Timer,
    Keyboard,
}

impl InterruptIndex {
    /// The interrupt's vector: the timer has the first vector of the primary
    /// controller, the keyboard the one after it.
    pub open spec fn vector(self) -> int {
        match self {
            InterruptIndex::Timer => PIC_1_OFFSET as int,
            InterruptIndex::Keyboard => PIC_1_OFFSET + 1,
        }
    }

    /// The vector as the controllers take it.
    pub fn as_u8(self) -> (vector: u8)
        ensures
            vector == self.vector(),
    {
        match self {
            InterruptIndex::Timer => PIC_1_OFFSET,
            InterruptIndex::Keyboard => PIC_1_OFFSET + 1,
        }
    }

    /// The vector as an index into the descriptor table.
    pub fn as_usize(self) -> (vector: usize)
        ensures
            vector == self.vector(),
    {
        self.as_u8() as usize
    }

    /// Which controller raises the interrupt with vector `vector`: the
    /// primary one the eight vectors from `PIC_1_OFFSET` on, the secondary
    /// one the eight from `PIC_2_OFFSET` on.
    pub open spec fn handled_by_primary(vector: int) -> bool {
        PIC_1_OFFSET <= vector < PIC_1_OFFSET + 8
    }

    /// Both interrupts belong to the primary controller.
    pub proof fn lemma_vectors(self)
        ensures
            Self::handled_by_primary(self.vector()),
            InterruptIndex::Timer.vector() != InterruptIndex::Keyboard.vector(),
    {
    }
}

/// What a handler leaves for its caller to do once it has run.
#[derive(Debug, Clone, Copy, PartialEq, Eq, Structural)]
pub struct Handled {
    /// What became of the scancode, if the interrupt brought one.
    pub delivery: Option<ScancodeDelivery>,
    /// The vector to report to the interrupt controllers as finished.
    pub end_of_interrupt: u8,
}

/// The timer interrupt: nothing is done but to report the interrupt as
/// finished.
pub fn timer_interrupt_handler() -> (handled: Handled)
    ensures
        handled.delivery is None,
        handled.end_of_interrupt == InterruptIndex::Timer.vector(),
{
    Handled { delivery: None, end_of_interrupt: InterruptIndex::Timer.as_u8() }
}

/// The keyboard interrupt, with the scancode read from the keyboard: the
/// scancode is handed to the bridge, and the interrupt is reported as
/// finished whatever became of the scancode.
pub fn keyboard_interrupt_handler(bridge: &mut InterruptBridge, scancode: u8) -> (handled: Handled)
    requires
        old(bridge)@.initialized,
    ensures
        handled.delivery matches Some(delivery) && (final(bridge)@, delivery) == old(bridge)@.pushed(
            scancode,
        ),
        handled.end_of_interrupt == InterruptIndex::Keyboard.vector(),
{
    let delivery = add_scancode(bridge, scancode);
    Handled { delivery: Some(delivery), end_of_interrupt: InterruptIndex::Keyboard.as_u8() }
}

impl From<InterruptIndex> for u8 {
    fn from(index: InterruptIndex) -> (vector: u8) {
        index.as_u8()
    }
}

impl vstd::std_specs::convert::FromSpecImpl<InterruptIndex> for u8 {
    open spec fn obeys_from_spec() -> bool {
        true
    }

    open spec fn from_spec(index: InterruptIndex) -> u8 {
        index.vector() as u8
    }
}

impl From<InterruptIndex> for usize {
    fn from(index: InterruptIndex) -> (vector: usize) {
        index.as_usize()
    }
}

impl vstd::std_specs::convert::FromSpecImpl<InterruptIndex> for usize {
    open spec fn obeys_from_spec() -> bool {
        true
    }

    open spec fn from_spec(index: InterruptIndex) -> usize {
        index.vector() as usize
    }
}

} // verus!
