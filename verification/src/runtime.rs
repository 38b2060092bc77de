//! Tasks and the identifiers that the schedulers know them by.
use vstd::prelude::*;

pub mod executor;
pub mod simple_executor;

verus! {

/// Identifies one task for the lifetime of the kernel.
#[derive(Debug, Clone, Copy, PartialEq, Eq, Structural)]
pub struct TaskId(pub u64);

impl TaskId {
    /// Takes the next identifier from `counter`.
    pub fn new(counter: &mut TaskIdCounter) -> (id: TaskId)
        ensures
            id.0 == old(counter).next_value(),
            final(counter).next_value() == TaskIdCounter::value_after(old(counter).next_value()),
    {
        counter.fetch_add()
    }
}

/// Hands out task identifiers in increasing order, one per request.
pub struct TaskIdCounter {
    next: u64,
}

impl TaskIdCounter {
    /// The number that the next request receives.
    pub closed spec fn next_value(&self) -> int {
        self.next as int
    }

    /// The counter's reading once `value` was handed out: one more, and zero
    /// again after the largest 64-bit number.
    pub open spec fn value_after(value: int) -> int {
        if value == u64::MAX {
            0
        } else {
            value + 1
        }
    }

    /// A counter that starts at zero.
    pub fn new() -> (counter: TaskIdCounter)
        ensures
            counter.next_value() == 0,
    {
        TaskIdCounter { next: 0 }
    }

    /// As long as the counter has not been through all 64-bit numbers, each
    /// identifier it hands out is larger than the ones before, and so
    /// differs from them.
    pub proof fn lemma_identifiers_increase(value: int)
        requires
            0 <= value < u64::MAX,
        ensures
            Self::value_after(value) == value + 1,
            Self::value_after(value) > value,
    {
    }

    /// Returns the current reading and advances the counter by one.
    pub fn fetch_add(&mut self) -> (id: TaskId)
        ensures
            id.0 == old(self).next_value(),
            final(self).next_value() == Self::value_after(old(self).next_value()),
    {
        let value = self.next;
        self.next = if value == u64::MAX {
            0
        } else {
            value + 1
        };
        TaskId(value)
    }
}

/// What a task reports when it was polled once.
#[derive(Debug, Clone, Copy, PartialEq, Eq, Structural)]
pub enum PollOutcome {
    /// The task ran to its end.
    Finished,
    /// The task stopped at a suspension point and asked to be polled again.
    Runnable,
    /// The task stopped at a suspension point and waits for its waker to fire.
    Suspended,
}

/// What polling a source of values reports: the next value, or that none is
/// there yet.
#[derive(Debug, PartialEq, Eq)]
pub enum Poll<T> {
    /// The next value is there.
    Ready(T),
    /// No value is there yet. The one who asked is woken when one arrives.
    Pending,
}

/// Names the task that becomes ready when the waker fires.
#[derive(Debug, Clone, Copy, PartialEq, Eq, Structural)]
pub struct TaskWaker {
    task_id: TaskId,
}

impl TaskWaker {
    /// The waker for the task `task_id`.
    pub closed spec fn of(task_id: TaskId) -> TaskWaker {
        TaskWaker { task_id }
    }

    /// A task has one waker: a waker is the waker of the task it names, and
    /// so two wakers that name the same task are the same waker.
    pub proof fn lemma_one_waker_per_task(self)
        ensures
            self == Self::of(self.task_id()),
            forall|task_id: TaskId| (#[trigger] Self::of(task_id)).task_id() == task_id,
    {
    }

    /// The waker for the task `task_id`.
    pub fn new(task_id: TaskId) -> (waker: TaskWaker)
        ensures
            waker == Self::of(task_id),
            waker.task_id() == task_id,
    {
        TaskWaker { task_id }
    }

    /// The task that the waker makes ready.
    pub closed spec fn task_id(&self) -> TaskId {
        self.task_id
    }

    /// The task that the waker makes ready.
    pub fn target(&self) -> (id: TaskId)
        ensures
            id == self.task_id(),
    {
        self.task_id
    }
}

/// A unit of work that runs from one suspension point to the next each time it
/// is polled. `waker` stands for the task being polled: a state machine that
/// reports `Suspended` has left a copy of it with whatever it waits for.
pub trait StateMachine: Sized {
    /// Whether one poll with `waker` may take the state machine from `before`
    /// to `after` and report `outcome`. A state machine that does not say
    /// what its polls do allows every step.
    open spec fn poll_step(before: Self, waker: TaskWaker, after: Self, outcome: PollOutcome) -> bool {
        true
    }

    /// Runs the state machine to its next suspension point.
    fn poll(&mut self, waker: &TaskWaker) -> (outcome: PollOutcome)
        ensures
            Self::poll_step(*old(self), *waker, *final(self), outcome),
    ;
}

/// A state machine together with the identifier it is scheduled under.
pub struct Task<F: StateMachine> {
    id: TaskId,
    body: F,
}

impl<F: StateMachine> Task<F> {
    /// Wraps `body` as a task with a fresh identifier from `counter`.
    pub fn new(body: F, counter: &mut TaskIdCounter) -> (task: Task<F>)
        ensures
            task.id().0 == old(counter).next_value(),
            task.body() == body,
            final(counter).next_value() == TaskIdCounter::value_after(old(counter).next_value()),
    {
        Task { id: TaskId::new(counter), body }
    }

    /// The identifier under which the task is scheduled.
    pub closed spec fn id(&self) -> TaskId {
        self.id
    }

    /// The identifier under which the task is scheduled.
    pub fn task_id(&self) -> (id: TaskId)
        ensures
            id == self.id(),
    {
        self.id
    }

    /// The state machine of the task, in its present state.
    pub closed spec fn body(&self) -> F {
        self.body
    }

    /// Runs the state machine to its next suspension point, with `waker` to
    /// leave with whatever it waits for: the state machine makes one step of
    /// its own, from the state it was in, and the task reports what that
    /// step reported. The task keeps its identifier.
    pub fn poll(&mut self, waker: &TaskWaker) -> (outcome: PollOutcome)
        ensures
            final(self).id() == old(self).id(),
            F::poll_step(old(self).body(), *waker, final(self).body(), outcome),
    {
        self.body.poll(waker)
    }
}

} // verus!
