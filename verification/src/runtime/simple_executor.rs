//! A scheduler that polls its tasks round-robin and does not wait for
//! wake-ups: a task that has not finished goes to the back of the queue.
use vstd::prelude::*;
use std::collections::VecDeque;
use crate::runtime::executor::{poll_made, PollRecord};
use crate::runtime::{PollOutcome, StateMachine, Task, TaskId, TaskWaker};

verus! {

/// The queue of task numbers once the polls of `report` have been made, each
/// of the task then at the front: a finished task leaves the queue, any other
/// moves to its back.
pub open spec fn after_round_robin(queue: Seq<u64>, report: Seq<PollRecord>) -> Seq<u64>
    decreases report.len(),
{
    if report.len() == 0 {
        queue
    } else {
        let before = after_round_robin(queue, report.drop_last());
        if report.last().outcome == PollOutcome::Finished {
            before.skip(1)
        } else {
            before.skip(1).push(before[0])
        }
    }
}

/// Whether each poll of `report` was made of the task at the front of the
/// queue as the polls before it had left it.
pub open spec fn polls_the_front(queue: Seq<u64>, report: Seq<PollRecord>) -> bool {
    forall|i: int|
        0 <= i < report.len() ==> {
            &&& after_round_robin(queue, #[trigger] report.take(i)).len() > 0
            &&& after_round_robin(queue, report.take(i))[0] == report[i].id.0
        }
}

/// Whether `after` is the queue that one poll of the task at the front of
/// `before` leaves: that task was polled once, with the waker of its
/// identifier, reported the outcome of `record` and was left as `left`; a
/// finished task has left the queue, any other stands at its back as `left`.
pub open spec fn front_polled<F: StateMachine>(
    before: Seq<Task<F>>,
    record: PollRecord,
    left: Task<F>,
    after: Seq<Task<F>>,
) -> bool {
    &&& before.len() > 0
    &&& poll_made(before[0], record, left)
    &&& after == if record.outcome == PollOutcome::Finished {
        before.skip(1)
    } else {
        before.skip(1).push(left)
    }
}

/// Whether the polls of `report`, made one after the other, each of the task
/// then at the front, lead from the queue `before` to the queue `after`.
pub open spec fn round_robin<F: StateMachine>(
    before: Seq<Task<F>>,
    report: Seq<PollRecord>,
    after: Seq<Task<F>>,
) -> bool
    decreases report.len(),
{
    if report.len() == 0 {
        after == before
    } else {
        exists|middle: Seq<Task<F>>, left: Task<F>|
            {
                &&& #[trigger] front_polled(middle, report.last(), left, after)
                &&& round_robin(before, report.drop_last(), middle)
            }
    }
}

/// A round-robin scheduler over a queue of tasks.
pub struct SimpleExecutor<F: StateMachine> {
    task_queue: VecDeque<Task<F>>,
}

impl<F: StateMachine> SimpleExecutor<F> {
    /// The queued tasks, front first.
    pub closed spec fn tasks(&self) -> Seq<Task<F>> {
        self.task_queue@
    }

    /// The numbers of the queued tasks, front first.
    pub open spec fn view(&self) -> Seq<u64> {
        self.tasks().map_values(|task: Task<F>| task.id().0)
    }

    /// A scheduler without tasks.
    pub fn new() -> (executor: SimpleExecutor<F>)
        ensures
            executor.tasks() == Seq::<Task<F>>::empty(),
            executor@ == Seq::<u64>::empty(),
    {
        SimpleExecutor { task_queue: VecDeque::new() }
    }

    /// Appends `task`, as it is, to the queue. The tasks that wait keep their
    /// places.
    pub fn spawn(&mut self, task: Task<F>)
        ensures
            final(self).tasks() == old(self).tasks().push(task),
            final(self)@ == old(self)@.push(task.id().0),
    {
        self.task_queue.push_back(task);
        assert(self@ =~= old(self)@.push(task.id().0));
    }

    /// Polls the task at the front of the queue, again and again, until the
    /// queue is empty or `max_polls` polls have been made. Each poll is one
    /// step of the state machine of the task then at the front, made with
    /// the waker of that task; a task that has not finished goes to the back
    /// as the poll left it. The report lists the polls in the order in which
    /// they were made.
    pub fn run(&mut self, max_polls: usize) -> (report: Vec<PollRecord>)
        ensures
            report.len() <= max_polls,
            polls_the_front(old(self)@, report@),
            final(self)@ == after_round_robin(old(self)@, report@),
            round_robin(old(self).tasks(), report@, final(self).tasks()),
            report.len() < max_polls ==> final(self).tasks().len() == 0,
    {
        let mut report: Vec<PollRecord> = Vec::new();
        while report.len() < max_polls && self.task_queue.len() > 0
            invariant
                report.len() <= max_polls,
                polls_the_front(old(self)@, report@),
                self@ == after_round_robin(old(self)@, report@),
                round_robin(old(self).tasks(), report@, self.tasks()),
            decreases max_polls - report.len(),
        {
            let ghost before = self@;
            let ghost tasks_before = self.tasks();
            let ghost polled = report@;
            let mut task = self.task_queue.pop_front().unwrap();
            let id = task.task_id();
            let waker = TaskWaker::new(id);
            let outcome = task.poll(&waker);
            let ghost left = task;
            assert(self@ =~= before.skip(1));
            assert(self.tasks() =~= tasks_before.skip(1));
            match outcome {
                PollOutcome::Finished => {},
                _ => {
                    self.task_queue.push_back(task);
                    assert(self@ =~= before.skip(1).push(before[0]));
                },
            }
            report.push(PollRecord { id, outcome });
            proof {
                assert(report@.drop_last() =~= polled);
                assert(front_polled(tasks_before, report@.last(), left, self.tasks()));
                assert forall|i: int| 0 <= i < report.len() implies {
                    &&& after_round_robin(old(self)@, #[trigger] report@.take(i)).len() > 0
                    &&& after_round_robin(old(self)@, report@.take(i))[0] == report[i].id.0
                } by {
                    if i < polled.len() {
                        assert(report@.take(i) =~= polled.take(i));
                    } else {
                        assert(report@.take(i) =~= polled);
                    }
                }
            }
        }
        report
    }
}

} // verus!
