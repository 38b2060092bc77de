//! The cooperative scheduler: live tasks, the queue of identifiers that are
//! ready to be polled, and the wakers handed to the tasks.
use vstd::prelude::*;
use std::collections::BTreeMap;
use crossbeam::queue::ArrayQueue;
use crate::queue::{
    id_queue_capacity, id_queue_is_empty, id_queue_items, id_queue_new, id_queue_pop,
    id_queue_push,
};
use crate::runtime::{PollOutcome, StateMachine, Task, TaskId, TaskWaker};

verus! {

/// How many identifiers the ready queue holds at most.
pub const TASK_QUEUE_CAPACITY: usize = 100;

/// One poll made during a drain pass: which task, and what it reported.
#[derive(Debug, Clone, Copy, PartialEq, Eq, Structural)]
pub struct PollRecord {
    pub id: TaskId,
    pub outcome: PollOutcome,
}

/// Why a task could not be spawned.
#[derive(Debug, Clone, Copy, PartialEq, Eq, Structural)]
pub enum SpawnError {
    /// A live task already has the new task's identifier.
    DuplicateId,
    /// The ready queue has no room for the new task's identifier.
    QueueFull,
}

/// The scheduler as the contracts see it. Tasks are named by the number of
/// their identifier.
#[verifier::ext_equal]
pub struct ExecutorState {
    /// The tasks that were spawned and have not finished.
    pub live: Set<u64>,
    /// The identifiers waiting to be polled, oldest first. An identifier may
    /// wait more than once, and may name a task that has finished since.
    pub ready: Seq<u64>,
    /// How many identifiers `ready` holds at most.
    pub capacity: nat,
    /// The tasks for which a waker has been made.
    pub wakers: Set<u64>,
}

impl ExecutorState {
    /// The state once a task named `id` has been spawned.
    pub open spec fn spawned(self, id: u64) -> ExecutorState {
        ExecutorState { live: self.live.insert(id), ready: self.ready.push(id), ..self }
    }

    /// The state once a waker for `id` has fired.
    pub open spec fn woken(self, id: u64) -> ExecutorState {
        ExecutorState { ready: self.ready.push(id), ..self }
    }

    /// Whether the ready queue has no room for another identifier.
    pub open spec fn full(self) -> bool {
        self.ready.len() >= self.capacity
    }

    /// The state once a task named `id` has been offered, and what became of
    /// the offer. A task whose identifier a live task has is refused, and so
    /// is any task while the ready queue is full; a refusal changes nothing.
    pub open spec fn try_spawned(self, id: u64) -> (ExecutorState, Result<(), SpawnError>) {
        if self.live.contains(id) {
            (self, Err(SpawnError::DuplicateId))
        } else if self.full() {
            (self, Err(SpawnError::QueueFull))
        } else {
            (self.spawned(id), Ok(()))
        }
    }

    /// The state once a waker for `id` has been fired, and whether the wake
    /// was taken. It is refused while the ready queue is full, and a refusal
    /// changes nothing.
    pub open spec fn try_woken(self, id: u64) -> (ExecutorState, bool) {
        if self.full() {
            (self, false)
        } else {
            (self.woken(id), true)
        }
    }

    /// The state once every waiting identifier has been taken off the queue.
    pub open spec fn drained(self) -> ExecutorState {
        ExecutorState { ready: Seq::empty(), ..self }
    }

    /// The state once the task of `record` has been polled and reported
    /// `record.outcome`.
    pub open spec fn settled(self, record: PollRecord) -> ExecutorState {
        let id = record.id.0;
        match record.outcome {
            PollOutcome::Finished => ExecutorState {
                live: self.live.remove(id),
                wakers: self.wakers.remove(id),
                ..self
            },
            PollOutcome::Runnable => ExecutorState {
                ready: self.ready.push(id),
                wakers: self.wakers.insert(id),
                ..self
            },
            PollOutcome::Suspended => ExecutorState { wakers: self.wakers.insert(id), ..self },
        }
    }

    /// The state once the polls of `report` have been settled, first to last.
    pub open spec fn after_polls(self, report: Seq<PollRecord>) -> ExecutorState
        decreases report.len(),
    {
        if report.len() == 0 {
            self
        } else {
            self.after_polls(report.drop_last()).settled(report.last())
        }
    }
}

/// The tasks that one drain pass polls, in the order in which it polls them:
/// each live task that waits in `ready`, once, at the place of its first entry.
pub open spec fn poll_plan(ready: Seq<u64>, live: Set<u64>) -> Seq<u64>
    decreases ready.len(),
{
    if ready.len() == 0 {
        Seq::empty()
    } else {
        let earlier = poll_plan(ready.drop_last(), live);
        let id = ready.last();
        if live.contains(id) && !earlier.contains(id) {
            earlier.push(id)
        } else {
            earlier
        }
    }
}

/// The task numbers of `report`, in order.
pub open spec fn polled_ids(report: Seq<PollRecord>) -> Seq<u64> {
    report.map_values(|record: PollRecord| record.id.0)
}

/// The numbers of `ids`, in order.
pub open spec fn id_numbers(ids: Seq<TaskId>) -> Seq<u64> {
    ids.map_values(|id: TaskId| id.0)
}

/// Every task that `poll_plan` names is live and waits in `ready`, and every
/// such task is named.
pub proof fn lemma_poll_plan_members(ready: Seq<u64>, live: Set<u64>)
    ensures
        forall|id: u64| #[trigger]
            poll_plan(ready, live).contains(id) <==> ready.contains(id) && live.contains(id),
    decreases ready.len(),
{
    let plan = poll_plan(ready, live);
    if ready.len() > 0 {
        let front = ready.drop_last();
        let earlier = poll_plan(front, live);
        lemma_poll_plan_members(front, live);
        assert forall|id: u64| #[trigger] plan.contains(id) <==> ready.contains(id) && live.contains(
            id,
        ) by {
            if plan.contains(id) {
                let i = choose|i: int| 0 <= i < plan.len() && plan[i] == id;
                if i < earlier.len() {
                    assert(earlier[i] == id);
                    assert(earlier.contains(id));
                    let j = choose|j: int| 0 <= j < front.len() && front[j] == id;
                    assert(ready[j] == id);
                } else {
                    assert(id == ready.last());
                    assert(ready[ready.len() - 1] == id);
                }
            }
            if ready.contains(id) && live.contains(id) {
                let j = choose|j: int| 0 <= j < ready.len() && ready[j] == id;
                if j < front.len() {
                    assert(front[j] == id);
                    assert(front.contains(id));
                    assert(earlier.contains(id));
                    let i = choose|i: int| 0 <= i < earlier.len() && earlier[i] == id;
                    assert(plan[i] == id);
                } else {
                    if earlier.contains(id) {
                        let i = choose|i: int| 0 <= i < earlier.len() && earlier[i] == id;
                        assert(plan[i] == id);
                    } else {
                        assert(plan[plan.len() - 1] == id);
                    }
                }
            }
        }
    }
}

/// No task is named twice by `poll_plan`, however often it waits in `ready`.
pub proof fn lemma_poll_plan_no_duplicates(ready: Seq<u64>, live: Set<u64>)
    ensures
        poll_plan(ready, live).no_duplicates(),
        poll_plan(ready, live).len() <= ready.len(),
    decreases ready.len(),
{
    if ready.len() > 0 {
        lemma_poll_plan_no_duplicates(ready.drop_last(), live);
    }
}

/// How often `id` stands in `ids`.
pub open spec fn occurrences(ids: Seq<u64>, id: u64) -> nat
    decreases ids.len(),
{
    if ids.len() == 0 {
        0
    } else if ids.last() == id {
        occurrences(ids.drop_last(), id) + 1
    } else {
        occurrences(ids.drop_last(), id)
    }
}

/// An identifier stands in a sequence exactly when it occurs there at least
/// once, and appending an identifier adds one occurrence of it and none of
/// any other.
pub proof fn lemma_occurrences(ids: Seq<u64>, id: u64, next: u64)
    ensures
        occurrences(ids, id) > 0 <==> ids.contains(id),
        occurrences(ids.push(next), id) == occurrences(ids, id) + if next == id {
            1nat
        } else {
            0nat
        },
    decreases ids.len(),
{
    assert(ids.push(next).drop_last() =~= ids);
    if ids.len() > 0 {
        let front = ids.drop_last();
        lemma_occurrences(front, id, next);
        if ids.contains(id) {
            let i = choose|i: int| 0 <= i < ids.len() && ids[i] == id;
            if i < front.len() {
                assert(front[i] == id);
            }
        }
        if front.contains(id) {
            let i = choose|i: int| 0 <= i < front.len() && front[i] == id;
            assert(ids[i] == id);
        }
        if ids.last() == id {
            assert(ids[ids.len() - 1] == id);
        }
    }
}

/// One drain pass polls a task exactly once if it is live and waits in the
/// ready queue, however many entries it has there, and does not poll any
/// other task.
pub proof fn lemma_pass_polls_each_ready_task_once(ready: Seq<u64>, live: Set<u64>, id: u64)
    ensures
        occurrences(poll_plan(ready, live), id) == if live.contains(id) && ready.contains(id) {
            1nat
        } else {
            0nat
        },
    decreases ready.len(),
{
    if ready.len() > 0 {
        let front = ready.drop_last();
        let earlier = poll_plan(front, live);
        lemma_pass_polls_each_ready_task_once(front, live, id);
        lemma_poll_plan_members(front, live);
        lemma_occurrences(earlier, id, ready.last());
        assert(earlier.contains(id) <==> front.contains(id) && live.contains(id));
        if ready.contains(id) {
            let i = choose|i: int| 0 <= i < ready.len() && ready[i] == id;
            if i < front.len() {
                assert(front[i] == id);
            }
        }
        if front.contains(id) {
            let i = choose|i: int| 0 <= i < front.len() && front[i] == id;
            assert(ready[i] == id);
        }
        if ready.last() == id {
            assert(ready[ready.len() - 1] == id);
        }
    } else {
        assert(!ready.contains(id));
    }
}

/// A task that has been spawned, or whose waker has fired, is polled in the
/// next drain pass, once.
pub proof fn lemma_ready_task_is_polled_in_next_pass(before: ExecutorState, id: u64)
    ensures
        !before.live.contains(id) ==> occurrences(
            poll_plan(before.spawned(id).ready, before.spawned(id).live),
            id,
        ) == 1,
        before.live.contains(id) ==> occurrences(
            poll_plan(before.woken(id).ready, before.woken(id).live),
            id,
        ) == 1,
{
    assert(before.ready.push(id)[before.ready.len() as int] == id);
    lemma_pass_polls_each_ready_task_once(before.spawned(id).ready, before.spawned(id).live, id);
    lemma_pass_polls_each_ready_task_once(before.woken(id).ready, before.woken(id).live, id);
}

/// The tasks of one pass are polled in the order in which they became ready:
/// of two polled tasks, the one polled first has an entry in the ready queue
/// before every entry of the other.
pub proof fn lemma_pass_polls_in_queue_order(ready: Seq<u64>, live: Set<u64>, i: int, j: int)
    requires
        0 <= i < j < poll_plan(ready, live).len(),
    ensures
        exists|p: int|
            0 <= p < ready.len() && #[trigger] ready[p] == poll_plan(ready, live)[i] && forall|
                q: int,
            |
                0 <= q <= p ==> #[trigger] ready[q] != poll_plan(ready, live)[j],
    decreases ready.len(),
{
    let plan = poll_plan(ready, live);
    let front = ready.drop_last();
    let earlier = poll_plan(front, live);
    lemma_poll_plan_members(front, live);
    lemma_poll_plan_no_duplicates(front, live);
    if j < earlier.len() {
        lemma_pass_polls_in_queue_order(front, live, i, j);
        let p = choose|p: int|
            0 <= p < front.len() && #[trigger] front[p] == earlier[i] && forall|q: int|
                0 <= q <= p ==> #[trigger] front[q] != earlier[j];
        assert(ready[p] == plan[i]);
        assert forall|q: int| 0 <= q <= p implies #[trigger] ready[q] != plan[j] by {
            assert(front[q] != earlier[j]);
        }
    } else {
        assert(plan[j] == ready.last());
        assert(!earlier.contains(plan[j]));
        assert(earlier.contains(earlier[i]));
        assert(front.contains(plan[i]));
        let p = choose|p: int| 0 <= p < front.len() && front[p] == plan[i];
        assert(ready[p] == plan[i]);
        assert forall|q: int| 0 <= q <= p implies #[trigger] ready[q] != plan[j] by {
            if ready[q] == plan[j] {
                assert(front[q] == plan[j]);
                assert(front.contains(plan[j]));
            }
        }
    }
}

/// Whether the task `id` is in `end` as it was in `start`: as live, with or
/// without a waker, and as often in the ready queue.
pub open spec fn untouched(start: ExecutorState, end: ExecutorState, id: u64) -> bool {
    &&& end.live.contains(id) == start.live.contains(id)
    &&& end.wakers.contains(id) == start.wakers.contains(id)
    &&& occurrences(end.ready, id) == occurrences(start.ready, id)
}

/// Whether the task of `record` is in `end` what one poll with that outcome
/// makes of its place in `start`: a finished task is gone with its waker, any
/// other task has a waker and is live if it was, and a runnable task has one
/// more entry in the ready queue.
pub open spec fn filed(start: ExecutorState, end: ExecutorState, record: PollRecord) -> bool {
    let id = record.id.0;
    match record.outcome {
        PollOutcome::Finished => {
            &&& !end.live.contains(id)
            &&& !end.wakers.contains(id)
            &&& occurrences(end.ready, id) == occurrences(start.ready, id)
        },
        PollOutcome::Runnable => {
            &&& end.live.contains(id) == start.live.contains(id)
            &&& end.wakers.contains(id)
            &&& occurrences(end.ready, id) == occurrences(start.ready, id) + 1
        },
        PollOutcome::Suspended => {
            &&& end.live.contains(id) == start.live.contains(id)
            &&& end.wakers.contains(id)
            &&& occurrences(end.ready, id) == occurrences(start.ready, id)
        },
    }
}

/// What a run of polls leaves behind, task by task, when no task is polled
/// twice: a task that was not polled is untouched, and each polled task is
/// filed by what it reported.
pub proof fn lemma_after_polls(start: ExecutorState, report: Seq<PollRecord>)
    requires
        polled_ids(report).no_duplicates(),
    ensures
        start.after_polls(report).capacity == start.capacity,
        start.after_polls(report).ready.len() <= start.ready.len() + report.len(),
        forall|id: u64|
            !polled_ids(report).contains(id) ==> #[trigger] untouched(
                start,
                start.after_polls(report),
                id,
            ),
        forall|i: int|
            0 <= i < report.len() ==> filed(start, start.after_polls(report), #[trigger] report[i]),
    decreases report.len(),
{
    if report.len() > 0 {
        let front = report.drop_last();
        let last = report.last();
        let middle = start.after_polls(front);
        let end = start.after_polls(report);
        assert(end == middle.settled(last));
        assert(polled_ids(front) =~= polled_ids(report).drop_last());
        assert(polled_ids(report)[report.len() - 1] == last.id.0);
        assert forall|a: int, b: int| 0 <= a < b < front.len() implies polled_ids(front)[a]
            != polled_ids(front)[b] by {
            assert(polled_ids(report)[a] != polled_ids(report)[b]);
        }
        lemma_after_polls(start, front);
        assert(!polled_ids(front).contains(last.id.0)) by {
            if polled_ids(front).contains(last.id.0) {
                let a = choose|a: int| 0 <= a < front.len() && polled_ids(front)[a] == last.id.0;
                assert(polled_ids(report)[a] == polled_ids(report)[report.len() - 1]);
            }
        }
        assert(untouched(start, middle, last.id.0));
        assert forall|id: u64| !polled_ids(report).contains(id) implies #[trigger] untouched(
            start,
            end,
            id,
        ) by {
            assert(id != last.id.0);
            if polled_ids(front).contains(id) {
                let a = choose|a: int| 0 <= a < front.len() && polled_ids(front)[a] == id;
                assert(polled_ids(report)[a] == id);
            }
            assert(untouched(start, middle, id));
            lemma_occurrences(middle.ready, id, last.id.0);
        }
        assert forall|i: int| 0 <= i < report.len() implies filed(
            start,
            end,
            #[trigger] report[i],
        ) by {
            let id = report[i].id.0;
            lemma_occurrences(middle.ready, id, last.id.0);
            if i < front.len() {
                assert(front[i] == report[i]);
                assert(filed(start, middle, front[i]));
                assert(polled_ids(report)[i] != polled_ids(report)[report.len() - 1]);
                assert(id != last.id.0);
            } else {
                assert(report[i] == last);
            }
        }
    }
}

/// Whether `after` holds the task of `record` as one drain pass leaves a task
/// that it polled with that outcome: a finished task is gone with its waker;
/// any other task is live and has a waker; a runnable task waits in the ready
/// queue once, any other not at all.
pub open spec fn left_as_polled(after: ExecutorState, record: PollRecord) -> bool {
    let id = record.id.0;
    &&& after.live.contains(id) == (record.outcome != PollOutcome::Finished)
    &&& after.wakers.contains(id) == (record.outcome != PollOutcome::Finished)
    &&& occurrences(after.ready, id) == if record.outcome == PollOutcome::Runnable {
        1nat
    } else {
        0nat
    }
}

/// Whether `after` holds the task `id` as one drain pass leaves a task that
/// it did not poll: as in `before`, and not in the ready queue.
pub open spec fn left_as_skipped(before: ExecutorState, after: ExecutorState, id: u64) -> bool {
    &&& after.live.contains(id) == before.live.contains(id)
    &&& after.wakers.contains(id) == before.wakers.contains(id)
    &&& occurrences(after.ready, id) == 0
}

/// After one drain pass, a task that was polled and finished is gone with its
/// waker; a task that was polled and did not finish is kept, and waits in the
/// ready queue, once, only if it reported `Runnable`; a task that was not
/// polled, for want of an entry in the ready queue, is kept as it was. The
/// tasks polled are live tasks that waited, and only live tasks have a waker
/// afterwards.
pub proof fn lemma_drain_pass(before: ExecutorState, report: Seq<PollRecord>)
    requires
        polled_ids(report) == poll_plan(before.ready, before.live),
        before.wakers.subset_of(before.live),
    ensures
        forall|i: int|
            0 <= i < report.len() ==> before.live.contains((#[trigger] report[i]).id.0)
                && before.ready.contains(report[i].id.0) && left_as_polled(
                before.drained().after_polls(report),
                report[i],
            ),
        forall|id: u64|
            !(before.live.contains(id) && before.ready.contains(id)) ==> #[trigger] left_as_skipped(
                before,
                before.drained().after_polls(report),
                id,
            ),
        before.drained().after_polls(report).wakers.subset_of(
            before.drained().after_polls(report).live,
        ),
        before.drained().after_polls(report).capacity == before.capacity,
        before.drained().after_polls(report).ready.len() <= report.len() <= before.ready.len(),
{
    let start = before.drained();
    let after = start.after_polls(report);
    lemma_poll_plan_members(before.ready, before.live);
    lemma_poll_plan_no_duplicates(before.ready, before.live);
    lemma_after_polls(start, report);
    assert forall|i: int| 0 <= i < report.len() implies before.live.contains(
        (#[trigger] report[i]).id.0,
    ) && before.ready.contains(report[i].id.0) && left_as_polled(after, report[i]) by {
        let id = report[i].id.0;
        assert(polled_ids(report)[i] == id);
        assert(poll_plan(before.ready, before.live).contains(id));
        assert(filed(start, after, report[i]));
    }
    assert forall|id: u64|
        !(before.live.contains(id) && before.ready.contains(id)) implies #[trigger] left_as_skipped(
        before,
        after,
        id,
    ) by {
        assert(!polled_ids(report).contains(id));
        assert(untouched(start, after, id));
    }
    assert forall|id: u64| after.wakers.contains(id) implies after.live.contains(id) by {
        if polled_ids(report).contains(id) {
            let i = choose|i: int| 0 <= i < report.len() && polled_ids(report)[i] == id;
            assert(report[i].id.0 == id);
            assert(filed(start, after, report[i]));
        } else {
            assert(untouched(start, after, id));
        }
    }
}

/// A task that reported `Suspended` in one pass is not polled in the next
/// pass unless its waker has fired in between, and is polled in the next
/// pass once its waker has fired.
pub proof fn lemma_suspended_task_waits_for_its_waker(
    before: ExecutorState,
    report: Seq<PollRecord>,
    i: int,
)
    requires
        polled_ids(report) == poll_plan(before.ready, before.live),
        before.wakers.subset_of(before.live),
        0 <= i < report.len(),
        report[i].outcome == PollOutcome::Suspended,
    ensures
        ({
            let after = before.drained().after_polls(report);
            let id = report[i].id.0;
            &&& !poll_plan(after.ready, after.live).contains(id)
            &&& poll_plan(after.woken(id).ready, after.woken(id).live).contains(id)
        }),
{
    let after = before.drained().after_polls(report);
    let id = report[i].id.0;
    lemma_drain_pass(before, report);
    assert(left_as_polled(after, report[i]));
    lemma_occurrences(after.ready, id, id);
    lemma_poll_plan_members(after.ready, after.live);
    lemma_poll_plan_members(after.woken(id).ready, after.woken(id).live);
    assert(after.ready.push(id)[after.ready.len() as int] == id);
}

/// Whether `after` is what one poll made of the task `before`: the state
/// machine of `before` made one step of its own, with the waker of the task
/// that `record` names, and reported the outcome of `record`; the task kept
/// its identifier, which is the one that `record` names.
pub open spec fn poll_made<F: StateMachine>(
    before: Task<F>,
    record: PollRecord,
    after: Task<F>,
) -> bool {
    &&& before.id() == record.id
    &&& after.id() == record.id
    &&& F::poll_step(before.body(), TaskWaker::of(record.id), after.body(), record.outcome)
}

/// Whether the poll of `record` was made between the tables `before` and
/// `after`: the task that `before` holds under the identifier of `record`
/// was polled once, with the waker of that identifier, and reported the
/// outcome of `record`; unless it finished, `after` holds the task as the
/// poll left it.
pub open spec fn polled_in<F: StateMachine>(
    before: Map<u64, Task<F>>,
    after: Map<u64, Task<F>>,
    record: PollRecord,
) -> bool {
    exists|left: Task<F>|
        {
            &&& #[trigger] poll_made(before[record.id.0], record, left)
            &&& record.outcome != PollOutcome::Finished ==> after.contains_key(record.id.0)
                && after[record.id.0] == left
        }
}

/// A spawn is refused exactly when a live task has the identifier or the
/// ready queue is full, and a wake exactly when the ready queue is full. What
/// is refused changes nothing, and what is taken waits in the ready queue:
/// no task and no wake is dropped silently.
pub proof fn lemma_refusals(state: ExecutorState, id: u64)
    ensures
        state.try_spawned(id).1 is Err <==> state.live.contains(id) || state.full(),
        state.live.contains(id) ==> state.try_spawned(id).1 == Err::<(), SpawnError>(
            SpawnError::DuplicateId,
        ),
        state.try_spawned(id).1 is Err ==> state.try_spawned(id).0 == state,
        state.try_spawned(id).1 is Ok ==> state.try_spawned(id).0.live.contains(id)
            && state.try_spawned(id).0.ready.last() == id,
        !state.try_woken(id).1 <==> state.full(),
        !state.try_woken(id).1 ==> state.try_woken(id).0 == state,
        state.try_woken(id).1 ==> state.try_woken(id).0.ready.last() == id,
{
}

/// Whether the task `id` is in `after` what it is in `before`: there or not,
/// and if there, the same state machine in the same state.
pub open spec fn same_task<F: StateMachine>(
    before: Map<u64, Task<F>>,
    after: Map<u64, Task<F>>,
    id: u64,
) -> bool {
    &&& after.contains_key(id) == before.contains_key(id)
    &&& before.contains_key(id) ==> after[id] == before[id]
}

/// The cooperative scheduler. It owns the live tasks, the queue of
/// identifiers that are ready to be polled and one waker for each task that
/// has been polled.
pub struct Executor<F: StateMachine> {
    tasks: BTreeMap<u64, Task<F>>,
    task_queue: ArrayQueue<u64>,
    waker_cache: BTreeMap<u64, TaskWaker>,
}

/// Whether `id` is among `ids`.
fn seen_before(ids: &Vec<TaskId>, id: TaskId) -> (seen: bool)
    ensures
        seen == id_numbers(ids@).contains(id.0),
{
    let mut i: usize = 0;
    while i < ids.len()
        invariant
            i <= ids.len(),
            forall|j: int| 0 <= j < i ==> id_numbers(ids@)[j] != id.0,
        decreases ids.len() - i,
    {
        if ids[i].0 == id.0 {
            assert(id_numbers(ids@)[i as int] == id.0);
            return true;
        }
        i += 1;
    }
    false
}

impl<F: StateMachine> Executor<F> {
    /// The scheduler's state as the contracts see it.
    pub closed spec fn view(&self) -> ExecutorState {
        ExecutorState {
            live: self.tasks@.dom(),
            ready: id_queue_items(self.task_queue),
            capacity: id_queue_capacity(self.task_queue),
            wakers: self.waker_cache@.dom(),
        }
    }

    /// The live tasks, each under the number of its identifier.
    pub closed spec fn tasks(&self) -> Map<u64, Task<F>> {
        self.tasks@
    }

    /// The waker kept for the task `id`, once one has been made.
    pub closed spec fn waker(&self, id: u64) -> TaskWaker {
        self.waker_cache@[id]
    }

    /// Every task is filed under its own identifier, each waker names the
    /// task it is filed under, and the ready queue is within its capacity.
    pub closed spec fn tables_wf(&self) -> bool {
        &&& id_queue_capacity(self.task_queue) == TASK_QUEUE_CAPACITY
        &&& id_queue_items(self.task_queue).len() <= id_queue_capacity(self.task_queue)
        &&& forall|k: u64| #[trigger]
            self.tasks@.contains_key(k) ==> self.tasks@[k].id().0 == k
        &&& forall|k: u64| #[trigger]
            self.waker_cache@.contains_key(k) ==> self.waker_cache@[k].task_id().0 == k
    }

    /// The invariant between two operations: the tables are well formed and
    /// only live tasks have a waker.
    pub closed spec fn wf(&self) -> bool {
        &&& self.tables_wf()
        &&& self.waker_cache@.dom().subset_of(self.tasks@.dom())
    }

    /// The invariant while the task `id` is out of the table to be polled: its
    /// waker exists, and every other waker belongs to a live task.
    pub closed spec fn wf_while_polling(&self, id: u64) -> bool {
        &&& self.tables_wf()
        &&& !self.tasks@.contains_key(id)
        &&& self.waker_cache@.contains_key(id)
        &&& self.waker_cache@.dom().subset_of(self.tasks@.dom().insert(id))
    }

    /// What `wf` says of the state that the contracts see.
    pub proof fn lemma_wf_view(&self)
        requires
            self.wf(),
        ensures
            self@.capacity == TASK_QUEUE_CAPACITY,
            self@.ready.len() <= self@.capacity,
            self@.wakers.subset_of(self@.live),
            self@.live.finite(),
            self@.live == self.tasks().dom(),
            forall|id: u64| #[trigger]
                self.tasks().contains_key(id) ==> self.tasks()[id].id().0 == id,
            forall|id: u64|
                self@.wakers.contains(id) ==> #[trigger] self.waker(id) == TaskWaker::of(
                    TaskId(id),
                ),
    {
        broadcast use vstd::std_specs::btree::group_btree_axioms;

        assert forall|id: u64| self@.wakers.contains(id) implies #[trigger] self.waker(id)
            == TaskWaker::of(TaskId(id)) by {
            self.waker(id).lemma_one_waker_per_task();
        }
    }

    /// A scheduler without tasks, with an empty ready queue.
    pub fn new() -> (executor: Executor<F>)
        ensures
            executor.wf(),
            executor@.live == Set::<u64>::empty(),
            executor@.ready == Seq::<u64>::empty(),
            executor@.wakers == Set::<u64>::empty(),
            executor@.capacity == TASK_QUEUE_CAPACITY,
            executor.tasks() == Map::<u64, Task<F>>::empty(),
    {
        Executor {
            tasks: BTreeMap::new(),
            task_queue: id_queue_new(TASK_QUEUE_CAPACITY),
            waker_cache: BTreeMap::new(),
        }
    }

    /// Whether a task with identifier `id` is live.
    pub fn has_task(&self, id: TaskId) -> (live: bool)
        ensures
            live == self@.live.contains(id.0),
    {
        broadcast use {vstd::std_specs::btree::group_btree_axioms, vstd::laws_cmp::group_laws_cmp};

        self.tasks.contains_key(&id.0)
    }

    /// Whether nothing waits to be polled, so that the processor may halt
    /// until the next interrupt.
    pub fn is_idle(&self) -> (idle: bool)
        ensures
            idle == (self@.ready.len() == 0),
    {
        id_queue_is_empty(&self.task_queue)
    }

    /// Takes `task` in and appends its identifier to the ready queue.
    pub fn spawn(&mut self, task: Task<F>)
        requires
            old(self).wf(),
            !old(self)@.live.contains(task.id().0),
            old(self)@.ready.len() < old(self)@.capacity,
        ensures
            final(self).wf(),
            final(self)@ == old(self)@.spawned(task.id().0),
            final(self).tasks() == old(self).tasks().insert(task.id().0, task),
    {
        broadcast use {vstd::std_specs::btree::group_btree_axioms, vstd::laws_cmp::group_laws_cmp};

        let id = task.task_id().0;
        let _ = self.tasks.insert(id, task);
        let _ = id_queue_push(&mut self.task_queue, id);
    }

    /// Spawns `task` if no live task has its identifier and the ready queue has
    /// room, and otherwise reports which of the two is in the way and changes
    /// nothing.
    pub fn try_spawn(&mut self, task: Task<F>) -> (result: Result<(), SpawnError>)
        requires
            old(self).wf(),
        ensures
            final(self).wf(),
            (final(self)@, result) == old(self)@.try_spawned(task.id().0),
            final(self).tasks() == if result is Ok {
                old(self).tasks().insert(task.id().0, task)
            } else {
                old(self).tasks()
            },
    {
        broadcast use {vstd::std_specs::btree::group_btree_axioms, vstd::laws_cmp::group_laws_cmp};

        let id = task.task_id().0;
        if self.tasks.contains_key(&id) {
            return Err(SpawnError::DuplicateId);
        }
        match id_queue_push(&mut self.task_queue, id) {
            Err(_) => Err(SpawnError::QueueFull),
            Ok(()) => {
                let _ = self.tasks.insert(id, task);
                Ok(())
            },
        }
    }

    /// Fires `waker`: appends the identifier of its task to the ready queue.
    pub fn wake(&mut self, waker: &TaskWaker)
        requires
            old(self).wf(),
            old(self)@.ready.len() < old(self)@.capacity,
        ensures
            final(self).wf(),
            final(self)@ == old(self)@.woken(waker.task_id().0),
            final(self).tasks() == old(self).tasks(),
    {
        let _ = id_queue_push(&mut self.task_queue, waker.target().0);
    }

    /// Fires `waker` if the ready queue has room. Returns whether it did; if
    /// not, nothing has changed.
    pub fn try_wake(&mut self, waker: &TaskWaker) -> (queued: bool)
        requires
            old(self).wf(),
        ensures
            final(self).wf(),
            (final(self)@, queued) == old(self)@.try_woken(waker.task_id().0),
            final(self).tasks() == old(self).tasks(),
    {
        id_queue_push(&mut self.task_queue, waker.target().0).is_ok()
    }

    /// Empties the ready queue and returns the tasks to poll in this pass: each
    /// live task that waited, once, in the order of its first entry. Entries
    /// of tasks that are no longer live are dropped.
    pub fn take_ready(&mut self) -> (batch: Vec<TaskId>)
        requires
            old(self).wf(),
        ensures
            final(self).wf(),
            final(self)@ == old(self)@.drained(),
            final(self).tasks() == old(self).tasks(),
            id_numbers(batch@) == poll_plan(old(self)@.ready, old(self)@.live),
    {
        broadcast use {vstd::std_specs::btree::group_btree_axioms, vstd::laws_cmp::group_laws_cmp};

        let ghost waiting = id_queue_items(self.task_queue);
        let ghost live = self.tasks@.dom();
        let mut batch: Vec<TaskId> = Vec::new();
        let ghost mut taken: int = 0;
        assert(waiting.take(0) =~= Seq::<u64>::empty());
        assert(id_numbers(batch@) =~= Seq::<u64>::empty());
        assert(waiting.skip(0) =~= waiting);
        loop
            invariant
                self.wf(),
                self.tasks@ == old(self).tasks@,
                self.waker_cache@ == old(self).waker_cache@,
                live == self.tasks@.dom(),
                0 <= taken <= waiting.len(),
                id_queue_items(self.task_queue) == waiting.skip(taken),
                id_numbers(batch@) == poll_plan(waiting.take(taken), live),
            ensures
                taken == waiting.len(),
                id_queue_items(self.task_queue) == Seq::<u64>::empty(),
            decreases waiting.len() - taken,
        {
            match id_queue_pop(&mut self.task_queue) {
                None => {
                    break ;
                },
                Some(number) => {
                    let id = TaskId(number);
                    let ghost before = id_numbers(batch@);
                    proof {
                        let prefix = waiting.take(taken + 1);
                        assert(prefix.drop_last() =~= waiting.take(taken));
                        assert(prefix.last() == number);
                        assert(waiting.skip(taken).skip(1) =~= waiting.skip(taken + 1));
                        assert(waiting.skip(taken)[0] == waiting[taken]);
                        taken = taken + 1;
                    }
                    if self.tasks.contains_key(&number) && !seen_before(&batch, id) {
                        batch.push(id);
                        assert(id_numbers(batch@) =~= before.push(number));
                    }
                },
            }
        }
        proof {
            assert(waiting.take(taken) =~= waiting);
        }
        batch
    }

    /// Takes the live task `id` out of the table to be polled, and returns it
    /// with its waker, which is made now if the task has none yet.
    pub fn begin_poll(&mut self, id: TaskId) -> (polled: (Task<F>, TaskWaker))
        requires
            old(self).wf(),
            old(self)@.live.contains(id.0),
        ensures
            final(self).wf_while_polling(id.0),
            polled.0 == old(self).tasks()[id.0],
            polled.0.id() == id,
            polled.1 == TaskWaker::of(id),
            polled.1.task_id() == id,
            final(self).waker(id.0) == polled.1,
            old(self)@.wakers.contains(id.0) ==> polled.1 == old(self).waker(id.0),
            final(self).tasks() == old(self).tasks().remove(id.0),
            final(self)@ == (ExecutorState {
                live: old(self)@.live.remove(id.0),
                wakers: old(self)@.wakers.insert(id.0),
                ..old(self)@
            }),
    {
        broadcast use {vstd::std_specs::btree::group_btree_axioms, vstd::laws_cmp::group_laws_cmp};

        let task = self.tasks.remove(&id.0).unwrap();
        let waker = match self.waker_cache.get(&id.0) {
            Some(waker) => *waker,
            None => {
                let waker = TaskWaker::new(id);
                let _ = self.waker_cache.insert(id.0, waker);
                waker
            },
        };
        assert(self.waker_cache@.dom() =~= old(self).waker_cache@.dom().insert(id.0));
        proof {
            waker.lemma_one_waker_per_task();
        }
        (task, waker)
    }

    /// Files the polled `task` according to what it reported: a finished task
    /// is dropped together with its waker, any other task goes back into the
    /// table, and one that is still runnable is queued again.
    pub fn finish_poll(&mut self, task: Task<F>, outcome: PollOutcome)
        requires
            old(self).wf_while_polling(task.id().0),
            old(self)@.ready.len() < old(self)@.capacity,
        ensures
            final(self).wf(),
            outcome == PollOutcome::Finished ==> final(self)@ == (ExecutorState {
                wakers: old(self)@.wakers.remove(task.id().0),
                ..old(self)@
            }),
            outcome == PollOutcome::Runnable ==> final(self)@ == (ExecutorState {
                live: old(self)@.live.insert(task.id().0),
                ready: old(self)@.ready.push(task.id().0),
                ..old(self)@
            }),
            outcome == PollOutcome::Suspended ==> final(self)@ == (ExecutorState {
                live: old(self)@.live.insert(task.id().0),
                ..old(self)@
            }),
            final(self).tasks() == if outcome == PollOutcome::Finished {
                old(self).tasks()
            } else {
                old(self).tasks().insert(task.id().0, task)
            },
            outcome != PollOutcome::Finished ==> final(self).waker(task.id().0) == old(self).waker(
                task.id().0,
            ),
    {
        broadcast use {vstd::std_specs::btree::group_btree_axioms, vstd::laws_cmp::group_laws_cmp};

        let id = task.task_id().0;
        match outcome {
            PollOutcome::Finished => {
                let _ = self.waker_cache.remove(&id);
            },
            PollOutcome::Runnable => {
                let _ = self.tasks.insert(id, task);
                let _ = id_queue_push(&mut self.task_queue, id);
            },
            PollOutcome::Suspended => {
                let _ = self.tasks.insert(id, task);
            },
        }
    }

    /// Polls the live task `id` once, with its waker, and files it according
    /// to what it reported: the task's state machine makes one step, with the
    /// waker of `id`, and its report is returned. Every other task is left as
    /// it was.
    pub fn poll_task(&mut self, id: TaskId) -> (outcome: PollOutcome)
        requires
            old(self).wf(),
            old(self)@.live.contains(id.0),
            old(self)@.ready.len() < old(self)@.capacity,
        ensures
            final(self).wf(),
            final(self)@ == old(self)@.settled(PollRecord { id, outcome }),
            final(self).tasks().remove(id.0) == old(self).tasks().remove(id.0),
            polled_in(old(self).tasks(), final(self).tasks(), PollRecord { id, outcome }),
            outcome != PollOutcome::Finished ==> final(self).waker(id.0) == TaskWaker::of(id),
    {
        let (mut task, waker) = self.begin_poll(id);
        let outcome = task.poll(&waker);
        let ghost left = task;
        self.finish_poll(task, outcome);
        proof {
            assert(self.tasks().remove(id.0) =~= old(self).tasks().remove(id.0));
            assert(poll_made(old(self).tasks()[id.0], PollRecord { id, outcome }, left));
        }
        outcome
    }

    /// One drain pass: takes every waiting identifier off the ready queue, and
    /// polls each live task among them once, in the order in which they first
    /// became ready. A task that reports `Runnable` is queued for the next pass.
    /// The report lists the polls in the order in which they were made.
    pub fn run_ready_tasks(&mut self) -> (report: Vec<PollRecord>)
        requires
            old(self).wf(),
        ensures
            final(self).wf(),
            polled_ids(report@) == poll_plan(old(self)@.ready, old(self)@.live),
            final(self)@ == old(self)@.drained().after_polls(report@),
            forall|id: u64|
                !polled_ids(report@).contains(id) ==> #[trigger] same_task(
                    old(self).tasks(),
                    final(self).tasks(),
                    id,
                ),
            forall|i: int|
                0 <= i < report.len() ==> polled_in(
                    old(self).tasks(),
                    final(self).tasks(),
                    #[trigger] report[i],
                ),
    {
        let ghost start = self@;
        proof {
            self.lemma_wf_view();
            lemma_poll_plan_members(start.ready, start.live);
            lemma_poll_plan_no_duplicates(start.ready, start.live);
        }
        let batch = self.take_ready();
        let ghost plan = id_numbers(batch@);
        let mut report: Vec<PollRecord> = Vec::new();
        let mut i: usize = 0;
        proof {
            assert(polled_ids(report@) =~= plan.subrange(0, 0));
            assert forall|j: int| 0 <= j < plan.len() implies self@.live.contains(
                #[trigger] plan[j],
            ) by {
                assert(plan.contains(plan[j]));
            }
        }
        while i < batch.len()
            invariant
                self.wf(),
                i <= batch.len(),
                report.len() == i,
                batch.len() <= TASK_QUEUE_CAPACITY,
                plan == id_numbers(batch@),
                plan.no_duplicates(),
                self@.capacity == TASK_QUEUE_CAPACITY,
                self@.ready.len() <= i,
                forall|j: int| i <= j < plan.len() ==> self@.live.contains(#[trigger] plan[j]),
                polled_ids(report@) == plan.subrange(0, i as int),
                self@ == start.drained().after_polls(report@),
                forall|k: u64|
                    !polled_ids(report@).contains(k) ==> #[trigger] same_task(
                        old(self).tasks(),
                        self.tasks(),
                        k,
                    ),
                forall|j: int|
                    0 <= j < i ==> polled_in(old(self).tasks(), self.tasks(), #[trigger] report[j]),
            decreases batch.len() - i,
        {
            let id = batch[i];
            assert(plan[i as int] == id.0);
            let ghost before = self@;
            let ghost tasks_before = self.tasks();
            let ghost polled = report@;
            let outcome = self.poll_task(id);
            let record = PollRecord { id, outcome };
            report.push(record);
            proof {
                assert(report@.drop_last() =~= polled);
                assert forall|k: int| 0 <= k < i + 1 implies polled_ids(report@)[k] == plan[k] by {
                    if k < i {
                        assert(polled_ids(polled)[k] == plan.subrange(0, i as int)[k]);
                    }
                }
                assert(polled_ids(report@) =~= plan.subrange(0, i + 1));
                assert forall|j: int| i + 1 <= j < plan.len() implies self@.live.contains(
                    #[trigger] plan[j],
                ) by {
                    assert(plan[j] != plan[i as int]);
                    assert(before.live.contains(plan[j]));
                }
                assert forall|k: u64| !polled_ids(report@).contains(k) implies #[trigger] same_task(
                    old(self).tasks(),
                    self.tasks(),
                    k,
                ) by {
                    assert(polled_ids(report@)[i as int] == id.0);
                    assert(k != id.0);
                    if polled_ids(polled).contains(k) {
                        let a = choose|a: int| 0 <= a < polled.len() && polled_ids(polled)[a] == k;
                        assert(polled_ids(report@)[a] == k);
                    }
                    assert(same_task(old(self).tasks(), tasks_before, k));
                    assert(self.tasks().remove(id.0).contains_key(k) == tasks_before.remove(
                        id.0,
                    ).contains_key(k));
                    assert(self.tasks().remove(id.0)[k] == tasks_before.remove(id.0)[k]);
                }
                assert forall|j: int| 0 <= j < i + 1 implies polled_in(
                    old(self).tasks(),
                    self.tasks(),
                    #[trigger] report[j],
                ) by {
                    if j < i {
                        let earlier = polled[j];
                        assert(report[j] == earlier);
                        assert(polled_ids(polled)[j] == plan[j]);
                        assert(plan[j] != plan[i as int]);
                        assert(earlier.id.0 != id.0);
                        let left = choose|left: Task<F>|
                            {
                                &&& #[trigger] poll_made(
                                    old(self).tasks()[earlier.id.0],
                                    earlier,
                                    left,
                                )
                                &&& earlier.outcome != PollOutcome::Finished
                                    ==> tasks_before.contains_key(earlier.id.0)
                                    && tasks_before[earlier.id.0] == left
                            };
                        assert(poll_made(old(self).tasks()[earlier.id.0], earlier, left));
                        assert(self.tasks().remove(id.0).contains_key(earlier.id.0)
                            == tasks_before.remove(id.0).contains_key(earlier.id.0));
                        assert(self.tasks().remove(id.0)[earlier.id.0] == tasks_before.remove(
                            id.0,
                        )[earlier.id.0]);
                    } else {
                        assert(report[j] == record);
                        assert(!polled_ids(polled).contains(id.0)) by {
                            if polled_ids(polled).contains(id.0) {
                                let a = choose|a: int|
                                    0 <= a < polled.len() && polled_ids(polled)[a] == id.0;
                                assert(plan[a] == plan[i as int]);
                            }
                        }
                        assert(same_task(old(self).tasks(), tasks_before, id.0));
                        let left = choose|left: Task<F>|
                            {
                                &&& #[trigger] poll_made(tasks_before[id.0], record, left)
                                &&& record.outcome != PollOutcome::Finished
                                    ==> self.tasks().contains_key(id.0) && self.tasks()[id.0]
                                    == left
                            };
                        assert(poll_made(old(self).tasks()[id.0], record, left));
                    }
                }
            }
            i += 1;
        }
        assert(plan.subrange(0, i as int) =~= plan);
        report
    }
}

impl TaskWaker {
    /// Fires the waker: appends the identifier of its task to the ready queue
    /// of `executor`, which has room for it.
    pub fn wake_task<F: StateMachine>(&self, executor: &mut Executor<F>)
        requires
            old(executor).wf(),
            !old(executor)@.full(),
        ensures
            final(executor).wf(),
            final(executor)@ == old(executor)@.woken(self.task_id().0),
            final(executor).tasks() == old(executor).tasks(),
    {
        executor.wake(self)
    }
}

} // verus!
